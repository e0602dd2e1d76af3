use voice_core::convert::{
    interleaved_i16_to_mono, interleaved_raw_to_mono, interleaved_u16_to_mono,
};

// A two-channel frame is downmixed to the mean of its clamped amplitudes:
// 1.5 and -1.5 scaled by 32767 arrive as 49150 and -49150, clamp to full
// scale, and cancel.
#[test]
fn stereo_out_of_range_frame_cancels() {
    let data: Vec<i32> = vec![49150, -49150];
    let mono = interleaved_raw_to_mono(&data, 2);
    assert_eq!(mono, vec![0]);
}

#[test]
fn raw_samples_are_clamped_to_full_scale() {
    let data: Vec<i32> = vec![40000, -40000, 1234];
    let mono = interleaved_raw_to_mono(&data, 1);
    assert_eq!(mono, vec![32767, -32767, 1234]);
}

#[test]
fn i16_stereo_mean() {
    let data: Vec<i16> = vec![1000, 2000, -300, 100];
    let mono = interleaved_i16_to_mono(&data, 2);
    assert_eq!(mono, vec![1500, -100]);
}

// The mean rounds down, also for negative sums.
#[test]
fn i16_stereo_mean_rounds_down() {
    let data: Vec<i16> = vec![-32768, 0];
    let mono = interleaved_i16_to_mono(&data, 2);
    assert_eq!(mono, vec![-16384]);
}

// One channel is the fast path: only -32768 moves (to -32767).
#[test]
fn i16_mono_passthrough() {
    let data: Vec<i16> = vec![5, -32768, 7, 32767];
    let mono = interleaved_i16_to_mono(&data, 1);
    assert_eq!(mono, vec![5, -32767, 7, 32767]);
}

// Unsigned samples map affinely: 0 to -32767, 65535 to 32767, and the
// midpoint 32768 to 0.
#[test]
fn u16_affine_mapping() {
    let data: Vec<u16> = vec![0, 65535, 32768];
    let mono = interleaved_u16_to_mono(&data, 1);
    assert_eq!(mono, vec![-32767, 32767, 0]);
}

#[test]
fn u16_stereo_extremes_cancel() {
    let data: Vec<u16> = vec![0, 65535];
    let mono = interleaved_u16_to_mono(&data, 2);
    assert_eq!(mono, vec![0]);
}

// Only complete frames are converted: a trailing partial frame is dropped.
#[test]
fn partial_trailing_frame_is_dropped() {
    let data: Vec<i16> = vec![10, 20, 30];
    let mono = interleaved_i16_to_mono(&data, 2);
    assert_eq!(mono, vec![15]);
}

#[test]
fn empty_input_gives_empty_mono() {
    let data: Vec<i16> = vec![];
    assert_eq!(interleaved_i16_to_mono(&data, 2), Vec::<i16>::new());
}
