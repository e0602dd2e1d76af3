use voice_core::resample::resample_linear_i16;

// Equal rates pass the input through unchanged, whatever the rate.
#[test]
fn equal_rates_are_identity() {
    let data: Vec<i16> = vec![3, -7, 10_000, -32768, 32767];
    assert_eq!(resample_linear_i16(&data, 16000, 16000), data);
    assert_eq!(resample_linear_i16(&data, 44100, 44100), data);
    assert_eq!(resample_linear_i16(&data, 1, 1), data);
    assert_eq!(resample_linear_i16(&data, 0, 0), data);
}

// Empty input resamples to empty, also across different rates.
#[test]
fn empty_input_stays_empty() {
    let data: Vec<i16> = vec![];
    assert_eq!(resample_linear_i16(&data, 48000, 16000), data);
    assert_eq!(resample_linear_i16(&data, 8000, 16000), data);
}

// A capture too short to interpolate still yields its first sample.
#[test]
fn degenerate_input_keeps_first_sample() {
    let data: Vec<i16> = vec![42];
    assert_eq!(resample_linear_i16(&data, 48000, 16000), vec![42]);
}

// Downsampling 3:1 reads every third sample.
#[test]
fn downsample_three_to_one() {
    let data: Vec<i16> = vec![0, 1, 2, 3, 4, 5, 6, 7, 8];
    assert_eq!(resample_linear_i16(&data, 48000, 16000), vec![0, 3, 6]);
}

// A fractional cursor interpolates linearly between neighbours.
#[test]
fn fractional_cursor_interpolates() {
    let data: Vec<i16> = vec![0, 300];
    assert_eq!(resample_linear_i16(&data, 2, 3), vec![0, 200]);
}

// Interpolation rounds down, also between a sample and a smaller successor.
#[test]
fn interpolation_rounds_down() {
    let data: Vec<i16> = vec![0, -3];
    assert_eq!(resample_linear_i16(&data, 1, 2), vec![0, -2]);
}

// Output length tracks the rate ratio to within one sample and is never
// zero for nonempty input.
#[test]
fn downsampled_length_tracks_ratio() {
    let data: Vec<i16> = vec![100; 480];
    let out = resample_linear_i16(&data, 48000, 16000);
    assert_eq!(out.len(), 160);
    assert!(out.iter().all(|&s| s == 100));

    let out = resample_linear_i16(&data, 44100, 16000);
    let expected = 480.0 * 16000.0 / 44100.0;
    assert!((out.len() as f64 - expected).abs() <= 1.0);
    assert!(!out.is_empty());
}
