use voice_core::meter::LevelMeter;

// A constant-amplitude window meters as the amplitude itself: 800 samples of
// 16384 (about half scale) give RMS 16384.
#[test]
fn constant_window_rms_is_amplitude() {
    let mut meter = LevelMeter::new(0);
    let window: Vec<i16> = vec![16384; 800];
    assert_eq!(meter.feed(&window, 100), Some(16384));
}

// Two full windows 10 ms apart yield one event; refilled 60 ms after the
// first, a window yields its own event again.
#[test]
fn throttle_suppresses_close_windows() {
    let mut meter = LevelMeter::new(0);
    let window: Vec<i16> = vec![1000; 800];
    assert_eq!(meter.feed(&window, 100), Some(1000));
    assert_eq!(meter.feed(&window, 110), None);
    assert_eq!(meter.feed(&window, 160), Some(1000));
}

#[test]
fn windows_a_full_interval_apart_both_emit() {
    let mut meter = LevelMeter::new(0);
    let window: Vec<i16> = vec![500; 800];
    assert!(meter.feed(&window, 60).is_some());
    assert!(meter.feed(&window, 120).is_some());
}

// Below the window threshold nothing is computed; the window accumulates.
#[test]
fn short_batches_accumulate() {
    let mut meter = LevelMeter::new(0);
    let batch: Vec<i16> = vec![2000; 799];
    assert_eq!(meter.feed(&batch, 100), None);
    let one: Vec<i16> = vec![2000];
    assert_eq!(meter.feed(&one, 101), Some(2000));
}

// A throttled window is discarded, not queued: the next event covers only
// samples that arrived after the throttled check.
#[test]
fn throttled_window_is_discarded() {
    let mut meter = LevelMeter::new(0);
    let loud: Vec<i16> = vec![32767; 800];
    assert_eq!(meter.feed(&loud, 10), None);
    let quiet: Vec<i16> = vec![0; 800];
    assert_eq!(meter.feed(&quiet, 60), Some(0));
}

// RMS over a mixed window: 400 zeros and 400 samples of 1000 give
// sqrt(400 * 1000^2 / 800) = 707 (rounded down).
#[test]
fn mixed_window_rms() {
    let mut meter = LevelMeter::new(0);
    let mut batch: Vec<i16> = vec![0; 400];
    batch.extend(std::iter::repeat(1000).take(400));
    assert_eq!(meter.feed(&batch, 100), Some(707));
}

// The very first window is throttled against the meter's creation time.
#[test]
fn first_window_respects_creation_time() {
    let mut meter = LevelMeter::new(1000);
    let window: Vec<i16> = vec![100; 800];
    assert_eq!(meter.feed(&window, 1010), None);
    assert_eq!(meter.feed(&window, 1050), Some(100));
}
