use simulation::game_time::{decimal_string, two_digit_string, GameTime};

#[test]
fn test_time_progression() {
    let mut time = GameTime::new();

    // Simulate 1 hour of game time (3600 seconds)
    time.tick(3600);

    let (days, hours, minutes) = time.as_dhm();
    assert_eq!(days, 0);
    assert_eq!(hours, 1);
    assert_eq!(minutes, 0);
}

#[test]
fn test_time_scale() {
    let mut time = GameTime::with_scale(2); // 2x speed

    // 1 second real time = 2 seconds game time
    time.tick(1800); // 30 minutes real time

    let (_days, hours, _minutes) = time.as_dhm();
    assert_eq!(hours, 1); // Should be 1 hour game time
}

#[test]
fn test_pause() {
    let mut time = GameTime::new();
    time.pause();

    time.tick(3600);
    assert_eq!(time.elapsed_seconds(), 0);

    time.resume();
    time.tick(3600);
    assert_eq!(time.elapsed_seconds(), 3600);
}

#[test]
fn scaling_multiplies_elapsed_time() {
    let mut time = GameTime::with_scale(60);
    assert_eq!(time.time_scale(), 60);
    time.tick(60);
    assert_eq!(time.elapsed_seconds(), 3600);
    let (days, hours, minutes) = time.as_dhm();
    assert_eq!((days, hours, minutes), (0, 1, 0));
}

#[test]
fn toggle_pause_flips_state() {
    let mut time = GameTime::new();
    assert!(!time.is_paused());
    time.toggle_pause();
    assert!(time.is_paused());
    time.toggle_pause();
    assert!(!time.is_paused());
}

#[test]
fn display_renders_day_and_clock() {
    let mut time = GameTime::with_scale(60);
    time.tick(1469); // 1469 * 60 = 88140 s = 1 day, 0:29
    assert_eq!(time.display(), "Day 1, 00:29 (60x speed)");
    time.pause();
    assert_eq!(time.display(), "Day 1, 00:29 (60x speed) [PAUSED]");
}

#[test]
fn decimal_rendering_is_exact() {
    assert_eq!(decimal_string(0), "0");
    assert_eq!(decimal_string(7), "7");
    assert_eq!(decimal_string(10), "10");
    assert_eq!(decimal_string(90210), "90210");
    assert_eq!(decimal_string(u64::MAX), "18446744073709551615");
    assert_eq!(two_digit_string(5), "05");
    assert_eq!(two_digit_string(59), "59");
}
