use kale_duration::AbsoluteDuration;

#[test]
fn test_from_nanos() {
    let test_nanos = 32;

    let testee = AbsoluteDuration::from_nanos(test_nanos);

    assert_eq!(testee.as_nanos(), 32)
}

#[test]
fn test_from_micros() {
    let test_micros = 42;

    let testee = AbsoluteDuration::from_micros(test_micros);

    assert_eq!(testee.as_nanos(), 42_000)
}

#[test]
fn test_from_millis() {
    let test_millis = 52;

    let testee = AbsoluteDuration::from_millis(test_millis);

    assert_eq!(testee.as_nanos(), 52_000_000)
}

#[test]
fn test_from_secs() {
    let test_secs = 4;

    let testee = AbsoluteDuration::from_seconds(test_secs);

    assert_eq!(testee.as_nanos(), 4_000_000_000)
}

#[test]
fn test_from_minutes() {
    let test_mins = 2;

    let testee = AbsoluteDuration::from_minutes(test_mins);

    assert_eq!(testee.as_nanos(), 120_000_000_000)
}

#[test]
fn test_from_hours() {
    let test_hours = 3;

    let testee = AbsoluteDuration::from_hours(test_hours);

    assert_eq!(testee.as_nanos(), 10_800_000_000_000)
}

#[test]
fn test_from_days() {
    let test_days = 5;

    let testee = AbsoluteDuration::from_days(test_days);

    assert_eq!(testee.as_nanos(), 432_000_000_000_000)
}

#[test]
fn test_from_weeks() {
    let test_weeks = 1;

    let testee = AbsoluteDuration::from_weeks(test_weeks);

    assert_eq!(testee.as_nanos(), 604_800_000_000_000)
}
