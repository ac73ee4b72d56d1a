use orbital::readout::{countdown, elapsed_time, zero_padded, Countdown, ElapsedTime};

#[test]
fn elapsed_time_splits_units() {
    assert_eq!(
        elapsed_time(0),
        ElapsedTime { years: 0, days: 0, hours: 0, minutes: 0, seconds: 0 }
    );
    assert_eq!(
        elapsed_time(31_536_000 + 2 * 86_400 + 3 * 3_600 + 4 * 60 + 5),
        ElapsedTime { years: 1, days: 2, hours: 3, minutes: 4, seconds: 5 }
    );
    assert_eq!(
        elapsed_time(86_399),
        ElapsedTime { years: 0, days: 0, hours: 23, minutes: 59, seconds: 59 }
    );
}

#[test]
fn countdown_splits_units() {
    assert_eq!(countdown(3_725), Countdown { hours: 1, minutes: 2, seconds: 5 });
    assert_eq!(countdown(360_000), Countdown { hours: 100, minutes: 0, seconds: 0 });
}

#[test]
fn zero_padding_matches_std() {
    for n in [0u64, 5, 9, 10, 42, 365, 999, 1000, 123_456, u64::MAX] {
        assert_eq!(zero_padded(n, 3), format!("{:03}", n));
        assert_eq!(zero_padded(n, 2), format!("{:02}", n));
        assert_eq!(zero_padded(n, 0), format!("{}", n));
    }
    assert_eq!(zero_padded(7, 3), "007");
}
