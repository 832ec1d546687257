use bench_harness::metrics::{items_per_second, megabytes_per_second, size_ratio, Elapsed};
use bench_harness::ratio::Ratio;

fn as_f64(r: Ratio) -> f64 {
    r.num as f64 / r.den as f64
}

#[test]
fn size_ratio_is_output_over_input() {
    assert_eq!(size_ratio(50, 100), Some(Ratio { num: 50, den: 100 }));
    assert_eq!(as_f64(size_ratio(50, 100).unwrap()), 0.5);
    assert_eq!(as_f64(size_ratio(300, 100).unwrap()), 3.0);
}

#[test]
fn size_ratio_is_one_when_nothing_changed() {
    let ratio = size_ratio(12345, 12345).unwrap();
    assert_eq!(as_f64(ratio), 1.0);
    assert_eq!(ratio.floor(), 1);
    assert!(ratio.is_whole());
}

#[test]
fn size_ratio_of_an_empty_input_is_unavailable() {
    assert_eq!(size_ratio(10, 0), None);
    assert_eq!(size_ratio(0, 0), None);
    assert_eq!(size_ratio(0, 10), Some(Ratio { num: 0, den: 10 }));
}

#[test]
fn one_megabyte_in_one_second() {
    let speed = megabytes_per_second(1_048_576, Elapsed { secs: 1, nanos: 0 }).unwrap();
    assert_eq!(
        speed,
        Ratio { num: 1_048_576 * 1_000_000_000, den: 1_048_576 * 1_000_000_000 }
    );
    assert_eq!(as_f64(speed), 1.0);
}

#[test]
fn ten_megabytes_in_a_quarter_of_a_second() {
    let speed =
        megabytes_per_second(10 * 1_048_576, Elapsed { secs: 0, nanos: 250_000_000 }).unwrap();
    assert_eq!(as_f64(speed), 40.0);
}

#[test]
fn speed_of_a_trial_that_took_no_time_is_unavailable() {
    assert_eq!(megabytes_per_second(1_048_576, Elapsed { secs: 0, nanos: 0 }), None);
    assert_eq!(items_per_second(100, Elapsed { secs: 0, nanos: 0 }), None);
}

#[test]
fn speed_with_the_largest_inputs_does_not_overflow() {
    let slow = Elapsed { secs: u64::MAX, nanos: u32::MAX };
    let speed = megabytes_per_second(u64::MAX, slow).unwrap();
    assert_eq!(speed.num, u64::MAX as u128 * 1_000_000_000);
    assert_eq!(
        speed.den,
        1_048_576 * (u64::MAX as u128 * 1_000_000_000 + u32::MAX as u128)
    );
}

#[test]
fn files_per_second() {
    let rate = items_per_second(100_000, Elapsed { secs: 2, nanos: 500_000_000 }).unwrap();
    assert_eq!(rate, Ratio { num: 100_000 * 1_000_000_000, den: 2_500_000_000 });
    assert_eq!(as_f64(rate), 40_000.0);
}

#[test]
fn elapsed_time_in_other_units() {
    let elapsed = Elapsed { secs: 3, nanos: 141_592_653 };
    assert_eq!(elapsed.total_nanos(), 3_141_592_653);
    assert_eq!(elapsed.total_millis(), 3_141);
    assert!(!elapsed.is_zero());
    assert!(Elapsed { secs: 0, nanos: 0 }.is_zero());
    assert_eq!(Elapsed { secs: 0, nanos: 999_999 }.total_millis(), 0);
}

#[test]
fn duration_is_end_minus_start() {
    let start = Elapsed { secs: 10, nanos: 900_000_000 };
    let end = Elapsed { secs: 12, nanos: 100_000_000 };
    assert_eq!(Elapsed::between(start, end), Elapsed { secs: 1, nanos: 200_000_000 });
    assert_eq!(Elapsed::between(start, start), Elapsed { secs: 0, nanos: 0 });
    assert_eq!(Elapsed::between(end, start), Elapsed { secs: 0, nanos: 0 });
    let zero = Elapsed { secs: 0, nanos: 0 };
    let late = Elapsed { secs: u64::MAX, nanos: u32::MAX };
    assert_eq!(Elapsed::between(zero, late).total_nanos(), late.total_nanos());
    assert_eq!(Elapsed::between(zero, late), Elapsed { secs: u64::MAX, nanos: u32::MAX });
}
