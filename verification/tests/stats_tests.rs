use bench_harness::ratio::Ratio;
use bench_harness::stats::{aggregate, sort_sizes, total_size, SizeStats, StatsError};

fn as_f64(r: Ratio) -> f64 {
    r.num as f64 / r.den as f64
}

#[test]
fn three_sizes() {
    let stats = aggregate(&vec![10, 20, 30]).unwrap();
    assert_eq!(stats.total, 60);
    assert_eq!(stats.count, 3);
    assert_eq!(stats.min, 10);
    assert_eq!(stats.max, 30);
    assert_eq!(stats.average, Ratio { num: 60, den: 3 });
    assert_eq!(as_f64(stats.average), 20.0);
    assert_eq!(stats.average.floor(), 20);
    assert!(stats.average.is_whole());
    assert_eq!(stats.median, Ratio { num: 20, den: 1 });
    assert_eq!(as_f64(stats.median), 20.0);
}

#[test]
fn four_sizes_median_is_mean_of_middle_two() {
    let stats = aggregate(&vec![10, 20, 30, 40]).unwrap();
    assert_eq!(stats.median, Ratio { num: 50, den: 2 });
    assert_eq!(as_f64(stats.median), 25.0);
    assert_eq!(stats.total, 100);
    assert_eq!(as_f64(stats.average), 25.0);
}

#[test]
fn empty_input_is_rejected() {
    assert_eq!(aggregate(&Vec::new()), Err(StatsError::EmptyInput));
}

#[test]
fn single_size_is_everything() {
    let stats = aggregate(&vec![7]).unwrap();
    assert_eq!(
        stats,
        SizeStats {
            count: 1,
            total: 7,
            min: 7,
            max: 7,
            average: Ratio { num: 7, den: 1 },
            median: Ratio { num: 7, den: 1 },
        }
    );
}

#[test]
fn input_order_does_not_matter() {
    let sorted = aggregate(&vec![1, 2, 3, 4, 5]).unwrap();
    let shuffled = aggregate(&vec![4, 1, 5, 3, 2]).unwrap();
    assert_eq!(sorted, shuffled);
    assert_eq!(shuffled.median, Ratio { num: 3, den: 1 });
    assert_eq!(shuffled.min, 1);
    assert_eq!(shuffled.max, 5);
}

#[test]
fn median_may_be_a_half() {
    let stats = aggregate(&vec![2, 1]).unwrap();
    assert_eq!(stats.median, Ratio { num: 3, den: 2 });
    assert_eq!(as_f64(stats.median), 1.5);
    assert!(!stats.median.is_whole());
    assert_eq!(stats.median.floor(), 1);
}

#[test]
fn huge_sizes_do_not_overflow() {
    let stats = aggregate(&vec![u64::MAX, u64::MAX]).unwrap();
    assert_eq!(stats.total, 2 * (u64::MAX as u128));
    assert_eq!(stats.median, Ratio { num: 2 * (u64::MAX as u128), den: 2 });
    assert_eq!(stats.min, u64::MAX);
    assert_eq!(stats.max, u64::MAX);
}

#[test]
fn mean_and_median_lie_between_the_extremes() {
    let samples: Vec<Vec<u64>> = vec![
        vec![5],
        vec![3, 3, 3],
        vec![9, 1],
        vec![100, 1, 50, 7, 7, 23],
        vec![0, 0, 1],
        vec![u64::MAX, 0, 17],
    ];
    for sizes in samples {
        let stats = aggregate(&sizes).unwrap();
        let sum: u128 = sizes.iter().map(|s| *s as u128).sum();
        assert_eq!(stats.total, sum);
        assert_eq!(stats.min, *sizes.iter().min().unwrap());
        assert_eq!(stats.max, *sizes.iter().max().unwrap());
        assert!(stats.min as u128 * stats.average.den <= stats.average.num);
        assert!(stats.average.num <= stats.max as u128 * stats.average.den);
        assert!(stats.min as u128 * stats.median.den <= stats.median.num);
        assert!(stats.median.num <= stats.max as u128 * stats.median.den);
    }
}

#[test]
fn sorting_agrees_with_the_standard_sort() {
    let input: Vec<u64> = vec![9, 3, 7, 3, 0, 12, 5, 5, 5, 1, u64::MAX, 2];
    let mut expected = input.clone();
    expected.sort();
    assert_eq!(sort_sizes(&input), expected);
    assert_eq!(sort_sizes(&Vec::new()), Vec::<u64>::new());
    assert_eq!(input[0], 9);
}

#[test]
fn total_size_adds_everything_up() {
    assert_eq!(total_size(&vec![1, 2, 3]), 6);
    assert_eq!(total_size(&Vec::new()), 0);
    assert_eq!(total_size(&vec![u64::MAX, 1]), u64::MAX as u128 + 1);
}

#[test]
fn ratio_needs_a_divisor() {
    assert_eq!(Ratio::new(1, 0), None);
    assert_eq!(Ratio::new(0, 5), Some(Ratio { num: 0, den: 5 }));
    let r = Ratio::new(7, 2).unwrap();
    assert_eq!(r.floor(), 3);
    assert!(!r.is_whole());
    assert!(Ratio { num: 8, den: 2 }.is_whole());
}
