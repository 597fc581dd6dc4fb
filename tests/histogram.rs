use fehstatsim::counter::Counter;
use fehstatsim::stats::{percentile, percentiles, Fraction};

fn frac(num: u32, den: u32) -> Fraction {
    Fraction { num, den }
}

fn counter_of(values: &[u32]) -> Counter {
    let mut c = Counter::new();
    for &v in values {
        c.increment(v);
    }
    c
}

#[test]
fn counter_reads_zero_past_end_and_grows() {
    let mut c = Counter::new();
    assert!(c.is_empty());
    assert_eq!(c.get(100), 0);
    c.increment(7);
    c.increment(7);
    c.increment(2);
    assert_eq!(c.get(7), 2);
    assert_eq!(c.get(2), 1);
    assert_eq!(c.get(3), 0);
    assert_eq!(c.len(), 8);
    c.increment(3);
    assert_eq!(c.len(), 8);
    assert_eq!(c.total_count(), 4);
    assert!(!c.is_empty());
    c.clear();
    assert!(c.is_empty());
    assert_eq!(c.get(7), 0);
}

#[test]
fn empty_histogram_percentiles_are_zero() {
    let c = Counter::new();
    assert!(c.is_empty());
    assert_eq!(c.total_count(), 0);
    for (n, d) in [(0, 1), (1, 2), (1, 1), (99, 100)] {
        assert_eq!(percentile(&c, frac(n, d)), 0);
    }
    assert_eq!(percentiles(&c, &[frac(1, 4), frac(1, 2)]), vec![0, 0]);
}

#[test]
fn percentile_exact_values() {
    // Keys 10, 20, 30, 40 once each.
    let c = counter_of(&[10, 20, 30, 40]);
    assert_eq!(percentile(&c, frac(0, 1)), 10);
    assert_eq!(percentile(&c, frac(1, 4)), 20);
    assert_eq!(percentile(&c, frac(1, 2)), 30);
    assert_eq!(percentile(&c, frac(3, 4)), 40);
    assert_eq!(percentile(&c, frac(1, 1)), 40);
    assert_eq!(percentile(&c, frac(1, 5)), 10);
}

#[test]
fn percentile_edges_are_smallest_and_largest_keys() {
    let c = counter_of(&[5, 5, 9, 12, 12, 12, 30]);
    assert_eq!(percentile(&c, frac(0, 1)), 5);
    assert_eq!(percentile(&c, frac(1, 1)), 30);
    assert_eq!(percentile(&c, frac(7, 7)), 30);
}

#[test]
fn percentile_is_monotone() {
    let c = counter_of(&[3, 3, 4, 8, 8, 8, 8, 15, 20, 20]);
    let mut last = 0;
    for n in 0..=100 {
        let p = percentile(&c, frac(n, 100));
        assert!(p >= last);
        last = p;
    }
    assert_eq!(last, 20);
}

#[test]
fn percentiles_match_single_queries() {
    let c = counter_of(&[1, 2, 2, 3, 5, 8, 8, 8, 13, 21, 21, 34]);
    let qs = [frac(1, 4), frac(1, 2), frac(3, 4)];
    let many = percentiles(&c, &qs);
    let single: Vec<u32> = qs.iter().map(|&q| percentile(&c, q)).collect();
    assert_eq!(many, single);
    assert_eq!(many, vec![3, 8, 21]);
}

#[test]
fn percentiles_with_repeated_and_whole_fractions() {
    let c = counter_of(&[4, 6, 6, 9]);
    let qs = [frac(0, 1), frac(1, 2), frac(1, 2), frac(1, 1), frac(1, 1)];
    assert_eq!(percentiles(&c, &qs), vec![4, 6, 6, 9, 9]);
    assert_eq!(percentile(&c, frac(1, 2)), 6);
    assert_eq!(percentile(&c, frac(1, 3)), 6);
}
