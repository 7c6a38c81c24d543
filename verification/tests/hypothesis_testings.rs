use rustats::hypothesis_testings::{MannWhitneyU, MAX_SAMPLES};
use rustats::num::FiniteF64;
use std::cmp::Ordering;
use std::f64::consts::SQRT_2;

/// The p-value of the test by the normal approximation, from the exact
/// statistics.
fn p_value(mw: &MannWhitneyU) -> Option<f64> {
    if !mw.has_p_value() {
        return None;
    }
    let (xn, yn) = mw.sample_sizes();
    let u = mw.twice_u() as f64 / 2.0;
    let mu = mw.mu() as f64;
    let t = mw.tie_sum() as f64;
    let n = mw.n() as f64;
    let n1 = xn as f64;
    let n2 = yn as f64;
    let au = ((n1 * n2 * ((n + 1.0) - t / (n * (n - 1.0)))) / 12.0).sqrt();
    let z = (u - mu) / au;
    let cdf = 0.5 * libm::erfc(-z.abs() / SQRT_2);
    Some((1.0 - cdf) * 2.0)
}

fn test(mw: &MannWhitneyU, alpha: f64) -> bool {
    assert!(alpha > 0.0);
    let p = p_value(mw).map(|p| FiniteF64::new(p.to_bits()).unwrap());
    mw.test(p, FiniteF64::new(alpha.to_bits()).unwrap())
}

#[test]
fn mann_whitney_u_works() {
    // Example-1
    let placebo = vec![7, 5, 6, 4, 12];
    let new_drug = vec![3, 6, 4, 2, 1];
    assert!(!test(&MannWhitneyU::new(&placebo, &new_drug), 0.05));

    // Example-2
    let usual_care = vec![8, 7, 6, 2, 5, 8, 7, 3];
    let new_program = vec![9, 9, 7, 8, 10, 9, 6];
    let mw = MannWhitneyU::new(&usual_care, &new_program);
    assert!(test(&mw, 0.05));
    assert_eq!(mw.order(test(&mw, 0.05)), Ordering::Less);

    // Example-3
    let standard_therapy = vec![
        7500, 8000, 2000, 550, 1250, 1000, 2250, 6800, 3400, 6300, 9100, 970, 1040, 670, 400,
    ];
    let new_therapy = vec![
        400, 250, 800, 1400, 8000, 7400, 1020, 6000, 920, 1420, 2700, 4200, 5200, 4100,
    ];
    assert!(!test(&MannWhitneyU::new(&standard_therapy, &new_therapy), 0.05));
}

#[test]
fn tie_groups_count_each_distinct_value_in_each_sample() {
    let mw = MannWhitneyU::new(&[7, 5, 6, 4, 12], &[3, 6, 4, 2, 1]);
    assert_eq!(mw.distinct_values(), &[1, 2, 3, 4, 5, 6, 7, 12]);
    assert_eq!(
        mw.tie_groups(),
        &[(0, 1), (0, 1), (0, 1), (1, 1), (1, 0), (1, 1), (1, 0), (1, 0)]
    );
    assert_eq!(mw.sample_sizes(), (5, 5));
    assert_eq!(mw.n(), 10);

    let mw = MannWhitneyU::new(&[1, 1, 2], &[1, 3]);
    assert_eq!(mw.distinct_values(), &[1, 2, 3]);
    assert_eq!(mw.tie_groups(), &[(2, 1), (1, 0), (0, 1)]);

    let mw = MannWhitneyU::new(&[i64::MAX, i64::MIN, 0, -1], &[i64::MIN, i64::MAX]);
    assert_eq!(mw.distinct_values(), &[i64::MIN, -1, 0, i64::MAX]);
    assert_eq!(mw.tie_groups(), &[(1, 1), (1, 0), (1, 0), (1, 1)]);
}

#[test]
fn u_statistics_are_exact() {
    let mw = MannWhitneyU::new(&[7, 5, 6, 4, 12], &[3, 6, 4, 2, 1]);
    assert_eq!(mw.twice_xyu(), (44, 6));
    assert_eq!(mw.twice_u(), 6);
    assert_eq!(mw.mu(), 12);
    assert_eq!(mw.tie_sum(), 12);

    let mw = MannWhitneyU::new(&[8, 7, 6, 2, 5, 8, 7, 3], &[9, 9, 7, 8, 10, 9, 6]);
    assert_eq!(mw.twice_xyu(), (17, 95));
    assert_eq!(mw.twice_u(), 17);
    assert_eq!(mw.mu(), 28);
    assert_eq!(mw.tie_sum(), 78);

    let mw = MannWhitneyU::new(&[1, 1, 2], &[1, 3]);
    assert_eq!(mw.twice_xyu(), (4, 8));
    assert_eq!(mw.mu(), 3);
    assert_eq!(mw.tie_sum(), 24);
}

#[test]
fn p_values_follow_from_the_exact_statistics() {
    let mw = MannWhitneyU::new(&[7, 5, 6, 4, 12], &[3, 6, 4, 2, 1]);
    assert!((p_value(&mw).unwrap() - 0.05855263015682666).abs() < 1e-12);
    let mw = MannWhitneyU::new(&[8, 7, 6, 2, 5, 8, 7, 3], &[9, 9, 7, 8, 10, 9, 6]);
    assert!((p_value(&mw).unwrap() - 0.022410040622825145).abs() < 1e-12);
}

#[test]
fn the_u_statistics_add_up_to_the_number_of_pairs() {
    let samples: Vec<(Vec<i64>, Vec<i64>)> = vec![
        (vec![7, 5, 6, 4, 12], vec![3, 6, 4, 2, 1]),
        (vec![8, 7, 6, 2, 5, 8, 7, 3], vec![9, 9, 7, 8, 10, 9, 6]),
        (vec![1, 1, 2], vec![1, 3]),
        (vec![5, 5, 5], vec![5, 5]),
        (vec![], vec![4, 4]),
        (vec![-3, 0, 3], vec![]),
    ];
    for (xs, ys) in samples {
        let mw = MannWhitneyU::new(&xs, &ys);
        let (xu, yu) = mw.twice_xyu();
        assert_eq!(xu + yu, 2 * (xs.len() * ys.len()) as u64);
        let mut pairs: u64 = 0;
        for x in &xs {
            for y in &ys {
                if x > y {
                    pairs += 2;
                } else if x == y {
                    pairs += 1;
                }
            }
        }
        assert_eq!(xu, pairs);
    }
}

#[test]
fn an_empty_sample_has_no_p_value() {
    let mw = MannWhitneyU::new(&[], &[1, 2]);
    assert!(!mw.has_p_value());
    assert_eq!(mw.sample_sizes(), (0, 2));
    assert_eq!(mw.twice_xyu(), (0, 0));
    assert!(p_value(&mw).is_none());
    assert!(!test(&mw, 0.05));
    let mw = MannWhitneyU::new(&[1], &[]);
    assert!(!mw.has_p_value());
    let mw = MannWhitneyU::new(&[], &[]);
    assert!(!mw.has_p_value());
    assert_eq!(mw.n(), 0);
    assert!(mw.tie_groups().is_empty());
    assert!(MannWhitneyU::new(&[1], &[1]).has_p_value());
}

#[test]
fn order_is_equal_without_significance_and_by_u_with_it() {
    let mw = MannWhitneyU::new(&[8, 7, 6, 2, 5, 8, 7, 3], &[9, 9, 7, 8, 10, 9, 6]);
    assert_eq!(mw.order(false), Ordering::Equal);
    assert_eq!(mw.order(true), Ordering::Less);
    let mw = MannWhitneyU::new(&[9, 9, 7, 8, 10, 9, 6], &[8, 7, 6, 2, 5, 8, 7, 3]);
    assert_eq!(mw.order(false), Ordering::Equal);
    assert_eq!(mw.order(true), Ordering::Greater);
    // Equal U statistics count as greater.
    let mw = MannWhitneyU::new(&[1, 4], &[2, 3]);
    assert_eq!(mw.twice_xyu(), (4, 4));
    assert_eq!(mw.order(true), Ordering::Greater);
}

#[test]
fn all_tied_observations_share_one_group() {
    let mw = MannWhitneyU::new(&[5, 5, 5], &[5, 5]);
    assert_eq!(mw.tie_groups(), &[(3, 2)]);
    assert_eq!(mw.twice_xyu(), (6, 6));
    assert_eq!(mw.tie_sum(), 120);
    assert_eq!(mw.mu(), 3);
}

#[test]
fn the_limit_on_observations_is_the_largest_32_bit_number() {
    assert_eq!(MAX_SAMPLES, 4_294_967_295);
}

#[test]
fn the_test_holds_a_p_value_below_the_level() {
    let level = FiniteF64::new(0.05f64.to_bits()).unwrap();
    let below = FiniteF64::new(0.049f64.to_bits()).unwrap();
    let above = FiniteF64::new(0.051f64.to_bits()).unwrap();
    let mw = MannWhitneyU::new(&[1, 2], &[3, 4]);
    assert!(mw.test(Some(below), level));
    assert!(!mw.test(Some(level), level));
    assert!(!mw.test(Some(above), level));
    assert!(!mw.test(None, level));
    assert!(mw.test(Some(FiniteF64::zero()), level));
    // Without an observation in each sample the test has no p-value to hold.
    let mw = MannWhitneyU::new(&[], &[3, 4]);
    assert!(!mw.test(Some(below), level));
}
