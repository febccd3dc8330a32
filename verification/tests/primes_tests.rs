use minikernel::primes::{compute_primes, isprime, plan_for_cpus, plan_shares, split_range};

#[test]
fn small_primes_are_found() {
    let primes: Vec<i64> = (2..50).filter(|&n| isprime(n)).collect();
    assert_eq!(primes, vec![2, 3, 5, 7, 11, 13, 17, 19, 23, 29, 31, 37, 41, 43, 47]);
}

#[test]
fn squares_and_products_of_wheel_candidates_are_not_prime() {
    assert!(!isprime(25));
    assert!(!isprime(49));
    assert!(!isprime(35));
    assert!(!isprime(77));
    assert!(!isprime(121));
    assert!(!isprime(143));
    assert!(!isprime(169));
    assert!(isprime(127));
}

#[test]
fn below_two_only_two_and_three_are_looked_at() {
    assert!(!isprime(0));
    assert!(isprime(1));
    assert!(isprime(-1));
    assert!(!isprime(-2));
    assert!(!isprime(-3));
    assert!(!isprime(-4));
    assert!(isprime(-5));
    assert!(isprime(-25));
}

#[test]
fn large_numbers() {
    assert!(isprime(1_000_000_007));
    assert!(isprime(2_147_483_647));
    assert!(!isprime(1_000_000_007 * 3));
    assert!(!isprime(1_000_003 * 1_000_033));
}

#[test]
fn counts_primes_in_interval() {
    assert_eq!(compute_primes(2, 100), 25);
    assert_eq!(compute_primes(2, 1000), 168);
    assert_eq!(compute_primes(10, 20), 4);
    assert_eq!(compute_primes(20, 10), 0);
    assert_eq!(compute_primes(5, 5), 0);
}

#[test]
fn counting_splits_at_any_point() {
    let whole = compute_primes(2, 500);
    for mid in [2i64, 3, 97, 250, 499, 500] {
        assert_eq!(compute_primes(2, mid) + compute_primes(mid, 500), whole);
    }
}

#[test]
fn split_range_shares_interval() {
    assert_eq!(split_range(100, 4), vec![(2, 26), (26, 50), (50, 74), (74, 99)]);
    assert_eq!(split_range(10, 3), vec![(2, 4), (4, 6), (6, 9)]);
    assert_eq!(split_range(3, 4), vec![(2, 2), (2, 2), (2, 2), (2, 2)]);
    assert_eq!(split_range(1, 1), vec![(2, 0)]);
    assert_eq!(split_range(-10, 4), vec![(2, -1), (-1, -4), (-4, -7), (-7, -11)]);
}

#[test]
fn shares_add_up_to_whole_count() {
    for n in [-20i64, 0, 1, 2, 3, 4, 10, 100, 1000, 1001] {
        for workers in 1i64..9 {
            let total: i64 = split_range(n, workers).iter().map(|&(s, e)| compute_primes(s, e)).sum();
            assert_eq!(total, compute_primes(2, n - 1), "n = {}, workers = {}", n, workers);
        }
    }
}

#[test]
fn plan_has_one_share_per_cpu() {
    let (cpus, plan) = plan_shares(1000);
    let plan = plan.expect("cpu count fits i64");
    assert!(cpus >= 1);
    assert_eq!(plan.len(), cpus);
    assert_eq!(plan, split_range(1000, cpus as i64));
    let total: i64 = plan.iter().map(|&(s, e)| compute_primes(s, e)).sum();
    assert_eq!(total, 168);
}

#[test]
fn plan_for_given_cpu_count() {
    assert_eq!(plan_for_cpus(100, 4), Some(vec![(2, 26), (26, 50), (50, 74), (74, 99)]));
    assert_eq!(plan_for_cpus(10, 1), Some(vec![(2, 9)]));
    if usize::MAX as u128 > i64::MAX as u128 {
        assert_eq!(plan_for_cpus(100, (i64::MAX as u64 + 1) as usize), None);
    }
}
