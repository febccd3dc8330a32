//! Primality testing by trial division over the 6k ± 1 wheel, and counting
//! the primes of a half-open interval.
use vstd::prelude::*;
use vstd::arithmetic::div_mod::{lemma_fundamental_div_mod, lemma_mod_multiples_basic};

verus! {

/// `n` is a prime number: at least 2, and no number in `[2, n)` divides it.
pub open spec fn is_prime(n: int) -> bool {
    &&& n >= 2
    &&& forall|d: int| 2 <= d < n ==> #[trigger] (n % d) != 0
}

/// What `isprime` answers for `n`: primality from 2 on; below 2, the test
/// only looks at the divisors 2 and 3 (so `1` and `-1` pass, `0` fails).
pub open spec fn isprime_spec(n: int) -> bool {
    if n >= 2 {
        is_prime(n)
    } else {
        n % 2 != 0 && n % 3 != 0
    }
}

/// If `d` divides `n` and `k` divides `d`, then `k` divides `n`.
proof fn lemma_divides_trans(n: int, d: int, k: int)
    requires
        d > 0,
        k > 0,
        n % d == 0,
        d % k == 0,
    ensures
        n % k == 0,
{
    lemma_fundamental_div_mod(n, d);
    lemma_fundamental_div_mod(d, k);
    let q = n / d;
    let r = d / k;
    assert(n == k * (r * q)) by (nonlinear_arith)
        requires
            n == d * q,
            d == k * r,
    ;
    lemma_mod_multiples_basic(r * q, k);
    assert(k * (r * q) == (r * q) * k) by (nonlinear_arith);
}

/// A number with a proper divisor has one whose square is at most the number.
proof fn lemma_small_divisor(n: int, d: int) -> (e: int)
    requires
        2 <= d < n,
        n % d == 0,
    ensures
        2 <= e,
        e * e <= n,
        n % e == 0,
{
    lemma_fundamental_div_mod(n, d);
    let q = n / d;
    assert(n == d * q);
    assert(q >= 2) by (nonlinear_arith)
        requires
            n == d * q,
            2 <= d < n,
    ;
    if d <= q {
        assert(d * d <= n) by (nonlinear_arith)
            requires
                n == d * q,
                d <= q,
                d >= 2,
        ;
        d
    } else {
        assert(q * q <= n) by (nonlinear_arith)
            requires
                n == d * q,
                q < d,
                q >= 2,
        ;
        assert(n == q * d) by (nonlinear_arith)
            requires
                n == d * q,
        ;
        lemma_mod_multiples_basic(d, q);
        assert(q * d == d * q) by (nonlinear_arith);
        q
    }
}

/// Trial division: `2` and `3` are prime, other multiples of 2 or 3 are not,
/// and then the candidates `i` and `i + 2` for `i = 5, 11, 17, ...` are tried
/// while `i * i <= n`.
pub fn isprime(n: i64) -> (r: bool)
    ensures
        r == isprime_spec(n as int),
{
    if n == 2 || n == 3 {
        return true;
    } else if n % 2 == 0 || n % 3 == 0 {
        return false;
    }
    proof {
        if n % 4 == 0 {
            lemma_divides_trans(n as int, 4, 2);
        }
    }
    let mut i: i64 = 5;
    // `i <= n / i` is `i * i <= n` for positive `i`, without the product.
    while i <= n / i
        invariant
            5 <= i <= 3037000505,
            i % 6 == 5,
            n % 2 != 0,
            n % 3 != 0,
            n != 2,
            n != 3,
            forall|d: int| 2 <= d < i ==> #[trigger] ((n as int) % d) != 0,
        decreases i64::MAX - i,
    {
        assert(i * i <= n && n >= 25) by (nonlinear_arith)
            requires
                i <= n / i,
                i >= 5,
        ;
        assert(i <= 3037000499) by (nonlinear_arith)
            requires
                i * i <= n,
                n <= i64::MAX,
                i >= 5,
        ;
        if (n % i == 0) || (n % (i + 2) == 0) {
            assert(i + 2 < n) by (nonlinear_arith)
                requires
                    i * i <= n,
                    i >= 5,
            ;
            proof {
                if n % i == 0 {
                    assert((n as int) % (i as int) == 0);
                } else {
                    assert((n as int) % ((i + 2) as int) == 0);
                }
            }
            return false;
        }
        proof {
            assert forall|d: int| 2 <= d < i + 6 implies #[trigger] ((n as int) % d) != 0 by {
                if d >= i && (n as int) % d == 0 {
                    if d == i + 1 || d == i + 3 || d == i + 5 {
                        lemma_divides_trans(n as int, d, 2);
                    } else if d == i + 4 {
                        lemma_divides_trans(n as int, d, 3);
                    }
                }
            }
        }
        i += 6;
    }
    proof {
        if n >= 2 {
            assert(n < i * i) by (nonlinear_arith)
                requires
                    n / i < i,
                    n >= 0,
                    i > 0,
            {
                lemma_fundamental_div_mod(n as int, i as int);
            }
            assert forall|d: int| 2 <= d < n implies #[trigger] ((n as int) % d) != 0 by {
                if (n as int) % d == 0 {
                    let e = lemma_small_divisor(n as int, d);
                    assert(e < i) by (nonlinear_arith)
                        requires
                            e * e <= n,
                            n < i * i,
                            e >= 2,
                            i > 0,
                    ;
                    assert((n as int) % e != 0);
                }
            }
        }
    }
    true
}

/// How many `x` in `[lo, hi)` pass `isprime`.
pub open spec fn prime_count(lo: int, hi: int) -> int
    decreases hi - lo,
{
    if hi <= lo {
        0
    } else {
        prime_count(lo, hi - 1) + if isprime_spec(hi - 1) { 1int } else { 0int }
    }
}

/// How many `x` in `[lo, hi)` are congruent to 1 or 5 modulo 6.
spec fn wheel_count(lo: int, hi: int) -> int
    decreases hi - lo,
{
    if hi <= lo {
        0
    } else {
        wheel_count(lo, hi - 1) + if (hi - 1) % 6 == 1 || (hi - 1) % 6 == 5 { 1int } else { 0int }
    }
}

/// How many of 2 and 3 lie in `[lo, hi)`.
spec fn small_count(lo: int, hi: int) -> int {
    (if lo <= 2 < hi { 1int } else { 0int }) + (if lo <= 3 < hi { 1int } else { 0int })
}

/// Counting the primes of `[lo, hi)` is counting those of `[lo, mid)` and
/// those of `[mid, hi)`, for any split point between the ends.
pub proof fn lemma_prime_count_split(lo: int, mid: int, hi: int)
    requires
        lo <= mid <= hi,
    ensures
        prime_count(lo, hi) == prime_count(lo, mid) + prime_count(mid, hi),
    decreases hi - mid,
{
    if hi > mid {
        lemma_prime_count_split(lo, mid, hi - 1);
    }
}

/// An interval that is empty or reversed holds no primes.
pub proof fn lemma_prime_count_empty(lo: int, hi: int)
    requires
        hi <= lo,
    ensures
        prime_count(lo, hi) == 0,
{
}

proof fn lemma_wheel_count_split(lo: int, mid: int, hi: int)
    requires
        lo <= mid <= hi,
    ensures
        wheel_count(lo, hi) == wheel_count(lo, mid) + wheel_count(mid, hi),
    decreases hi - mid,
{
    if hi > mid {
        lemma_wheel_count_split(lo, mid, hi - 1);
    }
}

proof fn lemma_wheel_count_nonneg(lo: int, hi: int)
    ensures
        wheel_count(lo, hi) >= 0,
    decreases hi - lo,
{
    if hi > lo {
        lemma_wheel_count_nonneg(lo, hi - 1);
    }
}

/// Six consecutive integers hold exactly two wheel candidates.
proof fn lemma_wheel_count_six(lo: int)
    ensures
        wheel_count(lo, lo + 6) == 2,
{
    reveal_with_fuel(wheel_count, 7);
}

proof fn lemma_wheel_count_bound(lo: int, hi: int)
    requires
        lo <= hi,
    ensures
        wheel_count(lo, hi) <= 2 * ((hi - lo) / 6) + 2,
    decreases hi - lo,
{
    if hi - lo < 6 {
        lemma_wheel_count_split(lo, hi, lo + 6);
        lemma_wheel_count_nonneg(hi, lo + 6);
        lemma_wheel_count_six(lo);
    } else {
        lemma_wheel_count_bound(lo, hi - 6);
        lemma_wheel_count_split(lo, hi - 6, hi);
        lemma_wheel_count_six(hi - 6);
        assert((hi - lo) / 6 == (hi - 6 - lo) / 6 + 1);
    }
}

/// A number that passes `isprime` is 2, 3, or a wheel candidate.
proof fn lemma_passes_on_wheel(x: int)
    requires
        isprime_spec(x),
    ensures
        x == 2 || x == 3 || x % 6 == 1 || x % 6 == 5,
{
    if x >= 2 && x != 2 && x != 3 {
        assert(x % 2 != 0);
        assert(x % 3 != 0) by {
            if x == 4 {
                assert(x % 2 != 0);
            }
        }
    }
}

proof fn lemma_prime_count_le_wheel(lo: int, hi: int)
    requires
        lo <= hi,
    ensures
        prime_count(lo, hi) <= wheel_count(lo, hi) + small_count(lo, hi),
    decreases hi - lo,
{
    if hi > lo {
        lemma_prime_count_le_wheel(lo, hi - 1);
        if isprime_spec(hi - 1) {
            lemma_passes_on_wheel(hi - 1);
        }
    }
}

/// At most a third of an interval, plus four, passes `isprime`.
pub proof fn lemma_prime_count_bound(lo: int, hi: int)
    requires
        lo <= hi,
    ensures
        0 <= prime_count(lo, hi) <= (hi - lo) / 3 + 4,
{
    lemma_prime_count_le_wheel(lo, hi);
    lemma_wheel_count_bound(lo, hi);
    lemma_prime_count_nonneg(lo, hi);
}

proof fn lemma_prime_count_nonneg(lo: int, hi: int)
    ensures
        prime_count(lo, hi) >= 0,
    decreases hi - lo,
{
    if hi > lo {
        lemma_prime_count_nonneg(lo, hi - 1);
    }
}

/// Counts the numbers of `[start, end)` that pass `isprime`.
pub fn compute_primes(start: i64, end: i64) -> (count: i64)
    ensures
        count == prime_count(start as int, end as int),
{
    let mut counter: i64 = 0;
    let mut i: i64 = start;
    while i < end
        invariant
            start <= i,
            i <= end || i == start,
            counter == prime_count(start as int, i as int),
        decreases end - i,
    {
        proof {
            lemma_prime_count_bound(start as int, i as int);
        }
        if isprime(i) == true {
            counter += 1;
        }
        i += 1;
    }
    counter
}

/// Rust's integer `/` for a positive divisor: the quotient rounded toward zero.
pub open spec fn trunc_div(a: int, b: int) -> int {
    if a >= 0 {
        a / b
    } else {
        -((-a) / b)
    }
}

/// The width of each worker's share of `[2, n - 1)` among `workers`.
pub open spec fn chunk_step(n: int, workers: int) -> int {
    trunc_div(n - 2, workers)
}

/// Where worker `k` starts.
pub open spec fn chunk_start(n: int, workers: int, k: int) -> int {
    k * chunk_step(n, workers) + 2
}

/// Where worker `k` stops (exclusive): one step on, except that the last
/// worker runs to `n - 1`.
pub open spec fn chunk_end(n: int, workers: int, k: int) -> int {
    if k != workers - 1 {
        chunk_start(n, workers, k) + chunk_step(n, workers)
    } else {
        n - 1
    }
}

/// The primes counted by the first `m` workers together.
pub open spec fn chunk_total(n: int, workers: int, m: int) -> int
    decreases m,
{
    if m <= 0 {
        0
    } else {
        chunk_total(n, workers, m - 1) + prime_count(
            chunk_start(n, workers, m - 1),
            chunk_end(n, workers, m - 1),
        )
    }
}

proof fn lemma_trunc_div_bounds(a: int, b: int)
    requires
        b >= 1,
    ensures
        a >= 0 ==> 0 <= trunc_div(a, b) && trunc_div(a, b) * b <= a,
        a < 0 ==> trunc_div(a, b) <= 0 && a <= trunc_div(a, b) * b,
        a >= 0 && a < b ==> trunc_div(a, b) == 0,
{
    if a >= 0 {
        lemma_fundamental_div_mod(a, b);
        assert(0 <= a / b && (a / b) * b <= a) by (nonlinear_arith)
            requires
                a == b * (a / b) + a % b,
                0 <= a % b < b,
                a >= 0,
        ;
        if a < b {
            assert(a / b == 0) by (nonlinear_arith)
                requires
                    a == b * (a / b) + a % b,
                    0 <= a % b < b,
                    0 <= a < b,
            ;
        }
    } else {
        lemma_fundamental_div_mod(-a, b);
        assert(0 <= (-a) / b && ((-a) / b) * b <= -a) by (nonlinear_arith)
            requires
                -a == b * ((-a) / b) + (-a) % b,
                0 <= (-a) % b < b,
                -a > 0,
        ;
        assert(-((-a) / b) * b == -(((-a) / b) * b)) by (nonlinear_arith);
    }
}

/// Every worker's bounds stay between `n` and 2, so they fit where `n` does.
proof fn lemma_chunk_start_between(n: int, workers: int, k: int)
    requires
        workers >= 1,
        0 <= k <= workers,
    ensures
        n >= 2 ==> 2 <= chunk_start(n, workers, k) && k * chunk_step(n, workers) <= n - 2,
        n < 2 ==> chunk_start(n, workers, k) <= 2 && n - 2 <= k * chunk_step(n, workers),
{
    let q = chunk_step(n, workers);
    lemma_trunc_div_bounds(n - 2, workers);
    if n >= 2 {
        assert(0 <= k * q <= workers * q) by (nonlinear_arith)
            requires
                0 <= k <= workers,
                q >= 0,
        ;
        assert(workers * q == q * workers) by (nonlinear_arith);
    } else {
        assert(workers * q <= k * q <= 0) by (nonlinear_arith)
            requires
                0 <= k <= workers,
                q <= 0,
        ;
        assert(workers * q == q * workers) by (nonlinear_arith);
    }
}

proof fn lemma_chunk_start_next(n: int, workers: int, k: int)
    ensures
        chunk_start(n, workers, k + 1) == chunk_start(n, workers, k) + chunk_step(n, workers),
{
    let q = chunk_step(n, workers);
    assert((k + 1) * q == k * q + q) by (nonlinear_arith);
}

/// Where `n >= 2`, the first `m` workers (all but the last) together cover
/// `[2, chunk_start(m))`.
proof fn lemma_chunk_total_prefix(n: int, workers: int, m: int)
    requires
        workers >= 1,
        n >= 2,
        0 <= m <= workers - 1,
    ensures
        chunk_total(n, workers, m) == prime_count(2, chunk_start(n, workers, m)),
    decreases m,
{
    if m == 0 {
        assert(0 * chunk_step(n, workers) == 0);
    } else {
        lemma_chunk_total_prefix(n, workers, m - 1);
        lemma_chunk_start_next(n, workers, m - 1);
        lemma_chunk_start_between(n, workers, m - 1);
        lemma_trunc_div_bounds(n - 2, workers);
        lemma_prime_count_split(2, chunk_start(n, workers, m - 1), chunk_start(n, workers, m));
    }
}

/// Where `n < 2`, no worker has anything to count.
proof fn lemma_chunk_total_empty(n: int, workers: int, m: int)
    requires
        workers >= 1,
        n < 2,
        0 <= m <= workers,
    ensures
        chunk_total(n, workers, m) == 0,
    decreases m,
{
    if m > 0 {
        lemma_chunk_total_empty(n, workers, m - 1);
        let k = m - 1;
        lemma_trunc_div_bounds(n - 2, workers);
        let q = chunk_step(n, workers);
        if k != workers - 1 {
            lemma_prime_count_empty(chunk_start(n, workers, k), chunk_end(n, workers, k));
        } else {
            assert(k * q >= n - 2) by (nonlinear_arith)
                requires
                    k == workers - 1,
                    workers * q >= n - 2,
                    q <= 0,
            {
                assert(workers * q == k * q + q) by (nonlinear_arith)
                    requires k == workers - 1;
            }
            assert(q * workers == workers * q) by (nonlinear_arith);
            lemma_prime_count_empty(chunk_start(n, workers, k), chunk_end(n, workers, k));
        }
    }
}

/// The quotient of Rust's `/` by a positive divisor, pinned down without
/// division: rounded down for a non-negative dividend, up for a negative one.
proof fn lemma_trunc_div_exact(a: int, b: int)
    requires
        b >= 1,
    ensures
        a >= 0 ==> trunc_div(a, b) * b <= a < (trunc_div(a, b) + 1) * b,
        a < 0 ==> (trunc_div(a, b) - 1) * b < a <= trunc_div(a, b) * b,
{
    if a >= 0 {
        lemma_fundamental_div_mod(a, b);
        assert((a / b) * b <= a < (a / b + 1) * b) by (nonlinear_arith)
            requires
                a == b * (a / b) + a % b,
                0 <= a % b < b,
        ;
    } else {
        lemma_fundamental_div_mod(-a, b);
        let q = (-a) / b;
        assert((-q - 1) * b < a <= -q * b) by (nonlinear_arith)
            requires
                -a == b * q + (-a) % b,
                0 <= (-a) % b < b,
        ;
    }
}

/// The shape of the shares, in closed form: the first starts at 2; each
/// ends where the next starts; the last ends at `n - 1`; and every share but
/// the last is `w` wide, where `w` is `n - 2` divided by `workers` and
/// rounded toward zero (`w * workers <= n - 2 < (w + 1) * workers` when
/// `n >= 2`, `(w - 1) * workers < n - 2 <= w * workers` otherwise).
pub proof fn lemma_split_shape(n: int, workers: int, k: int)
    requires
        workers >= 1,
        0 <= k < workers,
    ensures
        chunk_start(n, workers, 0) == 2,
        k == workers - 1 ==> chunk_end(n, workers, k) == n - 1,
        k < workers - 1 ==> chunk_end(n, workers, k) == chunk_start(n, workers, k + 1),
        k < workers - 1 ==> ({
            let w = chunk_end(n, workers, k) - chunk_start(n, workers, k);
            &&& n >= 2 ==> w * workers <= n - 2 < (w + 1) * workers
            &&& n < 2 ==> (w - 1) * workers < n - 2 <= w * workers
        }),
{
    assert(0 * chunk_step(n, workers) == 0);
    lemma_chunk_start_next(n, workers, k);
    lemma_trunc_div_exact(n - 2, workers);
}

/// Splitting the count of `[2, n - 1)` among workers loses and repeats
/// nothing: the workers' counts add up to the count of the whole interval.
pub proof fn lemma_split_covers(n: int, workers: int)
    requires
        workers >= 1,
    ensures
        chunk_total(n, workers, workers) == prime_count(2, n - 1),
{
    if n >= 2 {
        let last = workers - 1;
        lemma_chunk_total_prefix(n, workers, last);
        let q = chunk_step(n, workers);
        let s = chunk_start(n, workers, last);
        lemma_trunc_div_bounds(n - 2, workers);
        assert(q * workers == workers * q) by (nonlinear_arith);
        if n >= 3 {
            assert(last * q <= n - 3) by (nonlinear_arith)
                requires
                    last == workers - 1,
                    workers * q <= n - 2,
                    q >= 0,
                    n >= 3,
            {
                assert(workers * q == last * q + q) by (nonlinear_arith)
                    requires last == workers - 1;
                if q == 0 {
                    assert(last * q == 0) by (nonlinear_arith) requires q == 0;
                }
            }
            lemma_chunk_start_between(n, workers, last);
            lemma_prime_count_split(2, s, n - 1);
        } else {
            assert(q == 0);
            assert(last * q == 0) by (nonlinear_arith) requires q == 0;
        }
    } else {
        lemma_chunk_total_empty(n, workers, workers);
    }
}

/// The bounds of each worker's share of `[2, n - 1)`: worker `k` starts at
/// `k * step + 2` with `step = (n - 2) / workers`, and the last one runs to
/// `n - 1`.
pub fn split_range(n: i64, workers: i64) -> (ranges: Vec<(i64, i64)>)
    requires
        workers >= 1,
        n >= i64::MIN + 2,
    ensures
        ranges.len() == workers,
        forall|k: int|
            0 <= k < workers ==> (#[trigger] ranges[k]).0 == chunk_start(n as int, workers as int, k)
                && ranges[k].1 == chunk_end(n as int, workers as int, k),
{
    let step_size: i64 = (n - 2) / workers;
    assert(step_size == chunk_step(n as int, workers as int));
    let mut ranges: Vec<(i64, i64)> = Vec::new();
    let mut thread_num: i64 = 0;
    while thread_num < workers
        invariant
            workers >= 1,
            n >= i64::MIN + 2,
            0 <= thread_num <= workers,
            step_size == chunk_step(n as int, workers as int),
            ranges.len() == thread_num,
            forall|k: int|
                0 <= k < thread_num ==> (#[trigger] ranges[k]).0 == chunk_start(n as int, workers as int, k)
                    && ranges[k].1 == chunk_end(n as int, workers as int, k),
        decreases workers - thread_num,
    {
        proof {
            lemma_chunk_start_between(n as int, workers as int, thread_num as int);
            lemma_chunk_start_between(n as int, workers as int, thread_num + 1);
            lemma_chunk_start_next(n as int, workers as int, thread_num as int);
        }
        let start = (thread_num * step_size) + 2;
        let end = if thread_num != workers - 1 { start + step_size } else { n - 1 };
        ranges.push((start, end));
        thread_num += 1;
    }
    ranges
}

/// Calls `num_cpus::get`, the number of CPUs that this process may run on.
/// Its documentation promises at least 1; the count itself depends on the
/// machine and on the limits placed on the process when it is called, and
/// nothing more is stated of it.
#[verifier::external_body]
fn available_cpus() -> (count: usize)
    ensures
        count >= 1,
{
    num_cpus::get()
}

/// Plans the count of the primes of `[2, n - 1)` with one share for each of
/// `cpus` CPUs: `None` when that count does not fit an `i64`, otherwise the
/// shares of `split_range(n, cpus)`.
pub fn plan_for_cpus(n: i64, cpus: usize) -> (plan: Option<Vec<(i64, i64)>>)
    requires
        n >= i64::MIN + 2,
        cpus >= 1,
    ensures
        cpus > i64::MAX ==> plan is None,
        cpus <= i64::MAX ==> (plan matches Some(ranges) && ranges.len() == cpus && forall|k: int|
            0 <= k < cpus ==> (#[trigger] ranges[k]).0 == chunk_start(n as int, cpus as int, k)
                && ranges[k].1 == chunk_end(n as int, cpus as int, k)),
{
    if cpus as u64 > 9223372036854775807u64 {
        return None;
    }
    let workers = cpus as i64;
    Some(split_range(n, workers))
}

/// Plans the count of the primes of `[2, n - 1)` with one share per CPU that
/// this process may use: returns the CPU count that was read, and the plan
/// that `plan_for_cpus` makes for it (`None` when the count does not fit an
/// `i64`).
pub fn plan_shares(n: i64) -> (planned: (usize, Option<Vec<(i64, i64)>>))
    requires
        n >= i64::MIN + 2,
    ensures
        planned.0 >= 1,
        planned.0 > i64::MAX ==> planned.1 is None,
        planned.0 <= i64::MAX ==> (planned.1 matches Some(ranges) && ranges.len() == planned.0
            && forall|k: int|
            0 <= k < planned.0 ==> (#[trigger] ranges[k]).0 == chunk_start(
                n as int,
                planned.0 as int,
                k,
            ) && ranges[k].1 == chunk_end(n as int, planned.0 as int, k)),
{
    let cpus = available_cpus();
    (cpus, plan_for_cpus(n, cpus))
}

} // verus!
