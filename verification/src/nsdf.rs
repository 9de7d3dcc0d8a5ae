//! The normalized square difference function (NSDF) over a sample window.
//!
//! For a window `x` and a candidate lag `tau`, the NSDF value is
//! `2 * acf(tau) / sdm(tau)`, where `acf` is the autocorrelation
//! `sum x[i] * x[i + tau]` and `sdm` the matching energy term
//! `sum (x[i]^2 + x[i + tau]^2)`, both over the overlap
//! `i in [0, len - tau)`. Because the samples are integers, the value is
//! kept as the exact rational `num / den`; an all-zero overlap, whose
//! denominator would be zero, is defined to have value `0/1`, so no
//! division by zero can arise. By construction `|num| <= den`, the exact
//! statement that NSDF values lie in `[-1, 1]`.

use vstd::prelude::*;

use crate::config::MAX_WINDOW_SIZE;

verus! {

/// Magnitude bound on every window sample: `|x[i]| <= 32768` for `i16`.
pub const SAMPLE_BOUND: i64 = 32768;

/// `sum_{i < k} x[i] * x[i + tau]`.
pub open spec fn sum_prod(x: Seq<i16>, tau: int, k: int) -> int
    decreases k,
{
    if k <= 0 {
        0
    } else {
        sum_prod(x, tau, k - 1) + x[k - 1] * x[k - 1 + tau]
    }
}

/// `sum_{i < k} (x[i]^2 + x[i + tau]^2)`.
pub open spec fn sum_sq(x: Seq<i16>, tau: int, k: int) -> int
    decreases k,
{
    if k <= 0 {
        0
    } else {
        sum_sq(x, tau, k - 1) + x[k - 1] * x[k - 1] + x[k - 1 + tau] * x[k - 1 + tau]
    }
}

/// Autocorrelation of the window at lag `tau`, over the overlap region.
pub open spec fn acf(x: Seq<i16>, tau: int) -> int {
    sum_prod(x, tau, x.len() - tau)
}

/// Energy normalizer of the window at lag `tau`, over the overlap region.
pub open spec fn sdm(x: Seq<i16>, tau: int) -> int {
    sum_sq(x, tau, x.len() - tau)
}

/// Total signal energy of the window: the sum of the squared samples.
pub open spec fn signal_power(x: Seq<i16>) -> int {
    sum_prod(x, 0, x.len() as int)
}

/// Numerator of the NSDF value at lag `tau` (`0` for an all-zero overlap).
pub open spec fn nsdf_num(x: Seq<i16>, tau: int) -> int {
    if sdm(x, tau) > 0 {
        2 * acf(x, tau)
    } else {
        0
    }
}

/// Denominator of the NSDF value at lag `tau`; always positive.
pub open spec fn nsdf_den(x: Seq<i16>, tau: int) -> int {
    if sdm(x, tau) > 0 {
        sdm(x, tau)
    } else {
        1
    }
}

/// Partial autocorrelation sums are bounded by `k * b^2` when every sample
/// is bounded by `b`.
pub proof fn lemma_sum_prod_bound(x: Seq<i16>, tau: int, k: int, b: int)
    requires
        0 <= tau,
        0 <= k,
        k + tau <= x.len(),
        0 <= b,
        forall|i: int| 0 <= i < x.len() ==> -b <= #[trigger] x[i] <= b,
    ensures
        -(k * b * b) <= sum_prod(x, tau, k) <= k * b * b,
    decreases k,
{
    if k > 0 {
        lemma_sum_prod_bound(x, tau, k - 1, b);
        let a = x[k - 1] as int;
        let c = x[k - 1 + tau] as int;
        assert(-(b * b) <= a * c <= b * b) by (nonlinear_arith)
            requires
                -b <= a <= b,
                -b <= c <= b,
        ;
        assert(k * b * b == (k - 1) * b * b + b * b) by (nonlinear_arith);
    }
}

/// Partial energy sums are nonnegative and bounded by `2 * k * b^2` when
/// every sample is bounded by `b`.
pub proof fn lemma_sum_sq_bounds(x: Seq<i16>, tau: int, k: int, b: int)
    requires
        0 <= tau,
        0 <= k,
        k + tau <= x.len(),
        0 <= b,
        forall|i: int| 0 <= i < x.len() ==> -b <= #[trigger] x[i] <= b,
    ensures
        0 <= sum_sq(x, tau, k) <= 2 * k * b * b,
    decreases k,
{
    if k > 0 {
        lemma_sum_sq_bounds(x, tau, k - 1, b);
        let a = x[k - 1] as int;
        let c = x[k - 1 + tau] as int;
        assert(0 <= a * a <= b * b && 0 <= c * c <= b * b) by (nonlinear_arith)
            requires
                -b <= a <= b,
                -b <= c <= b,
        ;
        assert(2 * k * b * b == 2 * (k - 1) * b * b + 2 * (b * b)) by (nonlinear_arith);
    }
}

/// Summed arithmetic-geometric mean inequality: twice the autocorrelation
/// sum is bounded in magnitude by the energy sum, which is exactly the
/// statement that every NSDF value lies in `[-1, 1]`.
pub proof fn lemma_sum_amgm(x: Seq<i16>, tau: int, k: int)
    requires
        0 <= tau,
        0 <= k,
        k + tau <= x.len(),
    ensures
        -sum_sq(x, tau, k) <= 2 * sum_prod(x, tau, k) <= sum_sq(x, tau, k),
    decreases k,
{
    if k > 0 {
        lemma_sum_amgm(x, tau, k - 1);
        let a = x[k - 1] as int;
        let c = x[k - 1 + tau] as int;
        assert(-(a * a + c * c) <= 2 * (a * c) <= a * a + c * c) by (nonlinear_arith);
    }
}

/// At lag zero the energy sum is exactly twice the autocorrelation sum.
pub proof fn lemma_sum_sq_zero_lag(x: Seq<i16>, k: int)
    requires
        0 <= k <= x.len(),
    ensures
        sum_sq(x, 0, k) == 2 * sum_prod(x, 0, k),
    decreases k,
{
    if k > 0 {
        lemma_sum_sq_zero_lag(x, k - 1);
    }
}

/// The signal energy of any prefix is nonnegative.
pub proof fn lemma_power_nonneg(x: Seq<i16>, k: int)
    requires
        0 <= k <= x.len(),
    ensures
        0 <= sum_prod(x, 0, k),
    decreases k,
{
    if k > 0 {
        lemma_power_nonneg(x, k - 1);
        let a = x[k - 1] as int;
        assert(0 <= a * a) by (nonlinear_arith);
    }
}

/// A window with any nonzero sample has strictly positive signal energy.
pub proof fn lemma_power_pos(x: Seq<i16>, k: int, i: int)
    requires
        0 <= i < k <= x.len(),
        x[i] != 0,
    ensures
        1 <= sum_prod(x, 0, k),
    decreases k,
{
    let a = x[k - 1] as int;
    if i == k - 1 {
        lemma_power_nonneg(x, k - 1);
        assert(1 <= a * a) by (nonlinear_arith)
            requires
                a != 0,
        ;
    } else {
        lemma_power_pos(x, k - 1, i);
        assert(0 <= a * a) by (nonlinear_arith);
    }
}

/// The NSDF rational at any lag of a bounded window has a positive
/// denominator at most `2^51` and a numerator bounded by the denominator.
pub proof fn lemma_nsdf_pair_bounds(x: Seq<i16>, tau: int)
    requires
        0 <= tau <= x.len(),
        x.len() <= MAX_WINDOW_SIZE,
    ensures
        1 <= nsdf_den(x, tau) <= 0x8000000000000,
        -nsdf_den(x, tau) <= nsdf_num(x, tau) <= nsdf_den(x, tau),
{
    let k = x.len() - tau;
    assert(forall|i: int| 0 <= i < x.len() ==> -(SAMPLE_BOUND as int) <= #[trigger] x[i]
        <= SAMPLE_BOUND as int);
    lemma_sum_sq_bounds(x, tau, k, SAMPLE_BOUND as int);
    lemma_sum_amgm(x, tau, k);
    assert(2 * k * (SAMPLE_BOUND as int) * (SAMPLE_BOUND as int) <= 0x8000000000000);
}

/// NSDF self-similarity: a window with any nonzero sample has NSDF value
/// exactly one at lag zero (numerator equal to denominator).
pub proof fn lemma_nsdf_unity_at_zero_lag(x: Seq<i16>)
    requires
        exists|i: int| 0 <= i < x.len() && x[i] != 0,
    ensures
        nsdf_num(x, 0) == nsdf_den(x, 0),
        2 <= nsdf_den(x, 0),
{
    let i = choose|i: int| 0 <= i < x.len() && x[i] != 0;
    lemma_power_pos(x, x.len() as int, i);
    lemma_sum_sq_zero_lag(x, x.len() as int);
}

/// The NSDF value at one lag, as the exact rational `num / den`.
#[derive(Clone, Copy, PartialEq, Eq, Structural, Debug)]
pub struct NsdfEntry {
    /// Numerator: twice the autocorrelation, or `0` for a zero overlap.
    pub num: i64,
    /// Denominator: the energy term, or `1` for a zero overlap.
    pub den: i64,
}

/// `e` is the NSDF rational of window `x` at lag `t`.
pub open spec fn entry_matches(x: Seq<i16>, t: int, e: NsdfEntry) -> bool {
    e.num == nsdf_num(x, t) && e.den == nsdf_den(x, t)
}

/// Total signal energy of the window, exactly.
pub fn compute_power(x: &Vec<i16>) -> (p: i64)
    requires
        x@.len() <= MAX_WINDOW_SIZE,
    ensures
        p == signal_power(x@),
        0 <= p,
{
    let n = x.len();
    let mut p: i64 = 0;
    let mut k: usize = 0;
    while k < n
        invariant
            k <= n,
            n == x@.len(),
            n <= MAX_WINDOW_SIZE,
            p == sum_prod(x@, 0, k as int),
            0 <= p <= k * 0x40000000,
        decreases n - k,
    {
        let a = x[k] as i64;
        proof {
            assert(0 <= a * a <= 0x40000000) by (nonlinear_arith)
                requires
                    -32768 <= a <= 32768,
            ;
        }
        p = p + a * a;
        k = k + 1;
    }
    p
}

/// The NSDF rationals for every lag in `[0, lag_count)`, exactly.
pub fn compute_nsdf(x: &Vec<i16>, lag_count: usize) -> (out: Vec<NsdfEntry>)
    requires
        x@.len() <= MAX_WINDOW_SIZE,
        lag_count <= x@.len(),
    ensures
        out@.len() == lag_count,
        forall|t: int| 0 <= t < lag_count ==> entry_matches(x@, t, #[trigger] out@[t]),
{
    let n = x.len();
    let mut out: Vec<NsdfEntry> = Vec::new();
    let mut tau: usize = 0;
    while tau < lag_count
        invariant
            tau <= lag_count,
            lag_count <= n,
            n == x@.len(),
            n <= MAX_WINDOW_SIZE,
            out@.len() == tau,
            forall|t: int| 0 <= t < tau ==> entry_matches(x@, t, #[trigger] out@[t]),
        decreases lag_count - tau,
    {
        let m = n - tau;
        let mut sp: i64 = 0;
        let mut ss: i64 = 0;
        let mut k: usize = 0;
        while k < m
            invariant
                k <= m,
                m == n - tau,
                tau < n,
                n == x@.len(),
                n <= MAX_WINDOW_SIZE,
                sp == sum_prod(x@, tau as int, k as int),
                ss == sum_sq(x@, tau as int, k as int),
                -(k * 0x40000000) <= sp <= k * 0x40000000,
                0 <= ss <= k * 0x80000000,
            decreases m - k,
        {
            let a = x[k] as i64;
            let c = x[k + tau] as i64;
            proof {
                assert(-0x40000000 <= a * c <= 0x40000000 && 0 <= a * a <= 0x40000000 && 0 <= c * c
                    <= 0x40000000) by (nonlinear_arith)
                    requires
                        -32768 <= a <= 32768,
                        -32768 <= c <= 32768,
                ;
            }
            sp = sp + a * c;
            ss = ss + a * a + c * c;
            k = k + 1;
        }
        let entry = if ss > 0 {
            NsdfEntry { num: 2 * sp, den: ss }
        } else {
            NsdfEntry { num: 0, den: 1 }
        };
        out.push(entry);
        tau = tau + 1;
    }
    out
}

} // verus!
