//! McLeod-style pitch estimation over one window snapshot.
//!
//! An estimation run gates on signal energy, computes the exact NSDF
//! rationals for every lag below `window_size - padding`, and looks for
//! local maxima after the first negative-going value. Among those
//! candidates the earliest one whose value reaches the clarity threshold
//! times the tallest candidate is selected; a parabola through it and its
//! two neighbours (on a fixed-point projection of the NSDF) refines the
//! lag below one sample period, and the frequency is the sample rate over
//! that refined lag, kept as an exact rational.

use vstd::prelude::*;

use crate::config::DetectionConfig;
use crate::nsdf::NsdfEntry;
use crate::nsdf::compute_nsdf;
use crate::nsdf::compute_power;
use crate::nsdf::entry_matches;
use crate::nsdf::lemma_nsdf_pair_bounds;
use crate::nsdf::lemma_sum_prod_bound;
use crate::nsdf::nsdf_den;
use crate::nsdf::nsdf_num;
use crate::nsdf::signal_power;

verus! {

/// Fixed-point scale (`2^20`) of the NSDF projection used by the
/// sub-sample refinement.
pub const INTERP_SCALE: i64 = 1048576;

/// Largest magnitude of an NSDF numerator or denominator: `2^51`.
pub const NSDF_PAIR_BOUND: i64 = 0x8000000000000;

/// `p1 / q1 <= p2 / q2` for positive denominators, by cross-multiplication.
pub open spec fn ratio_le(p1: int, q1: int, p2: int, q2: int) -> bool {
    p1 * q2 <= p2 * q1
}

/// `p1 / q1 < p2 / q2` for positive denominators, by cross-multiplication.
pub open spec fn ratio_lt(p1: int, q1: int, p2: int, q2: int) -> bool {
    p1 * q2 < p2 * q1
}

/// The NSDF value at lag `t` is negative.
pub open spec fn nsdf_negative(x: Seq<i16>, t: int) -> bool {
    nsdf_num(x, t) < 0
}

/// First lag in `[t, n)` with a negative NSDF value, or `n` if there is
/// none.
pub open spec fn first_negative_from(x: Seq<i16>, n: int, t: int) -> int
    decreases n - t,
{
    if t >= n {
        n
    } else if nsdf_negative(x, t) {
        t
    } else {
        first_negative_from(x, n, t + 1)
    }
}

/// The first negative-going zero crossing of the NSDF: the first lag from
/// 1 on with a negative value, or `n` if the NSDF never goes negative.
pub open spec fn crossing_lag(x: Seq<i16>, n: int) -> int {
    first_negative_from(x, n, 1)
}

/// Lag `t` is a candidate peak: it lies after the first negative-going
/// zero crossing, has both neighbours inside the lag range, rises
/// strictly from its left neighbour and does not rise towards its right
/// neighbour.
pub open spec fn is_candidate(x: Seq<i16>, n: int, t: int) -> bool {
    &&& crossing_lag(x, n) < t < n - 1
    &&& ratio_lt(nsdf_num(x, t - 1), nsdf_den(x, t - 1), nsdf_num(x, t), nsdf_den(x, t))
    &&& ratio_le(nsdf_num(x, t + 1), nsdf_den(x, t + 1), nsdf_num(x, t), nsdf_den(x, t))
}

/// The tallest candidate peak with lag below `hi`, earliest on equal
/// values, or `None` if no lag below `hi` is a candidate.
pub open spec fn best_peak_upto(x: Seq<i16>, n: int, hi: int) -> Option<int>
    decreases hi,
{
    if hi <= 0 {
        Option::None
    } else {
        let prev = best_peak_upto(x, n, hi - 1);
        let t = hi - 1;
        if is_candidate(x, n, t) {
            match prev {
                Option::None => Option::Some(t),
                Option::Some(g) => if ratio_lt(
                    nsdf_num(x, g),
                    nsdf_den(x, g),
                    nsdf_num(x, t),
                    nsdf_den(x, t),
                ) {
                    Option::Some(t)
                } else {
                    Option::Some(g)
                },
            }
        } else {
            prev
        }
    }
}

/// The tallest candidate peak of the whole lag range.
pub open spec fn global_peak(x: Seq<i16>, n: int) -> Option<int> {
    best_peak_upto(x, n, n)
}

/// The candidate value `pt / qt` reaches the threshold fraction
/// `kn / kd` of the tallest value `pg / qg`, by cross-multiplication.
pub open spec fn clears_threshold(kn: int, kd: int, pt: int, qt: int, pg: int, qg: int) -> bool {
    pt * (kd * qg) >= (kn * pg) * qt
}

/// Lag `t` is a candidate tall enough relative to the tallest peak `g`.
pub open spec fn accepts(cfg: DetectionConfig, x: Seq<i16>, n: int, t: int, g: int) -> bool {
    &&& is_candidate(x, n, t)
    &&& clears_threshold(
        cfg.clarity_threshold_num as int,
        cfg.clarity_threshold_den as int,
        nsdf_num(x, t),
        nsdf_den(x, t),
        nsdf_num(x, g),
        nsdf_den(x, g),
    )
}

/// First accepted lag in `[t, n)`, or `n` if no lag from `t` on is
/// accepted.
pub open spec fn first_accepted_from(
    cfg: DetectionConfig,
    x: Seq<i16>,
    n: int,
    g: int,
    t: int,
) -> int
    decreases n - t,
{
    if t >= n {
        n
    } else if accepts(cfg, x, n, t, g) {
        t
    } else {
        first_accepted_from(cfg, x, n, g, t + 1)
    }
}

/// The selected key peak: the earliest accepted candidate, or `n` if no
/// candidate is accepted.
pub open spec fn chosen_lag(cfg: DetectionConfig, x: Seq<i16>, n: int, g: int) -> int {
    first_accepted_from(cfg, x, n, g, 0)
}

/// Fixed-point projection `trunc(p * INTERP_SCALE / q)` of the rational
/// `p / q`, truncated towards zero.
pub open spec fn fixed_point(p: int, q: int) -> int {
    if p >= 0 {
        (p * (INTERP_SCALE as int)) / q
    } else {
        -(((-p) * (INTERP_SCALE as int)) / q)
    }
}

/// Fixed-point projection of the NSDF value at lag `t`.
pub open spec fn nsdf_fixed(x: Seq<i16>, t: int) -> int {
    fixed_point(nsdf_num(x, t), nsdf_den(x, t))
}

/// The estimate produced for the selected lag `t`.
///
/// A parabola through the fixed-point NSDF values `a`, `b`, `c` at lags
/// `t - 1`, `t`, `t + 1` has its vertex at `t + (c - a) / d` with
/// `d = 2 * (2b - a - c)`; the refinement is used exactly when `d >= 1`
/// and the shift is at most half a sample (`2 * |c - a| <= d`), which at
/// any strict local maximum holds by construction. The frequency is the
/// exact rational `sample_rate / (t + (c - a) / d)`; the clarity is the
/// NSDF rational at `t`, clamped to `[0, 1]`.
pub open spec fn estimate_at(cfg: DetectionConfig, x: Seq<i16>, t: int) -> PitchEstimate {
    let a = nsdf_fixed(x, t - 1);
    let b = nsdf_fixed(x, t);
    let c = nsdf_fixed(x, t + 1);
    let d = 2 * (2 * b - a - c);
    let sh = c - a;
    let interp = 1 <= d && 2 * (if sh >= 0 { sh } else { -sh }) <= d;
    let fnum = if interp { cfg.sample_rate * d } else { cfg.sample_rate as int };
    let fden = if interp { t * d + sh } else { t };
    let cnum = if nsdf_num(x, t) >= 0 { nsdf_num(x, t) } else { 0 };
    let cden = if nsdf_num(x, t) >= 0 { nsdf_den(x, t) } else { 1 };
    PitchEstimate {
        frequency_num: fnum as i64,
        frequency_den: fden as i64,
        clarity_num: cnum as i64,
        clarity_den: cden as i64,
    }
}

/// The complete estimation run over one window snapshot: the energy gate,
/// then peak selection, then refinement of the selected lag. `None` when
/// the energy is below the power threshold, when no lag is a candidate
/// peak, or when no candidate clears the clarity threshold.
pub open spec fn estimate_spec(cfg: DetectionConfig, x: Seq<i16>) -> Option<PitchEstimate> {
    let n = x.len() - cfg.padding;
    if signal_power(x) < cfg.power_threshold {
        Option::None
    } else {
        match global_peak(x, n) {
            Option::None => Option::None,
            Option::Some(g) => {
                let t = chosen_lag(cfg, x, n, g);
                if t >= n {
                    Option::None
                } else {
                    Option::Some(estimate_at(cfg, x, t))
                }
            },
        }
    }
}

/// A successful estimate: the frequency and the clarity, each as an exact
/// positive rational. The clarity lies in `[0, 1]`
/// (`clarity_num <= clarity_den`).
#[derive(Clone, Copy, PartialEq, Eq, Structural, Debug)]
pub struct PitchEstimate {
    /// Numerator of the estimated frequency in Hz.
    pub frequency_num: i64,
    /// Denominator of the estimated frequency in Hz.
    pub frequency_den: i64,
    /// Numerator of the clarity score.
    pub clarity_num: i64,
    /// Denominator of the clarity score.
    pub clarity_den: i64,
}

impl PitchEstimate {
    /// Both rationals are positive fractions and the clarity is in
    /// `[0, 1]`.
    pub open spec fn wf(&self) -> bool {
        &&& 1 <= self.frequency_num
        &&& 1 <= self.frequency_den
        &&& 1 <= self.clarity_den
        &&& 0 <= self.clarity_num <= self.clarity_den
    }
}

/// An NSDF entry within the magnitude bounds that every entry of a
/// bounded window satisfies.
pub open spec fn entry_bounded(e: NsdfEntry) -> bool {
    &&& 1 <= e.den <= NSDF_PAIR_BOUND
    &&& -e.den <= e.num <= e.den
}

/// `e1 < e2` as rationals, by cross-multiplication in 128-bit arithmetic.
fn ratio_less(e1: &NsdfEntry, e2: &NsdfEntry) -> (r: bool)
    requires
        entry_bounded(*e1),
        entry_bounded(*e2),
    ensures
        r == ratio_lt(e1.num as int, e1.den as int, e2.num as int, e2.den as int),
{
    proof {
        assert(-0x40000000000000000000000000 <= (e1.num as int) * (e2.den as int)
            <= 0x40000000000000000000000000 && -0x40000000000000000000000000 <= (e2.num as int) * (
        e1.den as int) <= 0x40000000000000000000000000) by (nonlinear_arith)
            requires
                -0x8000000000000 <= e1.num <= 0x8000000000000,
                1 <= e1.den <= 0x8000000000000,
                -0x8000000000000 <= e2.num <= 0x8000000000000,
                1 <= e2.den <= 0x8000000000000,
        ;
    }
    (e1.num as i128) * (e2.den as i128) < (e2.num as i128) * (e1.den as i128)
}

/// `e1 <= e2` as rationals, by cross-multiplication in 128-bit arithmetic.
fn ratio_less_eq(e1: &NsdfEntry, e2: &NsdfEntry) -> (r: bool)
    requires
        entry_bounded(*e1),
        entry_bounded(*e2),
    ensures
        r == ratio_le(e1.num as int, e1.den as int, e2.num as int, e2.den as int),
{
    !ratio_less(e2, e1)
}

/// Threshold test `et >= (kn / kd) * eg` in 128-bit arithmetic.
fn clears_threshold_exec(kn: i64, kd: i64, et: &NsdfEntry, eg: &NsdfEntry) -> (r: bool)
    requires
        1 <= kd <= 0x100000,
        0 <= kn <= kd,
        entry_bounded(*et),
        entry_bounded(*eg),
    ensures
        r == clears_threshold(
            kn as int,
            kd as int,
            et.num as int,
            et.den as int,
            eg.num as int,
            eg.den as int,
        ),
{
    proof {
        let a: int = (kd as int) * (eg.den as int);
        let b: int = (kn as int) * (eg.num as int);
        assert(1 <= a <= 0x800000000000000000 && -0x800000000000000000 <= b
            <= 0x800000000000000000) by (nonlinear_arith)
            requires
                a == (kd as int) * (eg.den as int),
                b == (kn as int) * (eg.num as int),
                1 <= kd <= 0x100000,
                0 <= kn <= kd,
                -0x8000000000000 <= eg.num <= 0x8000000000000,
                1 <= eg.den <= 0x8000000000000,
        ;
        assert(-0x4000000000000000000000000000000 <= (et.num as int) * a
            <= 0x4000000000000000000000000000000 && -0x4000000000000000000000000000000 <= b * (
        et.den as int) <= 0x4000000000000000000000000000000) by (nonlinear_arith)
            requires
                1 <= a <= 0x800000000000000000,
                -0x800000000000000000 <= b <= 0x800000000000000000,
                -0x8000000000000 <= et.num <= 0x8000000000000,
                1 <= et.den <= 0x8000000000000,
        ;
    }
    let lhs: i128 = (et.num as i128) * ((kd as i128) * (eg.den as i128));
    let rhs: i128 = ((kn as i128) * (eg.num as i128)) * (et.den as i128);
    lhs >= rhs
}

/// Fixed-point projection of one NSDF entry, truncated towards zero.
fn fixed_point_exec(e: &NsdfEntry) -> (r: i64)
    requires
        entry_bounded(*e),
    ensures
        r == fixed_point(e.num as int, e.den as int),
        -INTERP_SCALE <= r <= INTERP_SCALE,
{
    if e.num >= 0 {
        let scaled: u128 = (e.num as u128) * (INTERP_SCALE as u128);
        let v: u128 = scaled / (e.den as u128);
        proof {
            assert((e.num as int) * (INTERP_SCALE as int) / (e.den as int) <= INTERP_SCALE
                && 0 <= (e.num as int) * (INTERP_SCALE as int) / (e.den as int)) by (nonlinear_arith)
                requires
                    0 <= e.num <= e.den,
                    1 <= e.den,
            ;
        }
        v as i64
    } else {
        let mag: i64 = -e.num;
        let scaled: u128 = (mag as u128) * (INTERP_SCALE as u128);
        let v: u128 = scaled / (e.den as u128);
        proof {
            assert((mag as int) * (INTERP_SCALE as int) / (e.den as int) <= INTERP_SCALE
                && 0 <= (mag as int) * (INTERP_SCALE as int) / (e.den as int)) by (nonlinear_arith)
                requires
                    0 <= mag <= e.den,
                    1 <= e.den,
            ;
        }
        -(v as i64)
    }
}

/// Runs the estimation algorithm against window snapshots.
#[derive(Clone, Copy, PartialEq, Eq, Structural, Debug)]
pub struct PitchEstimator {
    /// The settings of this pipeline.
    pub config: DetectionConfig,
}

impl PitchEstimator {
    /// An estimator with the given settings.
    pub fn new(config: DetectionConfig) -> (e: PitchEstimator)
        requires
            config.wf(),
        ensures
            e.config == config,
    {
        PitchEstimator { config }
    }

    /// One estimation run over a snapshot of exactly `window_size`
    /// samples. The result is exactly `estimate_spec`: `None` when the
    /// signal energy is below the power threshold, when no lag is a
    /// candidate peak, or when no candidate peak clears the clarity
    /// threshold; otherwise the refined estimate for the earliest
    /// accepted candidate, a well-formed pair of positive rationals.
    pub fn estimate(&self, samples: &Vec<i16>) -> (r: Option<PitchEstimate>)
        requires
            self.config.wf(),
            samples@.len() == self.config.window_size,
        ensures
            r == estimate_spec(self.config, samples@),
            r matches Option::Some(e) ==> e.wf(),
    {
        let cfg = self.config;
        let x = samples;
        let power = compute_power(x);
        if power < cfg.power_threshold {
            return Option::None;
        }
        let n = cfg.window_size - cfg.padding;
        let nsdf = compute_nsdf(x, n);
        proof {
            assert forall|t: int| 0 <= t < n implies entry_bounded(#[trigger] nsdf@[t]) by {
                lemma_nsdf_pair_bounds(x@, t);
            }
        }

        // First negative-going zero crossing.
        let mut z: usize = 1;
        while z < n && nsdf[z].num >= 0
            invariant
                1 <= z <= n,
                n == nsdf@.len(),
                n <= x@.len(),
                forall|t: int| 0 <= t < n ==> entry_matches(x@, t, #[trigger] nsdf@[t]),
                first_negative_from(x@, n as int, 1) == first_negative_from(x@, n as int, z as int),
            decreases n - z,
        {
            z = z + 1;
        }
        proof {
            assert(crossing_lag(x@, n as int) == z as int);
        }

        // Tallest candidate peak, earliest on equal values.
        let mut has_best: bool = false;
        let mut best: usize = 0;
        let mut t: usize = 0;
        while t < n
            invariant
                t <= n,
                n == nsdf@.len(),
                n <= x@.len(),
                1 <= z <= n,
                crossing_lag(x@, n as int) == z as int,
                forall|t2: int| 0 <= t2 < n ==> entry_matches(x@, t2, #[trigger] nsdf@[t2]),
                forall|t2: int| 0 <= t2 < n ==> entry_bounded(#[trigger] nsdf@[t2]),
                has_best ==> best < t && is_candidate(x@, n as int, best as int),
                best_peak_upto(x@, n as int, t as int) == if has_best {
                    Option::Some(best as int)
                } else {
                    Option::<int>::None
                },
            decreases n - t,
        {
            let cand = t > z && t + 1 < n && ratio_less(&nsdf[t - 1], &nsdf[t]) && ratio_less_eq(
                &nsdf[t + 1],
                &nsdf[t],
            );
            if cand {
                if !has_best || ratio_less(&nsdf[best], &nsdf[t]) {
                    has_best = true;
                    best = t;
                }
            }
            t = t + 1;
        }
        if !has_best {
            return Option::None;
        }
        let g = best;

        // Earliest candidate that clears the clarity threshold.
        let mut chosen: usize = n;
        let mut t: usize = 0;
        while t < n
            invariant
                t <= n,
                n == nsdf@.len(),
                n <= x@.len(),
                1 <= z <= n,
                g < n,
                crossing_lag(x@, n as int) == z as int,
                forall|t2: int| 0 <= t2 < n ==> entry_matches(x@, t2, #[trigger] nsdf@[t2]),
                forall|t2: int| 0 <= t2 < n ==> entry_bounded(#[trigger] nsdf@[t2]),
                1 <= cfg.clarity_threshold_den <= 0x100000,
                0 <= cfg.clarity_threshold_num <= cfg.clarity_threshold_den,
                chosen <= n,
                chosen == n ==> first_accepted_from(cfg, x@, n as int, g as int, 0)
                    == first_accepted_from(cfg, x@, n as int, g as int, t as int),
                chosen < n ==> first_accepted_from(cfg, x@, n as int, g as int, 0) == chosen as int
                    && is_candidate(x@, n as int, chosen as int),
            decreases n - t,
        {
            if chosen == n {
                let cand = t > z && t + 1 < n && ratio_less(&nsdf[t - 1], &nsdf[t])
                    && ratio_less_eq(&nsdf[t + 1], &nsdf[t]);
                if cand && clears_threshold_exec(
                    cfg.clarity_threshold_num,
                    cfg.clarity_threshold_den,
                    &nsdf[t],
                    &nsdf[g],
                ) {
                    chosen = t;
                }
            }
            t = t + 1;
        }
        if chosen == n {
            return Option::None;
        }
        let tc = chosen;
        proof {
            assert(is_candidate(x@, n as int, tc as int));
            assert(2 <= tc && tc + 1 < n);
        }

        // Sub-sample refinement around the chosen lag.
        let ea = fixed_point_exec(&nsdf[tc - 1]);
        let eb = fixed_point_exec(&nsdf[tc]);
        let ec = fixed_point_exec(&nsdf[tc + 1]);
        let d: i64 = 2 * (2 * eb - ea - ec);
        let sh: i64 = ec - ea;
        let sh_mag: i64 = if sh >= 0 {
            sh
        } else {
            -sh
        };
        let interp = d >= 1 && 2 * sh_mag <= d;
        let fnum: i64;
        let fden: i64;
        if interp {
            proof {
                assert((tc as int) * (d as int) >= d as int && (cfg.sample_rate as int) * (d as int)
                    >= 1) by (nonlinear_arith)
                    requires
                        1 <= tc,
                        1 <= d,
                        1 <= cfg.sample_rate,
                ;
                assert((tc as int) * (d as int) <= 0x100000 * 0x800000) by (nonlinear_arith)
                    requires
                        1 <= tc <= 0x100000,
                        1 <= d <= 0x800000,
                ;
                assert((cfg.sample_rate as int) * (d as int) <= 0x100000000 * 0x800000)
                    by (nonlinear_arith)
                    requires
                        1 <= cfg.sample_rate <= 0x100000000,
                        1 <= d <= 0x800000,
                ;
            }
            fnum = (cfg.sample_rate as i64) * d;
            fden = (tc as i64) * d + sh;
        } else {
            fnum = cfg.sample_rate as i64;
            fden = tc as i64;
        }
        let ce = nsdf[tc];
        let cnum: i64;
        let cden: i64;
        if ce.num >= 0 {
            cnum = ce.num;
            cden = ce.den;
        } else {
            cnum = 0;
            cden = 1;
        }
        Option::Some(
            PitchEstimate {
                frequency_num: fnum,
                frequency_den: fden,
                clarity_num: cnum,
                clarity_den: cden,
            },
        )
    }
}

/// The crossing lag is the least lag with a negative NSDF value: no lag
/// before it is negative, and it is negative itself unless no lag in
/// `[1, n)` is, in which case it is `n`.
pub proof fn lemma_crossing_least(x: Seq<i16>, n: int, t0: int)
    requires
        1 <= t0 <= n,
    ensures
        t0 <= first_negative_from(x, n, t0) <= n,
        forall|t: int| t0 <= t < first_negative_from(x, n, t0) ==> !nsdf_negative(x, t),
        first_negative_from(x, n, t0) < n ==> nsdf_negative(x, first_negative_from(x, n, t0)),
    decreases n - t0,
{
    if t0 < n && !nsdf_negative(x, t0) {
        lemma_crossing_least(x, n, t0 + 1);
    }
}

/// Comparison of rationals with positive denominators is transitive
/// across a strict step.
proof fn lemma_ratio_le_lt(p1: int, q1: int, p2: int, q2: int, p3: int, q3: int)
    by (nonlinear_arith)
    requires
        1 <= q1,
        1 <= q2,
        1 <= q3,
        ratio_le(p1, q1, p2, q2),
        ratio_lt(p2, q2, p3, q3),
    ensures
        ratio_lt(p1, q1, p3, q3),
{
}

/// The tallest-candidate scan is sound and complete: a result is a
/// candidate at least as tall as every candidate and strictly taller
/// than every earlier one (the earliest on equal values); no result
/// means no lag below `hi` is a candidate.
pub proof fn lemma_best_peak_tallest(x: Seq<i16>, n: int, hi: int)
    requires
        0 <= hi,
    ensures
        best_peak_upto(x, n, hi) matches Option::Some(g) ==> {
            &&& 0 <= g < hi
            &&& is_candidate(x, n, g)
            &&& forall|t: int|
                0 <= t < hi && is_candidate(x, n, t) ==> ratio_le(
                    nsdf_num(x, t),
                    nsdf_den(x, t),
                    nsdf_num(x, g),
                    nsdf_den(x, g),
                )
            &&& forall|t: int|
                0 <= t < g && is_candidate(x, n, t) ==> ratio_lt(
                    nsdf_num(x, t),
                    nsdf_den(x, t),
                    nsdf_num(x, g),
                    nsdf_den(x, g),
                )
        },
        best_peak_upto(x, n, hi) is None ==> forall|t: int|
            0 <= t < hi ==> !is_candidate(x, n, t),
    decreases hi,
{
    if hi > 0 {
        lemma_best_peak_tallest(x, n, hi - 1);
        let t = hi - 1;
        match best_peak_upto(x, n, hi - 1) {
            Option::Some(g0) => {
                if is_candidate(x, n, t) && ratio_lt(
                    nsdf_num(x, g0),
                    nsdf_den(x, g0),
                    nsdf_num(x, t),
                    nsdf_den(x, t),
                ) {
                    assert forall|s: int| 0 <= s < t && is_candidate(x, n, s) implies ratio_lt(
                        nsdf_num(x, s),
                        nsdf_den(x, s),
                        nsdf_num(x, t),
                        nsdf_den(x, t),
                    ) by {
                        lemma_ratio_le_lt(
                            nsdf_num(x, s),
                            nsdf_den(x, s),
                            nsdf_num(x, g0),
                            nsdf_den(x, g0),
                            nsdf_num(x, t),
                            nsdf_den(x, t),
                        );
                    }
                }
            },
            Option::None => {},
        }
    }
}

/// The selection scan picks the earliest accepted candidate: no lag
/// before the result is accepted, the result itself is accepted unless it
/// is `n`, and `n` means no lag is accepted at all.
pub proof fn lemma_chosen_earliest(cfg: DetectionConfig, x: Seq<i16>, n: int, g: int, t0: int)
    requires
        0 <= t0 <= n,
    ensures
        t0 <= first_accepted_from(cfg, x, n, g, t0) <= n,
        forall|t: int|
            t0 <= t < first_accepted_from(cfg, x, n, g, t0) ==> !accepts(cfg, x, n, t, g),
        first_accepted_from(cfg, x, n, g, t0) < n ==> accepts(
            cfg,
            x,
            n,
            first_accepted_from(cfg, x, n, g, t0),
            g,
        ),
    decreases n - t0,
{
    if t0 < n && !accepts(cfg, x, n, t0, g) {
        lemma_chosen_earliest(cfg, x, n, g, t0 + 1);
    }
}

/// When an estimation run succeeds is pinned down declaratively: an
/// estimate exists exactly when the energy gate passes and some candidate
/// peak clears the clarity threshold against the tallest candidate.
pub proof fn lemma_estimate_some_characterized(cfg: DetectionConfig, x: Seq<i16>)
    requires
        cfg.wf(),
        x.len() == cfg.window_size,
    ensures
        estimate_spec(cfg, x) is Some <==> {
            let n = x.len() - cfg.padding;
            &&& signal_power(x) >= cfg.power_threshold
            &&& global_peak(x, n) matches Option::Some(g) && exists|t: int| #[trigger] accepts(
                cfg,
                x,
                n,
                t,
                g,
            )
        },
{
    let n = x.len() - cfg.padding;
    if signal_power(x) >= cfg.power_threshold {
        lemma_best_peak_tallest(x, n, n);
        lemma_crossing_least(x, n, 1);
        match global_peak(x, n) {
            Option::Some(g) => {
                lemma_chosen_earliest(cfg, x, n, g, 0);
                let tc = chosen_lag(cfg, x, n, g);
                if tc < n {
                    assert(accepts(cfg, x, n, tc, g));
                } else {
                    assert forall|t: int| !(#[trigger] accepts(cfg, x, n, t, g)) by {
                        if 0 <= t < n {
                            assert(!accepts(cfg, x, n, t, g));
                        } else {
                            assert(!is_candidate(x, n, t));
                        }
                    }
                }
            },
            Option::None => {},
        }
    }
}

/// Silence suppression: when every sample of the window has magnitude at
/// most `b` and the worst-case energy `len * b^2` is still below the
/// power threshold, an estimation run yields no estimate.
pub proof fn lemma_silence_suppressed(cfg: DetectionConfig, x: Seq<i16>, b: int)
    requires
        cfg.wf(),
        x.len() == cfg.window_size,
        0 <= b,
        forall|i: int| 0 <= i < x.len() ==> -b <= #[trigger] x[i] <= b,
        x.len() * b * b < cfg.power_threshold,
    ensures
        estimate_spec(cfg, x) is None,
{
    lemma_sum_prod_bound(x, 0, x.len() as int, b);
}

/// Zero-division safety for silence: an all-zero window has energy zero,
/// which any positive power threshold gates out, so the run yields no
/// estimate (and no NSDF denominator is ever zero, by construction of
/// the NSDF rationals).
pub proof fn lemma_zero_window_suppressed(cfg: DetectionConfig, x: Seq<i16>)
    requires
        cfg.wf(),
        x.len() == cfg.window_size,
        1 <= cfg.power_threshold,
        forall|i: int| 0 <= i < x.len() ==> #[trigger] x[i] == 0,
    ensures
        estimate_spec(cfg, x) is None,
{
    assert(x.len() * 0 * 0 == 0) by (nonlinear_arith);
    lemma_silence_suppressed(cfg, x, 0);
}

} // verus!
