//! Cadence control: one estimation run per `trigger_interval` samples.

use vstd::prelude::*;

use vstd::arithmetic::div_mod::lemma_fundamental_div_mod;
use vstd::arithmetic::div_mod::lemma_fundamental_div_mod_converse;

verus! {

/// How many of the first `n` samples trigger an estimation run, at one
/// trigger per `t` samples: the number of `i` in `[1, n]` with `i % t == 0`.
pub open spec fn trigger_count(n: nat, t: nat) -> nat
    decreases n,
{
    if n == 0 {
        0
    } else {
        trigger_count((n - 1) as nat, t) + if n % t == 0 { 1nat } else { 0nat }
    }
}

/// Cadence correctness: over any run of `n` samples with interval `t`,
/// exactly `n / t` estimation runs are triggered.
pub proof fn lemma_trigger_count_is_quotient(n: nat, t: nat)
    requires
        1 <= t,
    ensures
        trigger_count(n, t) == n / t,
    decreases n,
{
    if n == 0 {
    } else {
        lemma_trigger_count_is_quotient((n - 1) as nat, t);
        lemma_fundamental_div_mod(n as int, t as int);
        let q = n as int / t as int;
        let r = n as int % t as int;
        assert(q * (t as int) == (t as int) * q && (q - 1) * (t as int) == (t as int) * q - (t
            as int)) by (nonlinear_arith);
        if r == 0 {
            lemma_fundamental_div_mod_converse(n as int - 1, t as int, q - 1, t as int - 1);
        } else {
            lemma_fundamental_div_mod_converse(n as int - 1, t as int, q, r - 1);
        }
    }
}

/// Counts the samples seen and reports when a new estimation run is due.
#[derive(Clone, Copy, PartialEq, Eq, Structural, Debug)]
pub struct CadenceController {
    /// Monotonically increasing count of samples observed.
    pub count: u64,
    /// Number of new samples between successive estimation runs.
    pub interval: u64,
}

impl CadenceController {
    /// The interval must be positive for the trigger test to be defined.
    pub open spec fn wf(&self) -> bool {
        1 <= self.interval
    }

    /// A fresh controller that has seen no samples.
    pub fn new(interval: u64) -> (c: CadenceController)
        requires
            1 <= interval,
        ensures
            c.wf(),
            c.count == 0,
            c.interval == interval,
    {
        CadenceController { count: 0, interval }
    }

    /// Record one observed sample; the result says whether this sample
    /// triggers an estimation run, which happens exactly on every
    /// `interval`-th sample.
    pub fn on_sample(&mut self) -> (trigger: bool)
        requires
            old(self).wf(),
            old(self).count < u64::MAX,
        ensures
            final(self).wf(),
            final(self).interval == old(self).interval,
            final(self).count == old(self).count + 1,
            trigger == ((old(self).count + 1) % (old(self).interval as int) == 0),
    {
        self.count = self.count + 1;
        self.count % self.interval == 0
    }
}

} // verus!
