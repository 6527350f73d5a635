//! Annealing arithmetic: the agent temperature as an exact rational, the
//! cooling schedules over it, and the Metropolis acceptance probability in
//! fixed point.

use vstd::arithmetic::div_mod::{lemma_div_by_multiple, lemma_div_is_ordered};
use vstd::prelude::*;

use crate::utilities::parameters::{TemperatureSchedule, SCALE};

verus! {

/// The reciprocal of Euler's number in `SCALE` units, rounded.
pub const INV_E: u64 = 367879;

/// Exponents of this many `SCALE` units or more are treated as minus
/// infinity by the acceptance probability: their true value is far below
/// one `SCALE` unit.
pub const EXPONENT_CUTOFF: u64 = 20;

/// An agent's temperature, kept as the exact rational
/// `num / (SCALE * den)`: cooling schedules divide a fixed initial
/// temperature (the numerator, in `SCALE` units per 1.0) by the iteration
/// number (the denominator), and keeping the pair exact makes the strict
/// cooling law provable without rounding noise.
pub struct Temperature {
    /// Initial temperature, in `SCALE` units per 1.0.
    pub num: u64,
    /// The divisor, normally the iteration number the temperature was
    /// computed at.
    pub den: u64,
}

impl Temperature {
    /// Whether the rational is well formed: the divisor is positive.
    pub open spec fn wf(self) -> bool {
        self.den >= 1
    }

    /// Whether this temperature is strictly below the other, as rationals
    /// with positive denominators.
    pub open spec fn spec_lt(self, other: Self) -> bool {
        self.num * other.den < other.num * self.den
    }

    /// Whether the temperature is exactly zero.
    pub open spec fn is_zero(self) -> bool {
        self.num == 0
    }

    /// The frozen temperature an agent starts from before its first
    /// iteration, and keeps whenever no schedule is configured.
    pub fn initial() -> (t: Self)
        ensures
            t.wf(),
            t.is_zero(),
            t == (Temperature { num: 0u64, den: 1u64 }),
    {
        Temperature { num: 0, den: 1 }
    }
}

/// The initial temperature a cooling schedule starts from; zero for the
/// schedule-less configuration.
pub open spec fn cooling_initial(schedule: TemperatureSchedule) -> u64 {
    match schedule {
        TemperatureSchedule::Triki { initial_temperature, .. } => initial_temperature,
        TemperatureSchedule::Cauchy { initial_temperature, .. } => initial_temperature,
        TemperatureSchedule::Geometric { initial_temperature, .. } => initial_temperature,
        TemperatureSchedule::NoSchedule => 0,
    }
}

/// Whether the schedule cools at all: every variant but the schedule-less
/// one recomputes the temperature each iteration.
pub open spec fn is_cooling(schedule: TemperatureSchedule) -> bool {
    !(schedule is NoSchedule)
}

/// The temperature a cooling schedule yields at iteration `n`: the initial
/// temperature divided by `n`, as an exact rational. The Triki, Cauchy and
/// Geometric schedules all cool by this same formula; their extra
/// configuration fields are accepted but unused.
pub open spec fn temperature_at(schedule: TemperatureSchedule, n: u64) -> Temperature {
    Temperature { num: cooling_initial(schedule), den: n }
}

/// Monotonic cooling: under any cooling schedule with a positive initial
/// temperature, the temperature at a later iteration is strictly below the
/// temperature at an earlier one.
pub proof fn lemma_cooling_strictly_decreases(schedule: TemperatureSchedule, n1: u64, n2: u64)
    requires
        is_cooling(schedule),
        cooling_initial(schedule) > 0,
        1 <= n1 < n2,
    ensures
        temperature_at(schedule, n2).spec_lt(temperature_at(schedule, n1)),
{
    let t0 = cooling_initial(schedule);
    assert(t0 * n1 < t0 * n2) by (nonlinear_arith)
        requires
            t0 > 0,
            n1 < n2,
    ;
}

/// The truncated second-order series for `exp(-r / SCALE)` on one
/// cooling-interval: `SCALE - r + r*r / (2*SCALE)`, in `SCALE` units.
pub open spec fn exp_fraction(r: int) -> int {
    SCALE - r + (r * r) / (2 * SCALE as int)
}

/// The per-unit decay factor `INV_E / SCALE` applied to `p` exactly `k`
/// times, in fixed point.
pub open spec fn decayed(p: int, k: nat) -> int
    decreases k,
{
    if k == 0 {
        p
    } else {
        decayed(p, (k - 1) as nat) * (INV_E as int) / (SCALE as int)
    }
}

/// The fixed-point `exp(-x / SCALE)`: the truncated series for the
/// fractional part of the exponent, decayed once per whole unit.
pub open spec fn exp_neg_spec(x: int) -> int {
    decayed(exp_fraction(x % (SCALE as int)), (x / (SCALE as int)) as nat)
}

/// The exact value the acceptance probability computes: zero at zero
/// temperature and for exponents past the cutoff; otherwise the
/// fixed-point exponential of `(-delta) * den * SCALE / num`, the deficit
/// divided by the temperature, in `SCALE` units and capped at the cutoff.
pub open spec fn acceptance_probability_spec(delta: int, t: Temperature) -> int {
    if t.num == 0 {
        0
    } else {
        let scaled_deficit = (-delta) * t.den;
        if scaled_deficit >= EXPONENT_CUTOFF * t.num {
            0
        } else {
            let exponent = scaled_deficit * (SCALE as int) / (t.num as int);
            if exponent >= EXPONENT_CUTOFF * SCALE {
                exp_neg_spec(EXPONENT_CUTOFF * SCALE)
            } else {
                exp_neg_spec(exponent)
            }
        }
    }
}

/// The fractional factor stays within one `SCALE` unit.
proof fn lemma_exp_fraction_in_unit(r: int)
    requires
        0 <= r < SCALE,
    ensures
        0 <= exp_fraction(r) <= SCALE,
        r == 0 ==> exp_fraction(r) == SCALE,
{
    let s2 = 2 * SCALE as int;
    assert(r * r <= r * s2) by (nonlinear_arith)
        requires
            0 <= r <= s2,
    ;
    lemma_div_is_ordered(r * r, r * s2, s2);
    lemma_div_by_multiple(r, s2);
    assert((r * r) / s2 >= 0) by (nonlinear_arith)
        requires
            0 <= r,
            s2 > 0,
    ;
}

/// The acceptance probability, in `SCALE` units, of a candidate whose
/// quality trails the current solution by `x / SCALE` temperature units:
/// an under-approximating fixed-point `exp(-x / SCALE)`. The factor
/// `INV_E` is applied once per whole unit of exponent and the truncated
/// series covers the fractional part.
fn exp_neg_millionths(x: u64) -> (p: u64)
    requires
        x <= EXPONENT_CUTOFF * SCALE,
    ensures
        p == exp_neg_spec(x as int),
        p <= SCALE,
        x == 0 ==> p == SCALE,
{
    let k: u64 = x / SCALE;
    let r: u64 = x % SCALE;
    proof {
        lemma_exp_fraction_in_unit(r as int);
        assert(r * r <= SCALE * SCALE) by (nonlinear_arith)
            requires
                r <= SCALE,
        ;
    }
    let rsq: u64 = (r * r) / (2 * SCALE);
    let mut p: u64 = SCALE - r + rsq;
    assert(p == exp_fraction(r as int));
    let mut i: u64 = 0;
    while i < k
        invariant
            p == decayed(exp_fraction(r as int), i as nat),
            p <= SCALE,
            i <= k,
            k == x as int / (SCALE as int),
            r == x as int % (SCALE as int),
            x == 0 ==> p == SCALE && k == 0,
        decreases k - i,
    {
        proof {
            lemma_div_is_ordered((p * INV_E) as int, (SCALE * INV_E) as int, SCALE as int);
            lemma_div_by_multiple(INV_E as int, SCALE as int);
            assert(p * INV_E <= SCALE * INV_E) by (nonlinear_arith)
                requires
                    p <= SCALE,
            ;
        }
        p = (p * INV_E) / SCALE;
        i = i + 1;
    }
    p
}

/// The Metropolis acceptance probability for a candidate that does not
/// improve on the current solution: `exp(delta / T)` in `SCALE` units,
/// where `delta` (at most zero, in `SCALE` units) is the quality
/// difference and `T` the current temperature. A zero temperature never
/// accepts a worse candidate, and a zero difference is always accepted;
/// the result is a probability, so it never exceeds one.
pub fn acceptance_probability(delta: i64, temperature: &Temperature) -> (p: u64)
    requires
        delta <= 0,
        temperature.wf(),
    ensures
        p == acceptance_probability_spec(delta as int, *temperature),
        p <= SCALE,
        temperature.is_zero() ==> p == 0,
        delta == 0 && !temperature.is_zero() ==> p == SCALE,
{
    if temperature.num == 0 {
        return 0;
    }
    let d: u64 = (-(delta as i128)) as u64;
    proof {
        assert((d as int) * (temperature.den as int) <= 0xffffffffffffffff
            * 0xffffffffffffffff) by (nonlinear_arith)
            requires
                d <= 0xffffffffffffffff,
                temperature.den <= 0xffffffffffffffff,
        ;
    }
    let a: u128 = (d as u128) * (temperature.den as u128);
    proof {
        assert(d == 0 ==> a == 0) by (nonlinear_arith)
            requires
                a == (d as int) * (temperature.den as int),
        ;
    }
    let cutoff: u128 = (EXPONENT_CUTOFF as u128) * (temperature.num as u128);
    if a >= cutoff {
        return 0;
    }
    proof {
        assert(a * (SCALE as int) <= (20 * 0x10000000000000000) * 1000000) by (nonlinear_arith)
            requires
                a <= 20 * 0x10000000000000000,
                SCALE == 1000000,
        ;
    }
    let scaled: u128 = a * (SCALE as u128);
    let x_wide: u128 = scaled / (temperature.num as u128);
    let limit: u128 = (EXPONENT_CUTOFF * SCALE) as u128;
    let x: u64 = if x_wide >= limit {
        EXPONENT_CUTOFF * SCALE
    } else {
        x_wide as u64
    };
    let p = exp_neg_millionths(x);
    if delta == 0 {
        assert(d == 0);
        assert(x_wide == 0) by {
            assert(a == 0) by (nonlinear_arith)
                requires
                    d == 0,
                    a == (d as u128) * (temperature.den as u128),
            ;
            assert(scaled == 0) by (nonlinear_arith)
                requires
                    a == 0,
                    scaled == a * (SCALE as u128),
            ;
            lemma_div_by_multiple(0int, temperature.num as int);
        };
    }
    p
}

} // verus!
