use cisat::utilities::annealing::{acceptance_probability, Temperature};
use cisat::utilities::parameters::SCALE;

#[test]
fn equal_quality_is_always_accepted_at_positive_temperature() {
    let t = Temperature { num: SCALE, den: 1 };
    assert_eq!(acceptance_probability(0, &t), SCALE);
}

#[test]
fn zero_temperature_never_accepts_a_worse_candidate() {
    let t = Temperature { num: 0, den: 1 };
    assert_eq!(acceptance_probability(-1, &t), 0);
    assert_eq!(acceptance_probability(-1000000, &t), 0);
}

#[test]
fn acceptance_probability_is_a_probability() {
    let deltas = [0, -1, -250000, -1000000, -50000000, i64::MIN];
    let temperatures = [
        Temperature { num: 0, den: 1 },
        Temperature { num: 1, den: 1 },
        Temperature { num: SCALE, den: 1 },
        Temperature { num: SCALE, den: 7 },
        Temperature { num: 100 * SCALE, den: 3 },
    ];
    for delta in deltas {
        for t in &temperatures {
            let temperature = Temperature { num: t.num, den: t.den };
            let p = acceptance_probability(delta, &temperature);
            assert!(p <= SCALE);
        }
    }
}

#[test]
fn acceptance_probability_matches_fixed_point_series() {
    // A whole unit of exponent applies the reciprocal of e once.
    let unit = Temperature { num: SCALE, den: 1 };
    assert_eq!(acceptance_probability(-1000000, &unit), 367879);
    // A half unit uses the truncated series 1 - x + x*x/2.
    assert_eq!(acceptance_probability(-500000, &unit), 625000);
    // A huge deficit underflows to an exact zero.
    assert_eq!(acceptance_probability(i64::MIN, &unit), 0);
}

#[test]
fn cooling_lowers_acceptance_of_a_worse_candidate() {
    // The same schedule at later iterations: initial temperature 1.0
    // divided by the iteration number, so the temperature strictly
    // decreases and with it the chance of accepting the same deficit.
    let early = Temperature { num: SCALE, den: 1 };
    let late = Temperature { num: SCALE, den: 2 };
    let p_early = acceptance_probability(-1000000, &early);
    let p_late = acceptance_probability(-1000000, &late);
    assert_eq!(p_early, 367879);
    assert_eq!(p_late, 135334);
    assert!(p_late < p_early);
}

#[test]
fn cooled_temperatures_strictly_decrease_as_rationals() {
    // initial_temperature / n, compared by cross-multiplication.
    let t0: u64 = 3 * SCALE;
    for n in 1u64..20 {
        let now = Temperature { num: t0, den: n };
        let next = Temperature { num: t0, den: n + 1 };
        assert!((next.num as u128) * (now.den as u128) < (now.num as u128) * (next.den as u128));
    }
}
