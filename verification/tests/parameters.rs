use cisat::{CommunicationStyle, OperationalLearning, Parameters, TemperatureSchedule};

#[test]
fn default_parameters() {
    let p = Parameters::default();
    assert_eq!(p.number_of_teams, 1);
    assert_eq!(p.number_of_agents, 3);
    assert_eq!(p.number_of_iterations, 100);
    assert!(matches!(
        p.temperature_schedule,
        TemperatureSchedule::Geometric { initial_temperature: 1000000, dwell: 1 }
    ));
    assert!(matches!(p.operational_learning, OperationalLearning::NoLearning));
    assert!(matches!(p.communication, CommunicationStyle::NoCommunication));
    assert_eq!(p.self_bias, 1000000);
    assert_eq!(p.quality_bias, 1000000);
    assert_eq!(p.satisficing_fraction, 500000);
}

#[test]
fn hsat_parameters() {
    let p = Parameters::hsat();
    assert!(matches!(
        p.temperature_schedule,
        TemperatureSchedule::Triki { initial_temperature: 100000000, delta: 50000, dwell: 50 }
    ));
    assert!(matches!(p.communication, CommunicationStyle::RegularInterval { interval: 1 }));
    assert_eq!(p.self_bias, 0);
    assert_eq!(p.quality_bias, 0);
    assert_eq!(p.satisficing_fraction, 0);
}

#[test]
fn builders_replace_counts() {
    let p = Parameters::default().with_teams(7).with_agents(4).with_iters(25);
    assert_eq!(p.number_of_teams, 7);
    assert_eq!(p.number_of_agents, 4);
    assert_eq!(p.number_of_iterations, 25);
}

#[test]
fn verify_accepts_a_fraction() {
    assert!(Parameters::default().verify());
    let mut p = Parameters::default();
    p.satisficing_fraction = 0;
    assert!(p.verify());
    p.satisficing_fraction = 1000000;
    assert!(p.verify());
}

#[test]
fn verify_rejects_satisficing_fraction_above_one() {
    // A satisficing fraction of 1.5 must be rejected before any solving.
    let mut p = Parameters::default();
    p.satisficing_fraction = 1500000;
    assert!(!p.verify());
}

#[test]
fn verify_rejects_negative_satisficing_fraction() {
    let mut p = Parameters::default();
    p.satisficing_fraction = -1;
    assert!(!p.verify());
}

#[test]
fn duplicate_copies_every_field() {
    let p = Parameters::hsat().with_teams(2);
    let c = p.duplicate();
    assert_eq!(c.number_of_teams, p.number_of_teams);
    assert_eq!(c.number_of_agents, p.number_of_agents);
    assert_eq!(c.number_of_iterations, p.number_of_iterations);
    assert!(matches!(
        c.temperature_schedule,
        TemperatureSchedule::Triki { initial_temperature: 100000000, delta: 50000, dwell: 50 }
    ));
    assert!(matches!(c.communication, CommunicationStyle::RegularInterval { interval: 1 }));
    assert_eq!(c.self_bias, p.self_bias);
    assert_eq!(c.quality_bias, p.quality_bias);
    assert_eq!(c.satisficing_fraction, p.satisficing_fraction);
}
