use cisat::problems::Example;
use cisat::utilities::randomness::RngHandle;
use cisat::{
    Agent, AgentMethods, Cohort, CommunicationStyle, Parameters, Solution, Team, TeamMethods,
    TemperatureSchedule,
};

type A = Agent<Example>;
type T = Team<Example, A>;
type C = Cohort<Example, A, T>;

fn scenario_parameters() -> Parameters {
    let mut p = Parameters::default();
    p.number_of_teams = 1;
    p.number_of_agents = 1;
    p.number_of_iterations = 1;
    p.temperature_schedule = TemperatureSchedule::Geometric { initial_temperature: 1000000, dwell: 1 };
    p.communication = CommunicationStyle::NoCommunication;
    p
}

#[test]
fn single_agent_single_iteration_advances_counter() {
    // One team, one agent, one iteration, geometric cooling from 1.0,
    // no communication: after solving, the agent's iteration counter
    // stands at 2 and its best is at least its initial quality.
    let mut agent = A::new(0, scenario_parameters(), 42);
    assert_eq!(agent.get_iteration_number(), 1);
    let initial_quality = agent.get_current_solution().get_quality_scalar();
    agent.iterate();
    assert_eq!(agent.get_iteration_number(), 2);
    assert!(agent.get_best_quality_so_far() >= initial_quality);

    let mut team = T::new(scenario_parameters(), 42);
    let before = team.get_best_solution_so_far().get_quality_scalar();
    team.solve();
    let after = team.get_best_solution_so_far().get_quality_scalar();
    assert!(after >= before);
}

#[test]
fn best_quality_never_decreases_across_iterations() {
    let mut p = scenario_parameters();
    p.temperature_schedule = TemperatureSchedule::Cauchy {
        initial_temperature: 2000000,
        delta: 100000,
        dwell: 1,
    };
    let mut agent = A::new(0, p, 7);
    let mut previous = agent.get_best_quality_so_far();
    for _ in 0..100 {
        agent.iterate();
        let now = agent.get_best_quality_so_far();
        assert!(now >= previous);
        previous = now;
    }
}

#[test]
fn communication_adopts_an_exact_pooled_solution() {
    let mut rng = RngHandle::from_seed(12);
    let first = Example::generate_initial_solution(&mut rng);
    let second = Example::generate_initial_solution(&mut rng);
    let third = Example::generate_initial_solution(&mut rng);
    let qualities = vec![
        first.get_quality_scalar(),
        second.get_quality_scalar(),
        third.get_quality_scalar(),
    ];

    let mut agent = A::new(1, scenario_parameters(), 3);
    agent.communicate(vec![first, second, third]);
    let adopted = agent.get_current_solution().get_quality_scalar();
    assert!(qualities.contains(&adopted));
}

#[test]
fn communication_adopts_a_positively_weighted_entry() {
    // Quality bias tuned so the worse pool entry's adjusted weight clamps
    // to zero while the better one stays positive: the draw must adopt
    // the better entry, never the zero-weighted one.
    let mut rng = RngHandle::from_seed(33);
    let mut first = Example::generate_initial_solution(&mut rng);
    let mut second = Example::generate_initial_solution(&mut rng);
    while first.get_quality_scalar() == second.get_quality_scalar() {
        second = Example::generate_initial_solution(&mut rng);
    }
    if first.get_quality_scalar() > second.get_quality_scalar() {
        std::mem::swap(&mut first, &mut second);
    }
    let low = first.get_quality_scalar();
    let high = second.get_quality_scalar();

    let mut p = scenario_parameters();
    p.quality_bias = -low;
    p.self_bias = 0;
    for seed in 0..20 {
        let mut agent = A::new(0, p.duplicate(), seed);
        agent.communicate(vec![first.duplicate(), second.duplicate()]);
        assert_eq!(agent.get_current_solution().get_quality_scalar(), high);
    }
}

#[test]
fn communication_with_all_zero_weights_does_not_crash() {
    // Strongly negative quality bias clamps every weight to zero; the
    // draw must fall back to a uniform choice over the pool.
    let mut p = scenario_parameters();
    p.quality_bias = i64::MIN;
    p.self_bias = 0;
    let mut rng = RngHandle::from_seed(21);
    let first = Example::generate_initial_solution(&mut rng);
    let second = Example::generate_initial_solution(&mut rng);
    let qualities = vec![first.get_quality_scalar(), second.get_quality_scalar()];

    let mut agent = A::new(0, p, 4);
    agent.communicate(vec![first, second]);
    let adopted = agent.get_current_solution().get_quality_scalar();
    assert!(qualities.contains(&adopted));
}

#[test]
fn regular_interval_triggers_exactly_on_multiples() {
    // Interval five over ten iterations: communication exactly at
    // iterations 5 and 10, never at 1 through 4 or 6 through 9.
    let style = CommunicationStyle::RegularInterval { interval: 5 };
    let mut rng = RngHandle::from_seed(8);
    for iteration in 1..=10 {
        let triggered = cisat::abm::team::communication_triggered(&style, iteration, &mut rng);
        assert_eq!(triggered, iteration == 5 || iteration == 10);
    }
}

#[test]
fn scheduled_meetings_trigger_exactly_on_listed_times() {
    let style = CommunicationStyle::ScheduledMeetings { times: vec![2, 3, 7] };
    let mut rng = RngHandle::from_seed(9);
    for iteration in 1..=10 {
        let triggered = cisat::abm::team::communication_triggered(&style, iteration, &mut rng);
        assert_eq!(triggered, iteration == 2 || iteration == 3 || iteration == 7);
    }
}

#[test]
fn constant_frequency_edges() {
    let mut rng = RngHandle::from_seed(10);
    let never = CommunicationStyle::ConstantFrequency { frequency: 0 };
    let always = CommunicationStyle::ConstantFrequency { frequency: 1000000 };
    for iteration in 1..=20 {
        assert!(!cisat::abm::team::communication_triggered(&never, iteration, &mut rng));
        assert!(cisat::abm::team::communication_triggered(&always, iteration, &mut rng));
    }
}

#[test]
fn zero_iterations_leave_the_cohort_untouched() {
    // Construction followed by a solve over zero iterations must not
    // move any agent off its freshly generated initial solution.
    let mut p = Parameters::default();
    p.number_of_teams = 2;
    p.number_of_agents = 3;
    p.number_of_iterations = 0;
    let mut cohort = C::new(p, 31);
    let before = cohort.get_best_solution_so_far();
    cohort.solve();
    let after = cohort.get_best_solution_so_far();
    assert_eq!(before, after);
}

#[test]
fn cohort_best_dominates_every_team_best() {
    let mut p = Parameters::default();
    p.number_of_teams = 3;
    p.number_of_agents = 2;
    p.number_of_iterations = 40;
    p.communication = CommunicationStyle::RegularInterval { interval: 4 };
    let mut cohort = C::new(p, 17);
    cohort.solve();
    let best = cohort.get_best_solution_so_far();
    for team in cohort.team_list.iter_mut() {
        let team_best = team.get_best_solution_so_far().get_quality_scalar();
        assert!(best >= team_best);
    }
}

#[test]
fn identical_seeds_give_identical_results() {
    // Two cohorts built from the same seed and the same parameters,
    // stepped sequentially, report the same best quality.
    let mut p = Parameters::default();
    p.number_of_teams = 2;
    p.number_of_agents = 2;
    p.number_of_iterations = 15;
    p.communication = CommunicationStyle::RegularInterval { interval: 3 };
    let mut first = C::new(p.duplicate(), 1234);
    let mut second = C::new(p, 1234);
    for _ in 0..15 {
        first.iterate();
        second.iterate();
    }
    assert_eq!(first.get_best_solution_so_far(), second.get_best_solution_so_far());
}

#[test]
fn solve_runs_the_configured_number_of_rounds() {
    let mut p = scenario_parameters();
    p.number_of_iterations = 9;
    let mut team = T::new(p, 2);
    team.solve();
    let mut probe = A::new(0, scenario_parameters(), 2);
    for _ in 0..9 {
        probe.iterate();
    }
    assert_eq!(probe.get_iteration_number(), 10);
}
