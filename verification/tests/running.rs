use jobshop::preprocess::{chromosome_matches, run as build_master, JobMaster};
use jobshop::rng::fix_random_seed;
use jobshop::runner::{initialize_chromosome, run as run_search};
use jobshop::score::ScoreCalculator;
use jobshop::simulated_annealing::{run as run_engine, AnnealConfig, StopReason};

fn fixture_master() -> JobMaster {
    let rows: Vec<Vec<u16>> = vec![
        vec![3, 2],
        vec![2, 3],
        vec![0, 1],
        vec![1, 0],
    ];
    build_master(2, 2, rows).unwrap()
}

fn tiny_config(steps: u32) -> AnnealConfig {
    AnnealConfig {
        steps,
        cooling_num: 9,
        cooling_den: 10,
        time_limit_millis: None,
    }
}

#[test]
fn initial_chromosome_is_a_valid_permutation() {
    let master = fixture_master();
    let mut rng = fix_random_seed(42);
    let chromosome = initialize_chromosome(5, 12, &mut rng);
    assert_eq!(chromosome.len(), 60);
    for job in 0u16..5 {
        let occurrences = chromosome.iter().filter(|&&g| g == job).count();
        assert_eq!(occurrences, 12);
    }
    let _ = master;
}

#[test]
fn different_seeds_draw_different_streams() {
    // Seeding determines the stream: two different seeds shuffle sixty genes
    // into the same order only with vanishing probability, so a generator
    // that ignored its seed would fail here.
    let mut rng_a = fix_random_seed(1);
    let mut rng_b = fix_random_seed(2);
    let a = initialize_chromosome(5, 12, &mut rng_a);
    let b = initialize_chromosome(5, 12, &mut rng_b);
    assert_ne!(a, b);

    let mut rng_c = fix_random_seed(1);
    let c = initialize_chromosome(5, 12, &mut rng_c);
    assert_eq!(a, c);
}

#[test]
fn fixed_seed_and_budget_reproduce_the_run() {
    // Two full runs with one seed and one iteration budget are
    // bit-identical: best chromosome, makespan and score.
    let first = run_search(fixture_master(), 42, &tiny_config(500));
    let second = run_search(fixture_master(), 42, &tiny_config(500));
    assert_eq!(first.best_solution, second.best_solution);
    assert_eq!(first.best_makespan, second.best_makespan);
    assert_eq!(first.best_score, second.best_score);
    assert_eq!(first.iterated_num, second.iterated_num);
    assert_eq!(first.iterated_num, 500);
    assert_eq!(first.reason, StopReason::StepBudgetExhausted);
}

#[test]
fn search_finds_the_fixture_optimum() {
    // The fixture's optimal makespan is 6 (interleaving the two jobs), and
    // with two thousand iterations over only six distinct orders the search
    // reaches it; the reported best chromosome fits the instance.
    let outcome = run_search(fixture_master(), 42, &tiny_config(2000));
    assert_eq!(outcome.best_makespan, 6);
    assert_eq!(outcome.best_score, 166_666_666_666_666_666);
    let master = fixture_master();
    assert!(chromosome_matches(&master, &outcome.best_solution));
}

#[test]
fn engine_reports_consistent_best_and_events() {
    let master = fixture_master();
    let mut calculator = ScoreCalculator::new(master);
    let mut rng = fix_random_seed(9);
    let chromosome: Vec<u16> = vec![1, 0, 1, 0];
    let initial_makespan = calculator.calc_makespan(&chromosome);
    let outcome = run_engine(&chromosome, &mut calculator, &mut rng, &tiny_config(50));

    assert_eq!(outcome.iterated_num, 50);
    assert_eq!(outcome.reason, StopReason::StepBudgetExhausted);
    // The best only improves on the initial solution.
    assert!(outcome.best_makespan <= initial_makespan);
    // The best reported pair is consistent: score is the fixed-point
    // reciprocal of the makespan.
    assert_eq!(
        outcome.best_score,
        calculator.makespan_to_score(outcome.best_makespan)
    );
    // Improvement records carry strictly increasing scores at increasing
    // iterations.
    for pair in outcome.events.windows(2) {
        assert!(pair[0].score < pair[1].score);
        assert!(pair[0].iteration < pair[1].iteration);
    }
    // Replaying the decode of the best chromosome gives the reported
    // makespan.
    assert_eq!(calculator.calc_makespan(&outcome.best_solution), outcome.best_makespan);
}

#[test]
fn time_limited_run_stays_within_budget() {
    let outcome = run_search(
        fixture_master(),
        3,
        &AnnealConfig {
            steps: 100,
            cooling_num: 9,
            cooling_den: 10,
            time_limit_millis: Some(600_000),
        },
    );
    assert!(outcome.iterated_num <= 100);
    match outcome.reason {
        StopReason::StepBudgetExhausted => assert_eq!(outcome.iterated_num, 100),
        StopReason::TimeLimitExceeded => assert!(outcome.iterated_num < 100),
    }
}
