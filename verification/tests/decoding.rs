use jobshop::preprocess::{chromosome_matches, run as build_master, JobMaster, ValidationError};
use jobshop::score::{DecodeError, ScoreCalculator, SCORE_ONE};

/// The two-job, two-actor regression fixture: durations [[3,2],[2,3]],
/// actors [[0,1],[1,0]].
fn fixture_master() -> JobMaster {
    let rows: Vec<Vec<u16>> = vec![
        vec![3, 2],
        vec![2, 3],
        vec![0, 1],
        vec![1, 0],
    ];
    build_master(2, 2, rows).unwrap()
}

#[test]
fn fixture_decodes_to_expected_makespan() {
    // Job 0: op 0 on actor 0 over 0..3, op 1 on actor 1 over 3..5.
    // Job 1: op 0 needs actor 1, which is busy until 5, so it runs 5..7;
    // op 1 then runs on actor 0 over 7..10.
    let master = fixture_master();
    let mut calculator = ScoreCalculator::new(master);
    let chromosome: Vec<u16> = vec![0, 0, 1, 1];
    assert_eq!(calculator.calc_makespan(&chromosome), 10);
}

#[test]
fn decode_is_deterministic_across_calls() {
    // No state leaks between decodes: interleaving other chromosomes does
    // not change the answer.
    let master = fixture_master();
    let mut calculator = ScoreCalculator::new(master);
    let a: Vec<u16> = vec![0, 0, 1, 1];
    let b: Vec<u16> = vec![1, 0, 1, 0];
    let first = calculator.calc_makespan(&a);
    let other = calculator.calc_makespan(&b);
    let second = calculator.calc_makespan(&a);
    assert_eq!(first, second);
    let _ = other;
}

#[test]
fn single_job_decodes_to_duration_sum() {
    // One job of three operations: every valid chromosome gives the sum of
    // its durations.
    let rows: Vec<Vec<u16>> = vec![vec![4, 1, 2], vec![0, 2, 1]];
    let master = build_master(1, 3, rows).unwrap();
    let mut calculator = ScoreCalculator::new(master);
    let chromosome: Vec<u16> = vec![0, 0, 0];
    assert_eq!(calculator.calc_makespan(&chromosome), 7);
}

#[test]
fn makespan_to_score_exact_values() {
    let master = fixture_master();
    let calculator = ScoreCalculator::new(master);
    assert_eq!(calculator.makespan_to_score(1), SCORE_ONE);
    assert_eq!(calculator.makespan_to_score(4), 250_000_000_000_000_000);
    assert_eq!(calculator.makespan_to_score(3), 333_333_333_333_333_333);
    // The degenerate zero makespan maps to the maximal score.
    assert_eq!(calculator.makespan_to_score(0), SCORE_ONE);
}

#[test]
fn chromosome_matching_rejects_mismatches() {
    let master = fixture_master();
    assert!(chromosome_matches(&master, &vec![0, 0, 1, 1]));
    assert!(chromosome_matches(&master, &vec![1, 0, 1, 0]));
    // Wrong length.
    assert!(!chromosome_matches(&master, &vec![0, 1]));
    // Unknown job id.
    assert!(!chromosome_matches(&master, &vec![0, 0, 1, 2]));
    // Right length and known ids, wrong occurrence counts.
    assert!(!chromosome_matches(&master, &vec![0, 0, 0, 1]));
}

#[test]
fn try_calc_makespan_validates_first() {
    let master = fixture_master();
    let mut calculator = ScoreCalculator::new(master);
    assert_eq!(calculator.try_calc_makespan(&vec![0, 0, 1, 1]), Ok(10));
    assert_eq!(
        calculator.try_calc_makespan(&vec![0, 0, 0, 1]),
        Err(DecodeError::InstanceMismatch)
    );
}

#[test]
fn build_master_splits_rows() {
    let master = fixture_master();
    assert_eq!(master.job_size, 2);
    assert_eq!(master.machine_series_size, 2);
    assert_eq!(master.exec_times, vec![vec![3, 2], vec![2, 3]]);
    assert_eq!(master.actor_sequences, vec![vec![0, 1], vec![1, 0]]);
}

#[test]
fn build_master_rejects_empty_sizes() {
    let r = build_master(0, 2, vec![]);
    assert_eq!(r.err(), Some(ValidationError::EmptySize));
    let r = build_master(2, 0, vec![]);
    assert_eq!(r.err(), Some(ValidationError::EmptySize));
}

#[test]
fn build_master_rejects_oversized_sizes() {
    let r = build_master(70_000, 2, vec![]);
    assert_eq!(r.err(), Some(ValidationError::SizeTooLarge));
}

#[test]
fn build_master_rejects_wrong_row_count() {
    let rows: Vec<Vec<u16>> = vec![vec![3, 2], vec![2, 3], vec![0, 1]];
    let r = build_master(2, 2, rows);
    assert_eq!(r.err(), Some(ValidationError::RowCountMismatch));
}

#[test]
fn build_master_rejects_ragged_rows() {
    let rows: Vec<Vec<u16>> = vec![vec![3, 2], vec![2], vec![0, 1], vec![1, 0]];
    let r = build_master(2, 2, rows);
    assert_eq!(r.err(), Some(ValidationError::RowLengthMismatch));
}

#[test]
fn build_master_rejects_actor_out_of_range() {
    let rows: Vec<Vec<u16>> = vec![vec![3, 2], vec![2, 3], vec![0, 2], vec![1, 0]];
    let r = build_master(2, 2, rows);
    assert_eq!(r.err(), Some(ValidationError::ActorOutOfRange));
}

#[test]
fn is_well_formed_matches_validation() {
    let master = fixture_master();
    assert!(master.is_well_formed());
    let broken = JobMaster {
        job_size: 2,
        machine_series_size: 2,
        exec_times: vec![vec![3, 2]],
        actor_sequences: vec![vec![0, 1], vec![1, 0]],
    };
    assert!(!broken.is_well_formed());
}
