use jobshop::rng::fix_random_seed;
use jobshop::simulated_annealing::{accept, cool, exp_neg, AnnealConfig, LN2_NANOS, TEMP_ONE};

fn stock_config() -> AnnealConfig {
    AnnealConfig {
        steps: 2_000_000,
        cooling_num: 9,
        cooling_den: 10,
        time_limit_millis: Some(600_000),
    }
}

#[test]
fn test_is_replaceable() {
    // A better candidate score is accepted whatever the draw and temperature.
    assert!(accept(100, 200, TEMP_ONE, 0));
    assert!(accept(100, 200, TEMP_ONE, u64::MAX));
    assert!(accept(100, 200, 0, 12345));

    // A candidate whose score is far below the current one at a tiny
    // temperature: the acceptance probability underflows to zero, so every
    // draw rejects it.
    let mut rng = fix_random_seed(7);
    let draw = rng.next_word();
    let result = accept(1_000_000_000_000_000_000, 500_000_000_000_000_000, 1, draw);
    assert!(!result);
}

#[test]
fn test_is_replaceable_with_equal_values() {
    // Equal scores have probability one: always accepted, even when the
    // temperature is nearly zero.
    let mut rng = fix_random_seed(11);
    let draw = rng.next_word();
    let result_low_temp = accept(5, 5, 1, draw);
    assert!(result_low_temp);
}

#[test]
fn test_is_replaceable_with_extreme_values() {
    // A very high temperature makes worsening moves likely to pass; the
    // outcome still depends on the draw, so it is only exercised here.
    let mut rng = fix_random_seed(13);
    let _prob_high_temp = accept(100, 50, TEMP_ONE, rng.next_word());

    // At temperature zero a strictly worsening move is never accepted.
    let prob_zero_temp = accept(10, 5, 0, rng.next_word());
    assert!(!prob_zero_temp);
}

#[test]
fn test_swap_2_genes() {
    let chromosome: Vec<u16> = vec![1, 2, 3, 4, 5];
    let original = chromosome.clone();

    let mut rng = fix_random_seed(42);
    let result = jobshop::simulated_annealing::swap_2_genes(&chromosome, &mut rng);

    assert_eq!(result.len(), original.len());
}

#[test]
fn test_swap_2_genes_identity() {
    // A single-gene chromosome is unchanged by any swap.
    let chromosome: Vec<u16> = vec![1];
    let original = chromosome.clone();
    let mut rng = fix_random_seed(42);
    let result = jobshop::simulated_annealing::swap_2_genes(&chromosome, &mut rng);
    assert_eq!(result, original);
}

#[test]
fn test_swap_2_genes_preserves_elements() {
    let chromosome: Vec<u16> = vec![1, 2, 3, 4, 5];
    let original_sum: u16 = chromosome.iter().sum();
    let mut rng = fix_random_seed(42);
    let result = jobshop::simulated_annealing::swap_2_genes(&chromosome, &mut rng);
    let result_sum: u16 = result.iter().sum();
    assert_eq!(original_sum, result_sum);
}

#[test]
fn test_cool() {
    let config = stock_config();
    let initial_temp = TEMP_ONE;
    let cooled_temp = cool(initial_temp, &config);
    assert_eq!(cooled_temp, initial_temp / 10 * 9);

    let initial_temp = 10 * TEMP_ONE;
    let cooled_temp = cool(initial_temp, &config);
    assert_eq!(cooled_temp, 9 * TEMP_ONE);
}

#[test]
fn cool_rounds_down_inexact_steps() {
    let config = stock_config();
    // 9 * 9 = 81, and 81 / 10 rounds down to 8.
    assert_eq!(cool(9, &config), 8);
    assert_eq!(cool(0, &config), 0);
}

#[test]
fn exp_neg_exact_values() {
    // exp(0) is exactly one.
    assert_eq!(exp_neg(0), TEMP_ONE);
    // exp(-ln 2) is exactly one half: one clean halving.
    assert_eq!(exp_neg(LN2_NANOS), TEMP_ONE / 2);
    // Far tails underflow to zero.
    assert_eq!(exp_neg(30 * LN2_NANOS), 0);
    assert_eq!(exp_neg(u64::MAX), 0);
}

#[test]
fn accept_worsening_threshold_is_monotone_in_temperature() {
    // The same worsening move and draw: rejected when cold, accepted when
    // warm.  The gap is one tenth of the score scale.
    let current = 1_000_000_000_000_000_000u64;
    let candidate = current - 100_000_000_000_000_000;
    let draw = 500_000_000u64;
    assert!(!accept(current, candidate, 1_000, draw));
    assert!(accept(current, candidate, 1_000_000_000_000_000_000, draw));
}
