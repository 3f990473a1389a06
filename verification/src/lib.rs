//! A verified job-shop scheduling optimizer: a simulated-annealing search
//! over permutation-style chromosomes, paired with a deterministic decoder
//! that turns a dispatch order into a schedule and computes its makespan.
#![verifier::loop_isolation(false)]

pub mod chromosome;
pub mod preprocess;
pub mod rng;
pub mod score;
pub mod simulated_annealing;
pub mod clock;
pub mod runner;
