use vstd::prelude::*;

use crate::chromosome::{
    clone_chromosome, gene_count, lemma_swap_preserves_counts, lemma_swap_preserves_validity,
    spec_swapped, Chromosome,
};
use crate::preprocess::{valid_chromosome, JobMaster};
use crate::rng::{stream_word, SeededRng};
use crate::score::{spec_decode, spec_score_of, ScoreCalculator, SCORE_ONE};
use vstd::arithmetic::div_mod::{
    lemma_div_is_ordered, lemma_div_is_ordered_by_denominator, lemma_div_multiples_vanish,
    lemma_fundamental_div_mod,
};
use vstd::arithmetic::mul::{lemma_mul_inequality, lemma_mul_upper_bound};

verus! {

/// Fixed-point scale for temperatures and acceptance probabilities: the
/// initial temperature 1 is held as `TEMP_ONE`.
pub const TEMP_ONE: u64 = 1_000_000_000;

/// The natural logarithm of two in the `TEMP_ONE` scale.
pub const LN2_NANOS: u64 = 693_147_180;

/// Tunables of one annealing run: the iteration budget, the geometric
/// cooling rate `cooling_num / cooling_den`, and an optional wall-clock
/// limit.
pub struct AnnealConfig {
    pub steps: u32,
    pub cooling_num: u64,
    pub cooling_den: u64,
    pub time_limit_millis: Option<u64>,
}

impl AnnealConfig {
    /// A usable configuration: the cooling rate is a fraction of at most one
    /// with a denominator small enough for exact fixed-point arithmetic.
    pub open spec fn wf(self) -> bool {
        &&& 1 <= self.cooling_den <= TEMP_ONE
        &&& self.cooling_num <= self.cooling_den
    }
}

impl Default for AnnealConfig {
    /// The stock tuning: two million iterations, cooling rate 9/10, and a
    /// ten-minute wall-clock limit.
    fn default() -> (c: AnnealConfig)
        ensures
            c.wf(),
            c.steps == 2_000_000,
            c.cooling_num == 9,
            c.cooling_den == 10,
            c.time_limit_millis == Some(600_000u64),
    {
        AnnealConfig {
            steps: 2_000_000,
            cooling_num: 9,
            cooling_den: 10,
            time_limit_millis: Some(600_000u64),
        }
    }
}

/// The quadratic Taylor estimate of `exp(-r)` in the `TEMP_ONE` scale, for
/// `r` in `[0, ln 2)`.
pub open spec fn spec_exp_frac(r: int) -> int {
    let r2 = (r * r) / (TEMP_ONE as int);
    let r3 = (r2 * r) / (TEMP_ONE as int);
    (TEMP_ONE as int + r2 / 2) - (r + r3 / 6)
}

/// `p` divided by two, `k` times over.
pub open spec fn spec_halve(p: int, k: nat) -> int
    decreases k,
{
    if k == 0 {
        p
    } else {
        spec_halve(p, (k - 1) as nat) / 2
    }
}

/// `exp(-x)` in the `TEMP_ONE` scale: the argument is split as
/// `x == k * ln 2 + r`, the fractional part is estimated by a quadratic
/// Taylor polynomial, and the result is halved `k` times; far tails underflow
/// to zero.
pub open spec fn spec_exp_neg(x: int) -> int {
    let k = x / (LN2_NANOS as int);
    if k >= 30 {
        0
    } else {
        spec_halve(spec_exp_frac(x % (LN2_NANOS as int)), k as nat)
    }
}

proof fn lemma_halve_bounds(p: int, k: nat)
    requires
        p >= 0,
    ensures
        0 <= spec_halve(p, k) <= p,
    decreases k,
{
    if k > 0 {
        lemma_halve_bounds(p, (k - 1) as nat);
    }
}

/// Evaluate `spec_exp_neg` on a machine word.  The result never exceeds
/// `TEMP_ONE` (a probability of one), and an argument of zero gives exactly
/// `TEMP_ONE`.
pub fn exp_neg(x: u64) -> (p: u64)
    ensures
        p == spec_exp_neg(x as int),
        p <= TEMP_ONE,
        x == 0 ==> p == TEMP_ONE,
{
    let k: u64 = x / LN2_NANOS;
    if k >= 30 {
        return 0;
    }
    let r: u64 = x % LN2_NANOS;
    assert(r < LN2_NANOS);
    assert(r * r <= 1_000_000_000_000_000_000) by (nonlinear_arith)
        requires
            r < 1_000_000_000,
    ;
    let r2: u64 = (r * r) / TEMP_ONE;
    proof {
        assert(r * r <= r * (TEMP_ONE as int)) by (nonlinear_arith)
            requires
                0 <= r && r <= TEMP_ONE,
        ;
        lemma_div_is_ordered((r * r) as int, r * (TEMP_ONE as int), TEMP_ONE as int);
        lemma_div_multiples_vanish(r as int, TEMP_ONE as int);
        assert(r2 <= r);
    }
    assert(r2 * r <= 1_000_000_000_000_000_000) by (nonlinear_arith)
        requires
            r2 <= r && r < 1_000_000_000,
    ;
    let r3: u64 = (r2 * r) / TEMP_ONE;
    proof {
        assert(r2 * r <= r2 * (TEMP_ONE as int)) by (nonlinear_arith)
            requires
                0 <= r2 && r <= TEMP_ONE,
        ;
        lemma_div_is_ordered((r2 * r) as int, r2 * (TEMP_ONE as int), TEMP_ONE as int);
        lemma_div_multiples_vanish(r2 as int, TEMP_ONE as int);
        assert(r3 <= r2);
        lemma_div_is_ordered_by_denominator(r3 as int, 2, 6);
        lemma_div_is_ordered(r3 as int, r2 as int, 2);
        assert(r3 / 6 <= r2 / 2);
    }
    let half_term: u64 = r2 / 2;
    let sixth_term: u64 = r3 / 6;
    let frac: u64 = (TEMP_ONE + half_term) - (r + sixth_term);
    proof {
        assert(half_term <= r);
        assert(frac <= TEMP_ONE);
        assert(frac as int == spec_exp_frac(r as int));
        lemma_halve_bounds(frac as int, k as nat);
    }
    let mut p: u64 = frac;
    let mut i: u64 = 0;
    while i < k
        invariant
            i <= k,
            p == spec_halve(frac as int, i as nat),
            p <= TEMP_ONE,
        decreases k - i,
    {
        p = p / 2;
        proof {
            lemma_halve_bounds(frac as int, i as nat + 1);
        }
        i = i + 1;
    }
    p
}

/// The Metropolis acceptance rule, maximization form, decided by the given
/// uniform draw: an un-worse candidate is always accepted; at temperature
/// zero a worse candidate is always rejected; otherwise the candidate is
/// accepted when the draw falls under the fixed-point estimate of
/// `exp((candidate - current) / temperature)`.
pub open spec fn spec_accept(
    current_score: int,
    candidate_score: int,
    temperature: int,
    draw: u64,
) -> bool {
    if candidate_score >= current_score {
        true
    } else if temperature == 0 {
        false
    } else {
        (draw as int) % (TEMP_ONE as int) < spec_exp_neg(
            (current_score - candidate_score) / temperature,
        )
    }
}

/// Decide whether the candidate replaces the current solution.  Improvements
/// and ties are always accepted; at temperature zero every strictly worse
/// candidate is rejected; otherwise a worse candidate is accepted exactly
/// when the draw falls under the Metropolis probability.
pub fn accept(current_score: u64, candidate_score: u64, temperature: u64, draw: u64) -> (b: bool)
    ensures
        b == spec_accept(current_score as int, candidate_score as int, temperature as int, draw),
        candidate_score >= current_score ==> b,
        temperature == 0 && candidate_score < current_score ==> !b,
{
    if candidate_score >= current_score {
        true
    } else if temperature == 0 {
        false
    } else {
        let diff: u64 = current_score - candidate_score;
        let x: u64 = diff / temperature;
        let p: u64 = exp_neg(x);
        (draw % TEMP_ONE) < p
    }
}

/// Lower the temperature by one exact geometric step: the new temperature is
/// `temperature * rate` with rate `cooling_num / cooling_den`, rounded down;
/// whenever `temperature * cooling_num` is divisible by `cooling_den` the
/// decay is exact.
pub fn cool(temperature: u64, config: &AnnealConfig) -> (t: u64)
    requires
        config.wf(),
        temperature * config.cooling_num <= u64::MAX,
    ensures
        t == (temperature * config.cooling_num) / (config.cooling_den as int),
        t <= temperature,
        (temperature * config.cooling_num) % (config.cooling_den as int) == 0 ==> t
            * config.cooling_den == temperature * config.cooling_num,
{
    let scaled: u64 = temperature * config.cooling_num;
    let t: u64 = scaled / config.cooling_den;
    proof {
        lemma_mul_inequality(
            config.cooling_num as int,
            config.cooling_den as int,
            temperature as int,
        );
        assert(temperature * config.cooling_num <= temperature * config.cooling_den) by (nonlinear_arith)
            requires
                config.cooling_num <= config.cooling_den && 0 <= temperature,
        ;
        lemma_div_is_ordered(
            scaled as int,
            temperature * (config.cooling_den as int),
            config.cooling_den as int,
        );
        lemma_div_multiples_vanish(temperature as int, config.cooling_den as int);
        lemma_fundamental_div_mod(scaled as int, config.cooling_den as int);
    }
    t
}

/// The chromosome that one neighborhood move yields: the genes at the two
/// positions drawn from the stream at `pos` and `pos + 1`, each reduced
/// modulo the length, are exchanged.
pub open spec fn spec_swap_result(c: Seq<u16>, seed: u8, pos: nat) -> Seq<u16> {
    let i = (stream_word(seed, pos) as int) % (c.len() as int);
    let j = (stream_word(seed, pos + 1) as int) % (c.len() as int);
    spec_swapped(c, i, j)
}

/// Produce a neighborhood candidate: draw two positions independently from
/// the stream (with replacement, so they may coincide — the result then
/// equals the input) and exchange the genes there.  The result keeps the
/// chromosome's length and every gene's occurrence count.
pub fn swap_2_genes(chromosome: &Chromosome, rng: &mut SeededRng) -> (r: Chromosome)
    requires
        chromosome@.len() >= 1,
    ensures
        final(rng).seed() == old(rng).seed(),
        final(rng).drawn() == old(rng).drawn() + 2,
        r@ == spec_swap_result(chromosome@, old(rng).seed(), old(rng).drawn()),
        r@.len() == chromosome@.len(),
        forall|v: u16| gene_count(r@, v) == gene_count(chromosome@, v),
{
    let num_genes: usize = chromosome.len();
    let w1: u64 = rng.next_word();
    let w2: u64 = rng.next_word();
    let first_idx: usize = (w1 % (num_genes as u64)) as usize;
    let second_idx: usize = (w2 % (num_genes as u64)) as usize;
    let mut new_chromo: Chromosome = clone_chromosome(chromosome);
    crate::chromosome::swap_positions(&mut new_chromo, first_idx, second_idx);
    proof {
        assert forall|v: u16| gene_count(new_chromo@, v) == gene_count(chromosome@, v) by {
            lemma_swap_preserves_counts(chromosome@, first_idx as int, second_idx as int, v);
        }
    }
    new_chromo
}

/// One improvement of the best solution: at which iteration it was found,
/// and its score and makespan.
pub struct ProgressEvent {
    pub iteration: u32,
    pub score: u64,
    pub makespan: u64,
}

/// Ghost image of a progress record.
pub struct SpecEvent {
    pub iteration: int,
    pub score: int,
    pub makespan: int,
}

impl View for ProgressEvent {
    type V = SpecEvent;

    open spec fn view(&self) -> SpecEvent {
        SpecEvent {
            iteration: self.iteration as int,
            score: self.score as int,
            makespan: self.makespan as int,
        }
    }
}

/// The search's whole state between iterations: the current solution and its
/// score, the best solution seen with its makespan and score, the
/// temperature, and the improvement records emitted so far.
pub struct SpecSearchState {
    pub current: Seq<u16>,
    pub current_score: int,
    pub best: Seq<u16>,
    pub best_makespan: int,
    pub best_score: int,
    pub temperature: int,
    pub events: Seq<SpecEvent>,
}

/// The state the search starts from: current and best are the initial
/// chromosome with its decoded score, the temperature is one, and no
/// improvement has been recorded.
pub open spec fn spec_initial_state(m: JobMaster, init: Seq<u16>) -> SpecSearchState {
    let ms = spec_decode(m, init);
    let sc = spec_score_of(ms);
    SpecSearchState {
        current: init,
        current_score: sc,
        best: init,
        best_makespan: ms,
        best_score: sc,
        temperature: TEMP_ONE as int,
        events: Seq::empty(),
    }
}

/// Iteration `i` of the search, which consumes stream words `pos + 3*i`
/// through `pos + 3*i + 2`: a swap candidate is drawn and decoded, the
/// Metropolis rule decides whether it replaces the current solution, a
/// strictly better score replaces the best and is recorded, and the
/// temperature decays by one cooling step.
pub open spec fn spec_anneal_step(
    m: JobMaster,
    config: AnnealConfig,
    seed: u8,
    pos: nat,
    i: nat,
    st: SpecSearchState,
) -> SpecSearchState {
    let w1 = stream_word(seed, pos + 3 * i);
    let w2 = stream_word(seed, pos + 3 * i + 1);
    let w3 = stream_word(seed, pos + 3 * i + 2);
    let len = st.current.len() as int;
    let cand = spec_swapped(st.current, (w1 as int) % len, (w2 as int) % len);
    let ms = spec_decode(m, cand);
    let sc = spec_score_of(ms);
    let accepted = spec_accept(st.current_score, sc, st.temperature, w3);
    let improved = st.best_score < sc;
    SpecSearchState {
        current: if accepted {
            cand
        } else {
            st.current
        },
        current_score: if accepted {
            sc
        } else {
            st.current_score
        },
        best: if improved {
            cand
        } else {
            st.best
        },
        best_makespan: if improved {
            ms
        } else {
            st.best_makespan
        },
        best_score: if improved {
            sc
        } else {
            st.best_score
        },
        temperature: (st.temperature * config.cooling_num) / (config.cooling_den as int),
        events: if improved {
            st.events.push(SpecEvent { iteration: i as int, score: sc, makespan: ms })
        } else {
            st.events
        },
    }
}

/// The search state after `n` iterations from the initial chromosome, with
/// the stream positioned at `pos` when the search began.
pub open spec fn spec_anneal(
    m: JobMaster,
    config: AnnealConfig,
    seed: u8,
    pos: nat,
    init: Seq<u16>,
    n: nat,
) -> SpecSearchState
    decreases n,
{
    if n == 0 {
        spec_initial_state(m, init)
    } else {
        spec_anneal_step(
            m,
            config,
            seed,
            pos,
            (n - 1) as nat,
            spec_anneal(m, config, seed, pos, init, (n - 1) as nat),
        )
    }
}

/// The annealing search is a function of the instance, configuration, seed,
/// stream position, initial chromosome and iteration count alone: two runs
/// over the same arguments reach bit-identical states — the same best
/// chromosome, makespan and score.
pub proof fn lemma_anneal_deterministic(
    m: JobMaster,
    config: AnnealConfig,
    seed: u8,
    pos: nat,
    init: Seq<u16>,
    n: nat,
    a: SpecSearchState,
    b: SpecSearchState,
)
    requires
        a == spec_anneal(m, config, seed, pos, init, n),
        b == spec_anneal(m, config, seed, pos, init, n),
    ensures
        a == b,
        a.best == b.best,
        a.best_makespan == b.best_makespan,
        a.best_score == b.best_score,
{
}

/// The search is an anytime algorithm: the best-so-far score never worsens,
/// so stopping after any prefix of the iterations yields a valid result.
pub proof fn lemma_best_only_improves(
    m: JobMaster,
    config: AnnealConfig,
    seed: u8,
    pos: nat,
    init: Seq<u16>,
    k: nat,
    n: nat,
)
    requires
        k <= n,
    ensures
        spec_anneal(m, config, seed, pos, init, k).best_score <= spec_anneal(
            m,
            config,
            seed,
            pos,
            init,
            n,
        ).best_score,
    decreases n,
{
    if k < n {
        lemma_best_only_improves(m, config, seed, pos, init, k, (n - 1) as nat);
    }
}

/// The reported triple is coherent at every point of the run: the best
/// makespan is exactly what the best chromosome decodes to, the best score is
/// that makespan's fitness, and the current score likewise belongs to the
/// current chromosome.
pub proof fn lemma_best_pair_coherent(
    m: JobMaster,
    config: AnnealConfig,
    seed: u8,
    pos: nat,
    init: Seq<u16>,
    n: nat,
)
    ensures
        ({
            let st = spec_anneal(m, config, seed, pos, init, n);
            &&& st.best_makespan == spec_decode(m, st.best)
            &&& st.best_score == spec_score_of(st.best_makespan)
            &&& st.current_score == spec_score_of(spec_decode(m, st.current))
        }),
    decreases n,
{
    if n > 0 {
        lemma_best_pair_coherent(m, config, seed, pos, init, (n - 1) as nat);
    }
}

/// Why a run stopped.
#[derive(Clone, Copy, Debug, PartialEq, Eq, Structural)]
pub enum StopReason {
    /// The configured number of iterations was executed in full.
    StepBudgetExhausted,
    /// The wall-clock limit fired first; the best found so far still stands.
    TimeLimitExceeded,
}

/// What a run hands back: the best chromosome found, its makespan and score,
/// how many iterations actually ran, why the run stopped, and one record per
/// improvement of the best.
pub struct AnnealOutcome {
    pub best_solution: Chromosome,
    pub best_makespan: u64,
    pub best_score: u64,
    pub iterated_num: u32,
    pub reason: StopReason,
    pub events: Vec<ProgressEvent>,
}

/// Run the annealing search from the given chromosome.  The outcome is
/// pinned, field for field, to the mathematical search state after exactly
/// `iterated_num` iterations; without a time limit the whole step budget runs,
/// so the outcome is a function of instance, seed, stream position, initial
/// chromosome and configuration alone.
pub fn run(
    chromosome: &Chromosome,
    calculator: &mut ScoreCalculator,
    rng: &mut SeededRng,
    config: &AnnealConfig,
) -> (out: AnnealOutcome)
    requires
        old(calculator).job_master.wf(),
        valid_chromosome(old(calculator).job_master, chromosome@),
        config.wf(),
    ensures
        final(calculator).job_master == old(calculator).job_master,
        final(rng).seed() == old(rng).seed(),
        final(rng).drawn() == old(rng).drawn() + 3 * out.iterated_num,
        out.iterated_num <= config.steps,
        config.time_limit_millis is None ==> out.iterated_num == config.steps,
        out.reason is StepBudgetExhausted <==> out.iterated_num == config.steps,
        out.reason is TimeLimitExceeded ==> config.time_limit_millis is Some,
        valid_chromosome(old(calculator).job_master, out.best_solution@),
        ({
            let st = spec_anneal(
                old(calculator).job_master,
                *config,
                old(rng).seed(),
                old(rng).drawn(),
                chromosome@,
                out.iterated_num as nat,
            );
            &&& out.best_solution@ == st.best
            &&& out.best_makespan == st.best_makespan
            &&& out.best_score == st.best_score
            &&& out.events@.len() == st.events.len()
            &&& forall|e: int| 0 <= e < st.events.len() ==> (#[trigger] out.events@[e])@ == st.events[e]
        }),
{
    let ghost m = calculator.job_master;
    let ghost seed = rng.seed();
    let ghost pos0 = rng.drawn();
    let ghost cs0 = chromosome@;
    let start_time: std::time::Instant = std::time::Instant::now();

    let mut current: Chromosome = clone_chromosome(chromosome);
    let current_makespan: u64 = calculator.calc_makespan(&current);
    let mut current_score: u64 = calculator.makespan_to_score(current_makespan);

    let mut best_solution: Chromosome = clone_chromosome(&current);
    let mut best_makespan: u64 = current_makespan;
    let mut best_score: u64 = current_score;

    let mut temperature: u64 = TEMP_ONE;
    let mut events: Vec<ProgressEvent> = Vec::new();
    let mut iterated_num: u32 = 0;
    let mut stop: bool = false;

    proof {
        vstd::arithmetic::mul::lemma_mul_strictly_positive(
            m.job_size as int,
            m.machine_series_size as int,
        );
    }
    while iterated_num < config.steps && !stop
        invariant
            calculator.job_master == m,
            rng.seed() == seed,
            rng.drawn() == pos0 + 3 * iterated_num,
            iterated_num <= config.steps,
            stop ==> config.time_limit_millis is Some,
            valid_chromosome(m, current@),
            valid_chromosome(m, best_solution@),
            current@.len() >= 1,
            temperature <= TEMP_ONE,
            ({
                let st = spec_anneal(m, *config, seed, pos0, cs0, iterated_num as nat);
                &&& current@ == st.current
                &&& current_score == st.current_score
                &&& best_solution@ == st.best
                &&& best_makespan == st.best_makespan
                &&& best_score == st.best_score
                &&& temperature == st.temperature
                &&& events@.len() == st.events.len()
                &&& forall|e: int|
                    0 <= e < st.events.len() ==> (#[trigger] events@[e])@ == st.events[e]
            }),
        decreases config.steps - iterated_num,
    {
        let ghost i = iterated_num as nat;
        let ghost st_prev = spec_anneal(m, *config, seed, pos0, cs0, i);
        let candidate: Chromosome = swap_2_genes(&current, rng);
        proof {
            let len = current@.len() as int;
            let w1 = stream_word(seed, pos0 + 3 * i);
            let w2 = stream_word(seed, pos0 + 3 * i + 1);
            lemma_swap_preserves_validity(
                current@,
                (w1 as int) % len,
                (w2 as int) % len,
                m.job_size as int,
                m.machine_series_size as int,
            );
        }
        let cand_makespan: u64 = calculator.calc_makespan(&candidate);
        let cand_score: u64 = calculator.makespan_to_score(cand_makespan);
        let w3: u64 = rng.next_word();
        let accepted: bool = accept(current_score, cand_score, temperature, w3);
        if accepted {
            current_score = cand_score;
            current = clone_chromosome(&candidate);
        }
        let improved: bool = best_score < cand_score;
        if improved {
            best_score = cand_score;
            best_makespan = cand_makespan;
            events.push(
                ProgressEvent {
                    iteration: iterated_num,
                    score: cand_score,
                    makespan: cand_makespan,
                },
            );
            best_solution = candidate;
        }
        proof {
            lemma_mul_upper_bound(
                temperature as int,
                TEMP_ONE as int,
                config.cooling_num as int,
                TEMP_ONE as int,
            );
        }
        temperature = cool(temperature, config);
        iterated_num = iterated_num + 1;
        if config.time_limit_millis.is_some() {
            let limit: u64 = match config.time_limit_millis {
                Some(v) => v,
                None => 0,
            };
            let elapsed_ms: u128 = start_time.elapsed().as_millis();
            if elapsed_ms > limit as u128 {
                stop = true;
            }
        }
        proof {
            let st_new = spec_anneal(m, *config, seed, pos0, cs0, iterated_num as nat);
            assert(st_new == spec_anneal_step(m, *config, seed, pos0, i, st_prev));
            assert forall|e: int| 0 <= e < st_new.events.len() implies (#[trigger] events@[e])@
                == st_new.events[e] by {}
        }
    }
    let reason: StopReason = if iterated_num == config.steps {
        StopReason::StepBudgetExhausted
    } else {
        StopReason::TimeLimitExceeded
    };
    AnnealOutcome { best_solution, best_makespan, best_score, iterated_num, reason, events }
}

} // verus!
