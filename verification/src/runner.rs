use vstd::prelude::*;

use crate::chromosome::{
    gene_count, lemma_gene_count_push, lemma_swap_preserves_counts, spec_swapped, swap_positions,
    valid_gene_counts, Chromosome,
};
use crate::preprocess::{valid_chromosome, JobMaster};
use crate::rng::{fix_random_seed, stream_word, SeededRng};
use crate::score::ScoreCalculator;
use crate::simulated_annealing::{self, AnnealConfig, AnnealOutcome, StopReason};
use vstd::arithmetic::div_mod::lemma_mod_multiples_vanish;
use vstd::arithmetic::mul::{lemma_mul_is_commutative, lemma_mul_upper_bound};

verus! {

/// Job ids `0 .. nj` tiled to length `nj * na`: position `idx` holds
/// `idx % nj`.
pub open spec fn spec_tiled(nj: int, na: int) -> Seq<u16> {
    Seq::new((nj * na) as nat, |idx: int| (idx % nj) as u16)
}

/// The result of the seeded shuffle that runs over positions `i` down to 1:
/// position `i` is exchanged with the stream-drawn position `j <= i`, then
/// the rest is shuffled with the next stream word.
pub open spec fn spec_shuffled(s: Seq<u16>, seed: u8, pos: nat, i: nat) -> Seq<u16>
    decreases i,
{
    if i == 0 {
        s
    } else {
        let j = (stream_word(seed, pos) as int) % (i + 1) as int;
        spec_shuffled(spec_swapped(s, i as int, j), seed, pos + 1, (i - 1) as nat)
    }
}

proof fn lemma_shuffled_preserves_bound(s: Seq<u16>, seed: u8, pos: nat, i: nat, bound: int)
    requires
        i < s.len(),
        forall|g: int| 0 <= g < s.len() ==> (#[trigger] s[g] as int) < bound,
    ensures
        spec_shuffled(s, seed, pos, i).len() == s.len(),
        forall|g: int|
            0 <= g < s.len() ==> (#[trigger] spec_shuffled(s, seed, pos, i)[g] as int) < bound,
    decreases i,
{
    if i != 0 {
        let j = (stream_word(seed, pos) as int) % (i + 1) as int;
        let t = spec_swapped(s, i as int, j);
        assert(0 <= j <= i);
        assert forall|g: int| 0 <= g < t.len() implies (#[trigger] t[g] as int) < bound by {
            assert(t[g] == s[g] || t[g] == s[i as int] || t[g] == s[j]);
        }
        lemma_shuffled_preserves_bound(t, seed, pos + 1, (i - 1) as nat, bound);
    }
}

/// Shuffle `c` in place with draws from `rng`, visiting positions from the
/// last down to the second.  The result is pinned to the stream, and every
/// gene keeps its occurrence count.
fn shuffle(c: &mut Chromosome, rng: &mut SeededRng)
    requires
        old(c)@.len() >= 1,
    ensures
        final(rng).seed() == old(rng).seed(),
        final(rng).drawn() == old(rng).drawn() + (old(c)@.len() - 1),
        final(c)@ == spec_shuffled(
            old(c)@,
            old(rng).seed(),
            old(rng).drawn(),
            (old(c)@.len() - 1) as nat,
        ),
        final(c)@.len() == old(c)@.len(),
        forall|v: u16| gene_count(final(c)@, v) == gene_count(old(c)@, v),
{
    let ghost seed0 = rng.seed();
    let ghost pos0 = rng.drawn();
    let ghost s0 = c@;
    let len: usize = c.len();
    let mut i: usize = len - 1;
    while i > 0
        invariant
            i <= len - 1,
            c@.len() == len,
            rng.seed() == seed0,
            rng.drawn() == pos0 + (len - 1 - i),
            spec_shuffled(s0, seed0, pos0, (len - 1) as nat) == spec_shuffled(
                c@,
                seed0,
                rng.drawn(),
                i as nat,
            ),
            forall|v: u16| gene_count(c@, v) == gene_count(s0, v),
        decreases i,
    {
        let ghost c_before = c@;
        let ghost pos_before = rng.drawn();
        let w: u64 = rng.next_word();
        let j: usize = (w % (i as u64 + 1)) as usize;
        swap_positions(c, i, j);
        proof {
            assert(c@ == spec_swapped(c_before, i as int, j as int));
            assert(spec_shuffled(c_before, seed0, pos_before, i as nat) == spec_shuffled(
                c@,
                seed0,
                pos_before + 1,
                (i - 1) as nat,
            ));
            assert forall|v: u16| gene_count(c@, v) == gene_count(s0, v) by {
                lemma_swap_preserves_counts(c_before, i as int, j as int, v);
            }
        }
        i = i - 1;
    }
    proof {
        assert(spec_shuffled(c@, seed0, rng.drawn(), 0) == c@);
    }
}

/// Build one random initial solution: job ids tiled to the required length,
/// then permuted by the seeded shuffle.  The result is a valid chromosome
/// for any instance with `num_job` jobs of `num_actor` operations each, and
/// is a function of the sizes, the seed and the stream position alone.
pub fn initialize_chromosome(num_job: u16, num_actor: u16, rng: &mut SeededRng) -> (r: Chromosome)
    requires
        num_job >= 1,
        num_actor >= 1,
    ensures
        final(rng).seed() == old(rng).seed(),
        final(rng).drawn() == old(rng).drawn() + (num_job * num_actor - 1),
        r@ == spec_shuffled(
            spec_tiled(num_job as int, num_actor as int),
            old(rng).seed(),
            old(rng).drawn(),
            (num_job * num_actor - 1) as nat,
        ),
        valid_gene_counts(r@, num_job as int, num_actor as int),
{
    let ghost nj = num_job as int;
    let ghost na = num_actor as int;
    proof {
        lemma_mul_upper_bound(nj, 0xFFFF, na, 0xFFFF);
        vstd::arithmetic::mul::lemma_mul_strictly_positive(nj, na);
    }
    let total: usize = (num_job as usize) * (num_actor as usize);
    let mut v: Vec<u16> = Vec::new();
    let mut rep: usize = 0;
    while rep < num_actor as usize
        invariant
            rep <= na,
            v@.len() == rep * nj,
            v@.len() <= total,
            forall|g: int| 0 <= g < v@.len() ==> v@[g] == spec_tiled(nj, na)[g],
            forall|u: u16| (u as int) < nj ==> gene_count(v@, u) == rep,
        decreases na - rep,
    {
        proof {
            assert((rep + 1) * nj == rep * nj + nj) by (nonlinear_arith);
            lemma_mul_upper_bound(rep as int + 1, na, nj, nj);
            lemma_mul_is_commutative(na, nj);
        }
        let mut j: u16 = 0;
        while (j as usize) < num_job as usize
            invariant
                j <= nj,
                v@.len() == rep * nj + j,
                forall|g: int| 0 <= g < v@.len() ==> v@[g] == spec_tiled(nj, na)[g],
                forall|u: u16|
                    (u as int) < nj ==> gene_count(v@, u) == rep + if (u as int) < j as int {
                        1int
                    } else {
                        0int
                    },
            decreases nj - j,
        {
            let ghost before = v@;
            v.push(j);
            proof {
                let idx = rep * nj + j;
                lemma_mod_multiples_vanish(rep as int, j as int, nj);
                lemma_mul_is_commutative(rep as int, nj);
                vstd::arithmetic::div_mod::lemma_small_mod(j as nat, nj as nat);
                assert(idx % nj == j as int);
                assert(0 <= idx < nj * na) by {
                    lemma_mul_is_commutative(na, nj);
                }
                assert(spec_tiled(nj, na)[idx] == j);
                assert forall|u: u16| (u as int) < nj implies gene_count(v@, u) == rep + if (u as int)
                    < j as int + 1 {
                    1int
                } else {
                    0int
                } by {
                    lemma_gene_count_push(before, j, u);
                }
            }
            j = j + 1;
        }
        rep = rep + 1;
    }
    proof {
        lemma_mul_is_commutative(na, nj);
        assert(v@.len() == nj * na);
        assert(v@ =~= spec_tiled(nj, na));
        assert forall|g: int| 0 <= g < v@.len() implies (#[trigger] v@[g] as int) < nj by {
            assert(v@[g] == spec_tiled(nj, na)[g]);
            vstd::arithmetic::div_mod::lemma_mod_division_less_than_divisor(g, nj);
        }
    }
    shuffle(&mut v, rng);
    proof {
        lemma_shuffled_preserves_bound(
            spec_tiled(nj, na),
            old(rng).seed(),
            old(rng).drawn(),
            (nj * na - 1) as nat,
            nj,
        );
    }
    v
}

/// Wire an instance to the search: build the seeded initial chromosome,
/// construct the decoder, and run the annealing engine.  The best solution,
/// makespan and score are pinned to the mathematical search over the seeded
/// stream, so a fixed seed and a full step budget reproduce them exactly.
pub fn run(job_master: JobMaster, seed_num: u8, config: &AnnealConfig) -> (out: AnnealOutcome)
    requires
        job_master.wf(),
        config.wf(),
    ensures
        out.iterated_num <= config.steps,
        config.time_limit_millis is None ==> out.iterated_num == config.steps,
        out.reason is StepBudgetExhausted <==> out.iterated_num == config.steps,
        valid_chromosome(job_master, out.best_solution@),
        ({
            let len = job_master.job_size * job_master.machine_series_size;
            let init = spec_shuffled(
                spec_tiled(job_master.job_size as int, job_master.machine_series_size as int),
                seed_num,
                0,
                (len - 1) as nat,
            );
            let st = simulated_annealing::spec_anneal(
                job_master,
                *config,
                seed_num,
                (len - 1) as nat,
                init,
                out.iterated_num as nat,
            );
            &&& out.best_solution@ == st.best
            &&& out.best_makespan == st.best_makespan
            &&& out.best_score == st.best_score
            &&& out.events@.len() == st.events.len()
            &&& forall|e: int| 0 <= e < st.events.len() ==> (#[trigger] out.events@[e])@ == st.events[e]
        }),
{
    let num_job: u16 = job_master.job_size as u16;
    let num_actor: u16 = job_master.machine_series_size as u16;
    let mut rng: SeededRng = fix_random_seed(seed_num);
    let chromosome: Chromosome = initialize_chromosome(num_job, num_actor, &mut rng);
    let mut calculator: ScoreCalculator = ScoreCalculator::new(job_master);
    let out: AnnealOutcome = simulated_annealing::run(&chromosome, &mut calculator, &mut rng, config);
    out
}

} // verus!
