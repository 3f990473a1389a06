use vstd::prelude::*;

use crate::chromosome::{
    gene_count, lemma_gene_count_take_le, lemma_gene_count_take_step, Chromosome,
};
use crate::preprocess::{chromosome_matches, valid_chromosome, JobMaster};

verus! {

/// Fixed-point scale for reciprocal-makespan scores: a makespan of 1 maps to
/// `SCORE_ONE`, a makespan of `m` to `SCORE_ONE / m`.
pub const SCORE_ONE: u64 = 1_000_000_000_000_000_000;

/// The decoder's state after some prefix of the chromosome has been
/// dispatched: per-job progress counters and per-job / per-actor cumulative
/// finish times.
pub struct SpecDecodeState {
    pub counts: Seq<int>,
    pub job_elapsed: Seq<int>,
    pub actor_elapsed: Seq<int>,
}

/// The larger of two integers.
pub open spec fn spec_max2(a: int, b: int) -> int {
    if a >= b {
        a
    } else {
        b
    }
}

/// Decode state before any gene is dispatched: all counters and finish times
/// are zero.
pub open spec fn spec_decode_init(job_size: int, actor_count: int) -> SpecDecodeState {
    SpecDecodeState {
        counts: Seq::new(job_size as nat, |j: int| 0),
        job_elapsed: Seq::new(job_size as nat, |j: int| 0),
        actor_elapsed: Seq::new(actor_count as nat, |a: int| 0),
    }
}

/// Dispatch one gene: job `gene`'s next operation starts once both the job's
/// previous operation and the assigned actor's previous operation have
/// finished, and runs for its duration; both finish times advance to its
/// finish.
pub open spec fn spec_decode_step(m: JobMaster, st: SpecDecodeState, gene: u16) -> SpecDecodeState {
    let j = gene as int;
    let k = st.counts[j];
    let d = m.duration(j, k);
    let a = m.actor_of(j, k);
    let finish = spec_max2(st.job_elapsed[j], st.actor_elapsed[a]) + d;
    SpecDecodeState {
        counts: st.counts.update(j, k + 1),
        job_elapsed: st.job_elapsed.update(j, finish),
        actor_elapsed: st.actor_elapsed.update(a, finish),
    }
}

/// Decode state after the first `i` genes of `c` have been dispatched.
pub open spec fn spec_decode_at(m: JobMaster, c: Seq<u16>, i: int) -> SpecDecodeState
    recommends
        0 <= i <= c.len(),
    decreases i,
{
    if i <= 0 {
        spec_decode_init(m.job_size as int, m.machine_series_size as int)
    } else {
        spec_decode_step(m, spec_decode_at(m, c, i - 1), c[i - 1])
    }
}

/// Largest entry of a sequence, or 0 when it is empty.
pub open spec fn spec_seq_max(s: Seq<int>) -> int
    decreases s.len(),
{
    if s.len() == 0 {
        0
    } else {
        spec_max2(spec_seq_max(s.drop_last()), s.last())
    }
}

/// Makespan of chromosome `c` on instance `m`: the largest per-job finish
/// time after the whole chromosome has been dispatched.
pub open spec fn spec_decode(m: JobMaster, c: Seq<u16>) -> int {
    spec_seq_max(spec_decode_at(m, c, c.len() as int).job_elapsed)
}

/// The maximization-oriented fitness of a makespan: its fixed-point
/// reciprocal.  A zero makespan (an all-zero-duration instance) maps to the
/// maximal score.
pub open spec fn spec_score_of(makespan: int) -> int {
    if makespan == 0 {
        SCORE_ONE as int
    } else {
        SCORE_ONE as int / makespan
    }
}

/// Shape and bounds of the decode state after `i` dispatched genes: counters
/// track per-job occurrence counts of the dispatched prefix, never exceed the
/// operations per job, and every finish time is at most `0xFFFF * i`.
pub proof fn lemma_decode_state_invariant(m: JobMaster, c: Seq<u16>, i: int)
    requires
        m.wf(),
        valid_chromosome(m, c),
        0 <= i <= c.len(),
    ensures
        ({
            let st = spec_decode_at(m, c, i);
            &&& st.counts.len() == m.job_size
            &&& st.job_elapsed.len() == m.job_size
            &&& st.actor_elapsed.len() == m.machine_series_size
            &&& forall|j: u16|
                (j as int) < m.job_size ==> st.counts[j as int] == gene_count(c.take(i), j)
            &&& forall|j: int| 0 <= j < m.job_size ==> 0 <= #[trigger] st.counts[j] <= m.machine_series_size
            &&& forall|j: int| 0 <= j < m.job_size ==> 0 <= #[trigger] st.job_elapsed[j] <= 0xFFFF * i
            &&& forall|a: int|
                0 <= a < m.machine_series_size ==> 0 <= #[trigger] st.actor_elapsed[a] <= 0xFFFF * i
        }),
    decreases i,
{
    if i == 0 {
        assert(c.take(0) =~= Seq::<u16>::empty());
        assert forall|j: u16| (j as int) < m.job_size implies spec_decode_at(m, c, 0).counts[j as int]
            == gene_count(c.take(0), j) by {
            assert(gene_count(c.take(0), j) == 0);
        }
    } else {
        lemma_decode_state_invariant(m, c, i - 1);
        let prev = spec_decode_at(m, c, i - 1);
        let st = spec_decode_at(m, c, i);
        let g = c[i - 1];
        let j = g as int;
        assert((c[i - 1] as int) < m.job_size);
        assert(prev.counts[j] == gene_count(c.take(i - 1), g));
        let k = prev.counts[j];
        // The gene about to be dispatched still has an operation left:
        // its occurrences so far are fewer than its total occurrences.
        lemma_gene_count_take_step(c, i - 1, g);
        lemma_gene_count_take_le(c, i, g);
        assert(gene_count(c, g) == m.machine_series_size);
        assert(0 <= k < m.machine_series_size);
        let a = m.actor_of(j, k);
        assert(0 <= a < m.machine_series_size);
        let d = m.duration(j, k);
        assert(0 <= d <= 0xFFFF);
        let finish = spec_max2(prev.job_elapsed[j], prev.actor_elapsed[a]) + d;
        assert(prev.job_elapsed[j] <= 0xFFFF * (i - 1));
        assert(prev.actor_elapsed[a] <= 0xFFFF * (i - 1));
        assert(0xFFFF * (i - 1) + 0xFFFF == 0xFFFF * i) by (nonlinear_arith);
        assert(finish <= 0xFFFF * i);
        assert forall|v: u16| (v as int) < m.job_size implies st.counts[v as int] == gene_count(
            c.take(i),
            v,
        ) by {
            lemma_gene_count_take_step(c, i - 1, v);
        }
        assert forall|v: int| 0 <= v < m.job_size implies 0 <= #[trigger] st.counts[v]
            <= m.machine_series_size by {
            let vv = v as u16;
            assert(st.counts[vv as int] == gene_count(c.take(i), vv));
            lemma_gene_count_take_le(c, i, vv);
            assert(gene_count(c, vv) == m.machine_series_size);
        }
        assert forall|v: int| 0 <= v < m.job_size implies 0 <= #[trigger] st.job_elapsed[v] <= 0xFFFF
            * i by {
            assert(0 <= prev.job_elapsed[v] <= 0xFFFF * (i - 1));
            assert(st.job_elapsed[v] == prev.job_elapsed[v] || st.job_elapsed[v] == finish);
        }
        assert forall|v: int| 0 <= v < m.machine_series_size implies 0 <= #[trigger] st.actor_elapsed[v]
            <= 0xFFFF * i by {
            assert(0 <= prev.actor_elapsed[v] <= 0xFFFF * (i - 1));
            assert(st.actor_elapsed[v] == prev.actor_elapsed[v] || st.actor_elapsed[v] == finish);
        }
    }
}

/// The progress counter of the gene about to be dispatched is still below the
/// operations per job, so its duration and actor lookups are in range.
pub proof fn lemma_decode_next_in_range(m: JobMaster, c: Seq<u16>, i: int)
    requires
        m.wf(),
        valid_chromosome(m, c),
        0 <= i < c.len(),
    ensures
        ({
            let st = spec_decode_at(m, c, i);
            let j = c[i] as int;
            &&& 0 <= j < m.job_size
            &&& 0 <= st.counts[j] < m.machine_series_size
        }),
{
    lemma_decode_state_invariant(m, c, i);
    let st = spec_decode_at(m, c, i);
    let g = c[i];
    let j = g as int;
    assert(j < m.job_size);
    assert(st.counts[j] == gene_count(c.take(i), g));
    lemma_gene_count_take_step(c, i, g);
    lemma_gene_count_take_le(c, i + 1, g);
    assert(gene_count(c, g) == m.machine_series_size);
}

/// On makespans up to a billion, the fixed-point reciprocal keeps the exact
/// ordering of the real-valued score `1 / makespan`: a strictly smaller
/// makespan has a strictly larger score, so score comparisons and makespan
/// comparisons decide alike.
pub proof fn lemma_score_strictly_antitone(m1: int, m2: int)
    requires
        1 <= m1 < m2 <= 1_000_000_000,
    ensures
        spec_score_of(m1) > spec_score_of(m2),
{
    let s = SCORE_ONE as int;
    let q2 = s / m2;
    vstd::arithmetic::div_mod::lemma_fundamental_div_mod(s, m2);
    vstd::arithmetic::div_mod::lemma_div_is_ordered_by_denominator(s, m2, 1_000_000_000);
    assert(s / 1_000_000_000 == 1_000_000_000);
    assert(q2 >= m2);
    vstd::arithmetic::mul::lemma_mul_inequality(m1, m2 - 1, q2 + 1);
    assert((q2 + 1) * m1 == m1 * (q2 + 1)) by (nonlinear_arith);
    assert((m2 - 1) * (q2 + 1) == m2 * q2 + m2 - q2 - 1) by (nonlinear_arith);
    assert((q2 + 1) * m1 <= s);
    vstd::arithmetic::div_mod::lemma_div_is_ordered((q2 + 1) * m1, s, m1);
    vstd::arithmetic::div_mod::lemma_div_multiples_vanish(q2 + 1, m1);
    assert(s / m1 >= q2 + 1);
}

/// Why a decode was refused.
#[derive(Clone, Copy, Debug, PartialEq, Eq, Structural)]
pub enum DecodeError {
    /// The chromosome does not satisfy the instance's multiset invariant.
    InstanceMismatch,
}

/// Sum of the first `k` entries of a duration row.
pub open spec fn spec_row_prefix_sum(row: Seq<u16>, k: int) -> int
    decreases k,
{
    if k <= 0 {
        0
    } else {
        spec_row_prefix_sum(row, k - 1) + row[k - 1]
    }
}

/// Sum of all entries of a duration row.
pub open spec fn spec_row_sum(row: Seq<u16>) -> int {
    spec_row_prefix_sum(row, row.len() as int)
}

proof fn lemma_row_prefix_sum_nonneg(row: Seq<u16>, k: int)
    ensures
        spec_row_prefix_sum(row, k) >= 0,
    decreases k,
{
    if k > 0 {
        lemma_row_prefix_sum_nonneg(row, k - 1);
    }
}

proof fn lemma_single_job_state(m: JobMaster, c: Seq<u16>, i: int)
    requires
        m.wf(),
        m.job_size == 1,
        valid_chromosome(m, c),
        0 <= i <= c.len(),
    ensures
        ({
            let st = spec_decode_at(m, c, i);
            &&& st.counts[0] == i
            &&& st.job_elapsed[0] == spec_row_prefix_sum(m.exec_times@[0]@, i)
            &&& forall|a: int|
                0 <= a < m.machine_series_size ==> #[trigger] st.actor_elapsed[a] <= st.job_elapsed[0]
        }),
    decreases i,
{
    lemma_decode_state_invariant(m, c, i);
    if i == 0 {
    } else {
        lemma_single_job_state(m, c, i - 1);
        lemma_decode_state_invariant(m, c, i - 1);
        let prev = spec_decode_at(m, c, i - 1);
        let st = spec_decode_at(m, c, i);
        let g = c[i - 1];
        assert((g as int) < 1);
        assert(g == 0u16);
        let k = prev.counts[0];
        assert(k == i - 1);
        assert(c.len() == 1 * m.machine_series_size);
        assert(k < m.machine_series_size);
        let a = m.actor_of(0, k);
        assert(0 <= a < m.machine_series_size);
        let d = m.duration(0, k);
        assert(prev.actor_elapsed[a] <= prev.job_elapsed[0]);
        let finish = spec_max2(prev.job_elapsed[0], prev.actor_elapsed[a]) + d;
        assert(finish == prev.job_elapsed[0] + d);
        assert(st.job_elapsed[0] == spec_row_prefix_sum(m.exec_times@[0]@, i));
        assert forall|b: int| 0 <= b < m.machine_series_size implies #[trigger] st.actor_elapsed[b]
            <= st.job_elapsed[0] by {
            assert(st.actor_elapsed[b] == prev.actor_elapsed[b] || st.actor_elapsed[b] == finish);
        }
    }
}

/// On a single-job instance, every valid chromosome decodes to the same
/// makespan: the sum of that job's operation durations, independent of the
/// order of its genes.
pub proof fn lemma_single_job_makespan(m: JobMaster, c: Seq<u16>)
    requires
        m.wf(),
        m.job_size == 1,
        valid_chromosome(m, c),
    ensures
        spec_decode(m, c) == spec_row_sum(m.exec_times@[0]@),
{
    let n = c.len() as int;
    lemma_single_job_state(m, c, n);
    lemma_decode_state_invariant(m, c, n);
    let st = spec_decode_at(m, c, n);
    assert(st.job_elapsed.len() == 1);
    assert(st.job_elapsed.drop_last() =~= Seq::<int>::empty());
    assert(spec_seq_max(Seq::<int>::empty()) == 0);
    assert(spec_seq_max(st.job_elapsed) == spec_max2(0, st.job_elapsed[0]));
    lemma_row_prefix_sum_nonneg(m.exec_times@[0]@, n);
    assert(c.len() == 1 * m.machine_series_size);
    assert(m.exec_times@[0]@.len() == m.machine_series_size);
}

/// Decodes chromosomes into schedules and scores their makespans.  The
/// per-decode scratch state lives in dense arrays indexed by job id and actor
/// id, reset at the start of every decode.
pub struct ScoreCalculator {
    pub job_master: JobMaster,
    pub done_operations_count: Vec<u16>,
    pub elapsed_job_time: Vec<u64>,
    pub elapsed_actor_time: Vec<u64>,
}

impl ScoreCalculator {
    /// A fresh calculator for the given instance; scratch state is allocated
    /// on first use.
    pub fn new(job_master: JobMaster) -> (r: ScoreCalculator)
        ensures
            r.job_master == job_master,
    {
        ScoreCalculator {
            job_master,
            done_operations_count: Vec::new(),
            elapsed_job_time: Vec::new(),
            elapsed_actor_time: Vec::new(),
        }
    }

    /// Fitness of a makespan: its fixed-point reciprocal, with the maximal
    /// score standing in for the undefined reciprocal of zero.
    pub fn makespan_to_score(&self, makespan: u64) -> (score: u64)
        ensures
            score == spec_score_of(makespan as int),
    {
        if makespan == 0 {
            SCORE_ONE
        } else {
            SCORE_ONE / makespan
        }
    }

    /// Reset all per-job and per-actor counters and finish times to zero.
    fn init_counters(&mut self)
        ensures
            final(self).job_master == old(self).job_master,
            final(self).done_operations_count@ == Seq::new(
                old(self).job_master.job_size as nat,
                |j: int| 0u16,
            ),
            final(self).elapsed_job_time@ == Seq::new(
                old(self).job_master.job_size as nat,
                |j: int| 0u64,
            ),
            final(self).elapsed_actor_time@ == Seq::new(
                old(self).job_master.machine_series_size as nat,
                |a: int| 0u64,
            ),
    {
        let job_size: usize = self.job_master.job_size;
        let actor_count: usize = self.job_master.machine_series_size;
        self.done_operations_count = vec![0u16; job_size];
        self.elapsed_job_time = vec![0u64; job_size];
        self.elapsed_actor_time = vec![0u64; actor_count];
        proof {
            assert(self.done_operations_count@ =~= Seq::new(job_size as nat, |j: int| 0u16));
            assert(self.elapsed_job_time@ =~= Seq::new(job_size as nat, |j: int| 0u64));
            assert(self.elapsed_actor_time@ =~= Seq::new(actor_count as nat, |a: int| 0u64));
        }
    }

    /// Job `job_id`'s next operation runs on `actor_id` for `operation_time`:
    /// it starts when both are free and both finish times advance to its
    /// finish.
    fn update_elapsed_time(&mut self, actor_id: u16, job_id: u16, operation_time: u16)
        requires
            (job_id as int) < old(self).elapsed_job_time@.len(),
            (actor_id as int) < old(self).elapsed_actor_time@.len(),
            spec_max2(
                old(self).elapsed_job_time@[job_id as int] as int,
                old(self).elapsed_actor_time@[actor_id as int] as int,
            ) + operation_time <= u64::MAX,
        ensures
            final(self).job_master == old(self).job_master,
            final(self).done_operations_count == old(self).done_operations_count,
            ({
                let finish = spec_max2(
                    old(self).elapsed_job_time@[job_id as int] as int,
                    old(self).elapsed_actor_time@[actor_id as int] as int,
                ) + operation_time;
                &&& final(self).elapsed_job_time@ == old(self).elapsed_job_time@.update(
                    job_id as int,
                    finish as u64,
                )
                &&& final(self).elapsed_actor_time@ == old(self).elapsed_actor_time@.update(
                    actor_id as int,
                    finish as u64,
                )
            }),
    {
        let job_elapsed: u64 = self.elapsed_job_time[job_id as usize];
        let actor_elapsed: u64 = self.elapsed_actor_time[actor_id as usize];
        let start: u64 = if job_elapsed >= actor_elapsed {
            job_elapsed
        } else {
            actor_elapsed
        };
        let finish: u64 = start + operation_time as u64;
        self.elapsed_job_time[job_id as usize] = finish;
        self.elapsed_actor_time[actor_id as usize] = finish;
    }

    /// Advance job `job_id`'s progress counter by one.
    fn count_up(&mut self, job_id: u16)
        requires
            (job_id as int) < old(self).done_operations_count@.len(),
            old(self).done_operations_count@[job_id as int] < u16::MAX,
        ensures
            final(self).job_master == old(self).job_master,
            final(self).elapsed_job_time == old(self).elapsed_job_time,
            final(self).elapsed_actor_time == old(self).elapsed_actor_time,
            final(self).done_operations_count@ == old(self).done_operations_count@.update(
                job_id as int,
                (old(self).done_operations_count@[job_id as int] + 1) as u16,
            ),
    {
        let next: u16 = self.done_operations_count[job_id as usize] + 1;
        self.done_operations_count[job_id as usize] = next;
    }

    /// Decode a chromosome into a schedule and return its makespan.  The
    /// result is exactly the mathematical decode of the chromosome on this
    /// calculator's instance: the same inputs always give the same makespan.
    pub fn calc_makespan(&mut self, chromosome: &Chromosome) -> (makespan: u64)
        requires
            old(self).job_master.wf(),
            valid_chromosome(old(self).job_master, chromosome@),
        ensures
            final(self).job_master == old(self).job_master,
            makespan == spec_decode(old(self).job_master, chromosome@),
    {
        let ghost m = self.job_master;
        let ghost cs = chromosome@;
        self.init_counters();
        proof {
            lemma_decode_state_invariant(m, cs, 0);
            assert(self.done_operations_count@.map_values(|x: u16| x as int) =~= spec_decode_at(
                m,
                cs,
                0,
            ).counts);
            assert(self.elapsed_job_time@.map_values(|x: u64| x as int) =~= spec_decode_at(
                m,
                cs,
                0,
            ).job_elapsed);
            assert(self.elapsed_actor_time@.map_values(|x: u64| x as int) =~= spec_decode_at(
                m,
                cs,
                0,
            ).actor_elapsed);
        }
        let mut i: usize = 0;
        while i < chromosome.len()
            invariant
                i <= cs.len(),
                self.job_master == m,
                self.done_operations_count@.map_values(|x: u16| x as int) == spec_decode_at(
                    m,
                    cs,
                    i as int,
                ).counts,
                self.elapsed_job_time@.map_values(|x: u64| x as int) == spec_decode_at(
                    m,
                    cs,
                    i as int,
                ).job_elapsed,
                self.elapsed_actor_time@.map_values(|x: u64| x as int) == spec_decode_at(
                    m,
                    cs,
                    i as int,
                ).actor_elapsed,
            decreases cs.len() - i,
        {
            proof {
                lemma_decode_state_invariant(m, cs, i as int);
                lemma_decode_next_in_range(m, cs, i as int);
                lemma_decode_state_invariant(m, cs, i + 1);
            }
            let job_id: u16 = chromosome[i];
            let operation_no: u16 = self.done_operations_count[job_id as usize];
            let operation_time: u16 = self.job_master.exec_times[job_id as usize][operation_no
                as usize];
            let actor_id: u16 = self.job_master.actor_sequences[job_id as usize][operation_no
                as usize];
            proof {
                let st = spec_decode_at(m, cs, i as int);
                vstd::arithmetic::mul::lemma_mul_upper_bound(
                    m.job_size as int,
                    0xFFFF,
                    m.machine_series_size as int,
                    0xFFFF,
                );
                assert(i as int + 1 <= cs.len());
                assert(cs.len() == m.job_size * m.machine_series_size);
                assert(st.job_elapsed[job_id as int] <= 0xFFFF * (i as int));
                assert(st.actor_elapsed[actor_id as int] <= 0xFFFF * (i as int));
                assert(0xFFFF * (i as int) + 0xFFFF == 0xFFFF * (i as int + 1)) by (nonlinear_arith);
                assert(0xFFFF * (i as int + 1) <= 0xFFFF * (0xFFFF * 0xFFFF)) by (nonlinear_arith)
                    requires
                        0 <= i as int + 1 <= 0xFFFF * 0xFFFF,
                ;
            }
            self.update_elapsed_time(actor_id, job_id, operation_time);
            self.count_up(job_id);
            proof {
                let st = spec_decode_at(m, cs, i as int);
                let st2 = spec_decode_at(m, cs, i as int + 1);
                assert(st2 == spec_decode_step(m, st, cs[i as int]));
                assert(self.done_operations_count@.map_values(|x: u16| x as int) =~= st2.counts);
                assert(self.elapsed_job_time@.map_values(|x: u64| x as int) =~= st2.job_elapsed);
                assert(self.elapsed_actor_time@.map_values(|x: u64| x as int) =~= st2.actor_elapsed);
            }
            i = i + 1;
        }
        let ghost final_state = spec_decode_at(m, cs, cs.len() as int);
        let mut makespan: u64 = 0;
        let mut j: usize = 0;
        while j < self.elapsed_job_time.len()
            invariant
                j <= final_state.job_elapsed.len(),
                self.elapsed_job_time@.map_values(|x: u64| x as int) == final_state.job_elapsed,
                makespan as int == spec_seq_max(final_state.job_elapsed.take(j as int)),
            decreases self.elapsed_job_time@.len() - j,
        {
            proof {
                assert(final_state.job_elapsed.take(j as int + 1).drop_last() =~= final_state
                    .job_elapsed.take(j as int));
                assert(final_state.job_elapsed.take(j as int + 1).last() == final_state.job_elapsed[j
                    as int]);
            }
            let entry: u64 = self.elapsed_job_time[j];
            if entry > makespan {
                makespan = entry;
            }
            j = j + 1;
        }
        proof {
            assert(final_state.job_elapsed.take(final_state.job_elapsed.len() as int) =~= final_state
                .job_elapsed);
        }
        makespan
    }

    /// Validate the chromosome against the instance up front, then decode it.
    /// Success is owed exactly on chromosomes satisfying the multiset
    /// invariant; all others are rejected with an instance-mismatch error
    /// before any index is touched.
    pub fn try_calc_makespan(&mut self, chromosome: &Chromosome) -> (r: Result<u64, DecodeError>)
        requires
            old(self).job_master.wf(),
        ensures
            final(self).job_master == old(self).job_master,
            match r {
                Ok(makespan) => {
                    &&& valid_chromosome(old(self).job_master, chromosome@)
                    &&& makespan == spec_decode(old(self).job_master, chromosome@)
                },
                Err(e) => {
                    &&& !valid_chromosome(old(self).job_master, chromosome@)
                    &&& e == DecodeError::InstanceMismatch
                },
            },
    {
        if chromosome_matches(&self.job_master, chromosome) {
            Ok(self.calc_makespan(chromosome))
        } else {
            Err(DecodeError::InstanceMismatch)
        }
    }
}

} // verus!
