use vstd::prelude::*;

use crate::chromosome::{count_gene, gene_count, valid_gene_counts, Chromosome};

verus! {

/// An immutable job-shop problem instance: per-operation durations and
/// per-operation machine-group (actor) assignments, one row per job.  Every
/// job has exactly one operation per machine series, so each row has
/// `machine_series_size` entries.
pub struct JobMaster {
    pub job_size: usize,
    pub machine_series_size: usize,
    pub exec_times: Vec<Vec<u16>>,
    pub actor_sequences: Vec<Vec<u16>>,
}

impl JobMaster {
    /// The instance invariant: positive sizes small enough for the dense
    /// encodings used here, rectangular matrices of matching shape, and every
    /// actor assignment in range.
    pub open spec fn wf(self) -> bool {
        &&& 1 <= self.job_size <= 0xFFFF
        &&& 1 <= self.machine_series_size <= 0xFFFF
        &&& self.job_size * self.machine_series_size <= usize::MAX
        &&& self.exec_times@.len() == self.job_size
        &&& self.actor_sequences@.len() == self.job_size
        &&& forall|j: int|
            0 <= j < self.job_size ==> (#[trigger] self.exec_times@[j])@.len()
                == self.machine_series_size
        &&& forall|j: int|
            0 <= j < self.job_size ==> (#[trigger] self.actor_sequences@[j])@.len()
                == self.machine_series_size
        &&& forall|j: int, k: int|
            0 <= j < self.job_size && 0 <= k < self.machine_series_size ==> ((
            #[trigger] self.actor_sequences@[j]@[k]) as int) < self.machine_series_size
    }

    /// Duration of job `j`'s operation `k`.
    pub open spec fn duration(self, j: int, k: int) -> int {
        self.exec_times@[j]@[k] as int
    }

    /// Actor that runs job `j`'s operation `k`.
    pub open spec fn actor_of(self, j: int, k: int) -> int {
        self.actor_sequences@[j]@[k] as int
    }

    /// Operations per job: one per machine series.
    pub open spec fn ops_per_job(self) -> int {
        self.machine_series_size as int
    }

    /// Length that every chromosome for this instance must have.
    pub open spec fn chromosome_len(self) -> int {
        self.job_size * self.machine_series_size
    }

    /// Runtime mirror of the instance invariant `wf`.
    pub fn is_well_formed(&self) -> (b: bool)
        ensures
            b == self.wf(),
    {
        if self.job_size < 1 || self.job_size > 0xFFFF {
            return false;
        }
        if self.machine_series_size < 1 || self.machine_series_size > 0xFFFF {
            return false;
        }
        proof {
            vstd::arithmetic::mul::lemma_mul_upper_bound(
                self.job_size as int,
                0xFFFF,
                self.machine_series_size as int,
                0xFFFF,
            );
        }
        if (self.job_size as u64) * (self.machine_series_size as u64) > (usize::MAX as u64) {
            return false;
        }
        if self.exec_times.len() != self.job_size || self.actor_sequences.len() != self.job_size {
            return false;
        }
        let mut j: usize = 0;
        while j < self.job_size
            invariant
                j <= self.job_size,
                self.exec_times@.len() == self.job_size,
                self.actor_sequences@.len() == self.job_size,
                self.machine_series_size >= 1,
                forall|i: int|
                    0 <= i < j ==> (#[trigger] self.exec_times@[i])@.len()
                        == self.machine_series_size,
                forall|i: int|
                    0 <= i < j ==> (#[trigger] self.actor_sequences@[i])@.len()
                        == self.machine_series_size,
                forall|i: int, k: int|
                    0 <= i < j && 0 <= k < self.machine_series_size ==> ((
                    #[trigger] self.actor_sequences@[i]@[k]) as int) < self.machine_series_size,
            decreases self.job_size - j,
        {
            if self.exec_times[j].len() != self.machine_series_size {
                return false;
            }
            if self.actor_sequences[j].len() != self.machine_series_size {
                return false;
            }
            let row: &Vec<u16> = &self.actor_sequences[j];
            let mut k: usize = 0;
            while k < row.len()
                invariant
                    k <= row@.len(),
                    row == &self.actor_sequences@[j as int],
                    row@.len() == self.machine_series_size,
                    self.actor_sequences@.len() == self.job_size,
                    j < self.job_size,
                    forall|t: int|
                        0 <= t < k ==> ((#[trigger] row@[t]) as int) < self.machine_series_size,
                decreases row@.len() - k,
            {
                if row[k] as usize >= self.machine_series_size {
                    return false;
                }
                k = k + 1;
            }
            j = j + 1;
        }
        true
    }
}

/// A chromosome fits the instance when it has one gene per operation and
/// every job id occurs exactly `machine_series_size` times.
pub open spec fn valid_chromosome(m: JobMaster, s: Seq<u16>) -> bool {
    valid_gene_counts(s, m.job_size as int, m.machine_series_size as int)
}

/// Decide whether a chromosome satisfies the multiset invariant for this
/// instance: right length, every gene a known job id, and every job id
/// occurring once per operation.
pub fn chromosome_matches(master: &JobMaster, c: &Chromosome) -> (b: bool)
    requires
        master.wf(),
    ensures
        b == valid_chromosome(*master, c@),
{
    proof {
        vstd::arithmetic::mul::lemma_mul_upper_bound(
            master.job_size as int,
            0xFFFF,
            master.machine_series_size as int,
            0xFFFF,
        );
    }
    let expected_len: usize = master.job_size * master.machine_series_size;
    if c.len() != expected_len {
        return false;
    }
    let mut g: usize = 0;
    while g < c.len()
        invariant
            g <= c@.len(),
            forall|t: int| 0 <= t < g ==> ((#[trigger] c@[t]) as int) < master.job_size,
        decreases c@.len() - g,
    {
        if c[g] as usize >= master.job_size {
            return false;
        }
        g = g + 1;
    }
    let mut j: u16 = 0;
    while (j as usize) < master.job_size
        invariant
            j as int <= master.job_size,
            forall|u: u16|
                (u as int) < j as int ==> gene_count(c@, u) == master.machine_series_size,
        decreases master.job_size - j as int,
    {
        if count_gene(c, j) != master.machine_series_size {
            return false;
        }
        j = j + 1;
    }
    true
}

/// Why a proposed instance was rejected.
#[derive(Clone, Copy, Debug, PartialEq, Eq, Structural)]
pub enum ValidationError {
    /// A declared size is zero.
    EmptySize,
    /// A declared size is beyond what the dense encodings support.
    SizeTooLarge,
    /// The table does not hold one duration row and one actor row per job.
    RowCountMismatch,
    /// Some row's length differs from the machine-series count.
    RowLengthMismatch,
    /// Some actor assignment is not below the machine-series count.
    ActorOutOfRange,
}

/// The first reason, in checking order, to reject the proposed instance, or
/// `None` when it is acceptable.
pub open spec fn spec_validate(job_size: int, machine_series_size: int, rows: Seq<Vec<u16>>) -> Option<
    ValidationError,
> {
    if job_size < 1 || machine_series_size < 1 {
        Some(ValidationError::EmptySize)
    } else if job_size > 0xFFFF || machine_series_size > 0xFFFF || job_size * machine_series_size
        > usize::MAX {
        Some(ValidationError::SizeTooLarge)
    } else if rows.len() != 2 * job_size {
        Some(ValidationError::RowCountMismatch)
    } else if exists|i: int| 0 <= i < rows.len() && (#[trigger] rows[i])@.len() != machine_series_size {
        Some(ValidationError::RowLengthMismatch)
    } else if exists|j: int, k: int|
        0 <= j < job_size && 0 <= k < machine_series_size && ((#[trigger] rows[job_size + j]@[k]) as int)
            >= machine_series_size {
        Some(ValidationError::ActorOutOfRange)
    } else {
        None
    }
}

/// Build the instance from a table of `2 * job_size` rows: first the duration
/// rows, then the actor rows.  The table is validated in full before any part
/// of it is trusted; on success the result satisfies the instance invariant.
pub fn run(job_size: usize, machine_series_size: usize, rows: Vec<Vec<u16>>) -> (r: Result<
    JobMaster,
    ValidationError,
>)
    ensures
        match r {
            Ok(m) => {
                &&& spec_validate(job_size as int, machine_series_size as int, rows@) is None
                &&& m.wf()
                &&& m.job_size == job_size
                &&& m.machine_series_size == machine_series_size
                &&& m.exec_times@ == rows@.take(job_size as int)
                &&& m.actor_sequences@ == rows@.skip(job_size as int)
            },
            Err(e) => spec_validate(job_size as int, machine_series_size as int, rows@) == Some(e),
        },
{
    if job_size < 1 || machine_series_size < 1 {
        return Err(ValidationError::EmptySize);
    }
    if job_size > 0xFFFF || machine_series_size > 0xFFFF {
        return Err(ValidationError::SizeTooLarge);
    }
    proof {
        vstd::arithmetic::mul::lemma_mul_upper_bound(
            job_size as int,
            0xFFFF,
            machine_series_size as int,
            0xFFFF,
        );
    }
    if (job_size as u64) * (machine_series_size as u64) > (usize::MAX as u64) {
        return Err(ValidationError::SizeTooLarge);
    }
    if rows.len() != 2 * job_size {
        return Err(ValidationError::RowCountMismatch);
    }
    assert(rows@.len() <= usize::MAX);
    let mut i: usize = 0;
    while i < rows.len()
        invariant
            i <= rows@.len(),
            machine_series_size >= 1,
            forall|t: int| 0 <= t < i ==> (#[trigger] rows@[t])@.len() == machine_series_size,
        decreases rows@.len() - i,
    {
        if rows[i].len() != machine_series_size {
            proof {
                assert((rows@[i as int])@.len() != machine_series_size);
            }
            return Err(ValidationError::RowLengthMismatch);
        }
        i = i + 1;
    }
    let mut j: usize = 0;
    while j < job_size
        invariant
            j <= job_size,
            rows@.len() == 2 * job_size,
            rows@.len() <= usize::MAX,
            machine_series_size >= 1,
            forall|t: int| 0 <= t < rows@.len() ==> (#[trigger] rows@[t])@.len() == machine_series_size,
            forall|a: int, k: int|
                0 <= a < j && 0 <= k < machine_series_size ==> ((
                #[trigger] rows@[job_size + a]@[k]) as int) < machine_series_size,
        decreases job_size - j,
    {
        let row: &Vec<u16> = &rows[job_size + j];
        let mut k: usize = 0;
        while k < row.len()
            invariant
                k <= row@.len(),
                row == &rows@[job_size + j],
                row@.len() == machine_series_size,
                j < job_size,
                rows@.len() == 2 * job_size,
                forall|t: int| 0 <= t < k ==> ((#[trigger] row@[t]) as int) < machine_series_size,
            decreases row@.len() - k,
        {
            if row[k] as usize >= machine_series_size {
                proof {
                    assert((rows@[job_size + j as int]@[k as int] as int) >= machine_series_size);
                }
                return Err(ValidationError::ActorOutOfRange);
            }
            k = k + 1;
        }
        j = j + 1;
    }
    let mut table: Vec<Vec<u16>> = rows;
    let actor_rows: Vec<Vec<u16>> = table.split_off(job_size);
    let master = JobMaster {
        job_size,
        machine_series_size,
        exec_times: table,
        actor_sequences: actor_rows,
    };
    proof {
        assert(master.exec_times@ =~= rows@.take(job_size as int));
        assert(master.actor_sequences@ =~= rows@.skip(job_size as int));
        assert forall|a: int|
            0 <= a < job_size implies (#[trigger] master.actor_sequences@[a])@.len()
            == machine_series_size by {
            assert(master.actor_sequences@[a] == rows@[job_size + a]);
        }
        assert forall|a: int, k: int|
            0 <= a < job_size && 0 <= k < machine_series_size implies ((
        #[trigger] master.actor_sequences@[a]@[k]) as int) < machine_series_size by {
            assert(master.actor_sequences@[a] == rows@[job_size + a]);
        }
    }
    Ok(master)
}

} // verus!
