use vstd::prelude::*;

verus! {

/// A chromosome encodes a dispatch order as a sequence of job ids.  The k-th
/// occurrence of job `j`, read left to right, designates job `j`'s k-th
/// operation.
pub type Chromosome = Vec<u16>;

/// Number of occurrences of the gene value `v` in `s`.
pub open spec fn gene_count(s: Seq<u16>, v: u16) -> nat
    decreases s.len(),
{
    if s.len() == 0 {
        0
    } else {
        gene_count(s.drop_last(), v) + if s.last() == v {
            1nat
        } else {
            0nat
        }
    }
}

/// A chromosome fits an instance with `job_size` jobs of `ops` operations
/// each when it has one gene per operation and every job id below `job_size`
/// occurs exactly `ops` times.
pub open spec fn valid_gene_counts(s: Seq<u16>, job_size: int, ops: int) -> bool {
    &&& s.len() == job_size * ops
    &&& forall|g: int| 0 <= g < s.len() ==> (s[g] as int) < job_size
    &&& forall|j: u16| (j as int) < job_size ==> gene_count(s, j) == ops
}

/// The sequence `s` with the values at positions `i` and `j` exchanged.
pub open spec fn spec_swapped(s: Seq<u16>, i: int, j: int) -> Seq<u16>
    recommends
        0 <= i < s.len(),
        0 <= j < s.len(),
{
    s.update(i, s[j]).update(j, s[i])
}

/// Extending a sequence by one gene raises exactly that gene's count.
pub proof fn lemma_gene_count_push(s: Seq<u16>, x: u16, v: u16)
    ensures
        gene_count(s.push(x), v) == gene_count(s, v) + if x == v {
            1nat
        } else {
            0nat
        },
{
    assert(s.push(x).drop_last() =~= s);
    assert(s.push(x).last() == x);
}

/// Counting over a one-longer prefix adds the newly covered gene.
pub proof fn lemma_gene_count_take_step(s: Seq<u16>, i: int, v: u16)
    requires
        0 <= i < s.len(),
    ensures
        gene_count(s.take(i + 1), v) == gene_count(s.take(i), v) + if s[i] == v {
            1nat
        } else {
            0nat
        },
{
    assert(s.take(i + 1).drop_last() =~= s.take(i));
    assert(s.take(i + 1).last() == s[i]);
}

/// A prefix never holds more occurrences of a gene than the whole sequence.
pub proof fn lemma_gene_count_take_le(s: Seq<u16>, i: int, v: u16)
    requires
        0 <= i <= s.len(),
    ensures
        gene_count(s.take(i), v) <= gene_count(s, v),
    decreases s.len() - i,
{
    if i == s.len() {
        assert(s.take(i) =~= s);
    } else {
        lemma_gene_count_take_step(s, i, v);
        lemma_gene_count_take_le(s, i + 1, v);
    }
}

/// Overwriting one position removes the old value's occurrence and adds the
/// new value's.
pub proof fn lemma_gene_count_update(s: Seq<u16>, i: int, x: u16, v: u16)
    requires
        0 <= i < s.len(),
    ensures
        gene_count(s.update(i, x), v) + if s[i] == v {
            1nat
        } else {
            0nat
        } == gene_count(s, v) + if x == v {
            1nat
        } else {
            0nat
        },
    decreases s.len(),
{
    let u = s.update(i, x);
    if i == s.len() - 1 {
        assert(u.drop_last() =~= s.drop_last());
        assert(u.last() == x);
        assert(s.last() == s[i]);
    } else {
        assert(u.drop_last() =~= s.drop_last().update(i, x));
        assert(u.last() == s.last());
        lemma_gene_count_update(s.drop_last(), i, x, v);
    }
}

/// Exchanging two positions leaves every gene's occurrence count unchanged.
pub proof fn lemma_swap_preserves_counts(s: Seq<u16>, i: int, j: int, v: u16)
    requires
        0 <= i < s.len(),
        0 <= j < s.len(),
    ensures
        gene_count(spec_swapped(s, i, j), v) == gene_count(s, v),
{
    let u1 = s.update(i, s[j]);
    lemma_gene_count_update(s, i, s[j], v);
    lemma_gene_count_update(u1, j, s[i], v);
    if i == j {
        assert(u1[j] == s[j]);
    } else {
        assert(u1[j] == s[j]);
    }
}

/// A swap of two positions preserves chromosome length and the whole multiset
/// invariant: a swapped valid chromosome is again valid.
pub proof fn lemma_swap_preserves_validity(s: Seq<u16>, i: int, j: int, job_size: int, ops: int)
    requires
        0 <= i < s.len(),
        0 <= j < s.len(),
        valid_gene_counts(s, job_size, ops),
    ensures
        valid_gene_counts(spec_swapped(s, i, j), job_size, ops),
{
    let t = spec_swapped(s, i, j);
    assert(t.len() == s.len());
    assert forall|g: int| 0 <= g < t.len() implies (t[g] as int) < job_size by {
        assert(t[g] == s[g] || t[g] == s[i] || t[g] == s[j]);
    }
    assert forall|v: u16| (v as int) < job_size implies gene_count(t, v) == ops by {
        lemma_swap_preserves_counts(s, i, j, v);
    }
}

/// Exchange the values at positions `i` and `j` of `c`.
pub fn swap_positions(c: &mut Chromosome, i: usize, j: usize)
    requires
        i < old(c)@.len(),
        j < old(c)@.len(),
    ensures
        final(c)@ == spec_swapped(old(c)@, i as int, j as int),
{
    let a: u16 = c[i];
    let b: u16 = c[j];
    c[i] = b;
    c[j] = a;
    assert(c@ =~= spec_swapped(old(c)@, i as int, j as int));
}

/// An element-for-element copy of `c`.
pub fn clone_chromosome(c: &Chromosome) -> (r: Chromosome)
    ensures
        r@ == c@,
{
    let mut r: Vec<u16> = Vec::new();
    let mut i: usize = 0;
    while i < c.len()
        invariant
            i <= c@.len(),
            r@ == c@.take(i as int),
        decreases c@.len() - i,
    {
        r.push(c[i]);
        proof {
            assert(r@ =~= c@.take(i as int + 1));
        }
        i = i + 1;
    }
    proof {
        assert(c@.take(c@.len() as int) =~= c@);
    }
    r
}

/// Number of occurrences of `v` among the genes of `c`.
pub fn count_gene(c: &Chromosome, v: u16) -> (n: usize)
    ensures
        n == gene_count(c@, v),
{
    let mut n: usize = 0;
    let mut g: usize = 0;
    while g < c.len()
        invariant
            g <= c@.len(),
            n == gene_count(c@.take(g as int), v),
            n <= g,
        decreases c@.len() - g,
    {
        proof {
            lemma_gene_count_take_step(c@, g as int, v);
        }
        if c[g] == v {
            n = n + 1;
        }
        g = g + 1;
    }
    proof {
        assert(c@.take(c@.len() as int) =~= c@);
    }
    n
}

} // verus!
