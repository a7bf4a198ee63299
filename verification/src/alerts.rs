//! Alert breach tally. Comparing usage percents with thresholds is floating
//! point and happens outside this crate; the tally over the flags is here.

use vstd::prelude::*;

verus! {

/// Number of `true` flags.
pub open spec fn count_true(s: Seq<bool>) -> nat
    decreases s.len(),
{
    if s.len() == 0 {
        0
    } else {
        count_true(s.drop_last()) + if s.last() { 1nat } else { 0nat }
    }
}

proof fn lemma_count_true_le(s: Seq<bool>)
    ensures
        count_true(s) <= s.len(),
    decreases s.len(),
{
    if s.len() > 0 {
        lemma_count_true_le(s.drop_last());
    }
}

/// No flags, no breaches.
pub proof fn count_true_empty()
    ensures
        count_true(Seq::<bool>::empty()) == 0,
{
}

/// Each further flag adds one breach when it is set and none otherwise, so
/// every breached disk counts once (e.g. two breached disks count two).
pub proof fn count_true_push(s: Seq<bool>, b: bool)
    ensures
        count_true(s.push(b)) == count_true(s) + if b { 1int } else { 0int },
{
    assert(s.push(b).drop_last() =~= s);
}

/// The tally of a list of flags is the number of positions holding `true`.
pub proof fn count_true_counts_flags(s: Seq<bool>)
    ensures
        count_true(s) == s.filter(|b: bool| b).len(),
    decreases s.len(),
{
    reveal(Seq::filter);
    if s.len() > 0 {
        count_true_counts_flags(s.drop_last());
    }
}

/// How many of the CPU, memory and per-disk checks breached, and whether any did.
pub fn breach_summary(cpu: bool, memory: bool, disks: &Vec<bool>) -> (r: (usize, bool))
    requires
        disks@.len() + 2 <= usize::MAX,
    ensures
        r.0 == (if cpu { 1nat } else { 0nat }) + (if memory { 1nat } else { 0nat }) + count_true(disks@),
        r.1 == (r.0 > 0),
{
    let mut count: usize = 0;
    if cpu {
        count = count + 1;
    }
    if memory {
        count = count + 1;
    }
    let mut i: usize = 0;
    while i < disks.len()
        invariant
            i <= disks.len(),
            disks@.len() + 2 <= usize::MAX,
            count == (if cpu { 1nat } else { 0nat }) + (if memory { 1nat } else { 0nat }) + count_true(disks@.take(i as int)),
        decreases disks.len() - i,
    {
        assert(disks@.take(i + 1).drop_last() =~= disks@.take(i as int));
        proof {
            lemma_count_true_le(disks@.take(i as int));
        }
        if disks[i] {
            count = count + 1;
        }
        i = i + 1;
    }
    assert(disks@.take(i as int) =~= disks@);
    (count, count > 0)
}

} // verus!
