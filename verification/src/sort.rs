//! In-place sorting of trace rows.
//!
//! The Memory table is sorted lexicographically by `(mp, cycle)` and the
//! Instruction table by `ip`.  Both sorts are selection sorts proved to
//! return a sorted permutation of their input.

use vstd::prelude::*;
use crate::trace::{MemoryRow, InstructionRow, memory_le};

verus! {

/// A Memory row sequence sorted by `(mp, cycle)`.
pub open spec fn sorted_memory(s: Seq<MemoryRow>) -> bool {
    forall|i: int, j: int| 0 <= i < j < s.len() ==> memory_le(#[trigger] s[i], #[trigger] s[j])
}

/// An Instruction row sequence sorted by address.
pub open spec fn sorted_instruction(s: Seq<InstructionRow>) -> bool {
    forall|i: int, j: int|
        0 <= i < j < s.len() ==> (#[trigger] s[i]).ip <= (#[trigger] s[j]).ip
}

/// Sorts the Memory table by `(mp, cycle)`; the rows are permuted, nothing
/// else changes.
pub fn sort_memory_rows(v: &mut Vec<MemoryRow>)
    ensures
        final(v)@.len() == old(v)@.len(),
        final(v)@.to_multiset() == old(v)@.to_multiset(),
        sorted_memory(final(v)@),
{
    broadcast use vstd::seq_lib::group_to_multiset_ensures;
    broadcast use vstd::multiset::group_multiset_axioms;

    let ghost orig = v@;
    let mut out: Vec<MemoryRow> = Vec::new();
    while v.len() > 0
        invariant
            out@.to_multiset().add(v@.to_multiset()) =~= orig.to_multiset(),
            out@.len() + v@.len() == orig.len(),
            sorted_memory(out@),
            forall|i: int, j: int|
                0 <= i < out@.len() && 0 <= j < v@.len() ==> memory_le(
                    #[trigger] out@[i],
                    #[trigger] v@[j],
                ),
        decreases v.len(),
    {
        let mut m: usize = 0;
        let mut k: usize = 1;
        while k < v.len()
            invariant
                0 <= m < k <= v@.len(),
                forall|j: int| 0 <= j < k ==> memory_le(v@[m as int], #[trigger] v@[j]),
            decreases v.len() - k,
        {
            if !memory_le_exec(&v[m], &v[k]) {
                m = k;
            }
            k = k + 1;
        }
        let ghost prev_out = out@;
        let ghost prev_v = v@;
        let x = v.remove(m);
        out.push(x);
        proof {
            vstd::seq_lib::to_multiset_remove(prev_v, m as int);
            vstd::seq_lib::to_multiset_build(prev_out, x);
            vstd::seq_lib::to_multiset_contains(prev_v, x);
            assert(prev_v.contains(x));
            assert(prev_v.to_multiset().count(x) > 0);
            assert(out@.to_multiset().add(v@.to_multiset()) =~= orig.to_multiset());
            assert(forall|j: int|
                0 <= j < v@.len() ==> memory_le(x, #[trigger] v@[j])) by {
                assert(forall|j: int|
                    0 <= j < prev_v.len() ==> memory_le(prev_v[m as int], #[trigger] prev_v[j]));
            }
        }
    }
    *v = out;
    proof {
        assert(v@.to_multiset().add(Seq::<MemoryRow>::empty().to_multiset())
            =~= v@.to_multiset());
    }
}

/// Decides the `(mp, cycle)` order on Memory rows.
fn memory_le_exec(a: &MemoryRow, b: &MemoryRow) -> (r: bool)
    ensures
        r == memory_le(*a, *b),
{
    a.mp < b.mp || (a.mp == b.mp && a.cycle <= b.cycle)
}

/// Sorts the Instruction table by address; the rows are permuted, nothing
/// else changes.
pub fn sort_instruction_rows(v: &mut Vec<InstructionRow>)
    ensures
        final(v)@.len() == old(v)@.len(),
        final(v)@.to_multiset() == old(v)@.to_multiset(),
        sorted_instruction(final(v)@),
{
    broadcast use vstd::seq_lib::group_to_multiset_ensures;
    broadcast use vstd::multiset::group_multiset_axioms;

    let ghost orig = v@;
    let mut out: Vec<InstructionRow> = Vec::new();
    while v.len() > 0
        invariant
            out@.to_multiset().add(v@.to_multiset()) =~= orig.to_multiset(),
            out@.len() + v@.len() == orig.len(),
            sorted_instruction(out@),
            forall|i: int, j: int|
                0 <= i < out@.len() && 0 <= j < v@.len() ==> (#[trigger] out@[i]).ip
                    <= (#[trigger] v@[j]).ip,
        decreases v.len(),
    {
        let mut m: usize = 0;
        let mut k: usize = 1;
        while k < v.len()
            invariant
                0 <= m < k <= v@.len(),
                forall|j: int| 0 <= j < k ==> v@[m as int].ip <= (#[trigger] v@[j]).ip,
            decreases v.len() - k,
        {
            if v[k].ip < v[m].ip {
                m = k;
            }
            k = k + 1;
        }
        let ghost prev_out = out@;
        let ghost prev_v = v@;
        let x = v.remove(m);
        out.push(x);
        proof {
            vstd::seq_lib::to_multiset_remove(prev_v, m as int);
            vstd::seq_lib::to_multiset_build(prev_out, x);
            vstd::seq_lib::to_multiset_contains(prev_v, x);
            assert(prev_v.contains(x));
            assert(prev_v.to_multiset().count(x) > 0);
            assert(out@.to_multiset().add(v@.to_multiset()) =~= orig.to_multiset());
            assert(forall|j: int|
                0 <= j < v@.len() ==> x.ip <= (#[trigger] v@[j]).ip) by {
                assert(forall|j: int|
                    0 <= j < prev_v.len() ==> prev_v[m as int].ip <= (#[trigger] prev_v[j]).ip);
            }
        }
    }
    *v = out;
    proof {
        assert(v@.to_multiset().add(Seq::<InstructionRow>::empty().to_multiset())
            =~= v@.to_multiset());
    }
}

} // verus!
