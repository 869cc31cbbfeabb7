//! The quantified invariants that every well-formed trace satisfies,
//! stated as public proof functions over the simulator's postcondition.

use vstd::prelude::*;
use crate::field::{P, fmuls, lemma_fold3_cancel, lemma_fsubs_self};
use crate::trace::{ProcessorRow, MemoryRow, memory_le, wf_processor_row, padded_processor_row,
    is_pow2, lemma_pow2_le, memory_of_processor};
use crate::air::{Challenges, Hints, boundary_eval};
use crate::prover::{base_column_value, ext_init};
use crate::sim::{BrainfuckTrace, wf_trace, memory_projection, instruction_projection,
    program_listing, real_memory_rows};

verus! {

/// Every Processor row of a well-formed trace has `MemVal * MemValInv` in
/// `{0, 1}`, and the product is one exactly when `MemVal` is nonzero.
pub proof fn lemma_mem_val_inverse(
    t: BrainfuckTrace,
    program: Seq<u64>,
    input: Seq<u8>,
    i: int,
)
    requires
        wf_trace(t, program, input),
        0 <= i < t.processor@.len(),
    ensures
        fmuls(t.processor@[i].mem_val as int, t.processor@[i].mem_val_inv as int) == 0
            || fmuls(t.processor@[i].mem_val as int, t.processor@[i].mem_val_inv as int) == 1,
        fmuls(t.processor@[i].mem_val as int, t.processor@[i].mem_val_inv as int) == 1
            <==> t.processor@[i].mem_val != 0,
{
    broadcast use crate::field::lemma_fmuls_zero_right;

    let rl = t.real_processor_len as int;
    let realrows = t.processor@.subrange(0, rl);
    if i < rl {
        assert(wf_processor_row(realrows[i], program));
        assert(realrows[i] == t.processor@[i]);
    } else {
        assert(t.processor@[i] == padded_processor_row(t.processor@[rl - 1], i));
        assert(wf_processor_row(realrows[rl - 1], program));
        assert(realrows[rl - 1] == t.processor@[rl - 1]);
    }
}

/// The padded row count of a well-formed trace is a power of two at or
/// above the real row count of every table.
pub proof fn lemma_height_power_of_two(t: BrainfuckTrace, program: Seq<u64>, input: Seq<u8>)
    requires
        wf_trace(t, program, input),
    ensures
        is_pow2(t.height as nat),
        t.real_processor_len <= t.height,
        t.real_memory_len <= t.height,
        t.real_instruction_len <= t.height,
        t.real_input_len <= t.height,
        t.real_output_len <= t.height,
        t.processor@.len() == t.height,
        t.memory@.len() == t.height,
        t.instruction@.len() == t.height,
        t.input@.len() == t.height,
        t.output@.len() == t.height,
        forall|m: nat|
            is_pow2(m) && m >= t.real_processor_len && m >= t.real_memory_len && m
                >= t.real_instruction_len && m >= t.real_input_len && m >= t.real_output_len
                ==> m >= t.height,
{
    assert forall|m: nat|
        is_pow2(m) && m >= t.real_processor_len && m >= t.real_memory_len && m
            >= t.real_instruction_len && m >= t.real_input_len && m
            >= t.real_output_len implies m >= t.height by {
        lemma_pow2_le(t.height as nat, m);
    }
}

/// The Memory table of a well-formed trace is sorted by `(mp, cycle)`,
/// and wherever the pointer repeats the cycle advances by exactly one:
/// every clock gap inside one cell's history has been filled.
pub proof fn lemma_memory_sorted_and_gapless(
    t: BrainfuckTrace,
    program: Seq<u64>,
    input: Seq<u8>,
    i: int,
)
    requires
        wf_trace(t, program, input),
        0 <= i < t.memory@.len() - 1,
    ensures
        memory_le(t.memory@[i], t.memory@[i + 1]),
        t.memory@[i].mp == t.memory@[i + 1].mp ==> t.memory@[i + 1].cycle == t.memory@[i].cycle
            + 1,
{
}

/// The real rows of the Memory table are a permutation of the
/// `(Cycle, Mp, MemVal)` projection of the non-halt Processor rows.
pub proof fn lemma_memory_permutation(t: BrainfuckTrace, program: Seq<u64>, input: Seq<u8>)
    requires
        wf_trace(t, program, input),
    ensures
        real_memory_rows(t.memory@.subrange(0, t.real_memory_len as int)).to_multiset()
            == memory_projection(
            t.processor@.subrange(0, t.real_processor_len as int),
        ).to_multiset(),
{
}

/// The Instruction table holds exactly the program listing joined with
/// the `(Ip, CurrInstr, NextInstr)` projection of the Processor rows, as
/// multisets: what the two sides of the instruction permutation argument
/// fold.
pub proof fn lemma_instruction_permutation(t: BrainfuckTrace, program: Seq<u64>, input: Seq<u8>)
    requires
        wf_trace(t, program, input),
    ensures
        t.instruction@.subrange(0, t.real_instruction_len as int).to_multiset() == (
        program_listing(program) + instruction_projection(
            t.processor@.subrange(0, t.real_processor_len as int),
        )).to_multiset(),
{
}

/// The projection of a non-halt Processor row appears in the Memory-table
/// projection.
proof fn lemma_memory_projection_contains(rows: Seq<ProcessorRow>, i: int)
    requires
        0 <= i < rows.len(),
        rows[i].curr_instr != 0,
    ensures
        memory_projection(rows).contains(memory_of_processor(rows[i])),
    decreases rows.len(),
{
    if i == rows.len() - 1 {
        assert(memory_projection(rows).last() == memory_of_processor(rows[i]));
    } else {
        lemma_memory_projection_contains(rows.drop_last(), i);
        let sub = memory_projection(rows.drop_last());
        let j = choose|j: int| 0 <= j < sub.len() && sub[j] == memory_of_processor(rows[i]);
        if rows.last().curr_instr != 0 {
            assert(memory_projection(rows)[j] == sub[j]);
        } else {
            assert(memory_projection(rows)[j] == sub[j]);
        }
    }
}

/// A row of the dummy-free filtering came from the filtered table.
proof fn lemma_real_memory_contains(s: Seq<MemoryRow>, r: MemoryRow)
    requires
        real_memory_rows(s).contains(r),
    ensures
        s.contains(r),
    decreases s.len(),
{
    if s.len() > 0 {
        let f = real_memory_rows(s);
        if s.last().dummy == 0 && f.last() == r {
            assert(s[s.len() - 1] == r);
        } else {
            lemma_real_memory_contains(s.drop_last(), r);
            let j = choose|j: int| 0 <= j < s.len() - 1 && s.drop_last()[j] == r;
            assert(s[j] == r);
        }
    }
}

/// Pairwise order on adjacent Memory rows extends to any two positions.
proof fn lemma_memory_sorted_chain(rows: Seq<MemoryRow>, i: int, j: int)
    requires
        forall|k: int| 0 <= k < rows.len() - 1 ==> memory_le(#[trigger] rows[k], rows[k + 1]),
        0 <= i <= j < rows.len(),
    ensures
        memory_le(rows[i], rows[j]),
    decreases j - i,
{
    if i < j {
        lemma_memory_sorted_chain(rows, i + 1, j);
        assert(memory_le(rows[i], rows[i + 1]));
    }
}

/// Every boundary constraint vanishes at row zero of a well-formed trace
/// whose extension columns start at their §-style initial values: the
/// registers and both processor evaluations are zero, the Memory and
/// Instruction tables open at the zero row and address, the program
/// evaluation opens at the first instruction tuple, and the tape
/// evaluations open at the first table values.
#[verifier::rlimit(100)]
pub proof fn lemma_boundary_constraints_vanish(
    t: BrainfuckTrace,
    program: Seq<u64>,
    input: Seq<u8>,
    ch: Challenges,
    h: Hints,
    bcols: Seq<Seq<u64>>,
    ecols: Seq<Seq<u64>>,
    row0: Seq<u64>,
)
    requires
        wf_trace(t, program, input),
        program.len() >= 1,
        t.real_processor_len >= 2,
        bcols.len() == 17,
        ecols.len() == 9,
        forall|c: int| 0 <= c < 17 ==> (#[trigger] bcols[c]).len() >= 1,
        forall|c: int| 0 <= c < 17 ==> (#[trigger] bcols[c])[0] == base_column_value(t, c, 0),
        forall|k: int| 0 <= k < 9 ==> (#[trigger] ecols[k]).len() >= 1,
        forall|k: int| 0 <= k < 9 ==> (#[trigger] ecols[k])[0] == ext_init(ch, bcols, k),
        row0.len() == 26,
        forall|c: int| 0 <= c < 17 ==> #[trigger] row0[c] == bcols[c][0],
        forall|k: int| 0 <= k < 9 ==> #[trigger] row0[17 + k] == ecols[k][0],
    ensures
        forall|k: int| 0 <= k < 15 ==> #[trigger] boundary_eval(ch, h, row0, k) == 0,
{
    reveal(boundary_eval);
    broadcast use vstd::seq_lib::group_to_multiset_ensures;
    broadcast use vstd::multiset::group_multiset_axioms;

    vstd::arithmetic::div_mod::lemma_small_mod(0nat, P as nat);
    let rl = t.real_processor_len as int;
    let preal = t.processor@.subrange(0, rl);
    let p0 = preal[0];
    assert(p0 == t.processor@[0]);
    assert(crate::opcode::is_opcode(p0.curr_instr as int));
    assert(p0.curr_instr != 0 && p0.dummy == 0);
    // the Memory table opens at the projection of the first processor row
    let target = memory_of_processor(p0);
    assert(target == (MemoryRow { cycle: 0, mp: 0, mem_val: 0, dummy: 0 }));
    lemma_memory_projection_contains(preal, 0);
    let ml = t.real_memory_len as int;
    let mreal = t.memory@.subrange(0, ml);
    assert(real_memory_rows(mreal).to_multiset().count(target) > 0);
    assert(real_memory_rows(mreal).contains(target));
    lemma_real_memory_contains(mreal, target);
    let mj = choose|j: int| 0 <= j < mreal.len() && mreal[j] == target;
    assert(t.memory@[mj] == target);
    assert forall|k: int| 0 <= k < t.memory@.len() - 1 implies memory_le(
        #[trigger] t.memory@[k],
        t.memory@[k + 1],
    ) by {}
    if mj > 0 {
        lemma_memory_sorted_chain(t.memory@, 0, mj - 1);
        lemma_memory_sorted_chain(t.memory@, 0, mj);
        assert(t.memory@[mj - 1].mp == 0 && t.memory@[mj].mp == 0);
        assert(t.memory@[mj].cycle == t.memory@[mj - 1].cycle + 1);
        assert(false);
    }
    assert(t.memory@[0] == target);
    // the Instruction table opens at address zero
    let listing = program_listing(program);
    let proj2 = instruction_projection(preal);
    assert(listing[0].ip == 0);
    assert((listing + proj2)[0] == listing[0]);
    assert((listing + proj2).contains(listing[0]));
    let il = t.real_instruction_len as int;
    let ireal = t.instruction@.subrange(0, il);
    assert(ireal.to_multiset().count(listing[0]) > 0);
    assert(ireal.contains(listing[0]));
    let ij = choose|j: int| 0 <= j < ireal.len() && ireal[j] == listing[0];
    assert(t.instruction@[ij].ip == 0);
    assert(t.instruction@[0].ip <= t.instruction@[ij].ip);
    assert(t.instruction@[0].ip == 0);
    // the linear combinations of the evaluation openings cancel
    lemma_fold3_cancel(
        fmuls(ch.a as int, bcols[8][0] as int),
        fmuls(ch.b as int, bcols[9][0] as int),
        fmuls(ch.c as int, bcols[10][0] as int),
    );
    lemma_fsubs_self(bcols[15][0] as int);
    lemma_fsubs_self(bcols[16][0] as int);
    assert(p0.cycle == 0 && p0.ip == 0 && p0.mp == 0 && p0.mem_val == 0 && p0.mem_val_inv
        == 0);
    assert(row0[0] == base_column_value(t, 0, 0) && base_column_value(t, 0, 0) == 0);
    assert(row0[1] == base_column_value(t, 1, 0) && base_column_value(t, 1, 0) == 0);
    assert(row0[4] == base_column_value(t, 4, 0) && base_column_value(t, 4, 0) == 0);
    assert(row0[5] == base_column_value(t, 5, 0) && base_column_value(t, 5, 0) == 0);
    assert(row0[6] == base_column_value(t, 6, 0) && base_column_value(t, 6, 0) == 0);
    assert(row0[7] == base_column_value(t, 7, 0) && base_column_value(t, 7, 0) == 0);
    assert(row0[8] == base_column_value(t, 8, 0) && base_column_value(t, 8, 0) == 0);
    assert(row0[11] == base_column_value(t, 11, 0) && base_column_value(t, 11, 0) == 0);
    assert(row0[12] == base_column_value(t, 12, 0) && base_column_value(t, 12, 0) == 0);
    assert(row0[13] == base_column_value(t, 13, 0) && base_column_value(t, 13, 0) == 0);
    assert(row0[17 + 2 as int] == ext_init(ch, bcols, 2) && ext_init(ch, bcols, 2) == 0);
    assert(row0[17 + 3 as int] == ext_init(ch, bcols, 3) && ext_init(ch, bcols, 3) == 0);
    assert(row0[17 + 5 as int] == ext_init(ch, bcols, 5));
    assert(row0[17 + 7 as int] == ext_init(ch, bcols, 7) && ext_init(ch, bcols, 7)
        == bcols[15][0] as int);
    assert(row0[17 + 8 as int] == ext_init(ch, bcols, 8) && ext_init(ch, bcols, 8)
        == bcols[16][0] as int);
    assert(row0[15] == base_column_value(t, 15, 0) && row0[16] == base_column_value(t, 16, 0));
    assert forall|k: int| 0 <= k < 15 implies #[trigger] boundary_eval(ch, h, row0, k)
        == 0 by {
        reveal(boundary_eval);
        if k == 12 {
            assert(row0[22] as int == crate::field::fadds(
                crate::field::fadds(
                    fmuls(ch.a as int, row0[8] as int),
                    fmuls(ch.b as int, row0[9] as int),
                ),
                fmuls(ch.c as int, row0[10] as int),
            ));
        } else if k == 13 {
            assert(row0[24] as int == row0[15] as int);
        } else if k == 14 {
            assert(row0[25] as int == row0[16] as int);
        }
    }
}

} // verus!
