//! Execution-trace tables and their well-formedness.
//!
//! The simulator emits five base-column tables: Processor, Instruction,
//! Memory, Input and Output.  All five are padded to one shared power-of-two
//! row count.  The spec predicates here say what a well-formed trace looks
//! like; they are the postcondition of the simulator and the hypothesis of
//! the constraint-vanishing lemmas.

use vstd::prelude::*;
use crate::field::{P, in_field, fmuls};
use crate::opcode::is_opcode;

verus! {

/// One row of the Processor table.
#[derive(Debug, Clone, Copy, PartialEq, Eq, Structural)]
pub struct ProcessorRow {
    pub cycle: u64,
    pub ip: u64,
    pub curr_instr: u64,
    pub next_instr: u64,
    pub mp: u64,
    pub mem_val: u64,
    pub mem_val_inv: u64,
    pub dummy: u64,
}

/// One row of the Instruction table.
#[derive(Debug, Clone, Copy, PartialEq, Eq, Structural)]
pub struct InstructionRow {
    pub ip: u64,
    pub curr_instr: u64,
    pub next_instr: u64,
}

/// One row of the Memory table.
#[derive(Debug, Clone, Copy, PartialEq, Eq, Structural)]
pub struct MemoryRow {
    pub cycle: u64,
    pub mp: u64,
    pub mem_val: u64,
    pub dummy: u64,
}

/// The program cell at an index, or zero past the end of the program.
pub open spec fn prog_at(program: Seq<u64>, i: int) -> int {
    if 0 <= i < program.len() {
        program[i] as int
    } else {
        0
    }
}

/// A program as the compiler emits it: opcode cells interleaved with a
/// resolved jump-target cell directly after each bracket, every target
/// within bounds.
pub open spec fn wf_program_from(program: Seq<u64>, i: int) -> bool
    decreases program.len() - i when 0 <= i <= program.len()
{
    if i >= program.len() {
        true
    } else if program[i] == 91 || program[i] == 93 {
        &&& i + 1 < program.len()
        &&& program[i + 1] <= program.len()
        &&& wf_program_from(program, i + 2)
    } else {
        &&& is_opcode(program[i] as int)
        &&& wf_program_from(program, i + 1)
    }
}

/// A well-formed program, with a machine bound on its length.
pub open spec fn wf_program(program: Seq<u64>) -> bool {
    &&& program.len() < 0x1000_0000
    &&& wf_program_from(program, 0)
}


/// Whether `s` is a jump-target cell of the program, as the well-formedness
/// walk from `i` visits it: the position directly after a bracket opcode.
pub open spec fn is_cell_pos(program: Seq<u64>, i: int, s: int) -> bool
    decreases program.len() - i when 0 <= i <= program.len()
{
    if i >= program.len() {
        false
    } else if program[i] == 91 || program[i] == 93 {
        s == i + 1 || (i + 2 <= program.len() && is_cell_pos(program, i + 2, s))
    } else {
        is_cell_pos(program, i + 1, s)
    }
}

/// A cell position lies strictly between the walk position that reaches
/// it and the end of a well-formed program.
pub proof fn lemma_cell_pos_gt(program: Seq<u64>, i: int, s: int)
    requires
        0 <= i <= program.len(),
        wf_program_from(program, i),
        is_cell_pos(program, i, s),
    ensures
        i < s < program.len(),
    decreases program.len() - i,
{
    if i < program.len() {
        if program[i] == 91 || program[i] == 93 {
            if s != i + 1 {
                lemma_cell_pos_gt(program, i + 2, s);
            }
        } else {
            lemma_cell_pos_gt(program, i + 1, s);
        }
    }
}

/// The walk reads only positions at or after its start: programs that
/// agree there have the same well-formedness and the same cells.
pub proof fn lemma_walk_frame(p1: Seq<u64>, p2: Seq<u64>, i: int)
    requires
        p1.len() == p2.len(),
        0 <= i <= p1.len(),
        forall|j: int| i <= j < p1.len() ==> p1[j] == #[trigger] p2[j],
    ensures
        wf_program_from(p1, i) ==> wf_program_from(p2, i),
        forall|s: int| is_cell_pos(p1, i, s) ==> is_cell_pos(p2, i, s),
    decreases p1.len() - i,
{
    if i < p1.len() {
        assert(p2[i] == p1[i]);
        if i + 1 <= p1.len() {
            lemma_walk_frame(p1, p2, i + 1);
        }
        if i + 2 <= p1.len() {
            lemma_walk_frame(p1, p2, i + 2);
            assert(p2[i + 1] == p1[i + 1]);
        }
        assert forall|s: int| is_cell_pos(p1, i, s) implies is_cell_pos(p2, i, s) by {
            if p1[i] == 91 || p1[i] == 93 {
                if s != i + 1 {
                    assert(is_cell_pos(p1, i + 2, s));
                }
            } else {
                assert(is_cell_pos(p1, i + 1, s));
            }
        }
    }
}

/// Appending a block that is well formed at the old end preserves the walk
/// from any earlier position, keeps every old cell a cell, and admits the
/// block's own cells.
pub proof fn lemma_walk_append(p: Seq<u64>, q: Seq<u64>, i: int)
    requires
        0 <= i <= p.len(),
        wf_program_from(p, i),
        wf_program_from(p + q, p.len() as int),
    ensures
        wf_program_from(p + q, i),
        forall|s: int| is_cell_pos(p, i, s) ==> is_cell_pos(p + q, i, s),
        forall|s: int| is_cell_pos(p + q, p.len() as int, s) ==> is_cell_pos(p + q, i, s),
    decreases p.len() - i,
{
    if i < p.len() {
        assert((p + q)[i] == p[i]);
        if p[i] == 91 || p[i] == 93 {
            assert((p + q)[i + 1] == p[i + 1]);
            lemma_walk_append(p, q, i + 2);
            assert forall|s: int| is_cell_pos(p, i, s) implies is_cell_pos(p + q, i, s) by {
                if s != i + 1 {
                    assert(is_cell_pos(p, i + 2, s));
                }
            }
            assert forall|s: int|
                is_cell_pos(p + q, p.len() as int, s) implies is_cell_pos(p + q, i, s) by {
                assert(is_cell_pos(p + q, i + 2, s));
            }
        } else {
            lemma_walk_append(p, q, i + 1);
            assert forall|s: int| is_cell_pos(p, i, s) implies is_cell_pos(p + q, i, s) by {
                assert(is_cell_pos(p, i + 1, s));
            }
            assert forall|s: int|
                is_cell_pos(p + q, p.len() as int, s) implies is_cell_pos(p + q, i, s) by {
                assert(is_cell_pos(p + q, i + 1, s));
            }
        }
    }
}

/// Writing a bounded jump target into a cell keeps the program well formed
/// and keeps every cell a cell.
pub proof fn lemma_walk_update_cell(p: Seq<u64>, s: int, v: u64, i: int)
    requires
        0 <= i <= p.len(),
        wf_program_from(p, i),
        is_cell_pos(p, i, s),
        v <= p.len(),
    ensures
        wf_program_from(p.update(s, v), i),
        forall|s2: int| is_cell_pos(p, i, s2) ==> is_cell_pos(p.update(s, v), i, s2),
    decreases p.len() - i,
{
    lemma_cell_pos_gt(p, i, s);
    let p2 = p.update(s, v);
    if i < p.len() {
        assert(p2[i] == p[i]);
        if p[i] == 91 || p[i] == 93 {
            if s == i + 1 {
                lemma_walk_frame(p, p2, i + 2);
                assert(p2[i + 1] == v);
            } else {
                lemma_cell_pos_gt(p, i + 2, s);
                assert(p2[i + 1] == p[i + 1]);
                lemma_walk_update_cell(p, s, v, i + 2);
            }
            assert forall|s2: int| is_cell_pos(p, i, s2) implies is_cell_pos(p2, i, s2) by {
                if s2 != i + 1 {
                    assert(is_cell_pos(p, i + 2, s2));
                    if s == i + 1 {
                        lemma_walk_frame(p, p2, i + 2);
                    }
                }
            }
        } else {
            lemma_walk_update_cell(p, s, v, i + 1);
            assert forall|s2: int| is_cell_pos(p, i, s2) implies is_cell_pos(p2, i, s2) by {
                assert(is_cell_pos(p, i + 1, s2));
            }
        }
    }
}

/// Row-local well-formedness of a Processor row: the instruction columns
/// mirror the program, the memory value is a tape byte, its inverse column
/// is a true field inverse, and the dummy bit flags the halt/padding rows.
pub open spec fn wf_processor_row(r: ProcessorRow, program: Seq<u64>) -> bool {
    &&& in_field(r.cycle as int)
    &&& in_field(r.ip as int)
    &&& in_field(r.mp as int)
    &&& r.curr_instr == prog_at(program, r.ip as int)
    &&& r.next_instr == prog_at(program, r.ip as int + 1)
    &&& r.mem_val < 256
    &&& (r.mem_val == 0 ==> r.mem_val_inv == 0)
    &&& (r.mem_val != 0 ==> in_field(r.mem_val_inv as int) && fmuls(
        r.mem_val as int,
        r.mem_val_inv as int,
    ) == 1)
    &&& r.dummy == (if r.curr_instr == 0 { 1int } else { 0int })
}

/// The register transition between two consecutive Processor rows, given
/// the opcode of the earlier row.
pub open spec fn processor_step(c: ProcessorRow, n: ProcessorRow, program: Seq<u64>) -> bool {
    &&& n.cycle == c.cycle + 1
    &&& (c.curr_instr == 62 ==> n.ip == c.ip + 1 && n.mp == c.mp + 1)
    &&& (c.curr_instr == 60 ==> n.ip == c.ip + 1 && n.mp + 1 == c.mp)
    &&& (c.curr_instr == 43 ==> n.ip == c.ip + 1 && n.mp == c.mp && n.mem_val == (c.mem_val + 1)
        % 256)
    &&& (c.curr_instr == 45 ==> n.ip == c.ip + 1 && n.mp == c.mp && n.mem_val == (c.mem_val + 255)
        % 256)
    &&& (c.curr_instr == 46 ==> n.ip == c.ip + 1 && n.mp == c.mp && n.mem_val == c.mem_val)
    &&& (c.curr_instr == 44 ==> n.ip == c.ip + 1 && n.mp == c.mp)
    &&& (c.curr_instr == 91 ==> n.mp == c.mp && n.mem_val == c.mem_val && n.ip == (
        if c.mem_val == 0 {
            prog_at(program, c.ip as int + 1)
        } else {
            c.ip as int + 2
        }))
    &&& (c.curr_instr == 93 ==> n.mp == c.mp && n.mem_val == c.mem_val && n.ip == (
        if c.mem_val != 0 {
            prog_at(program, c.ip as int + 1)
        } else {
            c.ip as int + 2
        }))
}

/// A well-formed unpadded Processor trace: starts in the all-zero state,
/// counts cycles one by one, executes an opcode on every row but the last,
/// and ends in the halt state.
pub open spec fn wf_processor_trace(rows: Seq<ProcessorRow>, program: Seq<u64>) -> bool {
    &&& rows.len() >= 1
    &&& rows[0].cycle == 0
    &&& rows[0].ip == 0
    &&& rows[0].mp == 0
    &&& rows[0].mem_val == 0
    &&& rows[0].mem_val_inv == 0
    &&& (forall|i: int| 0 <= i < rows.len() ==> wf_processor_row(#[trigger] rows[i], program))
    &&& (forall|i: int| 0 <= i < rows.len() ==> (#[trigger] rows[i]).cycle == i)
    &&& (forall|i: int|
        0 <= i < rows.len() - 1 ==> is_opcode((#[trigger] rows[i]).curr_instr as int))
    &&& (forall|i: int|
        0 <= i < rows.len() - 1 ==> processor_step(
            #[trigger] rows[i],
            rows[i + 1],
            program,
        ))
    &&& rows[rows.len() - 1].curr_instr == 0
    &&& rows[rows.len() - 1].next_instr == 0
}

/// The Processor padding row for global row index `i`: the halt state with
/// only the cycle advancing.
pub open spec fn padded_processor_row(base: ProcessorRow, i: int) -> ProcessorRow {
    ProcessorRow {
        cycle: i as u64,
        ip: base.ip,
        curr_instr: 0,
        next_instr: 0,
        mp: base.mp,
        mem_val: base.mem_val,
        mem_val_inv: base.mem_val_inv,
        dummy: 1,
    }
}

/// A padded Processor table: a well-formed trace of `real_len` rows whose
/// last (halt) row is extended with padding rows.
pub open spec fn wf_processor_padded(
    rows: Seq<ProcessorRow>,
    program: Seq<u64>,
    real_len: int,
) -> bool {
    &&& 1 <= real_len <= rows.len()
    &&& wf_processor_trace(rows.subrange(0, real_len), program)
    &&& (forall|i: int|
        real_len <= i < rows.len() ==> #[trigger] rows[i] == padded_processor_row(
            rows[real_len - 1],
            i,
        ))
}

/// Lexicographic order on Memory rows by `(mp, cycle)`.
pub open spec fn memory_le(a: MemoryRow, b: MemoryRow) -> bool {
    a.mp < b.mp || (a.mp == b.mp && a.cycle <= b.cycle)
}

/// A Memory table sorted by `(mp, cycle)` in which the cycle advances by
/// exactly one wherever the memory pointer repeats: every clock gap within
/// one cell's history has been filled by a dummy row that freezes the
/// pointer and the value.
pub open spec fn wf_memory_rows(rows: Seq<MemoryRow>) -> bool {
    &&& (forall|i: int|
        0 <= i < rows.len() - 1 ==> memory_le(#[trigger] rows[i], rows[i + 1]))
    &&& (forall|i: int|
        0 <= i < rows.len() - 1 ==> ((#[trigger] rows[i]).mp == rows[i + 1].mp ==> rows[i
            + 1].cycle == rows[i].cycle + 1))
    &&& (forall|i: int|
        0 <= i < rows.len() ==> (#[trigger] rows[i]).dummy == 0 || rows[i].dummy == 1)
    &&& (forall|i: int|
        0 <= i < rows.len() - 1 ==> ((#[trigger] rows[i + 1]).dummy == 1 ==> rows[i + 1].mp
            == rows[i].mp && rows[i + 1].mem_val == rows[i].mem_val))
    &&& (forall|i: int| 0 <= i < rows.len() ==> in_field((#[trigger] rows[i]).cycle as int))
    &&& (forall|i: int| 0 <= i < rows.len() ==> in_field((#[trigger] rows[i]).mp as int))
    &&& (forall|i: int| 0 <= i < rows.len() ==> (#[trigger] rows[i]).mem_val < 256)
}

/// The projection of a Processor row into the Memory table.
pub open spec fn memory_of_processor(r: ProcessorRow) -> MemoryRow {
    MemoryRow { cycle: r.cycle, mp: r.mp, mem_val: r.mem_val, dummy: 0 }
}

/// The projection of a Processor row into the Instruction table.
pub open spec fn instruction_of_processor(r: ProcessorRow) -> InstructionRow {
    InstructionRow { ip: r.ip, curr_instr: r.curr_instr, next_instr: r.next_instr }
}

/// Row-local well-formedness of an Instruction row: it quotes the program.
pub open spec fn wf_instruction_row(r: InstructionRow, program: Seq<u64>) -> bool {
    &&& in_field(r.ip as int)
    &&& r.curr_instr == prog_at(program, r.ip as int)
    &&& r.next_instr == prog_at(program, r.ip as int + 1)
}

/// A well-formed Instruction table: the address starts at zero and advances
/// by zero or one, and rows that share an address are identical.
pub open spec fn wf_instruction_rows(rows: Seq<InstructionRow>, program: Seq<u64>) -> bool {
    &&& rows.len() >= 1
    &&& rows[0].ip == 0
    &&& (forall|i: int| 0 <= i < rows.len() ==> wf_instruction_row(#[trigger] rows[i], program))
    &&& (forall|i: int|
        0 <= i < rows.len() - 1 ==> (#[trigger] rows[i + 1]).ip == rows[i].ip || rows[i
            + 1].ip == rows[i].ip + 1)
}

/// A power of two.
pub open spec fn is_pow2(n: nat) -> bool
    decreases n,
{
    if n == 0 {
        false
    } else if n == 1 {
        true
    } else {
        n % 2 == 0 && is_pow2(n / 2)
    }
}

/// A product of powers of two is a power of two.
pub proof fn lemma_pow2_mul(a: nat, b: nat)
    requires
        is_pow2(a),
        is_pow2(b),
    ensures
        is_pow2(a * b),
    decreases b,
{
    if b == 1 {
        assert(a * 1 == a) by (nonlinear_arith);
    } else {
        lemma_pow2_mul(a, b / 2);
        assert(a * b == 2 * (a * (b / 2)) && (a * b) % 2 == 0) by (nonlinear_arith)
            requires b % 2 == 0 && b > 1 && a >= 1;
    }
}

/// Two powers of two within a factor of two of each other are ordered.
pub proof fn lemma_pow2_le(a: nat, b: nat)
    requires
        is_pow2(a),
        is_pow2(b),
        a < 2 * b,
    ensures
        a <= b,
    decreases b,
{
    if b == 1 {
    } else if a > 1 {
        lemma_pow2_le(a / 2, b / 2);
    }
}

/// Decides whether a table height is a power of two.
pub fn is_power_of_two(n: u64) -> (r: bool)
    ensures
        r == is_pow2(n as nat),
{
    if n == 0 {
        return false;
    }
    let mut m = n;
    while m > 1
        invariant
            1 <= m <= n,
            is_pow2(n as nat) == is_pow2(m as nat),
        decreases m,
    {
        if m % 2 != 0 {
            return false;
        }
        m = m / 2;
    }
    true
}

/// Rounds a table height up to the next power of two.
pub fn ceil_power_of_two(n: usize) -> (r: usize)
    requires
        n <= 0x4000_0000,
    ensures
        is_pow2(r as nat),
        r >= n,
        r <= 0x8000_0000,
        n <= 1 ==> r == 1,
        n > 1 ==> r < 2 * n,
{
    let mut r: usize = 1;
    while r < n
        invariant
            is_pow2(r as nat),
            n <= 0x4000_0000,
            r <= 0x8000_0000,
            n > 1 ==> r < 2 * n,
            n <= 1 ==> r == 1,
        decreases 2 * n - r,
    {
        r = r * 2;
    }
    r
}

/// Extends the Processor table to `n` rows with halt-state padding.
pub fn pad_processor_rows(rows: &mut Vec<ProcessorRow>, n: usize)
    requires
        old(rows).len() >= 1,
        old(rows).len() <= n,
        n < P,
    ensures
        final(rows)@.len() == n,
        final(rows)@.subrange(0, old(rows)@.len() as int) == old(rows)@,
        forall|i: int|
            old(rows)@.len() <= i < n ==> #[trigger] final(rows)@[i] == padded_processor_row(
                old(rows)@[old(rows)@.len() - 1],
                i,
            ),
{
    let ghost orig = rows@;
    let base = rows[rows.len() - 1];
    while rows.len() < n
        invariant
            orig.len() >= 1,
            orig.len() <= rows@.len() <= n,
            n < P,
            base == orig[orig.len() - 1],
            rows@.subrange(0, orig.len() as int) == orig,
            forall|i: int|
                orig.len() <= i < rows@.len() ==> #[trigger] rows@[i] == padded_processor_row(
                    orig[orig.len() - 1],
                    i,
                ),
        decreases n - rows.len(),
    {
        let i = rows.len();
        rows.push(
            ProcessorRow {
                cycle: i as u64,
                ip: base.ip,
                curr_instr: 0,
                next_instr: 0,
                mp: base.mp,
                mem_val: base.mem_val,
                mem_val_inv: base.mem_val_inv,
                dummy: 1,
            },
        );
        proof {
            assert(rows@.subrange(0, orig.len() as int) =~= orig);
        }
    }
}

/// Extends the Memory table to `n` rows; padding freezes the pointer and
/// value, advances the cycle, and raises the dummy flag.
pub fn pad_memory_rows(rows: &mut Vec<MemoryRow>, n: usize)
    requires
        old(rows).len() >= 1,
        old(rows).len() <= n,
        old(rows)@[old(rows)@.len() - 1].cycle + n < P,
    ensures
        final(rows)@.len() == n,
        final(rows)@.subrange(0, old(rows)@.len() as int) == old(rows)@,
        forall|i: int|
            old(rows)@.len() <= i < n ==> {
                let base = old(rows)@[old(rows)@.len() - 1];
                #[trigger] final(rows)@[i] == (MemoryRow {
                    cycle: (base.cycle + i + 1 - old(rows)@.len()) as u64,
                    mp: base.mp,
                    mem_val: base.mem_val,
                    dummy: 1,
                })
            },
{
    let ghost orig = rows@;
    let base = rows[rows.len() - 1];
    let mut next_cycle: u64 = base.cycle + 1;
    while rows.len() < n
        invariant
            orig.len() >= 1,
            orig.len() <= rows@.len() <= n,
            base == orig[orig.len() - 1],
            base.cycle + n < P,
            next_cycle == base.cycle + 1 + rows@.len() - orig.len(),
            rows@.subrange(0, orig.len() as int) == orig,
            forall|i: int|
                orig.len() <= i < rows@.len() ==> #[trigger] rows@[i] == (MemoryRow {
                    cycle: (base.cycle + i + 1 - orig.len()) as u64,
                    mp: base.mp,
                    mem_val: base.mem_val,
                    dummy: 1,
                }),
        decreases n - rows.len(),
    {
        rows.push(MemoryRow { cycle: next_cycle, mp: base.mp, mem_val: base.mem_val, dummy: 1 });
        next_cycle = next_cycle + 1;
        proof {
            assert(rows@.subrange(0, orig.len() as int) =~= orig);
        }
    }
}

/// Extends the Instruction table to `n` rows; padding holds the final
/// address with zero opcodes.
pub fn pad_instruction_rows(rows: &mut Vec<InstructionRow>, n: usize)
    requires
        old(rows).len() >= 1,
        old(rows).len() <= n,
    ensures
        final(rows)@.len() == n,
        final(rows)@.subrange(0, old(rows)@.len() as int) == old(rows)@,
        forall|i: int|
            old(rows)@.len() <= i < n ==> #[trigger] final(rows)@[i] == (InstructionRow {
                ip: old(rows)@[old(rows)@.len() - 1].ip,
                curr_instr: 0,
                next_instr: 0,
            }),
{
    let ghost orig = rows@;
    let base = rows[rows.len() - 1];
    while rows.len() < n
        invariant
            orig.len() >= 1,
            orig.len() <= rows@.len() <= n,
            base == orig[orig.len() - 1],
            rows@.subrange(0, orig.len() as int) == orig,
            forall|i: int|
                orig.len() <= i < rows@.len() ==> #[trigger] rows@[i] == (InstructionRow {
                    ip: orig[orig.len() - 1].ip,
                    curr_instr: 0,
                    next_instr: 0,
                }),
        decreases n - rows.len(),
    {
        rows.push(InstructionRow { ip: base.ip, curr_instr: 0, next_instr: 0 });
        proof {
            assert(rows@.subrange(0, orig.len() as int) =~= orig);
        }
    }
}

/// Extends a single-column table to `n` rows with zero values.
pub fn pad_value_rows(rows: &mut Vec<u64>, n: usize)
    requires
        old(rows).len() <= n,
    ensures
        final(rows)@.len() == n,
        final(rows)@.subrange(0, old(rows)@.len() as int) == old(rows)@,
        forall|i: int| old(rows)@.len() <= i < n ==> #[trigger] final(rows)@[i] == 0,
{
    let ghost orig = rows@;
    while rows.len() < n
        invariant
            orig.len() <= rows@.len() <= n,
            rows@.subrange(0, orig.len() as int) == orig,
            forall|i: int| orig.len() <= i < rows@.len() ==> #[trigger] rows@[i] == 0,
        decreases n - rows.len(),
    {
        rows.push(0);
        proof {
            assert(rows@.subrange(0, orig.len() as int) =~= orig);
        }
    }
}

} // verus!
