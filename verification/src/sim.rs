//! The virtual-machine simulator.
//!
//! `run_program` executes a Program against an input stream and emits the
//! raw Processor rows together with the Input and Output tables.  Its
//! postcondition is the well-formedness predicate that the AIR constraints
//! are later proved to vanish on.

use vstd::prelude::*;
use crate::field::byte_inv;
use crate::opcode::is_opcode;
use crate::trace::{ProcessorRow, MemoryRow, InstructionRow, prog_at, wf_program,
    wf_processor_row, wf_processor_trace, processor_step, memory_of_processor,
    instruction_of_processor, wf_memory_rows};
use crate::vm::VmError;
use crate::vm::lemma_program_cells;

verus! {

/// The largest number of cycles the simulator will execute.
pub const CYCLE_LIMIT: u64 = 0x0100_0000;

/// The Output table determined by a Processor trace: the memory value of
/// every row that executes a write.
pub open spec fn outputs_of(rows: Seq<ProcessorRow>) -> Seq<u64>
    decreases rows.len(),
{
    if rows.len() == 0 {
        Seq::empty()
    } else {
        let rest = outputs_of(rows.drop_last());
        if rows.last().curr_instr == 46 {
            rest.push(rows.last().mem_val)
        } else {
            rest
        }
    }
}

/// Appending a row extends the Output table exactly when the row writes.
pub proof fn lemma_outputs_push(rows: Seq<ProcessorRow>, r: ProcessorRow)
    ensures
        outputs_of(rows.push(r)) == (if r.curr_instr == 46 {
            outputs_of(rows).push(r.mem_val)
        } else {
            outputs_of(rows)
        }),
{
    assert(rows.push(r).drop_last() =~= rows);
    assert(rows.push(r).last() == r);
}

/// The register snapshot that the next emitted row will hold, with the
/// columns that the step relation does not read left zero.
pub open spec fn state_row(cycle: u64, ip: u64, mp: u64, mem_val: u64) -> ProcessorRow {
    ProcessorRow {
        cycle,
        ip,
        curr_instr: 0,
        next_instr: 0,
        mp,
        mem_val,
        mem_val_inv: 0,
        dummy: 0,
    }
}

/// Runs a Program against an input stream.  Returns the Processor rows,
/// the Input table, the Output table, and the output bytes.
#[verifier::rlimit(100)]
#[verifier::spinoff_prover]
pub fn run_program(program: &Vec<u64>, input: &Vec<u8>) -> (r: Result<
    (Vec<ProcessorRow>, Vec<u64>, Vec<u64>, Vec<u8>),
    VmError,
>)
    requires
        wf_program(program@),
    ensures
        r is Ok ==> {
            let (rows, ins, outs, outb) = r->Ok_0;
            &&& wf_processor_trace(rows@, program@)
            &&& rows@.len() <= CYCLE_LIMIT + 1
            &&& (forall|i: int| 0 <= i < rows@.len() ==> (#[trigger] rows@[i]).mp <= CYCLE_LIMIT)
            &&& ins@.len() <= CYCLE_LIMIT
            &&& outs@.len() <= CYCLE_LIMIT
            &&& ins@.len() <= input@.len()
            &&& ins@ == input@.subrange(0, ins@.len() as int).map_values(|b: u8| b as u64)
            &&& outs@ == outputs_of(rows@)
            &&& outb@.map_values(|b: u8| b as u64) == outs@
        },
{
    let n = program.len();
    proof {
        lemma_program_cells(program@, 0);
    }
    let mut rows: Vec<ProcessorRow> = Vec::new();
    let mut input_rows: Vec<u64> = Vec::new();
    let mut output_rows: Vec<u64> = Vec::new();
    let mut out_bytes: Vec<u8> = Vec::new();
    let mut tape: Vec<u8> = Vec::new();
    tape.push(0);
    let mut cycle: u64 = 0;
    let mut ip: u64 = 0;
    let mut mp: usize = 0;
    let mut mem_val: u64 = 0;
    let mut in_pos: usize = 0;
    while ip < n as u64
        invariant
            n == program@.len(),
            n < 0x1000_0000,
            wf_program(program@),
            forall|j: int| 0 <= j < program@.len() ==> #[trigger] program@[j] <= 0x1000_0000,
            mp < tape@.len(),
            tape@.len() <= cycle + 1,
            mp <= cycle,
            in_pos <= cycle,
            output_rows@.len() <= cycle,
            forall|i: int| 0 <= i < rows@.len() ==> (#[trigger] rows@[i]).mp <= i,
            mem_val == tape@[mp as int],
            mem_val < 256,
            ip <= 0x1000_0002,
            cycle <= CYCLE_LIMIT,
            rows@.len() == cycle,
            rows@.len() == 0 ==> ip == 0 && mp == 0 && mem_val == 0,
            rows@.len() > 0 ==> rows@[0].cycle == 0 && rows@[0].ip == 0 && rows@[0].mp == 0
                && rows@[0].mem_val == 0 && rows@[0].mem_val_inv == 0,
            forall|i: int|
                0 <= i < rows@.len() ==> wf_processor_row(#[trigger] rows@[i], program@),
            forall|i: int| 0 <= i < rows@.len() ==> (#[trigger] rows@[i]).cycle == i,
            forall|i: int|
                0 <= i < rows@.len() ==> is_opcode((#[trigger] rows@[i]).curr_instr as int),
            forall|i: int|
                0 <= i < rows@.len() - 1 ==> processor_step(
                    #[trigger] rows@[i],
                    rows@[i + 1],
                    program@,
                ),
            rows@.len() > 0 ==> processor_step(
                rows@[rows@.len() - 1],
                state_row(cycle, ip, mp as u64, mem_val),
                program@,
            ),
            in_pos == input_rows@.len(),
            in_pos <= input@.len(),
            input_rows@ == input@.subrange(0, in_pos as int).map_values(|b: u8| b as u64),
            output_rows@ == outputs_of(rows@),
            out_bytes@.map_values(|b: u8| b as u64) == output_rows@,
        decreases CYCLE_LIMIT - cycle,
    {
        if cycle >= CYCLE_LIMIT {
            return Err(VmError::ResourceExhausted);
        }
        let curr = program[ip as usize];
        if !(curr == 62 || curr == 60 || curr == 43 || curr == 45 || curr == 46 || curr == 44
            || curr == 91 || curr == 93) {
            return Err(VmError::UnknownOpcode);
        }
        let next = if ip as usize + 1 < n {
            program[ip as usize + 1]
        } else {
            0
        };
        let mvi = byte_inv(mem_val);
        let dummy: u64 = if curr == 0 {
            1
        } else {
            0
        };
        let row = ProcessorRow {
            cycle,
            ip,
            curr_instr: curr,
            next_instr: next,
            mp: mp as u64,
            mem_val,
            mem_val_inv: mvi,
            dummy,
        };
        let ghost prev_rows = rows@;
        rows.push(row);
        proof {
            lemma_outputs_push(prev_rows, row);
            assert(wf_processor_row(row, program@));
        }
        if curr == 62 {
            ip = ip + 1;
            mp = mp + 1;
            if mp == tape.len() {
                tape.push(0);
            }
        } else if curr == 60 {
            if mp == 0 {
                return Err(VmError::PointerUnderflow);
            }
            mp = mp - 1;
            ip = ip + 1;
        } else if curr == 43 {
            let v = tape[mp];
            let nv: u8 = if v == 255 {
                0
            } else {
                v + 1
            };
            tape.set(mp, nv);
            ip = ip + 1;
            proof {
                assert(nv == (row.mem_val + 1) % 256);
            }
        } else if curr == 45 {
            let v = tape[mp];
            let nv: u8 = if v == 0 {
                255
            } else {
                v - 1
            };
            tape.set(mp, nv);
            ip = ip + 1;
            proof {
                assert(nv == (row.mem_val + 255) % 256);
            }
        } else if curr == 46 {
            out_bytes.push(tape[mp]);
            output_rows.push(mem_val);
            ip = ip + 1;
            proof {
                assert(out_bytes@.map_values(|b: u8| b as u64) =~= output_rows@);
            }
        } else if curr == 44 {
            if in_pos >= input.len() {
                return Err(VmError::EndOfInput);
            }
            let byte = input[in_pos];
            in_pos = in_pos + 1;
            tape.set(mp, byte);
            input_rows.push(byte as u64);
            ip = ip + 1;
            proof {
                assert(input_rows@ =~= input@.subrange(0, in_pos as int).map_values(
                    |b: u8| b as u64,
                ));
            }
        } else if curr == 91 {
            let t = if ip as usize + 1 < n {
                program[ip as usize + 1]
            } else {
                0
            };
            ip = if mem_val == 0 {
                t
            } else {
                ip + 2
            };
        } else {
            let t = if ip as usize + 1 < n {
                program[ip as usize + 1]
            } else {
                0
            };
            ip = if mem_val != 0 {
                t
            } else {
                ip + 2
            };
        }
        cycle = cycle + 1;
        mem_val = tape[mp] as u64;
        proof {
            assert(processor_step(row, state_row(cycle, ip, mp as u64, mem_val), program@));
        }
    }
    let mvi = byte_inv(mem_val);
    let halt = ProcessorRow {
        cycle,
        ip,
        curr_instr: 0,
        next_instr: 0,
        mp: mp as u64,
        mem_val,
        mem_val_inv: mvi,
        dummy: 1,
    };
    let ghost prev_rows = rows@;
    rows.push(halt);
    proof {
        lemma_outputs_push(prev_rows, halt);
        assert(wf_processor_row(halt, program@));
        assert(wf_processor_trace(rows@, program@));
    }
    Ok((rows, input_rows, output_rows, out_bytes))
}

/// The Memory-table projection of the non-halt Processor rows, in cycle
/// order: `(Cycle, Mp, MemVal)` of every row that executes an opcode.
pub open spec fn memory_projection(rows: Seq<ProcessorRow>) -> Seq<MemoryRow>
    decreases rows.len(),
{
    if rows.len() == 0 {
        Seq::empty()
    } else {
        let rest = memory_projection(rows.drop_last());
        if rows.last().curr_instr != 0 {
            rest.push(memory_of_processor(rows.last()))
        } else {
            rest
        }
    }
}

/// Appending a row extends the projection exactly when the row is real.
pub proof fn lemma_memory_projection_push(rows: Seq<ProcessorRow>, r: ProcessorRow)
    ensures
        memory_projection(rows.push(r)) == (if r.curr_instr != 0 {
            memory_projection(rows).push(memory_of_processor(r))
        } else {
            memory_projection(rows)
        }),
{
    assert(rows.push(r).drop_last() =~= rows);
    assert(rows.push(r).last() == r);
}

/// The rows of a Memory table that the permutation argument counts: those
/// whose dummy flag is clear, in order.
pub open spec fn real_memory_rows(s: Seq<MemoryRow>) -> Seq<MemoryRow>
    decreases s.len(),
{
    if s.len() == 0 {
        Seq::empty()
    } else {
        let rest = real_memory_rows(s.drop_last());
        if s.last().dummy == 0 {
            rest.push(s.last())
        } else {
            rest
        }
    }
}

/// The empty table has no real rows.
pub proof fn lemma_real_memory_empty()
    ensures
        real_memory_rows(Seq::<MemoryRow>::empty()) == Seq::<MemoryRow>::empty(),
{
}

/// Appending a row extends the real rows exactly when it is not a dummy.
pub proof fn lemma_real_memory_push(s: Seq<MemoryRow>, r: MemoryRow)
    ensures
        real_memory_rows(s.push(r)) == (if r.dummy == 0 {
            real_memory_rows(s).push(r)
        } else {
            real_memory_rows(s)
        }),
{
    assert(s.push(r).drop_last() =~= s);
    assert(s.push(r).last() == r);
}

/// Rebuilds the Memory table from the Processor trace: project every
/// non-halt row, sort by `(mp, cycle)`, and fill each clock gap within one
/// cell's history with dummy rows.  The real rows of the result are a
/// permutation of the projection.
#[verifier::rlimit(100)]
pub fn derive_memory_rows(proc_rows: &Vec<ProcessorRow>) -> (r: Result<Vec<MemoryRow>, VmError>)
    requires
        proc_rows@.len() <= 0x0200_0000,
        forall|i: int| 0 <= i < proc_rows@.len() ==> (#[trigger] proc_rows@[i]).cycle == i,
        forall|i: int| 0 <= i < proc_rows@.len() ==> (#[trigger] proc_rows@[i]).mp < 0x2000_0000,
        forall|i: int| 0 <= i < proc_rows@.len() ==> (#[trigger] proc_rows@[i]).mem_val < 256,
    ensures
        r is Ok ==> wf_memory_rows(r->Ok_0@),
        r is Ok ==> real_memory_rows(r->Ok_0@).to_multiset() == memory_projection(
            proc_rows@,
        ).to_multiset(),
        r is Ok ==> 1 <= r->Ok_0@.len() <= 0x4000_0000,
        r is Ok ==> r->Ok_0@[r->Ok_0@.len() - 1].cycle < 0x4000_0000,
{
    let mut projected: Vec<MemoryRow> = Vec::new();
    let mut k: usize = 0;
    while k < proc_rows.len()
        invariant
            0 <= k <= proc_rows@.len(),
            proc_rows@.len() <= 0x0200_0000,
            forall|i: int| 0 <= i < proc_rows@.len() ==> (#[trigger] proc_rows@[i]).cycle == i,
            forall|i: int| 0 <= i < proc_rows@.len() ==> (#[trigger] proc_rows@[i]).mp < 0x2000_0000,
            forall|i: int| 0 <= i < proc_rows@.len() ==> (#[trigger] proc_rows@[i]).mem_val < 256,
            projected@ == memory_projection(proc_rows@.subrange(0, k as int)),
            projected@.len() <= k,
            forall|i: int|
                0 <= i < projected@.len() ==> (#[trigger] projected@[i]).dummy == 0
                    && projected@[i].cycle < 0x2000_0000 && projected@[i].mp < 0x2000_0000
                    && projected@[i].mem_val < 256,
        decreases proc_rows@.len() - k,
    {
        let row = proc_rows[k];
        let ghost prefix = proc_rows@.subrange(0, k as int);
        proof {
            assert(proc_rows@.subrange(0, k + 1 as int) =~= prefix.push(row));
            lemma_memory_projection_push(prefix, row);
        }
        if row.curr_instr != 0 {
            projected.push(
                MemoryRow { cycle: row.cycle, mp: row.mp, mem_val: row.mem_val, dummy: 0 },
            );
        }
        k = k + 1;
    }
    proof {
        assert(proc_rows@.subrange(0, proc_rows@.len() as int) =~= proc_rows@);
    }
    let ghost projection = projected@;
    crate::sort::sort_memory_rows(&mut projected);
    proof {
        assert forall|j: int| 0 <= j < projected@.len() implies (#[trigger] projected@[j]).dummy
            == 0 && projected@[j].cycle < 0x2000_0000 && projected@[j].mp < 0x2000_0000
            && projected@[j].mem_val < 256 by {
            vstd::seq_lib::to_multiset_contains(projected@, projected@[j]);
            vstd::seq_lib::to_multiset_contains(projection, projected@[j]);
            assert(projected@.contains(projected@[j]));
            assert(projection.contains(projected@[j]));
        }
    }
    if projected.len() == 0 {
        let mut out: Vec<MemoryRow> = Vec::new();
        out.push(MemoryRow { cycle: 0, mp: 0, mem_val: 0, dummy: 1 });
        proof {
            assert(out@ =~= Seq::<MemoryRow>::empty().push(
                MemoryRow { cycle: 0, mp: 0, mem_val: 0, dummy: 1 },
            ));
            lemma_real_memory_empty();
            lemma_real_memory_push(
                Seq::<MemoryRow>::empty(),
                MemoryRow { cycle: 0, mp: 0, mem_val: 0, dummy: 1 },
            );
            assert(projection.len() == 0);
            assert(real_memory_rows(out@) =~= projection);
        }
        return Ok(out);
    }
    let mut out: Vec<MemoryRow> = Vec::new();
    out.push(projected[0]);
    let mut i: usize = 1;
    proof {
        assert(out@ =~= Seq::<MemoryRow>::empty().push(projected@[0]));
        lemma_real_memory_empty();
        lemma_real_memory_push(Seq::<MemoryRow>::empty(), projected@[0]);
        assert(projected@[0].dummy == 0);
        assert(projected@.subrange(0, 1) =~= Seq::<MemoryRow>::empty().push(projected@[0]));
        assert(real_memory_rows(out@) =~= projected@.subrange(0, 1));
    }
    while i < projected.len()
        invariant
            1 <= i <= projected@.len(),
            projected@.len() <= 0x0200_0000,
            crate::sort::sorted_memory(projected@),
            forall|j: int| 0 <= j < projected@.len() ==> (#[trigger] projected@[j]).dummy == 0
                && projected@[j].cycle < 0x2000_0000 && projected@[j].mp < 0x2000_0000
                && projected@[j].mem_val < 256,
            out@.len() >= 1,
            out@.len() <= 0x4000_0000,
            wf_memory_rows(out@),
            real_memory_rows(out@) == projected@.subrange(0, i as int),
            out@[out@.len() - 1].mp == projected@[i - 1].mp,
            out@[out@.len() - 1].mem_val == projected@[i - 1].mem_val,
            out@[out@.len() - 1].cycle < 0x2000_0000,
            projected@[i - 1].cycle <= out@[out@.len() - 1].cycle,
        decreases projected@.len() - i,
    {
        let target = projected[i];
        let last0 = out[out.len() - 1];
        if last0.mp == target.mp && last0.cycle >= target.cycle {
            // a duplicated clock value; cannot arise from a simulator trace
            return Err(VmError::ResourceExhausted);
        }
        while out[out.len() - 1].mp == target.mp && out[out.len() - 1].cycle + 1 < target.cycle
            invariant
                projected@.len() <= 0x0200_0000,
                1 <= i < projected@.len(),
                target == projected@[i as int],
                target.cycle < 0x2000_0000,
                target.mp < 0x2000_0000,
                out@.len() >= 1,
                out@.len() <= 0x4000_0000,
                wf_memory_rows(out@),
                real_memory_rows(out@) == projected@.subrange(0, i as int),
                out@[out@.len() - 1].mp == target.mp ==> out@[out@.len() - 1].cycle
                    < target.cycle,
                out@[out@.len() - 1].mp == projected@[i - 1].mp,
                out@[out@.len() - 1].mem_val == projected@[i - 1].mem_val,
                out@[out@.len() - 1].cycle < 0x2000_0000,
            decreases target.cycle - out@[out@.len() - 1].cycle,
        {
            if out.len() >= 0x3000_0000 {
                return Err(VmError::ResourceExhausted);
            }
            let last = out[out.len() - 1];
            let ghost prev_out = out@;
            out.push(
                MemoryRow {
                    cycle: last.cycle + 1,
                    mp: last.mp,
                    mem_val: last.mem_val,
                    dummy: 1,
                },
            );
            proof {
                assert(out@ =~= prev_out.push(
                    MemoryRow {
                        cycle: (last.cycle + 1) as u64,
                        mp: last.mp,
                        mem_val: last.mem_val,
                        dummy: 1,
                    },
                ));
                lemma_real_memory_push(
                    prev_out,
                    MemoryRow {
                        cycle: (last.cycle + 1) as u64,
                        mp: last.mp,
                        mem_val: last.mem_val,
                        dummy: 1,
                    },
                );
                assert(real_memory_rows(out@) =~= real_memory_rows(prev_out));
                assert(out@[out@.len() - 2] == last);
                assert(out@[out@.len() - 1] == (MemoryRow {
                    cycle: (last.cycle + 1) as u64,
                    mp: last.mp,
                    mem_val: last.mem_val,
                    dummy: 1,
                }));
                assert(wf_memory_rows(out@));
            }
        }
        if out.len() >= 0x3000_0000 {
            return Err(VmError::ResourceExhausted);
        }
        let ghost prev_out = out@;
        out.push(target);
        i = i + 1;
        proof {
            assert(out@ =~= prev_out.push(target));
            lemma_real_memory_push(prev_out, target);
            assert(target.dummy == 0);
            assert(real_memory_rows(out@) =~= real_memory_rows(prev_out).push(target));
            assert(projected@.subrange(0, i as int) =~= projected@.subrange(
                0,
                i - 1 as int,
            ).push(target));
        }
    }
    proof {
        assert(projected@.subrange(0, projected@.len() as int) =~= projected@);
    }
    Ok(out)
}

/// The Instruction-table rows that list the program itself: one row per
/// cell, quoting the cell and its successor.
pub open spec fn program_listing(p: Seq<u64>) -> Seq<InstructionRow> {
    Seq::new(
        p.len(),
        |i: int| InstructionRow { ip: i as u64, curr_instr: p[i], next_instr: prog_at(p, i + 1) as u64 },
    )
}

/// The Instruction-table projection of the Processor rows.
pub open spec fn instruction_projection(rows: Seq<ProcessorRow>) -> Seq<InstructionRow> {
    Seq::new(rows.len(), |i: int| instruction_of_processor(rows[i]))
}

/// Builds the Instruction table: the program listing joined with the
/// per-cycle rows of the Processor trace, sorted by address.
pub fn derive_instruction_rows(program: &Vec<u64>, proc_rows: &Vec<ProcessorRow>) -> (r: Vec<
    InstructionRow,
>)
    requires
        program@.len() < 0x1000_0000,
        proc_rows@.len() <= 0x0200_0000,
    ensures
        r@.to_multiset() == (program_listing(program@) + instruction_projection(
            proc_rows@,
        )).to_multiset(),
        crate::sort::sorted_instruction(r@),
        r@.len() == program@.len() + proc_rows@.len(),
{
    let mut out: Vec<InstructionRow> = Vec::new();
    let n = program.len();
    let mut i: usize = 0;
    while i < n
        invariant
            0 <= i <= n,
            n == program@.len() < 0x1000_0000,
            out@.len() == i,
            forall|j: int| 0 <= j < i ==> #[trigger] out@[j] == program_listing(program@)[j],
        decreases n - i,
    {
        let next = if i + 1 < n {
            program[i + 1]
        } else {
            0
        };
        out.push(InstructionRow { ip: i as u64, curr_instr: program[i], next_instr: next });
        i = i + 1;
    }
    let mut k: usize = 0;
    while k < proc_rows.len()
        invariant
            0 <= k <= proc_rows@.len(),
            n == program@.len(),
            out@.len() == n + k,
            forall|j: int| 0 <= j < n ==> #[trigger] out@[j] == program_listing(program@)[j],
            forall|j: int|
                n <= j < out@.len() ==> #[trigger] out@[j] == instruction_projection(
                    proc_rows@,
                )[j - n],
        decreases proc_rows@.len() - k,
    {
        let row = proc_rows[k];
        out.push(
            InstructionRow { ip: row.ip, curr_instr: row.curr_instr, next_instr: row.next_instr },
        );
        k = k + 1;
    }
    proof {
        assert(out@ =~= program_listing(program@) + instruction_projection(proc_rows@));
    }
    crate::sort::sort_instruction_rows(&mut out);
    out
}


/// Memory-table padding preserves the table's well-formedness.
pub proof fn lemma_padded_memory_wf(pre: Seq<MemoryRow>, m: Seq<MemoryRow>)
    requires
        wf_memory_rows(pre),
        pre.len() >= 1,
        pre[pre.len() - 1].cycle < 0x4000_0000,
        pre.len() <= m.len() <= 0x8000_0000,
        forall|i: int| 0 <= i < pre.len() ==> #[trigger] m[i] == pre[i],
        forall|i: int|
            pre.len() <= i < m.len() ==> #[trigger] m[i] == (MemoryRow {
                cycle: (pre[pre.len() - 1].cycle + i + 1 - pre.len()) as u64,
                mp: pre[pre.len() - 1].mp,
                mem_val: pre[pre.len() - 1].mem_val,
                dummy: 1,
            }),
    ensures
        wf_memory_rows(m),
{
    let rl = pre.len() as int;
    let base = pre[rl - 1];
    assert forall|i: int| 0 <= i < m.len() - 1 implies crate::trace::memory_le(
        #[trigger] m[i],
        m[i + 1],
    ) && (m[i].mp == m[i + 1].mp ==> m[i + 1].cycle == m[i].cycle + 1) && (m[i + 1].dummy == 1
        ==> m[i + 1].mp == m[i].mp && m[i + 1].mem_val == m[i].mem_val) by {
        if i < rl - 1 {
            assert(m[i] == pre[i]);
            assert(m[i + 1] == pre[i + 1]);
        } else if i == rl - 1 {
            assert(m[i] == base);
        }
    }
    assert forall|i: int| 0 <= i < m.len() implies ((#[trigger] m[i]).dummy == 0 || m[i].dummy
        == 1) && crate::field::in_field(m[i].cycle as int) && crate::field::in_field(
        m[i].mp as int,
    ) && m[i].mem_val < 256 by {
        if i < rl {
            assert(m[i] == pre[i]);
        }
    }
}

/// Instruction-table padding preserves sortedness by address.
pub proof fn lemma_padded_instruction_sorted(pre: Seq<InstructionRow>, s: Seq<InstructionRow>)
    requires
        crate::sort::sorted_instruction(pre),
        pre.len() >= 1,
        pre.len() <= s.len(),
        forall|i: int| 0 <= i < pre.len() ==> #[trigger] s[i] == pre[i],
        forall|i: int|
            pre.len() <= i < s.len() ==> #[trigger] s[i] == (InstructionRow {
                ip: pre[pre.len() - 1].ip,
                curr_instr: 0,
                next_instr: 0,
            }),
    ensures
        crate::sort::sorted_instruction(s),
{
    let il = pre.len() as int;
    assert forall|i: int, j: int| 0 <= i < j < s.len() implies (#[trigger] s[i]).ip
        <= (#[trigger] s[j]).ip by {
        if j < il {
            assert(s[i] == pre[i]);
            assert(s[j] == pre[j]);
        } else if i < il {
            assert(s[i] == pre[i]);
            assert(s[j].ip == pre[il - 1].ip);
            if i < il - 1 {
                assert(pre[i].ip <= pre[il - 1].ip);
            }
        } else {
            assert(s[i].ip == pre[il - 1].ip);
            assert(s[j].ip == pre[il - 1].ip);
        }
    }
}

/// The five padded base-column tables of one execution, together with the
/// number of real (pre-padding) rows of each and the shared padded height.
#[derive(Debug)]
pub struct BrainfuckTrace {
    pub processor: Vec<ProcessorRow>,
    pub memory: Vec<MemoryRow>,
    pub instruction: Vec<InstructionRow>,
    pub input: Vec<u64>,
    pub output: Vec<u64>,
    pub real_processor_len: usize,
    pub real_memory_len: usize,
    pub real_instruction_len: usize,
    pub real_input_len: usize,
    pub real_output_len: usize,
    pub height: usize,
}

/// Well-formedness of a padded trace against the program and the input
/// stream: every table has the shared power-of-two height, the real prefix
/// of each table is the simulator's output, and the padding rows follow
/// each table's padding rule.
pub open spec fn wf_trace(t: BrainfuckTrace, program: Seq<u64>, input_bytes: Seq<u8>) -> bool {
    &&& crate::trace::is_pow2(t.height as nat)
    &&& t.height <= 0x8000_0000
    &&& t.processor@.len() == t.height
    &&& t.memory@.len() == t.height
    &&& t.instruction@.len() == t.height
    &&& t.input@.len() == t.height
    &&& t.output@.len() == t.height
    &&& 1 <= t.real_processor_len <= t.height
    &&& 1 <= t.real_memory_len <= t.height
    &&& 1 <= t.real_instruction_len <= t.height
    &&& t.real_input_len <= t.height
    &&& t.real_output_len <= t.height
    &&& (t.height == 1 || t.height < 2 * t.real_processor_len || t.height < 2
        * t.real_memory_len || t.height < 2 * t.real_instruction_len || t.height < 2
        * t.real_input_len || t.height < 2 * t.real_output_len)
    &&& crate::trace::wf_processor_padded(t.processor@, program, t.real_processor_len as int)
    &&& wf_memory_rows(t.memory@)
    &&& real_memory_rows(t.memory@.subrange(0, t.real_memory_len as int)).to_multiset()
        == memory_projection(
        t.processor@.subrange(0, t.real_processor_len as int),
    ).to_multiset()
    &&& (forall|i: int|
        t.real_memory_len <= i < t.height ==> (#[trigger] t.memory@[i]).dummy == 1)
    &&& crate::sort::sorted_instruction(t.instruction@)
    &&& t.instruction@.subrange(0, t.real_instruction_len as int).to_multiset()
        == (program_listing(program) + instruction_projection(
        t.processor@.subrange(0, t.real_processor_len as int),
    )).to_multiset()
    &&& (forall|i: int|
        t.real_instruction_len <= i < t.height ==> #[trigger] t.instruction@[i]
            == (InstructionRow {
            ip: t.instruction@[t.real_instruction_len - 1].ip,
            curr_instr: 0,
            next_instr: 0,
        }))
    &&& t.real_input_len <= input_bytes.len()
    &&& t.input@.subrange(0, t.real_input_len as int) == input_bytes.subrange(
        0,
        t.real_input_len as int,
    ).map_values(|b: u8| b as u64)
    &&& (forall|i: int| t.real_input_len <= i < t.height ==> #[trigger] t.input@[i] == 0)
    &&& t.output@.subrange(0, t.real_output_len as int) == outputs_of(
        t.processor@.subrange(0, t.real_processor_len as int),
    )
    &&& (forall|i: int| t.real_output_len <= i < t.height ==> #[trigger] t.output@[i] == 0)
}

/// Simulates a Program against an input stream and assembles the padded
/// execution trace.  The second result is the byte stream the program
/// wrote.
#[verifier::rlimit(100)]
#[verifier::spinoff_prover]
pub fn simulate(program: &Vec<u64>, input: &Vec<u8>) -> (r: Result<(BrainfuckTrace, Vec<u8>), VmError>)
    requires
        program@.len() < 0x1000_0000,
    ensures
        r is Ok ==> wf_trace(r->Ok_0.0, program@, input@),
        !wf_program(program@) ==> r == Err::<(BrainfuckTrace, Vec<u8>), VmError>(
            VmError::UnknownOpcode,
        ),
        r is Ok ==> r->Ok_0.1@.map_values(|b: u8| b as u64) == r->Ok_0.0.output@.subrange(
            0,
            r->Ok_0.0.real_output_len as int,
        ),
{
    if !crate::vm::check_program(program) {
        return Err(VmError::UnknownOpcode);
    }
    let (rows, ins, outs, outb) = match run_program(program, input) {
        Ok(x) => x,
        Err(e) => {
            return Err(e);
        },
    };
    let memory = match derive_memory_rows(&rows) {
        Ok(x) => x,
        Err(e) => {
            return Err(e);
        },
    };
    let instruction = derive_instruction_rows(program, &rows);
    let mut n = rows.len();
    if memory.len() > n {
        n = memory.len();
    }
    if instruction.len() > n {
        n = instruction.len();
    }
    if ins.len() > n {
        n = ins.len();
    }
    if outs.len() > n {
        n = outs.len();
    }
    let height = crate::trace::ceil_power_of_two(n);
    let real_processor_len = rows.len();
    let real_memory_len = memory.len();
    let real_instruction_len = instruction.len();
    let real_input_len = ins.len();
    let real_output_len = outs.len();
    let mut processor = rows;
    let mut memory = memory;
    let mut instruction = instruction;
    let mut input_col = ins;
    let mut output_col = outs;
    let ghost pre_proc = processor@;
    let ghost pre_mem = memory@;
    let ghost pre_instr = instruction@;
    crate::trace::pad_processor_rows(&mut processor, height);
    crate::trace::pad_memory_rows(&mut memory, height);
    crate::trace::pad_instruction_rows(&mut instruction, height);
    crate::trace::pad_value_rows(&mut input_col, height);
    crate::trace::pad_value_rows(&mut output_col, height);
    let t = BrainfuckTrace {
        processor,
        memory,
        instruction,
        input: input_col,
        output: output_col,
        real_processor_len,
        real_memory_len,
        real_instruction_len,
        real_input_len,
        real_output_len,
        height,
    };
    proof {
        assert(t.processor@.subrange(0, real_processor_len as int) =~= pre_proc);
        assert(t.memory@.subrange(0, real_memory_len as int) =~= pre_mem);
        assert(t.instruction@.subrange(0, real_instruction_len as int) =~= pre_instr);
        assert(crate::trace::wf_processor_padded(
            t.processor@,
            program@,
            real_processor_len as int,
        ));
        let m = t.memory@;
        let rl = real_memory_len as int;
        assert(forall|i: int| 0 <= i < rl ==> #[trigger] m[i] == pre_mem[i]);
        lemma_padded_memory_wf(pre_mem, m);
        let s = t.instruction@;
        let il = real_instruction_len as int;
        assert(forall|i: int| 0 <= i < il ==> #[trigger] s[i] == pre_instr[i]);
        lemma_padded_instruction_sorted(pre_instr, s);
        assert(forall|i: int|
            il <= i < s.len() ==> #[trigger] s[i] == (InstructionRow {
                ip: pre_instr[il - 1].ip,
                curr_instr: 0,
                next_instr: 0,
            }));
        assert(s[il - 1] == pre_instr[il - 1]);
        assert(t.input@.subrange(0, real_input_len as int) =~= input_col@.subrange(
            0,
            real_input_len as int,
        ));
        assert(t.output@.subrange(0, real_output_len as int) =~= output_col@.subrange(
            0,
            real_output_len as int,
        ));
    }
    Ok((t, outb))
}

} // verus!
