//! The Brainfuck bytecode compiler.
//!
//! `compile` scans source bytes, ignores everything that is not an opcode
//! glyph, and emits the Program: opcodes interleaved with a resolved jump
//! target directly after each bracket.  It fails with `UnmatchedLoop`
//! exactly when the source's brackets do not balance.

use vstd::prelude::*;
use crate::opcode::{OpCode, opcode_of_byte, opcode_value, opcode_vals, is_opcode};
use crate::trace::{wf_program, wf_program_from, is_cell_pos, lemma_cell_pos_gt,
    lemma_walk_append, lemma_walk_update_cell};

verus! {

/// Errors of the compiler and the virtual machine.
#[derive(Debug, Clone, Copy, PartialEq, Eq, Structural)]
pub enum VmError {
    /// A `]` without a matching `[`, or a `[` left open at end of source.
    UnmatchedLoop,
    /// Execution reached a cell that does not encode an opcode.
    UnknownOpcode,
    /// A `,` was executed with the input stream exhausted.
    EndOfInput,
    /// A `<` was executed with the memory pointer at zero.
    PointerUnderflow,
    /// A machine bound (cycle count or table height) was exceeded.
    ResourceExhausted,
}

/// Whether the brackets of the source suffix from `i` balance, starting at
/// nesting depth `depth`.
pub open spec fn balanced_from(src: Seq<u8>, i: int, depth: int) -> bool
    decreases src.len() - i when 0 <= i <= src.len()
{
    if i >= src.len() {
        depth == 0
    } else if src[i] == 91 {
        balanced_from(src, i + 1, depth + 1)
    } else if src[i] == 93 {
        depth > 0 && balanced_from(src, i + 1, depth - 1)
    } else {
        balanced_from(src, i + 1, depth)
    }
}

/// Whether the brackets of the source balance.
pub open spec fn balanced(src: Seq<u8>) -> bool {
    balanced_from(src, 0, 0)
}

/// Compiles source text into a Program.  Non-opcode bytes are comments.
/// Returns `UnmatchedLoop` exactly when the brackets do not balance.
pub fn compile(source: &Vec<u8>) -> (r: Result<Vec<u64>, VmError>)
    requires
        source@.len() <= 0x100_0000,
    ensures
        r is Ok <==> balanced(source@),
        r is Err ==> r->Err_0 == VmError::UnmatchedLoop,
        r is Ok ==> r->Ok_0@.len() <= 2 * source@.len(),
        r is Ok ==> wf_program(r->Ok_0@),
{
    let n = source.len();
    let mut program: Vec<u64> = Vec::new();
    let mut stack: Vec<usize> = Vec::new();
    let mut i: usize = 0;
    while i < n
        invariant
            0 <= i <= n,
            n == source@.len() <= 0x100_0000,
            program@.len() <= 2 * i,
            stack@.len() <= i,
            forall|k: int| 0 <= k < stack@.len() ==> #[trigger] stack@[k] < program@.len(),
            wf_program_from(program@, 0),
            forall|k: int|
                0 <= k < stack@.len() ==> is_cell_pos(program@, 0, #[trigger] stack@[k] as int),
            balanced(source@) <==> balanced_from(source@, i as int, stack@.len() as int),
        decreases n - i,
    {
        let b = source[i];
        let ghost p0 = program@;
        match opcode_of_byte(b) {
            Some(OpCode::LoopBegin) => {
                program.push(opcode_value(OpCode::LoopBegin));
                program.push(0);
                stack.push(program.len() - 2 + 1);
                proof {
                    assert(program@ =~= p0 + seq![91u64, 0u64]);
                    assert(wf_program_from(program@, p0.len() as int + 2));
                    assert(wf_program_from(program@, p0.len() as int));
                    lemma_walk_append(p0, seq![91u64, 0u64], 0);
                    assert(is_cell_pos(program@, p0.len() as int, p0.len() as int + 1));
                }
            },
            Some(OpCode::LoopEnd) => {
                program.push(opcode_value(OpCode::LoopEnd));
                match stack.pop() {
                    None => {
                        return Err(VmError::UnmatchedLoop);
                    },
                    Some(last) => {
                        program.push((last + 1) as u64);
                        let target = program.len();
                        proof {
                            lemma_cell_pos_gt(p0, 0, last as int);
                            assert(program@ =~= p0 + seq![93u64, (last + 1) as u64]);
                            assert(wf_program_from(program@, p0.len() as int + 2));
                            assert(wf_program_from(program@, p0.len() as int));
                            lemma_walk_append(p0, seq![93u64, (last + 1) as u64], 0);
                        }
                        program.set(last, target as u64);
                        proof {
                            let ghost p1 = p0 + seq![93u64, (last + 1) as u64];
                            assert(program@ =~= p1.update(last as int, target as u64));
                            lemma_walk_update_cell(p1, last as int, target as u64, 0);
                        }
                    },
                }
            },
            Some(op) => {
                program.push(opcode_value(op));
                proof {
                    let ghost v = opcode_vals(op) as u64;
                    assert(program@ =~= p0 + seq![v]);
                    assert(v != 91 && v != 93 && is_opcode(v as int));
                    assert(wf_program_from(program@, p0.len() as int + 1));
                    assert(wf_program_from(program@, p0.len() as int));
                    lemma_walk_append(p0, seq![v], 0);
                }
            },
            None => {
            },
        }
        i = i + 1;
    }
    if stack.len() > 0 {
        return Err(VmError::UnmatchedLoop);
    }
    Ok(program)
}

/// Decides whether a Program has the compiler's shape: opcode cells with a
/// bounded jump target after each bracket.
pub fn check_program(program: &Vec<u64>) -> (r: bool)
    ensures
        r == wf_program(program@),
{
    let n = program.len();
    if n >= 0x1000_0000 {
        return false;
    }
    let mut i: usize = 0;
    while i < n
        invariant
            0 <= i <= n,
            n == program@.len() < 0x1000_0000,
            wf_program_from(program@, 0) <==> wf_program_from(program@, i as int),
        decreases n - i,
    {
        let c = program[i];
        if c == 91 || c == 93 {
            if i + 1 < n && program[i + 1] <= n as u64 {
                i = i + 2;
            } else {
                return false;
            }
        } else if c == 62 || c == 60 || c == 43 || c == 45 || c == 46 || c == 44 {
            i = i + 1;
        } else {
            return false;
        }
    }
    true
}

/// Every cell of a well-formed program is small: an opcode codepoint or an
/// in-bounds jump target.
pub proof fn lemma_program_cells(program: Seq<u64>, i: int)
    requires
        wf_program_from(program, i),
        0 <= i <= program.len(),
        program.len() < 0x1000_0000,
    ensures
        forall|j: int| i <= j < program.len() ==> #[trigger] program[j] <= 0x1000_0000,
    decreases program.len() - i,
{
    if i < program.len() {
        if program[i] == 91 || program[i] == 93 {
            lemma_program_cells(program, i + 2);
        } else {
            lemma_program_cells(program, i + 1);
        }
    }
}

} // verus!
