//! The AIR: boundary, transition and terminal constraint polynomials.
//!
//! A combined row of the five tables has 17 base columns followed by 9
//! extension columns, 26 in all; constraints are evaluated on one such row
//! (`c`) and its successor (`n`).  The executable evaluators are proved to
//! return exactly the polynomial values that their spec functions define,
//! so the verifier and the trace-vanishing lemmas speak about the same
//! algebra.

use vstd::prelude::*;
use crate::field::{in_field, fadds, fsubs, fmuls, fadd, fsub, fmul};
use crate::opcode::{instr_zerofiers, if_not_instrs, if_instrs, instr_zerofier, if_not_instr,
    if_instr};

verus! {

/// The number of base columns of the combined row.
pub const NUM_BASE_COLUMNS: usize = 17;

/// The number of extension columns of the combined row.
pub const NUM_EXT_COLUMNS: usize = 9;

/// The number of columns of the combined row.
pub const NUM_COLUMNS: usize = 26;

/// The number of boundary constraints.
pub const NUM_BOUNDARY: usize = 15;

/// The number of transition constraints.
pub const NUM_TRANSITION: usize = 26;

/// The number of terminal constraints.
pub const NUM_TERMINAL: usize = 7;

/// The constraint-evaluation blowup factor: the least power of two at or
/// above the maximum constraint degree.
pub const CE_BLOWUP_FACTOR: usize = 16;

/// The challenges drawn from the public coin: five folding scalars and six
/// linear combinators for tuple hashing.
#[derive(Debug, Clone, Copy, PartialEq, Eq, Structural)]
pub struct Challenges {
    pub alpha: u64,
    pub beta: u64,
    pub gamma: u64,
    pub delta: u64,
    pub eta: u64,
    pub a: u64,
    pub b: u64,
    pub c: u64,
    pub d: u64,
    pub e: u64,
    pub f: u64,
}

/// Whether every challenge is a canonical field element.
pub open spec fn wf_challenges(ch: Challenges) -> bool {
    &&& in_field(ch.alpha as int)
    &&& in_field(ch.beta as int)
    &&& in_field(ch.gamma as int)
    &&& in_field(ch.delta as int)
    &&& in_field(ch.eta as int)
    &&& in_field(ch.a as int)
    &&& in_field(ch.b as int)
    &&& in_field(ch.c as int)
    &&& in_field(ch.d as int)
    &&& in_field(ch.e as int)
    &&& in_field(ch.f as int)
}

/// The terminal values of the evaluation arguments, derived from the
/// public inputs.
#[derive(Debug, Clone, Copy, PartialEq, Eq, Structural)]
pub struct Hints {
    pub input: u64,
    pub output: u64,
    pub instruction: u64,
    pub input_offset: u64,
    pub output_offset: u64,
}

/// Whether every hint is a canonical field element.
pub open spec fn wf_hints(h: Hints) -> bool {
    &&& in_field(h.input as int)
    &&& in_field(h.output as int)
    &&& in_field(h.instruction as int)
    &&& in_field(h.input_offset as int)
    &&& in_field(h.output_offset as int)
}

/// A combined row: 26 canonical field elements.
pub open spec fn wf_row(s: Seq<u64>) -> bool {
    s.len() == 26 && forall|i: int| 0 <= i < s.len() ==> in_field((#[trigger] s[i]) as int)
}

/// The value of transition constraint `idx` on a row pair.
#[verifier::opaque]
pub open spec fn transition_eval(ch: Challenges, c: Seq<u64>, n: Seq<u64>, idx: int) -> int {
    let c0 = c[0] as int;
    let c1 = c[1] as int;
    let c2 = c[2] as int;
    let c3 = c[3] as int;
    let c4 = c[4] as int;
    let c5 = c[5] as int;
    let c6 = c[6] as int;
    let c7 = c[7] as int;
    let c8 = c[8] as int;
    let c9 = c[9] as int;
    let c10 = c[10] as int;
    let c11 = c[11] as int;
    let c12 = c[12] as int;
    let c13 = c[13] as int;
    let c14 = c[14] as int;
    let c15 = c[15] as int;
    let c16 = c[16] as int;
    let c17 = c[17] as int;
    let c18 = c[18] as int;
    let c19 = c[19] as int;
    let c20 = c[20] as int;
    let c21 = c[21] as int;
    let c22 = c[22] as int;
    let c23 = c[23] as int;
    let c24 = c[24] as int;
    let c25 = c[25] as int;
    let n0 = n[0] as int;
    let n1 = n[1] as int;
    let n2 = n[2] as int;
    let n3 = n[3] as int;
    let n4 = n[4] as int;
    let n5 = n[5] as int;
    let n6 = n[6] as int;
    let n7 = n[7] as int;
    let n8 = n[8] as int;
    let n9 = n[9] as int;
    let n10 = n[10] as int;
    let n11 = n[11] as int;
    let n12 = n[12] as int;
    let n13 = n[13] as int;
    let n14 = n[14] as int;
    let n15 = n[15] as int;
    let n16 = n[16] as int;
    let n17 = n[17] as int;
    let n18 = n[18] as int;
    let n19 = n[19] as int;
    let n20 = n[20] as int;
    let n21 = n[21] as int;
    let n22 = n[22] as int;
    let n23 = n[23] as int;
    let n24 = n[24] as int;
    let n25 = n[25] as int;
    if idx == 0 {
        fadds(fadds(fadds(fadds(fadds(fadds(fadds(fmuls(fmuls(if_not_instrs(62, c2), fsubs(fsubs(n1, c1), 1)), c2), fmuls(fmuls(if_not_instrs(60, c2), fsubs(fsubs(n1, c1), 1)), c2)), fmuls(fmuls(if_not_instrs(43, c2), fsubs(fsubs(n1, c1), 1)), c2)), fmuls(fmuls(if_not_instrs(45, c2), fsubs(fsubs(n1, c1), 1)), c2)), fmuls(fmuls(if_not_instrs(46, c2), fsubs(fsubs(n1, c1), 1)), c2)), fmuls(fmuls(if_not_instrs(44, c2), fsubs(fsubs(n1, c1), 1)), c2)), fmuls(fmuls(if_not_instrs(91, c2), fadds(fmuls(c5, fsubs(fsubs(n1, c1), 2)), fmuls(fsubs(fmuls(c5, c6), 1), fsubs(n1, c3)))), c2)), fmuls(fmuls(if_not_instrs(93, c2), fadds(fmuls(fsubs(fmuls(c5, c6), 1), fsubs(fsubs(n1, c1), 2)), fmuls(c5, fsubs(n1, c3)))), c2))
    } else     if idx == 1 {
        fadds(fadds(fadds(fadds(fadds(fadds(fadds(fmuls(fmuls(if_not_instrs(62, c2), fsubs(fsubs(n4, c4), 1)), c2), fmuls(fmuls(if_not_instrs(60, c2), fadds(fsubs(n4, c4), 1)), c2)), fmuls(fmuls(if_not_instrs(43, c2), fsubs(n4, c4)), c2)), fmuls(fmuls(if_not_instrs(45, c2), fsubs(n4, c4)), c2)), fmuls(fmuls(if_not_instrs(46, c2), fsubs(n4, c4)), c2)), fmuls(fmuls(if_not_instrs(44, c2), fsubs(n4, c4)), c2)), fmuls(fmuls(if_not_instrs(91, c2), fsubs(n4, c4)), c2)), fmuls(fmuls(if_not_instrs(93, c2), fsubs(n4, c4)), c2))
    } else     if idx == 2 {
        fadds(fadds(fadds(fadds(fmuls(fmuls(if_not_instrs(43, c2), fsubs(fsubs(n5, c5), 1)), c2), fmuls(fmuls(if_not_instrs(45, c2), fadds(fsubs(n5, c5), 1)), c2)), fmuls(fmuls(if_not_instrs(44, c2), fsubs(n5, c5)), c2)), fmuls(fmuls(if_not_instrs(91, c2), fsubs(n5, c5)), c2)), fmuls(fmuls(if_not_instrs(93, c2), fsubs(n5, c5)), c2))
    } else     if idx == 3 {
        fsubs(fsubs(n0, c0), 1)
    } else     if idx == 4 {
        fmuls(c5, fsubs(fmuls(c5, c6), 1))
    } else     if idx == 5 {
        fmuls(c6, fsubs(fmuls(c5, c6), 1))
    } else     if idx == 6 {
        fmuls(fsubs(n7, 1), n7)
    } else     if idx == 7 {
        fadds(fmuls(instr_zerofiers(c2), fsubs(c7, 1)), fmuls(c2, c7))
    } else     if idx == 8 {
        fadds(fmuls(c2, fsubs(fmuls(c17, fsubs(fsubs(fsubs(ch.alpha as int, fmuls(ch.a as int, c1)), fmuls(ch.b as int, c2)), fmuls(ch.c as int, c3))), n17)), fmuls(c7, fsubs(c17, n17)))
    } else     if idx == 9 {
        fmuls(fmuls(fmuls(c2, fsubs(fmuls(c18, fsubs(fsubs(fsubs(ch.beta as int, fmuls(ch.d as int, c0)), fmuls(ch.e as int, c4)), fmuls(ch.f as int, c5))), n18)), c7), fsubs(c18, n18))
    } else     if idx == 10 {
        fadds(fmuls(fmuls(c2, if_not_instrs(44, c2)), fsubs(fsubs(n19, fmuls(ch.gamma as int, c19)), n5)), fmuls(if_instrs(44, c2), fsubs(n19, c19)))
    } else     if idx == 11 {
        fadds(fmuls(fmuls(c2, if_not_instrs(46, c2)), fsubs(fsubs(n20, fmuls(c20, ch.delta as int)), c5)), fmuls(if_instrs(46, c2), fsubs(n20, c20)))
    } else     if idx == 12 {
        fmuls(fsubs(fsubs(n12, c12), 1), fsubs(n12, c12))
    } else     if idx == 13 {
        fmuls(fsubs(n12, c12), n13)
    } else     if idx == 14 {
        fmuls(fsubs(n14, 1), n14)
    } else     if idx == 15 {
        fmuls(fsubs(n12, c12), c14)
    } else     if idx == 16 {
        fmuls(fsubs(n13, c13), c14)
    } else     if idx == 17 {
        fmuls(fsubs(fsubs(n12, c12), 1), fsubs(fsubs(n11, c11), 1))
    } else     if idx == 18 {
        fmuls(fsubs(fsubs(n8, c8), 1), fsubs(n8, c8))
    } else     if idx == 19 {
        fmuls(fsubs(fsubs(n8, c8), 1), fsubs(n9, c9))
    } else     if idx == 20 {
        fmuls(fsubs(fsubs(n8, c8), 1), fsubs(n10, c10))
    } else     if idx == 21 {
        fadds(fmuls(fsubs(n23, fmuls(c23, fsubs(fsubs(fsubs(ch.beta as int, fmuls(ch.d as int, c11)), fmuls(ch.e as int, c12)), fmuls(ch.f as int, c13)))), fsubs(c14, 1)), fmuls(fsubs(n23, c23), c14))
    } else     if idx == 22 {
        fadds(fadds(fmuls(fmuls(c9, fadds(fsubs(c8, n8), 1)), fsubs(n21, fmuls(c21, fsubs(fsubs(fsubs(ch.alpha as int, fmuls(ch.a as int, n8)), fmuls(ch.b as int, n9)), fmuls(ch.c as int, n10))))), fmuls(instr_zerofiers(c9), fsubs(n21, c21))), fmuls(fsubs(c8, n8), fsubs(c21, n21)))
    } else     if idx == 23 {
        fadds(fmuls(fsubs(fsubs(n8, c8), 1), fsubs(n22, c22)), fmuls(fsubs(n8, c8), fsubs(fsubs(fsubs(fsubs(n22, fmuls(c22, ch.eta as int)), fmuls(ch.a as int, n8)), fmuls(ch.b as int, n9)), fmuls(ch.c as int, n10))))
    } else     if idx == 24 {
        fsubs(fadds(fmuls(c24, ch.gamma as int), n15), n24)
    } else     if idx == 25 {
        fsubs(fadds(fmuls(c25, ch.delta as int), n16), n25)
    } else {
        0
    }
}

/// The value of boundary constraint `idx` on a row.
#[verifier::opaque]
pub open spec fn boundary_eval(ch: Challenges, h: Hints, c: Seq<u64>, idx: int) -> int {
    let c0 = c[0] as int;
    let c1 = c[1] as int;
    let c2 = c[2] as int;
    let c3 = c[3] as int;
    let c4 = c[4] as int;
    let c5 = c[5] as int;
    let c6 = c[6] as int;
    let c7 = c[7] as int;
    let c8 = c[8] as int;
    let c9 = c[9] as int;
    let c10 = c[10] as int;
    let c11 = c[11] as int;
    let c12 = c[12] as int;
    let c13 = c[13] as int;
    let c14 = c[14] as int;
    let c15 = c[15] as int;
    let c16 = c[16] as int;
    let c17 = c[17] as int;
    let c18 = c[18] as int;
    let c19 = c[19] as int;
    let c20 = c[20] as int;
    let c21 = c[21] as int;
    let c22 = c[22] as int;
    let c23 = c[23] as int;
    let c24 = c[24] as int;
    let c25 = c[25] as int;
    if idx == 0 {
        c0
    } else     if idx == 1 {
        c1
    } else     if idx == 2 {
        c4
    } else     if idx == 3 {
        c5
    } else     if idx == 4 {
        c6
    } else     if idx == 5 {
        c7
    } else     if idx == 6 {
        c19
    } else     if idx == 7 {
        c20
    } else     if idx == 8 {
        c11
    } else     if idx == 9 {
        c12
    } else     if idx == 10 {
        c13
    } else     if idx == 11 {
        c8
    } else     if idx == 12 {
        fsubs(fsubs(fsubs(c22, fmuls(ch.a as int, c8)), fmuls(ch.b as int, c9)), fmuls(ch.c as int, c10))
    } else     if idx == 13 {
        fsubs(c24, c15)
    } else     if idx == 14 {
        fsubs(c25, c16)
    } else {
        0
    }
}

/// The value of terminal constraint `idx` on the last row.
#[verifier::opaque]
pub open spec fn terminal_eval(ch: Challenges, h: Hints, c: Seq<u64>, idx: int) -> int {
    let c0 = c[0] as int;
    let c1 = c[1] as int;
    let c2 = c[2] as int;
    let c3 = c[3] as int;
    let c4 = c[4] as int;
    let c5 = c[5] as int;
    let c6 = c[6] as int;
    let c7 = c[7] as int;
    let c8 = c[8] as int;
    let c9 = c[9] as int;
    let c10 = c[10] as int;
    let c11 = c[11] as int;
    let c12 = c[12] as int;
    let c13 = c[13] as int;
    let c14 = c[14] as int;
    let c15 = c[15] as int;
    let c16 = c[16] as int;
    let c17 = c[17] as int;
    let c18 = c[18] as int;
    let c19 = c[19] as int;
    let c20 = c[20] as int;
    let c21 = c[21] as int;
    let c22 = c[22] as int;
    let c23 = c[23] as int;
    let c24 = c[24] as int;
    let c25 = c[25] as int;
    if idx == 0 {
        fadds(fadds(fadds(fmuls(fmuls(c9, fsubs(c7, 1)), fsubs(fmuls(c21, fsubs(fsubs(fsubs(ch.alpha as int, fmuls(ch.a as int, c8)), fmuls(ch.b as int, c9)), fmuls(ch.c as int, c10))), fmuls(c17, fsubs(fsubs(fsubs(ch.alpha as int, fmuls(ch.a as int, c1)), fmuls(ch.b as int, c2)), fmuls(ch.c as int, c3))))), fmuls(fmuls(instr_zerofiers(c9), fsubs(c7, 1)), fsubs(c21, fmuls(c17, fsubs(fsubs(fsubs(ch.alpha as int, fmuls(ch.a as int, c1)), fmuls(ch.b as int, c2)), fmuls(ch.c as int, c3)))))), fmuls(fmuls(c9, c7), fsubs(fmuls(c21, fsubs(fsubs(fsubs(ch.alpha as int, fmuls(ch.a as int, c8)), fmuls(ch.b as int, c9)), fmuls(ch.c as int, c10))), c17))), fmuls(fmuls(instr_zerofiers(c9), c7), fsubs(c21, c17)))
    } else     if idx == 1 {
        fadds(fadds(fadds(fmuls(fmuls(fsubs(c14, 1), fsubs(c7, 1)), fsubs(fmuls(c23, fsubs(fsubs(fsubs(ch.beta as int, fmuls(ch.d as int, c11)), fmuls(ch.e as int, c12)), fmuls(ch.f as int, c13))), fmuls(c18, fsubs(fsubs(fsubs(ch.beta as int, fmuls(ch.d as int, c0)), fmuls(ch.e as int, c4)), fmuls(ch.f as int, c5))))), fmuls(fmuls(c14, fsubs(c7, 1)), fsubs(c23, fmuls(c18, fsubs(fsubs(fsubs(ch.beta as int, fmuls(ch.d as int, c0)), fmuls(ch.e as int, c4)), fmuls(ch.f as int, c5)))))), fmuls(fmuls(fsubs(c14, 1), c7), fsubs(fmuls(c23, fsubs(fsubs(fsubs(ch.beta as int, fmuls(ch.d as int, c11)), fmuls(ch.e as int, c12)), fmuls(ch.f as int, c13))), c18))), fmuls(fmuls(c14, c7), fsubs(c23, c18)))
    } else     if idx == 2 {
        fsubs(c19, h.input as int)
    } else     if idx == 3 {
        fsubs(c20, h.output as int)
    } else     if idx == 4 {
        fsubs(c22, h.instruction as int)
    } else     if idx == 5 {
        fsubs(c24, fmuls(h.input as int, h.input_offset as int))
    } else     if idx == 6 {
        fsubs(c25, fmuls(h.output as int, h.output_offset as int))
    } else {
        0
    }
}

/// The multivariate degree declared for transition constraint `idx`.
pub open spec fn transition_degree(idx: int) -> int {
    if idx == 0 { 11 } else     if idx == 1 { 9 } else     if idx == 2 { 9 } else     if idx == 3 { 1 } else     if idx == 4 { 3 } else     if idx == 5 { 3 } else     if idx == 6 { 2 } else     if idx == 7 { 9 } else     if idx == 8 { 3 } else     if idx == 9 { 5 } else     if idx == 10 { 9 } else     if idx == 11 { 9 } else     if idx == 12 { 2 } else     if idx == 13 { 2 } else     if idx == 14 { 2 } else     if idx == 15 { 2 } else     if idx == 16 { 2 } else     if idx == 17 { 2 } else     if idx == 18 { 2 } else     if idx == 19 { 2 } else     if idx == 20 { 2 } else     if idx == 21 { 3 } else     if idx == 22 { 9 } else     if idx == 23 { 2 } else     if idx == 24 { 1 } else     if idx == 25 { 1 } else { 1 }
}

/// The multivariate degree declared for every boundary constraint.
pub open spec fn boundary_degree(idx: int) -> int {
    1
}

/// The multivariate degree declared for terminal constraint `idx`.
pub open spec fn terminal_degree(idx: int) -> int {
    if idx == 0 { 11 } else     if idx == 1 { 4 } else     if idx == 2 { 1 } else     if idx == 3 { 1 } else     if idx == 4 { 1 } else     if idx == 5 { 1 } else     if idx == 6 { 1 } else { 1 }
}

/// Evaluates every transition constraint on a row pair.
#[verifier::rlimit(100)]
pub fn transition_evals(ch: &Challenges, c: &Vec<u64>, n: &Vec<u64>) -> (r: Vec<u64>)
    requires
        wf_challenges(*ch),
        wf_row(c@),
        wf_row(n@),
    ensures
        r@.len() == NUM_TRANSITION,
        forall|i: int|
            0 <= i < r@.len() ==> #[trigger] r@[i] == transition_eval(*ch, c@, n@, i) && in_field(
                r@[i] as int,
            ),
{
    proof {
        reveal(transition_eval);
        reveal(boundary_eval);
        reveal(terminal_eval);
    }
    let ch = *ch;
    let c0 = c[0];
    let c1 = c[1];
    let c2 = c[2];
    let c3 = c[3];
    let c4 = c[4];
    let c5 = c[5];
    let c6 = c[6];
    let c7 = c[7];
    let c8 = c[8];
    let c9 = c[9];
    let c10 = c[10];
    let c11 = c[11];
    let c12 = c[12];
    let c13 = c[13];
    let c14 = c[14];
    let c15 = c[15];
    let c16 = c[16];
    let c17 = c[17];
    let c18 = c[18];
    let c19 = c[19];
    let c20 = c[20];
    let c21 = c[21];
    let c22 = c[22];
    let c23 = c[23];
    let c24 = c[24];
    let c25 = c[25];
    let n0 = n[0];
    let n1 = n[1];
    let n2 = n[2];
    let n3 = n[3];
    let n4 = n[4];
    let n5 = n[5];
    let n6 = n[6];
    let n7 = n[7];
    let n8 = n[8];
    let n9 = n[9];
    let n10 = n[10];
    let n11 = n[11];
    let n12 = n[12];
    let n13 = n[13];
    let n14 = n[14];
    let n15 = n[15];
    let n16 = n[16];
    let n17 = n[17];
    let n18 = n[18];
    let n19 = n[19];
    let n20 = n[20];
    let n21 = n[21];
    let n22 = n[22];
    let n23 = n[23];
    let n24 = n[24];
    let n25 = n[25];
    let mut r: Vec<u64> = Vec::new();
    r.push(fadd(fadd(fadd(fadd(fadd(fadd(fadd(fmul(fmul(if_not_instr(62, c2), fsub(fsub(n1, c1), 1)), c2), fmul(fmul(if_not_instr(60, c2), fsub(fsub(n1, c1), 1)), c2)), fmul(fmul(if_not_instr(43, c2), fsub(fsub(n1, c1), 1)), c2)), fmul(fmul(if_not_instr(45, c2), fsub(fsub(n1, c1), 1)), c2)), fmul(fmul(if_not_instr(46, c2), fsub(fsub(n1, c1), 1)), c2)), fmul(fmul(if_not_instr(44, c2), fsub(fsub(n1, c1), 1)), c2)), fmul(fmul(if_not_instr(91, c2), fadd(fmul(c5, fsub(fsub(n1, c1), 2)), fmul(fsub(fmul(c5, c6), 1), fsub(n1, c3)))), c2)), fmul(fmul(if_not_instr(93, c2), fadd(fmul(fsub(fmul(c5, c6), 1), fsub(fsub(n1, c1), 2)), fmul(c5, fsub(n1, c3)))), c2)));
    proof { assert(r@[0] == transition_eval(ch, c@, n@, 0)); }
    r.push(fadd(fadd(fadd(fadd(fadd(fadd(fadd(fmul(fmul(if_not_instr(62, c2), fsub(fsub(n4, c4), 1)), c2), fmul(fmul(if_not_instr(60, c2), fadd(fsub(n4, c4), 1)), c2)), fmul(fmul(if_not_instr(43, c2), fsub(n4, c4)), c2)), fmul(fmul(if_not_instr(45, c2), fsub(n4, c4)), c2)), fmul(fmul(if_not_instr(46, c2), fsub(n4, c4)), c2)), fmul(fmul(if_not_instr(44, c2), fsub(n4, c4)), c2)), fmul(fmul(if_not_instr(91, c2), fsub(n4, c4)), c2)), fmul(fmul(if_not_instr(93, c2), fsub(n4, c4)), c2)));
    proof { assert(r@[1] == transition_eval(ch, c@, n@, 1)); }
    r.push(fadd(fadd(fadd(fadd(fmul(fmul(if_not_instr(43, c2), fsub(fsub(n5, c5), 1)), c2), fmul(fmul(if_not_instr(45, c2), fadd(fsub(n5, c5), 1)), c2)), fmul(fmul(if_not_instr(44, c2), fsub(n5, c5)), c2)), fmul(fmul(if_not_instr(91, c2), fsub(n5, c5)), c2)), fmul(fmul(if_not_instr(93, c2), fsub(n5, c5)), c2)));
    proof { assert(r@[2] == transition_eval(ch, c@, n@, 2)); }
    r.push(fsub(fsub(n0, c0), 1));
    proof { assert(r@[3] == transition_eval(ch, c@, n@, 3)); }
    r.push(fmul(c5, fsub(fmul(c5, c6), 1)));
    proof { assert(r@[4] == transition_eval(ch, c@, n@, 4)); }
    r.push(fmul(c6, fsub(fmul(c5, c6), 1)));
    proof { assert(r@[5] == transition_eval(ch, c@, n@, 5)); }
    r.push(fmul(fsub(n7, 1), n7));
    proof { assert(r@[6] == transition_eval(ch, c@, n@, 6)); }
    r.push(fadd(fmul(instr_zerofier(c2), fsub(c7, 1)), fmul(c2, c7)));
    proof { assert(r@[7] == transition_eval(ch, c@, n@, 7)); }
    r.push(fadd(fmul(c2, fsub(fmul(c17, fsub(fsub(fsub(ch.alpha, fmul(ch.a, c1)), fmul(ch.b, c2)), fmul(ch.c, c3))), n17)), fmul(c7, fsub(c17, n17))));
    proof { assert(r@[8] == transition_eval(ch, c@, n@, 8)); }
    r.push(fmul(fmul(fmul(c2, fsub(fmul(c18, fsub(fsub(fsub(ch.beta, fmul(ch.d, c0)), fmul(ch.e, c4)), fmul(ch.f, c5))), n18)), c7), fsub(c18, n18)));
    proof { assert(r@[9] == transition_eval(ch, c@, n@, 9)); }
    r.push(fadd(fmul(fmul(c2, if_not_instr(44, c2)), fsub(fsub(n19, fmul(ch.gamma, c19)), n5)), fmul(if_instr(44, c2), fsub(n19, c19))));
    proof { assert(r@[10] == transition_eval(ch, c@, n@, 10)); }
    r.push(fadd(fmul(fmul(c2, if_not_instr(46, c2)), fsub(fsub(n20, fmul(c20, ch.delta)), c5)), fmul(if_instr(46, c2), fsub(n20, c20))));
    proof { assert(r@[11] == transition_eval(ch, c@, n@, 11)); }
    r.push(fmul(fsub(fsub(n12, c12), 1), fsub(n12, c12)));
    proof { assert(r@[12] == transition_eval(ch, c@, n@, 12)); }
    r.push(fmul(fsub(n12, c12), n13));
    proof { assert(r@[13] == transition_eval(ch, c@, n@, 13)); }
    r.push(fmul(fsub(n14, 1), n14));
    proof { assert(r@[14] == transition_eval(ch, c@, n@, 14)); }
    r.push(fmul(fsub(n12, c12), c14));
    proof { assert(r@[15] == transition_eval(ch, c@, n@, 15)); }
    r.push(fmul(fsub(n13, c13), c14));
    proof { assert(r@[16] == transition_eval(ch, c@, n@, 16)); }
    r.push(fmul(fsub(fsub(n12, c12), 1), fsub(fsub(n11, c11), 1)));
    proof { assert(r@[17] == transition_eval(ch, c@, n@, 17)); }
    r.push(fmul(fsub(fsub(n8, c8), 1), fsub(n8, c8)));
    proof { assert(r@[18] == transition_eval(ch, c@, n@, 18)); }
    r.push(fmul(fsub(fsub(n8, c8), 1), fsub(n9, c9)));
    proof { assert(r@[19] == transition_eval(ch, c@, n@, 19)); }
    r.push(fmul(fsub(fsub(n8, c8), 1), fsub(n10, c10)));
    proof { assert(r@[20] == transition_eval(ch, c@, n@, 20)); }
    r.push(fadd(fmul(fsub(n23, fmul(c23, fsub(fsub(fsub(ch.beta, fmul(ch.d, c11)), fmul(ch.e, c12)), fmul(ch.f, c13)))), fsub(c14, 1)), fmul(fsub(n23, c23), c14)));
    proof { assert(r@[21] == transition_eval(ch, c@, n@, 21)); }
    r.push(fadd(fadd(fmul(fmul(c9, fadd(fsub(c8, n8), 1)), fsub(n21, fmul(c21, fsub(fsub(fsub(ch.alpha, fmul(ch.a, n8)), fmul(ch.b, n9)), fmul(ch.c, n10))))), fmul(instr_zerofier(c9), fsub(n21, c21))), fmul(fsub(c8, n8), fsub(c21, n21))));
    proof { assert(r@[22] == transition_eval(ch, c@, n@, 22)); }
    r.push(fadd(fmul(fsub(fsub(n8, c8), 1), fsub(n22, c22)), fmul(fsub(n8, c8), fsub(fsub(fsub(fsub(n22, fmul(c22, ch.eta)), fmul(ch.a, n8)), fmul(ch.b, n9)), fmul(ch.c, n10)))));
    proof { assert(r@[23] == transition_eval(ch, c@, n@, 23)); }
    r.push(fsub(fadd(fmul(c24, ch.gamma), n15), n24));
    proof { assert(r@[24] == transition_eval(ch, c@, n@, 24)); }
    r.push(fsub(fadd(fmul(c25, ch.delta), n16), n25));
    proof { assert(r@[25] == transition_eval(ch, c@, n@, 25)); }
    r
}

/// Evaluates every boundary constraint on a row.
#[verifier::rlimit(100)]
pub fn boundary_evals(ch: &Challenges, h: &Hints, c: &Vec<u64>) -> (r: Vec<u64>)
    requires
        wf_challenges(*ch),
        wf_hints(*h),
        wf_row(c@),
    ensures
        r@.len() == NUM_BOUNDARY,
        forall|i: int|
            0 <= i < r@.len() ==> #[trigger] r@[i] == boundary_eval(*ch, *h, c@, i) && in_field(
                r@[i] as int,
            ),
{
    proof {
        reveal(boundary_eval);
        reveal(terminal_eval);
    }
    let ch = *ch;
    let h = *h;
    let c0 = c[0];
    let c1 = c[1];
    let c2 = c[2];
    let c3 = c[3];
    let c4 = c[4];
    let c5 = c[5];
    let c6 = c[6];
    let c7 = c[7];
    let c8 = c[8];
    let c9 = c[9];
    let c10 = c[10];
    let c11 = c[11];
    let c12 = c[12];
    let c13 = c[13];
    let c14 = c[14];
    let c15 = c[15];
    let c16 = c[16];
    let c17 = c[17];
    let c18 = c[18];
    let c19 = c[19];
    let c20 = c[20];
    let c21 = c[21];
    let c22 = c[22];
    let c23 = c[23];
    let c24 = c[24];
    let c25 = c[25];
    let mut r: Vec<u64> = Vec::new();
    r.push(c0);
    proof { assert(r@[0] == boundary_eval(ch, h, c@, 0)); }
    r.push(c1);
    proof { assert(r@[1] == boundary_eval(ch, h, c@, 1)); }
    r.push(c4);
    proof { assert(r@[2] == boundary_eval(ch, h, c@, 2)); }
    r.push(c5);
    proof { assert(r@[3] == boundary_eval(ch, h, c@, 3)); }
    r.push(c6);
    proof { assert(r@[4] == boundary_eval(ch, h, c@, 4)); }
    r.push(c7);
    proof { assert(r@[5] == boundary_eval(ch, h, c@, 5)); }
    r.push(c19);
    proof { assert(r@[6] == boundary_eval(ch, h, c@, 6)); }
    r.push(c20);
    proof { assert(r@[7] == boundary_eval(ch, h, c@, 7)); }
    r.push(c11);
    proof { assert(r@[8] == boundary_eval(ch, h, c@, 8)); }
    r.push(c12);
    proof { assert(r@[9] == boundary_eval(ch, h, c@, 9)); }
    r.push(c13);
    proof { assert(r@[10] == boundary_eval(ch, h, c@, 10)); }
    r.push(c8);
    proof { assert(r@[11] == boundary_eval(ch, h, c@, 11)); }
    r.push(fsub(fsub(fsub(c22, fmul(ch.a, c8)), fmul(ch.b, c9)), fmul(ch.c, c10)));
    proof { assert(r@[12] == boundary_eval(ch, h, c@, 12)); }
    r.push(fsub(c24, c15));
    proof { assert(r@[13] == boundary_eval(ch, h, c@, 13)); }
    r.push(fsub(c25, c16));
    proof { assert(r@[14] == boundary_eval(ch, h, c@, 14)); }
    r
}

/// Evaluates every terminal constraint on the last row.
#[verifier::rlimit(100)]
pub fn terminal_evals(ch: &Challenges, h: &Hints, c: &Vec<u64>) -> (r: Vec<u64>)
    requires
        wf_challenges(*ch),
        wf_hints(*h),
        wf_row(c@),
    ensures
        r@.len() == NUM_TERMINAL,
        forall|i: int|
            0 <= i < r@.len() ==> #[trigger] r@[i] == terminal_eval(*ch, *h, c@, i) && in_field(
                r@[i] as int,
            ),
{
    proof {
        reveal(boundary_eval);
        reveal(terminal_eval);
    }
    let ch = *ch;
    let h = *h;
    let c0 = c[0];
    let c1 = c[1];
    let c2 = c[2];
    let c3 = c[3];
    let c4 = c[4];
    let c5 = c[5];
    let c6 = c[6];
    let c7 = c[7];
    let c8 = c[8];
    let c9 = c[9];
    let c10 = c[10];
    let c11 = c[11];
    let c12 = c[12];
    let c13 = c[13];
    let c14 = c[14];
    let c15 = c[15];
    let c16 = c[16];
    let c17 = c[17];
    let c18 = c[18];
    let c19 = c[19];
    let c20 = c[20];
    let c21 = c[21];
    let c22 = c[22];
    let c23 = c[23];
    let c24 = c[24];
    let c25 = c[25];
    let mut r: Vec<u64> = Vec::new();
    r.push(fadd(fadd(fadd(fmul(fmul(c9, fsub(c7, 1)), fsub(fmul(c21, fsub(fsub(fsub(ch.alpha, fmul(ch.a, c8)), fmul(ch.b, c9)), fmul(ch.c, c10))), fmul(c17, fsub(fsub(fsub(ch.alpha, fmul(ch.a, c1)), fmul(ch.b, c2)), fmul(ch.c, c3))))), fmul(fmul(instr_zerofier(c9), fsub(c7, 1)), fsub(c21, fmul(c17, fsub(fsub(fsub(ch.alpha, fmul(ch.a, c1)), fmul(ch.b, c2)), fmul(ch.c, c3)))))), fmul(fmul(c9, c7), fsub(fmul(c21, fsub(fsub(fsub(ch.alpha, fmul(ch.a, c8)), fmul(ch.b, c9)), fmul(ch.c, c10))), c17))), fmul(fmul(instr_zerofier(c9), c7), fsub(c21, c17))));
    proof { assert(r@[0] == terminal_eval(ch, h, c@, 0)); }
    r.push(fadd(fadd(fadd(fmul(fmul(fsub(c14, 1), fsub(c7, 1)), fsub(fmul(c23, fsub(fsub(fsub(ch.beta, fmul(ch.d, c11)), fmul(ch.e, c12)), fmul(ch.f, c13))), fmul(c18, fsub(fsub(fsub(ch.beta, fmul(ch.d, c0)), fmul(ch.e, c4)), fmul(ch.f, c5))))), fmul(fmul(c14, fsub(c7, 1)), fsub(c23, fmul(c18, fsub(fsub(fsub(ch.beta, fmul(ch.d, c0)), fmul(ch.e, c4)), fmul(ch.f, c5)))))), fmul(fmul(fsub(c14, 1), c7), fsub(fmul(c23, fsub(fsub(fsub(ch.beta, fmul(ch.d, c11)), fmul(ch.e, c12)), fmul(ch.f, c13))), c18))), fmul(fmul(c14, c7), fsub(c23, c18))));
    proof { assert(r@[1] == terminal_eval(ch, h, c@, 1)); }
    r.push(fsub(c19, h.input));
    proof { assert(r@[2] == terminal_eval(ch, h, c@, 2)); }
    r.push(fsub(c20, h.output));
    proof { assert(r@[3] == terminal_eval(ch, h, c@, 3)); }
    r.push(fsub(c22, h.instruction));
    proof { assert(r@[4] == terminal_eval(ch, h, c@, 4)); }
    r.push(fsub(c24, fmul(h.input, h.input_offset)));
    proof { assert(r@[5] == terminal_eval(ch, h, c@, 5)); }
    r.push(fsub(c25, fmul(h.output, h.output_offset)));
    proof { assert(r@[6] == terminal_eval(ch, h, c@, 6)); }
    r
}

/// The declared degree of transition constraint `idx`, as the verifier and
/// prover both use it for degree adjustment.
pub fn transition_degree_of(idx: usize) -> (r: u64)
    ensures
        r == transition_degree(idx as int),
        1 <= r <= 11,
{
    if idx == 0 { 11 } else     if idx == 1 { 9 } else     if idx == 2 { 9 } else     if idx == 3 { 1 } else     if idx == 4 { 3 } else     if idx == 5 { 3 } else     if idx == 6 { 2 } else     if idx == 7 { 9 } else     if idx == 8 { 3 } else     if idx == 9 { 5 } else     if idx == 10 { 9 } else     if idx == 11 { 9 } else     if idx == 12 { 2 } else     if idx == 13 { 2 } else     if idx == 14 { 2 } else     if idx == 15 { 2 } else     if idx == 16 { 2 } else     if idx == 17 { 2 } else     if idx == 18 { 2 } else     if idx == 19 { 2 } else     if idx == 20 { 2 } else     if idx == 21 { 3 } else     if idx == 22 { 9 } else     if idx == 23 { 2 } else     if idx == 24 { 1 } else     if idx == 25 { 1 } else { 1 }
}

/// The declared degree of terminal constraint `idx`.
pub fn terminal_degree_of(idx: usize) -> (r: u64)
    ensures
        r == terminal_degree(idx as int),
        1 <= r <= 11,
{
    if idx == 0 { 11 } else     if idx == 1 { 4 } else     if idx == 2 { 1 } else     if idx == 3 { 1 } else     if idx == 4 { 1 } else     if idx == 5 { 1 } else     if idx == 6 { 1 } else { 1 }
}

} // verus!
