//! The Brainfuck opcode set and the selector polynomials over it.
//!
//! Each opcode is encoded as the ASCII codepoint of its glyph.  The AIR gates
//! per-opcode constraints with `if_not_instr(op, x)`, a polynomial that is
//! zero at every opcode other than `op`, and suppresses padding rows (where
//! `curr_instr = 0`) by a further factor of `x`.

use vstd::prelude::*;
use crate::field::{in_field, fsubs, fmuls, fsub, fmul};

verus! {

/// The eight opcodes of the virtual machine.
#[derive(Debug, Clone, Copy, PartialEq, Eq)]
pub enum OpCode {
    IncrementPointer,
    DecrementPointer,
    Increment,
    Decrement,
    Write,
    Read,
    LoopBegin,
    LoopEnd,
}

/// The field encoding of an opcode: the ASCII codepoint of its glyph.
pub open spec fn opcode_vals(op: OpCode) -> int {
    match op {
        OpCode::IncrementPointer => 62,
        OpCode::DecrementPointer => 60,
        OpCode::Increment => 43,
        OpCode::Decrement => 45,
        OpCode::Write => 46,
        OpCode::Read => 44,
        OpCode::LoopBegin => 91,
        OpCode::LoopEnd => 93,
    }
}

/// The field encoding of an opcode.
pub fn opcode_value(op: OpCode) -> (r: u64)
    ensures
        r == opcode_vals(op),
{
    match op {
        OpCode::IncrementPointer => 62,
        OpCode::DecrementPointer => 60,
        OpCode::Increment => 43,
        OpCode::Decrement => 45,
        OpCode::Write => 46,
        OpCode::Read => 44,
        OpCode::LoopBegin => 91,
        OpCode::LoopEnd => 93,
    }
}

/// Whether a field value encodes an opcode.
pub open spec fn is_opcode(x: int) -> bool {
    x == 62 || x == 60 || x == 43 || x == 45 || x == 46 || x == 44 || x == 91 || x == 93
}

/// Decodes one source byte; bytes that are not opcode glyphs are comments.
pub fn opcode_of_byte(b: u8) -> (r: Option<OpCode>)
    ensures
        r is Some ==> opcode_vals(r->0) == b,
        r is None ==> !is_opcode(b as int),
{
    match b {
        62 => Some(OpCode::IncrementPointer),
        60 => Some(OpCode::DecrementPointer),
        43 => Some(OpCode::Increment),
        45 => Some(OpCode::Decrement),
        46 => Some(OpCode::Write),
        44 => Some(OpCode::Read),
        91 => Some(OpCode::LoopBegin),
        93 => Some(OpCode::LoopEnd),
        _ => None,
    }
}

/// `instr_zerofier(x)`: the product of `(x - op)` over every opcode; zero
/// exactly on opcodes, and nonzero at the padding value zero.
pub open spec fn instr_zerofiers(x: int) -> int {
    let t = fsubs(x, 62);
    let t = fmuls(t, fsubs(x, 60));
    let t = fmuls(t, fsubs(x, 43));
    let t = fmuls(t, fsubs(x, 45));
    let t = fmuls(t, fsubs(x, 46));
    let t = fmuls(t, fsubs(x, 44));
    let t = fmuls(t, fsubs(x, 91));
    fmuls(t, fsubs(x, 93))
}

/// `if_not_instr(op, x)`: the product of `(x - other)` over every opcode
/// other than `op`; zero at every opcode except `op` itself.
pub open spec fn if_not_instrs(op: int, x: int) -> int {
    let t = if op == 62 { 1 } else { fsubs(x, 62) };
    let t = if op == 60 { t } else { fmuls(t, fsubs(x, 60)) };
    let t = if op == 43 { t } else { fmuls(t, fsubs(x, 43)) };
    let t = if op == 45 { t } else { fmuls(t, fsubs(x, 45)) };
    let t = if op == 46 { t } else { fmuls(t, fsubs(x, 46)) };
    let t = if op == 44 { t } else { fmuls(t, fsubs(x, 44)) };
    let t = if op == 91 { t } else { fmuls(t, fsubs(x, 91)) };
    if op == 93 { t } else { fmuls(t, fsubs(x, 93)) }
}

/// `if_instr(op, x) = x - op`: zero exactly when `x` is the opcode `op`.
pub open spec fn if_instrs(op: int, x: int) -> int {
    fsubs(x, op)
}

/// Evaluates `instr_zerofier` at a field point.
pub fn instr_zerofier(x: u64) -> (r: u64)
    requires
        in_field(x as int),
    ensures
        in_field(r as int),
        r == instr_zerofiers(x as int),
{
    let mut t = fsub(x, 62);
    t = fmul(t, fsub(x, 60));
    t = fmul(t, fsub(x, 43));
    t = fmul(t, fsub(x, 45));
    t = fmul(t, fsub(x, 46));
    t = fmul(t, fsub(x, 44));
    t = fmul(t, fsub(x, 91));
    fmul(t, fsub(x, 93))
}

/// Evaluates `if_not_instr(op, -)` at a field point.
pub fn if_not_instr(op: u64, x: u64) -> (r: u64)
    requires
        is_opcode(op as int),
        in_field(x as int),
    ensures
        in_field(r as int),
        r == if_not_instrs(op as int, x as int),
{
    let mut t: u64 = if op == 62 { 1 } else { fsub(x, 62) };
    t = if op == 60 { t } else { fmul(t, fsub(x, 60)) };
    t = if op == 43 { t } else { fmul(t, fsub(x, 43)) };
    t = if op == 45 { t } else { fmul(t, fsub(x, 45)) };
    t = if op == 46 { t } else { fmul(t, fsub(x, 46)) };
    t = if op == 44 { t } else { fmul(t, fsub(x, 44)) };
    t = if op == 91 { t } else { fmul(t, fsub(x, 91)) };
    if op == 93 { t } else { fmul(t, fsub(x, 93)) }
}

/// Evaluates `if_instr(op, -)` at a field point.
pub fn if_instr(op: u64, x: u64) -> (r: u64)
    requires
        is_opcode(op as int),
        in_field(x as int),
    ensures
        in_field(r as int),
        r == if_instrs(op as int, x as int),
{
    fsub(x, op)
}

/// The zerofier vanishes on every opcode.
pub proof fn lemma_zerofier_opcode(x: int)
    requires
        is_opcode(x),
    ensures
        instr_zerofiers(x) == 0,
{
    broadcast use crate::field::lemma_fmuls_zero_right, crate::field::lemma_fmuls_zero_left;

    if x == 62 {
        assert(fsubs(62, 62) == 0);
        assert(instr_zerofiers(62) == 0);
    } else if x == 60 {
        assert(fsubs(60, 60) == 0);
        assert(instr_zerofiers(60) == 0);
    } else if x == 43 {
        assert(fsubs(43, 43) == 0);
        assert(instr_zerofiers(43) == 0);
    } else if x == 45 {
        assert(fsubs(45, 45) == 0);
        assert(instr_zerofiers(45) == 0);
    } else if x == 46 {
        assert(fsubs(46, 46) == 0);
        assert(instr_zerofiers(46) == 0);
    } else if x == 44 {
        assert(fsubs(44, 44) == 0);
        assert(instr_zerofiers(44) == 0);
    } else if x == 91 {
        assert(fsubs(91, 91) == 0);
        assert(instr_zerofiers(91) == 0);
    } else {
        assert(fsubs(93, 93) == 0);
        assert(instr_zerofiers(93) == 0);
    }
}

/// The zerofier does not vanish at the padding value zero.
pub proof fn lemma_zerofier_padding()
    ensures
        instr_zerofiers(0) != 0,
{
    assert(fmuls(18446744069414584259, 18446744069414584261) == 3720);
    assert(fmuls(3720, 18446744069414584278) == 18446744069414424361);
    assert(fmuls(18446744069414424361, 18446744069414584276) == 7198200);
    assert(fmuls(7198200, 18446744069414584275) == 18446744069083467121);
    assert(fmuls(18446744069083467121, 18446744069414584277) == 14569156800);
    assert(fmuls(14569156800, 18446744069414584230) == 18446742743621315521);
    assert(fmuls(18446742743621315521, 18446744069414584228) == 123298773998400);
    assert(instr_zerofiers(0) == 123298773998400);
}

/// The padding-gated deselector is nonzero at its own opcode.
#[verifier::rlimit(50)]
pub proof fn lemma_deselector_own(op: int)
    requires
        is_opcode(op),
    ensures
        if_not_instrs(op, op) != 0,
        fmuls(if_not_instrs(op, op), op) != 0,
{
    if op == 62 {
        assert(fmuls(2, 19) == 38);
        assert(fmuls(38, 17) == 646);
        assert(fmuls(646, 16) == 10336);
        assert(fmuls(10336, 18) == 186048);
        assert(fmuls(186048, 18446744069414584292) == 18446744069409188929);
        assert(fmuls(18446744069409188929, 18446744069414584290) == 167257152);
        assert(fmuls(167257152, 62) == 10369943424);
        assert(if_not_instrs(62, 62) == 167257152);
    } else if op == 60 {
        assert(fmuls(18446744069414584319, 17) == 18446744069414584287);
        assert(fmuls(18446744069414584287, 15) == 18446744069414583811);
        assert(fmuls(18446744069414583811, 14) == 18446744069414577181);
        assert(fmuls(18446744069414577181, 16) == 18446744069414470081);
        assert(fmuls(18446744069414470081, 18446744069414584290) == 3541440);
        assert(fmuls(3541440, 18446744069414584288) == 18446744069297716801);
        assert(fmuls(18446744069297716801, 60) == 18446744062402533121);
        assert(if_not_instrs(60, 60) == 18446744069297716801);
    } else if op == 43 {
        assert(fmuls(18446744069414584302, 18446744069414584304) == 323);
        assert(fmuls(323, 18446744069414584319) == 18446744069414583675);
        assert(fmuls(18446744069414583675, 18446744069414584318) == 1938);
        assert(fmuls(1938, 18446744069414584320) == 18446744069414582383);
        assert(fmuls(18446744069414582383, 18446744069414584273) == 93024);
        assert(fmuls(93024, 18446744069414584271) == 18446744069409933121);
        assert(fmuls(18446744069409933121, 43) == 18446744069214582721);
        assert(if_not_instrs(43, 43) == 18446744069409933121);
    } else if op == 45 {
        assert(fmuls(18446744069414584304, 18446744069414584306) == 255);
        assert(fmuls(255, 2) == 510);
        assert(fmuls(510, 18446744069414584320) == 18446744069414583811);
        assert(fmuls(18446744069414583811, 1) == 18446744069414583811);
        assert(fmuls(18446744069414583811, 18446744069414584275) == 23460);
        assert(fmuls(23460, 18446744069414584273) == 18446744069413458241);
        assert(fmuls(18446744069413458241, 45) == 18446744069363910721);
        assert(if_not_instrs(45, 45) == 18446744069413458241);
    } else if op == 46 {
        assert(fmuls(18446744069414584305, 18446744069414584307) == 224);
        assert(fmuls(224, 3) == 672);
        assert(fmuls(672, 1) == 672);
        assert(fmuls(672, 2) == 1344);
        assert(fmuls(1344, 18446744069414584276) == 18446744069414523841);
        assert(fmuls(18446744069414523841, 18446744069414584274) == 2842560);
        assert(fmuls(2842560, 46) == 130757760);
        assert(if_not_instrs(46, 46) == 2842560);
    } else if op == 44 {
        assert(fmuls(18446744069414584303, 18446744069414584305) == 288);
        assert(fmuls(288, 1) == 288);
        assert(fmuls(288, 18446744069414584320) == 18446744069414584033);
        assert(fmuls(18446744069414584033, 18446744069414584319) == 576);
        assert(fmuls(576, 18446744069414584274) == 18446744069414557249);
        assert(fmuls(18446744069414557249, 18446744069414584272) == 1326528);
        assert(fmuls(1326528, 44) == 58367232);
        assert(if_not_instrs(44, 44) == 1326528);
    } else if op == 91 {
        assert(fmuls(29, 31) == 899);
        assert(fmuls(899, 48) == 43152);
        assert(fmuls(43152, 46) == 1984992);
        assert(fmuls(1984992, 45) == 89324640);
        assert(fmuls(89324640, 47) == 4198258080);
        assert(fmuls(4198258080, 18446744069414584319) == 18446744061018068161);
        assert(fmuls(18446744061018068161, 91) == 18446743305331613761);
        assert(if_not_instrs(91, 91) == 18446744061018068161);
    } else if op == 93 {
        assert(fmuls(31, 33) == 1023);
        assert(fmuls(1023, 50) == 51150);
        assert(fmuls(51150, 48) == 2455200);
        assert(fmuls(2455200, 47) == 115394400);
        assert(fmuls(115394400, 49) == 5654325600);
        assert(fmuls(5654325600, 2) == 11308651200);
        assert(fmuls(11308651200, 93) == 1051704561600);
        assert(if_not_instrs(93, 93) == 11308651200);
    }
}

/// The deselector vanishes at every other opcode.
#[verifier::rlimit(100)]
pub proof fn lemma_deselector_other(op: int, x: int)
    requires
        is_opcode(op),
        is_opcode(x),
        x != op,
    ensures
        if_not_instrs(op, x) == 0,
{
    broadcast use crate::field::lemma_fmuls_zero_right, crate::field::lemma_fmuls_zero_left;

    if x == 62 {
        assert(fsubs(62, 62) == 0);
        assert(if_not_instrs(op, 62) == 0);
    } else if x == 60 {
        assert(fsubs(60, 60) == 0);
        assert(if_not_instrs(op, 60) == 0);
    } else if x == 43 {
        assert(fsubs(43, 43) == 0);
        assert(if_not_instrs(op, 43) == 0);
    } else if x == 45 {
        assert(fsubs(45, 45) == 0);
        assert(if_not_instrs(op, 45) == 0);
    } else if x == 46 {
        assert(fsubs(46, 46) == 0);
        assert(if_not_instrs(op, 46) == 0);
    } else if x == 44 {
        assert(fsubs(44, 44) == 0);
        assert(if_not_instrs(op, 44) == 0);
    } else if x == 91 {
        assert(fsubs(91, 91) == 0);
        assert(if_not_instrs(op, 91) == 0);
    } else {
        assert(fsubs(93, 93) == 0);
        assert(if_not_instrs(op, 93) == 0);
    }
}

/// For a well-formed `curr_instr` (an opcode, or zero on padding rows), the
/// padding-gated deselector `if_not_instr(op, x) * x` is nonzero exactly when
/// `x` is the opcode `op`.
pub proof fn lemma_deselector_selects(op: int, x: int)
    requires
        is_opcode(op),
        is_opcode(x) || x == 0,
    ensures
        fmuls(if_not_instrs(op, x), x) != 0 <==> x == op,
{
    broadcast use crate::field::lemma_fmuls_zero_right, crate::field::lemma_fmuls_zero_left;

    if x == op {
        lemma_deselector_own(op);
    } else if x != 0 {
        lemma_deselector_other(op, x);
    }
}

} // verus!
