//! Proof generation.
//!
//! The prover pads the execution trace, commits to the base columns,
//! derives the extension columns from the public-coin challenges, commits
//! to those and to the composition polynomial, evaluates everything at the
//! out-of-domain point, answers the query positions with Merkle openings,
//! and attaches the low-degree proof.

use vstd::prelude::*;
use crate::field::{P, GENERATOR, in_field, fadds, fsubs, fmuls, fpows, fadd, fmul, fsub, fpow};
use crate::trace::prog_at;
use crate::air::{Challenges, Hints, wf_challenges, wf_hints, NUM_BASE_COLUMNS, NUM_EXT_COLUMNS};
use crate::coin::{PublicCoin, le_bytes8, words_bytes, push_u64_le, push_words_le};
use crate::sim::BrainfuckTrace;
use crate::vm::VmError;

verus! {

/// Options of the protocol: how many trace positions are queried, by how
/// much the trace is blown up for the low-degree extension, and how many
/// leading zero bits the proof-of-work nonce must grind out.
#[derive(Debug, Clone, Copy, PartialEq, Eq, Structural)]
pub struct ProofOptions {
    pub num_queries: u8,
    pub expansion_factor: u8,
    pub grinding_factor: u8,
}

impl ProofOptions {
    /// Builds options with no grinding.
    pub fn new(num_queries: u8, expansion_factor: u8) -> (r: ProofOptions)
        ensures
            r.num_queries == num_queries,
            r.expansion_factor == expansion_factor,
            r.grinding_factor == 0,
    {
        ProofOptions { num_queries, expansion_factor, grinding_factor: 0 }
    }
}

/// The shape of the committed trace: its padded height and the number of
/// real Input and Output rows.
#[derive(Debug, Clone, Copy, PartialEq, Eq, Structural)]
pub struct TraceInfo {
    pub trace_len: u64,
    pub real_input_len: u64,
    pub real_output_len: u64,
}

/// The public inputs of one execution: the program and both tapes.
#[derive(Debug, Clone)]
pub struct PublicInputs {
    pub program: Vec<u64>,
    pub input: Vec<u8>,
    pub output: Vec<u8>,
}

/// The three parallel query-answer arrays and their Merkle openings.
#[derive(Debug, Clone)]
pub struct TraceQueries {
    pub base_trace_values: Vec<u64>,
    pub extension_trace_values: Vec<u64>,
    pub composition_trace_values: Vec<u64>,
    pub base_trace_proofs: Vec<Vec<Vec<u8>>>,
    pub extension_trace_proofs: Vec<Vec<Vec<u8>>>,
    pub composition_trace_proofs: Vec<Vec<Vec<u8>>>,
}

/// The low-degree proof: the coefficients of the DEEP composition
/// polynomial, which the verifier spot-checks at the query positions.
/// This is a direct low-degree certificate in place of a folding-based
/// proximity proof, so checking it is linear in the trace length rather
/// than polylogarithmic, and the proof carries no nested folding options.
#[derive(Debug, Clone)]
pub struct FriProof {
    pub coefficients: Vec<u64>,
}

/// The out-of-domain trace evaluations at `z` and at `z * g`.
#[derive(Debug, Clone)]
pub struct OodTraceStates {
    pub curr: Vec<u64>,
    pub next: Vec<u64>,
}

/// A generated proof.
#[derive(Debug, Clone)]
pub struct Proof {
    pub options: ProofOptions,
    pub trace_info: TraceInfo,
    pub public_inputs: PublicInputs,
    pub base_trace_commitment: Vec<u8>,
    pub extension_trace_commitment: Vec<u8>,
    pub composition_trace_commitment: Vec<u8>,
    pub ood_trace_states: OodTraceStates,
    pub ood_constraint_evaluations: Vec<u64>,
    pub trace_queries: TraceQueries,
    pub fri_proof: FriProof,
    pub pow_nonce: u64,
}

/// The canonical transcript seed: the public inputs, the trace shape and
/// the options.
#[verifier::opaque]
pub open spec fn seed_bytes_of(pi: PublicInputs, ti: TraceInfo, opt: ProofOptions) -> Seq<u8> {
    words_bytes(pi.program@) + pi.input@ + pi.output@ + le_bytes8(ti.trace_len) + le_bytes8(
        ti.real_input_len,
    ) + le_bytes8(ti.real_output_len) + seq![opt.num_queries, opt.expansion_factor, opt.grinding_factor]
}

/// Builds the canonical transcript seed.
pub fn seed_bytes(pi: &PublicInputs, ti: &TraceInfo, opt: &ProofOptions) -> (r: Vec<u8>)
    ensures
        r@ == seed_bytes_of(*pi, *ti, *opt),
{
    proof {
        reveal(seed_bytes_of);
    }
    let mut out: Vec<u8> = Vec::new();
    push_words_le(&mut out, &pi.program);
    let mut i: usize = 0;
    while i < pi.input.len()
        invariant
            0 <= i <= pi.input@.len(),
            out@ == words_bytes(pi.program@) + pi.input@.subrange(0, i as int),
        decreases pi.input@.len() - i,
    {
        out.push(pi.input[i]);
        i = i + 1;
        proof {
            assert(out@ =~= words_bytes(pi.program@) + pi.input@.subrange(0, i as int));
        }
    }
    proof {
        assert(pi.input@.subrange(0, pi.input@.len() as int) =~= pi.input@);
    }
    let mut j: usize = 0;
    while j < pi.output.len()
        invariant
            0 <= j <= pi.output@.len(),
            out@ == words_bytes(pi.program@) + pi.input@ + pi.output@.subrange(0, j as int),
        decreases pi.output@.len() - j,
    {
        out.push(pi.output[j]);
        j = j + 1;
        proof {
            assert(out@ =~= words_bytes(pi.program@) + pi.input@ + pi.output@.subrange(
                0,
                j as int,
            ));
        }
    }
    proof {
        assert(pi.output@.subrange(0, pi.output@.len() as int) =~= pi.output@);
    }
    push_u64_le(&mut out, ti.trace_len);
    push_u64_le(&mut out, ti.real_input_len);
    push_u64_le(&mut out, ti.real_output_len);
    out.push(opt.num_queries);
    out.push(opt.expansion_factor);
    out.push(opt.grinding_factor);
    proof {
        assert(out@ =~= seed_bytes_of(*pi, *ti, *opt));
    }
    out
}

/// Draws the eleven protocol challenges from the coin, in a fixed order.
pub fn draw_challenges(coin: &mut PublicCoin) -> (r: Challenges)
    requires
        old(coin).state@.len() == 32,
        old(coin).counter < 0xffff_0000,
    ensures
        wf_challenges(r),
        final(coin).state@ == old(coin).state@,
        final(coin).counter == old(coin).counter + 11,
        r == challenges_of(old(coin).state@, old(coin).counter as int),
{
    proof {
        reveal(challenges_of);
    }
    let alpha = coin.draw();
    let beta = coin.draw();
    let gamma = coin.draw();
    let delta = coin.draw();
    let eta = coin.draw();
    let a = coin.draw();
    let b = coin.draw();
    let c = coin.draw();
    let d = coin.draw();
    let e = coin.draw();
    let f = coin.draw();
    Challenges { alpha, beta, gamma, delta, eta, a, b, c, d, e, f }
}

/// The challenges determined by a coin state and counter.
#[verifier::opaque]
pub open spec fn challenges_of(state: Seq<u8>, counter: int) -> Challenges {
    Challenges {
        alpha: crate::coin::draw_of(state, counter + 1) as u64,
        beta: crate::coin::draw_of(state, counter + 2) as u64,
        gamma: crate::coin::draw_of(state, counter + 3) as u64,
        delta: crate::coin::draw_of(state, counter + 4) as u64,
        eta: crate::coin::draw_of(state, counter + 5) as u64,
        a: crate::coin::draw_of(state, counter + 6) as u64,
        b: crate::coin::draw_of(state, counter + 7) as u64,
        c: crate::coin::draw_of(state, counter + 8) as u64,
        d: crate::coin::draw_of(state, counter + 9) as u64,
        e: crate::coin::draw_of(state, counter + 10) as u64,
        f: crate::coin::draw_of(state, counter + 11) as u64,
    }
}

/// The running evaluation of a value stream under a folding scalar.
pub open spec fn eval_fold(vals: Seq<u64>, scalar: int) -> int
    decreases vals.len(),
{
    if vals.len() == 0 {
        0
    } else {
        fadds(fmuls(scalar, eval_fold(vals.drop_last(), scalar)), vals.last() as int)
    }
}

/// The program evaluation folded over addresses `0..=i`.
pub open spec fn prog_eval_fold(p: Seq<u64>, ch: Challenges, i: int) -> int
    decreases i,
{
    if i <= 0 {
        fadds(fmuls(ch.b as int, prog_at(p, 0)), fmuls(ch.c as int, prog_at(p, 1)))
    } else {
        fadds(
            fadds(
                fadds(fmuls(ch.eta as int, prog_eval_fold(p, ch, i - 1)), fmuls(ch.a as int, i)),
                fmuls(ch.b as int, prog_at(p, i)),
            ),
            fmuls(ch.c as int, prog_at(p, i + 1)),
        )
    }
}

/// The four hint values determined by the public inputs, the trace height
/// and the challenges.
#[verifier::opaque]
pub open spec fn hints_of(
    program: Seq<u64>,
    input: Seq<u8>,
    output: Seq<u8>,
    height: int,
    ch: Challenges,
) -> Hints {
    Hints {
        input: eval_fold(input.map_values(|b: u8| b as u64), ch.gamma as int) as u64,
        output: eval_fold(output.map_values(|b: u8| b as u64), ch.delta as int) as u64,
        instruction: prog_eval_fold(program, ch, program.len() as int) as u64,
        input_offset: fpows(ch.gamma as int, (height - input.len()) as nat) as u64,
        output_offset: fpows(ch.delta as int, (height - output.len()) as nat) as u64,
    }
}

/// Computes the hints from the public inputs.
pub fn compute_hints(
    program: &Vec<u64>,
    input: &Vec<u8>,
    output: &Vec<u8>,
    height: u64,
    ch: &Challenges,
) -> (r: Hints)
    requires
        wf_challenges(*ch),
        forall|i: int| 0 <= i < program@.len() ==> in_field((#[trigger] program@[i]) as int),
        program@.len() < 0x1000_0000,
        input@.len() <= height,
        output@.len() <= height,
    ensures
        wf_hints(r),
        r == hints_of(program@, input@, output@, height as int, *ch),
{
    proof {
        reveal(hints_of);
    }
    let mut e_in: u64 = 0;
    let mut i: usize = 0;
    while i < input.len()
        invariant
            0 <= i <= input@.len(),
            wf_challenges(*ch),
            in_field(e_in as int),
            e_in == eval_fold(input@.subrange(0, i as int).map_values(|b: u8| b as u64), ch.gamma as int),
        decreases input@.len() - i,
    {
        e_in = fadd(fmul(ch.gamma, e_in), input[i] as u64);
        i = i + 1;
        proof {
            let pre = input@.subrange(0, i - 1).map_values(|b: u8| b as u64);
            let cur = input@.subrange(0, i as int).map_values(|b: u8| b as u64);
            assert(cur.drop_last() =~= pre);
            assert(cur.last() == input@[i - 1] as u64);
        }
    }
    proof {
        assert(input@.subrange(0, input@.len() as int) =~= input@);
    }
    let mut e_out: u64 = 0;
    let mut j: usize = 0;
    while j < output.len()
        invariant
            0 <= j <= output@.len(),
            wf_challenges(*ch),
            in_field(e_out as int),
            e_out == eval_fold(output@.subrange(0, j as int).map_values(|b: u8| b as u64), ch.delta as int),
        decreases output@.len() - j,
    {
        e_out = fadd(fmul(ch.delta, e_out), output[j] as u64);
        j = j + 1;
        proof {
            let pre = output@.subrange(0, j - 1).map_values(|b: u8| b as u64);
            let cur = output@.subrange(0, j as int).map_values(|b: u8| b as u64);
            assert(cur.drop_last() =~= pre);
            assert(cur.last() == output@[j - 1] as u64);
        }
    }
    proof {
        assert(output@.subrange(0, output@.len() as int) =~= output@);
    }
    let p0 = if program.len() > 0 {
        program[0]
    } else {
        0
    };
    let p1 = if program.len() > 1 {
        program[1]
    } else {
        0
    };
    let mut e_prog: u64 = fadd(fmul(ch.b, p0), fmul(ch.c, p1));
    let mut k: usize = 1;
    let l = program.len();
    while k <= l
        invariant
            1 <= k <= l + 1,
            l == program@.len() < 0x1000_0000,
            wf_challenges(*ch),
            forall|t: int| 0 <= t < program@.len() ==> in_field((#[trigger] program@[t]) as int),
            in_field(e_prog as int),
            e_prog == prog_eval_fold(program@, *ch, k - 1),
        decreases l + 1 - k,
    {
        let pk = if k < l {
            program[k]
        } else {
            0
        };
        let pk1 = if k + 1 < l {
            program[k + 1]
        } else {
            0
        };
        e_prog = fadd(
            fadd(fadd(fmul(ch.eta, e_prog), fmul(ch.a, k as u64)), fmul(ch.b, pk)),
            fmul(ch.c, pk1),
        );
        k = k + 1;
    }
    let in_off = fpow(ch.gamma, height - input.len() as u64);
    let out_off = fpow(ch.delta, height - output.len() as u64);
    Hints {
        input: e_in,
        output: e_out,
        instruction: e_prog,
        input_offset: in_off,
        output_offset: out_off,
    }
}

/// One Merkle leaf: the digest of a row's canonical bytes.
pub fn row_leaf(row: &Vec<u64>) -> (r: Vec<u8>)
    ensures
        r@ == crate::coin::sha256_of(words_bytes(row@)),
        r@.len() == 32,
{
    let mut buf: Vec<u8> = Vec::new();
    push_words_le(&mut buf, row);
    proof {
        assert(buf@ =~= words_bytes(row@));
    }
    crate::coin::hash_bytes(&buf)
}

/// The value of base column `c` at row `i`: the named table entry of
/// spec's column layout, reduced into the field.
pub open spec fn base_column_value(t: BrainfuckTrace, c: int, i: int) -> int {
    (if c == 0 {
        t.processor@[i].cycle
    } else if c == 1 {
        t.processor@[i].ip
    } else if c == 2 {
        t.processor@[i].curr_instr
    } else if c == 3 {
        t.processor@[i].next_instr
    } else if c == 4 {
        t.processor@[i].mp
    } else if c == 5 {
        t.processor@[i].mem_val
    } else if c == 6 {
        t.processor@[i].mem_val_inv
    } else if c == 7 {
        t.processor@[i].dummy
    } else if c == 8 {
        t.instruction@[i].ip
    } else if c == 9 {
        t.instruction@[i].curr_instr
    } else if c == 10 {
        t.instruction@[i].next_instr
    } else if c == 11 {
        t.memory@[i].cycle
    } else if c == 12 {
        t.memory@[i].mp
    } else if c == 13 {
        t.memory@[i].mem_val
    } else if c == 14 {
        t.memory@[i].dummy
    } else if c == 15 {
        t.input@[i]
    } else {
        t.output@[i]
    }) as int % (P as int)
}

/// Collects the seventeen base columns of a padded trace, with every entry
/// reduced into the field.
pub fn base_columns(t: &BrainfuckTrace) -> (r: Vec<Vec<u64>>)
    requires
        t.processor@.len() == t.height,
        t.memory@.len() == t.height,
        t.instruction@.len() == t.height,
        t.input@.len() == t.height,
        t.output@.len() == t.height,
    ensures
        r@.len() == NUM_BASE_COLUMNS,
        forall|c: int| 0 <= c < r@.len() ==> (#[trigger] r@[c])@.len() == t.height,
        forall|c: int, i: int|
            0 <= c < r@.len() && 0 <= i < t.height ==> in_field(#[trigger] r@[c]@[i] as int),
        forall|c: int, i: int|
            0 <= c < r@.len() && 0 <= i < t.height ==> #[trigger] r@[c]@[i]
                == base_column_value(*t, c, i),
{
    let n = t.height;
    let mut cols: Vec<Vec<u64>> = Vec::new();
    let mut c: usize = 0;
    while c < 17
        invariant
            0 <= c <= 17,
            cols@.len() == c,
            n == t.height,
            t.processor@.len() == n,
            t.memory@.len() == n,
            t.instruction@.len() == n,
            t.input@.len() == n,
            t.output@.len() == n,
            forall|k: int| 0 <= k < cols@.len() ==> (#[trigger] cols@[k])@.len() == n,
            forall|k: int, i: int|
                0 <= k < cols@.len() && 0 <= i < n ==> in_field(#[trigger] cols@[k]@[i] as int),
            forall|k: int, i: int|
                0 <= k < cols@.len() && 0 <= i < n ==> #[trigger] cols@[k]@[i]
                    == base_column_value(*t, k, i),
        decreases 17 - c,
    {
        let mut col: Vec<u64> = Vec::new();
        let mut i: usize = 0;
        while i < n
            invariant
                0 <= i <= n,
                0 <= c < 17,
                col@.len() == i,
                n == t.height,
                t.processor@.len() == n,
                t.memory@.len() == n,
                t.instruction@.len() == n,
                t.input@.len() == n,
                t.output@.len() == n,
                forall|j: int| 0 <= j < col@.len() ==> in_field(((#[trigger] col@[j]) as int)),
                forall|j: int|
                    0 <= j < col@.len() ==> #[trigger] col@[j] == base_column_value(
                        *t,
                        c as int,
                        j,
                    ),
            decreases n - i,
        {
            let v: u64 = if c == 0 {
                t.processor[i].cycle
            } else if c == 1 {
                t.processor[i].ip
            } else if c == 2 {
                t.processor[i].curr_instr
            } else if c == 3 {
                t.processor[i].next_instr
            } else if c == 4 {
                t.processor[i].mp
            } else if c == 5 {
                t.processor[i].mem_val
            } else if c == 6 {
                t.processor[i].mem_val_inv
            } else if c == 7 {
                t.processor[i].dummy
            } else if c == 8 {
                t.instruction[i].ip
            } else if c == 9 {
                t.instruction[i].curr_instr
            } else if c == 10 {
                t.instruction[i].next_instr
            } else if c == 11 {
                t.memory[i].cycle
            } else if c == 12 {
                t.memory[i].mp
            } else if c == 13 {
                t.memory[i].mem_val
            } else if c == 14 {
                t.memory[i].dummy
            } else if c == 15 {
                t.input[i]
            } else {
                t.output[i]
            };
            col.push(v % P);
            i = i + 1;
        }
        cols.push(col);
        c = c + 1;
    }
    cols
}

/// The initial value of extension column `k` over base columns `b`: one
/// for the permutation products, zero for the processor evaluations, the
/// first program tuple for the program evaluation, and the first table
/// value for the tape evaluations.
pub open spec fn ext_init(ch: Challenges, b: Seq<Seq<u64>>, k: int) -> int {
    if k == 5 {
        fadds(
            fadds(fmuls(ch.a as int, b[8][0] as int), fmuls(ch.b as int, b[9][0] as int)),
            fmuls(ch.c as int, b[10][0] as int),
        )
    } else if k == 7 {
        b[15][0] as int
    } else if k == 8 {
        b[16][0] as int
    } else if k == 2 || k == 3 {
        0
    } else {
        1
    }
}

/// The running-product or running-evaluation step of extension column `k`
/// from row `i` to row `i + 1`, per spec's cross-table arguments: the
/// processor-side permutations fold their row tuple on non-padding rows,
/// the instruction-side permutation folds the duplicate row's tuple when
/// the address repeats, the memory-side permutation folds non-dummy rows,
/// the tape evaluations fold every row, and the processor evaluations fold
/// at reads and writes.
pub open spec fn ext_step(ch: Challenges, b: Seq<Seq<u64>>, n: int, k: int, i: int, prev: int) -> int {
    if k == 0 {
        if b[2][i] != 0 {
            fmuls(
                prev,
                fsubs(
                    fsubs(
                        fsubs(ch.alpha as int, fmuls(ch.a as int, b[1][i] as int)),
                        fmuls(ch.b as int, b[2][i] as int),
                    ),
                    fmuls(ch.c as int, b[3][i] as int),
                ),
            )
        } else {
            prev
        }
    } else if k == 1 {
        if b[2][i] != 0 {
            fmuls(
                prev,
                fsubs(
                    fsubs(
                        fsubs(ch.beta as int, fmuls(ch.d as int, b[0][i] as int)),
                        fmuls(ch.e as int, b[4][i] as int),
                    ),
                    fmuls(ch.f as int, b[5][i] as int),
                ),
            )
        } else {
            prev
        }
    } else if k == 2 {
        if b[2][i] == 44 && i + 1 < n {
            fadds(fmuls(ch.gamma as int, prev), b[5][i + 1] as int)
        } else {
            prev
        }
    } else if k == 3 {
        if b[2][i] == 46 {
            fadds(fmuls(ch.delta as int, prev), b[5][i] as int)
        } else {
            prev
        }
    } else if k == 4 {
        if i + 1 < n && b[9][i] != 0 && b[8][i + 1] == b[8][i] {
            fmuls(
                prev,
                fsubs(
                    fsubs(
                        fsubs(ch.alpha as int, fmuls(ch.a as int, b[8][i + 1] as int)),
                        fmuls(ch.b as int, b[9][i + 1] as int),
                    ),
                    fmuls(ch.c as int, b[10][i + 1] as int),
                ),
            )
        } else {
            prev
        }
    } else if k == 5 {
        if i + 1 < n && b[8][i + 1] != b[8][i] {
            fadds(
                fadds(
                    fadds(fmuls(ch.eta as int, prev), fmuls(ch.a as int, b[8][i + 1] as int)),
                    fmuls(ch.b as int, b[9][i + 1] as int),
                ),
                fmuls(ch.c as int, b[10][i + 1] as int),
            )
        } else {
            prev
        }
    } else if k == 6 {
        if b[14][i] == 0 {
            fmuls(
                prev,
                fsubs(
                    fsubs(
                        fsubs(ch.beta as int, fmuls(ch.d as int, b[11][i] as int)),
                        fmuls(ch.e as int, b[12][i] as int),
                    ),
                    fmuls(ch.f as int, b[13][i] as int),
                ),
            )
        } else {
            prev
        }
    } else if k == 7 {
        if i + 1 < n {
            fadds(fmuls(ch.gamma as int, prev), b[15][i + 1] as int)
        } else {
            prev
        }
    } else {
        if i + 1 < n {
            fadds(fmuls(ch.delta as int, prev), b[16][i + 1] as int)
        } else {
            prev
        }
    }
}

/// Derives the nine extension columns from the base trace and the
/// challenges.  Each column starts at its initial value and follows its
/// running-product or running-evaluation recurrence row by row.
#[verifier::rlimit(100)]
pub fn extension_columns(base: &Vec<Vec<u64>>, ch: &Challenges, n: usize) -> (r: Vec<Vec<u64>>)
    requires
        wf_challenges(*ch),
        base@.len() == NUM_BASE_COLUMNS,
        n >= 1,
        forall|c: int| 0 <= c < base@.len() ==> (#[trigger] base@[c])@.len() == n,
        forall|c: int, i: int|
            0 <= c < base@.len() && 0 <= i < n ==> in_field(#[trigger] base@[c]@[i] as int),
    ensures
        r@.len() == NUM_EXT_COLUMNS,
        forall|c: int| 0 <= c < r@.len() ==> (#[trigger] r@[c])@.len() == n,
        forall|c: int, i: int|
            0 <= c < r@.len() && 0 <= i < n ==> in_field(#[trigger] r@[c]@[i] as int),
        forall|k: int|
            0 <= k < r@.len() ==> #[trigger] r@[k]@[0] == ext_init(
                *ch,
                base@.map_values(|v: Vec<u64>| v@),
                k,
            ),
        forall|k: int, i: int|
            0 <= k < r@.len() && 0 <= i < n - 1 ==> #[trigger] r@[k]@[i + 1] == ext_step(
                *ch,
                base@.map_values(|v: Vec<u64>| v@),
                n as int,
                k,
                i,
                r@[k]@[i] as int,
            ),
{
    let ghost bs = base@.map_values(|v: Vec<u64>| v@);
    let mut ext: Vec<Vec<u64>> = Vec::new();
    let mut k: usize = 0;
    while k < 9
        invariant
            0 <= k <= 9,
            wf_challenges(*ch),
            base@.len() == NUM_BASE_COLUMNS,
            n >= 1,
            bs == base@.map_values(|v: Vec<u64>| v@),
            forall|c: int| 0 <= c < base@.len() ==> (#[trigger] base@[c])@.len() == n,
            forall|c: int, i: int|
                0 <= c < base@.len() && 0 <= i < n ==> in_field(
                    #[trigger] base@[c]@[i] as int,
                ),
            ext@.len() == k,
            forall|c: int| 0 <= c < k ==> (#[trigger] ext@[c])@.len() == n,
            forall|c: int, i: int|
                0 <= c < k && 0 <= i < n ==> in_field(#[trigger] ext@[c]@[i] as int),
            forall|c: int| 0 <= c < k ==> #[trigger] ext@[c]@[0] == ext_init(*ch, bs, c),
            forall|c: int, i: int|
                0 <= c < k && 0 <= i < n - 1 ==> #[trigger] ext@[c]@[i + 1] == ext_step(
                    *ch,
                    bs,
                    n as int,
                    c,
                    i,
                    ext@[c]@[i] as int,
                ),
        decreases 9 - k,
    {
        let mut col: Vec<u64> = Vec::new();
        let mut v: u64 = if k == 5 {
            fadd(
                fadd(fmul(ch.a, base[8][0]), fmul(ch.b, base[9][0])),
                fmul(ch.c, base[10][0]),
            )
        } else if k == 7 {
            base[15][0]
        } else if k == 8 {
            base[16][0]
        } else if k == 2 || k == 3 {
            0
        } else {
            1
        };
        proof {
            assert(bs[8] == base@[8]@ && bs[9] == base@[9]@ && bs[10] == base@[10]@ && bs[15]
                == base@[15]@ && bs[16] == base@[16]@);
            assert(v == ext_init(*ch, bs, k as int));
        }
        let mut i: usize = 0;
        while i < n
            invariant
                0 <= i <= n,
                0 <= k < 9,
                wf_challenges(*ch),
                base@.len() == NUM_BASE_COLUMNS,
                n >= 1,
                bs == base@.map_values(|v2: Vec<u64>| v2@),
                forall|c: int| 0 <= c < base@.len() ==> (#[trigger] base@[c])@.len() == n,
                forall|c: int, t: int|
                    0 <= c < base@.len() && 0 <= t < n ==> in_field(
                        #[trigger] base@[c]@[t] as int,
                    ),
                in_field(v as int),
                col@.len() == i,
                forall|j: int| 0 <= j < col@.len() ==> in_field((#[trigger] col@[j]) as int),
                i == 0 ==> v == ext_init(*ch, bs, k as int),
                i >= 1 ==> col@[0] == ext_init(*ch, bs, k as int),
                i >= 1 ==> v == ext_step(*ch, bs, n as int, k as int, i - 1, col@[i - 1] as int),
                forall|j: int|
                    0 <= j < i - 1 ==> #[trigger] col@[j + 1] == ext_step(
                        *ch,
                        bs,
                        n as int,
                        k as int,
                        j,
                        col@[j] as int,
                    ),
            decreases n - i,
        {
            col.push(v);
            if k == 0 {
                if base[2][i] != 0 {
                    let term = fsub(
                        fsub(fsub(ch.alpha, fmul(ch.a, base[1][i])), fmul(ch.b, base[2][i])),
                        fmul(ch.c, base[3][i]),
                    );
                    v = fmul(v, term);
                }
            } else if k == 1 {
                if base[2][i] != 0 {
                    let term = fsub(
                        fsub(fsub(ch.beta, fmul(ch.d, base[0][i])), fmul(ch.e, base[4][i])),
                        fmul(ch.f, base[5][i]),
                    );
                    v = fmul(v, term);
                }
            } else if k == 2 {
                if base[2][i] == 44 && i + 1 < n {
                    v = fadd(fmul(ch.gamma, v), base[5][i + 1]);
                }
            } else if k == 3 {
                if base[2][i] == 46 {
                    v = fadd(fmul(ch.delta, v), base[5][i]);
                }
            } else if k == 4 {
                if i + 1 < n && base[9][i] != 0 && base[8][i + 1] == base[8][i] {
                    let term = fsub(
                        fsub(
                            fsub(ch.alpha, fmul(ch.a, base[8][i + 1])),
                            fmul(ch.b, base[9][i + 1]),
                        ),
                        fmul(ch.c, base[10][i + 1]),
                    );
                    v = fmul(v, term);
                }
            } else if k == 5 {
                if i + 1 < n && base[8][i + 1] != base[8][i] {
                    v = fadd(
                        fadd(
                            fadd(fmul(ch.eta, v), fmul(ch.a, base[8][i + 1])),
                            fmul(ch.b, base[9][i + 1]),
                        ),
                        fmul(ch.c, base[10][i + 1]),
                    );
                }
            } else if k == 6 {
                if base[14][i] == 0 {
                    let term = fsub(
                        fsub(
                            fsub(ch.beta, fmul(ch.d, base[11][i])),
                            fmul(ch.e, base[12][i]),
                        ),
                        fmul(ch.f, base[13][i]),
                    );
                    v = fmul(v, term);
                }
            } else if k == 7 {
                if i + 1 < n {
                    v = fadd(fmul(ch.gamma, v), base[15][i + 1]);
                }
            } else {
                if i + 1 < n {
                    v = fadd(fmul(ch.delta, v), base[16][i + 1]);
                }
            }
            i = i + 1;
            proof {
                assert(forall|c: int| 0 <= c < 17 ==> #[trigger] bs[c] == base@[c]@);
                assert(v == ext_step(*ch, bs, n as int, k as int, i - 1, col@[i - 1] as int));
            }
        }
        ext.push(col);
        k = k + 1;
    }
    ext
}


/// Copies a word vector.
fn copy_words(v: &Vec<u64>) -> (r: Vec<u64>)
    ensures
        r@ == v@,
{
    let mut out: Vec<u64> = Vec::new();
    let mut i: usize = 0;
    while i < v.len()
        invariant
            0 <= i <= v@.len(),
            out@ == v@.subrange(0, i as int),
        decreases v@.len() - i,
    {
        out.push(v[i]);
        i = i + 1;
        proof {
            assert(out@ =~= v@.subrange(0, i as int));
        }
    }
    proof {
        assert(v@.subrange(0, v@.len() as int) =~= v@);
    }
    out
}

/// Copies a byte-vector prefix.
fn copy_byte_prefix(v: &Vec<u8>, k: usize) -> (r: Vec<u8>)
    requires
        k <= v@.len(),
    ensures
        r@ == v@.subrange(0, k as int),
{
    let mut out: Vec<u8> = Vec::new();
    let mut i: usize = 0;
    while i < k
        invariant
            0 <= i <= k <= v@.len(),
            out@ == v@.subrange(0, i as int),
        decreases k - i,
    {
        out.push(v[i]);
        i = i + 1;
        proof {
            assert(out@ =~= v@.subrange(0, i as int));
        }
    }
    out
}

/// Interpolates every column on its domain and evaluates it on the
/// low-degree-extension points.
fn lde_columns(cols: &Vec<Vec<u64>>, n: usize, omega: u64, offset: u64, xs: &Vec<u64>) -> (r: (
    Vec<Vec<u64>>,
    Vec<Vec<u64>>,
))
    requires
        1 <= n < P,
        in_field(omega as int),
        in_field(offset as int),
        forall|c: int| 0 <= c < cols@.len() ==> (#[trigger] cols@[c])@.len() == n,
        forall|c: int, i: int|
            0 <= c < cols@.len() && 0 <= i < n ==> in_field(#[trigger] cols@[c]@[i] as int),
        forall|i: int| 0 <= i < xs@.len() ==> in_field((#[trigger] xs@[i]) as int),
    ensures
        r.0@.len() == cols@.len(),
        r.1@.len() == cols@.len(),
        forall|c: int| 0 <= c < r.0@.len() ==> (#[trigger] r.0@[c])@.len() == n,
        forall|c: int| 0 <= c < r.1@.len() ==> (#[trigger] r.1@[c])@.len() == xs@.len(),
        forall|c: int, i: int|
            0 <= c < r.0@.len() && 0 <= i < n ==> in_field(#[trigger] r.0@[c]@[i] as int),
        forall|c: int, i: int|
            0 <= c < r.1@.len() && 0 <= i < xs@.len() ==> in_field(
                #[trigger] r.1@[c]@[i] as int,
            ),
{
    let mut coeffs: Vec<Vec<u64>> = Vec::new();
    let mut evals: Vec<Vec<u64>> = Vec::new();
    let mut c: usize = 0;
    while c < cols.len()
        invariant
            0 <= c <= cols@.len(),
            1 <= n < P,
            in_field(omega as int),
            in_field(offset as int),
            forall|t: int| 0 <= t < cols@.len() ==> (#[trigger] cols@[t])@.len() == n,
            forall|t: int, i: int|
                0 <= t < cols@.len() && 0 <= i < n ==> in_field(
                    #[trigger] cols@[t]@[i] as int,
                ),
            forall|i: int| 0 <= i < xs@.len() ==> in_field((#[trigger] xs@[i]) as int),
            coeffs@.len() == c,
            evals@.len() == c,
            forall|t: int| 0 <= t < c ==> (#[trigger] coeffs@[t])@.len() == n,
            forall|t: int| 0 <= t < c ==> (#[trigger] evals@[t])@.len() == xs@.len(),
            forall|t: int, i: int|
                0 <= t < c && 0 <= i < n ==> in_field(#[trigger] coeffs@[t]@[i] as int),
            forall|t: int, i: int|
                0 <= t < c && 0 <= i < xs@.len() ==> in_field(#[trigger] evals@[t]@[i] as int),
        decreases cols@.len() - c,
    {
        let col_coeffs = crate::poly::interpolate_coset(&cols[c], omega, offset);
        let mut col_evals: Vec<u64> = Vec::new();
        let mut i: usize = 0;
        while i < xs.len()
            invariant
                0 <= i <= xs@.len(),
                col_coeffs@.len() == n,
                forall|t: int|
                    0 <= t < col_coeffs@.len() ==> in_field((#[trigger] col_coeffs@[t]) as int),
                forall|t: int| 0 <= t < xs@.len() ==> in_field((#[trigger] xs@[t]) as int),
                col_evals@.len() == i,
                forall|t: int|
                    0 <= t < i ==> in_field((#[trigger] col_evals@[t]) as int),
            decreases xs@.len() - i,
        {
            col_evals.push(crate::poly::poly_eval(&col_coeffs, xs[i]));
            i = i + 1;
        }
        coeffs.push(col_coeffs);
        evals.push(col_evals);
        c = c + 1;
    }
    (coeffs, evals)
}

/// Collects the row at one domain index across a set of column
/// evaluations.
fn row_at(columns: &Vec<Vec<u64>>, i: usize, l: usize) -> (r: Vec<u64>)
    requires
        forall|c: int| 0 <= c < columns@.len() ==> (#[trigger] columns@[c])@.len() == l,
        forall|c: int, t: int|
            0 <= c < columns@.len() && 0 <= t < l ==> in_field(
                #[trigger] columns@[c]@[t] as int,
            ),
        i < l,
    ensures
        r@.len() == columns@.len(),
        forall|c: int| 0 <= c < r@.len() ==> #[trigger] r@[c] == columns@[c]@[i as int],
        forall|c: int| 0 <= c < r@.len() ==> in_field((#[trigger] r@[c]) as int),
{
    let mut row: Vec<u64> = Vec::new();
    let mut c: usize = 0;
    while c < columns.len()
        invariant
            0 <= c <= columns@.len(),
            i < l,
            forall|t: int| 0 <= t < columns@.len() ==> (#[trigger] columns@[t])@.len() == l,
            forall|t: int, u: int|
                0 <= t < columns@.len() && 0 <= u < l ==> in_field(
                    #[trigger] columns@[t]@[u] as int,
                ),
            row@.len() == c,
            forall|t: int| 0 <= t < c ==> #[trigger] row@[t] == columns@[t]@[i as int],
        decreases columns@.len() - c,
    {
        row.push(columns[c][i]);
        c = c + 1;
    }
    row
}

/// Commits to a set of column evaluations: hashes every row into a leaf
/// and builds the Merkle tree.  Every returned opening resolves its row's
/// leaf digest to the returned root.
fn commit_columns(columns: &Vec<Vec<u64>>, l: usize) -> (r: (Vec<u8>, Vec<Vec<Vec<u8>>>, Vec<
    Vec<u64>,
>))
    requires
        l >= 1,
        crate::trace::is_pow2(l as nat),
        forall|c: int| 0 <= c < columns@.len() ==> (#[trigger] columns@[c])@.len() == l,
        forall|c: int, t: int|
            0 <= c < columns@.len() && 0 <= t < l ==> in_field(
                #[trigger] columns@[c]@[t] as int,
            ),
    ensures
        r.1@.len() == l,
        r.2@.len() == l,
        forall|q: int| 0 <= q < l ==> (#[trigger] r.2@[q])@.len() == columns@.len(),
        forall|q: int, c: int|
            0 <= q < l && 0 <= c < columns@.len() ==> in_field(#[trigger] r.2@[q]@[c] as int),
        forall|q: int|
            0 <= q < l ==> crate::merkle::path_root(
                crate::coin::sha256_of(words_bytes((#[trigger] r.2@[q])@)),
                r.1@[q]@.map_values(|w: Vec<u8>| w@),
                q,
            ) == r.0@,
{
    let mut rows: Vec<Vec<u64>> = Vec::new();
    let mut leaves: Vec<Vec<u8>> = Vec::new();
    let mut i: usize = 0;
    while i < l
        invariant
            0 <= i <= l,
            forall|c: int| 0 <= c < columns@.len() ==> (#[trigger] columns@[c])@.len() == l,
            forall|c: int, t: int|
                0 <= c < columns@.len() && 0 <= t < l ==> in_field(
                    #[trigger] columns@[c]@[t] as int,
                ),
            rows@.len() == i,
            leaves@.len() == i,
            forall|q: int| 0 <= q < i ==> (#[trigger] rows@[q])@.len() == columns@.len(),
            forall|q: int, c: int|
                0 <= q < i && 0 <= c < columns@.len() ==> in_field(
                    #[trigger] rows@[q]@[c] as int,
                ),
            forall|q: int| 0 <= q < i ==> (#[trigger] leaves@[q])@.len() == 32,
            forall|q: int|
                0 <= q < i ==> (#[trigger] leaves@[q])@ == crate::coin::sha256_of(
                    words_bytes(rows@[q]@),
                ),
        decreases l - i,
    {
        let row = row_at(columns, i, l);
        leaves.push(row_leaf(&row));
        rows.push(row);
        i = i + 1;
    }
    let (root, paths) = crate::merkle::commit_with_paths(&leaves);
    (root, paths, rows)
}

/// Generates a proof for one program execution: simulates the trace,
/// commits to base, extension and composition columns, evaluates at the
/// out-of-domain point, grinds the nonce if asked, and answers the query
/// positions with Merkle openings and the DEEP polynomial.
#[verifier::rlimit(100)]
#[verifier::spinoff_prover]
pub fn prove(program: &Vec<u64>, input: &Vec<u8>, options: ProofOptions) -> (r: Result<
    Proof,
    VmError,
>)
    requires
        program@.len() < 0x1000_0000,
        forall|i: int| 0 <= i < program@.len() ==> in_field((#[trigger] program@[i]) as int),
        options.num_queries >= 1,
        crate::trace::is_pow2(options.expansion_factor as nat),
        options.expansion_factor >= 16,
        options.grinding_factor <= 32,
    ensures
        r is Ok ==> crate::verify::wf_proof(r->Ok_0),
        r is Ok ==> r->Ok_0.options == options,
        r is Ok ==> r->Ok_0.public_inputs.program@ == program@,
        r is Ok ==> r->Ok_0.public_inputs.input@ == input@.subrange(
            0,
            r->Ok_0.trace_info.real_input_len as int,
        ),
{
    let (trace, out_bytes) = match crate::sim::simulate(program, input) {
        Ok(x) => x,
        Err(e) => {
            return Err(e);
        },
    };
    let n = trace.height;
    if n < 2 || n > 0x10_0000 {
        return Err(VmError::ResourceExhausted);
    }
    let e_factor = options.expansion_factor as usize;
    proof {
        assert((n as int) * (e_factor as int) <= 0x10_0000 * 255 && (n as int) * (e_factor as int)
            >= 32 && (n as int) * (e_factor as int) >= 16 * (n as int) && (n as int) * (
        e_factor as int) >= 2 * (e_factor as int)) by (nonlinear_arith)
            requires 2 <= n <= 0x10_0000 && 16 <= e_factor <= 255;
    }
    let l = n * e_factor;
    proof {
        crate::trace::lemma_pow2_mul(n as nat, e_factor as nat);
        assert((n * e_factor) as nat == (n as nat) * (e_factor as nat)) by (nonlinear_arith);
        assert(crate::trace::is_pow2(l as nat));
    }
    let real_input_len = trace.real_input_len;
    let real_output_len = trace.real_output_len;
    let public_inputs = PublicInputs {
        program: copy_words(program),
        input: copy_byte_prefix(input, real_input_len),
        output: out_bytes,
    };
    let trace_info = TraceInfo {
        trace_len: n as u64,
        real_input_len: real_input_len as u64,
        real_output_len: real_output_len as u64,
    };
    let base = base_columns(&trace);
    let g_trace = crate::poly::domain_generator(n as u64);
    let omega_l = crate::poly::domain_generator(l as u64);
    let mut xs: Vec<u64> = Vec::new();
    let mut x: u64 = GENERATOR;
    let mut i: usize = 0;
    while i < l
        invariant
            0 <= i <= l,
            in_field(x as int),
            in_field(omega_l as int),
            xs@.len() == i,
            forall|t: int| 0 <= t < i ==> in_field((#[trigger] xs@[t]) as int),
        decreases l - i,
    {
        xs.push(x);
        x = fmul(x, omega_l);
        i = i + 1;
    }
    let (base_coeffs, base_lde) = lde_columns(&base, n, g_trace, 1, &xs);
    let (base_root, base_paths, base_rows) = commit_columns(&base_lde, l);
    let seed = seed_bytes(&public_inputs, &trace_info, &options);
    let mut coin = PublicCoin::new(&seed);
    coin.reseed(&base_root);
    let challenges = draw_challenges(&mut coin);
    proof {
        assert(public_inputs.input@.len() == real_input_len);
        assert(real_input_len <= n);
        assert(public_inputs.output@.len() == real_output_len) by {
            assert(public_inputs.output@.map_values(|b: u8| b as u64).len()
                == public_inputs.output@.len());
        }
        assert(real_output_len <= n);
    }
    let hints = compute_hints(
        &public_inputs.program,
        &public_inputs.input,
        &public_inputs.output,
        n as u64,
        &challenges,
    );
    let ext = extension_columns(&base, &challenges, n);
    let (ext_coeffs, ext_lde) = lde_columns(&ext, n, g_trace, 1, &xs);
    let (ext_root, ext_paths, ext_rows) = commit_columns(&ext_lde, l);
    coin.reseed(&ext_root);
    let composition_coefficients = crate::verify::draw_pairs(&mut coin, 48);
    let mut comp_evals: Vec<u64> = Vec::new();
    let mut i2: usize = 0;
    while i2 < l
        invariant
            0 <= i2 <= l,
            2 <= n <= 0x10_0000,
            l == n * e_factor,
            16 <= e_factor <= 255,
            l >= 16 * n,
            l >= 2 * e_factor,
            l <= 0xFF0_0000,
            xs@.len() == l,
            forall|t: int| 0 <= t < l ==> in_field((#[trigger] xs@[t]) as int),
            base_lde@.len() == NUM_BASE_COLUMNS,
            ext_lde@.len() == NUM_EXT_COLUMNS,
            forall|c: int| 0 <= c < base_lde@.len() ==> (#[trigger] base_lde@[c])@.len() == l,
            forall|c: int| 0 <= c < ext_lde@.len() ==> (#[trigger] ext_lde@[c])@.len() == l,
            forall|c: int, t: int|
                0 <= c < base_lde@.len() && 0 <= t < l ==> in_field(
                    #[trigger] base_lde@[c]@[t] as int,
                ),
            forall|c: int, t: int|
                0 <= c < ext_lde@.len() && 0 <= t < l ==> in_field(
                    #[trigger] ext_lde@[c]@[t] as int,
                ),
            composition_coefficients@.len() == 48,
            forall|t: int|
                0 <= t < composition_coefficients@.len() ==> in_field(
                    (#[trigger] composition_coefficients@[t]).0 as int,
                ) && in_field(composition_coefficients@[t].1 as int),
            wf_challenges(challenges),
            wf_hints(hints),
            comp_evals@.len() == i2,
            forall|t: int| 0 <= t < i2 ==> in_field((#[trigger] comp_evals@[t]) as int),
        decreases l - i2,
    {
        let mut curr = row_at(&base_lde, i2, l);
        let mut curr_ext = row_at(&ext_lde, i2, l);
        let mut c3: usize = 0;
        while c3 < curr_ext.len()
            invariant
                0 <= c3 <= curr_ext@.len(),
                curr@.len() == NUM_BASE_COLUMNS + c3,
                curr_ext@.len() == NUM_EXT_COLUMNS,
                forall|t: int| 0 <= t < curr@.len() ==> in_field((#[trigger] curr@[t]) as int),
                forall|t: int|
                    0 <= t < curr_ext@.len() ==> in_field((#[trigger] curr_ext@[t]) as int),
            decreases curr_ext@.len() - c3,
        {
            curr.push(curr_ext[c3]);
            c3 = c3 + 1;
        }
        let next_idx = if i2 + e_factor < l {
            i2 + e_factor
        } else {
            i2 + e_factor - l
        };
        let mut next = row_at(&base_lde, next_idx, l);
        let mut next_ext = row_at(&ext_lde, next_idx, l);
        let mut c4: usize = 0;
        while c4 < next_ext.len()
            invariant
                0 <= c4 <= next_ext@.len(),
                next@.len() == NUM_BASE_COLUMNS + c4,
                next_ext@.len() == NUM_EXT_COLUMNS,
                forall|t: int| 0 <= t < next@.len() ==> in_field((#[trigger] next@[t]) as int),
                forall|t: int|
                    0 <= t < next_ext@.len() ==> in_field((#[trigger] next_ext@[t]) as int),
            decreases next_ext@.len() - c4,
        {
            next.push(next_ext[c4]);
            c4 = c4 + 1;
        }
        comp_evals.push(
            crate::verify::ood_constraint_evaluation(
                &composition_coefficients,
                &challenges,
                &hints,
                &curr,
                &next,
                n as u64,
                xs[i2],
            ),
        );
        i2 = i2 + 1;
    }
    let comp_poly = crate::poly::interpolate_coset(&comp_evals, omega_l, GENERATOR);
    let mut comp_cols: Vec<Vec<u64>> = Vec::new();
    let mut j: usize = 0;
    while j < 16
        invariant
            0 <= j <= 16,
            2 <= n <= 0x10_0000,
            l == n * e_factor,
            e_factor >= 16,
            comp_poly@.len() == l,
            forall|t: int| 0 <= t < comp_poly@.len() ==> in_field((#[trigger] comp_poly@[t]) as int),
            xs@.len() == l,
            forall|t: int| 0 <= t < l ==> in_field((#[trigger] xs@[t]) as int),
            comp_cols@.len() == j,
            forall|c: int| 0 <= c < j ==> (#[trigger] comp_cols@[c])@.len() == l,
            forall|c: int, t: int|
                0 <= c < j && 0 <= t < l ==> in_field(#[trigger] comp_cols@[c]@[t] as int),
        decreases 16 - j,
    {
        let mut chunk_coeffs: Vec<u64> = Vec::new();
        let mut t: usize = 0;
        proof {
            assert(16 * (n - 1) + j < 16 * n) by (nonlinear_arith)
                requires 0 <= j < 16 && n >= 1;
            assert(16 * n <= l) by (nonlinear_arith)
                requires l == n * e_factor && e_factor >= 16 && n >= 0;
        }
        while t < n
            invariant
                0 <= t <= n,
                0 <= j < 16,
                comp_poly@.len() == l,
                16 * n <= l,
                forall|u: int|
                    0 <= u < comp_poly@.len() ==> in_field((#[trigger] comp_poly@[u]) as int),
                chunk_coeffs@.len() == t,
                forall|u: int|
                    0 <= u < t ==> in_field((#[trigger] chunk_coeffs@[u]) as int),
            decreases n - t,
        {
            proof {
                assert(16 * t + j < 16 * n) by (nonlinear_arith)
                    requires 0 <= j < 16 && 0 <= t < n;
            }
            chunk_coeffs.push(comp_poly[16 * t + j]);
            t = t + 1;
        }
        let mut col: Vec<u64> = Vec::new();
        let mut i3: usize = 0;
        while i3 < l
            invariant
                0 <= i3 <= l,
                xs@.len() == l,
                forall|u: int| 0 <= u < l ==> in_field((#[trigger] xs@[u]) as int),
                forall|u: int|
                    0 <= u < chunk_coeffs@.len() ==> in_field(
                        (#[trigger] chunk_coeffs@[u]) as int,
                    ),
                col@.len() == i3,
                forall|u: int| 0 <= u < i3 ==> in_field((#[trigger] col@[u]) as int),
            decreases l - i3,
        {
            col.push(crate::poly::poly_eval(&chunk_coeffs, xs[i3]));
            i3 = i3 + 1;
        }
        comp_cols.push(col);
        j = j + 1;
    }
    let (comp_root, comp_paths, comp_rows) = commit_columns(&comp_cols, l);
    coin.reseed(&comp_root);
    let z = coin.draw();
    let mut all_coeffs = base_coeffs;
    let mut cext: usize = 0;
    while cext < ext_coeffs.len()
        invariant
            0 <= cext <= ext_coeffs@.len(),
            ext_coeffs@.len() == NUM_EXT_COLUMNS,
            all_coeffs@.len() == NUM_BASE_COLUMNS + cext,
            forall|c: int|
                0 <= c < ext_coeffs@.len() ==> (#[trigger] ext_coeffs@[c])@.len() == n,
            forall|c: int, u: int|
                0 <= c < ext_coeffs@.len() && 0 <= u < n ==> in_field(
                    #[trigger] ext_coeffs@[c]@[u] as int,
                ),
            forall|c: int| 0 <= c < all_coeffs@.len() ==> (#[trigger] all_coeffs@[c])@.len() == n,
            forall|c: int, u: int|
                0 <= c < all_coeffs@.len() && 0 <= u < n ==> in_field(
                    #[trigger] all_coeffs@[c]@[u] as int,
                ),
        decreases ext_coeffs@.len() - cext,
    {
        all_coeffs.push(copy_words(&ext_coeffs[cext]));
        cext = cext + 1;
    }
    let zg = fmul(z, g_trace);
    let mut ood_curr: Vec<u64> = Vec::new();
    let mut ood_next: Vec<u64> = Vec::new();
    let mut c5: usize = 0;
    while c5 < all_coeffs.len()
        invariant
            0 <= c5 <= all_coeffs@.len(),
            in_field(z as int),
            in_field(zg as int),
            forall|c: int| 0 <= c < all_coeffs@.len() ==> (#[trigger] all_coeffs@[c])@.len() == n,
            forall|c: int, u: int|
                0 <= c < all_coeffs@.len() && 0 <= u < n ==> in_field(
                    #[trigger] all_coeffs@[c]@[u] as int,
                ),
            ood_curr@.len() == c5,
            ood_next@.len() == c5,
            forall|u: int| 0 <= u < c5 ==> in_field((#[trigger] ood_curr@[u]) as int),
            forall|u: int| 0 <= u < c5 ==> in_field((#[trigger] ood_next@[u]) as int),
        decreases all_coeffs@.len() - c5,
    {
        ood_curr.push(crate::poly::poly_eval(&all_coeffs[c5], z));
        ood_next.push(crate::poly::poly_eval(&all_coeffs[c5], zg));
        c5 = c5 + 1;
    }
    let mut ood_curr_bytes: Vec<u8> = Vec::new();
    push_words_le(&mut ood_curr_bytes, &ood_curr);
    coin.reseed(&ood_curr_bytes);
    let mut ood_next_bytes: Vec<u8> = Vec::new();
    push_words_le(&mut ood_next_bytes, &ood_next);
    coin.reseed(&ood_next_bytes);
    let zk = fpow(z, 16);
    let mut ood_evals: Vec<u64> = Vec::new();
    let mut j2: usize = 0;
    while j2 < 16
        invariant
            0 <= j2 <= 16,
            in_field(zk as int),
            2 <= n,
            comp_poly@.len() == l,
            16 * n <= l,
            forall|u: int|
                0 <= u < comp_poly@.len() ==> in_field((#[trigger] comp_poly@[u]) as int),
            ood_evals@.len() == j2,
            forall|u: int| 0 <= u < j2 ==> in_field((#[trigger] ood_evals@[u]) as int),
        decreases 16 - j2,
    {
        let mut chunk_coeffs: Vec<u64> = Vec::new();
        let mut t: usize = 0;
        while t < n
            invariant
                0 <= t <= n,
                0 <= j2 < 16,
                comp_poly@.len() == l,
                16 * n <= l,
                forall|u: int|
                    0 <= u < comp_poly@.len() ==> in_field((#[trigger] comp_poly@[u]) as int),
                chunk_coeffs@.len() == t,
                forall|u: int|
                    0 <= u < t ==> in_field((#[trigger] chunk_coeffs@[u]) as int),
            decreases n - t,
        {
            proof {
                assert(16 * t + j2 < 16 * n) by (nonlinear_arith)
                    requires 0 <= j2 < 16 && 0 <= t < n;
            }
            chunk_coeffs.push(comp_poly[16 * t + j2]);
            t = t + 1;
        }
        ood_evals.push(crate::poly::poly_eval(&chunk_coeffs, zk));
        j2 = j2 + 1;
    }
    let mut ood_eval_bytes: Vec<u8> = Vec::new();
    push_words_le(&mut ood_eval_bytes, &ood_evals);
    coin.reseed(&ood_eval_bytes);
    let deep_base = crate::verify::draw_pairs(&mut coin, 17);
    let deep_ext = crate::verify::draw_pairs(&mut coin, 9);
    let deep_comp = crate::verify::draw_singles(&mut coin, 16);
    let degree_alpha = coin.draw();
    let degree_beta = coin.draw();
    let deep_coeffs = crate::verify::DeepCompositionCoeffs {
        base_trace: deep_base,
        extension_trace: deep_ext,
        constraints: deep_comp,
        degree_alpha,
        degree_beta,
    };
    let mut all_positions: Vec<u64> = Vec::new();
    let mut i4: usize = 0;
    while i4 < l
        invariant
            0 <= i4 <= l,
            l <= 0x1000_0000,
            all_positions@.len() == i4,
        decreases l - i4,
    {
        all_positions.push(i4 as u64);
        i4 = i4 + 1;
    }
    let deep_evals = crate::verify::deep_composition_evaluations(
        &all_positions,
        &deep_coeffs,
        &base_rows,
        &ext_rows,
        &comp_rows,
        z,
        &ood_curr,
        &ood_next,
        &ood_evals,
        n as u64,
        l as u64,
    );
    let deep_poly = crate::poly::interpolate_coset(&deep_evals, omega_l, GENERATOR);
    let mut fri_coefficients: Vec<u64> = Vec::new();
    let mut t2: usize = 0;
    while t2 < n
        invariant
            0 <= t2 <= n,
            n <= deep_poly@.len(),
            forall|u: int|
                0 <= u < deep_poly@.len() ==> in_field((#[trigger] deep_poly@[u]) as int),
            fri_coefficients@.len() == t2,
        decreases n - t2,
    {
        fri_coefficients.push(deep_poly[t2]);
        t2 = t2 + 1;
    }
    let mut fri_bytes: Vec<u8> = Vec::new();
    push_words_le(&mut fri_bytes, &fri_coefficients);
    coin.reseed(&fri_bytes);
    let mut pow_nonce: u64 = 0;
    if options.grinding_factor != 0 {
        let mut nonce: u64 = 0;
        let mut found = false;
        while nonce < 0x10_0000 && !found
            invariant
                nonce <= 0x10_0000,
                coin.state@.len() == 32,
            decreases 0x10_0000 - nonce, (if found { 0int } else { 1int }),
        {
            let mut trial = PublicCoin { state: copy_bytes_vec(&coin.state), counter: 0 };
            let mut nonce_bytes: Vec<u8> = Vec::new();
            push_u64_le(&mut nonce_bytes, nonce);
            trial.reseed(&nonce_bytes);
            if trial.seed_leading_zeros() >= options.grinding_factor as u32 {
                pow_nonce = nonce;
                found = true;
            } else {
                nonce = nonce + 1;
            }
        }
        let mut nonce_bytes: Vec<u8> = Vec::new();
        push_u64_le(&mut nonce_bytes, pow_nonce);
        coin.reseed(&nonce_bytes);
    }
    let qn = options.num_queries as usize;
    let positions = crate::verify::draw_positions(&mut coin, qn, l as u64);
    let mut base_trace_values: Vec<u64> = Vec::new();
    let mut extension_trace_values: Vec<u64> = Vec::new();
    let mut composition_trace_values: Vec<u64> = Vec::new();
    let mut base_trace_proofs: Vec<Vec<Vec<u8>>> = Vec::new();
    let mut extension_trace_proofs: Vec<Vec<Vec<u8>>> = Vec::new();
    let mut composition_trace_proofs: Vec<Vec<Vec<u8>>> = Vec::new();
    let mut q: usize = 0;
    while q < qn
        invariant
            0 <= q <= qn,
            positions@.len() == qn,
            forall|u: int| 0 <= u < qn ==> (#[trigger] positions@[u]) < l,
            base_rows@.len() == l,
            ext_rows@.len() == l,
            comp_rows@.len() == l,
            base_paths@.len() == l,
            ext_paths@.len() == l,
            comp_paths@.len() == l,
            forall|u: int| 0 <= u < base_rows@.len() ==> (#[trigger] base_rows@[u])@.len()
                == NUM_BASE_COLUMNS,
            forall|u: int| 0 <= u < ext_rows@.len() ==> (#[trigger] ext_rows@[u])@.len()
                == NUM_EXT_COLUMNS,
            forall|u: int| 0 <= u < comp_rows@.len() ==> (#[trigger] comp_rows@[u])@.len() == 16,
        decreases qn - q,
    {
        let pos = positions[q] as usize;
        let mut c6: usize = 0;
        let row = &base_rows[pos];
        while c6 < row.len()
            invariant
                0 <= c6 <= row@.len(),
            decreases row@.len() - c6,
        {
            base_trace_values.push(row[c6]);
            c6 = c6 + 1;
        }
        let mut c7: usize = 0;
        let erow = &ext_rows[pos];
        while c7 < erow.len()
            invariant
                0 <= c7 <= erow@.len(),
            decreases erow@.len() - c7,
        {
            extension_trace_values.push(erow[c7]);
            c7 = c7 + 1;
        }
        let mut c8: usize = 0;
        let crow = &comp_rows[pos];
        while c8 < crow.len()
            invariant
                0 <= c8 <= crow@.len(),
            decreases crow@.len() - c8,
        {
            composition_trace_values.push(crow[c8]);
            c8 = c8 + 1;
        }
        base_trace_proofs.push(clone_path(&base_paths[pos]));
        extension_trace_proofs.push(clone_path(&ext_paths[pos]));
        composition_trace_proofs.push(clone_path(&comp_paths[pos]));
        q = q + 1;
    }
    let proof = Proof {
        options,
        trace_info,
        public_inputs,
        base_trace_commitment: base_root,
        extension_trace_commitment: ext_root,
        composition_trace_commitment: comp_root,
        ood_trace_states: OodTraceStates { curr: ood_curr, next: ood_next },
        ood_constraint_evaluations: ood_evals,
        trace_queries: TraceQueries {
            base_trace_values,
            extension_trace_values,
            composition_trace_values,
            base_trace_proofs,
            extension_trace_proofs,
            composition_trace_proofs,
        },
        fri_proof: FriProof { coefficients: fri_coefficients },
        pow_nonce,
    };
    // re-check the machine bounds on the assembled proof, so callers can
    // hand it straight to verification
    if !crate::verify::wf_proof_check(&proof) {
        return Err(VmError::ResourceExhausted);
    }
    Ok(proof)
}

/// Copies a byte vector.
fn copy_bytes_vec(v: &Vec<u8>) -> (r: Vec<u8>)
    ensures
        r@ == v@,
{
    let mut out: Vec<u8> = Vec::new();
    let mut i: usize = 0;
    while i < v.len()
        invariant
            0 <= i <= v@.len(),
            out@ == v@.subrange(0, i as int),
        decreases v@.len() - i,
    {
        out.push(v[i]);
        i = i + 1;
        proof {
            assert(out@ =~= v@.subrange(0, i as int));
        }
    }
    proof {
        assert(v@.subrange(0, v@.len() as int) =~= v@);
    }
    out
}

/// Copies one Merkle opening.
fn clone_path(p: &Vec<Vec<u8>>) -> (r: Vec<Vec<u8>>)
    ensures
        r@.len() == p@.len(),
{
    let mut out: Vec<Vec<u8>> = Vec::new();
    let mut i: usize = 0;
    while i < p.len()
        invariant
            0 <= i <= p@.len(),
            out@.len() == i,
        decreases p@.len() - i,
    {
        out.push(copy_bytes_vec(&p[i]));
        i = i + 1;
    }
    out
}

} // verus!
