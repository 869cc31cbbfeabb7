//! STARK proof verification.
//!
//! The verifier replays the Fiat-Shamir transcript, recomputes the
//! out-of-domain constraint evaluation, authenticates the Merkle openings
//! of every queried trace row, rebuilds the DEEP composition evaluations at
//! the query positions, and spot-checks the low-degree proof against them.
//! Every step is specified exactly: `Proof::verify` returns precisely what
//! the spec-level model `verify_model` decides.

use vstd::prelude::*;
use crate::field::{P, GENERATOR, in_field, fadds, fmuls, fsubs, fpows, finvs, fadd, fmul, fsub,
    fpow, finv};
use crate::air::{Challenges, Hints, wf_challenges, wf_hints, wf_row, boundary_eval,
    transition_eval, terminal_eval, boundary_degree, transition_degree, terminal_degree,
    boundary_evals, transition_evals, terminal_evals, transition_degree_of, terminal_degree_of,
    NUM_BASE_COLUMNS, NUM_EXT_COLUMNS, NUM_BOUNDARY, NUM_TRANSITION, NUM_TERMINAL,
    CE_BLOWUP_FACTOR};
use crate::poly::{poly_evals, poly_eval, domain_generator};
use crate::coin::{PublicCoin, le_bytes8, words_bytes, push_u64_le, push_words_le, draw_of,
    draw_index_of, reseed_state, sha256_of, leading_zeros_of};
use crate::prover::{Proof, TraceQueries, seed_bytes, seed_bytes_of, draw_challenges,
    challenges_of, compute_hints, hints_of, row_leaf};
use crate::merkle::{path_root, verify_path};

verus! {

/// Errors that are returned during verification of a STARK proof.
#[derive(Debug, Clone, Copy, PartialEq, Eq, Structural)]
pub enum VerificationError {
    /// Constraint evaluations at the out-of-domain point are inconsistent.
    InconsistentOodConstraintEvaluations,
    /// The low-degree check of the DEEP composition failed.
    FriVerification,
    /// A query does not resolve to the base trace commitment.
    BaseTraceQueryDoesNotMatchCommitment,
    /// A query does not resolve to the extension trace commitment.
    ExtensionTraceQueryDoesNotMatchCommitment,
    /// A query does not resolve to the composition trace commitment.
    CompositionTraceQueryDoesNotMatchCommitment,
    /// Insufficient proof of work on the nonce.
    FriProofOfWork,
}

/// The degree bound of the composition polynomial for a trace of height `n`.
pub open spec fn composition_degree(n: int) -> int {
    16 * n - 1
}

/// The value of constraint `k` of the chained boundary, transition and
/// terminal lists.
pub open spec fn constraint_value(
    ch: Challenges,
    h: Hints,
    curr: Seq<u64>,
    next: Seq<u64>,
    k: int,
) -> int {
    if k < 15 {
        boundary_eval(ch, h, curr, k)
    } else if k < 41 {
        transition_eval(ch, curr, next, k - 15)
    } else {
        terminal_eval(ch, h, curr, k - 41)
    }
}

/// The declared degree of constraint `k` of the chained lists.
pub open spec fn constraint_degree(k: int) -> int {
    if k < 15 {
        boundary_degree(k)
    } else if k < 41 {
        transition_degree(k - 15)
    } else {
        terminal_degree(k - 41)
    }
}

/// The inverse of the trace-domain generator for height `n`.
pub open spec fn trace_gen_inv(n: int) -> int {
    finvs(fpows(GENERATOR as int, (((P - 1) as int) / n) as nat))
}

/// The divisor value of constraint `k` at the point `x`: boundary
/// constraints vanish at the first row, transition constraints on all rows
/// but the last, terminal constraints at the last row.
pub open spec fn divisor_value(n: int, x: int, k: int) -> int {
    if k < 15 {
        finvs(fsubs(x, 1))
    } else if k < 41 {
        fmuls(fsubs(x, trace_gen_inv(n)), finvs(fsubs(fpows(x, n as nat), 1)))
    } else {
        finvs(fsubs(x, trace_gen_inv(n)))
    }
}

/// The degree of the divisor of constraint `k`.
pub open spec fn divisor_degree(n: int, k: int) -> int {
    if k < 15 {
        1
    } else if k < 41 {
        n - 1
    } else {
        1
    }
}

/// The degree-adjustment power of constraint `k`.
pub open spec fn adjust_power(n: int, k: int) -> int {
    composition_degree(n) - (constraint_degree(k) * (n - 1) - divisor_degree(n, k))
}

/// The contribution of constraint `k`, weighted by its composition
/// coefficients; the coefficient pairs are consumed from the back of the
/// list, as the prover drew them.
#[verifier::opaque]
pub open spec fn ood_term(
    coeffs: Seq<(u64, u64)>,
    ch: Challenges,
    h: Hints,
    curr: Seq<u64>,
    next: Seq<u64>,
    n: int,
    x: int,
    k: int,
) -> int {
    let pair = coeffs[coeffs.len() - 1 - k];
    fmuls(
        fmuls(constraint_value(ch, h, curr, next, k), divisor_value(n, x, k)),
        fadds(fmuls(pair.0 as int, fpows(x, adjust_power(n, k) as nat)), pair.1 as int),
    )
}

/// The sum of the first `k` constraint contributions.
#[verifier::opaque]
pub open spec fn ood_acc(
    coeffs: Seq<(u64, u64)>,
    ch: Challenges,
    h: Hints,
    curr: Seq<u64>,
    next: Seq<u64>,
    n: int,
    x: int,
    k: int,
) -> int
    decreases k,
{
    if k <= 0 {
        0
    } else {
        fadds(
            ood_acc(coeffs, ch, h, curr, next, n, x, k - 1),
            ood_term(coeffs, ch, h, curr, next, n, x, k - 1),
        )
    }
}

/// The out-of-domain composition value the verifier recomputes.
pub open spec fn ood_value(
    coeffs: Seq<(u64, u64)>,
    ch: Challenges,
    h: Hints,
    curr: Seq<u64>,
    next: Seq<u64>,
    n: int,
    x: int,
) -> int {
    ood_acc(coeffs, ch, h, curr, next, n, x, 48)
}

/// Recomputes the out-of-domain constraint evaluation: every constraint is
/// evaluated at the trace states, divided by its divisor, degree-adjusted
/// under its composition coefficients, and summed.
#[verifier::rlimit(100)]
pub fn ood_constraint_evaluation(
    composition_coefficients: &Vec<(u64, u64)>,
    challenges: &Challenges,
    hints: &Hints,
    curr_trace_evals: &Vec<u64>,
    next_trace_evals: &Vec<u64>,
    trace_len: u64,
    x: u64,
) -> (r: u64)
    requires
        composition_coefficients@.len() == 48,
        wf_challenges(*challenges),
        wf_hints(*hints),
        wf_row(curr_trace_evals@),
        wf_row(next_trace_evals@),
        2 <= trace_len <= 0x8000_0000,
        in_field(x as int),
        forall|i: int|
            0 <= i < composition_coefficients@.len() ==> in_field(
                (#[trigger] composition_coefficients@[i]).0 as int,
            ) && in_field(composition_coefficients@[i].1 as int),
    ensures
        in_field(r as int),
        r == ood_value(
            composition_coefficients@,
            *challenges,
            *hints,
            curr_trace_evals@,
            next_trace_evals@,
            trace_len as int,
            x as int,
        ),
{
    proof {
        reveal(ood_term);
        reveal(ood_acc);
    }
    let n = trace_len;
    let b_evals = boundary_evals(challenges, hints, curr_trace_evals);
    let t_evals = transition_evals(challenges, curr_trace_evals, next_trace_evals);
    let m_evals = terminal_evals(challenges, hints, curr_trace_evals);
    let g = domain_generator(n);
    let g_inv = finv(g);
    let boundary_div = finv(fsub(x, 1));
    let terminal_div = finv(fsub(x, g_inv));
    let transition_div = fmul(fsub(x, g_inv), finv(fsub(fpow(x, n), 1)));
    let comp_deg: u64 = 16 * n - 1;
    let mut acc: u64 = 0;
    let mut k: usize = 0;
    while k < 48
        invariant
            0 <= k <= 48,
            n == trace_len,
            2 <= n <= 0x8000_0000,
            comp_deg == 16 * n - 1,
            in_field(x as int),
            in_field(acc as int),
            in_field(g_inv as int),
            g_inv == trace_gen_inv(n as int),
            boundary_div == finvs(fsubs(x as int, 1)),
            terminal_div == finvs(fsubs(x as int, trace_gen_inv(n as int))),
            transition_div == fmuls(
                fsubs(x as int, trace_gen_inv(n as int)),
                finvs(fsubs(fpows(x as int, n as nat), 1)),
            ),
            in_field(boundary_div as int),
            in_field(terminal_div as int),
            in_field(transition_div as int),
            composition_coefficients@.len() == 48,
            forall|i: int|
                0 <= i < composition_coefficients@.len() ==> in_field(
                    (#[trigger] composition_coefficients@[i]).0 as int,
                ) && in_field(composition_coefficients@[i].1 as int),
            wf_challenges(*challenges),
            wf_hints(*hints),
            wf_row(curr_trace_evals@),
            wf_row(next_trace_evals@),
            b_evals@.len() == NUM_BOUNDARY,
            t_evals@.len() == NUM_TRANSITION,
            m_evals@.len() == NUM_TERMINAL,
            forall|i: int|
                0 <= i < b_evals@.len() ==> #[trigger] b_evals@[i] == boundary_eval(
                    *challenges,
                    *hints,
                    curr_trace_evals@,
                    i,
                ) && in_field(b_evals@[i] as int),
            forall|i: int|
                0 <= i < t_evals@.len() ==> #[trigger] t_evals@[i] == transition_eval(
                    *challenges,
                    curr_trace_evals@,
                    next_trace_evals@,
                    i,
                ) && in_field(t_evals@[i] as int),
            forall|i: int|
                0 <= i < m_evals@.len() ==> #[trigger] m_evals@[i] == terminal_eval(
                    *challenges,
                    *hints,
                    curr_trace_evals@,
                    i,
                ) && in_field(m_evals@[i] as int),
            acc == ood_acc(
                composition_coefficients@,
                *challenges,
                *hints,
                curr_trace_evals@,
                next_trace_evals@,
                trace_len as int,
                x as int,
                k as int,
            ),
        decreases 48 - k,
    {
        let ev: u64 = if k < 15 {
            b_evals[k]
        } else if k < 41 {
            t_evals[k - 15]
        } else {
            m_evals[k - 41]
        };
        let div: u64 = if k < 15 {
            boundary_div
        } else if k < 41 {
            transition_div
        } else {
            terminal_div
        };
        let deg: u64 = if k < 15 {
            1
        } else if k < 41 {
            transition_degree_of(k - 15)
        } else {
            terminal_degree_of(k - 41)
        };
        let div_deg: u64 = if k < 15 {
            1
        } else if k < 41 {
            n - 1
        } else {
            1
        };
        proof {
            assert(deg * (n - 1) <= 11 * (n - 1)) by (nonlinear_arith)
                requires 1 <= deg <= 11 && n >= 2;
            assert(11 * (n - 1) <= comp_deg + div_deg);
        }
        let adjust: u64 = comp_deg + div_deg - deg * (n - 1);
        let xp = fpow(x, adjust);
        let pair = composition_coefficients[47 - k];
        let term = fmul(fmul(ev, div), fadd(fmul(pair.0, xp), pair.1));
        acc = fadd(acc, term);
        k = k + 1;
        proof {
            reveal(ood_term);
            reveal(ood_acc);
            assert(adjust == adjust_power(n as int, k - 1));
            assert(term == ood_term(
                composition_coefficients@,
                *challenges,
                *hints,
                curr_trace_evals@,
                next_trace_evals@,
                trace_len as int,
                x as int,
                k - 1,
            ));
        }
    }
    acc
}

/// The DEEP composition coefficients drawn from the coin.
#[derive(Debug, Clone)]
pub struct DeepCompositionCoeffs {
    pub base_trace: Vec<(u64, u64)>,
    pub extension_trace: Vec<(u64, u64)>,
    pub constraints: Vec<u64>,
    pub degree_alpha: u64,
    pub degree_beta: u64,
}

/// Whether the DEEP coefficients have the protocol shape.
pub open spec fn wf_deep_coeffs(c: DeepCompositionCoeffs) -> bool {
    &&& c.base_trace@.len() == NUM_BASE_COLUMNS
    &&& c.extension_trace@.len() == NUM_EXT_COLUMNS
    &&& c.constraints@.len() == CE_BLOWUP_FACTOR
    &&& (forall|i: int|
        0 <= i < c.base_trace@.len() ==> in_field((#[trigger] c.base_trace@[i]).0 as int)
            && in_field(c.base_trace@[i].1 as int))
    &&& (forall|i: int|
        0 <= i < c.extension_trace@.len() ==> in_field(
            (#[trigger] c.extension_trace@[i]).0 as int,
        ) && in_field(c.extension_trace@[i].1 as int))
    &&& (forall|i: int|
        0 <= i < c.constraints@.len() ==> in_field((#[trigger] c.constraints@[i]) as int))
    &&& in_field(c.degree_alpha as int)
    &&& in_field(c.degree_beta as int)
}

/// The sum of the first `c` base-column DEEP terms at one query.
pub open spec fn deep_base_acc(
    coeffs: Seq<(u64, u64)>,
    row: Seq<u64>,
    ood_curr: Seq<u64>,
    ood_next: Seq<u64>,
    x: int,
    z: int,
    zg: int,
    c: int,
) -> int
    decreases c,
{
    if c <= 0 {
        0
    } else {
        let t1 = fmuls(fsubs(row[c - 1] as int, ood_curr[c - 1] as int), finvs(fsubs(x, z)));
        let t2 = fmuls(fsubs(row[c - 1] as int, ood_next[c - 1] as int), finvs(fsubs(x, zg)));
        fadds(
            deep_base_acc(coeffs, row, ood_curr, ood_next, x, z, zg, c - 1),
            fadds(fmuls(t1, coeffs[c - 1].0 as int), fmuls(t2, coeffs[c - 1].1 as int)),
        )
    }
}

/// The sum of the first `c` extension-column DEEP terms at one query.
pub open spec fn deep_ext_acc(
    coeffs: Seq<(u64, u64)>,
    row: Seq<u64>,
    ood_curr: Seq<u64>,
    ood_next: Seq<u64>,
    x: int,
    z: int,
    zg: int,
    c: int,
) -> int
    decreases c,
{
    if c <= 0 {
        0
    } else {
        let t1 = fmuls(
            fsubs(row[c - 1] as int, ood_curr[17 + c - 1] as int),
            finvs(fsubs(x, z)),
        );
        let t2 = fmuls(
            fsubs(row[c - 1] as int, ood_next[17 + c - 1] as int),
            finvs(fsubs(x, zg)),
        );
        fadds(
            deep_ext_acc(coeffs, row, ood_curr, ood_next, x, z, zg, c - 1),
            fadds(fmuls(t1, coeffs[c - 1].0 as int), fmuls(t2, coeffs[c - 1].1 as int)),
        )
    }
}

/// The sum of the first `c` composition-column DEEP terms at one query.
pub open spec fn deep_comp_acc(
    coeffs: Seq<u64>,
    row: Seq<u64>,
    ood_evals: Seq<u64>,
    x: int,
    zk: int,
    c: int,
) -> int
    decreases c,
{
    if c <= 0 {
        0
    } else {
        fadds(
            deep_comp_acc(coeffs, row, ood_evals, x, zk, c - 1),
            fmuls(
                coeffs[c - 1] as int,
                fmuls(fsubs(row[c - 1] as int, ood_evals[c - 1] as int), finvs(fsubs(x, zk))),
            ),
        )
    }
}

/// The DEEP evaluation at one query: the three column sums, degree
/// adjusted.
pub open spec fn deep_value(
    base_coeffs: Seq<(u64, u64)>,
    ext_coeffs: Seq<(u64, u64)>,
    comp_coeffs: Seq<u64>,
    degree_alpha: int,
    degree_beta: int,
    base_row: Seq<u64>,
    ext_row: Seq<u64>,
    comp_row: Seq<u64>,
    ood_curr: Seq<u64>,
    ood_next: Seq<u64>,
    ood_evals: Seq<u64>,
    x: int,
    z: int,
    zg: int,
    zk: int,
) -> int {
    let s = fadds(
        fadds(
            deep_base_acc(base_coeffs, base_row, ood_curr, ood_next, x, z, zg, 17),
            deep_ext_acc(ext_coeffs, ext_row, ood_curr, ood_next, x, z, zg, 9),
        ),
        deep_comp_acc(comp_coeffs, comp_row, ood_evals, x, zk, 16),
    );
    fmuls(s, fadds(degree_alpha, fmuls(degree_beta, x)))
}

/// The low-degree-extension point of a query position: the coset offset
/// times the domain generator raised to the position.
pub open spec fn lde_point(lde_size: int, pos: int) -> int {
    fmuls(
        GENERATOR as int,
        fpows(fpows(GENERATOR as int, (((P - 1) as int) / lde_size) as nat), pos as nat),
    )
}

/// Computes the DEEP composition evaluation at every query position from
/// the opened trace rows and the out-of-domain values.
#[verifier::rlimit(100)]
pub fn deep_composition_evaluations(
    query_positions: &Vec<u64>,
    composition_coeffs: &DeepCompositionCoeffs,
    base_trace_rows: &Vec<Vec<u64>>,
    extension_trace_rows: &Vec<Vec<u64>>,
    composition_trace_rows: &Vec<Vec<u64>>,
    z: u64,
    ood_curr: &Vec<u64>,
    ood_next: &Vec<u64>,
    ood_constraint_evaluations: &Vec<u64>,
    trace_len: u64,
    lde_size: u64,
) -> (r: Vec<u64>)
    requires
        wf_deep_coeffs(*composition_coeffs),
        in_field(z as int),
        wf_row(ood_curr@),
        wf_row(ood_next@),
        ood_constraint_evaluations@.len() == CE_BLOWUP_FACTOR,
        forall|i: int|
            0 <= i < ood_constraint_evaluations@.len() ==> in_field(
                (#[trigger] ood_constraint_evaluations@[i]) as int,
            ),
        2 <= trace_len <= 0x8000_0000,
        1 <= lde_size,
        base_trace_rows@.len() == query_positions@.len(),
        extension_trace_rows@.len() == query_positions@.len(),
        composition_trace_rows@.len() == query_positions@.len(),
        forall|q: int|
            0 <= q < query_positions@.len() ==> (#[trigger] base_trace_rows@[q])@.len() == 17,
        forall|q: int|
            0 <= q < query_positions@.len() ==> (#[trigger] extension_trace_rows@[q])@.len()
                == 9,
        forall|q: int|
            0 <= q < query_positions@.len() ==> (#[trigger] composition_trace_rows@[q])@.len()
                == 16,
        forall|q: int, i: int|
            0 <= q < query_positions@.len() && 0 <= i < 17 ==> in_field(
                #[trigger] base_trace_rows@[q]@[i] as int,
            ),
        forall|q: int, i: int|
            0 <= q < query_positions@.len() && 0 <= i < 9 ==> in_field(
                #[trigger] extension_trace_rows@[q]@[i] as int,
            ),
        forall|q: int, i: int|
            0 <= q < query_positions@.len() && 0 <= i < 16 ==> in_field(
                #[trigger] composition_trace_rows@[q]@[i] as int,
            ),
    ensures
        r@.len() == query_positions@.len(),
        forall|q: int|
            0 <= q < r@.len() ==> #[trigger] r@[q] == deep_value(
                composition_coeffs.base_trace@,
                composition_coeffs.extension_trace@,
                composition_coeffs.constraints@,
                composition_coeffs.degree_alpha as int,
                composition_coeffs.degree_beta as int,
                base_trace_rows@[q]@,
                extension_trace_rows@[q]@,
                composition_trace_rows@[q]@,
                ood_curr@,
                ood_next@,
                ood_constraint_evaluations@,
                lde_point(lde_size as int, query_positions@[q] as int),
                z as int,
                fmuls(z as int, fpows(GENERATOR as int, (((P - 1) as int) / (trace_len as int)) as nat)),
                fpows(z as int, 16),
            ) && in_field(r@[q] as int),
{
    let g_trace = domain_generator(trace_len);
    let g_lde = domain_generator(lde_size);
    let zg = fmul(z, g_trace);
    let zk = fpow(z, 16);
    let mut evals: Vec<u64> = Vec::new();
    let mut q: usize = 0;
    while q < query_positions.len()
        invariant
            0 <= q <= query_positions@.len(),
            evals@.len() == q,
            wf_deep_coeffs(*composition_coeffs),
            in_field(z as int),
            in_field(zg as int),
            in_field(zk as int),
            in_field(g_lde as int),
            g_lde == fpows(GENERATOR as int, (((P - 1) as int) / (lde_size as int)) as nat),
            zg == fmuls(z as int, fpows(GENERATOR as int, (((P - 1) as int) / (trace_len as int)) as nat)),
            zk == fpows(z as int, 16),
            wf_row(ood_curr@),
            wf_row(ood_next@),
            ood_constraint_evaluations@.len() == CE_BLOWUP_FACTOR,
            forall|i: int|
                0 <= i < ood_constraint_evaluations@.len() ==> in_field(
                    (#[trigger] ood_constraint_evaluations@[i]) as int,
                ),
            base_trace_rows@.len() == query_positions@.len(),
            extension_trace_rows@.len() == query_positions@.len(),
            composition_trace_rows@.len() == query_positions@.len(),
            forall|t: int|
                0 <= t < query_positions@.len() ==> (#[trigger] base_trace_rows@[t])@.len()
                    == 17,
            forall|t: int|
                0 <= t < query_positions@.len() ==> (
                #[trigger] extension_trace_rows@[t])@.len() == 9,
            forall|t: int|
                0 <= t < query_positions@.len() ==> (
                #[trigger] composition_trace_rows@[t])@.len() == 16,
            forall|t: int, i: int|
                0 <= t < query_positions@.len() && 0 <= i < 17 ==> in_field(
                    #[trigger] base_trace_rows@[t]@[i] as int,
                ),
            forall|t: int, i: int|
                0 <= t < query_positions@.len() && 0 <= i < 9 ==> in_field(
                    #[trigger] extension_trace_rows@[t]@[i] as int,
                ),
            forall|t: int, i: int|
                0 <= t < query_positions@.len() && 0 <= i < 16 ==> in_field(
                    #[trigger] composition_trace_rows@[t]@[i] as int,
                ),
            forall|t: int|
                0 <= t < evals@.len() ==> #[trigger] evals@[t] == deep_value(
                    composition_coeffs.base_trace@,
                    composition_coeffs.extension_trace@,
                    composition_coeffs.constraints@,
                    composition_coeffs.degree_alpha as int,
                    composition_coeffs.degree_beta as int,
                    base_trace_rows@[t]@,
                    extension_trace_rows@[t]@,
                    composition_trace_rows@[t]@,
                    ood_curr@,
                    ood_next@,
                    ood_constraint_evaluations@,
                    lde_point(lde_size as int, query_positions@[t] as int),
                    z as int,
                    zg as int,
                    zk as int,
                ) && in_field(evals@[t] as int),
        decreases query_positions@.len() - q,
    {
        let x = fmul(GENERATOR, fpow(g_lde, query_positions[q]));
        let x_z_inv = finv(fsub(x, z));
        let x_zg_inv = finv(fsub(x, zg));
        let x_zk_inv = finv(fsub(x, zk));
        let base_row = &base_trace_rows[q];
        let ext_row = &extension_trace_rows[q];
        let comp_row = &composition_trace_rows[q];
        let mut acc: u64 = 0;
        let mut c: usize = 0;
        while c < 17
            invariant
                0 <= c <= 17,
                0 <= q < query_positions@.len(),
                in_field(acc as int),
                in_field(x as int),
                in_field(z as int),
                in_field(zg as int),
                x_z_inv == finvs(fsubs(x as int, z as int)),
                x_zg_inv == finvs(fsubs(x as int, zg as int)),
                in_field(x_z_inv as int),
                in_field(x_zg_inv as int),
                wf_deep_coeffs(*composition_coeffs),
                wf_row(ood_curr@),
                wf_row(ood_next@),
                base_row@.len() == 17,
                forall|i: int| 0 <= i < 17 ==> in_field(#[trigger] base_row@[i] as int),
                acc == deep_base_acc(
                    composition_coeffs.base_trace@,
                    base_row@,
                    ood_curr@,
                    ood_next@,
                    x as int,
                    z as int,
                    zg as int,
                    c as int,
                ),
            decreases 17 - c,
        {
            let t1 = fmul(fsub(base_row[c], ood_curr[c]), x_z_inv);
            let t2 = fmul(fsub(base_row[c], ood_next[c]), x_zg_inv);
            let pair = composition_coeffs.base_trace[c];
            acc = fadd(acc, fadd(fmul(t1, pair.0), fmul(t2, pair.1)));
            c = c + 1;
        }
        let mut c2: usize = 0;
        let mut acc2: u64 = 0;
        while c2 < 9
            invariant
                0 <= c2 <= 9,
                0 <= q < query_positions@.len(),
                in_field(acc2 as int),
                in_field(x as int),
                in_field(z as int),
                in_field(zg as int),
                x_z_inv == finvs(fsubs(x as int, z as int)),
                x_zg_inv == finvs(fsubs(x as int, zg as int)),
                in_field(x_z_inv as int),
                in_field(x_zg_inv as int),
                wf_deep_coeffs(*composition_coeffs),
                wf_row(ood_curr@),
                wf_row(ood_next@),
                ext_row@.len() == 9,
                forall|i: int| 0 <= i < 9 ==> in_field(#[trigger] ext_row@[i] as int),
                acc2 == deep_ext_acc(
                    composition_coeffs.extension_trace@,
                    ext_row@,
                    ood_curr@,
                    ood_next@,
                    x as int,
                    z as int,
                    zg as int,
                    c2 as int,
                ),
            decreases 9 - c2,
        {
            let t1 = fmul(fsub(ext_row[c2], ood_curr[17 + c2]), x_z_inv);
            let t2 = fmul(fsub(ext_row[c2], ood_next[17 + c2]), x_zg_inv);
            let pair = composition_coeffs.extension_trace[c2];
            acc2 = fadd(acc2, fadd(fmul(t1, pair.0), fmul(t2, pair.1)));
            c2 = c2 + 1;
        }
        let mut c3: usize = 0;
        let mut acc3: u64 = 0;
        while c3 < 16
            invariant
                0 <= c3 <= 16,
                0 <= q < query_positions@.len(),
                in_field(acc3 as int),
                in_field(x as int),
                in_field(zk as int),
                x_zk_inv == finvs(fsubs(x as int, zk as int)),
                in_field(x_zk_inv as int),
                wf_deep_coeffs(*composition_coeffs),
                ood_constraint_evaluations@.len() == 16,
                forall|i: int|
                    0 <= i < ood_constraint_evaluations@.len() ==> in_field(
                        (#[trigger] ood_constraint_evaluations@[i]) as int,
                    ),
                comp_row@.len() == 16,
                forall|i: int| 0 <= i < 16 ==> in_field(#[trigger] comp_row@[i] as int),
                acc3 == deep_comp_acc(
                    composition_coeffs.constraints@,
                    comp_row@,
                    ood_constraint_evaluations@,
                    x as int,
                    zk as int,
                    c3 as int,
                ),
            decreases 16 - c3,
        {
            let t = fmul(fsub(comp_row[c3], ood_constraint_evaluations[c3]), x_zk_inv);
            acc3 = fadd(acc3, fmul(composition_coeffs.constraints[c3], t));
            c3 = c3 + 1;
        }
        let s = fadd(fadd(acc, acc2), acc3);
        let v = fmul(
            s,
            fadd(composition_coeffs.degree_alpha, fmul(composition_coeffs.degree_beta, x)),
        );
        evals.push(v);
        q = q + 1;
        proof {
            assert(x == lde_point(lde_size as int, query_positions@[q - 1] as int));
        }
    }
    evals
}

/// Checks the Merkle opening of every queried row against a commitment:
/// the leaf must be the digest of the row's canonical bytes, and the path
/// must resolve to the commitment at the query position.
pub open spec fn positions_verify(
    commitment: Seq<u8>,
    positions: Seq<u64>,
    rows: Seq<Seq<u64>>,
    proofs: Seq<Seq<Seq<u8>>>,
    k: int,
) -> bool
    decreases k,
{
    if k <= 0 {
        true
    } else {
        positions_verify(commitment, positions, rows, proofs, k - 1) && path_root(
            sha256_of(words_bytes(rows[k - 1])),
            proofs[k - 1],
            positions[k - 1] as int,
        ) == commitment
    }
}

/// Verifies the Merkle opening of every queried row.
pub fn verify_positions(
    commitment: &Vec<u8>,
    positions: &Vec<u64>,
    rows: &Vec<Vec<u64>>,
    proofs: &Vec<Vec<Vec<u8>>>,
) -> (r: bool)
    requires
        rows@.len() == positions@.len(),
        proofs@.len() == positions@.len(),
    ensures
        r == positions_verify(
            commitment@,
            positions@,
            rows@.map_values(|v: Vec<u64>| v@),
            proofs@.map_values(|p: Vec<Vec<u8>>| p@.map_values(|q: Vec<u8>| q@)),
            positions@.len() as int,
        ),
{
    let ghost specrows = rows@.map_values(|v: Vec<u64>| v@);
    let ghost specproofs = proofs@.map_values(|p: Vec<Vec<u8>>| p@.map_values(|q: Vec<u8>| q@));
    let mut k: usize = 0;
    while k < positions.len()
        invariant
            0 <= k <= positions@.len(),
            rows@.len() == positions@.len(),
            proofs@.len() == positions@.len(),
            specrows == rows@.map_values(|v: Vec<u64>| v@),
            specproofs == proofs@.map_values(|p: Vec<Vec<u8>>| p@.map_values(|q: Vec<u8>| q@)),
            positions_verify(commitment@, positions@, specrows, specproofs, k as int),
        decreases positions@.len() - k,
    {
        let leaf = row_leaf(&rows[k]);
        let ok = verify_path(commitment, &leaf, &proofs[k], positions[k]);
        proof {
            assert(specproofs[k as int] == proofs@[k as int]@.map_values(|q: Vec<u8>| q@));
        }
        if !ok {
            proof {
                assert(!positions_verify(
                    commitment@,
                    positions@,
                    specrows,
                    specproofs,
                    positions@.len() as int,
                )) by {
                    lemma_positions_verify_prefix(
                        commitment@,
                        positions@,
                        specrows,
                        specproofs,
                        k + 1,
                        positions@.len() as int,
                    );
                }
            }
            return false;
        }
        k = k + 1;
    }
    true
}

/// If one opening fails, the whole batch fails.
proof fn lemma_positions_verify_prefix(
    commitment: Seq<u8>,
    positions: Seq<u64>,
    rows: Seq<Seq<u64>>,
    proofs: Seq<Seq<Seq<u8>>>,
    k: int,
    m: int,
)
    requires
        0 < k <= m,
        !positions_verify(commitment, positions, rows, proofs, k),
    ensures
        !positions_verify(commitment, positions, rows, proofs, m),
    decreases m - k,
{
    if k < m {
        lemma_positions_verify_prefix(commitment, positions, rows, proofs, k + 1, m);
    }
}

/// The 48 composition coefficient pairs drawn from a coin state.
pub open spec fn comp_coeffs_of(state: Seq<u8>) -> Seq<(u64, u64)> {
    Seq::new(
        48,
        |k: int| (draw_of(state, 2 * k + 1) as u64, draw_of(state, 2 * k + 2) as u64),
    )
}

/// The DEEP base-column coefficient pairs drawn from a coin state.
pub open spec fn deep_base_coeffs_of(state: Seq<u8>) -> Seq<(u64, u64)> {
    Seq::new(
        17,
        |k: int| (draw_of(state, 2 * k + 1) as u64, draw_of(state, 2 * k + 2) as u64),
    )
}

/// The DEEP extension-column coefficient pairs drawn from a coin state.
pub open spec fn deep_ext_coeffs_of(state: Seq<u8>) -> Seq<(u64, u64)> {
    Seq::new(
        9,
        |k: int| (draw_of(state, 34 + 2 * k + 1) as u64, draw_of(state, 34 + 2 * k + 2) as u64),
    )
}

/// The DEEP composition-column coefficients drawn from a coin state.
pub open spec fn deep_comp_coeffs_of(state: Seq<u8>) -> Seq<u64> {
    Seq::new(16, |k: int| draw_of(state, 52 + k + 1) as u64)
}

/// The query positions drawn from a coin state.
pub open spec fn positions_of(state: Seq<u8>, count: int, bound: int) -> Seq<u64> {
    Seq::new(count as nat, |q: int| draw_index_of(state, q + 1, bound) as u64)
}

/// The rows of a flattened query-answer array, `width` values each.
pub open spec fn chunk_rows(s: Seq<u64>, width: int, count: int) -> Seq<Seq<u64>> {
    Seq::new(count as nat, |q: int| s.subrange(q * width, (q + 1) * width))
}

/// The FRI spot check: the DEEP evaluation at every query position must
/// equal the committed polynomial's value there.
pub open spec fn fri_check(
    fri_coeffs: Seq<u64>,
    positions: Seq<u64>,
    deep_evals: Seq<u64>,
    lde_size: int,
    k: int,
) -> bool
    decreases k,
{
    if k <= 0 {
        true
    } else {
        fri_check(fri_coeffs, positions, deep_evals, lde_size, k - 1) && poly_evals(
            fri_coeffs,
            lde_point(lde_size, positions[k - 1] as int),
        ) == deep_evals[k - 1]
    }
}

/// Structural well-formedness of a proof object, as parsing the canonical
/// wire format would establish it: consistent lengths and canonical field
/// elements everywhere.
pub open spec fn wf_proof(p: Proof) -> bool {
    let n = p.trace_info.trace_len as int;
    let q = p.options.num_queries as int;
    &&& crate::trace::is_pow2(n as nat)
    &&& 2 <= n <= 0x10_0000
    &&& crate::trace::is_pow2(p.options.expansion_factor as nat)
    &&& CE_BLOWUP_FACTOR <= p.options.expansion_factor as int
    &&& 1 <= q
    &&& p.options.grinding_factor <= 32
    &&& p.public_inputs.program@.len() < 0x1000_0000
    &&& (forall|i: int|
        0 <= i < p.public_inputs.program@.len() ==> in_field(
            (#[trigger] p.public_inputs.program@[i]) as int,
        ))
    &&& p.public_inputs.input@.len() <= n
    &&& p.public_inputs.output@.len() <= n
    &&& p.trace_info.real_input_len == p.public_inputs.input@.len()
    &&& p.trace_info.real_output_len == p.public_inputs.output@.len()
    &&& wf_row(p.ood_trace_states.curr@)
    &&& wf_row(p.ood_trace_states.next@)
    &&& p.ood_constraint_evaluations@.len() == 16
    &&& (forall|i: int|
        0 <= i < p.ood_constraint_evaluations@.len() ==> in_field(
            (#[trigger] p.ood_constraint_evaluations@[i]) as int,
        ))
    &&& p.fri_proof.coefficients@.len() <= n
    &&& (forall|i: int|
        0 <= i < p.fri_proof.coefficients@.len() ==> in_field(
            (#[trigger] p.fri_proof.coefficients@[i]) as int,
        ))
    &&& p.trace_queries.base_trace_values@.len() == q * 17
    &&& p.trace_queries.extension_trace_values@.len() == q * 9
    &&& p.trace_queries.composition_trace_values@.len() == q * 16
    &&& (forall|i: int|
        0 <= i < p.trace_queries.base_trace_values@.len() ==> in_field(
            (#[trigger] p.trace_queries.base_trace_values@[i]) as int,
        ))
    &&& (forall|i: int|
        0 <= i < p.trace_queries.extension_trace_values@.len() ==> in_field(
            (#[trigger] p.trace_queries.extension_trace_values@[i]) as int,
        ))
    &&& (forall|i: int|
        0 <= i < p.trace_queries.composition_trace_values@.len() ==> in_field(
            (#[trigger] p.trace_queries.composition_trace_values@[i]) as int,
        ))
    &&& p.trace_queries.base_trace_proofs@.len() == q
    &&& p.trace_queries.extension_trace_proofs@.len() == q
    &&& p.trace_queries.composition_trace_proofs@.len() == q
}


/// Decides whether every entry of a word vector is a canonical field
/// element.
fn all_in_field(v: &Vec<u64>) -> (r: bool)
    ensures
        r == (forall|i: int| 0 <= i < v@.len() ==> in_field((#[trigger] v@[i]) as int)),
{
    let mut i: usize = 0;
    while i < v.len()
        invariant
            0 <= i <= v@.len(),
            forall|j: int| 0 <= j < i ==> in_field((#[trigger] v@[j]) as int),
        decreases v@.len() - i,
    {
        if v[i] >= P {
            return false;
        }
        i = i + 1;
    }
    true
}

/// Decides the structural well-formedness of a proof object.  Boundary
/// code uses it to establish `verify`'s precondition, and the prover runs
/// it on every proof it assembles.
pub fn wf_proof_check(p: &Proof) -> (r: bool)
    ensures
        r == wf_proof(*p),
{
    let n = p.trace_info.trace_len;
    let q = p.options.num_queries as usize;
    let mut ok = crate::trace::is_power_of_two(n);
    ok = ok && 2 <= n && n <= 0x10_0000;
    ok = ok && crate::trace::is_power_of_two(p.options.expansion_factor as u64);
    ok = ok && p.options.expansion_factor >= 16;
    ok = ok && q >= 1;
    ok = ok && p.options.grinding_factor <= 32;
    ok = ok && (p.public_inputs.program.len() as u64) < 0x1000_0000;
    ok = ok && all_in_field(&p.public_inputs.program);
    ok = ok && (p.public_inputs.input.len() as u64) <= n;
    ok = ok && (p.public_inputs.output.len() as u64) <= n;
    ok = ok && p.trace_info.real_input_len == p.public_inputs.input.len() as u64;
    ok = ok && p.trace_info.real_output_len == p.public_inputs.output.len() as u64;
    ok = ok && p.ood_trace_states.curr.len() == 26;
    ok = ok && all_in_field(&p.ood_trace_states.curr);
    ok = ok && p.ood_trace_states.next.len() == 26;
    ok = ok && all_in_field(&p.ood_trace_states.next);
    ok = ok && p.ood_constraint_evaluations.len() == 16;
    ok = ok && all_in_field(&p.ood_constraint_evaluations);
    ok = ok && (p.fri_proof.coefficients.len() as u64) <= n;
    ok = ok && all_in_field(&p.fri_proof.coefficients);
    ok = ok && p.trace_queries.base_trace_values.len() == q * 17;
    ok = ok && p.trace_queries.extension_trace_values.len() == q * 9;
    ok = ok && p.trace_queries.composition_trace_values.len() == q * 16;
    ok = ok && all_in_field(&p.trace_queries.base_trace_values);
    ok = ok && all_in_field(&p.trace_queries.extension_trace_values);
    ok = ok && all_in_field(&p.trace_queries.composition_trace_values);
    ok = ok && p.trace_queries.base_trace_proofs.len() == q;
    ok = ok && p.trace_queries.extension_trace_proofs.len() == q;
    ok = ok && p.trace_queries.composition_trace_proofs.len() == q;
    ok
}

/// The verifier's decision over the query phase: the three batches of
/// Merkle openings and the FRI spot check, in order.
#[verifier::opaque]
pub open spec fn query_decision(
    base_commit: Seq<u8>,
    ext_commit: Seq<u8>,
    comp_commit: Seq<u8>,
    base_values: Seq<u64>,
    ext_values: Seq<u64>,
    comp_values: Seq<u64>,
    base_proofs: Seq<Seq<Seq<u8>>>,
    ext_proofs: Seq<Seq<Seq<u8>>>,
    comp_proofs: Seq<Seq<Seq<u8>>>,
    fri_coeffs: Seq<u64>,
    positions: Seq<u64>,
    ood_curr: Seq<u64>,
    ood_next: Seq<u64>,
    ood_evals: Seq<u64>,
    dbase: Seq<(u64, u64)>,
    dext: Seq<(u64, u64)>,
    dcomp: Seq<u64>,
    dalpha: int,
    dbeta: int,
    z: int,
    n: int,
    lde: int,
    qn: int,
) -> Result<(), VerificationError> {
    let base_rows = chunk_rows(base_values, 17, qn);
    let ext_rows = chunk_rows(ext_values, 9, qn);
    let comp_rows = chunk_rows(comp_values, 16, qn);
    if !positions_verify(base_commit, positions, base_rows, base_proofs, qn) {
        Err(VerificationError::BaseTraceQueryDoesNotMatchCommitment)
    } else if !positions_verify(ext_commit, positions, ext_rows, ext_proofs, qn) {
        Err(VerificationError::ExtensionTraceQueryDoesNotMatchCommitment)
    } else if !positions_verify(comp_commit, positions, comp_rows, comp_proofs, qn) {
        Err(VerificationError::CompositionTraceQueryDoesNotMatchCommitment)
    } else {
        let zg = fmuls(z, fpows(GENERATOR as int, (((P - 1) as int) / n) as nat));
        let zk = fpows(z, 16);
        let deep_evals = Seq::new(
            qn as nat,
            |q: int| deep_value(
                dbase,
                dext,
                dcomp,
                dalpha,
                dbeta,
                base_rows[q],
                ext_rows[q],
                comp_rows[q],
                ood_curr,
                ood_next,
                ood_evals,
                lde_point(lde, positions[q] as int),
                z,
                zg,
                zk,
            ) as u64,
        );
        if !fri_check(fri_coeffs, positions, deep_evals, lde, qn) {
            Err(VerificationError::FriVerification)
        } else {
            Ok(())
        }
    }
}


/// The transcript state after seeding with the public inputs.
pub open spec fn state0(p: Proof) -> Seq<u8> {
    sha256_of(seed_bytes_of(p.public_inputs, p.trace_info, p.options))
}

/// The state after absorbing the base trace commitment.
pub open spec fn state1(p: Proof) -> Seq<u8> {
    reseed_state(state0(p), p.base_trace_commitment@)
}

/// The state after absorbing the extension trace commitment.
pub open spec fn state2(p: Proof) -> Seq<u8> {
    reseed_state(state1(p), p.extension_trace_commitment@)
}

/// The state after absorbing the composition trace commitment.
pub open spec fn state3(p: Proof) -> Seq<u8> {
    reseed_state(state2(p), p.composition_trace_commitment@)
}

/// The state after absorbing both out-of-domain trace states.
pub open spec fn state5(p: Proof) -> Seq<u8> {
    reseed_state(
        reseed_state(state3(p), words_bytes(p.ood_trace_states.curr@)),
        words_bytes(p.ood_trace_states.next@),
    )
}

/// The state after absorbing the out-of-domain constraint evaluations.
pub open spec fn state6(p: Proof) -> Seq<u8> {
    reseed_state(state5(p), words_bytes(p.ood_constraint_evaluations@))
}

/// The state after absorbing the low-degree proof.
pub open spec fn state7(p: Proof) -> Seq<u8> {
    reseed_state(state6(p), words_bytes(p.fri_proof.coefficients@))
}

/// The state from which the query positions are drawn.
pub open spec fn state8(p: Proof) -> Seq<u8> {
    if p.options.grinding_factor != 0 {
        reseed_state(state7(p), le_bytes8(p.pow_nonce))
    } else {
        state7(p)
    }
}

/// The model's out-of-domain consistency decision.
pub open spec fn ood_consistent(p: Proof) -> bool {
    let ch = challenges_of(state1(p), 0);
    let h = hints_of(
        p.public_inputs.program@,
        p.public_inputs.input@,
        p.public_inputs.output@,
        p.trace_info.trace_len as int,
        ch,
    );
    ood_value(
        comp_coeffs_of(state2(p)),
        ch,
        h,
        p.ood_trace_states.curr@,
        p.ood_trace_states.next@,
        p.trace_info.trace_len as int,
        draw_of(state3(p), 1),
    ) == poly_evals(p.ood_constraint_evaluations@, draw_of(state3(p), 1))
}

/// The model's proof-of-work decision.
pub open spec fn pow_ok(p: Proof) -> bool {
    p.options.grinding_factor == 0 || leading_zeros_of(state8(p))
        >= p.options.grinding_factor as int
}

/// The model's query-phase decision.
pub open spec fn model_query_decision(p: Proof) -> Result<(), VerificationError> {
    query_decision(
        p.base_trace_commitment@,
        p.extension_trace_commitment@,
        p.composition_trace_commitment@,
        p.trace_queries.base_trace_values@,
        p.trace_queries.extension_trace_values@,
        p.trace_queries.composition_trace_values@,
        p.trace_queries.base_trace_proofs@.map_values(
            |v: Vec<Vec<u8>>| v@.map_values(|w: Vec<u8>| w@),
        ),
        p.trace_queries.extension_trace_proofs@.map_values(
            |v: Vec<Vec<u8>>| v@.map_values(|w: Vec<u8>| w@),
        ),
        p.trace_queries.composition_trace_proofs@.map_values(
            |v: Vec<Vec<u8>>| v@.map_values(|w: Vec<u8>| w@),
        ),
        p.fri_proof.coefficients@,
        positions_of(
            state8(p),
            p.options.num_queries as int,
            p.trace_info.trace_len as int * p.options.expansion_factor as int,
        ),
        p.ood_trace_states.curr@,
        p.ood_trace_states.next@,
        p.ood_constraint_evaluations@,
        deep_base_coeffs_of(state6(p)),
        deep_ext_coeffs_of(state6(p)),
        deep_comp_coeffs_of(state6(p)),
        draw_of(state6(p), 69),
        draw_of(state6(p), 70),
        draw_of(state3(p), 1),
        p.trace_info.trace_len as int,
        p.trace_info.trace_len as int * p.options.expansion_factor as int,
        p.options.num_queries as int,
    )
}

/// What verification decides: out-of-domain consistency, then proof of
/// work, then the query phase.
pub open spec fn verify_model(p: Proof) -> Result<(), VerificationError> {
    if !ood_consistent(p) {
        Err(VerificationError::InconsistentOodConstraintEvaluations)
    } else if !pow_ok(p) {
        Err(VerificationError::FriProofOfWork)
    } else {
        model_query_decision(p)
    }
}

/// Draws `count` coefficient pairs from the coin.
pub(crate) fn draw_pairs(coin: &mut PublicCoin, count: usize) -> (r: Vec<(u64, u64)>)
    requires
        old(coin).state@.len() == 32,
        old(coin).counter < 0xffff_0000,
        count <= 64,
    ensures
        final(coin).state@ == old(coin).state@,
        final(coin).counter == old(coin).counter + 2 * count,
        r@.len() == count,
        forall|k: int|
            0 <= k < count ==> #[trigger] r@[k] == (
                draw_of(old(coin).state@, old(coin).counter + 2 * k + 1) as u64,
                draw_of(old(coin).state@, old(coin).counter + 2 * k + 2) as u64,
            ),
        forall|k: int|
            0 <= k < count ==> in_field((#[trigger] r@[k]).0 as int) && in_field(
                r@[k].1 as int,
            ),
{
    let mut out: Vec<(u64, u64)> = Vec::new();
    let mut k: usize = 0;
    while k < count
        invariant
            0 <= k <= count,
            count <= 64,
            coin.state@ == old(coin).state@,
            coin.state@.len() == 32,
            coin.counter == old(coin).counter + 2 * k,
            old(coin).counter < 0xffff_0000,
            out@.len() == k,
            forall|j: int|
                0 <= j < k ==> #[trigger] out@[j] == (
                    draw_of(old(coin).state@, old(coin).counter + 2 * j + 1) as u64,
                    draw_of(old(coin).state@, old(coin).counter + 2 * j + 2) as u64,
                ),
            forall|j: int|
                0 <= j < k ==> in_field((#[trigger] out@[j]).0 as int) && in_field(
                    out@[j].1 as int,
                ),
        decreases count - k,
    {
        let a = coin.draw();
        let b = coin.draw();
        out.push((a, b));
        k = k + 1;
    }
    out
}

/// Draws `count` single coefficients from the coin.
pub(crate) fn draw_singles(coin: &mut PublicCoin, count: usize) -> (r: Vec<u64>)
    requires
        old(coin).state@.len() == 32,
        old(coin).counter < 0xffff_0000,
        count <= 64,
    ensures
        final(coin).state@ == old(coin).state@,
        final(coin).counter == old(coin).counter + count,
        r@.len() == count,
        forall|k: int|
            0 <= k < count ==> #[trigger] r@[k] == draw_of(
                old(coin).state@,
                old(coin).counter + k + 1,
            ) as u64,
        forall|k: int| 0 <= k < count ==> in_field((#[trigger] r@[k]) as int),
{
    let mut out: Vec<u64> = Vec::new();
    let mut k: usize = 0;
    while k < count
        invariant
            0 <= k <= count,
            count <= 64,
            coin.state@ == old(coin).state@,
            coin.state@.len() == 32,
            coin.counter == old(coin).counter + k,
            old(coin).counter < 0xffff_0000,
            out@.len() == k,
            forall|j: int|
                0 <= j < k ==> #[trigger] out@[j] == draw_of(
                    old(coin).state@,
                    old(coin).counter + j + 1,
                ) as u64,
            forall|j: int| 0 <= j < k ==> in_field((#[trigger] out@[j]) as int),
        decreases count - k,
    {
        out.push(coin.draw());
        k = k + 1;
    }
    out
}

/// Draws the query positions from the coin.
pub(crate) fn draw_positions(coin: &mut PublicCoin, count: usize, bound: u64) -> (r: Vec<u64>)
    requires
        old(coin).state@.len() == 32,
        old(coin).counter == 0,
        count <= 255,
        bound > 0,
    ensures
        final(coin).state@ == old(coin).state@,
        r@ == positions_of(old(coin).state@, count as int, bound as int),
        forall|k: int| 0 <= k < count ==> (#[trigger] r@[k]) < bound,
{
    let mut out: Vec<u64> = Vec::new();
    let mut k: usize = 0;
    while k < count
        invariant
            0 <= k <= count,
            count <= 255,
            coin.state@ == old(coin).state@,
            coin.state@.len() == 32,
            coin.counter == k,
            bound > 0,
            out@.len() == k,
            forall|j: int|
                0 <= j < k ==> #[trigger] out@[j] == draw_index_of(
                    old(coin).state@,
                    j + 1,
                    bound as int,
                ) as u64 && out@[j] < bound,
        decreases count - k,
    {
        out.push(coin.draw_index(bound));
        k = k + 1;
    }
    proof {
        assert(out@ =~= positions_of(old(coin).state@, count as int, bound as int));
    }
    out
}

/// Splits a flattened query-answer array into its rows.
fn chunk(values: &Vec<u64>, width: usize, count: usize) -> (r: Vec<Vec<u64>>)
    requires
        values@.len() == count * width,
        width >= 1,
        count <= 255,
        width <= 32,
        forall|i: int| 0 <= i < values@.len() ==> in_field((#[trigger] values@[i]) as int),
    ensures
        r@.len() == count,
        r@.map_values(|v: Vec<u64>| v@) == chunk_rows(values@, width as int, count as int),
        forall|q: int| 0 <= q < count ==> (#[trigger] r@[q])@.len() == width,
        forall|q: int, i: int|
            0 <= q < count && 0 <= i < width ==> in_field(#[trigger] r@[q]@[i] as int),
{
    let mut out: Vec<Vec<u64>> = Vec::new();
    let mut q: usize = 0;
    while q < count
        invariant
            0 <= q <= count,
            count <= 255,
            width >= 1,
            width <= 32,
            values@.len() == count * width,
            forall|i: int| 0 <= i < values@.len() ==> in_field((#[trigger] values@[i]) as int),
            out@.len() == q,
            forall|t: int|
                0 <= t < q ==> (#[trigger] out@[t])@ == values@.subrange(
                    t * width,
                    (t + 1) * width,
                ),
            forall|t: int| 0 <= t < q ==> (#[trigger] out@[t])@.len() == width,
        decreases count - q,
    {
        let mut row: Vec<u64> = Vec::new();
        let mut i: usize = 0;
        proof {
            assert((q + 1) * width <= count * width) by (nonlinear_arith)
                requires q + 1 <= count && width >= 1;
            assert(q * width + width == (q + 1) * width) by (nonlinear_arith);
            assert(q * width + width <= values@.len());
            assert(q * width >= 0) by (nonlinear_arith)
                requires q >= 0 && width >= 0;
            assert(row@ =~= values@.subrange(q * width, q * width + 0));
        }
        while i < width
            invariant
                0 <= i <= width,
                0 <= q < count,
                count <= 255,
                width <= 32,
                values@.len() == count * width,
                q * width + width <= values@.len(),
                row@.len() == i,
                row@ == values@.subrange(q * width, q * width + i),
            decreases width - i,
        {
            proof {
                assert(q * width + i < 0x10000) by (nonlinear_arith)
                    requires 0 <= q < 255 && 0 <= width <= 32 && 0 <= i < width;
                assert(q * width + i < values@.len());
            }
            row.push(values[q * width + i]);
            i = i + 1;
            proof {
                assert(row@ =~= values@.subrange(q * width, q * width + i));
            }
        }
        out.push(row);
        q = q + 1;
    }
    proof {
        assert(out@.map_values(|v: Vec<u64>| v@) =~= chunk_rows(
            values@,
            width as int,
            count as int,
        ));
        assert forall|t: int, i: int| 0 <= t < count && 0 <= i < width implies in_field(
            #[trigger] out@[t]@[i] as int,
        ) by {
            assert(out@[t]@ == values@.subrange(t * width, (t + 1) * width));
            assert((t + 1) * width - t * width == width) by (nonlinear_arith);
            assert(0 <= t * width + i < values@.len()) by (nonlinear_arith)
                requires 0 <= t < count && 0 <= i < width && values@.len() == count * width;
            assert(0 <= t * width) by (nonlinear_arith)
                requires t >= 0 && width >= 0;
            assert((t + 1) * width <= count * width) by (nonlinear_arith)
                requires t + 1 <= count && width >= 1;
            let sub = values@.subrange(t * width, (t + 1) * width);
            assert(sub[i] == values@[t * width + i]);
            assert(out@[t]@[i] == sub[i]);
        }
    }
    out
}

/// If one FRI spot check fails, the whole batch fails.
proof fn lemma_fri_check_prefix(
    fri_coeffs: Seq<u64>,
    positions: Seq<u64>,
    deep_evals: Seq<u64>,
    lde_size: int,
    k: int,
    m: int,
)
    requires
        0 < k <= m,
        !fri_check(fri_coeffs, positions, deep_evals, lde_size, k),
    ensures
        !fri_check(fri_coeffs, positions, deep_evals, lde_size, m),
    decreases m - k,
{
    if k < m {
        lemma_fri_check_prefix(fri_coeffs, positions, deep_evals, lde_size, k + 1, m);
    }
}


/// Runs the FRI spot check over every query position.
fn fri_spot_check(
    fri_coefficients: &Vec<u64>,
    query_positions: &Vec<u64>,
    deep_evals: &Vec<u64>,
    lde: u64,
) -> (r: bool)
    requires
        lde >= 1,
        deep_evals@.len() == query_positions@.len(),
        forall|i: int|
            0 <= i < fri_coefficients@.len() ==> in_field(
                (#[trigger] fri_coefficients@[i]) as int,
            ),
    ensures
        r == fri_check(
            fri_coefficients@,
            query_positions@,
            deep_evals@,
            lde as int,
            query_positions@.len() as int,
        ),
{
    let g_lde = domain_generator(lde);
    let qn = query_positions.len();
    let mut q: usize = 0;
    while q < qn
        invariant
            0 <= q <= qn,
            qn == query_positions@.len(),
            deep_evals@.len() == qn,
            lde >= 1,
            in_field(g_lde as int),
            g_lde == fpows(GENERATOR as int, (((P - 1) as int) / (lde as int)) as nat),
            forall|i: int|
                0 <= i < fri_coefficients@.len() ==> in_field(
                    (#[trigger] fri_coefficients@[i]) as int,
                ),
            fri_check(
                fri_coefficients@,
                query_positions@,
                deep_evals@,
                lde as int,
                q as int,
            ),
        decreases qn - q,
    {
        let x = fmul(GENERATOR, fpow(g_lde, query_positions[q]));
        let fe = poly_eval(fri_coefficients, x);
        proof {
            assert(x == lde_point(lde as int, query_positions@[q as int] as int));
        }
        if fe != deep_evals[q] {
            proof {
                lemma_fri_check_prefix(
                    fri_coefficients@,
                    query_positions@,
                    deep_evals@,
                    lde as int,
                    q + 1,
                    qn as int,
                );
            }
            return false;
        }
        q = q + 1;
    }
    true
}


/// Performs the query phase: opens and checks every queried row against
/// the three commitments, rebuilds the DEEP evaluations and spot-checks
/// the low-degree proof.  Decides exactly what `query_decision` decides.
#[verifier::rlimit(100)]
#[verifier::spinoff_prover]
fn check_queries(
    tq: &TraceQueries,
    base_commit: &Vec<u8>,
    ext_commit: &Vec<u8>,
    comp_commit: &Vec<u8>,
    fri_coefficients: &Vec<u64>,
    query_positions: &Vec<u64>,
    deep_coeffs: &DeepCompositionCoeffs,
    z: u64,
    ood_curr: &Vec<u64>,
    ood_next: &Vec<u64>,
    ood_evals: &Vec<u64>,
    n: u64,
    lde: u64,
) -> (r: Result<(), VerificationError>)
    requires
        query_positions@.len() <= 255,
        tq.base_trace_values@.len() == query_positions@.len() * 17,
        tq.extension_trace_values@.len() == query_positions@.len() * 9,
        tq.composition_trace_values@.len() == query_positions@.len() * 16,
        tq.base_trace_proofs@.len() == query_positions@.len(),
        tq.extension_trace_proofs@.len() == query_positions@.len(),
        tq.composition_trace_proofs@.len() == query_positions@.len(),
        forall|i: int|
            0 <= i < tq.base_trace_values@.len() ==> in_field(
                (#[trigger] tq.base_trace_values@[i]) as int,
            ),
        forall|i: int|
            0 <= i < tq.extension_trace_values@.len() ==> in_field(
                (#[trigger] tq.extension_trace_values@[i]) as int,
            ),
        forall|i: int|
            0 <= i < tq.composition_trace_values@.len() ==> in_field(
                (#[trigger] tq.composition_trace_values@[i]) as int,
            ),
        forall|i: int|
            0 <= i < fri_coefficients@.len() ==> in_field(
                (#[trigger] fri_coefficients@[i]) as int,
            ),
        wf_deep_coeffs(*deep_coeffs),
        in_field(z as int),
        wf_row(ood_curr@),
        wf_row(ood_next@),
        ood_evals@.len() == 16,
        forall|i: int|
            0 <= i < ood_evals@.len() ==> in_field((#[trigger] ood_evals@[i]) as int),
        2 <= n <= 0x8000_0000,
        lde >= 1,
    ensures
        r == query_decision(
            base_commit@,
            ext_commit@,
            comp_commit@,
            tq.base_trace_values@,
            tq.extension_trace_values@,
            tq.composition_trace_values@,
            tq.base_trace_proofs@.map_values(|v: Vec<Vec<u8>>| v@.map_values(|w: Vec<u8>| w@)),
            tq.extension_trace_proofs@.map_values(
                |v: Vec<Vec<u8>>| v@.map_values(|w: Vec<u8>| w@),
            ),
            tq.composition_trace_proofs@.map_values(
                |v: Vec<Vec<u8>>| v@.map_values(|w: Vec<u8>| w@),
            ),
            fri_coefficients@,
            query_positions@,
            ood_curr@,
            ood_next@,
            ood_evals@,
            deep_coeffs.base_trace@,
            deep_coeffs.extension_trace@,
            deep_coeffs.constraints@,
            deep_coeffs.degree_alpha as int,
            deep_coeffs.degree_beta as int,
            z as int,
            n as int,
            lde as int,
            query_positions@.len() as int,
        ),
{
    proof {
        reveal(query_decision);
    }
    let qn = query_positions.len();
    let base_rows = chunk(&tq.base_trace_values, 17, qn);
    let ext_rows = chunk(&tq.extension_trace_values, 9, qn);
    let comp_rows = chunk(&tq.composition_trace_values, 16, qn);
    if !verify_positions(base_commit, query_positions, &base_rows, &tq.base_trace_proofs) {
        return Err(VerificationError::BaseTraceQueryDoesNotMatchCommitment);
    }
    if !verify_positions(ext_commit, query_positions, &ext_rows, &tq.extension_trace_proofs) {
        return Err(VerificationError::ExtensionTraceQueryDoesNotMatchCommitment);
    }
    if !verify_positions(comp_commit, query_positions, &comp_rows, &tq.composition_trace_proofs) {
        return Err(VerificationError::CompositionTraceQueryDoesNotMatchCommitment);
    }
    let deep_evals = deep_composition_evaluations(
        query_positions,
        deep_coeffs,
        &base_rows,
        &ext_rows,
        &comp_rows,
        z,
        ood_curr,
        ood_next,
        ood_evals,
        n,
        lde,
    );
    proof {
        let zg = fmuls(
            z as int,
            fpows(GENERATOR as int, (((P - 1) as int) / (n as int)) as nat),
        );
        let zk = fpows(z as int, 16);
        let base_rows_s = chunk_rows(tq.base_trace_values@, 17, qn as int);
        let ext_rows_s = chunk_rows(tq.extension_trace_values@, 9, qn as int);
        let comp_rows_s = chunk_rows(tq.composition_trace_values@, 16, qn as int);
        assert(deep_evals@ =~= Seq::new(
            qn as nat,
            |q: int| deep_value(
                deep_coeffs.base_trace@,
                deep_coeffs.extension_trace@,
                deep_coeffs.constraints@,
                deep_coeffs.degree_alpha as int,
                deep_coeffs.degree_beta as int,
                base_rows_s[q],
                ext_rows_s[q],
                comp_rows_s[q],
                ood_curr@,
                ood_next@,
                ood_evals@,
                lde_point(lde as int, query_positions@[q] as int),
                z as int,
                zg,
                zk,
            ) as u64,
        ));
    }
    if !fri_spot_check(fri_coefficients, query_positions, &deep_evals, lde) {
        return Err(VerificationError::FriVerification);
    }
    Ok(())
}

/// Pairs drawn at successive counters are the composition coefficients.
proof fn lemma_is_comp_coeffs(s: Seq<(u64, u64)>, state: Seq<u8>)
    requires
        s.len() == 48,
        forall|k: int|
            0 <= k < 48 ==> #[trigger] s[k] == (
                draw_of(state, 2 * k + 1) as u64,
                draw_of(state, 2 * k + 2) as u64,
            ),
    ensures
        s == comp_coeffs_of(state),
{
    assert(s =~= comp_coeffs_of(state));
}

/// Pairs drawn at successive counters are the DEEP base coefficients.
proof fn lemma_is_deep_base(s: Seq<(u64, u64)>, state: Seq<u8>)
    requires
        s.len() == 17,
        forall|k: int|
            0 <= k < 17 ==> #[trigger] s[k] == (
                draw_of(state, 2 * k + 1) as u64,
                draw_of(state, 2 * k + 2) as u64,
            ),
    ensures
        s == deep_base_coeffs_of(state),
{
    assert(s =~= deep_base_coeffs_of(state));
}

/// Pairs drawn after the base pairs are the DEEP extension coefficients.
proof fn lemma_is_deep_ext(s: Seq<(u64, u64)>, state: Seq<u8>)
    requires
        s.len() == 9,
        forall|k: int|
            0 <= k < 9 ==> #[trigger] s[k] == (
                draw_of(state, 34 + 2 * k + 1) as u64,
                draw_of(state, 34 + 2 * k + 2) as u64,
            ),
    ensures
        s == deep_ext_coeffs_of(state),
{
    assert(s =~= deep_ext_coeffs_of(state));
}

/// Singles drawn after the pair blocks are the DEEP composition
/// coefficients.
proof fn lemma_is_deep_comp(s: Seq<u64>, state: Seq<u8>)
    requires
        s.len() == 16,
        forall|k: int| 0 <= k < 16 ==> #[trigger] s[k] == draw_of(state, 52 + k + 1) as u64,
    ensures
        s == deep_comp_coeffs_of(state),
{
    assert(s =~= deep_comp_coeffs_of(state));
}

/// Replays the commitment phase of the transcript: seeds the coin,
/// absorbs the three commitments and the out-of-domain values, and draws
/// the challenges, the composition coefficients, the out-of-domain point
/// and the DEEP coefficients.
#[verifier::rlimit(100)]
#[verifier::spinoff_prover]
fn replay_transcript(p: &Proof) -> (r: (Challenges, Hints, Vec<(u64, u64)>, u64,
    DeepCompositionCoeffs, PublicCoin))
    requires
        wf_proof(*p),
    ensures
        ({
            let n = p.trace_info.trace_len as int;
            &&& r.0 == challenges_of(state1(*p), 0)
            &&& wf_challenges(r.0)
            &&& r.1 == hints_of(
                p.public_inputs.program@,
                p.public_inputs.input@,
                p.public_inputs.output@,
                n,
                r.0,
            )
            &&& wf_hints(r.1)
            &&& r.2@ == comp_coeffs_of(state2(*p))
            &&& r.2@.len() == 48
            &&& (forall|i: int|
                0 <= i < r.2@.len() ==> in_field((#[trigger] r.2@[i]).0 as int) && in_field(
                    r.2@[i].1 as int,
                ))
            &&& r.3 == draw_of(state3(*p), 1)
            &&& in_field(r.3 as int)
            &&& r.4.base_trace@ == deep_base_coeffs_of(state6(*p))
            &&& r.4.extension_trace@ == deep_ext_coeffs_of(state6(*p))
            &&& r.4.constraints@ == deep_comp_coeffs_of(state6(*p))
            &&& r.4.degree_alpha == draw_of(state6(*p), 69)
            &&& r.4.degree_beta == draw_of(state6(*p), 70)
            &&& wf_deep_coeffs(r.4)
            &&& r.5.state@ == state6(*p)
            &&& r.5.state@.len() == 32
            &&& r.5.counter < 0xffff_0000
        }),
{
    let n: u64 = p.trace_info.trace_len;
    let seed = seed_bytes(&p.public_inputs, &p.trace_info, &p.options);
    let mut coin = PublicCoin::new(&seed);
    coin.reseed(&p.base_trace_commitment);
    let challenges = draw_challenges(&mut coin);
    let hints = compute_hints(
        &p.public_inputs.program,
        &p.public_inputs.input,
        &p.public_inputs.output,
        n,
        &challenges,
    );
    coin.reseed(&p.extension_trace_commitment);
    let composition_coefficients = draw_pairs(&mut coin, 48);
    proof {
        lemma_is_comp_coeffs(composition_coefficients@, coin.state@);
    }
    coin.reseed(&p.composition_trace_commitment);
    let z = coin.draw();
    let mut ood_curr_bytes: Vec<u8> = Vec::new();
    push_words_le(&mut ood_curr_bytes, &p.ood_trace_states.curr);
    coin.reseed(&ood_curr_bytes);
    let mut ood_next_bytes: Vec<u8> = Vec::new();
    push_words_le(&mut ood_next_bytes, &p.ood_trace_states.next);
    coin.reseed(&ood_next_bytes);
    let mut ood_eval_bytes: Vec<u8> = Vec::new();
    push_words_le(&mut ood_eval_bytes, &p.ood_constraint_evaluations);
    coin.reseed(&ood_eval_bytes);
    proof {
        assert(ood_curr_bytes@ =~= words_bytes(p.ood_trace_states.curr@));
        assert(ood_next_bytes@ =~= words_bytes(p.ood_trace_states.next@));
        assert(ood_eval_bytes@ =~= words_bytes(p.ood_constraint_evaluations@));
    }
    let deep_base = draw_pairs(&mut coin, 17);
    let deep_ext = draw_pairs(&mut coin, 9);
    let deep_comp = draw_singles(&mut coin, 16);
    let degree_alpha = coin.draw();
    let degree_beta = coin.draw();
    proof {
        lemma_is_deep_base(deep_base@, coin.state@);
        lemma_is_deep_ext(deep_ext@, coin.state@);
        lemma_is_deep_comp(deep_comp@, coin.state@);
    }
    let deep_coeffs = DeepCompositionCoeffs {
        base_trace: deep_base,
        extension_trace: deep_ext,
        constraints: deep_comp,
        degree_alpha,
        degree_beta,
    };
    (challenges, hints, composition_coefficients, z, deep_coeffs, coin)
}


impl Proof {
    /// Verifies the proof: replays the transcript, checks the out-of-domain
    /// constraint consistency, the proof of work, every Merkle opening, and
    /// the low-degree spot checks.  Returns exactly what the spec model
    /// `verify_model` decides.
    #[verifier::rlimit(100)]
    #[verifier::spinoff_prover]
    pub fn verify(self) -> (r: Result<(), VerificationError>)
        requires
            wf_proof(self),
        ensures
            r == verify_model(self),
    {
        let n: u64 = self.trace_info.trace_len;
        proof {
            assert(n <= 0x10_0000);
        }
        let (challenges, hints, composition_coefficients, z, deep_coeffs, mut coin) =
            replay_transcript(&self);
        let expected = ood_constraint_evaluation(
            &composition_coefficients,
            &challenges,
            &hints,
            &self.ood_trace_states.curr,
            &self.ood_trace_states.next,
            n,
            z,
        );
        let provided = poly_eval(&self.ood_constraint_evaluations, z);
        proof {
            assert((expected == provided) == ood_consistent(self));
        }
        if expected != provided {
            return Err(VerificationError::InconsistentOodConstraintEvaluations);
        }
        let mut fri_bytes: Vec<u8> = Vec::new();
        push_words_le(&mut fri_bytes, &self.fri_proof.coefficients);
        coin.reseed(&fri_bytes);
        proof {
            assert(fri_bytes@ =~= words_bytes(self.fri_proof.coefficients@));
            assert(coin.state@ == state7(self));
        }
        if self.options.grinding_factor != 0 {
            let mut nonce_bytes: Vec<u8> = Vec::new();
            push_u64_le(&mut nonce_bytes, self.pow_nonce);
            coin.reseed(&nonce_bytes);
            proof {
                assert(nonce_bytes@ =~= le_bytes8(self.pow_nonce));
                assert(coin.state@ == state8(self));
            }
            if coin.seed_leading_zeros() < self.options.grinding_factor as u32 {
                proof {
                    assert(!pow_ok(self));
                }
                return Err(VerificationError::FriProofOfWork);
            }
        }
        proof {
            assert(coin.state@ == state8(self));
            assert(pow_ok(self));
        }
        proof {
            let ghost ef = self.options.expansion_factor as int;
            assert((n as int) * ef <= 0x10_0000 * 255 && (n as int) * ef >= 32) by (nonlinear_arith)
                requires 2 <= n <= 0x10_0000 && 16 <= ef <= 255;
        }
        let lde: u64 = n * self.options.expansion_factor as u64;
        let qn: usize = self.options.num_queries as usize;
        let query_positions = draw_positions(&mut coin, qn, lde);
        proof {
            assert(query_positions@ == positions_of(state8(self), qn as int, lde as int));
        }
        let r = check_queries(
            &self.trace_queries,
            &self.base_trace_commitment,
            &self.extension_trace_commitment,
            &self.composition_trace_commitment,
            &self.fri_proof.coefficients,
            &query_positions,
            &deep_coeffs,
            z,
            &self.ood_trace_states.curr,
            &self.ood_trace_states.next,
            &self.ood_constraint_evaluations,
            n,
            lde,
        );
        proof {
            assert(r == model_query_decision(self));
            assert(r == verify_model(self));
        }
        r
    }
}

} // verus!
