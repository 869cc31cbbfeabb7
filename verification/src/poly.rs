//! Polynomial evaluation and interpolation over the field.
//!
//! The verifier only ever evaluates polynomials (by Horner's rule, proved
//! against `poly_evals`); the prover also interpolates trace columns with
//! a direct inverse discrete Fourier transform.

use vstd::prelude::*;
use crate::field::{P, GENERATOR, in_field, fadds, fmuls, fpows, fadd, fmul, fpow, finv};

verus! {

/// The value of the polynomial with the given coefficients (lowest first)
/// at a point.
pub open spec fn poly_evals(coeffs: Seq<u64>, x: int) -> int
    decreases coeffs.len(),
{
    if coeffs.len() == 0 {
        0
    } else {
        fadds(coeffs[0] as int, fmuls(x, poly_evals(coeffs.subrange(1, coeffs.len() as int), x)))
    }
}

/// Evaluates a polynomial at a point by Horner's rule.
pub fn poly_eval(coeffs: &Vec<u64>, x: u64) -> (r: u64)
    requires
        forall|i: int| 0 <= i < coeffs@.len() ==> in_field((#[trigger] coeffs@[i]) as int),
        in_field(x as int),
    ensures
        in_field(r as int),
        r == poly_evals(coeffs@, x as int),
{
    let mut acc: u64 = 0;
    let mut i: usize = coeffs.len();
    while i > 0
        invariant
            0 <= i <= coeffs@.len(),
            forall|j: int| 0 <= j < coeffs@.len() ==> in_field((#[trigger] coeffs@[j]) as int),
            in_field(x as int),
            in_field(acc as int),
            acc == poly_evals(coeffs@.subrange(i as int, coeffs@.len() as int), x as int),
        decreases i,
    {
        i = i - 1;
        acc = fadd(coeffs[i], fmul(x, acc));
        proof {
            let tail = coeffs@.subrange(i as int, coeffs@.len() as int);
            assert(tail[0] == coeffs@[i as int]);
            assert(tail.subrange(1, tail.len() as int) =~= coeffs@.subrange(
                i + 1,
                coeffs@.len() as int,
            ));
        }
    }
    proof {
        assert(coeffs@.subrange(0, coeffs@.len() as int) =~= coeffs@);
    }
    acc
}

/// The generator of the multiplicative subgroup with the given power-of-two
/// order.
pub fn domain_generator(size: u64) -> (r: u64)
    requires
        size > 0,
    ensures
        in_field(r as int),
        r == fpows(GENERATOR as int, (((P - 1) as int) / (size as int)) as nat),
{
    fpow(GENERATOR, (P - 1) / size)
}

/// Interpolates the polynomial whose evaluations on the coset
/// `offset * omega^i` are the given values, by a direct inverse transform.
/// Returns one coefficient per value.
pub fn interpolate_coset(values: &Vec<u64>, omega: u64, offset: u64) -> (r: Vec<u64>)
    requires
        forall|i: int| 0 <= i < values@.len() ==> in_field((#[trigger] values@[i]) as int),
        in_field(omega as int),
        in_field(offset as int),
        values@.len() >= 1,
        values@.len() < P,
    ensures
        r@.len() == values@.len(),
        forall|i: int| 0 <= i < r@.len() ==> in_field((#[trigger] r@[i]) as int),
{
    let n = values.len();
    let omega_inv = finv(omega);
    let offset_inv = finv(offset);
    let n_inv = finv(n as u64);
    let mut coeffs: Vec<u64> = Vec::new();
    let mut j: usize = 0;
    let mut offset_pow: u64 = 1;
    while j < n
        invariant
            0 <= j <= n,
            n == values@.len(),
            forall|i: int| 0 <= i < values@.len() ==> in_field((#[trigger] values@[i]) as int),
            in_field(omega_inv as int),
            in_field(offset_pow as int),
            in_field(n_inv as int),
            in_field(offset_inv as int),
            coeffs@.len() == j,
            forall|i: int| 0 <= i < coeffs@.len() ==> in_field((#[trigger] coeffs@[i]) as int),
        decreases n - j,
    {
        let w = fpow(omega_inv, j as u64);
        let mut acc: u64 = 0;
        let mut k: usize = 0;
        let mut wp: u64 = 1;
        while k < n
            invariant
                0 <= k <= n,
                n == values@.len(),
                forall|i: int|
                    0 <= i < values@.len() ==> in_field((#[trigger] values@[i]) as int),
                in_field(acc as int),
                in_field(wp as int),
                in_field(w as int),
            decreases n - k,
        {
            acc = fadd(acc, fmul(values[k], wp));
            wp = fmul(wp, w);
            k = k + 1;
        }
        coeffs.push(fmul(fmul(acc, n_inv), offset_pow));
        offset_pow = fmul(offset_pow, offset_inv);
        j = j + 1;
    }
    coeffs
}

} // verus!
