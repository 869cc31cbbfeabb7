//! A STARK proof system for a Brainfuck virtual machine.
//!
//! The crate compiles Brainfuck source to a jump-resolved program, simulates
//! it into algebraic execution-trace tables, pads the tables to a power-of-two
//! height, declares the AIR constraint polynomials that the tables must
//! satisfy, and provides a prover and a Fiat-Shamir public-coin verifier over
//! Merkle-committed low-degree extensions of the trace.

use vstd::prelude::*;

pub mod air;
pub mod coin;
pub mod field;
pub mod laws;
pub mod merkle;
pub mod opcode;
pub mod poly;
pub mod sort;
pub mod trace;
pub mod prover;
pub mod sim;
pub mod verify;
pub mod vm;

verus! {

} // verus!
