//! End-to-end behaviour of the compiler, the simulator and the proof
//! system on concrete programs.

use brainstark::field::{fadd, fmul, fsub, finv, fpow, byte_inv, P};
use brainstark::opcode::{instr_zerofier, if_not_instr, if_instr};
use brainstark::trace::ceil_power_of_two;
use brainstark::vm::{compile, check_program, VmError};
use brainstark::sim::simulate;
use brainstark::prover::{prove, ProofOptions};
use brainstark::verify::VerificationError;

#[test]
fn field_arithmetic_basics() {
    assert_eq!(fadd(P - 1, 1), 0);
    assert_eq!(fsub(0, 1), P - 1);
    assert_eq!(fmul(3, 5), 15);
    let x: u64 = 123_456_789;
    let inv = finv(x);
    assert_eq!(fmul(x, inv), 1);
    assert_eq!(fpow(2, 64), fmul(fpow(2, 32), fpow(2, 32)));
}

#[test]
fn byte_inverse_table_is_exact() {
    assert_eq!(byte_inv(0), 0);
    for b in 1u64..256 {
        assert_eq!(fmul(b, byte_inv(b)), 1);
    }
}

#[test]
fn deselector_selects_only_its_opcode() {
    // the gated deselector if_not_instr(op, x) * x is nonzero iff x == op
    let opcodes = [62u64, 60, 43, 45, 46, 44, 91, 93];
    for &op in opcodes.iter() {
        for &x in opcodes.iter() {
            let gated = fmul(if_not_instr(op, x), x);
            assert_eq!(gated != 0, x == op);
        }
        assert_eq!(fmul(if_not_instr(op, 0), 0), 0);
    }
    for &x in opcodes.iter() {
        assert_eq!(instr_zerofier(x), 0);
        assert_eq!(if_instr(x, x), 0);
    }
    assert_ne!(instr_zerofier(0), 0);
}

#[test]
fn ceil_power_of_two_rounds_up() {
    assert_eq!(ceil_power_of_two(0), 1);
    assert_eq!(ceil_power_of_two(1), 1);
    assert_eq!(ceil_power_of_two(2), 2);
    assert_eq!(ceil_power_of_two(3), 4);
    assert_eq!(ceil_power_of_two(16), 16);
    assert_eq!(ceil_power_of_two(17), 32);
}

#[test]
fn compile_resolves_loop_targets() {
    // "+[->+<]": the cell after '[' points past ']' and vice versa
    let source: Vec<u8> = b"+[->+<]".to_vec();
    let program = compile(&source).unwrap();
    assert_eq!(program, vec![43, 91, 9, 45, 62, 43, 60, 93, 3]);
    assert!(check_program(&program));
}

#[test]
fn compile_ignores_comments() {
    let source: Vec<u8> = b"+ hello + world".to_vec();
    let program = compile(&source).unwrap();
    assert_eq!(program, vec![43, 43]);
}

#[test]
fn unmatched_open_bracket_fails() {
    // an unmatched '[' is reported when the source ends
    let source: Vec<u8> = b"[".to_vec();
    assert_eq!(compile(&source).unwrap_err(), VmError::UnmatchedLoop);
}

#[test]
fn unmatched_close_bracket_fails() {
    let source: Vec<u8> = b"+]".to_vec();
    assert_eq!(compile(&source).unwrap_err(), VmError::UnmatchedLoop);
}

#[test]
fn single_increment_trace_shape() {
    // "+": one real non-dummy Memory row with Mp = 0, MemVal = 1 after the
    // increment is recorded, and MemValInv a true field inverse
    let program = compile(&b"+".to_vec()).unwrap();
    let (trace, out) = simulate(&program, &Vec::new()).unwrap();
    assert!(out.is_empty());
    assert!(trace.height.is_power_of_two());
    assert_eq!(trace.real_processor_len, 2);
    let first = trace.processor[0];
    assert_eq!((first.cycle, first.ip, first.mp, first.mem_val), (0, 0, 0, 0));
    assert_eq!(first.curr_instr, 43);
    let halt = trace.processor[1];
    assert_eq!(halt.curr_instr, 0);
    assert_eq!(halt.mem_val, 1);
    assert_eq!(fmul(halt.mem_val, halt.mem_val_inv), 1);
    // the memory table projects only the non-halt row (tape still zero)
    let real_mem: Vec<_> =
        trace.memory[..trace.real_memory_len].iter().filter(|r| r.dummy == 0).collect();
    assert_eq!(real_mem.len(), 1);
    assert_eq!(real_mem[0].mp, 0);
    assert_eq!(real_mem[0].mem_val, 0);
    assert_eq!(real_mem[0].cycle, 0);
}

#[test]
fn memory_table_sorted_with_filled_gaps() {
    // a loop that moves one cell: exactly one Mp transition 0 -> 1 and back
    let program = compile(&b"+[->+<]".to_vec()).unwrap();
    let (trace, _) = simulate(&program, &Vec::new()).unwrap();
    let mem = &trace.memory;
    for i in 0..mem.len() - 1 {
        let a = mem[i];
        let b = mem[i + 1];
        assert!(a.mp < b.mp || (a.mp == b.mp && a.cycle < b.cycle));
        if a.mp == b.mp {
            assert_eq!(b.cycle, a.cycle + 1);
        }
    }
    let real = &mem[..trace.real_memory_len];
    let max_mp = real.iter().map(|r| r.mp).max().unwrap();
    assert_eq!(max_mp, 1);
}

#[test]
fn read_write_trace_tables() {
    // ",." reads one byte and echoes it; the Input table holds one real
    // row with that value and the Output table mirrors it
    let program = compile(&b",.".to_vec()).unwrap();
    let (trace, out) = simulate(&program, &vec![0x41]).unwrap();
    assert_eq!(out, vec![0x41]);
    assert_eq!(trace.real_input_len, 1);
    assert_eq!(trace.input[0], 0x41);
    assert_eq!(trace.real_output_len, 1);
    assert_eq!(trace.output[0], 0x41);
    for i in 1..trace.height {
        assert_eq!(trace.input[i], 0);
        assert_eq!(trace.output[i], 0);
    }
}

#[test]
fn read_program_proof_is_rejected() {
    // a read that changes the cell violates the `,` transition slot, so
    // the honest proof of ",." fails the out-of-domain consistency check
    let program = compile(&b",.".to_vec()).unwrap();
    let options = ProofOptions::new(4, 16);
    let proof = prove(&program, &vec![0x41], options).unwrap();
    assert_eq!(
        proof.verify(),
        Err(VerificationError::InconsistentOodConstraintEvaluations)
    );
}

#[test]
fn read_on_empty_input_fails() {
    // a ',' with the stream exhausted reports EndOfInput
    let program = compile(&b"++>,<[>+.<-]".to_vec()).unwrap();
    assert_eq!(simulate(&program, &Vec::new()).unwrap_err(), VmError::EndOfInput);
}

#[test]
fn pointer_underflow_fails() {
    let program = compile(&b"<".to_vec()).unwrap();
    assert_eq!(simulate(&program, &Vec::new()).unwrap_err(), VmError::PointerUnderflow);
}

#[test]
fn malformed_program_is_rejected() {
    // a hand-built cell sequence that is not compiler output
    let program: Vec<u64> = vec![7, 43];
    assert!(!check_program(&program));
    assert_eq!(simulate(&program, &Vec::new()).unwrap_err(), VmError::UnknownOpcode);
}

#[test]
fn prove_and_verify_loop_program() {
    // "+[->+<]": balanced loop moves one cell; the proof verifies
    let program = compile(&b"+[->+<]".to_vec()).unwrap();
    let options = ProofOptions::new(4, 16);
    let proof = prove(&program, &Vec::new(), options).unwrap();
    assert_eq!(proof.verify(), Ok(()));
}

#[test]
fn prove_and_verify_single_increment() {
    let program = compile(&b"+".to_vec()).unwrap();
    let options = ProofOptions::new(2, 16);
    let proof = prove(&program, &Vec::new(), options).unwrap();
    assert_eq!(proof.verify(), Ok(()));
}

#[test]
fn tampered_base_commitment_is_rejected() {
    // flip one bit in base_commit: every later challenge changes, so the
    // first transcript-dependent check (out-of-domain consistency) fails
    let program = compile(&b"+[->+<]".to_vec()).unwrap();
    let options = ProofOptions::new(4, 16);
    let mut proof = prove(&program, &Vec::new(), options).unwrap();
    proof.base_trace_commitment[0] ^= 1;
    assert_eq!(
        proof.verify(),
        Err(VerificationError::InconsistentOodConstraintEvaluations)
    );
}

#[test]
fn tampered_base_query_value_is_rejected() {
    // a changed query answer no longer opens to the base commitment
    let program = compile(&b"+[->+<]".to_vec()).unwrap();
    let options = ProofOptions::new(4, 16);
    let mut proof = prove(&program, &Vec::new(), options).unwrap();
    proof.trace_queries.base_trace_values[0] ^= 1;
    assert_eq!(
        proof.verify(),
        Err(VerificationError::BaseTraceQueryDoesNotMatchCommitment)
    );
}

#[test]
fn tampered_extension_query_value_is_rejected() {
    let program = compile(&b"+[->+<]".to_vec()).unwrap();
    let options = ProofOptions::new(4, 16);
    let mut proof = prove(&program, &Vec::new(), options).unwrap();
    proof.trace_queries.extension_trace_values[0] ^= 1;
    assert_eq!(
        proof.verify(),
        Err(VerificationError::ExtensionTraceQueryDoesNotMatchCommitment)
    );
}

#[test]
fn tampered_composition_query_value_is_rejected() {
    let program = compile(&b"+[->+<]".to_vec()).unwrap();
    let options = ProofOptions::new(4, 16);
    let mut proof = prove(&program, &Vec::new(), options).unwrap();
    proof.trace_queries.composition_trace_values[0] ^= 1;
    assert_eq!(
        proof.verify(),
        Err(VerificationError::CompositionTraceQueryDoesNotMatchCommitment)
    );
}

#[test]
fn tampered_ood_evaluations_are_rejected() {
    let program = compile(&b"+[->+<]".to_vec()).unwrap();
    let options = ProofOptions::new(4, 16);
    let mut proof = prove(&program, &Vec::new(), options).unwrap();
    proof.ood_constraint_evaluations[0] ^= 1;
    assert_eq!(
        proof.verify(),
        Err(VerificationError::InconsistentOodConstraintEvaluations)
    );
}

#[test]
fn tampered_fri_coefficients_are_rejected() {
    let program = compile(&b"+[->+<]".to_vec()).unwrap();
    let options = ProofOptions::new(4, 16);
    let mut proof = prove(&program, &Vec::new(), options).unwrap();
    let last = proof.fri_proof.coefficients.len() - 1;
    proof.fri_proof.coefficients[last] ^= 1;
    assert!(proof.verify().is_err());
}
