//! The AIR constraints vanish on simulated traces: boundary constraints at
//! the first row, transition constraints on every row pair, and terminal
//! constraints at the last row.

use brainstark::air::{Challenges, transition_evals, boundary_evals, terminal_evals};
use brainstark::prover::{base_columns, extension_columns, compute_hints};
use brainstark::sim::{simulate, BrainfuckTrace};
use brainstark::vm::compile;

fn combined_row(base: &Vec<Vec<u64>>, ext: &Vec<Vec<u64>>, i: usize) -> Vec<u64> {
    let mut r: Vec<u64> = Vec::new();
    for c in 0..17 {
        r.push(base[c][i]);
    }
    for c in 0..9 {
        r.push(ext[c][i]);
    }
    r
}

fn assert_constraints_vanish(trace: &BrainfuckTrace, program: &Vec<u64>, input: &Vec<u8>) {
    let n = trace.height;
    let ch = Challenges {
        alpha: 3,
        beta: 5,
        gamma: 7,
        delta: 11,
        eta: 13,
        a: 17,
        b: 19,
        c: 23,
        d: 29,
        e: 31,
        f: 37,
    };
    let base = base_columns(trace);
    let ext = extension_columns(&base, &ch, n);
    let consumed = input[..trace.real_input_len].to_vec();
    let written: Vec<u8> =
        trace.output[..trace.real_output_len].iter().map(|v| *v as u8).collect();
    let hints = compute_hints(program, &consumed, &written, n as u64, &ch);
    let mut bad: Vec<String> = Vec::new();
    let b = boundary_evals(&ch, &hints, &combined_row(&base, &ext, 0));
    for (k, v) in b.iter().enumerate() {
        if *v != 0 {
            bad.push(format!("boundary {} = {}", k, v));
        }
    }
    for i in 0..n - 1 {
        let t = transition_evals(
            &ch,
            &combined_row(&base, &ext, i),
            &combined_row(&base, &ext, i + 1),
        );
        for (k, v) in t.iter().enumerate() {
            if *v != 0 {
                bad.push(format!("transition {} at row {} = {}", k, i, v));
            }
        }
    }
    let m = terminal_evals(&ch, &hints, &combined_row(&base, &ext, n - 1));
    for (k, v) in m.iter().enumerate() {
        if *v != 0 {
            bad.push(format!("terminal {} = {}", k, v));
        }
    }
    assert!(bad.is_empty(), "nonvanishing constraints: {:?}", bad);
}

#[test]
fn constraints_vanish_on_loop_trace() {
    let program = compile(&b"+[->+<]".to_vec()).unwrap();
    let (trace, _) = simulate(&program, &Vec::new()).unwrap();
    assert_constraints_vanish(&trace, &program, &Vec::new());
}

#[test]
fn constraints_vanish_on_write_trace() {
    let program = compile(&b"++>+.".to_vec()).unwrap();
    let (trace, _) = simulate(&program, &Vec::new()).unwrap();
    assert_constraints_vanish(&trace, &program, &Vec::new());
}

#[test]
fn read_constraint_rejects_a_changed_cell() {
    // the transition slot for `,` is `mv' - mv`, so a read that changes
    // the cell value violates the AIR even though the simulator allows it:
    // such executions cannot be proved
    let program = compile(&b",.".to_vec()).unwrap();
    let input: Vec<u8> = vec![0x41];
    let (trace, _) = simulate(&program, &input).unwrap();
    let n = trace.height;
    let ch = Challenges {
        alpha: 3,
        beta: 5,
        gamma: 7,
        delta: 11,
        eta: 13,
        a: 17,
        b: 19,
        c: 23,
        d: 29,
        e: 31,
        f: 37,
    };
    let base = base_columns(&trace);
    let ext = extension_columns(&base, &ch, n);
    let t = transition_evals(
        &ch,
        &combined_row(&base, &ext, 0),
        &combined_row(&base, &ext, 1),
    );
    // slot 2 carries the MemVal constraints; the read row trips it
    assert_ne!(t[2], 0);
}
