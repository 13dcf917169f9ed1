use neuro_symbolic_emulator::adders::{
    check_full_adder, check_half_adder, check_ripple_adder, full_adder_circuit,
    half_adder_circuit, ripple_carry_adder_circuit,
};
use neuro_symbolic_emulator::circuit::{CircuitError, NeuralCircuit};
use neuro_symbolic_emulator::fx::{FX_HALF, FX_ONE};
use neuro_symbolic_emulator::gate::{Activation, NeuralGate};

/// A gate computing boolean AND exactly in fixed point.
fn and_gate() -> NeuralGate {
    NeuralGate::new(
        vec![vec![FX_ONE, FX_ONE]],
        vec![-FX_ONE],
        vec![vec![FX_ONE]],
        vec![0],
        Activation::ReLU,
        Activation::Step,
    )
}

/// A gate computing boolean OR exactly in fixed point.
fn or_gate() -> NeuralGate {
    NeuralGate::new(
        vec![vec![FX_ONE, FX_ONE]],
        vec![0],
        vec![vec![FX_ONE]],
        vec![0],
        Activation::ReLU,
        Activation::Step,
    )
}

/// A gate computing boolean XOR exactly in fixed point.
fn xor_gate() -> NeuralGate {
    NeuralGate::new(
        vec![vec![FX_ONE, FX_ONE], vec![FX_ONE, FX_ONE]],
        vec![0, -FX_ONE],
        vec![vec![FX_ONE, -2 * FX_ONE]],
        vec![0],
        Activation::ReLU,
        Activation::Step,
    )
}

/// A gate computing boolean NOT exactly in fixed point.
fn not_gate() -> NeuralGate {
    NeuralGate::new(
        vec![vec![-FX_ONE]],
        vec![FX_ONE],
        vec![vec![FX_ONE]],
        vec![0],
        Activation::ReLU,
        Activation::Step,
    )
}

/// A gate computing boolean NAND exactly in fixed point.
fn nand_gate() -> NeuralGate {
    NeuralGate::new(
        vec![vec![-FX_ONE, -FX_ONE]],
        vec![2 * FX_ONE],
        vec![vec![FX_ONE]],
        vec![0],
        Activation::ReLU,
        Activation::Step,
    )
}

fn bit(b: bool) -> i32 {
    if b {
        FX_ONE
    } else {
        0
    }
}

#[test]
fn test_primitive_gates_truth_tables() {
    for a in [false, true] {
        for b in [false, true] {
            let inp = vec![bit(a), bit(b)];
            assert_eq!(and_gate().forward(&inp)[0] > FX_HALF, a && b);
            assert_eq!(or_gate().forward(&inp)[0] > FX_HALF, a || b);
            assert_eq!(xor_gate().forward(&inp)[0] > FX_HALF, a != b);
            assert_eq!(nand_gate().forward(&inp)[0] > FX_HALF, !(a && b));
        }
        assert_eq!(not_gate().forward(&vec![bit(a)])[0] > FX_HALF, !a);
    }
}

#[test]
fn test_half_adder() {
    let circuit = half_adder_circuit(xor_gate(), and_gate());
    // {00 -> (0,0), 01 -> (1,0), 10 -> (1,0), 11 -> (0,1)} for (sum, carry).
    let cases = [
        (false, false, false, false),
        (false, true, true, false),
        (true, false, true, false),
        (true, true, false, true),
    ];
    for (a, b, sum, carry) in cases {
        let outputs = circuit.forward(&vec![bit(a), bit(b)]).unwrap();
        assert_eq!(outputs.len(), 2);
        assert_eq!(outputs[0] > FX_HALF, sum);
        assert_eq!(outputs[1] > FX_HALF, carry);
    }
    assert!(check_half_adder(&circuit));
}

#[test]
fn test_full_adder() {
    let circuit = full_adder_circuit(xor_gate(), and_gate(), or_gate());
    for case in 0..8u32 {
        let a = case & 1 == 1;
        let b = case & 2 == 2;
        let cin = case & 4 == 4;
        let outputs = circuit.forward(&vec![bit(a), bit(b), bit(cin)]).unwrap();
        let total = a as u32 + b as u32 + cin as u32;
        assert_eq!(outputs.len(), 2);
        assert_eq!(outputs[0] > FX_HALF, total % 2 == 1);
        assert_eq!(outputs[1] > FX_HALF, total >= 2);
    }
    assert!(check_full_adder(&circuit));
}

#[test]
fn test_ripple_carry_adder() {
    let circuit = ripple_carry_adder_circuit(xor_gate(), and_gate(), or_gate());
    // Every pair of 4-bit operands with zero carry-in, 5-bit result included.
    for a in 0..16u32 {
        for b in 0..16u32 {
            let mut inputs = Vec::new();
            for bit_idx in 0..4 {
                inputs.push(bit((a >> bit_idx) & 1 == 1));
                inputs.push(bit((b >> bit_idx) & 1 == 1));
            }
            inputs.push(0); // carry in
            let outputs = circuit.forward(&inputs).unwrap();
            let mut result: u32 = 0;
            for (i, &v) in outputs.iter().enumerate() {
                if v > FX_HALF {
                    result |= 1 << i;
                }
            }
            assert_eq!(result, a + b, "ripple adder failed on {} + {}", a, b);
        }
    }
    assert!(check_ripple_adder(&circuit));
}

#[test]
fn test_circuit_input_size_mismatch() {
    let mut circuit = NeuralCircuit::new(2);
    let g = circuit.add_gate(and_gate());
    circuit.set_output(g, 0);
    assert_eq!(
        circuit.forward(&vec![FX_ONE]),
        Err(CircuitError::InputSizeMismatch)
    );
}

#[test]
fn test_circuit_missing_gate() {
    let mut circuit = NeuralCircuit::new(2);
    circuit.set_output(7, 0);
    assert_eq!(
        circuit.forward(&vec![0, 0]),
        Err(CircuitError::GateNotFound)
    );
}

#[test]
fn test_circuit_output_index_out_of_range() {
    let mut circuit = NeuralCircuit::new(2);
    let g = circuit.add_gate(and_gate());
    circuit.connect(None, 0, g, 0);
    circuit.connect(None, 1, g, 1);
    circuit.set_output(g, 3);
    assert_eq!(
        circuit.forward(&vec![0, 0]),
        Err(CircuitError::OutputIndexOutOfRange)
    );
}

#[test]
fn test_circuit_input_index_out_of_range() {
    let mut circuit = NeuralCircuit::new(1);
    let g = circuit.add_gate(and_gate());
    circuit.connect(None, 5, g, 0);
    circuit.set_output(g, 0);
    assert_eq!(
        circuit.forward(&vec![0]),
        Err(CircuitError::CircuitInputOutOfRange)
    );
}

#[test]
fn test_circuit_cycle_detected() {
    let mut circuit = NeuralCircuit::new(1);
    let g = circuit.add_gate(not_gate());
    // A gate feeding itself is not a DAG.
    circuit.connect(Some(g), 0, g, 0);
    circuit.set_output(g, 0);
    assert_eq!(
        circuit.forward(&vec![FX_ONE]),
        Err(CircuitError::CycleDetected)
    );
}

#[test]
fn test_circuit_unconnected_input_defaults_to_zero() {
    let mut circuit = NeuralCircuit::new(2);
    let g = circuit.add_gate(or_gate());
    circuit.connect(None, 0, g, 0);
    // Input 1 is left unconnected: it reads as zero.
    circuit.set_output(g, 0);
    let out = circuit.forward(&vec![FX_ONE, FX_ONE]).unwrap();
    assert!(out[0] > FX_HALF);
    let out = circuit.forward(&vec![0, FX_ONE]).unwrap();
    assert!(out[0] <= FX_HALF);
}

#[test]
fn test_circuit_memoized_fanout() {
    // One NOT gate feeding both inputs of an AND gate: AND(!a, !a) == !a.
    let mut circuit = NeuralCircuit::new(1);
    let n = circuit.add_gate(not_gate());
    let g = circuit.add_gate(and_gate());
    circuit.connect(None, 0, n, 0);
    circuit.connect(Some(n), 0, g, 0);
    circuit.connect(Some(n), 0, g, 1);
    circuit.set_output(g, 0);
    assert!(circuit.forward(&vec![0]).unwrap()[0] > FX_HALF);
    assert!(circuit.forward(&vec![FX_ONE]).unwrap()[0] <= FX_HALF);
}
