//! Compound circuits built from primitive trained gates: half adders, full
//! adders and the 4-bit ripple-carry adder, with checkers that hold them
//! to their boolean truth tables.

use vstd::prelude::*;

use crate::circuit::NeuralCircuit;
use crate::circuit::forward_spec;
use crate::fx::FX_HALF;
use crate::fx::FX_ONE;
use crate::gate::NeuralGate;
use crate::gate::gate_like;
use crate::register::bit_of;
use crate::register::bits_seq;
use crate::register::bits_vec;
use crate::register::is_high;
use crate::register::sym_of;
use crate::register::symbolic_prefix;

verus! {

/// The activation encoding one boolean.
pub open spec fn bit_act(b: bool) -> i32 {
    if b {
        FX_ONE
    } else {
        0i32
    }
}

/// A half adder: sum is the xor of the two inputs, carry is the and.
pub fn half_adder_circuit(xor_gate: NeuralGate, and_gate: NeuralGate) -> (r: NeuralCircuit)
    requires
        xor_gate.wf(),
        and_gate.wf(),
    ensures
        r.wf(),
        r.input_size == 2,
        r.gates@ == seq![xor_gate, and_gate],
        r.output_mapping@ == seq![(0usize, 0usize), (1usize, 0usize)],
        r.connections.spec_get((0usize, 0usize)) == Some((Option::<usize>::None, 0usize)),
        r.connections.spec_get((0usize, 1usize)) == Some((Option::<usize>::None, 1usize)),
        r.connections.spec_get((1usize, 0usize)) == Some((Option::<usize>::None, 0usize)),
        r.connections.spec_get((1usize, 1usize)) == Some((Option::<usize>::None, 1usize)),
{
    let mut circuit = NeuralCircuit::new(2);
    let g_sum = circuit.add_gate(xor_gate);
    let g_carry = circuit.add_gate(and_gate);
    circuit.connect(None, 0, g_sum, 0);
    circuit.connect(None, 1, g_sum, 1);
    circuit.connect(None, 0, g_carry, 0);
    circuit.connect(None, 1, g_carry, 1);
    circuit.set_output(g_sum, 0);
    circuit.set_output(g_carry, 0);
    proof {
        assert(circuit.gates@ =~= seq![xor_gate, and_gate]);
        assert(circuit.output_mapping@ =~= seq![(0usize, 0usize), (1usize, 0usize)]);
    }
    circuit
}

/// A full adder as two half adders plus an or gate for the carry.
pub fn full_adder_circuit(xor_gate: NeuralGate, and_gate: NeuralGate, or_gate: NeuralGate) -> (r:
    NeuralCircuit)
    requires
        xor_gate.wf(),
        and_gate.wf(),
        or_gate.wf(),
    ensures
        r.wf(),
        r.input_size == 3,
        r.gates@.len() == 5,
        gate_like(xor_gate, r.gates@[0]),
        gate_like(and_gate, r.gates@[1]),
        r.gates@[2] == xor_gate,
        r.gates@[3] == and_gate,
        r.gates@[4] == or_gate,
        r.output_mapping@ == seq![(2usize, 0usize), (4usize, 0usize)],
        r.connections.spec_get((0usize, 0usize)) == Some((Option::<usize>::None, 0usize)),
        r.connections.spec_get((0usize, 1usize)) == Some((Option::<usize>::None, 1usize)),
        r.connections.spec_get((1usize, 0usize)) == Some((Option::<usize>::None, 0usize)),
        r.connections.spec_get((1usize, 1usize)) == Some((Option::<usize>::None, 1usize)),
        r.connections.spec_get((2usize, 0usize)) == Some((Some(0usize), 0usize)),
        r.connections.spec_get((3usize, 0usize)) == Some((Some(0usize), 0usize)),
        r.connections.spec_get((2usize, 1usize)) == Some((Option::<usize>::None, 2usize)),
        r.connections.spec_get((3usize, 1usize)) == Some((Option::<usize>::None, 2usize)),
        r.connections.spec_get((4usize, 0usize)) == Some((Some(1usize), 0usize)),
        r.connections.spec_get((4usize, 1usize)) == Some((Some(3usize), 0usize)),
{
    let mut circuit = NeuralCircuit::new(3);
    let ha1_xor = circuit.add_gate(xor_gate.gate_copy());
    let ha1_and = circuit.add_gate(and_gate.gate_copy());
    circuit.connect(None, 0, ha1_xor, 0);
    circuit.connect(None, 1, ha1_xor, 1);
    circuit.connect(None, 0, ha1_and, 0);
    circuit.connect(None, 1, ha1_and, 1);
    let ha2_xor = circuit.add_gate(xor_gate);
    let ha2_and = circuit.add_gate(and_gate);
    circuit.connect(Some(ha1_xor), 0, ha2_xor, 0);
    circuit.connect(Some(ha1_xor), 0, ha2_and, 0);
    circuit.connect(None, 2, ha2_xor, 1);
    circuit.connect(None, 2, ha2_and, 1);
    let g_or = circuit.add_gate(or_gate);
    circuit.connect(Some(ha1_and), 0, g_or, 0);
    circuit.connect(Some(ha2_and), 0, g_or, 1);
    circuit.set_output(ha2_xor, 0);
    circuit.set_output(g_or, 0);
    proof {
        assert(circuit.output_mapping@ =~= seq![(2usize, 0usize), (4usize, 0usize)]);
    }
    circuit
}

/// Whether one half-adder truth-table row holds of a circuit: on boolean
/// inputs `a`, `b`, the evaluation succeeds with a thresholded sum of
/// `a xor b` and a thresholded carry of `a and b`.
pub open spec fn half_adder_row_ok(c: NeuralCircuit, a: bool, b: bool) -> bool {
    match forward_spec(c, seq![bit_act(a), bit_act(b)]) {
        Ok(v) => v.len() == 2 && is_high(v[0]) == (a != b) && is_high(v[1]) == (a && b),
        Err(_) => false,
    }
}

/// Whether the whole half-adder truth table holds of a circuit.
pub open spec fn half_adder_ok(c: NeuralCircuit) -> bool {
    forall|a: bool, b: bool| half_adder_row_ok(c, a, b)
}

/// Evaluate one boolean row of a two-input circuit.
fn eval_pair(c: &NeuralCircuit, a: bool, b: bool) -> (r: Result<Vec<i32>, crate::circuit::CircuitError>)
    requires
        c.wf(),
    ensures
        match r {
            Ok(v) => forward_spec(*c, seq![bit_act(a), bit_act(b)]) == Ok::<
                Seq<i32>,
                crate::circuit::CircuitError,
            >(v@),
            Err(e) => forward_spec(*c, seq![bit_act(a), bit_act(b)]) == Err::<
                Seq<i32>,
                crate::circuit::CircuitError,
            >(e),
        },
{
    let mut inp: Vec<i32> = Vec::new();
    inp.push(if a {
        FX_ONE
    } else {
        0
    });
    inp.push(if b {
        FX_ONE
    } else {
        0
    });
    proof {
        assert(inp@ =~= seq![bit_act(a), bit_act(b)]);
    }
    c.forward(&inp)
}

/// Check a circuit against all four half-adder truth-table rows.
pub fn check_half_adder(c: &NeuralCircuit) -> (r: bool)
    requires
        c.wf(),
    ensures
        r == half_adder_ok(*c),
{
    for case in 0..4u32
        invariant
            c.wf(),
            forall|a: bool, b: bool|
                ((!a && !b) && case > 0 || (!a && b) && case > 1 || (a && !b) && case > 2 || (a
                    && b) && case > 3) ==> #[trigger] half_adder_row_ok(*c, a, b),
    {
        let a: bool = case >= 2;
        let b: bool = case % 2 == 1;
        match eval_pair(c, a, b) {
            Ok(v) => {
                let row = v.len() == 2 && ((v[0] > FX_HALF) == (a != b)) && ((v[1] > FX_HALF) == (
                a && b));
                if !row {
                    proof {
                        assert(!half_adder_row_ok(*c, a, b));
                    }
                    return false;
                }
                proof {
                    assert(half_adder_row_ok(*c, a, b));
                }
            },
            Err(_) => {
                proof {
                    assert(!half_adder_row_ok(*c, a, b));
                }
                return false;
            },
        }
    }
    proof {
        assert forall|a: bool, b: bool| #[trigger] half_adder_row_ok(*c, a, b) by {
            assert((!a && !b) && 4u32 > 0 || (!a && b) && 4u32 > 1 || (a && !b) && 4u32 > 2 || (a
                && b) && 4u32 > 3);
        }
    }
    true
}

/// Whether one full-adder truth-table row holds of a circuit: sum is the
/// three-way xor, carry is the majority.
pub open spec fn full_adder_row_ok(c: NeuralCircuit, a: bool, b: bool, cin: bool) -> bool {
    match forward_spec(c, seq![bit_act(a), bit_act(b), bit_act(cin)]) {
        Ok(v) => v.len() == 2 && is_high(v[0]) == ((a != b) != cin) && is_high(v[1]) == ((a && b)
            || (a && cin) || (b && cin)),
        Err(_) => false,
    }
}

/// Whether all eight full-adder truth-table rows hold of a circuit.
pub open spec fn full_adder_ok(c: NeuralCircuit) -> bool {
    forall|a: bool, b: bool, cin: bool| full_adder_row_ok(c, a, b, cin)
}

/// Check a circuit against all eight full-adder truth-table rows.
pub fn check_full_adder(c: &NeuralCircuit) -> (r: bool)
    requires
        c.wf(),
    ensures
        r == full_adder_ok(*c),
{
    for case in 0..8u32
        invariant
            c.wf(),
            forall|a: bool, b: bool, cin: bool|
                bool_case(a, b, cin) < case ==> #[trigger] full_adder_row_ok(*c, a, b, cin),
    {
        let a: bool = case >= 4;
        let b: bool = (case / 2) % 2 == 1;
        let cin: bool = case % 2 == 1;
        let mut inp: Vec<i32> = Vec::new();
        inp.push(if a {
            FX_ONE
        } else {
            0
        });
        inp.push(if b {
            FX_ONE
        } else {
            0
        });
        inp.push(if cin {
            FX_ONE
        } else {
            0
        });
        proof {
            assert(inp@ =~= seq![bit_act(a), bit_act(b), bit_act(cin)]);
            assert(bool_case(a, b, cin) == case);
        }
        match c.forward(&inp) {
            Ok(v) => {
                let row = v.len() == 2 && ((v[0] > FX_HALF) == ((a != b) != cin)) && ((v[1]
                    > FX_HALF) == ((a && b) || (a && cin) || (b && cin)));
                if !row {
                    proof {
                        assert(!full_adder_row_ok(*c, a, b, cin));
                    }
                    return false;
                }
                proof {
                    assert(full_adder_row_ok(*c, a, b, cin));
                    assert forall|x: bool, y: bool, z: bool| bool_case(x, y, z) < case + 1 implies
                        #[trigger] full_adder_row_ok(*c, x, y, z) by {
                        if bool_case(x, y, z) == case {
                            assert(x == a && y == b && z == cin);
                        }
                    }
                }
            },
            Err(_) => {
                proof {
                    assert(!full_adder_row_ok(*c, a, b, cin));
                }
                return false;
            },
        }
    }
    proof {
        assert forall|a: bool, b: bool, cin: bool| #[trigger] full_adder_row_ok(*c, a, b, cin) by {
            assert(bool_case(a, b, cin) < 8);
        }
    }
    true
}

/// The row number of one boolean triple in the truth table.
pub open spec fn bool_case(a: bool, b: bool, cin: bool) -> int {
    (if a {
        4u32
    } else {
        0u32
    }) + (if b {
        2u32
    } else {
        0u32
    }) + (if cin {
        1u32
    } else {
        0u32
    })
}

/// One full-adder stage of the ripple-carry adder: stage `k` owns gates
/// `5k` through `5k + 4` (xor, and, xor, and, or), reads operand bits
/// `2k` and `2k + 1`, takes its carry from the previous stage's or gate
/// (stage 0 takes circuit input 8), and produces its sum on gate `5k + 2`
/// and its carry on gate `5k + 4`.
pub open spec fn fa_stage(
    c: NeuralCircuit,
    k: int,
    xg: NeuralGate,
    ag: NeuralGate,
    og: NeuralGate,
) -> bool {
    let base = 5 * k;
    &&& c.gates@.len() >= base + 5
    &&& gate_like(xg, c.gates@[base])
    &&& gate_like(ag, c.gates@[base + 1])
    &&& gate_like(xg, c.gates@[base + 2])
    &&& gate_like(ag, c.gates@[base + 3])
    &&& gate_like(og, c.gates@[base + 4])
    &&& c.connections.spec_get((base as usize, 0usize)) == Some(
        (Option::<usize>::None, (2 * k) as usize),
    )
    &&& c.connections.spec_get((base as usize, 1usize)) == Some(
        (Option::<usize>::None, (2 * k + 1) as usize),
    )
    &&& c.connections.spec_get(((base + 1) as usize, 0usize)) == Some(
        (Option::<usize>::None, (2 * k) as usize),
    )
    &&& c.connections.spec_get(((base + 1) as usize, 1usize)) == Some(
        (Option::<usize>::None, (2 * k + 1) as usize),
    )
    &&& c.connections.spec_get(((base + 2) as usize, 0usize)) == Some(
        (Some(base as usize), 0usize),
    )
    &&& c.connections.spec_get(((base + 3) as usize, 0usize)) == Some(
        (Some(base as usize), 0usize),
    )
    &&& c.connections.spec_get(((base + 2) as usize, 1usize)) == (if k == 0 {
        Some((Option::<usize>::None, 8usize))
    } else {
        Some((Some((base - 1) as usize), 0usize))
    })
    &&& c.connections.spec_get(((base + 3) as usize, 1usize)) == (if k == 0 {
        Some((Option::<usize>::None, 8usize))
    } else {
        Some((Some((base - 1) as usize), 0usize))
    })
    &&& c.connections.spec_get(((base + 4) as usize, 0usize)) == Some(
        (Some((base + 1) as usize), 0usize),
    )
    &&& c.connections.spec_get(((base + 4) as usize, 1usize)) == Some(
        (Some((base + 3) as usize), 0usize),
    )
}

/// A 4-bit ripple-carry adder: four chained full adders.  Inputs are the
/// interleaved operand bits `a0 b0 a1 b1 a2 b2 a3 b3` followed by the
/// carry-in; outputs are the four sum bits and the final carry.
pub fn ripple_carry_adder_circuit(
    xor_gate: NeuralGate,
    and_gate: NeuralGate,
    or_gate: NeuralGate,
) -> (r: NeuralCircuit)
    requires
        xor_gate.wf(),
        and_gate.wf(),
        or_gate.wf(),
    ensures
        r.wf(),
        r.input_size == 9,
        r.gates@.len() == 20,
        forall|k: int| 0 <= k < 4 ==> #[trigger] fa_stage(r, k, xor_gate, and_gate, or_gate),
        r.output_mapping@ == seq![
            (2usize, 0usize),
            (7usize, 0usize),
            (12usize, 0usize),
            (17usize, 0usize),
            (19usize, 0usize),
        ],
{
    let mut circuit = NeuralCircuit::new(9);
    let mut carry_gate: usize = 0;
    let mut have_carry_gate: bool = false;
    let mut sum_nodes: Vec<usize> = Vec::new();
    for bit in 0..4usize
        invariant
            circuit.wf(),
            circuit.input_size == 9,
            circuit.gates@.len() == 5 * bit,
            circuit.output_mapping@.len() == 0,
            sum_nodes@.len() == bit,
            xor_gate.wf(),
            and_gate.wf(),
            or_gate.wf(),
            have_carry_gate == (bit > 0),
            bit > 0 ==> carry_gate == 5 * bit - 1,
            forall|j: int| 0 <= j < bit ==> #[trigger] sum_nodes@[j] == 5 * j + 2,
            forall|k: int|
                0 <= k < bit ==> #[trigger] fa_stage(circuit, k, xor_gate, and_gate, or_gate),
    {
        let ghost c0 = circuit;
        let a_idx: usize = bit * 2;
        let b_idx: usize = bit * 2 + 1;
        let ha1_xor = circuit.add_gate(xor_gate.gate_copy());
        let ha1_and = circuit.add_gate(and_gate.gate_copy());
        circuit.connect(None, a_idx, ha1_xor, 0);
        circuit.connect(None, b_idx, ha1_xor, 1);
        circuit.connect(None, a_idx, ha1_and, 0);
        circuit.connect(None, b_idx, ha1_and, 1);
        let ha2_xor = circuit.add_gate(xor_gate.gate_copy());
        let ha2_and = circuit.add_gate(and_gate.gate_copy());
        circuit.connect(Some(ha1_xor), 0, ha2_xor, 0);
        circuit.connect(Some(ha1_xor), 0, ha2_and, 0);
        if have_carry_gate {
            circuit.connect(Some(carry_gate), 0, ha2_xor, 1);
            circuit.connect(Some(carry_gate), 0, ha2_and, 1);
        } else {
            circuit.connect(None, 8, ha2_xor, 1);
            circuit.connect(None, 8, ha2_and, 1);
        }
        let g_or = circuit.add_gate(or_gate.gate_copy());
        circuit.connect(Some(ha1_and), 0, g_or, 0);
        circuit.connect(Some(ha2_and), 0, g_or, 1);
        sum_nodes.push(ha2_xor);
        carry_gate = g_or;
        have_carry_gate = true;
        proof {
            assert(fa_stage(circuit, bit as int, xor_gate, and_gate, or_gate));
            assert forall|k: int|
                0 <= k < bit + 1 implies #[trigger] fa_stage(
                circuit,
                k,
                xor_gate,
                and_gate,
                or_gate,
            ) by {
                if k < bit {
                    assert(fa_stage(c0, k, xor_gate, and_gate, or_gate));
                    assert(0 <= 5 * k && 5 * k + 4 < 5 * (bit as int));
                }
            }
        }
    }
    let n: usize = sum_nodes.len();
    for k in 0..n
        invariant
            n == 4,
            n == sum_nodes@.len(),
            circuit.wf(),
            circuit.input_size == 9,
            circuit.gates@.len() == 20,
            carry_gate == 19,
            circuit.output_mapping@.len() == k,
            forall|j: int|
                0 <= j < k ==> circuit.output_mapping@[j] == (sum_nodes@[j], 0usize),
            forall|j: int| 0 <= j < n ==> #[trigger] sum_nodes@[j] == 5 * j + 2,
            forall|j: int|
                0 <= j < 4 ==> #[trigger] fa_stage(circuit, j, xor_gate, and_gate, or_gate),
    {
        let ghost c1 = circuit;
        circuit.set_output(sum_nodes[k], 0);
        proof {
            assert forall|j: int|
                0 <= j < 4 implies #[trigger] fa_stage(
                circuit,
                j,
                xor_gate,
                and_gate,
                or_gate,
            ) by {
                assert(fa_stage(c1, j, xor_gate, and_gate, or_gate));
            }
        }
    }
    let ghost c2 = circuit;
    circuit.set_output(carry_gate, 0);
    proof {
        assert forall|j: int|
            0 <= j < 4 implies #[trigger] fa_stage(circuit, j, xor_gate, and_gate, or_gate) by {
            assert(fa_stage(c2, j, xor_gate, and_gate, or_gate));
        }
    }
    proof {
        assert(circuit.output_mapping@ =~= seq![
            (2usize, 0usize),
            (7usize, 0usize),
            (12usize, 0usize),
            (17usize, 0usize),
            (19usize, 0usize),
        ]);
    }
    circuit
}

/// The input vector of one ripple-adder case: interleaved operand bits and
/// a zero carry-in.
pub open spec fn ripple_input(a: nat, b: nat) -> Seq<i32> {
    Seq::new(
        9,
        |i: int|
            if i == 8 {
                0i32
            } else if i % 2 == 0 {
                if bit_of(a, (i / 2) as nat) {
                    FX_ONE
                } else {
                    0i32
                }
            } else {
                if bit_of(b, (i / 2) as nat) {
                    FX_ONE
                } else {
                    0i32
                }
            },
    )
}

/// Whether one ripple-adder case holds of a circuit: the five thresholded
/// outputs read back symbolically as exactly `a + b`.
pub open spec fn ripple_row_ok(c: NeuralCircuit, a: nat, b: nat) -> bool {
    match forward_spec(c, ripple_input(a, b)) {
        Ok(v) => v.len() == 5 && sym_of(v) == a + b,
        Err(_) => false,
    }
}

/// Whether a circuit adds every pair of 4-bit operands with zero carry-in,
/// 5-bit result included.
pub open spec fn ripple_adder_ok(c: NeuralCircuit) -> bool {
    forall|a: nat, b: nat| a < 16 && b < 16 ==> #[trigger] ripple_row_ok(c, a, b)
}

/// Check a circuit against every pair of 4-bit operands.
pub fn check_ripple_adder(c: &NeuralCircuit) -> (r: bool)
    requires
        c.wf(),
    ensures
        r == ripple_adder_ok(*c),
{
    for a in 0..16u32
        invariant
            c.wf(),
            forall|x: nat, y: nat| x < a && y < 16 ==> #[trigger] ripple_row_ok(*c, x, y),
    {
        for b in 0..16u32
            invariant
                c.wf(),
                a < 16,
                forall|x: nat, y: nat| x < a && y < 16 ==> #[trigger] ripple_row_ok(*c, x, y),
                forall|y: nat| y < b ==> #[trigger] ripple_row_ok(*c, a as nat, y),
        {
            let abits = bits_vec(4, a);
            let bbits = bits_vec(4, b);
            let mut inp: Vec<i32> = Vec::new();
            for j in 0..4usize
                invariant
                    abits@ == bits_seq(4, a as nat),
                    bbits@ == bits_seq(4, b as nat),
                    inp@.len() == 2 * j,
                    forall|i: int|
                        0 <= i < 2 * j ==> inp@[i] == ripple_input(a as nat, b as nat)[i],
            {
                inp.push(abits[j]);
                inp.push(bbits[j]);
            }
            inp.push(0);
            proof {
                assert(inp@ =~= ripple_input(a as nat, b as nat));
            }
            match c.forward(&inp) {
                Ok(v) => {
                    if v.len() != 5 {
                        proof {
                            assert(!ripple_row_ok(*c, a as nat, b as nat));
                        }
                        return false;
                    }
                    let got: u32 = symbolic_prefix(&v, 5);
                    proof {
                        assert(v@.take(5) =~= v@);
                    }
                    if got != a + b {
                        proof {
                            assert(!ripple_row_ok(*c, a as nat, b as nat));
                        }
                        return false;
                    }
                    proof {
                        assert(ripple_row_ok(*c, a as nat, b as nat));
                    }
                },
                Err(_) => {
                    proof {
                        assert(!ripple_row_ok(*c, a as nat, b as nat));
                    }
                    return false;
                },
            }
        }
        proof {
            assert forall|x: nat, y: nat| x < a + 1 && y < 16 implies #[trigger] ripple_row_ok(
                *c,
                x,
                y,
            ) by {
                if x == a as nat {
                    assert(ripple_row_ok(*c, a as nat, y));
                }
            }
        }
    }
    proof {
        assert forall|a: nat, b: nat| a < 16 && b < 16 implies #[trigger] ripple_row_ok(
            *c,
            a,
            b,
        ) by {
        }
    }
    true
}

} // verus!
