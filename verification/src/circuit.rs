//! The circuit evaluator: primitive trained gates wired into a directed
//! acyclic graph, evaluated by memoized recursion.
//!
//! Each gate is evaluated at most once per circuit evaluation regardless of
//! fan-out.  The evaluator does not assume acyclicity: recursion depth is
//! bounded by the number of gates, and exhausting that bound surfaces a
//! cycle error instead of recursing without end.

use vstd::prelude::*;

use crate::gate::NeuralGate;
use crate::sparse::lemma_lookup_push;
use crate::sparse::lemma_lookup_skip;
use crate::sparse::lemma_lookup_update;
use crate::sparse::lookup_at;

verus! {

/// Why a circuit evaluation failed: all of these mean the circuit
/// definition itself is broken, and they stop the whole evaluation.
#[derive(Clone, Copy, Debug, PartialEq, Eq, Structural)]
pub enum CircuitError {
    /// The input vector does not match the declared circuit input size.
    InputSizeMismatch,
    /// An output or connection names a gate id that does not exist.
    GateNotFound,
    /// A connection reads a circuit input beyond the input vector.
    CircuitInputOutOfRange,
    /// An output index lies beyond the producing gate's output width.
    OutputIndexOutOfRange,
    /// The recursion bound was exhausted: the wiring contains a cycle.
    CycleDetected,
}

/// The wiring of a circuit: `(dest_gate, dest_input) -> (source, output)`,
/// where a source of `None` denotes a circuit-level input.
pub struct ConnMap {
    pub entries: Vec<((usize, usize), (Option<usize>, usize))>,
}

impl ConnMap {
    /// The source feeding `(dest_gate, dest_input)`, if connected.
    pub open spec fn spec_get(&self, k: (usize, usize)) -> Option<(Option<usize>, usize)> {
        lookup_at(self.entries@, k)
    }

    /// An empty wiring.
    pub fn new() -> (r: Self)
        ensures
            forall|k: (usize, usize)| r.spec_get(k) is None,
            r.entries@.len() == 0,
    {
        ConnMap { entries: Vec::new() }
    }

    /// Look up the source feeding gate `dg`'s input `di`.
    pub fn get(&self, dg: usize, di: usize) -> (r: Option<(Option<usize>, usize)>)
        ensures
            r == self.spec_get((dg, di)),
    {
        let n: usize = self.entries.len();
        for i in 0..n
            invariant
                n == self.entries@.len(),
                forall|j: int| 0 <= j < i ==> (#[trigger] self.entries@[j]).0 != (dg, di),
        {
            let e = &self.entries[i];
            if e.0.0 == dg && e.0.1 == di {
                proof {
                    lemma_lookup_skip(self.entries@, (dg, di), i as int);
                    assert(self.entries@.skip(i as int)[0] == self.entries@[i as int]);
                }
                return Some(e.1);
            }
        }
        proof {
            lemma_lookup_skip(self.entries@, (dg, di), n as int);
            assert(self.entries@.skip(n as int) =~= Seq::<
                ((usize, usize), (Option<usize>, usize)),
            >::empty());
        }
        None
    }

    /// Wire a source to gate `dg`'s input `di`, replacing any earlier
    /// wiring of that input.
    pub fn insert(&mut self, dg: usize, di: usize, v: (Option<usize>, usize))
        ensures
            final(self).spec_get((dg, di)) == Some(v),
            forall|k2: (usize, usize)|
                k2 != (dg, di) ==> final(self).spec_get(k2) == old(self).spec_get(k2),
    {
        let n: usize = self.entries.len();
        for i in 0..n
            invariant
                n == self.entries@.len(),
                self.entries@ == old(self).entries@,
                forall|j: int| 0 <= j < i ==> (#[trigger] self.entries@[j]).0 != (dg, di),
        {
            let e = &self.entries[i];
            if e.0.0 == dg && e.0.1 == di {
                proof {
                    lemma_lookup_update(self.entries@, (dg, di), v, i as int);
                }
                self.entries.set(i, ((dg, di), v));
                return ;
            }
        }
        proof {
            lemma_lookup_skip(self.entries@, (dg, di), n as int);
            assert(self.entries@.skip(n as int) =~= Seq::<
                ((usize, usize), (Option<usize>, usize)),
            >::empty());
            lemma_lookup_push(self.entries@, (dg, di), v);
        }
        self.entries.push(((dg, di), v));
    }
}

/// A compound circuit: gates keyed by their index, the wiring, the declared
/// circuit input size, and the list of `(gate, output)` pairs that define
/// the circuit outputs.
pub struct NeuralCircuit {
    pub gates: Vec<NeuralGate>,
    pub connections: ConnMap,
    pub input_size: usize,
    pub output_mapping: Vec<(usize, usize)>,
}

/// The memo table of one evaluation: one slot per gate, filled with the
/// gate's whole output vector when a gate is first resolved.
pub open spec fn memo_view(m: Seq<Option<Vec<i32>>>) -> Seq<Option<Seq<i32>>> {
    Seq::new(
        m.len(),
        |i: int|
            match m[i] {
                Some(v) => Some(v@),
                None => None,
            },
    )
}

/// Resolve output `oi` of gate `g`: use the memoized outputs when present,
/// otherwise gather that gate's inputs (recursively), run its forward pass,
/// and memoize the whole output vector.  `fuel` bounds the recursion depth.
pub open spec fn resolve_spec(
    c: NeuralCircuit,
    g: int,
    oi: int,
    inputs: Seq<i32>,
    memo: Seq<Option<Seq<i32>>>,
    fuel: nat,
) -> (Seq<Option<Seq<i32>>>, Result<i32, CircuitError>)
    decreases fuel, 0nat, 0nat,
{
    if !(0 <= g < c.gates@.len()) {
        (memo, Err(CircuitError::GateNotFound))
    } else if memo[g] is Some {
        let outs = memo[g]->Some_0;
        if 0 <= oi < outs.len() {
            (memo, Ok(outs[oi]))
        } else {
            (memo, Err(CircuitError::OutputIndexOutOfRange))
        }
    } else if fuel == 0 {
        (memo, Err(CircuitError::CycleDetected))
    } else {
        let n = c.gates@[g].in_size() as int;
        let cr = collect_spec(c, g, 0, n, inputs, memo, (fuel - 1) as nat, Seq::empty());
        match cr.1 {
            Err(e) => (cr.0, Err(e)),
            Ok(vec) => {
                let outs = c.gates@[g].eval(vec);
                let memo2 = cr.0.update(g, Some(outs));
                if 0 <= oi < outs.len() {
                    (memo2, Ok(outs[oi]))
                } else {
                    (memo2, Err(CircuitError::OutputIndexOutOfRange))
                }
            },
        }
    }
}

/// Gather gate `g`'s input values from position `i` on: an unconnected
/// input defaults to zero, a circuit-input connection reads the input
/// vector, and a gate connection resolves that gate first.
pub open spec fn collect_spec(
    c: NeuralCircuit,
    g: int,
    i: int,
    n: int,
    inputs: Seq<i32>,
    memo: Seq<Option<Seq<i32>>>,
    fuel: nat,
    acc: Seq<i32>,
) -> (Seq<Option<Seq<i32>>>, Result<Seq<i32>, CircuitError>)
    decreases fuel, 1nat, (if n - i >= 0 { n - i } else { 0 }),
{
    if i >= n {
        (memo, Ok(acc))
    } else {
        match lookup_at(c.connections.entries@, (g as usize, i as usize)) {
            None => collect_spec(c, g, i + 1, n, inputs, memo, fuel, acc.push(0i32)),
            Some(conn) => match conn.0 {
                None => if conn.1 < inputs.len() {
                    collect_spec(c, g, i + 1, n, inputs, memo, fuel, acc.push(inputs[conn.1 as int]))
                } else {
                    (memo, Err(CircuitError::CircuitInputOutOfRange))
                },
                Some(src) => {
                    let rr = resolve_spec(c, src as int, conn.1 as int, inputs, memo, fuel);
                    match rr.1 {
                        Err(e) => (rr.0, Err(e)),
                        Ok(v) => collect_spec(c, g, i + 1, n, inputs, rr.0, fuel, acc.push(v)),
                    }
                },
            },
        }
    }
}

/// Resolve the declared circuit outputs from position `k` on, threading
/// the memo table through so no gate is evaluated twice.
pub open spec fn outputs_spec(
    c: NeuralCircuit,
    k: int,
    inputs: Seq<i32>,
    memo: Seq<Option<Seq<i32>>>,
    acc: Seq<i32>,
) -> (Seq<Option<Seq<i32>>>, Result<Seq<i32>, CircuitError>)
    decreases c.output_mapping@.len() - k,
{
    if k < 0 || k >= c.output_mapping@.len() {
        (memo, Ok(acc))
    } else {
        let om = c.output_mapping@[k];
        let rr = resolve_spec(c, om.0 as int, om.1 as int, inputs, memo, c.gates@.len());
        match rr.1 {
            Err(e) => (rr.0, Err(e)),
            Ok(v) => outputs_spec(c, k + 1, inputs, rr.0, acc.push(v)),
        }
    }
}

/// The value of one full circuit evaluation: the declared outputs in
/// order, or the first failure.
pub open spec fn forward_spec(c: NeuralCircuit, inputs: Seq<i32>) -> Result<Seq<i32>, CircuitError> {
    if inputs.len() != c.input_size {
        Err(CircuitError::InputSizeMismatch)
    } else {
        outputs_spec(c, 0, inputs, Seq::new(c.gates@.len(), |i: int| None), Seq::empty()).1
    }
}

impl NeuralCircuit {
    /// Every gate is well-shaped.
    pub open spec fn wf(&self) -> bool {
        forall|i: int| 0 <= i < self.gates@.len() ==> (#[trigger] self.gates@[i]).wf()
    }

    /// An empty circuit with the given input size.
    pub fn new(input_size: usize) -> (r: Self)
        ensures
            r.wf(),
            r.gates@.len() == 0,
            r.input_size == input_size,
            r.output_mapping@.len() == 0,
            forall|k: (usize, usize)| r.connections.spec_get(k) is None,
    {
        NeuralCircuit {
            gates: Vec::new(),
            connections: ConnMap::new(),
            input_size,
            output_mapping: Vec::new(),
        }
    }

    /// Add a gate and return its id; ids are handed out consecutively.
    pub fn add_gate(&mut self, gate: NeuralGate) -> (id: usize)
        requires
            old(self).wf(),
            gate.wf(),
        ensures
            final(self).wf(),
            id == old(self).gates@.len(),
            final(self).gates@ == old(self).gates@.push(gate),
            final(self).connections == old(self).connections,
            final(self).input_size == old(self).input_size,
            final(self).output_mapping == old(self).output_mapping,
    {
        let id = self.gates.len();
        self.gates.push(gate);
        id
    }

    /// Wire a source signal to a destination gate's input.  A source of
    /// `None` means the circuit input with index `source_output_idx`.
    pub fn connect(
        &mut self,
        source_gate_id: Option<usize>,
        source_output_idx: usize,
        dest_gate_id: usize,
        dest_input_idx: usize,
    )
        ensures
            final(self).connections.spec_get((dest_gate_id, dest_input_idx)) == Some(
                (source_gate_id, source_output_idx),
            ),
            forall|k2: (usize, usize)|
                k2 != (dest_gate_id, dest_input_idx) ==> final(self).connections.spec_get(k2)
                    == old(self).connections.spec_get(k2),
            final(self).gates == old(self).gates,
            final(self).input_size == old(self).input_size,
            final(self).output_mapping == old(self).output_mapping,
    {
        self.connections.insert(dest_gate_id, dest_input_idx, (source_gate_id, source_output_idx));
    }

    /// Declare one more circuit output: output `source_output_idx` of gate
    /// `source_gate_id`.
    pub fn set_output(&mut self, source_gate_id: usize, source_output_idx: usize)
        ensures
            final(self).output_mapping@ == old(self).output_mapping@.push(
                (source_gate_id, source_output_idx),
            ),
            final(self).gates == old(self).gates,
            final(self).connections == old(self).connections,
            final(self).input_size == old(self).input_size,
    {
        self.output_mapping.push((source_gate_id, source_output_idx));
    }

    /// Resolve one gate output with memoization; see `resolve_spec`.
    fn resolve_gate_output(
        &self,
        gate_id: usize,
        output_idx: usize,
        circuit_inputs: &Vec<i32>,
        memo: &mut Vec<Option<Vec<i32>>>,
        fuel: usize,
    ) -> (r: Result<i32, CircuitError>)
        requires
            self.wf(),
            old(memo)@.len() == self.gates@.len(),
        ensures
            final(memo)@.len() == self.gates@.len(),
            memo_view(final(memo)@) == resolve_spec(
                *self,
                gate_id as int,
                output_idx as int,
                circuit_inputs@,
                memo_view(old(memo)@),
                fuel as nat,
            ).0,
            r == resolve_spec(
                *self,
                gate_id as int,
                output_idx as int,
                circuit_inputs@,
                memo_view(old(memo)@),
                fuel as nat,
            ).1,
        decreases fuel,
    {
        if gate_id >= self.gates.len() {
            return Err(CircuitError::GateNotFound);
        }
        let cached: bool = memo[gate_id].is_some();
        if cached {
            match &memo[gate_id] {
                Some(outs) => {
                    proof {
                        assert(memo_view(memo@)[gate_id as int] == Some(outs@));
                    }
                    if output_idx < outs.len() {
                        return Ok(outs[output_idx]);
                    } else {
                        return Err(CircuitError::OutputIndexOutOfRange);
                    }
                },
                None => {
                    proof {
                        assert(false);
                    }
                    return Err(CircuitError::GateNotFound);
                },
            }
        }
        proof {
            assert(memo_view(memo@)[gate_id as int] is None);
        }
        if fuel == 0 {
            return Err(CircuitError::CycleDetected);
        }
        let n: usize = self.gates[gate_id].input_count();
        let mut gate_input: Vec<i32> = Vec::new();
        let ghost memo0 = memo_view(memo@);
        let ghost target = collect_spec(
            *self,
            gate_id as int,
            0,
            n as int,
            circuit_inputs@,
            memo0,
            (fuel - 1) as nat,
            Seq::empty(),
        );
        for i in 0..n
            invariant
                self.wf(),
                memo@.len() == self.gates@.len(),
                gate_id < self.gates@.len(),
                fuel >= 1,
                n == self.gates@[gate_id as int].in_size(),
                gate_input@.len() == i,
                memo0 == memo_view(old(memo)@),
                memo0[gate_id as int] is None,
                target == collect_spec(
                    *self,
                    gate_id as int,
                    0,
                    n as int,
                    circuit_inputs@,
                    memo0,
                    (fuel - 1) as nat,
                    Seq::empty(),
                ),
                collect_spec(
                    *self,
                    gate_id as int,
                    i as int,
                    n as int,
                    circuit_inputs@,
                    memo_view(memo@),
                    (fuel - 1) as nat,
                    gate_input@,
                ) == target,
        {
            match self.connections.get(gate_id, i) {
                None => {
                    gate_input.push(0);
                },
                Some(conn) => {
                    match conn.0 {
                        None => {
                            if conn.1 < circuit_inputs.len() {
                                gate_input.push(circuit_inputs[conn.1]);
                            } else {
                                proof {
                                    assert(target == (
                                        memo_view(memo@),
                                        Err::<Seq<i32>, CircuitError>(
                                            CircuitError::CircuitInputOutOfRange,
                                        ),
                                    ));
                                    assert(resolve_spec(
                                        *self,
                                        gate_id as int,
                                        output_idx as int,
                                        circuit_inputs@,
                                        memo0,
                                        fuel as nat,
                                    ) == (
                                        memo_view(memo@),
                                        Err::<i32, CircuitError>(
                                            CircuitError::CircuitInputOutOfRange,
                                        ),
                                    ));
                                }
                                return Err(CircuitError::CircuitInputOutOfRange);
                            }
                        },
                        Some(src) => {
                            let ghost memo_before = memo_view(memo@);
                            let rr = self.resolve_gate_output(
                                src,
                                conn.1,
                                circuit_inputs,
                                memo,
                                fuel - 1,
                            );
                            match rr {
                                Ok(v) => {
                                    gate_input.push(v);
                                },
                                Err(e) => {
                                    proof {
                                        assert(target == (
                                            memo_view(memo@),
                                            Err::<Seq<i32>, CircuitError>(e),
                                        ));
                                        assert(resolve_spec(
                                            *self,
                                            gate_id as int,
                                            output_idx as int,
                                            circuit_inputs@,
                                            memo0,
                                            fuel as nat,
                                        ) == (memo_view(memo@), Err::<i32, CircuitError>(e)));
                                    }
                                    return Err(e);
                                },
                            }
                        },
                    }
                },
            }
        }
        let outs: Vec<i32> = self.gates[gate_id].forward(&gate_input);
        let r: Result<i32, CircuitError> = if output_idx < outs.len() {
            Ok(outs[output_idx])
        } else {
            Err(CircuitError::OutputIndexOutOfRange)
        };
        proof {
            assert(target == (memo_view(memo@), Ok::<Seq<i32>, CircuitError>(gate_input@)));
        }
        memo.set(gate_id, Some(outs));
        proof {
            let spec_r = resolve_spec(
                *self,
                gate_id as int,
                output_idx as int,
                circuit_inputs@,
                memo0,
                fuel as nat,
            );
            assert(memo_view(memo@) =~= spec_r.0);
        }
        r
    }

    /// Evaluate the circuit: resolve every declared output by memoized
    /// recursion over the wiring; see `forward_spec` for the value and the
    /// failure conditions.
    pub fn forward(&self, circuit_inputs: &Vec<i32>) -> (r: Result<Vec<i32>, CircuitError>)
        requires
            self.wf(),
        ensures
            match r {
                Ok(v) => forward_spec(*self, circuit_inputs@) == Ok::<Seq<i32>, CircuitError>(v@),
                Err(e) => forward_spec(*self, circuit_inputs@) == Err::<Seq<i32>, CircuitError>(e),
            },
    {
        if circuit_inputs.len() != self.input_size {
            return Err(CircuitError::InputSizeMismatch);
        }
        let gn: usize = self.gates.len();
        let mut memo: Vec<Option<Vec<i32>>> = Vec::new();
        for i in 0..gn
            invariant
                memo@.len() == i,
                forall|j: int| 0 <= j < i ==> memo@[j] is None,
        {
            memo.push(None);
        }
        proof {
            assert(memo_view(memo@) =~= Seq::new(self.gates@.len(), |i: int| None));
        }
        let mut results: Vec<i32> = Vec::new();
        let ghost target = outputs_spec(
            *self,
            0,
            circuit_inputs@,
            memo_view(memo@),
            Seq::empty(),
        );
        let m: usize = self.output_mapping.len();
        for k in 0..m
            invariant
                self.wf(),
                m == self.output_mapping@.len(),
                memo@.len() == self.gates@.len(),
                results@.len() == k,
                circuit_inputs@.len() == self.input_size,
                target == outputs_spec(
                    *self,
                    0,
                    circuit_inputs@,
                    Seq::new(self.gates@.len(), |i: int| None),
                    Seq::empty(),
                ),
                outputs_spec(*self, k as int, circuit_inputs@, memo_view(memo@), results@)
                    == target,
        {
            let om: (usize, usize) = self.output_mapping[k];
            let fuel: usize = self.gates.len();
            match self.resolve_gate_output(om.0, om.1, circuit_inputs, &mut memo, fuel) {
                Ok(v) => {
                    results.push(v);
                },
                Err(e) => {
                    proof {
                        assert(target.1 == Err::<Seq<i32>, CircuitError>(e));
                        assert(forward_spec(*self, circuit_inputs@) == Err::<
                            Seq<i32>,
                            CircuitError,
                        >(e));
                    }
                    return Err(e);
                },
            }
        }
        proof {
            assert(target.1 == Ok::<Seq<i32>, CircuitError>(results@));
        }
        Ok(results)
    }
}

} // verus!
