//! Atomic neural gates: two-layer networks used as boolean gate primitives
//! by the circuit evaluator.

use vstd::prelude::*;

use crate::fx::FX_HALF;
use crate::fx::FX_ONE;
use crate::fx::affine;
use crate::fx::affine_seq;
use crate::fx::hard_sigmoid;
use crate::fx::hard_sigmoid_exec;
use crate::fx::mat_wf;
use crate::fx::rows_of;

verus! {

/// The activation functions a gate layer may use.  `Sigmoid` is the
/// hard-sigmoid `clamp(0.5 + x/4, 0, 1)`, the piecewise-linear fixed-point
/// stand-in for the smooth curve.
#[derive(Clone, Copy, Debug, PartialEq, Eq, Structural)]
pub enum Activation {
    ReLU,
    Sigmoid,
    Step,
    Identity,
}

/// The value of one activation function at one pre-activation value.
pub open spec fn act_val(a: Activation, x: i32) -> i32 {
    match a {
        Activation::ReLU => if x > 0 {
            x
        } else {
            0i32
        },
        Activation::Sigmoid => hard_sigmoid(x as int) as i32,
        Activation::Step => if x > FX_HALF {
            FX_ONE
        } else {
            0i32
        },
        Activation::Identity => x,
    }
}

/// An activation function applied to every element of a vector.
pub open spec fn act_seq(a: Activation, s: Seq<i32>) -> Seq<i32> {
    s.map_values(|x: i32| act_val(a, x))
}

impl Activation {
    /// Apply this activation elementwise.
    pub fn apply(&self, x: &Vec<i32>) -> (r: Vec<i32>)
        ensures
            r@ == act_seq(*self, x@),
    {
        let mut out: Vec<i32> = Vec::new();
        let n: usize = x.len();
        for i in 0..n
            invariant
                n == x@.len(),
                out@.len() == i,
                forall|j: int| 0 <= j < i ==> out@[j] == act_val(*self, x@[j]),
        {
            let v: i32 = x[i];
            let y: i32 = match self {
                Activation::ReLU => if v > 0 {
                    v
                } else {
                    0
                },
                Activation::Sigmoid => hard_sigmoid_exec(v),
                Activation::Step => if v > FX_HALF {
                    FX_ONE
                } else {
                    0
                },
                Activation::Identity => v,
            };
            out.push(y);
        }
        proof {
            assert(out@ =~= act_seq(*self, x@));
        }
        out
    }
}

/// Two gates hold the same weights, biases and activations; everything the
/// forward pass reads is equal, so they compute the same function.
pub open spec fn gate_like(a: NeuralGate, b: NeuralGate) -> bool {
    &&& rows_of(b.w1) == rows_of(a.w1)
    &&& b.b1@ == a.b1@
    &&& rows_of(b.w2) == rows_of(a.w2)
    &&& b.b2@ == a.b2@
    &&& b.activation_hidden == a.activation_hidden
    &&& b.activation_output == a.activation_output
}

/// A two-layer neural gate: `y = act_o(w2 * act_h(w1 * x + b1) + b2)`.
pub struct NeuralGate {
    pub w1: Vec<Vec<i32>>,
    pub b1: Vec<i32>,
    pub w2: Vec<Vec<i32>>,
    pub b2: Vec<i32>,
    pub activation_hidden: Activation,
    pub activation_output: Activation,
}

impl NeuralGate {
    /// Number of inputs this gate consumes, read off the first layer.
    pub open spec fn in_size(&self) -> nat {
        if self.w1@.len() == 0 {
            0
        } else {
            self.w1@[0]@.len()
        }
    }

    /// Number of hidden units.
    pub open spec fn hidden_size(&self) -> nat {
        self.w1@.len()
    }

    /// Number of outputs this gate produces.
    pub open spec fn out_size(&self) -> nat {
        self.w2@.len()
    }

    /// The weight shapes agree: `w1` is hidden x in, `w2` is out x hidden,
    /// and the bias lengths match.
    pub open spec fn wf(&self) -> bool {
        &&& mat_wf(rows_of(self.w1), self.hidden_size(), self.in_size())
        &&& self.b1@.len() == self.hidden_size()
        &&& mat_wf(rows_of(self.w2), self.out_size(), self.hidden_size())
        &&& self.b2@.len() == self.out_size()
    }

    /// The full forward pass as a mathematical function of the inputs.
    pub open spec fn eval(&self, x: Seq<i32>) -> Seq<i32> {
        act_seq(
            self.activation_output,
            affine_seq(
                rows_of(self.w2),
                self.b2@,
                act_seq(self.activation_hidden, affine_seq(rows_of(self.w1), self.b1@, x)),
            ),
        )
    }

    pub fn new(
        w1: Vec<Vec<i32>>,
        b1: Vec<i32>,
        w2: Vec<Vec<i32>>,
        b2: Vec<i32>,
        activation_hidden: Activation,
        activation_output: Activation,
    ) -> (r: Self)
        ensures
            r == (NeuralGate { w1, b1, w2, b2, activation_hidden, activation_output }),
    {
        NeuralGate { w1, b1, w2, b2, activation_hidden, activation_output }
    }

    /// A gate with the same weights, biases and activations; it computes
    /// the same function, since the forward pass reads only those.
    pub fn gate_copy(&self) -> (r: Self)
        ensures
            gate_like(*self, r),
            r.in_size() == self.in_size(),
            r.hidden_size() == self.hidden_size(),
            r.out_size() == self.out_size(),
            self.wf() ==> r.wf(),
    {
        let r = NeuralGate {
            w1: crate::fx::mat_copy(&self.w1),
            b1: crate::fx::fx_copy(&self.b1),
            w2: crate::fx::mat_copy(&self.w2),
            b2: crate::fx::fx_copy(&self.b2),
            activation_hidden: self.activation_hidden,
            activation_output: self.activation_output,
        };
        proof {
            if self.w1@.len() > 0 {
                assert(rows_of(r.w1)[0] == r.w1@[0]@);
                assert(rows_of(self.w1)[0] == self.w1@[0]@);
            }
        }
        r
    }

    /// The number of inputs this gate consumes, read off the first layer.
    pub fn input_count(&self) -> (n: usize)
        ensures
            n as nat == self.in_size(),
    {
        if self.w1.len() == 0 {
            0
        } else {
            self.w1[0].len()
        }
    }

    /// Forward pass: hidden layer, hidden activation, output layer, output
    /// activation.
    pub fn forward(&self, inputs: &Vec<i32>) -> (r: Vec<i32>)
        requires
            self.wf(),
            inputs@.len() == self.in_size(),
        ensures
            r@ == self.eval(inputs@),
            r@.len() == self.out_size(),
    {
        let h_pre: Vec<i32> = affine(&self.w1, &self.b1, inputs);
        let h: Vec<i32> = self.activation_hidden.apply(&h_pre);
        let y_pre: Vec<i32> = affine(&self.w2, &self.b2, &h);
        self.activation_output.apply(&y_pre)
    }
}

} // verus!
