//! Functional units: the trainable two-layer unit and the structural units
//! (program counter, load/store, stack pointer, console device), together
//! with the closed dispatch enum the bus stores them behind.

use vstd::prelude::*;

use crate::fx::FX_ONE;
use crate::fx::FX_QUARTER;
use crate::fx::affine;
use crate::fx::affine_seq;
use crate::fx::col_of;
use crate::fx::dot_col;
use crate::fx::fx_copy;
use crate::fx::fx_dot;
use crate::fx::fx_mul;
use crate::fx::fx_mul_spec;
use crate::fx::fx_sub;
use crate::fx::fx_sub_spec;
use crate::fx::fx_zeros;
use crate::fx::hard_sigmoid;
use crate::fx::hard_sigmoid_exec;
use crate::fx::hard_tanh;
use crate::fx::hard_tanh_exec;
use crate::fx::mat_wf;
use crate::fx::rows_of;
use crate::fx::seq_mul;
use crate::fx::seq_sub;
use crate::fx::vec_mul;
use crate::fx::vec_sub;
use crate::fx::zeros_seq;
use crate::register::bits_seq;
use crate::register::bits_vec;
use crate::register::decode_low;
use crate::register::sym_prefix;
use crate::rng::rand_i32_range;
use crate::rng::rand_u32_below;
use crate::sparse::MemMap;

verus! {

/// The activation functions a trainable unit may use.  `Sigmoid` and `Tanh`
/// are the hard (piecewise-linear) fixed-point variants.
#[derive(Clone, Copy, Debug, PartialEq, Eq, Structural)]
pub enum Activation {
    ReLU,
    Sigmoid,
    Tanh,
    Identity,
}

/// The value of one activation function at one pre-activation value.
pub open spec fn act_val(a: Activation, x: i32) -> i32 {
    match a {
        Activation::ReLU => if x > 0 {
            x
        } else {
            0i32
        },
        Activation::Sigmoid => hard_sigmoid(x as int) as i32,
        Activation::Tanh => hard_tanh(x as int) as i32,
        Activation::Identity => x,
    }
}

/// The derivative of one activation function, evaluated at the
/// pre-activation value: the slope of the hard variant's linear segment, or
/// zero on its saturated segments.
pub open spec fn deriv_val(a: Activation, x: i32) -> i32 {
    match a {
        Activation::ReLU => if x > 0 {
            FX_ONE
        } else {
            0i32
        },
        Activation::Sigmoid => if -131072 < x < 131072 {
            FX_QUARTER
        } else {
            0i32
        },
        Activation::Tanh => if -FX_ONE < x < FX_ONE {
            FX_ONE
        } else {
            0i32
        },
        Activation::Identity => FX_ONE,
    }
}

/// An activation function applied to every element of a vector.
pub open spec fn act_seq(a: Activation, s: Seq<i32>) -> Seq<i32> {
    s.map_values(|x: i32| act_val(a, x))
}

/// The derivative of an activation function at every element of a vector.
pub open spec fn deriv_seq(a: Activation, s: Seq<i32>) -> Seq<i32> {
    s.map_values(|x: i32| deriv_val(a, x))
}

impl Activation {
    /// Apply this activation elementwise.
    pub fn apply(&self, x: &Vec<i32>) -> (r: Vec<i32>)
        ensures
            r@ == act_seq(*self, x@),
    {
        let mut out: Vec<i32> = Vec::new();
        let n: usize = x.len();
        for i in 0..n
            invariant
                n == x@.len(),
                out@.len() == i,
                forall|j: int| 0 <= j < i ==> out@[j] == act_val(*self, x@[j]),
        {
            let v: i32 = x[i];
            let y: i32 = match self {
                Activation::ReLU => if v > 0 {
                    v
                } else {
                    0
                },
                Activation::Sigmoid => hard_sigmoid_exec(v),
                Activation::Tanh => hard_tanh_exec(v),
                Activation::Identity => v,
            };
            out.push(y);
        }
        proof {
            assert(out@ =~= act_seq(*self, x@));
        }
        out
    }

    /// The derivative of this activation, elementwise at the pre-activation
    /// values.
    pub fn derivative(&self, x: &Vec<i32>) -> (r: Vec<i32>)
        ensures
            r@ == deriv_seq(*self, x@),
    {
        let mut out: Vec<i32> = Vec::new();
        let n: usize = x.len();
        for i in 0..n
            invariant
                n == x@.len(),
                out@.len() == i,
                forall|j: int| 0 <= j < i ==> out@[j] == deriv_val(*self, x@[j]),
        {
            let v: i32 = x[i];
            let y: i32 = match self {
                Activation::ReLU => if v > 0 {
                    FX_ONE
                } else {
                    0
                },
                Activation::Sigmoid => if -131072 < v && v < 131072 {
                    FX_QUARTER
                } else {
                    0
                },
                Activation::Tanh => if -FX_ONE < v && v < FX_ONE {
                    FX_ONE
                } else {
                    0
                },
                Activation::Identity => FX_ONE,
            };
            out.push(y);
        }
        proof {
            assert(out@ =~= deriv_seq(*self, x@));
        }
        out
    }
}

/// A trainable two-layer unit (a small multi-layer perceptron).
pub struct BaseFU {
    pub w1: Vec<Vec<i32>>,
    pub b1: Vec<i32>,
    pub w2: Vec<Vec<i32>>,
    pub b2: Vec<i32>,
    pub active_hidden: Activation,
    pub active_output: Activation,
}

/// The weight matrix after one gradient step: each entry moves by
/// `-lr * delta[i] * src[j]`, with saturating fixed-point arithmetic.
pub open spec fn updated_mat(w: Seq<Seq<i32>>, lr: i32, delta: Seq<i32>, src: Seq<i32>) -> Seq<
    Seq<i32>,
> {
    Seq::new(
        w.len(),
        |i: int|
            Seq::new(
                w[i].len(),
                |j: int|
                    fx_sub_spec(
                        w[i][j] as int,
                        fx_mul_spec(lr as int, fx_mul_spec(delta[i] as int, src[j] as int)),
                    ) as i32,
            ),
    )
}

/// A bias vector after one gradient step: each entry moves by
/// `-lr * delta[i]`.
pub open spec fn updated_bias(b: Seq<i32>, lr: i32, delta: Seq<i32>) -> Seq<i32> {
    Seq::new(
        b.len(),
        |i: int| fx_sub_spec(b[i] as int, fx_mul_spec(lr as int, delta[i] as int)) as i32,
    )
}

impl BaseFU {
    /// Number of inputs the unit consumes, read off the first layer.
    pub open spec fn in_size(&self) -> nat {
        if self.w1@.len() == 0 {
            0
        } else {
            self.w1@[0]@.len()
        }
    }

    /// Number of hidden units.
    pub open spec fn hidden_size(&self) -> nat {
        self.w1@.len()
    }

    /// Number of outputs the unit produces.
    pub open spec fn out_size(&self) -> nat {
        self.w2@.len()
    }

    /// The weight shapes agree: `w1` is hidden x in, `w2` is out x hidden,
    /// and the bias lengths match.
    pub open spec fn wf(&self) -> bool {
        &&& mat_wf(rows_of(self.w1), self.hidden_size(), self.in_size())
        &&& self.b1@.len() == self.hidden_size()
        &&& mat_wf(rows_of(self.w2), self.out_size(), self.hidden_size())
        &&& self.b2@.len() == self.out_size()
    }

    /// Pre-activation values of the hidden layer.
    pub open spec fn hidden_pre(&self, x: Seq<i32>) -> Seq<i32> {
        affine_seq(rows_of(self.w1), self.b1@, x)
    }

    /// Activations of the hidden layer.
    pub open spec fn hidden_out(&self, x: Seq<i32>) -> Seq<i32> {
        act_seq(self.active_hidden, self.hidden_pre(x))
    }

    /// Pre-activation values of the output layer.
    pub open spec fn output_pre(&self, x: Seq<i32>) -> Seq<i32> {
        affine_seq(rows_of(self.w2), self.b2@, self.hidden_out(x))
    }

    /// The full forward pass as a mathematical function of the inputs.
    pub open spec fn eval(&self, x: Seq<i32>) -> Seq<i32> {
        act_seq(self.active_output, self.output_pre(x))
    }

    /// The output-layer error signal of one training step:
    /// `(y - target) * act_o'(y_pre)`, elementwise.
    pub open spec fn delta_out(&self, x: Seq<i32>, target: Seq<i32>) -> Seq<i32> {
        seq_mul(seq_sub(self.eval(x), target), deriv_seq(self.active_output, self.output_pre(x)))
    }

    /// The hidden-layer error signal of one training step:
    /// `(w2^T * delta_out) * act_h'(h_pre)`, elementwise.
    pub open spec fn delta_hidden(&self, x: Seq<i32>, target: Seq<i32>) -> Seq<i32> {
        Seq::new(
            self.hidden_size(),
            |j: int|
                fx_mul_spec(
                    fx_dot(col_of(rows_of(self.w2), j), self.delta_out(x, target)),
                    deriv_seq(self.active_hidden, self.hidden_pre(x))[j] as int,
                ) as i32,
        )
    }

    pub fn new(
        w1: Vec<Vec<i32>>,
        b1: Vec<i32>,
        w2: Vec<Vec<i32>>,
        b2: Vec<i32>,
        active_hidden: Activation,
        active_output: Activation,
    ) -> (r: Self)
        ensures
            r == (BaseFU { w1, b1, w2, b2, active_hidden, active_output }),
    {
        BaseFU { w1, b1, w2, b2, active_hidden, active_output }
    }

    /// Forward pass: hidden layer, hidden activation, output layer, output
    /// activation.
    pub fn forward(&self, input: &Vec<i32>) -> (r: Vec<i32>)
        requires
            self.wf(),
            input@.len() == self.in_size(),
        ensures
            r@ == self.eval(input@),
            r@.len() == self.out_size(),
    {
        let h_pre: Vec<i32> = affine(&self.w1, &self.b1, input);
        let h: Vec<i32> = self.active_hidden.apply(&h_pre);
        let y_pre: Vec<i32> = affine(&self.w2, &self.b2, &h);
        self.active_output.apply(&y_pre)
    }

    /// One single-sample stochastic-gradient-descent step on the
    /// mean-squared-error loss: back-propagate the output error and move
    /// every weight and bias against its gradient, scaled by `lr`.
    pub fn train_step(&mut self, input: &Vec<i32>, target: &Vec<i32>, lr: i32)
        requires
            old(self).wf(),
            input@.len() == old(self).in_size(),
            target@.len() == old(self).out_size(),
        ensures
            final(self).wf(),
            final(self).active_hidden == old(self).active_hidden,
            final(self).active_output == old(self).active_output,
            final(self).in_size() == old(self).in_size(),
            final(self).hidden_size() == old(self).hidden_size(),
            final(self).out_size() == old(self).out_size(),
            rows_of(final(self).w2) == updated_mat(
                rows_of(old(self).w2),
                lr,
                old(self).delta_out(input@, target@),
                old(self).hidden_out(input@),
            ),
            final(self).b2@ == updated_bias(old(self).b2@, lr, old(self).delta_out(input@, target@)),
            rows_of(final(self).w1) == updated_mat(
                rows_of(old(self).w1),
                lr,
                old(self).delta_hidden(input@, target@),
                input@,
            ),
            final(self).b1@ == updated_bias(
                old(self).b1@,
                lr,
                old(self).delta_hidden(input@, target@),
            ),
    {
        let h_pre: Vec<i32> = affine(&self.w1, &self.b1, input);
        let h: Vec<i32> = self.active_hidden.apply(&h_pre);
        let y_pre: Vec<i32> = affine(&self.w2, &self.b2, &h);
        let y: Vec<i32> = self.active_output.apply(&y_pre);

        let error: Vec<i32> = vec_sub(&y, target);
        let d_out: Vec<i32> = self.active_output.derivative(&y_pre);
        let delta2: Vec<i32> = vec_mul(&error, &d_out);

        let d_hidden: Vec<i32> = self.active_hidden.derivative(&h_pre);
        let ghost fu0 = *self;
        let mut delta1: Vec<i32> = Vec::new();
        let hn: usize = h.len();
        for j in 0..hn
            invariant
                *self == fu0,
                fu0.wf(),
                hn == fu0.hidden_size(),
                delta2@ == fu0.delta_out(input@, target@),
                d_hidden@ == deriv_seq(fu0.active_hidden, fu0.hidden_pre(input@)),
                delta2@.len() == fu0.out_size(),
                d_hidden@.len() == hn,
                delta1@.len() == j,
                forall|k: int| 0 <= k < j ==> delta1@[k] == fu0.delta_hidden(input@, target@)[k],
        {
            let cd: i32 = dot_col(&self.w2, j, &delta2);
            delta1.push(fx_mul(cd, d_hidden[j]));
        }
        proof {
            assert(delta1@ =~= fu0.delta_hidden(input@, target@));
        }

        let new_w2: Vec<Vec<i32>> = mat_step(&self.w2, lr, &delta2, &h);
        let new_b2: Vec<i32> = bias_step(&self.b2, lr, &delta2);
        let new_w1: Vec<Vec<i32>> = mat_step(&self.w1, lr, &delta1, input);
        let new_b1: Vec<i32> = bias_step(&self.b1, lr, &delta1);
        self.w2 = new_w2;
        self.b2 = new_b2;
        self.w1 = new_w1;
        self.b1 = new_b1;
        proof {
            assert(rows_of(self.w1)[0].len() == rows_of(fu0.w1)[0].len() || self.w1@.len() == 0);
            assert(self.in_size() == fu0.in_size());
        }
    }

    /// Randomly nudge a fraction of the weights by up to `amount` each, for
    /// noise-resilience testing.  Biases, activations and all shapes are
    /// untouched; which weights move is left to chance.
    pub fn perturb(&mut self, amount: i32)
        requires
            amount > 0,
        ensures
            final(self).active_hidden == old(self).active_hidden,
            final(self).active_output == old(self).active_output,
            final(self).b1@ == old(self).b1@,
            final(self).b2@ == old(self).b2@,
            nudged_within(rows_of(old(self).w1), rows_of(final(self).w1), amount as int),
            nudged_within(rows_of(old(self).w2), rows_of(final(self).w2), amount as int),
            final(self).in_size() == old(self).in_size(),
            final(self).hidden_size() == old(self).hidden_size(),
            final(self).out_size() == old(self).out_size(),
            old(self).wf() ==> final(self).wf(),
    {
        let ghost fu0 = *self;
        let new_w1: Vec<Vec<i32>> = nudge_mat(&self.w1, amount);
        let new_w2: Vec<Vec<i32>> = nudge_mat(&self.w2, amount);
        self.w1 = new_w1;
        self.w2 = new_w2;
        proof {
            assert(self.w1@.len() == fu0.w1@.len());
            if self.w1@.len() > 0 {
                assert(rows_of(self.w1)[0].len() == rows_of(fu0.w1)[0].len());
            }
            assert(self.in_size() == fu0.in_size());
        }
    }

    /// A unit of the given shape with uniformly random weights in
    /// `[-0.5, 0.5)` and biases in about `[-0.1, 0.1)`, using hard sigmoids
    /// on both layers.
    pub fn create_random(input_size: usize, hidden_size: usize, output_size: usize) -> (r: Self)
        ensures
            r.wf(),
            r.hidden_size() == hidden_size,
            r.out_size() == output_size,
            hidden_size > 0 ==> r.in_size() == input_size,
            r.active_hidden == Activation::Sigmoid,
            r.active_output == Activation::Sigmoid,
            forall|i: int, j: int|
                0 <= i < hidden_size && 0 <= j < input_size ==> -crate::fx::FX_HALF <= #[trigger] rows_of(
                    r.w1,
                )[i][j] < crate::fx::FX_HALF,
            forall|i: int, j: int|
                0 <= i < output_size && 0 <= j < hidden_size ==> -crate::fx::FX_HALF <= #[trigger] rows_of(
                    r.w2,
                )[i][j] < crate::fx::FX_HALF,
            forall|i: int| 0 <= i < hidden_size ==> -6554 <= #[trigger] r.b1@[i] < 6554,
            forall|i: int| 0 <= i < output_size ==> -6554 <= #[trigger] r.b2@[i] < 6554,
    {
        let w1 = rand_mat(hidden_size, input_size, -crate::fx::FX_HALF, crate::fx::FX_HALF);
        // 6554 is about 0.1 in Q16.16.
        let b1 = rand_vec(hidden_size, -6554, 6554);
        let w2 = rand_mat(output_size, hidden_size, -crate::fx::FX_HALF, crate::fx::FX_HALF);
        let b2 = rand_vec(output_size, -6554, 6554);
        let r = BaseFU::new(w1, b1, w2, b2, Activation::Sigmoid, Activation::Sigmoid);
        proof {
            assert(r.hidden_size() == hidden_size);
            if hidden_size > 0 {
                assert(rows_of(r.w1)[0] == r.w1@[0]@);
                assert(r.in_size() == input_size);
            }
        }
        r
    }

    /// The 8-bit adder preset: two operand bytes in, a sum byte plus carry
    /// out.
    pub fn create_adder() -> (r: Self)
        ensures
            r.wf(),
            r.in_size() == 16,
            r.hidden_size() == 32,
            r.out_size() == 9,
    {
        Self::create_random(16, 32, 9)
    }

    /// The 8-bit comparator preset: two operand bytes in, a one-hot
    /// greater/equal/less triple out.
    pub fn create_comparator() -> (r: Self)
        ensures
            r.wf(),
            r.in_size() == 16,
            r.hidden_size() == 24,
            r.out_size() == 3,
    {
        Self::create_random(16, 24, 3)
    }

    /// The 8-bit bitwise preset: two operand bytes plus a 3-bit one-hot
    /// mode selector in, a result byte out.
    pub fn create_bitwise() -> (r: Self)
        ensures
            r.wf(),
            r.in_size() == 19,
            r.hidden_size() == 32,
            r.out_size() == 8,
    {
        Self::create_random(19, 32, 8)
    }
}

/// Two matrices have identical shape and every entry of `b` lies within
/// `amount` of the matching entry of `a`.
pub open spec fn nudged_within(a: Seq<Seq<i32>>, b: Seq<Seq<i32>>, amount: int) -> bool {
    &&& b.len() == a.len()
    &&& forall|i: int| 0 <= i < a.len() ==> (#[trigger] b[i]).len() == a[i].len()
    &&& forall|i: int, j: int|
        0 <= i < a.len() && 0 <= j < a[i].len() ==> -amount <= (#[trigger] b[i][j]) - a[i][j]
            <= amount
}

/// A matrix with every entry nudged by a bounded random amount with
/// probability one in ten.
fn nudge_mat(w: &Vec<Vec<i32>>, amount: i32) -> (r: Vec<Vec<i32>>)
    requires
        amount > 0,
    ensures
        nudged_within(rows_of(*w), rows_of(r), amount as int),
{
    let mut out: Vec<Vec<i32>> = Vec::new();
    let n: usize = w.len();
    for i in 0..n
        invariant
            n == w@.len(),
            amount > 0,
            out@.len() == i,
            forall|k: int| 0 <= k < i ==> (#[trigger] out@[k]@).len() == w@[k]@.len(),
            forall|k: int, j: int|
                0 <= k < i && 0 <= j < w@[k]@.len() ==> -(amount as int) <= (#[trigger] out@[k]@[j])
                    - w@[k]@[j] <= amount as int,
    {
        let row: &Vec<i32> = &w[i];
        let m: usize = row.len();
        let mut new_row: Vec<i32> = Vec::new();
        for j in 0..m
            invariant
                m == row@.len(),
                amount > 0,
                new_row@.len() == j,
                forall|l: int|
                    0 <= l < j ==> -(amount as int) <= (#[trigger] new_row@[l]) - row@[l]
                        <= amount as int,
        {
            if rand_u32_below(10) == 0 {
                let d: i32 = rand_i32_range(-amount, amount);
                new_row.push(crate::fx::fx_add(row[j], d));
            } else {
                new_row.push(row[j]);
            }
        }
        out.push(new_row);
    }
    proof {
        assert forall|i: int| 0 <= i < n implies (#[trigger] rows_of(out)[i]).len() == rows_of(
            *w,
        )[i].len() by {
            assert(rows_of(out)[i] == out@[i]@);
            assert(rows_of(*w)[i] == w@[i]@);
        }
        assert forall|i: int, j: int|
            0 <= i < n && 0 <= j < rows_of(*w)[i].len() implies -(amount as int) <= (
        #[trigger] rows_of(out)[i][j]) - rows_of(*w)[i][j] <= amount as int by {
            assert(rows_of(out)[i] == out@[i]@);
            assert(rows_of(*w)[i] == w@[i]@);
        }
    }
    out
}

/// A matrix of the given shape with entries drawn uniformly from
/// `[lo, hi)`.
fn rand_mat(rows: usize, cols: usize, lo: i32, hi: i32) -> (r: Vec<Vec<i32>>)
    requires
        lo < hi,
    ensures
        rows_of(r).len() == rows,
        forall|i: int| 0 <= i < rows ==> (#[trigger] rows_of(r)[i]).len() == cols,
        mat_wf(rows_of(r), rows as nat, cols as nat),
        forall|i: int, j: int|
            0 <= i < rows && 0 <= j < cols ==> lo <= #[trigger] rows_of(r)[i][j] < hi,
{
    let mut out: Vec<Vec<i32>> = Vec::new();
    for i in 0..rows
        invariant
            lo < hi,
            out@.len() == i,
            forall|k: int| 0 <= k < i ==> (#[trigger] out@[k]@).len() == cols,
            forall|k: int, j: int|
                0 <= k < i && 0 <= j < cols ==> lo <= #[trigger] out@[k]@[j] < hi,
    {
        let mut row: Vec<i32> = Vec::new();
        for j in 0..cols
            invariant
                lo < hi,
                row@.len() == j,
                forall|l: int| 0 <= l < j ==> lo <= #[trigger] row@[l] < hi,
        {
            row.push(rand_i32_range(lo, hi));
        }
        out.push(row);
    }
    proof {
        assert forall|i: int| 0 <= i < rows implies (#[trigger] rows_of(out)[i]).len() == cols by {
            assert(rows_of(out)[i] == out@[i]@);
        }
        assert forall|i: int, j: int|
            0 <= i < rows && 0 <= j < cols implies lo <= #[trigger] rows_of(out)[i][j] < hi by {
            assert(rows_of(out)[i] == out@[i]@);
        }
    }
    out
}

/// A vector of the given length with entries drawn uniformly from
/// `[lo, hi)`.
fn rand_vec(len: usize, lo: i32, hi: i32) -> (r: Vec<i32>)
    requires
        lo < hi,
    ensures
        r@.len() == len,
        forall|i: int| 0 <= i < len ==> lo <= #[trigger] r@[i] < hi,
{
    let mut out: Vec<i32> = Vec::new();
    for i in 0..len
        invariant
            lo < hi,
            out@.len() == i,
            forall|j: int| 0 <= j < i ==> lo <= #[trigger] out@[j] < hi,
    {
        out.push(rand_i32_range(lo, hi));
    }
    out
}

/// One gradient step on a weight matrix: `w[i][j] - lr * delta[i] * src[j]`
/// for every entry.
fn mat_step(w: &Vec<Vec<i32>>, lr: i32, delta: &Vec<i32>, src: &Vec<i32>) -> (r: Vec<Vec<i32>>)
    requires
        delta@.len() >= w@.len(),
        forall|i: int| 0 <= i < w@.len() ==> #[trigger] rows_of(*w)[i].len() <= src@.len(),
    ensures
        rows_of(r) == updated_mat(rows_of(*w), lr, delta@, src@),
        r@.len() == w@.len(),
        forall|i: int| 0 <= i < w@.len() ==> #[trigger] rows_of(r)[i].len() == rows_of(*w)[i].len(),
{
    let mut out: Vec<Vec<i32>> = Vec::new();
    let n: usize = w.len();
    for i in 0..n
        invariant
            n == w@.len(),
            delta@.len() >= n,
            forall|k: int| 0 <= k < n ==> #[trigger] rows_of(*w)[k].len() <= src@.len(),
            out@.len() == i,
            forall|k: int|
                0 <= k < i ==> #[trigger] out@[k]@ == updated_mat(rows_of(*w), lr, delta@, src@)[k],
    {
        proof {
            assert(rows_of(*w)[i as int] == w@[i as int]@);
        }
        let row: &Vec<i32> = &w[i];
        let m: usize = row.len();
        let mut new_row: Vec<i32> = Vec::new();
        for j in 0..m
            invariant
                m == row@.len(),
                m <= src@.len(),
                delta@.len() >= n,
                i < n,
                n == w@.len(),
                row@ == w@[i as int]@,
                new_row@.len() == j,
                forall|l: int|
                    0 <= l < j ==> new_row@[l] == fx_sub_spec(
                        row@[l] as int,
                        fx_mul_spec(
                            lr as int,
                            fx_mul_spec(delta@[i as int] as int, src@[l] as int),
                        ),
                    ) as i32,
        {
            let g: i32 = fx_mul(lr, fx_mul(delta[i], src[j]));
            new_row.push(fx_sub(row[j], g));
        }
        proof {
            assert(new_row@ =~= updated_mat(rows_of(*w), lr, delta@, src@)[i as int]);
        }
        out.push(new_row);
    }
    proof {
        assert forall|k: int| 0 <= k < w@.len() implies #[trigger] rows_of(out)[k] == updated_mat(
            rows_of(*w),
            lr,
            delta@,
            src@,
        )[k] by {
            assert(rows_of(out)[k] == out@[k]@);
        }
        assert(rows_of(out) =~~= updated_mat(rows_of(*w), lr, delta@, src@));
        assert forall|i: int| 0 <= i < w@.len() implies #[trigger] rows_of(out)[i].len()
            == rows_of(*w)[i].len() by {
            assert(rows_of(out)[i] == updated_mat(rows_of(*w), lr, delta@, src@)[i]);
        }
    }
    out
}

/// One gradient step on a bias vector: `b[i] - lr * delta[i]` for every
/// entry.
fn bias_step(b: &Vec<i32>, lr: i32, delta: &Vec<i32>) -> (r: Vec<i32>)
    requires
        delta@.len() >= b@.len(),
    ensures
        r@ == updated_bias(b@, lr, delta@),
{
    let mut out: Vec<i32> = Vec::new();
    let n: usize = b.len();
    for i in 0..n
        invariant
            n == b@.len(),
            delta@.len() >= n,
            out@.len() == i,
            forall|j: int| 0 <= j < i ==> out@[j] == updated_bias(b@, lr, delta@)[j],
    {
        out.push(fx_sub(b[i], fx_mul(lr, delta[i])));
    }
    proof {
        assert(out@ =~= updated_bias(b@, lr, delta@));
    }
    out
}

/// The successor of a 32-bit counter, wrapping at the top.
pub open spec fn wrap_inc(x: u32) -> u32 {
    if x == u32::MAX {
        0u32
    } else {
        (x + 1) as u32
    }
}

/// The predecessor of a 32-bit counter, wrapping at zero.
pub open spec fn wrap_dec(x: u32) -> u32 {
    if x == 0 {
        u32::MAX
    } else {
        (x - 1) as u32
    }
}

/// The simulated program counter: a unit whose trigger is a jump.
pub struct ProgramCounterFU {
    pub pc: u32,
}

impl ProgramCounterFU {
    pub fn new() -> (r: Self)
        ensures
            r.pc == 0,
    {
        ProgramCounterFU { pc: 0 }
    }

    /// A write is a jump: the input's low 32 activations are decoded as the
    /// new counter value, and the low byte of the counter is returned.
    pub fn forward(&mut self, input: &Vec<i32>) -> (r: Vec<i32>)
        ensures
            final(self).pc as nat == sym_prefix(input@, 32),
            r@ == bits_seq(8, final(self).pc as nat),
    {
        let addr: u32 = decode_low(input, 32);
        self.pc = addr;
        bits_vec(8, self.pc)
    }

    /// Advance the counter by one clock tick.
    pub fn tick(&mut self)
        ensures
            final(self).pc == wrap_inc(old(self).pc),
    {
        if self.pc == u32::MAX {
            self.pc = 0;
        } else {
            self.pc = self.pc + 1;
        }
    }
}

/// A load unit over a sparse backing store: the trigger decodes an address
/// and returns the vector stored there, or all zeros when the address is
/// unmapped.
pub struct LoadStoreFU {
    pub memory: MemMap,
    pub width: usize,
}

impl LoadStoreFU {
    pub fn new(width: usize) -> (r: Self)
        ensures
            r.width == width,
            forall|k: u32| r.memory.spec_get(k) is None,
    {
        LoadStoreFU { memory: MemMap::new(), width }
    }

    /// Decode the input as an address and load from it; unmapped addresses
    /// read as all zeros.
    pub fn forward(&self, input: &Vec<i32>) -> (r: Vec<i32>)
        ensures
            r@ == (match self.memory.spec_get((sym_prefix(input@, 32) as u32)) {
                Some(v) => v@,
                None => zeros_seq(self.width as nat),
            }),
    {
        let addr: u32 = decode_low(input, 32);
        match self.memory.get_copy(addr) {
            Some(v) => v,
            None => fx_zeros(self.width),
        }
    }
}

/// A stack pointer unit: every trigger is a push that decrements the
/// pointer and stores the moved vector there.
pub struct StackPointerFU {
    pub sp: u32,
    pub stack: MemMap,
    pub width: usize,
}

impl StackPointerFU {
    /// A fresh stack with the pointer initialised high.
    pub fn new(width: usize) -> (r: Self)
        ensures
            r.sp == 0xFF,
            r.width == width,
            forall|k: u32| r.stack.spec_get(k) is None,
    {
        StackPointerFU { sp: 0xFF, stack: MemMap::new(), width }
    }

    /// Push: decrement the pointer, store the input there, and pass the
    /// input through unchanged.
    pub fn forward(&mut self, input: &Vec<i32>) -> (r: Vec<i32>)
        ensures
            final(self).width == old(self).width,
            final(self).sp == wrap_dec(old(self).sp),
            final(self).stack.spec_get(final(self).sp) matches Some(v) && v@ == input@,
            forall|k: u32|
                k != final(self).sp ==> final(self).stack.spec_get(k) == old(self).stack.spec_get(
                    k,
                ),
            r@ == input@,
    {
        if self.sp == 0 {
            self.sp = u32::MAX;
        } else {
            self.sp = self.sp - 1;
        }
        self.stack.insert(self.sp, fx_copy(input));
        fx_copy(input)
    }
}

/// A memory-mapped console device: every vector moved to it is decoded as
/// one byte and appended to the device's output buffer.
pub struct ConsoleFU {
    pub written: Vec<u8>,
}

impl ConsoleFU {
    /// A console with an empty output buffer.
    pub fn new() -> (r: Self)
        ensures
            r.written@.len() == 0,
    {
        ConsoleFU { written: Vec::new() }
    }

    /// Decode the low byte of the input, append it to the output buffer,
    /// and pass the input through unchanged.
    pub fn forward(&mut self, input: &Vec<i32>) -> (r: Vec<i32>)
        ensures
            final(self).written@ == old(self).written@.push(sym_prefix(input@, 8) as u8),
            r@ == input@,
    {
        let b: u32 = decode_low(input, 8);
        proof {
            crate::register::lemma_sym_of_bound(
                if input@.len() <= 8 {
                    input@
                } else {
                    input@.take(8)
                },
            );
            vstd::arithmetic::power2::lemma2_to64();
            if input@.len() < 8 {
                vstd::arithmetic::power2::lemma_pow2_strictly_increases(input@.len(), 8nat);
            }
        }
        self.written.push(b as u8);
        fx_copy(input)
    }
}

/// The closed set of functional-unit kinds the bus can own.  Dispatch is by
/// variant; each kind keeps its own state and forward semantics.
pub enum FunctionalUnit {
    Trainable(BaseFU),
    Counter(ProgramCounterFU),
    LoadStore(LoadStoreFU),
    Stack(StackPointerFU),
    Console(ConsoleFU),
}

/// How one trigger relates a unit's state before and after, given the moved
/// vector `x`.
pub open spec fn fu_step_rel(pre: FunctionalUnit, post: FunctionalUnit, x: Seq<i32>) -> bool {
    match (pre, post) {
        (FunctionalUnit::Trainable(a), FunctionalUnit::Trainable(b)) => a == b,
        (FunctionalUnit::Counter(a), FunctionalUnit::Counter(b)) => b.pc as nat == sym_prefix(
            x,
            32,
        ),
        (FunctionalUnit::LoadStore(a), FunctionalUnit::LoadStore(b)) => a == b,
        (FunctionalUnit::Stack(a), FunctionalUnit::Stack(b)) => {
            &&& b.width == a.width
            &&& b.sp == wrap_dec(a.sp)
            &&& (b.stack.spec_get(b.sp) matches Some(v) && v@ == x)
            &&& forall|k: u32| k != b.sp ==> b.stack.spec_get(k) == a.stack.spec_get(k)
        },
        (FunctionalUnit::Console(a), FunctionalUnit::Console(b)) => b.written@ == a.written@.push(
            sym_prefix(x, 8) as u8,
        ),
        _ => false,
    }
}

/// How one clock tick relates a unit's state before and after: the program
/// counter increments, every other unit is untouched.
pub open spec fn fu_tick_rel(pre: FunctionalUnit, post: FunctionalUnit) -> bool {
    match (pre, post) {
        (FunctionalUnit::Counter(a), FunctionalUnit::Counter(b)) => b.pc == wrap_inc(a.pc),
        _ => post == pre,
    }
}

impl FunctionalUnit {
    /// A trainable unit's weights must be well-shaped; structural units
    /// carry no such obligation.
    pub open spec fn wf(&self) -> bool {
        match self {
            FunctionalUnit::Trainable(b) => b.wf(),
            _ => true,
        }
    }

    /// Whether the unit accepts an input vector of length `n`: a trainable
    /// unit insists on its declared input size, every other unit decodes
    /// any vector.
    pub open spec fn accepts(&self, n: int) -> bool {
        match self {
            FunctionalUnit::Trainable(b) => n == b.in_size(),
            _ => true,
        }
    }

    /// The output a trigger with vector `x` produces, as a function of the
    /// unit's state before the trigger.
    pub open spec fn out_of(&self, x: Seq<i32>) -> Seq<i32> {
        match self {
            FunctionalUnit::Trainable(b) => b.eval(x),
            FunctionalUnit::Counter(c) => bits_seq(8, sym_prefix(x, 32)),
            FunctionalUnit::LoadStore(l) => match l.memory.spec_get((sym_prefix(x, 32) as u32)) {
                Some(v) => v@,
                None => zeros_seq(l.width as nat),
            },
            FunctionalUnit::Stack(s) => x,
            FunctionalUnit::Console(c) => x,
        }
    }

    /// Trigger the unit with the moved vector.  A trainable unit whose
    /// declared input size does not match reports the size mismatch by
    /// returning nothing and leaving its state untouched.
    pub fn forward(&mut self, input: &Vec<i32>) -> (r: Option<Vec<i32>>)
        requires
            old(self).wf(),
        ensures
            final(self).wf(),
            (r is Some) == old(self).accepts(input@.len() as int),
            match r {
                Some(v) => v@ == old(self).out_of(input@) && fu_step_rel(
                    *old(self),
                    *final(self),
                    input@,
                ),
                None => *final(self) == *old(self),
            },
    {
        match self {
            FunctionalUnit::Trainable(b) => {
                let in_size: usize = if b.w1.len() == 0 {
                    0
                } else {
                    b.w1[0].len()
                };
                if input.len() == in_size {
                    Some(b.forward(input))
                } else {
                    None
                }
            },
            FunctionalUnit::Counter(c) => Some(c.forward(input)),
            FunctionalUnit::LoadStore(l) => Some(l.forward(input)),
            FunctionalUnit::Stack(s) => Some(s.forward(input)),
            FunctionalUnit::Console(c) => Some(c.forward(input)),
        }
    }

    /// Randomly nudge the weights of a trainable unit; a structural unit
    /// has nothing to perturb.
    pub fn perturb(&mut self, amount: i32)
        requires
            amount > 0,
            old(self).wf(),
        ensures
            final(self).wf(),
            match (*old(self), *final(self)) {
                (FunctionalUnit::Trainable(a), FunctionalUnit::Trainable(b)) => {
                    &&& nudged_within(rows_of(a.w1), rows_of(b.w1), amount as int)
                    &&& nudged_within(rows_of(a.w2), rows_of(b.w2), amount as int)
                    &&& b.b1@ == a.b1@
                    &&& b.b2@ == a.b2@
                    &&& b.active_hidden == a.active_hidden
                    &&& b.active_output == a.active_output
                },
                _ => *final(self) == *old(self),
            },
    {
        match self {
            FunctionalUnit::Trainable(b) => b.perturb(amount),
            _ => (),
        }
    }

    /// Advance the unit by one clock tick: the program counter increments,
    /// every other unit is untouched.
    pub fn tick(&mut self)
        requires
            old(self).wf(),
        ensures
            final(self).wf(),
            fu_tick_rel(*old(self), *final(self)),
    {
        match self {
            FunctionalUnit::Counter(c) => c.tick(),
            _ => (),
        }
    }
}

} // verus!
