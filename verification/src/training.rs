//! Training drivers: sample encoding for the preset tasks, batch
//! evaluation, the gradient-descent training loop for units, and the
//! hill-climbing loop for primitive gates.

use vstd::prelude::*;

use crate::fu::Activation;
use crate::fu::BaseFU;
use crate::fx::FX_ONE;
use crate::fx::fx_add;
use crate::fx::fx_add_spec;
use crate::fx::lemma_sq_err_sum_nonneg;
use crate::fx::sq_err;
use crate::fx::sq_err_sum;
use crate::gate::NeuralGate;
use crate::register::bits_seq;
use crate::register::bits_vec;
use crate::register::is_high;
use crate::rng::rand_i32_range;
use crate::rng::rand_u32_below;

verus! {

/// The default learning rate, 0.1 in fixed point.
pub const LEARNING_RATE: i32 = 6554;

/// Training epochs of the default loop.
pub const EPOCHS: usize = 500;

/// Samples per epoch of the default loop.
pub const BATCH_SIZE: usize = 100;

/// The preset tasks a trainable unit can be trained for.
#[derive(Clone, Copy, Debug, PartialEq, Eq, Structural)]
pub enum TrainTask {
    Adder,
    Comparator,
    Bitwise,
}

/// The input width of each task's samples.
pub open spec fn task_in_size(t: TrainTask) -> nat {
    match t {
        TrainTask::Adder => 16,
        TrainTask::Comparator => 16,
        TrainTask::Bitwise => 19,
    }
}

/// The target width of each task's samples.
pub open spec fn task_out_size(t: TrainTask) -> nat {
    match t {
        TrainTask::Adder => 9,
        TrainTask::Comparator => 3,
        TrainTask::Bitwise => 8,
    }
}

/// A byte as eight activation bit-planes, least significant first.
pub fn u8_to_vec(val: u8) -> (r: Vec<i32>)
    ensures
        r@ == bits_seq(8, val as nat),
{
    bits_vec(8, val as u32)
}

/// Append the bits of `val` to `acc`.
fn push_byte(acc: &mut Vec<i32>, val: u8)
    ensures
        final(acc)@ == old(acc)@ + bits_seq(8, val as nat),
{
    let bits = u8_to_vec(val);
    let n: usize = bits.len();
    for i in 0..n
        invariant
            n == bits@.len(),
            acc@ == old(acc)@ + bits@.take(i as int),
    {
        acc.push(bits[i]);
        proof {
            assert(old(acc)@ + bits@.take(i + 1) =~= (old(acc)@ + bits@.take(i as int)).push(
                bits@[i as int],
            ));
        }
    }
    proof {
        assert(bits@.take(n as int) =~= bits@);
    }
}

/// One adder training sample: both operand bytes in, the sum byte plus the
/// carry bit out.
pub fn adder_sample(a: u8, b: u8) -> (r: (Vec<i32>, Vec<i32>))
    ensures
        r.0@ == bits_seq(8, a as nat) + bits_seq(8, b as nat),
        r.1@ == bits_seq(8, ((a + b) % 256) as nat).push(
            if a + b > 255 {
                FX_ONE
            } else {
                0i32
            },
        ),
{
    let mut input: Vec<i32> = Vec::new();
    push_byte(&mut input, a);
    push_byte(&mut input, b);
    proof {
        assert(Seq::<i32>::empty() + bits_seq(8, a as nat) =~= bits_seq(8, a as nat));
        assert(input@ =~= bits_seq(8, a as nat) + bits_seq(8, b as nat));
    }
    let sum: u16 = (a as u16) + (b as u16);
    let mut target: Vec<i32> = bits_vec(8, (sum % 256) as u32);
    if sum > 255 {
        target.push(FX_ONE);
    } else {
        target.push(0);
    }
    (input, target)
}

/// One comparator training sample: both operand bytes in, a one-hot
/// greater/equal/less triple out.
pub fn comparator_sample(a: u8, b: u8) -> (r: (Vec<i32>, Vec<i32>))
    ensures
        r.0@ == bits_seq(8, a as nat) + bits_seq(8, b as nat),
        r.1@.len() == 3,
        r.1@[0] == (if a > b {
            FX_ONE
        } else {
            0i32
        }),
        r.1@[1] == (if a == b {
            FX_ONE
        } else {
            0i32
        }),
        r.1@[2] == (if a < b {
            FX_ONE
        } else {
            0i32
        }),
{
    let mut input: Vec<i32> = Vec::new();
    push_byte(&mut input, a);
    push_byte(&mut input, b);
    proof {
        assert(Seq::<i32>::empty() + bits_seq(8, a as nat) =~= bits_seq(8, a as nat));
        assert(input@ =~= bits_seq(8, a as nat) + bits_seq(8, b as nat));
    }
    let mut target: Vec<i32> = Vec::new();
    if a > b {
        target.push(FX_ONE);
        target.push(0);
        target.push(0);
    } else if a == b {
        target.push(0);
        target.push(FX_ONE);
        target.push(0);
    } else {
        target.push(0);
        target.push(0);
        target.push(FX_ONE);
    }
    (input, target)
}

/// One bitwise training sample: both operand bytes plus a one-hot mode
/// selector in, the and/or/xor result byte out.
pub fn bitwise_sample(a: u8, b: u8, mode: u8) -> (r: (Vec<i32>, Vec<i32>))
    requires
        mode < 3,
    ensures
        r.0@.len() == 19,
        r.0@.take(16) == bits_seq(8, a as nat) + bits_seq(8, b as nat),
        forall|m: int|
            0 <= m < 3 ==> (#[trigger] r.0@[16 + m]) == (if m == mode {
                FX_ONE
            } else {
                0i32
            }),
        r.1@ == bits_seq(
            8,
            (if mode == 0 {
                a & b
            } else if mode == 1 {
                a | b
            } else {
                a ^ b
            }) as nat,
        ),
{
    let mut input: Vec<i32> = Vec::new();
    push_byte(&mut input, a);
    push_byte(&mut input, b);
    if mode == 0 {
        input.push(FX_ONE);
        input.push(0);
        input.push(0);
    } else if mode == 1 {
        input.push(0);
        input.push(FX_ONE);
        input.push(0);
    } else {
        input.push(0);
        input.push(0);
        input.push(FX_ONE);
    }
    proof {
        assert(Seq::<i32>::empty() + bits_seq(8, a as nat) =~= bits_seq(8, a as nat));
        assert(input@.take(16) =~= bits_seq(8, a as nat) + bits_seq(8, b as nat));
    }
    let res: u8 = if mode == 0 {
        a & b
    } else if mode == 1 {
        a | b
    } else {
        a ^ b
    };
    (input, bits_vec(8, res as u32))
}

/// A uniformly random byte.
fn rand_byte() -> (r: u8)
    ensures
        r < 256,
{
    (rand_u32_below(256)) as u8
}

/// One random sample for a task, drawn from uniformly random operands.
pub fn sample_for(task: TrainTask) -> (r: (Vec<i32>, Vec<i32>))
    ensures
        r.0@.len() == task_in_size(task),
        r.1@.len() == task_out_size(task),
{
    let a = rand_byte();
    let b = rand_byte();
    match task {
        TrainTask::Adder => adder_sample(a, b),
        TrainTask::Comparator => comparator_sample(a, b),
        TrainTask::Bitwise => {
            let mode = (rand_u32_below(3)) as u8;
            bitwise_sample(a, b, mode)
        },
    }
}

/// A batch of random comparator samples.
pub fn generate_cmp_batch(size: usize) -> (r: Vec<(Vec<i32>, Vec<i32>)>)
    ensures
        r@.len() == size,
        forall|i: int|
            0 <= i < size ==> (#[trigger] r@[i]).0@.len() == 16 && r@[i].1@.len() == 3,
{
    let mut batch: Vec<(Vec<i32>, Vec<i32>)> = Vec::new();
    for i in 0..size
        invariant
            batch@.len() == i,
            forall|j: int|
                0 <= j < i ==> (#[trigger] batch@[j]).0@.len() == 16 && batch@[j].1@.len() == 3,
    {
        let a = rand_byte();
        let b = rand_byte();
        batch.push(comparator_sample(a, b));
    }
    batch
}

/// The total saturating squared error of a unit over one batch, divided by
/// the batch size (zero for an empty batch).
pub open spec fn batch_mse(fu: BaseFU, batch: Seq<(Vec<i32>, Vec<i32>)>) -> int {
    if batch.len() == 0 {
        0
    } else {
        batch_err_sum(fu, batch) / batch.len() as int
    }
}

/// The saturating sum over a batch of each sample's squared error.
pub open spec fn batch_err_sum(fu: BaseFU, batch: Seq<(Vec<i32>, Vec<i32>)>) -> int
    decreases batch.len(),
{
    if batch.len() == 0 {
        0
    } else {
        fx_add_spec(
            batch_err_sum(fu, batch.drop_last()),
            sq_err_sum(fu.eval(batch.last().0@), batch.last().1@),
        )
    }
}

/// The accumulated error is never negative.
proof fn lemma_batch_err_sum_nonneg(fu: BaseFU, batch: Seq<(Vec<i32>, Vec<i32>)>)
    ensures
        0 <= batch_err_sum(fu, batch) <= i32::MAX,
    decreases batch.len(),
{
    if batch.len() > 0 {
        lemma_batch_err_sum_nonneg(fu, batch.drop_last());
        lemma_sq_err_sum_nonneg(fu.eval(batch.last().0@), batch.last().1@);
    }
}

/// The mean squared error of a unit over a validation batch.
pub fn evaluate(fu: &BaseFU, batch: &Vec<(Vec<i32>, Vec<i32>)>) -> (r: i32)
    requires
        fu.wf(),
        forall|i: int|
            0 <= i < batch@.len() ==> (#[trigger] batch@[i]).0@.len() == fu.in_size()
                && batch@[i].1@.len() == fu.out_size(),
    ensures
        r as int == batch_mse(*fu, batch@),
{
    let mut acc: i32 = 0;
    let n: usize = batch.len();
    for i in 0..n
        invariant
            fu.wf(),
            n == batch@.len(),
            forall|j: int|
                0 <= j < n ==> (#[trigger] batch@[j]).0@.len() == fu.in_size()
                    && batch@[j].1@.len() == fu.out_size(),
            acc as int == batch_err_sum(*fu, batch@.take(i as int)),
            acc >= 0,
    {
        proof {
            lemma_batch_err_sum_nonneg(*fu, batch@.take(i + 1));
        }
        let sample: &(Vec<i32>, Vec<i32>) = &batch[i];
        let preds: Vec<i32> = fu.forward(&sample.0);
        let e: i32 = sq_err(&preds, &sample.1);
        acc = fx_add(acc, e);
        proof {
            let bp = batch@.take(i + 1);
            assert(bp.drop_last() =~= batch@.take(i as int));
            assert(bp.last() == batch@[i as int]);
            lemma_batch_err_sum_nonneg(*fu, batch@.take(i as int));
            lemma_sq_err_sum_nonneg(fu.eval(batch@[i as int].0@), batch@[i as int].1@);
        }
    }
    proof {
        assert(batch@.take(n as int) =~= batch@);
        lemma_batch_err_sum_nonneg(*fu, batch@);
    }
    if n == 0 {
        0
    } else {
        ((acc as u64) / (n as u64)) as i32
    }
}

/// Two vectors agree bit for bit after thresholding.
pub open spec fn bits_agree(a: Seq<i32>, b: Seq<i32>) -> bool {
    a.len() == b.len() && forall|i: int| 0 <= i < a.len() ==> is_high(a[i]) == is_high(b[i])
}

/// How many samples of a batch the unit gets wrong after thresholding.
pub open spec fn mismatch_count(fu: BaseFU, batch: Seq<(Vec<i32>, Vec<i32>)>) -> nat
    decreases batch.len(),
{
    if batch.len() == 0 {
        0
    } else {
        mismatch_count(fu, batch.drop_last()) + (if bits_agree(
            fu.eval(batch.last().0@),
            batch.last().1@,
        ) {
            0nat
        } else {
            1nat
        })
    }
}

/// Count the samples whose thresholded prediction differs from the
/// thresholded target.
pub fn count_mismatches(fu: &BaseFU, batch: &Vec<(Vec<i32>, Vec<i32>)>) -> (r: usize)
    requires
        fu.wf(),
        forall|i: int| 0 <= i < batch@.len() ==> (#[trigger] batch@[i]).0@.len() == fu.in_size(),
    ensures
        r as nat == mismatch_count(*fu, batch@),
        r <= batch@.len(),
{
    let mut errors: usize = 0;
    let n: usize = batch.len();
    for i in 0..n
        invariant
            fu.wf(),
            n == batch@.len(),
            forall|j: int| 0 <= j < n ==> (#[trigger] batch@[j]).0@.len() == fu.in_size(),
            errors as nat == mismatch_count(*fu, batch@.take(i as int)),
            errors <= i,
    {
        let sample: &(Vec<i32>, Vec<i32>) = &batch[i];
        let preds: Vec<i32> = fu.forward(&sample.0);
        let ok: bool = bits_equal(&preds, &sample.1);
        if !ok {
            errors = errors + 1;
        }
        proof {
            let bp = batch@.take(i + 1);
            assert(bp.drop_last() =~= batch@.take(i as int));
            assert(bp.last() == batch@[i as int]);
        }
    }
    proof {
        assert(batch@.take(n as int) =~= batch@);
    }
    errors
}

/// Whether two vectors agree bit for bit after thresholding.
pub fn bits_equal(a: &Vec<i32>, b: &Vec<i32>) -> (r: bool)
    ensures
        r == bits_agree(a@, b@),
{
    if a.len() != b.len() {
        return false;
    }
    let n: usize = a.len();
    for i in 0..n
        invariant
            n == a@.len(),
            n == b@.len(),
            forall|j: int| 0 <= j < i ==> is_high(a@[j]) == is_high(b@[j]),
    {
        let ah: bool = a[i] > crate::fx::FX_HALF;
        let bh: bool = b[i] > crate::fx::FX_HALF;
        if ah != bh {
            return false;
        }
    }
    true
}

/// Train a unit on randomly sampled task data by single-sample gradient
/// descent: `epochs` epochs of `batch_size` samples each.  The unit's
/// shape and activations are preserved; the weights are whatever the
/// sampled gradient steps made of them.
pub fn train_loop(fu: BaseFU, task: TrainTask, epochs: usize, batch_size: usize, lr: i32) -> (r:
    BaseFU)
    requires
        fu.wf(),
        fu.in_size() == task_in_size(task),
        fu.out_size() == task_out_size(task),
    ensures
        r.wf(),
        r.in_size() == fu.in_size(),
        r.hidden_size() == fu.hidden_size(),
        r.out_size() == fu.out_size(),
        r.active_hidden == fu.active_hidden,
        r.active_output == fu.active_output,
{
    let mut cur = fu;
    for e in 0..epochs
        invariant
            cur.wf(),
            cur.in_size() == fu.in_size(),
            cur.hidden_size() == fu.hidden_size(),
            cur.out_size() == fu.out_size(),
            cur.active_hidden == fu.active_hidden,
            cur.active_output == fu.active_output,
            fu.in_size() == task_in_size(task),
            fu.out_size() == task_out_size(task),
    {
        for s in 0..batch_size
            invariant
                cur.wf(),
                cur.in_size() == fu.in_size(),
                cur.hidden_size() == fu.hidden_size(),
                cur.out_size() == fu.out_size(),
                cur.active_hidden == fu.active_hidden,
                cur.active_output == fu.active_output,
                fu.in_size() == task_in_size(task),
                fu.out_size() == task_out_size(task),
        {
            let (input, target) = sample_for(task);
            cur.train_step(&input, &target, lr);
        }
    }
    cur
}

/// Train the adder preset with the default schedule.
pub fn train_adder(fu: BaseFU) -> (r: BaseFU)
    requires
        fu.wf(),
        fu.in_size() == 16,
        fu.out_size() == 9,
    ensures
        r.wf(),
        r.in_size() == 16,
        r.out_size() == 9,
        r.hidden_size() == fu.hidden_size(),
{
    train_loop(fu, TrainTask::Adder, EPOCHS, BATCH_SIZE, LEARNING_RATE)
}

/// Train the comparator preset with the default schedule.
pub fn train_comparator(fu: BaseFU) -> (r: BaseFU)
    requires
        fu.wf(),
        fu.in_size() == 16,
        fu.out_size() == 3,
    ensures
        r.wf(),
        r.in_size() == 16,
        r.out_size() == 3,
        r.hidden_size() == fu.hidden_size(),
{
    train_loop(fu, TrainTask::Comparator, EPOCHS, BATCH_SIZE, LEARNING_RATE)
}

/// Train the bitwise preset with the default schedule.
pub fn train_bitwise(fu: BaseFU) -> (r: BaseFU)
    requires
        fu.wf(),
        fu.in_size() == 19,
        fu.out_size() == 8,
    ensures
        r.wf(),
        r.in_size() == 19,
        r.out_size() == 8,
        r.hidden_size() == fu.hidden_size(),
{
    train_loop(fu, TrainTask::Bitwise, EPOCHS, BATCH_SIZE, LEARNING_RATE)
}

/// The saturating sum over gate training rows of the squared error of the
/// gate's first output against the row's target.
pub open spec fn gate_loss_sum(g: NeuralGate, data: Seq<(Vec<i32>, i32)>) -> int
    decreases data.len(),
{
    if data.len() == 0 {
        0
    } else {
        let out = g.eval(data.last().0@);
        let d = crate::fx::fx_sub_spec(out[0] as int, data.last().1 as int);
        fx_add_spec(gate_loss_sum(g, data.drop_last()), crate::fx::fx_mul_spec(d, d))
    }
}

/// The total squared error of a gate over its training rows.
pub fn gate_loss(g: &NeuralGate, data: &Vec<(Vec<i32>, i32)>) -> (r: i32)
    requires
        g.wf(),
        g.out_size() >= 1,
        forall|i: int| 0 <= i < data@.len() ==> (#[trigger] data@[i]).0@.len() == g.in_size(),
    ensures
        r as int == gate_loss_sum(*g, data@),
{
    let mut acc: i32 = 0;
    let n: usize = data.len();
    for i in 0..n
        invariant
            g.wf(),
            g.out_size() >= 1,
            n == data@.len(),
            forall|j: int| 0 <= j < n ==> (#[trigger] data@[j]).0@.len() == g.in_size(),
            acc as int == gate_loss_sum(*g, data@.take(i as int)),
    {
        let row: &(Vec<i32>, i32) = &data[i];
        let out: Vec<i32> = g.forward(&row.0);
        let d: i32 = crate::fx::fx_sub(out[0], row.1);
        let sq: i32 = crate::fx::fx_mul(d, d);
        acc = fx_add(acc, sq);
        proof {
            let dp = data@.take(i + 1);
            assert(dp.drop_last() =~= data@.take(i as int));
            assert(dp.last() == data@[i as int]);
        }
    }
    proof {
        assert(data@.take(n as int) =~= data@);
    }
    acc
}

/// A fresh gate with the training shape: `input_size` inputs, four hidden
/// units, one output, rectified hidden layer and hard-sigmoid output, all
/// weights uniform in `[-1, 1)`.
pub fn random_gate(input_size: usize) -> (r: NeuralGate)
    ensures
        r.wf(),
        r.in_size() == input_size,
        r.hidden_size() == 4,
        r.out_size() == 1,
{
    let mut w1: Vec<Vec<i32>> = Vec::new();
    for i in 0..4usize
        invariant
            w1@.len() == i,
            forall|j: int| 0 <= j < i ==> (#[trigger] w1@[j]@).len() == input_size,
    {
        let mut row: Vec<i32> = Vec::new();
        for k in 0..input_size
            invariant
                row@.len() == k,
        {
            row.push(rand_i32_range(-FX_ONE, FX_ONE));
        }
        w1.push(row);
    }
    let mut b1: Vec<i32> = Vec::new();
    for i in 0..4usize
        invariant
            b1@.len() == i,
    {
        b1.push(rand_i32_range(-FX_ONE, FX_ONE));
    }
    let mut w2row: Vec<i32> = Vec::new();
    for i in 0..4usize
        invariant
            w2row@.len() == i,
    {
        w2row.push(rand_i32_range(-FX_ONE, FX_ONE));
    }
    let mut w2: Vec<Vec<i32>> = Vec::new();
    w2.push(w2row);
    let mut b2: Vec<i32> = Vec::new();
    b2.push(rand_i32_range(-FX_ONE, FX_ONE));
    let r = NeuralGate::new(
        w1,
        b1,
        w2,
        b2,
        crate::gate::Activation::ReLU,
        crate::gate::Activation::Sigmoid,
    );
    proof {
        assert forall|j: int|
            0 <= j < 4 implies (#[trigger] crate::fx::rows_of(r.w1)[j]).len() == input_size by {
            assert(crate::fx::rows_of(r.w1)[j] == r.w1@[j]@);
        }
        assert(crate::fx::rows_of(r.w1)[0] == r.w1@[0]@);
        assert(crate::fx::rows_of(r.w2)[0] == r.w2@[0]@);
    }
    r
}

/// A copy of a gate with every weight and bias nudged by a uniformly
/// random amount below `scale`; the shape and activations are preserved.
pub fn mutate(g: &NeuralGate, scale: i32) -> (r: NeuralGate)
    requires
        g.wf(),
        scale > 0,
    ensures
        r.wf(),
        r.in_size() == g.in_size(),
        r.hidden_size() == g.hidden_size(),
        r.out_size() == g.out_size(),
        r.activation_hidden == g.activation_hidden,
        r.activation_output == g.activation_output,
{
    let w1 = nudge_all_mat(&g.w1, scale);
    let b1 = nudge_all_vec(&g.b1, scale);
    let w2 = nudge_all_mat(&g.w2, scale);
    let b2 = nudge_all_vec(&g.b2, scale);
    let r = NeuralGate::new(w1, b1, w2, b2, g.activation_hidden, g.activation_output);
    proof {
        if g.w1@.len() > 0 {
            assert(crate::fx::rows_of(r.w1)[0] == r.w1@[0]@);
            assert(crate::fx::rows_of(g.w1)[0] == g.w1@[0]@);
        }
    }
    r
}

/// A matrix with every entry nudged by a bounded random amount.
fn nudge_all_mat(w: &Vec<Vec<i32>>, scale: i32) -> (r: Vec<Vec<i32>>)
    requires
        scale > 0,
    ensures
        crate::fx::rows_of(r).len() == crate::fx::rows_of(*w).len(),
        forall|i: int|
            0 <= i < w@.len() ==> (#[trigger] crate::fx::rows_of(r)[i]).len() == crate::fx::rows_of(
                *w,
            )[i].len(),
{
    let mut out: Vec<Vec<i32>> = Vec::new();
    let n: usize = w.len();
    for i in 0..n
        invariant
            scale > 0,
            n == w@.len(),
            out@.len() == i,
            forall|j: int| 0 <= j < i ==> (#[trigger] out@[j]@).len() == w@[j]@.len(),
    {
        let row: &Vec<i32> = &w[i];
        let new_row = nudge_all_vec(row, scale);
        out.push(new_row);
    }
    proof {
        assert forall|i: int|
            0 <= i < n implies (#[trigger] crate::fx::rows_of(out)[i]).len() == crate::fx::rows_of(
            *w,
        )[i].len() by {
            assert(crate::fx::rows_of(out)[i] == out@[i]@);
            assert(crate::fx::rows_of(*w)[i] == w@[i]@);
        }
    }
    out
}

/// A vector with every entry nudged by a bounded random amount.
fn nudge_all_vec(v: &Vec<i32>, scale: i32) -> (r: Vec<i32>)
    requires
        scale > 0,
    ensures
        r@.len() == v@.len(),
{
    let mut out: Vec<i32> = Vec::new();
    let n: usize = v.len();
    for i in 0..n
        invariant
            scale > 0,
            n == v@.len(),
            out@.len() == i,
    {
        out.push(fx_add(v[i], rand_i32_range(-scale, scale)));
    }
    out
}

/// Train one primitive gate by hill climbing: keep mutating the best gate
/// seen so far and keep each mutation that lowers the loss, until the loss
/// is negligible or the iteration budget runs out.
pub fn train_gate(input_size: usize, data: Vec<(Vec<i32>, i32)>) -> (r: NeuralGate)
    requires
        forall|i: int| 0 <= i < data@.len() ==> (#[trigger] data@[i]).0@.len() == input_size,
    ensures
        r.wf(),
        r.in_size() == input_size,
        r.out_size() == 1,
{
    let mut best = random_gate(input_size);
    let mut best_loss = gate_loss(&best, &data);
    for it in 0..20000usize
        invariant
            best.wf(),
            best.in_size() == input_size,
            best.hidden_size() == 4,
            best.out_size() == 1,
            forall|i: int| 0 <= i < data@.len() ==> (#[trigger] data@[i]).0@.len() == input_size,
    {
        // 66 is about 0.001 in Q16.16.
        if best_loss < 66 {
        } else {
            let candidate = mutate(&best, crate::fx::FX_HALF);
            let loss = gate_loss(&candidate, &data);
            if loss < best_loss {
                best = candidate;
                best_loss = loss;
            }
        }
    }
    best
}

/// Draw `samples` random task samples and count how many the unit gets
/// wrong after thresholding.
pub fn verify_fu(fu: &BaseFU, task: TrainTask, samples: usize) -> (r: usize)
    requires
        fu.wf(),
        fu.in_size() == task_in_size(task),
    ensures
        r <= samples,
{
    let mut errors: usize = 0;
    for i in 0..samples
        invariant
            fu.wf(),
            fu.in_size() == task_in_size(task),
            errors <= i,
    {
        let (input, target) = sample_for(task);
        let preds: Vec<i32> = fu.forward(&input);
        if !bits_equal(&preds, &target) {
            errors = errors + 1;
        }
    }
    errors
}

} // verus!
