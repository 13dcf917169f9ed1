//! Q16.16 saturating fixed-point arithmetic.
//!
//! An activation value is an `i32` holding a real number scaled by 2^16:
//! `FX_ONE` stands for 1.0 and `FX_HALF` for the 0.5 logic threshold.
//! Every operation saturates at the `i32` range instead of overflowing, so
//! all arithmetic in the emulator core is total and exactly specified.

use vstd::prelude::*;

verus! {

/// Fixed-point representation of 1.0.
pub const FX_ONE: i32 = 65536;

/// Fixed-point representation of 0.5, the threshold between logic low and
/// logic high.
pub const FX_HALF: i32 = 32768;

/// Clamp an unbounded integer into the `i32` range.
pub open spec fn fx_clamp(x: int) -> int {
    if x > i32::MAX as int {
        i32::MAX as int
    } else if x < i32::MIN as int {
        i32::MIN as int
    } else {
        x
    }
}

/// Divide a raw product by 2^16, truncating toward zero as Rust's integer
/// division does.
pub open spec fn fx_scale(p: int) -> int {
    if p >= 0 {
        p / 65536
    } else {
        -((-p) / 65536)
    }
}

/// The value of a saturating addition.
pub open spec fn fx_add_spec(a: int, b: int) -> int {
    fx_clamp(a + b)
}

/// The value of a saturating subtraction.
pub open spec fn fx_sub_spec(a: int, b: int) -> int {
    fx_clamp(a - b)
}

/// The value of a saturating fixed-point multiplication.
pub open spec fn fx_mul_spec(a: int, b: int) -> int {
    fx_clamp(fx_scale(a * b))
}

/// Clamp a 64-bit intermediate result back into the activation range.
pub fn fx_clamp64(x: i64) -> (r: i32)
    ensures
        r as int == fx_clamp(x as int),
{
    if x > i32::MAX as i64 {
        i32::MAX
    } else if x < i32::MIN as i64 {
        i32::MIN
    } else {
        x as i32
    }
}

/// Saturating addition of two activations.
pub fn fx_add(a: i32, b: i32) -> (r: i32)
    ensures
        r as int == fx_add_spec(a as int, b as int),
{
    fx_clamp64(a as i64 + b as i64)
}

/// Saturating subtraction of two activations.
pub fn fx_sub(a: i32, b: i32) -> (r: i32)
    ensures
        r as int == fx_sub_spec(a as int, b as int),
{
    fx_clamp64(a as i64 - b as i64)
}

/// Saturating fixed-point multiplication: the raw product is rescaled by
/// 2^16 (truncating toward zero) and clamped.
pub fn fx_mul(a: i32, b: i32) -> (r: i32)
    ensures
        r as int == fx_mul_spec(a as int, b as int),
{
    let pa: i64 = a as i64;
    let pb: i64 = b as i64;
    proof {
        assert(-0x4000_0000_0000_0000 <= pa * pb <= 0x4000_0000_0000_0000) by (nonlinear_arith)
            requires
                -0x8000_0000 <= pa <= 0x7fff_ffff,
                -0x8000_0000 <= pb <= 0x7fff_ffff,
        ;
    }
    let p: i64 = pa * pb;
    let q: i64 = if p >= 0 {
        ((p as u64) / 65536u64) as i64
    } else {
        -((((-p) as u64) / 65536u64) as i64)
    };
    assert(q as int == fx_scale(p as int));
    fx_clamp64(q)
}

/// Fixed-point representation of 0.25, the slope of the hard sigmoid.
pub const FX_QUARTER: i32 = 16384;

/// A quarter of `x`, truncated toward zero.
pub open spec fn fx_quarter(x: int) -> int {
    if x >= 0 {
        x / 4
    } else {
        -((-x) / 4)
    }
}

/// The hard sigmoid `clamp(0.5 + x/4, 0, 1)`, the piecewise-linear
/// fixed-point stand-in for the smooth sigmoid.
pub open spec fn hard_sigmoid(x: int) -> int {
    let y = FX_HALF + fx_quarter(x);
    if y < 0 {
        0
    } else if y > FX_ONE as int {
        FX_ONE as int
    } else {
        y
    }
}

/// The hard tanh `clamp(x, -1, 1)`, the piecewise-linear fixed-point
/// stand-in for the smooth tanh.
pub open spec fn hard_tanh(x: int) -> int {
    if x < -(FX_ONE as int) {
        -(FX_ONE as int)
    } else if x > FX_ONE as int {
        FX_ONE as int
    } else {
        x
    }
}

/// Compute the hard sigmoid of one activation.
pub fn hard_sigmoid_exec(v: i32) -> (r: i32)
    ensures
        r as int == hard_sigmoid(v as int),
{
    let q: i64 = if v >= 0 {
        (v as i64) / 4
    } else {
        -((-(v as i64)) / 4)
    };
    assert(q as int == fx_quarter(v as int));
    let y64: i64 = (FX_HALF as i64) + q;
    if y64 < 0 {
        0
    } else if y64 > FX_ONE as i64 {
        FX_ONE
    } else {
        y64 as i32
    }
}

/// Compute the hard tanh of one activation.
pub fn hard_tanh_exec(v: i32) -> (r: i32)
    ensures
        r as int == hard_tanh(v as int),
{
    if v < -FX_ONE {
        -FX_ONE
    } else if v > FX_ONE {
        FX_ONE
    } else {
        v
    }
}

/// Saturating dot product: terms are multiplied with `fx_mul_spec` and
/// accumulated left to right with `fx_add_spec`.
pub open spec fn fx_dot(a: Seq<i32>, b: Seq<i32>) -> int
    decreases a.len(),
{
    if a.len() == 0 || b.len() == 0 {
        0
    } else {
        fx_add_spec(
            fx_dot(a.drop_last(), b.drop_last()),
            fx_mul_spec(a.last() as int, b.last() as int),
        )
    }
}

/// Saturating dot product of two equally long activation vectors.
pub fn dot(a: &Vec<i32>, b: &Vec<i32>) -> (r: i32)
    requires
        a@.len() == b@.len(),
    ensures
        r as int == fx_dot(a@, b@),
{
    let mut acc: i32 = 0;
    let n: usize = a.len();
    for i in 0..n
        invariant
            n == a@.len(),
            n == b@.len(),
            acc as int == fx_dot(a@.take(i as int), b@.take(i as int)),
    {
        let term: i32 = fx_mul(a[i], b[i]);
        acc = fx_add(acc, term);
        proof {
            let ap = a@.take(i + 1);
            let bp = b@.take(i + 1);
            assert(ap.drop_last() =~= a@.take(i as int));
            assert(bp.drop_last() =~= b@.take(i as int));
            assert(ap.last() == a@[i as int]);
            assert(bp.last() == b@[i as int]);
        }
    }
    proof {
        assert(a@.take(n as int) =~= a@);
        assert(b@.take(n as int) =~= b@);
    }
    acc
}

/// The rows of a weight matrix, as a sequence of sequences.
pub open spec fn rows_of(w: Vec<Vec<i32>>) -> Seq<Seq<i32>> {
    Seq::new(w@.len(), |i: int| w@[i]@)
}

/// A matrix is well-formed for a layer when it has `rows` rows of `cols`
/// entries each.
pub open spec fn mat_wf(w: Seq<Seq<i32>>, rows: nat, cols: nat) -> bool {
    w.len() == rows && (forall|i: int| 0 <= i < rows ==> #[trigger] w[i].len() == cols)
}

/// The affine map `w * x + b`, computed row by row with saturating
/// fixed-point arithmetic.
pub open spec fn affine_seq(w: Seq<Seq<i32>>, b: Seq<i32>, x: Seq<i32>) -> Seq<i32> {
    Seq::new(w.len(), |i: int| fx_add_spec(fx_dot(w[i], x), b[i] as int) as i32)
}

/// Compute one affine layer `w * x + b`.
pub fn affine(w: &Vec<Vec<i32>>, b: &Vec<i32>, x: &Vec<i32>) -> (r: Vec<i32>)
    requires
        b@.len() == w@.len(),
        forall|i: int| 0 <= i < w@.len() ==> #[trigger] rows_of(*w)[i].len() == x@.len(),
    ensures
        r@ == affine_seq(rows_of(*w), b@, x@),
{
    let mut out: Vec<i32> = Vec::new();
    let n: usize = w.len();
    for i in 0..n
        invariant
            n == w@.len(),
            n == b@.len(),
            forall|k: int| 0 <= k < n ==> #[trigger] rows_of(*w)[k].len() == x@.len(),
            out@.len() == i,
            forall|k: int|
                0 <= k < i ==> out@[k] == affine_seq(rows_of(*w), b@, x@)[k],
    {
        proof {
            assert(rows_of(*w)[i as int] == w@[i as int]@);
        }
        let row: &Vec<i32> = &w[i];
        let d: i32 = dot(row, x);
        out.push(fx_add(d, b[i]));
        proof {
            assert(rows_of(*w)[i as int] == w@[i as int]@);
        }
    }
    proof {
        assert(out@ =~= affine_seq(rows_of(*w), b@, x@));
    }
    out
}

/// Saturating elementwise difference of two equally long vectors.
pub open spec fn seq_sub(a: Seq<i32>, b: Seq<i32>) -> Seq<i32> {
    Seq::new(a.len(), |i: int| fx_sub_spec(a[i] as int, b[i] as int) as i32)
}

/// Saturating elementwise product of two equally long vectors.
pub open spec fn seq_mul(a: Seq<i32>, b: Seq<i32>) -> Seq<i32> {
    Seq::new(a.len(), |i: int| fx_mul_spec(a[i] as int, b[i] as int) as i32)
}

/// Compute the saturating elementwise difference `a - b`.
pub fn vec_sub(a: &Vec<i32>, b: &Vec<i32>) -> (r: Vec<i32>)
    requires
        a@.len() == b@.len(),
    ensures
        r@ == seq_sub(a@, b@),
{
    let mut out: Vec<i32> = Vec::new();
    let n: usize = a.len();
    for i in 0..n
        invariant
            n == a@.len(),
            n == b@.len(),
            out@.len() == i,
            forall|j: int| 0 <= j < i ==> out@[j] == seq_sub(a@, b@)[j],
    {
        out.push(fx_sub(a[i], b[i]));
    }
    proof {
        assert(out@ =~= seq_sub(a@, b@));
    }
    out
}

/// Compute the saturating elementwise product `a * b`.
pub fn vec_mul(a: &Vec<i32>, b: &Vec<i32>) -> (r: Vec<i32>)
    requires
        a@.len() == b@.len(),
    ensures
        r@ == seq_mul(a@, b@),
{
    let mut out: Vec<i32> = Vec::new();
    let n: usize = a.len();
    for i in 0..n
        invariant
            n == a@.len(),
            n == b@.len(),
            out@.len() == i,
            forall|j: int| 0 <= j < i ==> out@[j] == seq_mul(a@, b@)[j],
    {
        out.push(fx_mul(a[i], b[i]));
    }
    proof {
        assert(out@ =~= seq_mul(a@, b@));
    }
    out
}

/// Half of `x`, truncated toward zero.
pub open spec fn fx_half_of(x: int) -> int {
    if x >= 0 {
        x / 2
    } else {
        -((-x) / 2)
    }
}

/// The saturating sum of squared elementwise differences of two equally
/// long vectors, accumulated left to right.
pub open spec fn sq_err_sum(a: Seq<i32>, b: Seq<i32>) -> int
    decreases a.len(),
{
    if a.len() == 0 || b.len() == 0 {
        0
    } else {
        let d = fx_sub_spec(a.last() as int, b.last() as int);
        fx_add_spec(sq_err_sum(a.drop_last(), b.drop_last()), fx_mul_spec(d, d))
    }
}

/// A squared difference is never negative, so neither is the sum.
pub proof fn lemma_sq_err_sum_nonneg(a: Seq<i32>, b: Seq<i32>)
    ensures
        0 <= sq_err_sum(a, b) <= i32::MAX,
    decreases a.len(),
{
    if a.len() == 0 || b.len() == 0 {
    } else {
        lemma_sq_err_sum_nonneg(a.drop_last(), b.drop_last());
        let d = fx_sub_spec(a.last() as int, b.last() as int);
        assert(d * d >= 0) by (nonlinear_arith);
    }
}

/// Compute the saturating sum of squared differences.
pub fn sq_err(a: &Vec<i32>, b: &Vec<i32>) -> (r: i32)
    requires
        a@.len() == b@.len(),
    ensures
        r as int == sq_err_sum(a@, b@),
        r >= 0,
{
    let mut acc: i32 = 0;
    let n: usize = a.len();
    for i in 0..n
        invariant
            n == a@.len(),
            n == b@.len(),
            acc as int == sq_err_sum(a@.take(i as int), b@.take(i as int)),
            acc >= 0,
    {
        let d: i32 = fx_sub(a[i], b[i]);
        let sq: i32 = fx_mul(d, d);
        proof {
            assert((d as int) * (d as int) >= 0) by (nonlinear_arith);
        }
        acc = fx_add(acc, sq);
        proof {
            let ap = a@.take(i + 1);
            let bp = b@.take(i + 1);
            assert(ap.drop_last() =~= a@.take(i as int));
            assert(bp.drop_last() =~= b@.take(i as int));
            assert(ap.last() == a@[i as int]);
            assert(bp.last() == b@[i as int]);
        }
    }
    proof {
        assert(a@.take(n as int) =~= a@);
        assert(b@.take(n as int) =~= b@);
    }
    acc
}

/// Column `j` of a matrix.
pub open spec fn col_of(m: Seq<Seq<i32>>, j: int) -> Seq<i32> {
    Seq::new(m.len(), |i: int| m[i][j])
}

/// Saturating dot product of matrix column `j` with a vector: one entry of
/// the transposed matrix-vector product.
pub fn dot_col(w: &Vec<Vec<i32>>, j: usize, d: &Vec<i32>) -> (r: i32)
    requires
        d@.len() == w@.len(),
        forall|i: int| 0 <= i < w@.len() ==> j < #[trigger] rows_of(*w)[i].len(),
    ensures
        r as int == fx_dot(col_of(rows_of(*w), j as int), d@),
{
    let mut acc: i32 = 0;
    let n: usize = w.len();
    let ghost col = col_of(rows_of(*w), j as int);
    for i in 0..n
        invariant
            n == w@.len(),
            n == d@.len(),
            forall|k: int| 0 <= k < n ==> j < #[trigger] rows_of(*w)[k].len(),
            col == col_of(rows_of(*w), j as int),
            acc as int == fx_dot(col.take(i as int), d@.take(i as int)),
    {
        proof {
            assert(rows_of(*w)[i as int] == w@[i as int]@);
        }
        let row: &Vec<i32> = &w[i];
        let term: i32 = fx_mul(row[j], d[i]);
        acc = fx_add(acc, term);
        proof {
            let cp = col.take(i + 1);
            let dp = d@.take(i + 1);
            assert(cp.drop_last() =~= col.take(i as int));
            assert(dp.drop_last() =~= d@.take(i as int));
            assert(cp.last() == col[i as int]);
            assert(col[i as int] == rows_of(*w)[i as int][j as int]);
            assert(dp.last() == d@[i as int]);
        }
    }
    proof {
        assert(col.take(n as int) =~= col);
        assert(d@.take(n as int) =~= d@);
    }
    acc
}

/// A row-for-row copy of a weight matrix.
pub fn mat_copy(w: &Vec<Vec<i32>>) -> (r: Vec<Vec<i32>>)
    ensures
        rows_of(r) == rows_of(*w),
        r@.len() == w@.len(),
{
    let mut out: Vec<Vec<i32>> = Vec::new();
    let n: usize = w.len();
    for i in 0..n
        invariant
            n == w@.len(),
            out@.len() == i,
            forall|j: int| 0 <= j < i ==> #[trigger] out@[j]@ == w@[j]@,
    {
        out.push(fx_copy(&w[i]));
    }
    proof {
        assert forall|j: int| 0 <= j < n implies #[trigger] rows_of(out)[j] == rows_of(*w)[j] by {
            assert(rows_of(out)[j] == out@[j]@);
            assert(rows_of(*w)[j] == w@[j]@);
        }
        assert(rows_of(out) =~~= rows_of(*w));
    }
    out
}

/// An element-for-element copy of an activation vector.
pub fn fx_copy(v: &Vec<i32>) -> (r: Vec<i32>)
    ensures
        r@ == v@,
{
    let mut out: Vec<i32> = Vec::new();
    let n: usize = v.len();
    for i in 0..n
        invariant
            n == v@.len(),
            out@.len() == i,
            forall|j: int| 0 <= j < i ==> out@[j] == v@[j],
    {
        out.push(v[i]);
    }
    proof {
        assert(out@ =~= v@);
    }
    out
}

/// A sequence of `n` zero activations.
pub open spec fn zeros_seq(n: nat) -> Seq<i32> {
    Seq::new(n, |i: int| 0i32)
}

/// A vector of `n` zero activations.
pub fn fx_zeros(n: usize) -> (r: Vec<i32>)
    ensures
        r@ == zeros_seq(n as nat),
        r@.len() == n,
        forall|i: int| 0 <= i < n ==> r@[i] == 0i32,
{
    let mut v: Vec<i32> = Vec::new();
    for i in 0..n
        invariant
            v@.len() == i,
            forall|j: int| 0 <= j < i ==> v@[j] == 0i32,
    {
        v.push(0);
    }
    proof {
        assert(v@ =~= zeros_seq(n as nat));
    }
    v
}

} // verus!
