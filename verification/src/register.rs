//! Neural registers: fixed-width vectors of activations with an exact
//! integer ("symbolic") interpretation.
//!
//! Bit `i` of the symbolic value is high exactly when activation `i` lies
//! above the `FX_HALF` threshold.

use vstd::arithmetic::div_mod::lemma_div_denominator;
use vstd::arithmetic::div_mod::lemma_fundamental_div_mod;
use vstd::arithmetic::power2::lemma2_to64;
use vstd::arithmetic::power2::lemma_pow2_adds;
use vstd::arithmetic::power2::lemma_pow2_pos;
use vstd::arithmetic::power2::lemma_pow2_strictly_increases;
use vstd::arithmetic::power2::lemma_pow2_unfold;
use vstd::arithmetic::power2::pow2;
use vstd::prelude::*;

use crate::fx::FX_HALF;
use crate::fx::FX_ONE;
use crate::fx::fx_zeros;

verus! {

/// An activation counts as logic high when it lies strictly above 0.5.
pub open spec fn is_high(x: i32) -> bool {
    x > FX_HALF
}

/// The symbolic (unsigned integer) reading of an activation vector:
/// activation `i` contributes `2^i` when it is high.
pub open spec fn sym_of(s: Seq<i32>) -> nat
    decreases s.len(),
{
    if s.len() == 0 {
        0
    } else {
        (if is_high(s[0]) {
            1nat
        } else {
            0nat
        }) + 2 * sym_of(s.skip(1))
    }
}

/// Bit `i` of the unsigned integer `v`.
pub open spec fn bit_of(v: nat, i: nat) -> bool {
    (v / pow2(i)) % 2 == 1
}

/// The activation vector that encodes the low `width` bits of `v`:
/// exactly 1.0 for a set bit and exactly 0.0 for a clear bit.
pub open spec fn bits_seq(width: nat, v: nat) -> Seq<i32> {
    Seq::new(
        width,
        |i: int|
            if bit_of(v, i as nat) {
                FX_ONE
            } else {
                0i32
            },
    )
}

/// Appending an activation to a vector adds its bit at the top position.
proof fn lemma_sym_of_push(s: Seq<i32>, x: i32)
    ensures
        sym_of(s.push(x)) == sym_of(s) + (if is_high(x) {
            pow2(s.len())
        } else {
            0nat
        }),
    decreases s.len(),
{
    if s.len() == 0 {
        assert(s.push(x).skip(1) =~= Seq::<i32>::empty());
        assert(s.push(x)[0] == x);
        lemma2_to64();
        assert(sym_of(Seq::<i32>::empty()) == 0);
        assert(sym_of(s) == 0);
        assert(pow2(s.len()) == 1);
        assert(sym_of(s.push(x)) == (if is_high(x) {
            1nat
        } else {
            0nat
        }));
    } else {
        assert(s.push(x).skip(1) =~= s.skip(1).push(x));
        lemma_sym_of_push(s.skip(1), x);
        lemma_pow2_unfold(s.len());
        assert(s.push(x)[0] == s[0]);
        assert(s.push(x).len() == s.len() + 1);
        assert(sym_of(s.push(x)) == (if is_high(s[0]) {
            1nat
        } else {
            0nat
        }) + 2 * sym_of(s.skip(1).push(x)));
        assert(sym_of(s.skip(1).push(x)) == sym_of(s.skip(1)) + (if is_high(x) {
            pow2(s.skip(1).len())
        } else {
            0nat
        }));
        assert(s.skip(1).len() == s.len() - 1);
        assert(pow2(s.len()) == 2 * pow2((s.len() - 1) as nat));
        assert(sym_of(s) == (if is_high(s[0]) {
            1nat
        } else {
            0nat
        }) + 2 * sym_of(s.skip(1)));
        if is_high(x) {
            assert(sym_of(s.push(x)) == sym_of(s) + pow2(s.len()));
        } else {
            assert(sym_of(s.push(x)) == sym_of(s));
        }
    }
}

/// A vector of `n` activations reads back as a value below `2^n`.
pub proof fn lemma_sym_of_bound(s: Seq<i32>)
    ensures
        sym_of(s) < pow2(s.len()),
    decreases s.len(),
{
    if s.len() == 0 {
        lemma2_to64();
    } else {
        lemma_sym_of_bound(s.skip(1));
        lemma_pow2_unfold(s.len());
    }
}

/// Bit `i + 1` of `v` is bit `i` of `v / 2`.
proof fn lemma_bit_of_shift(v: nat, i: nat)
    ensures
        bit_of(v, i + 1) == bit_of(v / 2, i),
{
    lemma2_to64();
    lemma_pow2_pos(i);
    lemma_div_denominator(v as int, 2, pow2(i) as int);
    lemma_pow2_adds(1, i);
}

/// Symbolic round-trip: encoding an integer below `2^width` as activations
/// and reading the activations back symbolically yields the same integer.
pub proof fn lemma_symbolic_roundtrip(width: nat, v: nat)
    requires
        v < pow2(width),
    ensures
        sym_of(bits_seq(width, v)) == v,
    decreases width,
{
    lemma2_to64();
    if width == 0 {
        assert(bits_seq(width, v) =~= Seq::<i32>::empty());
    } else {
        assert(bits_seq(width, v).skip(1) =~= bits_seq((width - 1) as nat, v / 2)) by {
            assert forall|i: int| 0 <= i < width - 1 implies bits_seq(width, v).skip(1)[i]
                == bits_seq((width - 1) as nat, v / 2)[i] by {
                lemma_bit_of_shift(v, i as nat);
            }
        }
        lemma_pow2_unfold(width);
        lemma_symbolic_roundtrip((width - 1) as nat, v / 2);
        assert(bit_of(v, 0) == (v % 2 == 1));
        lemma_fundamental_div_mod(v as int, 2);
        assert(is_high(FX_ONE));
        assert(!is_high(0i32));
    }
}

/// The symbolic reading of at most the first `w` activations of a vector:
/// the fixed decode window used by units that interpret a moved vector as
/// an address or a byte.
pub open spec fn sym_prefix(s: Seq<i32>, w: int) -> nat {
    if s.len() <= w {
        sym_of(s)
    } else {
        sym_of(s.take(w))
    }
}

/// The symbolic reading of the first `n` activations of a vector.
pub fn symbolic_prefix(v: &Vec<i32>, n: usize) -> (r: u32)
    requires
        n <= v@.len(),
        n <= 32,
    ensures
        r as nat == sym_of(v@.take(n as int)),
{
    let mut result: u64 = 0;
    let mut pow: u64 = 1;
    proof {
        lemma2_to64();
    }
    for i in 0..n
        invariant
            n <= v@.len(),
            n <= 32,
            pow as nat == pow2(i as nat),
            result as nat == sym_of(v@.take(i as int)),
            result < pow,
    {
        proof {
            lemma2_to64();
            if (i as nat) + 1 < 33 {
                lemma_pow2_strictly_increases((i + 1) as nat, 33nat);
            }
            assert(pow2(33) == 0x200000000) by {
                lemma_pow2_unfold(33);
            }
            lemma_pow2_unfold((i + 1) as nat);
        }
        if v[i] > FX_HALF {
            result = result + pow;
        }
        pow = pow * 2;
        proof {
            lemma_sym_of_push(v@.take(i as int), v@[i as int]);
            assert(v@.take(i + 1) =~= v@.take(i as int).push(v@[i as int]));
        }
    }
    proof {
        lemma2_to64();
        lemma_sym_of_bound(v@.take(n as int));
        if (n as nat) < 32 {
            lemma_pow2_strictly_increases(n as nat, 32nat);
        }
    }
    result as u32
}

/// Decode the symbolic value of a vector, reading at most the low `maxbits`
/// activations.
pub fn decode_low(v: &Vec<i32>, maxbits: usize) -> (r: u32)
    requires
        maxbits <= 32,
    ensures
        r as nat == sym_prefix(v@, maxbits as int),
{
    let n: usize = if v.len() < maxbits {
        v.len()
    } else {
        maxbits
    };
    let r = symbolic_prefix(v, n);
    proof {
        if v@.len() <= maxbits {
            assert(v@.take(n as int) =~= v@);
        }
    }
    r
}

/// The activation vector encoding the low `width` bits of `val`.
pub fn bits_vec(width: usize, val: u32) -> (r: Vec<i32>)
    requires
        width <= 32,
    ensures
        r@ == bits_seq(width as nat, val as nat),
{
    let mut vec: Vec<i32> = Vec::new();
    let mut cur: u32 = val;
    proof {
        lemma2_to64();
    }
    for i in 0..width
        invariant
            vec@.len() == i,
            cur as nat == (val as nat) / pow2(i as nat),
            forall|j: int|
                0 <= j < i ==> vec@[j] == (if bit_of(val as nat, j as nat) {
                    FX_ONE
                } else {
                    0i32
                }),
    {
        if cur % 2 == 1 {
            vec.push(FX_ONE);
        } else {
            vec.push(0);
        }
        cur = cur / 2;
        proof {
            lemma2_to64();
            lemma_pow2_pos(i as nat);
            lemma_div_denominator(val as int, pow2(i as nat) as int, 2);
            lemma_pow2_adds(i as nat, 1);
        }
    }
    proof {
        assert(vec@ =~= bits_seq(width as nat, val as nat));
    }
    vec
}

/// Snap one activation to its nearest logic level.
pub open spec fn cleanup_val(x: i32) -> i32 {
    if is_high(x) {
        FX_ONE
    } else {
        0i32
    }
}

/// Snap every activation of a vector to its nearest logic level.
pub open spec fn cleanup_seq(s: Seq<i32>) -> Seq<i32> {
    s.map_values(|x: i32| cleanup_val(x))
}

/// Cleanup is idempotent, produces only the two exact logic levels, and
/// keeps every activation on the side of the threshold it started on.
pub proof fn lemma_cleanup_idempotent(s: Seq<i32>)
    ensures
        cleanup_seq(cleanup_seq(s)) == cleanup_seq(s),
        forall|i: int|
            0 <= i < s.len() ==> (cleanup_seq(s)[i] == 0i32 || cleanup_seq(s)[i] == FX_ONE),
        forall|i: int| 0 <= i < s.len() ==> (is_high(s[i]) <==> cleanup_seq(s)[i] == FX_ONE),
{
    assert(cleanup_seq(cleanup_seq(s)) =~= cleanup_seq(s));
}

/// One storage cell: a fixed-width vector of activations.
pub struct NeuralRegister {
    pub state: Vec<i32>,
    pub width: usize,
}

impl NeuralRegister {
    /// The register's state vector always has exactly its declared width.
    pub open spec fn wf(&self) -> bool {
        self.state@.len() == self.width
    }

    /// A fresh register of the given width, holding all zeros.
    pub fn new(width: usize) -> (r: Self)
        ensures
            r.wf(),
            r.width == width,
            forall|i: int| 0 <= i < width ==> r.state@[i] == 0i32,
    {
        NeuralRegister { state: fx_zeros(width), width }
    }

    /// Replace the state when the incoming vector matches the declared
    /// width; otherwise report the size mismatch and leave the state as it
    /// was.
    pub fn write(&mut self, value: &Vec<i32>) -> (ok: bool)
        ensures
            ok == (value@.len() == old(self).width),
            final(self).width == old(self).width,
            ok ==> final(self).state@ == value@,
            !ok ==> final(self).state@ == old(self).state@,
            old(self).wf() ==> final(self).wf(),
    {
        if value.len() == self.width {
            self.state = crate::fx::fx_copy(value);
            true
        } else {
            false
        }
    }

    /// A copy of the current state; the register is unchanged.
    pub fn read(&self) -> (r: Vec<i32>)
        ensures
            r@ == self.state@,
    {
        crate::fx::fx_copy(&self.state)
    }

    /// The symbolic integer reading of the current state.
    pub fn to_symbolic(&self) -> (r: u32)
        requires
            self.wf(),
            self.width <= 32,
        ensures
            r as nat == sym_of(self.state@),
    {
        let n: usize = self.state.len();
        let r = symbolic_prefix(&self.state, n);
        proof {
            assert(self.state@.take(n as int) =~= self.state@);
        }
        r
    }

    /// A register whose activations encode the low `width` bits of `val`.
    pub fn from_symbolic(width: usize, val: u32) -> (r: Self)
        requires
            width <= 32,
        ensures
            r.wf(),
            r.width == width,
            r.state@ == bits_seq(width as nat, val as nat),
    {
        NeuralRegister { state: bits_vec(width, val), width }
    }

    /// Snap every activation to exactly 0.0 or 1.0 with the 0.5 threshold.
    pub fn cleanup(&mut self)
        ensures
            final(self).width == old(self).width,
            final(self).state@ == cleanup_seq(old(self).state@),
            old(self).wf() ==> final(self).wf(),
    {
        let n: usize = self.state.len();
        for i in 0..n
            invariant
                n == self.state@.len(),
                self.width == old(self).width,
                self.state@.len() == old(self).state@.len(),
                forall|j: int| 0 <= j < i ==> self.state@[j] == cleanup_seq(old(self).state@)[j],
                forall|j: int| i <= j < n ==> self.state@[j] == old(self).state@[j],
        {
            if self.state[i] > FX_HALF {
                self.state.set(i, FX_ONE);
            } else {
                self.state.set(i, 0);
            }
        }
        proof {
            assert(self.state@ =~= cleanup_seq(old(self).state@));
        }
    }
}

} // verus!
