//! A simple consensus voter over redundant unit outputs: it compares a
//! redundant pair for drift and reports whether the outputs diverged.

use vstd::prelude::*;

use crate::fx::fx_add;
use crate::fx::fx_add_spec;
use crate::fx::fx_copy;
use crate::fx::fx_half_of;
use crate::fx::lemma_sq_err_sum_nonneg;
use crate::fx::sq_err;
use crate::fx::sq_err_sum;

verus! {

/// The mean squared error between two equally long activation vectors:
/// the saturating sum of squared differences divided by the length, or
/// zero for empty vectors.
pub open spec fn vote_mse(a: Seq<i32>, b: Seq<i32>) -> int {
    if a.len() == 0 {
        0
    } else {
        sq_err_sum(a, b) / a.len() as int
    }
}

/// The elementwise average of two equally long vectors, truncated toward
/// zero.
pub open spec fn avg_seq(a: Seq<i32>, b: Seq<i32>) -> Seq<i32> {
    Seq::new(a.len(), |i: int| fx_half_of(fx_add_spec(a[i] as int, b[i] as int)) as i32)
}

/// A consensus voter over redundant unit outputs.
pub struct VoterBlock;

impl VoterBlock {
    /// Compare unit outputs for drift.  An empty slate is an error; a
    /// redundant pair whose mean squared error exceeds the threshold is
    /// flagged as drifted and averaged; otherwise, and for any other
    /// number of outputs, the first output stands unflagged.
    pub fn vote(outputs: &Vec<Vec<i32>>, threshold: i32) -> (r: (Vec<i32>, bool))
        requires
            outputs@.len() == 2 ==> outputs@[0]@.len() == outputs@[1]@.len(),
        ensures
            outputs@.len() == 0 ==> r.0@.len() == 0 && r.1,
            outputs@.len() == 2 ==> {
                let mse = vote_mse(outputs@[0]@, outputs@[1]@);
                &&& (mse > threshold) == r.1
                &&& (if mse > threshold {
                    r.0@ == avg_seq(outputs@[0]@, outputs@[1]@)
                } else {
                    r.0@ == outputs@[0]@
                })
            },
            outputs@.len() != 0 && outputs@.len() != 2 ==> r.0@ == outputs@[0]@ && !r.1,
    {
        if outputs.len() == 0 {
            return (Vec::new(), true);
        }
        if outputs.len() == 2 {
            let a: &Vec<i32> = &outputs[0];
            let b: &Vec<i32> = &outputs[1];
            let total: i32 = sq_err(a, b);
            let n: usize = a.len();
            let mse: i32 = if n == 0 {
                0
            } else {
                proof {
                    lemma_sq_err_sum_nonneg(a@, b@);
                }
                ((total as u64) / (n as u64)) as i32
            };
            if mse > threshold {
                let mut mean: Vec<i32> = Vec::new();
                for i in 0..n
                    invariant
                        n == a@.len(),
                        n == b@.len(),
                        mean@.len() == i,
                        forall|j: int| 0 <= j < i ==> mean@[j] == avg_seq(a@, b@)[j],
                {
                    let s: i32 = fx_add(a[i], b[i]);
                    let h: i32 = if s >= 0 {
                        s / 2
                    } else {
                        -(-(s as i64) / 2) as i32
                    };
                    proof {
                        assert(h as int == fx_half_of(s as int));
                    }
                    mean.push(h);
                }
                proof {
                    assert(mean@ =~= avg_seq(a@, b@));
                }
                return (mean, true);
            } else {
                return (fx_copy(a), false);
            }
        }
        (fx_copy(&outputs[0]), false)
    }
}

} // verus!
