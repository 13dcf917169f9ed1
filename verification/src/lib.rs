//! A verified emulator core for a transport-triggered architecture whose
//! functional units are small neural networks.
//!
//! Activations are modelled as Q16.16 saturating fixed-point numbers, so the
//! whole data path — registers, the memory-mapped bus, the functional-unit
//! variants, the circuit evaluator over gates and the stepping loop — is
//! integer arithmetic that Verus can reason about exactly.

pub mod adders;
pub mod bus;
pub mod circuit;
pub mod fu;
pub mod fx;
pub mod gate;
pub mod loader;
pub mod register;
pub mod rng;
pub mod sparse;
pub mod system;
pub mod training;
pub mod voter;

use vstd::prelude::*;

verus! {

} // verus!
