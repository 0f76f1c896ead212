//! Password-less authentication with a Chaum–Pedersen zero-knowledge proof:
//! arbitrary-precision numbers, the proof engine over a prime-order subgroup,
//! and the server-side session state machine.
use vstd::prelude::*;

pub mod bignum;
pub mod engine;
pub mod laws;
pub mod server;

verus! {

} // verus!
