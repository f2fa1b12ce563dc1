//! A bytecode virtual machine for the Lama language: image parsing,
//! instruction decoding, static verification, and a stack-machine
//! interpreter with a managed heap model.

pub mod analyzer;
pub mod bitmap;
pub mod bytecode;
pub mod bytefile;
pub mod cfg;
pub mod decoder;
pub mod display;
pub mod frame;
pub mod heap;
pub mod interpreter;
pub mod object;
pub mod verifyer;

use vstd::prelude::*;

verus! {

/// Tag hash of the well-known constructor name `cons`, as the hash
/// function computes it.
pub const CONS_TAG_HASH: i64 = 1697575;

/// Tag hash of the well-known constructor name `nil`, as the hash
/// function computes it.
pub const NIL_TAG_HASH: i64 = 115865;

} // verus!
