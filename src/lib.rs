//! A remote-control agent's core: a sandboxed file resource manager, a
//! table-backed process controller, and the translation of their results
//! into replies for the wire layer.
use vstd::prelude::*;

pub mod args;
pub mod exec;
pub mod res;
pub mod service;

verus! {

} // verus!
