//! Mailbox-by-mailbox mail synchronisation: the decisions of a sync run,
//! with the network left to the caller.
use vstd::prelude::*;

pub mod config;
pub mod engine;
pub mod filter;
pub mod laws;
pub mod text;

verus! {

} // verus!
