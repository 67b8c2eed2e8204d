use vstd::prelude::*;

pub mod config;
pub mod decimal;
pub mod election;
pub mod log_array;
pub mod raft;
pub mod raft_state;
pub mod remote;
pub mod safety;
pub mod state_machine;
pub mod storage;
pub mod kv;

verus! {

} // verus!
