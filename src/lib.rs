//! Bridging of wrapped fungible tokens over an inter-chain transfer channel:
//! packet construction and validation, the per-channel balance ledger, the
//! token registry and the transfer orchestration that ties them together.
use vstd::prelude::*;

pub mod amount;
pub mod chain;
pub mod contract;
pub mod error;
pub mod ledger;
pub mod msg;
pub mod packet;
pub mod pending;
pub mod registry;

verus! {

} // verus!
