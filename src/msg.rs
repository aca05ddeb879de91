use vstd::prelude::*;

verus! {

/// A transfer of a token amount to `recipient`, as a token contract accepts it.
#[derive(Debug, Clone, PartialEq, Eq)]
pub struct Snip20Transfer {
    pub recipient: String,
    pub amount: u128,
    pub memo: Option<String>,
    pub padding: Option<String>,
}

/// A deposit notification from a token contract.
#[derive(Debug, Clone, PartialEq, Eq)]
pub struct Snip20ReceiveMsg {
    pub sender: String,
    pub from: String,
    pub amount: u128,
    pub memo: Option<String>,
    pub msg: Option<Vec<u8>>,
}

/// The instantiation message; it carries nothing.
#[derive(Debug, Clone, PartialEq, Eq)]
pub struct InitMsg {}

/// The messages the bridge executes.
#[derive(Debug, Clone, PartialEq, Eq)]
pub enum ExecuteMsg {
    /// A deposit notification from a token contract.
    Receive(Snip20ReceiveMsg),
    RegisterTokens { tokens: Vec<Snip20Data> },
}

/// The transfer instructions a deposit carries.
#[derive(Debug, Clone, PartialEq, Eq)]
pub struct TransferMsg {
    /// The local channel to send the packets on
    pub channel: String,
    /// The remote address to send to.
    pub remote_address: String,
    /// How long the packet lives in seconds
    pub timeout: u64,
}

/// A token to register: its address and its code hash.
#[derive(Debug, Clone, PartialEq, Eq)]
pub struct Snip20Data {
    pub address: String,
    pub code_hash: String,
}

} // verus!
