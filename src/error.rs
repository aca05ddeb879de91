use vstd::prelude::*;

verus! {

/// Every way an invocation of the bridge can be rejected.
#[derive(Debug, Clone, PartialEq, Eq)]
pub enum ContractError {
    /// A transfer of a zero amount.
    NoFunds,
    /// The transfer names a channel that is not registered.
    NoSuchChannel { id: String },
    /// A deposit notification carried no transfer instructions.
    MissingTransferMsg,
    /// The outbound packet failed structural validation.
    InvalidPacket,
    /// A denomination that does not carry the wrapped-token tag.
    InvalidDenom,
    /// A token address was rejected during registration.
    InvalidAddress,
    /// Increasing a channel balance would exceed the representable range.
    BalanceOverflow,
    /// A reversal asked for more than the channel balance holds.
    InsufficientChannelBalance,
}

} // verus!
