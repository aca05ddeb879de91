use vstd::prelude::*;

use crate::chain::{decimal, timestamp_plus_seconds, uint128_to_string, NANOS_PER_SECOND};
use crate::error::ContractError;
use crate::ledger::{balance_in, decreased, increased, ChannelLedger};
use crate::msg::{InitMsg, Snip20Transfer, TransferMsg};
use crate::packet::{packet_ok, tagged_denom, TransferPacket};
use crate::pending::PendingView;

verus! {

/// One key/value pair of the result record of an invocation.
#[derive(Debug, Clone, PartialEq, Eq)]
pub struct Attribute {
    pub key: String,
    pub value: String,
}

/// What a successful transfer emits: the id under which it is pending, the
/// packet to send on `channel_id`, its absolute timeout in nanoseconds since
/// the epoch, and the result record.
#[derive(Debug, Clone, PartialEq, Eq)]
pub struct TransferOutcome {
    pub transfer_id: u64,
    pub channel_id: String,
    pub packet: TransferPacket,
    pub timeout_nanos: u64,
    pub attributes: Vec<Attribute>,
}

/// The compensating transfer that releases a failed packet's tokens: `transfer`
/// is executed on the token contract at `token_address`.
#[derive(Debug, Clone, PartialEq, Eq)]
pub struct Refund {
    pub token_address: String,
    pub transfer: Snip20Transfer,
}

pub open spec fn attribute_is(a: Attribute, key: Seq<char>, value: Seq<char>) -> bool {
    a.key@ == key && a.value@ == value
}

/// The result record of a transfer of packet `p`: the action, the sender, the
/// receiver, the denomination and the amount in decimal.
pub open spec fn transfer_attributes(attrs: Seq<Attribute>, p: TransferPacket) -> bool {
    &&& attrs.len() == 5
    &&& attribute_is(attrs[0], "action"@, "transfer"@)
    &&& attribute_is(attrs[1], "sender"@, p.sender@)
    &&& attribute_is(attrs[2], "receiver"@, p.receiver@)
    &&& attribute_is(attrs[3], "denom"@, p.denom@)
    &&& attribute_is(attrs[4], "amount"@, decimal(p.amount as nat))
}

/// The absolute timeout fits in a timestamp.
pub open spec fn timeout_fits(block_time_nanos: u64, timeout_seconds: u64) -> bool {
    block_time_nanos + timeout_seconds * NANOS_PER_SECOND <= u64::MAX
}

/// The machine limits a transfer that passes the amount and channel guards
/// must meet: its deadline fits in a timestamp and a transfer id is left.
pub open spec fn transfer_limits(ledger: ChannelLedger, now: u64, msg: TransferMsg, amount: u128) -> bool {
    amount != 0 && ledger.channels().contains(msg.channel@) ==> timeout_fits(now, msg.timeout) && ledger.next_id()
        < u64::MAX
}

/// What a transfer of `amount` of the token at `token` from `sender`, following
/// `msg`, does to the ledger and returns, at block time `now`. The guards come
/// in order, and a rejected transfer leaves the balances as they were.
pub open spec fn transfer_post(
    before: ChannelLedger,
    after: ChannelLedger,
    now: u64,
    msg: TransferMsg,
    token: Seq<char>,
    amount: u128,
    sender: Seq<char>,
    memo: Option<String>,
    r: Result<TransferOutcome, ContractError>,
) -> bool {
    let key = (msg.channel@, token);
    let known = before.channels().contains(msg.channel@);
    let ok_packet = packet_ok(amount, tagged_denom(token), sender, msg.remote_address@);
    let fits = before.balance(msg.channel@, token) + amount <= u128::MAX;
    &&& after.wf()
    &&& after.channels() == before.channels()
    &&& (amount == 0 ==> (r matches Err(ContractError::NoFunds)))
    &&& (amount != 0 && !known ==> (r matches Err(ContractError::NoSuchChannel { id }) && id@ == msg.channel@))
    &&& (amount != 0 && known && !ok_packet ==> (r matches Err(ContractError::InvalidPacket)))
    &&& (amount != 0 && known && ok_packet && !fits ==> (r matches Err(ContractError::BalanceOverflow)))
    &&& (r is Ok <==> amount != 0 && known && ok_packet && fits)
    &&& (r is Err ==> after.balances() == before.balances() && after.pending() == before.pending()
        && after.next_id() == before.next_id())
    &&& (r matches Ok(out) ==> {
        &&& increased(before.balances(), after.balances(), key, amount)
        &&& out.transfer_id == before.next_id()
        &&& after.next_id() == before.next_id() + 1
        &&& after.pending() == before.pending().insert(out.transfer_id, (msg.channel@, token, sender, amount))
        &&& out.channel_id@ == msg.channel@
        &&& out.timeout_nanos == now + msg.timeout * NANOS_PER_SECOND
        &&& out.packet.amount == amount
        &&& out.packet.denom@ == tagged_denom(token)
        &&& out.packet.sender@ == sender
        &&& out.packet.receiver@ == msg.remote_address@
        &&& out.packet.memo == memo
        &&& transfer_attributes(out.attributes@, out.packet)
    })
}

/// Instantiation sets nothing up.
pub fn instantiate(_msg: InitMsg) -> (r: Result<(), ContractError>)
    ensures
        r is Ok,
{
    Ok(())
}

fn attribute(key: &str, value: String) -> (a: Attribute)
    ensures
        a.key@ == key@,
        a.value@ == value@,
{
    Attribute { key: String::from_str(key), value }
}

/// Sends `amount` of the token at `token_address`, deposited by `sender`, over
/// the channel that `msg` names. The guards run before any change: a zero
/// amount, an unknown channel, a packet that does not validate. The channel
/// balance is then raised at once, before the remote chain confirms, the
/// transfer is recorded as pending, and the packet is handed back for sending.
pub fn execute_ibc_transfer(
    ledger: &mut ChannelLedger,
    block_time_nanos: u64,
    msg: TransferMsg,
    token_address: String,
    amount: u128,
    sender: String,
    memo: Option<String>,
) -> (r: Result<TransferOutcome, ContractError>)
    requires
        old(ledger).wf(),
        transfer_limits(*old(ledger), block_time_nanos, msg, amount),
    ensures
        transfer_post(*old(ledger), *final(ledger), block_time_nanos, msg, token_address@, amount, sender@, memo, r),
{
    if amount == 0 {
        return Err(ContractError::NoFunds);
    }
    if !ledger.has_channel(&msg.channel) {
        return Err(ContractError::NoSuchChannel { id: msg.channel });
    }
    let timeout = timestamp_plus_seconds(block_time_nanos, msg.timeout);
    let packet = TransferPacket::new(amount, token_address.as_str(), sender.as_str(), msg.remote_address.as_str(), memo);
    let v = packet.validate();
    if v.is_err() {
        return Err(ContractError::InvalidPacket);
    }
    let inc = ledger.increase(&msg.channel, &token_address, amount);
    if inc.is_err() {
        return Err(ContractError::BalanceOverflow);
    }
    let transfer_id = ledger.record_pending(msg.channel.clone(), token_address, sender, amount);
    proof {
        reveal_strlit("action");
        reveal_strlit("transfer");
        reveal_strlit("sender");
        reveal_strlit("receiver");
        reveal_strlit("denom");
        reveal_strlit("amount");
    }
    let mut attributes: Vec<Attribute> = Vec::new();
    attributes.push(attribute("action", String::from_str("transfer")));
    attributes.push(attribute("sender", packet.sender.clone()));
    attributes.push(attribute("receiver", packet.receiver.clone()));
    attributes.push(attribute("denom", packet.denom.clone()));
    attributes.push(attribute("amount", uint128_to_string(packet.amount)));
    Ok(TransferOutcome { transfer_id, channel_id: msg.channel, packet, timeout_nanos: timeout, attributes })
}

/// Handles a deposit notification of `amount` from the token contract at
/// `token_address`, with `transfer` the instructions it carried, if any.
/// Without instructions it fails with `MissingTransferMsg` and changes nothing;
/// with them it is the transfer those instructions describe.
pub fn execute_receive(
    ledger: &mut ChannelLedger,
    block_time_nanos: u64,
    token_address: String,
    sender: String,
    amount: u128,
    memo: Option<String>,
    transfer: Option<TransferMsg>,
) -> (r: Result<TransferOutcome, ContractError>)
    requires
        old(ledger).wf(),
        transfer matches Some(t) ==> transfer_limits(*old(ledger), block_time_nanos, t, amount),
    ensures
        final(ledger).wf(),
        transfer is None ==> (r matches Err(ContractError::MissingTransferMsg)),
        transfer is None ==> final(ledger).balances() == old(ledger).balances()
            && final(ledger).channels() == old(ledger).channels() && final(ledger).pending() == old(ledger).pending()
            && final(ledger).next_id() == old(ledger).next_id(),
        transfer matches Some(t) ==> transfer_post(
            *old(ledger),
            *final(ledger),
            block_time_nanos,
            t,
            token_address@,
            amount,
            sender@,
            memo,
            r,
        ),
{
    match transfer {
        Some(t) => execute_ibc_transfer(ledger, block_time_nanos, t, token_address, amount, sender, memo),
        None => Err(ContractError::MissingTransferMsg),
    }
}

/// Reverses the pending transfer `transfer_id` after its packet failed (an
/// acknowledgement with an error, or a timeout): the balance of its channel
/// and token is lowered by its amount, the record is removed, and a refund of
/// that amount to its sender is handed back. A transfer that is not pending,
/// as on a second reversal of one packet, or whose amount exceeds the balance,
/// fails with `InsufficientChannelBalance` and changes nothing.
pub fn on_packet_failure(ledger: &mut ChannelLedger, transfer_id: u64) -> (r: Result<Refund, ContractError>)
    requires
        old(ledger).wf(),
    ensures
        final(ledger).wf(),
        final(ledger).channels() == old(ledger).channels(),
        final(ledger).next_id() == old(ledger).next_id(),
        r is Ok <==> old(ledger).pending().contains_key(transfer_id) && reversible(
            *old(ledger),
            old(ledger).pending()[transfer_id],
        ),
        r is Err ==> (r matches Err(ContractError::InsufficientChannelBalance)),
        r is Err ==> final(ledger).balances() == old(ledger).balances() && final(ledger).pending()
            == old(ledger).pending(),
        r matches Ok(refund) ==> {
            let p = old(ledger).pending()[transfer_id];
            &&& decreased(old(ledger).balances(), final(ledger).balances(), (p.0, p.1), p.3)
            &&& final(ledger).pending() == old(ledger).pending().remove(transfer_id)
            &&& refund.token_address@ == p.1
            &&& refund.transfer.recipient@ == p.2
            &&& refund.transfer.amount == p.3
            &&& refund.transfer.memo is None
            &&& refund.transfer.padding is None
        },
{
    let p = match ledger.pending_transfer(transfer_id) {
        Some(p) => p,
        None => return Err(ContractError::InsufficientChannelBalance),
    };
    match ledger.decrease(&p.channel, &p.token, p.amount) {
        Ok(()) => {},
        Err(e) => return Err(e),
    }
    ledger.remove_pending(transfer_id);
    let transfer = Snip20Transfer { recipient: p.sender, amount: p.amount, memo: None, padding: None };
    Ok(Refund { token_address: p.token, transfer })
}

/// The balance of a pending transfer's channel and token covers its amount.
pub open spec fn reversible(ledger: ChannelLedger, p: PendingView) -> bool {
    p.3 <= ledger.balance(p.0, p.1)
}

/// Once a reversal has removed a transfer's record, the transfer is no longer
/// pending, so a second reversal of it is refused whatever balance remains.
pub proof fn lemma_reversal_at_most_once(pending: Map<u64, PendingView>, transfer_id: u64)
    ensures
        !pending.remove(transfer_id).contains_key(transfer_id),
{
}

/// A reversal after a transfer of `amount` on `key` brings every balance back to
/// what it was before the transfer.
pub proof fn lemma_reversal_restores(
    b0: Map<(Seq<char>, Seq<char>), u128>,
    b1: Map<(Seq<char>, Seq<char>), u128>,
    b2: Map<(Seq<char>, Seq<char>), u128>,
    key: (Seq<char>, Seq<char>),
    amount: u128,
)
    requires
        increased(b0, b1, key, amount),
        decreased(b1, b2, key, amount),
    ensures
        forall|k: (Seq<char>, Seq<char>)| #[trigger] balance_in(b2, k) == balance_in(b0, k),
{
}

} // verus!
