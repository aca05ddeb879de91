use snip20_ics20::amount::Snip20Coin;
use snip20_ics20::contract::{execute_ibc_transfer, execute_receive, instantiate, on_packet_failure, Attribute};
use snip20_ics20::error::ContractError;
use snip20_ics20::ledger::ChannelLedger;
use snip20_ics20::msg::{InitMsg, Snip20Data, TransferMsg};
use snip20_ics20::packet::{denom_for, parse_address_from_denom, TransferPacket};
use snip20_ics20::registry::{register_tokens, TokenEffect, TokenRegistry, BLOCK_SIZE, VIEWING_KEY};

const BLOCK_TIME: u64 = 1_571_797_419_879_305_533;

fn s(x: &str) -> String {
    x.to_string()
}

fn ledger_with(channel: &str) -> ChannelLedger {
    let mut l = ChannelLedger::new();
    l.add_channel(s(channel));
    l
}

fn transfer_msg(channel: &str, remote: &str, timeout: u64) -> TransferMsg {
    TransferMsg { channel: s(channel), remote_address: s(remote), timeout }
}

#[test]
fn build_then_validate_round_trips() {
    let p = TransferPacket::new(42, "secret1abc", "alice", "cosmos1xyz", None);
    assert_eq!(p.validate(), Ok(()));
    assert_eq!(p.denom, "wrapped:secret1abc");
    assert_eq!(parse_address_from_denom(&p.denom), Ok(s("secret1abc")));
}

#[test]
fn validate_rejects_bad_packets() {
    assert_eq!(TransferPacket::new(0, "secret1abc", "alice", "cosmos1xyz", None).validate(), Err(ContractError::InvalidPacket));
    assert_eq!(TransferPacket::new(5, "secret1abc", "", "cosmos1xyz", None).validate(), Err(ContractError::InvalidPacket));
    assert_eq!(TransferPacket::new(5, "secret1abc", "alice", "", None).validate(), Err(ContractError::InvalidPacket));
    assert_eq!(TransferPacket::new(5, "", "alice", "cosmos1xyz", None).validate(), Ok(()));
    let mut p = TransferPacket::new(5, "secret1abc", "alice", "cosmos1xyz", None);
    p.denom = s("cw20:secret1abc");
    assert_eq!(p.validate(), Err(ContractError::InvalidPacket));
}

#[test]
fn parse_denom_without_tag_fails() {
    assert_eq!(parse_address_from_denom("cw20:secret1abc"), Err(ContractError::InvalidDenom));
    assert_eq!(parse_address_from_denom("wrapped"), Err(ContractError::InvalidDenom));
    assert_eq!(parse_address_from_denom(""), Err(ContractError::InvalidDenom));
    assert_eq!(parse_address_from_denom("wrapped:"), Ok(s("")));
    assert_eq!(denom_for("é"), "wrapped:é");
    assert_eq!(parse_address_from_denom("wrapped:é"), Ok(s("é")));
}

#[test]
fn zero_amount_is_no_funds() {
    let mut l = ledger_with("channel-0");
    let r = execute_ibc_transfer(&mut l, BLOCK_TIME, transfer_msg("channel-0", "cosmos1xyz", 600), s("secret1abc"), 0, s("alice"), None);
    assert_eq!(r, Err(ContractError::NoFunds));
    assert_eq!(l.get_balance(&s("channel-0"), &s("secret1abc")), 0);
}

#[test]
fn unknown_channel_is_rejected() {
    let mut l = ledger_with("channel-0");
    let r = execute_ibc_transfer(&mut l, BLOCK_TIME, transfer_msg("channel-9", "cosmos1xyz", 600), s("secret1abc"), 10, s("alice"), None);
    assert_eq!(r, Err(ContractError::NoSuchChannel { id: s("channel-9") }));
    assert_eq!(l.get_balance(&s("channel-9"), &s("secret1abc")), 0);
    assert!(!l.has_channel(&s("channel-9")));
}

#[test]
fn invalid_packet_leaves_ledger() {
    let mut l = ledger_with("channel-0");
    let r = execute_ibc_transfer(&mut l, BLOCK_TIME, transfer_msg("channel-0", "", 600), s("secret1abc"), 10, s("alice"), None);
    assert_eq!(r, Err(ContractError::InvalidPacket));
    assert_eq!(l.get_balance(&s("channel-0"), &s("secret1abc")), 0);
}

#[test]
fn transfers_sum_on_one_key() {
    let mut l = ledger_with("channel-0");
    for a in [3u128, 40, 500] {
        let r = execute_ibc_transfer(&mut l, BLOCK_TIME, transfer_msg("channel-0", "cosmos1xyz", 60), s("secret1abc"), a, s("alice"), None);
        assert!(r.is_ok());
    }
    assert_eq!(l.get_balance(&s("channel-0"), &s("secret1abc")), 543);
    assert_eq!(l.get_balance(&s("channel-0"), &s("secret1other")), 0);
}

#[test]
fn increase_overflow_is_refused() {
    let mut l = ledger_with("channel-0");
    let ch = s("channel-0");
    let tok = s("secret1abc");
    assert_eq!(l.increase(&ch, &tok, u128::MAX - 1), Ok(()));
    assert_eq!(l.increase(&ch, &tok, 2), Err(ContractError::BalanceOverflow));
    assert_eq!(l.get_balance(&ch, &tok), u128::MAX - 1);
    let r = execute_ibc_transfer(&mut l, BLOCK_TIME, transfer_msg("channel-0", "cosmos1xyz", 60), s("secret1abc"), 5, s("alice"), None);
    assert_eq!(r, Err(ContractError::BalanceOverflow));
    assert_eq!(l.increase(&ch, &tok, 1), Ok(()));
    assert_eq!(l.get_balance(&ch, &tok), u128::MAX);
}

#[test]
fn decrease_within_and_beyond_balance() {
    let mut l = ChannelLedger::new();
    let ch = s("channel-0");
    let tok = s("secret1abc");
    assert_eq!(l.increase(&ch, &tok, 100), Ok(()));
    assert_eq!(l.decrease(&ch, &tok, 30), Ok(()));
    assert_eq!(l.get_balance(&ch, &tok), 70);
    assert_eq!(l.decrease(&ch, &tok, 71), Err(ContractError::InsufficientChannelBalance));
    assert_eq!(l.get_balance(&ch, &tok), 70);
    assert_eq!(l.decrease(&ch, &tok, 70), Ok(()));
    assert_eq!(l.get_balance(&ch, &tok), 0);
}

#[test]
fn add_channel_twice_keeps_one() {
    let mut l = ChannelLedger::new();
    assert!(!l.has_channel(&s("channel-0")));
    l.add_channel(s("channel-0"));
    l.add_channel(s("channel-0"));
    l.add_channel(s("channel-1"));
    assert!(l.has_channel(&s("channel-0")));
    assert!(l.has_channel(&s("channel-1")));
}

fn data(address: &str, hash: &str) -> Snip20Data {
    Snip20Data { address: s(address), code_hash: s(hash) }
}

#[test]
fn registered_tokens_are_found() {
    let mut reg = TokenRegistry::new();
    let r = register_tokens(&mut reg, &s("selfhash"), vec![data("secret1a", "h1"), data("secret1b", "h2")], &vec![true, true]);
    let effects = r.unwrap();
    assert_eq!(reg.lookup(&s("secret1a")), Some(s("h1")));
    assert_eq!(reg.lookup(&s("secret1b")), Some(s("h2")));
    assert_eq!(reg.lookup(&s("secret1c")), None);
    assert_eq!(effects.len(), 4);
    assert_eq!(
        effects[0],
        TokenEffect::RegisterReceive { code_hash: s("selfhash"), token_code_hash: s("h1"), token_address: s("secret1a") }
    );
    assert_eq!(
        effects[3],
        TokenEffect::SetViewingKey { key: s(VIEWING_KEY), token_code_hash: s("h2"), token_address: s("secret1b") }
    );
    assert_eq!(VIEWING_KEY, "SNIP20-ICS20");
    assert_eq!(BLOCK_SIZE, 256);
}

#[test]
fn re_registration_last_write_wins() {
    let mut reg = TokenRegistry::new();
    let r = register_tokens(&mut reg, &s("selfhash"), vec![data("secret1a", "h1"), data("secret1a", "h9")], &vec![true, true]);
    assert!(r.is_ok());
    assert_eq!(reg.lookup(&s("secret1a")), Some(s("h9")));
}

#[test]
fn invalid_address_aborts_batch() {
    let mut reg = TokenRegistry::new();
    let r = register_tokens(&mut reg, &s("selfhash"), vec![data("secret1a", "h1"), data("bad", "h2")], &vec![true, false]);
    assert_eq!(r, Err(ContractError::InvalidAddress));
    assert_eq!(reg.lookup(&s("secret1a")), None);
    assert_eq!(reg.lookup(&s("bad")), None);
}

fn deposit(l: &mut ChannelLedger, transfer: Option<TransferMsg>) -> Result<snip20_ics20::contract::TransferOutcome, ContractError> {
    execute_receive(l, BLOCK_TIME, s("secret1abc"), s("alice"), 1000, None, transfer)
}

#[test]
fn deposit_sends_packet_and_raises_balance() {
    let mut l = ledger_with("channel-0");
    let out = deposit(&mut l, Some(transfer_msg("channel-0", "cosmos1xyz", 600))).unwrap();
    assert_eq!(l.get_balance(&s("channel-0"), &s("secret1abc")), 1000);
    assert_eq!(out.channel_id, "channel-0");
    assert_eq!(out.packet, TransferPacket {
        amount: 1000,
        denom: s("wrapped:secret1abc"),
        sender: s("alice"),
        receiver: s("cosmos1xyz"),
        memo: None,
    });
    assert_eq!(out.timeout_nanos, BLOCK_TIME + 600 * 1_000_000_000);
    let attr = |k: &str, v: &str| Attribute { key: s(k), value: s(v) };
    assert_eq!(out.attributes, vec![
        attr("action", "transfer"),
        attr("sender", "alice"),
        attr("receiver", "cosmos1xyz"),
        attr("denom", "wrapped:secret1abc"),
        attr("amount", "1000"),
    ]);
}

#[test]
fn deposit_without_msg_is_missing_transfer_msg() {
    let mut l = ledger_with("channel-0");
    assert_eq!(deposit(&mut l, None), Err(ContractError::MissingTransferMsg));
    assert_eq!(l.get_balance(&s("channel-0"), &s("secret1abc")), 0);
}

#[test]
fn timeout_reverses_once() {
    let mut l = ledger_with("channel-0");
    let out = deposit(&mut l, Some(transfer_msg("channel-0", "cosmos1xyz", 600))).unwrap();
    let ch = s("channel-0");
    let refund = on_packet_failure(&mut l, out.transfer_id).unwrap();
    assert_eq!(l.get_balance(&ch, &s("secret1abc")), 0);
    assert_eq!(refund.token_address, "secret1abc");
    assert_eq!(refund.transfer.recipient, "alice");
    assert_eq!(refund.transfer.amount, 1000);
    assert_eq!(on_packet_failure(&mut l, out.transfer_id), Err(ContractError::InsufficientChannelBalance));
    assert_eq!(l.get_balance(&ch, &s("secret1abc")), 0);
}

#[test]
fn second_reversal_refused_while_key_holds_funds() {
    let mut l = ledger_with("channel-0");
    let first = deposit(&mut l, Some(transfer_msg("channel-0", "cosmos1xyz", 600))).unwrap();
    let second = deposit(&mut l, Some(transfer_msg("channel-0", "cosmos1xyz", 600))).unwrap();
    assert_ne!(first.transfer_id, second.transfer_id);
    let ch = s("channel-0");
    assert_eq!(l.get_balance(&ch, &s("secret1abc")), 2000);
    assert!(on_packet_failure(&mut l, first.transfer_id).is_ok());
    assert_eq!(l.get_balance(&ch, &s("secret1abc")), 1000);
    assert_eq!(on_packet_failure(&mut l, first.transfer_id), Err(ContractError::InsufficientChannelBalance));
    assert_eq!(l.get_balance(&ch, &s("secret1abc")), 1000);
    assert!(on_packet_failure(&mut l, second.transfer_id).is_ok());
    assert_eq!(l.get_balance(&ch, &s("secret1abc")), 0);
}

#[test]
fn reversal_of_unknown_transfer_is_refused() {
    let mut l = ledger_with("channel-0");
    assert_eq!(l.increase(&s("channel-0"), &s("secret1abc"), 50), Ok(()));
    assert_eq!(on_packet_failure(&mut l, 7), Err(ContractError::InsufficientChannelBalance));
    assert_eq!(l.get_balance(&s("channel-0"), &s("secret1abc")), 50);
}

#[test]
fn ledger_starting_at_gives_later_ids() {
    let mut l = ChannelLedger::starting_at(41);
    l.add_channel(s("channel-0"));
    let out = deposit(&mut l, Some(transfer_msg("channel-0", "cosmos1xyz", 600))).unwrap();
    assert_eq!(out.transfer_id, 41);
    assert_eq!(l.next_transfer_id(), 42);
    assert_eq!(l.pending_list().len(), 1);
    let p = l.pending_transfer(41).unwrap();
    assert_eq!((p.channel.as_str(), p.token.as_str(), p.sender.as_str(), p.amount), ("channel-0", "secret1abc", "alice", 1000));
}

#[test]
fn zero_amount_with_huge_timeout_is_no_funds() {
    let mut l = ledger_with("channel-0");
    let r = execute_ibc_transfer(&mut l, BLOCK_TIME, transfer_msg("channel-0", "cosmos1xyz", u64::MAX), s("secret1abc"), 0, s("alice"), None);
    assert_eq!(r, Err(ContractError::NoFunds));
    let r = execute_ibc_transfer(&mut l, BLOCK_TIME, transfer_msg("channel-7", "cosmos1xyz", u64::MAX), s("secret1abc"), 3, s("alice"), None);
    assert_eq!(r, Err(ContractError::NoSuchChannel { id: s("channel-7") }));
}

#[test]
fn amount_attribute_is_decimal() {
    let mut l = ledger_with("channel-0");
    let out = execute_ibc_transfer(&mut l, 0, transfer_msg("channel-0", "r", 1), s("t"), u128::MAX, s("a"), Some(s("m"))).unwrap();
    assert_eq!(out.attributes[4].value, u128::MAX.to_string());
    assert_eq!(out.timeout_nanos, 1_000_000_000);
    assert_eq!(out.packet.memo, Some(s("m")));
    let out = execute_ibc_transfer(&mut l, 7, transfer_msg("channel-0", "r", 0), s("u"), 7, s("a"), None).unwrap();
    assert_eq!(out.attributes[4].value, "7");
    assert_eq!(out.timeout_nanos, 7);
}

#[test]
fn coin_from_parts_and_snip20() {
    let c = Snip20Coin::from_parts(s("wrapped:secret1abc"), 12);
    assert_eq!(c, Ok(Snip20Coin { address: s("secret1abc"), amount: 12 }));
    assert_eq!(Snip20Coin::from_parts(s("cw20:secret1abc"), 12), Err(ContractError::InvalidDenom));
    assert_eq!(Snip20Coin::from_parts(s("ab"), 12), Err(ContractError::InvalidDenom));
    assert_eq!(Snip20Coin::snip20(9, "secret1x"), Snip20Coin { address: s("secret1x"), amount: 9 });
}

#[test]
fn instantiate_succeeds() {
    assert_eq!(instantiate(InitMsg {}), Ok(()));
}
