use vstd::prelude::*;
use vstd::string::*;

use crate::error::ContractError;

verus! {

/// The tag that prefixes the denomination of every bridged token.
pub const DENOM_TAG: &'static str = "wrapped:";

/// The tag as a sequence of characters.
pub open spec fn denom_tag() -> Seq<char> {
    seq!['w', 'r', 'a', 'p', 'p', 'e', 'd', ':']
}

/// The denomination under which the token at `address` travels.
pub open spec fn tagged_denom(address: Seq<char>) -> Seq<char> {
    denom_tag() + address
}

/// `denom` starts with the tag.
pub open spec fn has_denom_tag(denom: Seq<char>) -> bool {
    denom.len() >= denom_tag().len() && denom.subrange(0, denom_tag().len() as int) == denom_tag()
}

/// The token address that a denomination names, if it carries the tag.
pub open spec fn address_of_denom(denom: Seq<char>) -> Option<Seq<char>> {
    if has_denom_tag(denom) {
        Some(denom.subrange(denom_tag().len() as int, denom.len() as int))
    } else {
        None
    }
}

/// What a well-formed packet satisfies: a non-zero amount, a tagged
/// denomination, and a non-empty sender and receiver.
pub open spec fn packet_ok(
    amount: u128,
    denom: Seq<char>,
    sender: Seq<char>,
    receiver: Seq<char>,
) -> bool {
    &&& amount != 0
    &&& has_denom_tag(denom)
    &&& sender.len() > 0
    &&& receiver.len() > 0
}

/// The wire-format description of one token transfer across a channel.
#[derive(Debug, Clone, PartialEq, Eq)]
pub struct TransferPacket {
    pub amount: u128,
    pub denom: String,
    pub sender: String,
    pub receiver: String,
    pub memo: Option<String>,
}

fn tag_string() -> (r: String)
    ensures
        r@ == denom_tag(),
{
    proof {
        reveal_strlit("wrapped:");
    }
    let r = String::from_str(DENOM_TAG);
    assert(r@ =~= denom_tag());
    r
}

/// The denomination for the token at `address`: the tag followed by the address.
pub fn denom_for(address: &str) -> (r: String)
    ensures
        r@ == tagged_denom(address@),
{
    tag_string().concat(address)
}

/// Whether `s` begins with the characters of `prefix`.
fn starts_with_chars(s: &str, prefix: &str) -> (r: bool)
    ensures
        r == (s@.len() >= prefix@.len() && s@.subrange(0, prefix@.len() as int) == prefix@),
{
    let n = s.unicode_len();
    let m = prefix.unicode_len();
    if n < m {
        return false;
    }
    let mut i: usize = 0;
    while i < m
        invariant
            n == s@.len(),
            m == prefix@.len(),
            m <= n,
            i <= m,
            forall|j: int| 0 <= j < i ==> s@[j] == prefix@[j],
        decreases m - i,
    {
        if s.get_char(i) != prefix.get_char(i) {
            assert(s@.subrange(0, m as int)[i as int] != prefix@[i as int]);
            return false;
        }
        i = i + 1;
    }
    assert(s@.subrange(0, m as int) =~= prefix@);
    true
}

/// Strips the tag from a denomination, giving the token address it names.
pub fn parse_address_from_denom(denom: &str) -> (r: Result<String, ContractError>)
    ensures
        match address_of_denom(denom@) {
            Some(a) => r matches Ok(s) && s@ == a,
            None => r matches Err(ContractError::InvalidDenom),
        },
{
    proof {
        reveal_strlit("wrapped:");
    }
    assert(DENOM_TAG@ =~= denom_tag());
    if !starts_with_chars(denom, DENOM_TAG) {
        return Err(ContractError::InvalidDenom);
    }
    let n = denom.unicode_len();
    let rest = denom.substring_char(8, n);
    Ok(String::from_str(rest))
}

impl TransferPacket {
    /// Builds the packet for a transfer of `amount` of the token at
    /// `token_address`, tagging the address into the denomination and copying
    /// the other fields as they are.
    pub fn new(
        amount: u128,
        token_address: &str,
        sender: &str,
        receiver: &str,
        memo: Option<String>,
    ) -> (p: TransferPacket)
        ensures
            p.amount == amount,
            p.denom@ == tagged_denom(token_address@),
            p.sender@ == sender@,
            p.receiver@ == receiver@,
            p.memo == memo,
    {
        TransferPacket {
            amount,
            denom: denom_for(token_address),
            sender: String::from_str(sender),
            receiver: String::from_str(receiver),
            memo,
        }
    }

    /// Checks the packet's structure; it has no side effects.
    pub fn validate(&self) -> (r: Result<(), ContractError>)
        ensures
            r is Ok <==> packet_ok(self.amount, self.denom@, self.sender@, self.receiver@),
            r is Err ==> r matches Err(ContractError::InvalidPacket),
    {
        proof {
            reveal_strlit("wrapped:");
        }
        assert(DENOM_TAG@ =~= denom_tag());
        if self.amount == 0 {
            return Err(ContractError::InvalidPacket);
        }
        if !starts_with_chars(self.denom.as_str(), DENOM_TAG) {
            return Err(ContractError::InvalidPacket);
        }
        if self.sender.as_str().unicode_len() == 0 || self.receiver.as_str().unicode_len() == 0 {
            return Err(ContractError::InvalidPacket);
        }
        Ok(())
    }
}

/// Building a packet from a non-zero amount, any token address and a non-empty
/// sender and receiver gives a packet that validates, and stripping
/// the tag from its denomination gives back the token address.
pub proof fn lemma_build_validate_round_trip(
    amount: u128,
    token_address: Seq<char>,
    sender: Seq<char>,
    receiver: Seq<char>,
)
    requires
        amount != 0,
        sender.len() > 0,
        receiver.len() > 0,
    ensures
        packet_ok(amount, tagged_denom(token_address), sender, receiver),
        address_of_denom(tagged_denom(token_address)) == Some(token_address),
{
    let d = tagged_denom(token_address);
    assert(d.subrange(0, denom_tag().len() as int) =~= denom_tag());
    assert(d.subrange(denom_tag().len() as int, d.len() as int) =~= token_address);
}

} // verus!
