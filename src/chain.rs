use vstd::prelude::*;

use secret_cosmwasm_std::{Timestamp, Uint128};

verus! {

/// Nanoseconds in one second.
pub const NANOS_PER_SECOND: u64 = 1_000_000_000;

/// The character of a decimal digit.
pub open spec fn digit_char(d: nat) -> char {
    seq!['0', '1', '2', '3', '4', '5', '6', '7', '8', '9'][d as int]
}

/// The decimal notation of `n`, without sign or leading zeros.
pub open spec fn decimal(n: nat) -> Seq<char>
    decreases n,
{
    if n < 10 {
        seq![digit_char(n)]
    } else {
        decimal(n / 10).push(digit_char(n % 10))
    }
}

/// Relies on `Timestamp::plus_seconds` of cosmwasm-std: it adds
/// `seconds * 10^9` to the nanoseconds of the timestamp.
#[verifier::external_body]
pub(crate) fn timestamp_plus_seconds(nanos: u64, seconds: u64) -> (r: u64)
    requires
        nanos + seconds * NANOS_PER_SECOND <= u64::MAX,
    ensures
        r == nanos + seconds * NANOS_PER_SECOND,
{
    Timestamp::from_nanos(nanos).plus_seconds(seconds).nanos()
}

/// Relies on the `Display` impl of cosmwasm-std's `Uint128`, which writes the
/// inner `u128` in decimal.
#[verifier::external_body]
pub(crate) fn uint128_to_string(amount: u128) -> (r: String)
    ensures
        r@ == decimal(amount as nat),
{
    Uint128::new(amount).to_string()
}

} // verus!
