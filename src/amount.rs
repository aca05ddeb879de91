use vstd::prelude::*;

use crate::error::ContractError;
use crate::packet::{address_of_denom, parse_address_from_denom};

verus! {

/// An amount of the token at `address`.
#[derive(Debug, Clone, PartialEq, Eq)]
pub struct Snip20Coin {
    pub address: String,
    pub amount: u128,
}

impl Snip20Coin {
    /// The coin that a tagged denomination and an amount describe; a
    /// denomination without the tag fails with `InvalidDenom`.
    pub fn from_parts(denom: String, amount: u128) -> (r: Result<Snip20Coin, ContractError>)
        ensures
            match address_of_denom(denom@) {
                Some(a) => r matches Ok(c) && c.address@ == a && c.amount == amount,
                None => r matches Err(ContractError::InvalidDenom),
            },
    {
        match parse_address_from_denom(denom.as_str()) {
            Ok(address) => Ok(Snip20Coin { address, amount }),
            Err(e) => Err(e),
        }
    }

    /// `amount` of the token at `addr`.
    pub fn snip20(amount: u128, addr: &str) -> (c: Snip20Coin)
        ensures
            c.address@ == addr@,
            c.amount == amount,
    {
        Snip20Coin { address: String::from_str(addr), amount }
    }
}

} // verus!
