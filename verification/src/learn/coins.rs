//! Coins and the cents they add.
use vstd::prelude::*;

verus! {

/// A state whose quarters add more than one cent.
#[derive(Debug, Clone, Copy, PartialEq, Eq, Structural)]
pub enum UsState {
    Alabama,
    Alaska,
}

/// A coin.
#[derive(Debug, Clone, Copy, PartialEq, Eq, Structural)]
pub enum Coin {
    Penny,
    Nickel,
    Dime,
    Quarter(UsState),
}

impl UsState {
    /// The cents a quarter of the state adds.
    pub fn inc_amount(&self) -> (r: u8)
        ensures
            r == (match self {
                UsState::Alabama => 2u8,
                UsState::Alaska => 5u8,
            }),
    {
        match self {
            UsState::Alabama => 2,
            UsState::Alaska => 5,
        }
    }
}

/// The cents a coin adds: a quarter adds its state's amount, any other coin
/// one cent; no coin adds nothing.
pub fn inc_money(coin: Option<Coin>) -> (r: Option<u8>)
    ensures
        r == (match coin {
            None => None,
            Some(Coin::Quarter(UsState::Alabama)) => Some(2u8),
            Some(Coin::Quarter(UsState::Alaska)) => Some(5u8),
            Some(_) => Some(1u8),
        }),
{
    let mut result: u8 = 0;
    let coin = match coin {
        Some(c) => c,
        None => {
            return None;
        },
    };
    if let Coin::Quarter(state) = coin {
        result += state.inc_amount();
    } else {
        result += 1;
    }
    Some(result)
}

} // verus!
