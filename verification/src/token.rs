//! The token's fixed description.

use vstd::prelude::*;

verus! {

/// The token's name.
pub const TOKEN_NAME: &'static str = "Example Token";

/// The token's ticker symbol.
pub const TOKEN_SYMBOL: &'static str = "EXT";

/// The number of decimal places in which amounts are shown.
pub const TOKEN_DECIMALS: u8 = 8;

/// The declared total supply. It describes the token and limits nothing:
/// minting is not held against it.
pub const TOKEN_TOTAL_SUPPLY: u128 = 0;

/// The amount reported as available supply.
pub const AVAILABLE_TOKEN_SUPPLY: u8 = 100;

/// The number that acknowledges a request to replace the module.
pub const WASM_UPDATE_TICKET: u128 = 42;

/// The available supply, as reported at some time.
#[derive(Clone, Copy, Debug, PartialEq, Eq, Structural)]
pub struct TokenSupply {
    pub time: u64,
    pub total_amount: u8,
}

} // verus!
