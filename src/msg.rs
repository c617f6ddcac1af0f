//! Requests to the ledger and the shapes of its answers.
use vstd::prelude::*;
use vstd::string::*;
use vstd::utf8::encode_utf8;
use crate::error::ContractError;
use crate::state::{Expiration, MinterData, TokenInfo};

verus! {

pub const MIN_NAME_BYTES: usize = 3;

pub const MAX_NAME_BYTES: usize = 50;

pub const MIN_SYMBOL_BYTES: usize = 3;

pub const MAX_SYMBOL_BYTES: usize = 12;

pub const MAX_DECIMALS: u8 = 18;

/// A name is 3 to 50 bytes of UTF-8.
pub open spec fn name_ok(name: Seq<char>) -> bool {
    MIN_NAME_BYTES <= encode_utf8(name).len() <= MAX_NAME_BYTES
}

/// A symbol byte is an ASCII letter or a hyphen.
pub open spec fn symbol_byte_ok(b: u8) -> bool {
    b == 45 || (65 <= b <= 90) || (97 <= b <= 122)
}

/// A symbol is 3 to 12 letters or hyphens.
pub open spec fn symbol_ok(symbol: Seq<char>) -> bool {
    let b = encode_utf8(symbol);
    &&& MIN_SYMBOL_BYTES <= b.len() <= MAX_SYMBOL_BYTES
    &&& forall|i: int| 0 <= i < b.len() ==> symbol_byte_ok(#[trigger] b[i])
}

/// The token's initial parameters.
#[derive(Clone, Debug)]
pub struct InstantiateMsg {
    pub total_supply: u128,
    pub name: String,
    pub symbol: String,
    pub decimals: u8,
    /// Present when the token has a mint authority; the initializing caller
    /// becomes the minter, under the cap given here.
    pub mint: Option<MinterData>,
}

impl InstantiateMsg {
    /// Name, symbol and decimals are all in format.
    pub open spec fn valid(&self) -> bool {
        name_ok(self.name@) && symbol_ok(self.symbol@) && self.decimals <= MAX_DECIMALS
    }

    /// The supply cap, if a mint authority with a cap is given.
    pub fn get_cap(&self) -> (r: Option<u128>)
        ensures
            r == match self.mint {
                Some(m) => m.cap,
                None => None,
            },
    {
        match &self.mint {
            Some(m) => m.cap,
            None => None,
        }
    }

    /// Checks name, symbol and decimals.
    pub fn validate(&self) -> (r: Result<(), ContractError>)
        ensures
            r is Ok <==> self.valid(),
            r is Err ==> r == Err::<(), ContractError>(ContractError::InvalidMetadata),
    {
        if !self.has_valid_name() {
            return Err(ContractError::InvalidMetadata);
        }
        if !self.has_valid_symbol() {
            return Err(ContractError::InvalidMetadata);
        }
        if self.decimals > MAX_DECIMALS {
            return Err(ContractError::InvalidMetadata);
        }
        Ok(())
    }

    pub fn has_valid_name(&self) -> (r: bool)
        ensures
            r == name_ok(self.name@),
    {
        let bytes = self.name.as_str().as_bytes_vec();
        bytes.len() >= MIN_NAME_BYTES && bytes.len() <= MAX_NAME_BYTES
    }

    pub fn has_valid_symbol(&self) -> (r: bool)
        ensures
            r == symbol_ok(self.symbol@),
    {
        let bytes = self.symbol.as_str().as_bytes_vec();
        if bytes.len() < MIN_SYMBOL_BYTES || bytes.len() > MAX_SYMBOL_BYTES {
            return false;
        }
        let mut i: usize = 0;
        while i < bytes.len()
            invariant
                bytes@ == encode_utf8(self.symbol@),
                i <= bytes@.len(),
                forall|j: int| 0 <= j < i ==> symbol_byte_ok(#[trigger] bytes@[j]),
            decreases bytes@.len() - i,
        {
            let b = bytes[i];
            if b != 45 && (b < 65 || b > 90) && (b < 97 || b > 122) {
                return false;
            }
            i = i + 1;
        }
        true
    }
}

/// A state-changing request; the caller comes with it.
#[derive(Clone, Debug)]
pub enum ExecuteMsg {
    Transfer { recipient: String, amount: u128 },
    Mint { recipient: String, amount: u128 },
    Burn { amount: u128 },
    Approve { spender: String, amount: u128 },
    TransferFrom { owner: String, recipient: String, amount: u128 },
}

/// A read-only request.
#[derive(Clone, Debug)]
pub enum QueryMsg {
    Balance { address: String },
    TokenInfo {},
    Minter {},
    Allowance { owner: String, spender: String },
    AllAllowances { owner: String, start_after: Option<String>, limit: Option<u32> },
    AllSpenderAllowances { spender: String, start_after: Option<String>, limit: Option<u32> },
    AllAccounts { start_after: Option<String>, limit: Option<u32> },
}

/// What a successful state change did.
#[derive(Clone, Copy, Debug, PartialEq, Eq, Structural)]
pub enum Action {
    Instantiate,
    Transfer,
    Mint,
    Burn,
    Approve,
    TransferFrom,
}

/// The mint authority as reported to callers.
#[derive(Clone, Debug)]
pub struct MinterResponse {
    pub minter: String,
    pub cap: Option<u128>,
}

/// One allowance as reported to callers.
#[derive(Clone, Copy, Debug, PartialEq, Eq, Structural)]
pub struct AllowanceResponse {
    pub allowance: u128,
    pub expires: Expiration,
}

/// An entry of an owner's allowance listing.
#[derive(Clone, Debug)]
pub struct AllowanceInfo {
    pub spender: String,
    pub allowance: u128,
    pub expires: Expiration,
}

/// An entry of a spender's allowance listing.
#[derive(Clone, Debug)]
pub struct SpenderAllowanceInfo {
    pub owner: String,
    pub allowance: u128,
    pub expires: Expiration,
}

/// The answer to a `QueryMsg`, one variant per request kind.
#[derive(Clone, Debug)]
pub enum QueryResponse {
    Balance(u128),
    TokenInfo(TokenInfo),
    Minter(Option<MinterResponse>),
    Allowance(AllowanceResponse),
    AllAllowances(Vec<AllowanceInfo>),
    AllSpenderAllowances(Vec<SpenderAllowanceInfo>),
    AllAccounts(Vec<String>),
}

} // verus!
