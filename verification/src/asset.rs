//! The assets a pool holds.

use vstd::prelude::*;

verus! {

/// What kind of asset an amount is of.
#[derive(Debug, PartialEq, Eq)]
pub enum AssetInfo {
    /// A fungible token, known by the address of its contract.
    Token { contract_addr: String, token_code_hash: String, viewing_key: String },
    /// The chain's native currency of the given denomination.
    NativeToken { denom: String },
}

impl AssetInfo {
    /// Whether two descriptions name the same asset: two tokens with the same
    /// contract address, or two native currencies with the same denomination.
    pub open spec fn same_asset(self, other: AssetInfo) -> bool {
        match (self, other) {
            (
                AssetInfo::Token { contract_addr, .. },
                AssetInfo::Token { contract_addr: other_addr, .. },
            ) => contract_addr@ == other_addr@,
            (
                AssetInfo::NativeToken { denom },
                AssetInfo::NativeToken { denom: other_denom },
            ) => denom@ == other_denom@,
            _ => false,
        }
    }

    /// Whether `self` and `other` name the same asset.
    pub fn equal(&self, other: &AssetInfo) -> (r: bool)
        ensures
            r == self.same_asset(*other),
    {
        match self {
            AssetInfo::Token { contract_addr, .. } => match other {
                AssetInfo::Token { contract_addr: other_addr, .. } => *contract_addr
                    == *other_addr,
                AssetInfo::NativeToken { .. } => false,
            },
            AssetInfo::NativeToken { denom } => match other {
                AssetInfo::Token { .. } => false,
                AssetInfo::NativeToken { denom: other_denom } => *denom == *other_denom,
            },
        }
    }

    /// Whether the asset is a native currency.
    pub fn is_native_token(&self) -> (r: bool)
        ensures
            r == (*self is NativeToken),
    {
        match self {
            AssetInfo::Token { .. } => false,
            AssetInfo::NativeToken { .. } => true,
        }
    }
}

impl Clone for AssetInfo {
    fn clone(&self) -> (r: Self)
        ensures
            r == *self,
    {
        match self {
            AssetInfo::Token { contract_addr, token_code_hash, viewing_key } => AssetInfo::Token {
                contract_addr: contract_addr.clone(),
                token_code_hash: token_code_hash.clone(),
                viewing_key: viewing_key.clone(),
            },
            AssetInfo::NativeToken { denom } => AssetInfo::NativeToken { denom: denom.clone() },
        }
    }
}

/// An amount of one asset, in the asset's smallest unit.
#[derive(Debug, PartialEq, Eq)]
pub struct Asset {
    pub info: AssetInfo,
    pub amount: u128,
}

impl Clone for Asset {
    fn clone(&self) -> (r: Self)
        ensures
            r == *self,
    {
        Asset { info: self.info.clone(), amount: self.amount }
    }
}

impl Asset {
    /// The same asset in another amount.
    pub fn with_amount(&self, amount: u128) -> (r: Asset)
        ensures
            r.info == self.info,
            r.amount == amount,
    {
        Asset { info: self.info.clone(), amount }
    }
}

} // verus!
