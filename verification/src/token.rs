use crate::error::Failure;
use crate::identity::Identity;
use vstd::prelude::*;

verus! {

/// A token account as an instruction sees it.
#[derive(Clone, Copy, Debug, PartialEq, Eq)]
pub struct TokenAccount {
    pub key: Identity,
    /// The asset that the account holds.
    pub mint: Identity,
    pub amount: u64,
}

/// An asset and how much of it exists.
#[derive(Clone, Copy, Debug, PartialEq, Eq)]
pub struct Mint {
    pub key: Identity,
    pub supply: u64,
}

/// One request to the token module. The engine decides which requests an
/// instruction makes; whoever hosts the engine carries them out, in order, and
/// fails the instruction if one of them fails.
#[derive(Clone, Copy, Debug, PartialEq, Eq)]
pub enum TokenAction {
    /// Move `amount` from one account to another of the same asset.
    Transfer { from: Identity, to: Identity, authority: Identity, amount: u64 },
    /// Create `amount` of the asset `mint` in the account `to`.
    MintTo { mint: Identity, to: Identity, authority: Identity, amount: u64 },
    /// Destroy `amount` of the asset `mint` in the account `from`.
    Burn { mint: Identity, from: Identity, authority: Identity, amount: u64 },
}

/// What an instruction came to, with the requests it makes taken as a
/// sequence.
pub open spec fn planned(r: Result<Vec<TokenAction>, Failure>) -> Result<Seq<TokenAction>, Failure> {
    match r {
        Ok(actions) => Ok(actions@),
        Err(e) => Err(e),
    }
}

} // verus!
