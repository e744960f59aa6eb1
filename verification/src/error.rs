use vstd::prelude::*;

verus! {

/// The failures that the flash-loan engine itself raises.
#[derive(Clone, Copy, Debug, PartialEq, Eq, Structural)]
pub enum AdobeError {
    /// No later instruction of the transaction repays the pool.
    NoRepay,
    /// The first later repay to the pool is for another amount.
    IncorrectRepay,
    /// The borrow was forwarded by another program.
    CpiBorrow,
    /// The repay was forwarded by another program.
    CpiRepay,
    /// The pool already has a loan outstanding.
    Borrowing,
}

impl AdobeError {
    /// The text shown to whoever submitted the failing transaction.
    pub fn message(&self) -> (text: &'static str)
        ensures
            text@ == (match *self {
                AdobeError::NoRepay => "borrow requires an equivalent repay"@,
                AdobeError::IncorrectRepay => "repay exists but in the wrong amount"@,
                AdobeError::CpiBorrow => "cannot call borrow via cpi"@,
                AdobeError::CpiRepay => "cannot call repay via cpi"@,
                AdobeError::Borrowing => "a borrow is already in progress"@,
            }),
    {
        match self {
            AdobeError::NoRepay => "borrow requires an equivalent repay",
            AdobeError::IncorrectRepay => "repay exists but in the wrong amount",
            AdobeError::CpiBorrow => "cannot call borrow via cpi",
            AdobeError::CpiRepay => "cannot call repay via cpi",
            AdobeError::Borrowing => "a borrow is already in progress",
        }
    }
}

/// Every way in which an instruction can fail before any token moves.
#[derive(Clone, Copy, Debug, PartialEq, Eq, Structural)]
pub enum Failure {
    /// A check of the flash-loan engine failed.
    Engine(AdobeError),
    /// The global state exists already.
    AlreadyInitialized,
    /// The global state does not exist yet.
    NotInitialized,
    /// The caller is not the authority recorded in the global state.
    Unauthorized,
    /// The asset has a pool already.
    DuplicatePool,
    /// The custody account supplied is not the pool's.
    WrongCustody,
    /// The voucher asset supplied is not the pool's.
    WrongVoucher,
    /// A token account of the caller holds another asset than the pool expects.
    WrongAsset,
    /// The instruction log has no readable entry at its own current index.
    UnreadableLog,
    /// The amount due does not fit in 64 bits.
    Overflow,
}

} // verus!
