use crate::engine::borrow;
use crate::engine::borrow_outcome;
use crate::engine::repay;
use crate::engine::repay_outcome;
use crate::engine::Borrow;
use crate::engine::Repay;
use crate::error::Failure;
use crate::ledger::run;
use crate::ledger::Ledger;
use crate::ledger::LedgerView;
use crate::ledger::TokenError;
use vstd::prelude::*;

verus! {

/// Why an instruction did not happen: the engine refused it before any token
/// moved, or the token module refused one of its requests.
#[derive(Clone, Copy, Debug, PartialEq, Eq, Structural)]
pub enum Refusal {
    /// The engine refused the instruction.
    Instruction(Failure),
    /// The token module refused a request of the instruction.
    Tokens(TokenError),
}

/// What a borrow of `amount` comes to as a whole, on the pool's record and on
/// the ledger together: the record marked as lending beside the ledger after
/// the loan was paid out, or the refusal of the engine or of the token
/// module, which leaves both as they were.
pub open spec fn borrow_as_a_whole(ctx: Borrow, ledger: LedgerView, amount: u64) -> Result<
    (Borrow, LedgerView),
    Refusal,
> {
    match borrow_outcome(ctx, amount) {
        Err(e) => Err(Refusal::Instruction(e)),
        Ok(requests) => match run(ledger, requests) {
            Err(e) => Err(Refusal::Tokens(e)),
            Ok(after) => Ok((ctx.lent(), after)),
        },
    }
}

/// What a repay of `amount` comes to as a whole, on the pool's record and on
/// the ledger together: the record marked as idle beside the ledger after the
/// amount due was paid in, or the refusal of the engine or of the token
/// module, which leaves both as they were.
pub open spec fn repay_as_a_whole(ctx: Repay, ledger: LedgerView, amount: u64) -> Result<
    (Repay, LedgerView),
    Refusal,
> {
    match repay_outcome(ctx, amount) {
        Err(e) => Err(Refusal::Instruction(e)),
        Ok(requests) => match run(ledger, requests) {
            Err(e) => Err(Refusal::Tokens(e)),
            Ok(after) => Ok((ctx.settled(), after)),
        },
    }
}

/// Carries a borrow of `amount` out against `ledger`, as one instruction: the
/// loan is paid out and the pool is marked as lending, or nothing has
/// happened. Where the token module refuses the payment, the pool's record
/// is put back as it was.
pub fn borrow_atomically(ctx: &mut Borrow, ledger: &mut Ledger, amount: u64) -> (r: Result<
    (),
    Refusal,
>)
    ensures
        match r {
            Ok(()) => borrow_as_a_whole(*old(ctx), old(ledger)@, amount) == Ok::<
                (Borrow, LedgerView),
                Refusal,
            >((*final(ctx), final(ledger)@)),
            Err(e) => borrow_as_a_whole(*old(ctx), old(ledger)@, amount) == Err::<
                (Borrow, LedgerView),
                Refusal,
            >(e) && *final(ctx) == *old(ctx) && final(ledger)@ == old(ledger)@,
        },
{
    let before = ctx.pool;
    let requests = match borrow(ctx, amount) {
        Ok(requests) => requests,
        Err(e) => {
            return Err(Refusal::Instruction(e));
        },
    };
    match ledger.execute(&requests) {
        Ok(()) => Ok(()),
        Err(e) => {
            ctx.pool = before;
            Err(Refusal::Tokens(e))
        },
    }
}

/// Carries a repay of `amount` out against `ledger`, as one instruction: the
/// amount due is paid in and the pool is marked as idle, or nothing has
/// happened. Where the token module refuses the payment, the pool's record
/// is put back as it was.
pub fn repay_atomically(ctx: &mut Repay, ledger: &mut Ledger, amount: u64) -> (r: Result<
    (),
    Refusal,
>)
    ensures
        match r {
            Ok(()) => repay_as_a_whole(*old(ctx), old(ledger)@, amount) == Ok::<
                (Repay, LedgerView),
                Refusal,
            >((*final(ctx), final(ledger)@)),
            Err(e) => repay_as_a_whole(*old(ctx), old(ledger)@, amount) == Err::<
                (Repay, LedgerView),
                Refusal,
            >(e) && *final(ctx) == *old(ctx) && final(ledger)@ == old(ledger)@,
        },
{
    let before = ctx.pool;
    let requests = match repay(ctx, amount) {
        Ok(requests) => requests,
        Err(e) => {
            return Err(Refusal::Instruction(e));
        },
    };
    match ledger.execute(&requests) {
        Ok(()) => Ok(()),
        Err(e) => {
            ctx.pool = before;
            Err(Refusal::Tokens(e))
        },
    }
}

} // verus!
