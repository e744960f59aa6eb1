use crate::error::Failure;
use crate::identity::Identity;
use crate::state::Pool;
use crate::token::planned;
use crate::token::TokenAccount;
use crate::token::TokenAction;
use vstd::prelude::*;

verus! {

/// The accounts of a deposit.
#[derive(Clone, Copy, Debug)]
pub struct Deposit {
    /// The caller, who signs for the payment.
    pub user: Identity,
    /// The address of the global state, which signs for the vouchers.
    pub state: Identity,
    /// The pool's record.
    pub pool: Pool,
    /// The custody account supplied.
    pub pool_token: Identity,
    /// The voucher asset supplied.
    pub voucher_mint: Identity,
    /// The caller's account of the underlying.
    pub user_token: TokenAccount,
    /// The caller's account of the voucher.
    pub user_voucher: TokenAccount,
}

/// The accounts of a withdrawal.
#[derive(Clone, Copy, Debug)]
pub struct Withdraw {
    /// The address of the global state, which signs for both steps.
    pub state: Identity,
    /// The pool's record.
    pub pool: Pool,
    /// The custody account supplied.
    pub pool_token: Identity,
    /// The voucher asset supplied.
    pub voucher_mint: Identity,
    /// The caller's account of the underlying.
    pub user_token: TokenAccount,
    /// The caller's account of the voucher.
    pub user_voucher: TokenAccount,
}

/// Why the accounts supplied do not fit `pool`, if they do not: the custody
/// account and the voucher asset must be the pool's, and the caller's two
/// accounts must hold the underlying and the voucher.
pub open spec fn misfit(
    pool: Pool,
    pool_token: Identity,
    voucher_mint: Identity,
    user_token: TokenAccount,
    user_voucher: TokenAccount,
) -> Option<Failure> {
    if pool_token != pool.pool_token {
        Some(Failure::WrongCustody)
    } else if voucher_mint != pool.voucher_mint {
        Some(Failure::WrongVoucher)
    } else if user_token.mint != pool.token_mint || user_voucher.mint != pool.voucher_mint {
        Some(Failure::WrongAsset)
    } else {
        None
    }
}

/// What a deposit of `amount` comes to: the caller pays `amount` of the
/// underlying into custody, then receives `amount` of the voucher, newly
/// made.
pub open spec fn deposit_outcome(ctx: Deposit, amount: u64) -> Result<Seq<TokenAction>, Failure> {
    match misfit(ctx.pool, ctx.pool_token, ctx.voucher_mint, ctx.user_token, ctx.user_voucher) {
        Some(e) => Err(e),
        None => Ok(
            seq![
                TokenAction::Transfer {
                    from: ctx.user_token.key,
                    to: ctx.pool_token,
                    authority: ctx.user,
                    amount,
                },
                TokenAction::MintTo {
                    mint: ctx.voucher_mint,
                    to: ctx.user_voucher.key,
                    authority: ctx.state,
                    amount,
                },
            ],
        ),
    }
}

/// What a withdrawal of `amount` comes to: `amount` of the caller's voucher
/// is destroyed, then custody pays the caller `amount` of the underlying.
/// Whether a loan is outstanding is not looked at.
pub open spec fn withdraw_outcome(ctx: Withdraw, amount: u64) -> Result<Seq<TokenAction>, Failure> {
    match misfit(ctx.pool, ctx.pool_token, ctx.voucher_mint, ctx.user_token, ctx.user_voucher) {
        Some(e) => Err(e),
        None => Ok(
            seq![
                TokenAction::Burn {
                    mint: ctx.voucher_mint,
                    from: ctx.user_voucher.key,
                    authority: ctx.state,
                    amount,
                },
                TokenAction::Transfer {
                    from: ctx.pool_token,
                    to: ctx.user_token.key,
                    authority: ctx.state,
                    amount,
                },
            ],
        ),
    }
}

/// Checks the accounts supplied against the pool.
fn check_accounts(
    pool: &Pool,
    pool_token: &Identity,
    voucher_mint: &Identity,
    user_token: &TokenAccount,
    user_voucher: &TokenAccount,
) -> (r: Option<Failure>)
    ensures
        r == misfit(*pool, *pool_token, *voucher_mint, *user_token, *user_voucher),
{
    if !pool_token.same(&pool.pool_token) {
        Some(Failure::WrongCustody)
    } else if !voucher_mint.same(&pool.voucher_mint) {
        Some(Failure::WrongVoucher)
    } else if !user_token.mint.same(&pool.token_mint) || !user_voucher.mint.same(
        &pool.voucher_mint,
    ) {
        Some(Failure::WrongAsset)
    } else {
        None
    }
}

/// Plans a deposit of `amount`: the payment into custody and the vouchers in
/// return, both of exactly `amount`.
pub fn deposit(ctx: &Deposit, amount: u64) -> (r: Result<Vec<TokenAction>, Failure>)
    ensures
        planned(r) == deposit_outcome(*ctx, amount),
{
    match check_accounts(
        &ctx.pool,
        &ctx.pool_token,
        &ctx.voucher_mint,
        &ctx.user_token,
        &ctx.user_voucher,
    ) {
        Some(e) => {
            return Err(e);
        },
        None => {},
    }
    let mut actions: Vec<TokenAction> = Vec::new();
    actions.push(
        TokenAction::Transfer {
            from: ctx.user_token.key,
            to: ctx.pool_token,
            authority: ctx.user,
            amount,
        },
    );
    actions.push(
        TokenAction::MintTo {
            mint: ctx.voucher_mint,
            to: ctx.user_voucher.key,
            authority: ctx.state,
            amount,
        },
    );
    proof {
        assert(actions@ =~= deposit_outcome(*ctx, amount)->Ok_0);
    }
    Ok(actions)
}

/// Plans a withdrawal of `amount`: the vouchers to destroy and the payment
/// out of custody, both of exactly `amount`.
pub fn withdraw(ctx: &Withdraw, amount: u64) -> (r: Result<Vec<TokenAction>, Failure>)
    ensures
        planned(r) == withdraw_outcome(*ctx, amount),
{
    match check_accounts(
        &ctx.pool,
        &ctx.pool_token,
        &ctx.voucher_mint,
        &ctx.user_token,
        &ctx.user_voucher,
    ) {
        Some(e) => {
            return Err(e);
        },
        None => {},
    }
    let mut actions: Vec<TokenAction> = Vec::new();
    actions.push(
        TokenAction::Burn {
            mint: ctx.voucher_mint,
            from: ctx.user_voucher.key,
            authority: ctx.state,
            amount,
        },
    );
    actions.push(
        TokenAction::Transfer {
            from: ctx.pool_token,
            to: ctx.user_token.key,
            authority: ctx.state,
            amount,
        },
    );
    proof {
        assert(actions@ =~= withdraw_outcome(*ctx, amount)->Ok_0);
    }
    Ok(actions)
}

} // verus!
