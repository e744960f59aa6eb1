use crate::atomic::borrow_as_a_whole;
use crate::atomic::repay_as_a_whole;
use crate::atomic::Refusal;
use crate::engine::borrow_outcome;
use crate::engine::fee_of;
use crate::engine::invoker_of;
use crate::engine::is_repay_to;
use crate::engine::payable;
use crate::engine::repay_outcome;
use crate::engine::repay_search;
use crate::engine::sighting_of;
use crate::engine::total_due;
use crate::engine::Borrow;
use crate::engine::Repay;
use crate::engine::Sighting;
use crate::engine::BASIS;
use crate::error::AdobeError;
use crate::error::Failure;
use crate::identity::Identity;
use crate::ledger::effect_of;
use crate::ledger::run;
use crate::ledger::LedgerView;
use crate::ledger::TokenError;
use crate::log::current_index_of;
use crate::log::logged_instruction;
use crate::registry::add_pool_outcome;
use crate::registry::has_pool;
use crate::registry::set_fee_outcome;
use crate::registry::AddPool;
use crate::registry::RegistryView;
use crate::registry::SetFee;
use crate::state::Pool;
use crate::token::TokenAction;
use crate::vault::deposit_outcome;
use crate::vault::misfit;
use crate::vault::withdraw_outcome;
use crate::vault::Deposit;
use crate::vault::Withdraw;
use crate::wire::payload_of;
use crate::wire::Payload;
use vstd::prelude::*;

verus! {

/// What the instruction at position `at` of the log is to a borrow of
/// `amount` from `pool`; `None` where the log has no readable entry there.
/// `Matching` is a top-level repay of `amount` to `pool`.
pub open spec fn sighting_at(
    log: Seq<u8>,
    at: int,
    program: Identity,
    pool: Identity,
    amount: u64,
) -> Option<Sighting> {
    match logged_instruction(log, at) {
        Some(ix) => Some(sighting_of(ix, program, pool, amount)),
        None => None,
    }
}

/// Whether the log has nothing to read at position `at`: an index held in
/// sixteen bits does not reach it, or no entry stands there.
pub open spec fn ends_at(log: Seq<u8>, at: int) -> bool {
    at >= 0xffff || logged_instruction(log, at) is None
}

/// Whether every position of the log from `from` up to, not including, `to`
/// holds a readable instruction that is no repay to `pool`.
pub open spec fn unrelated_between(
    log: Seq<u8>,
    from: int,
    to: int,
    program: Identity,
    pool: Identity,
    amount: u64,
) -> bool {
    forall|k: int|
        from <= k < to ==> #[trigger] sighting_at(log, k, program, pool, amount) == Some(
            Sighting::Unrelated,
        )
}

/// The first repay to the pool decides a search. It ends at a position with
/// only unrelated instructions before it: on a repay of the amount, which is
/// found; on a repay of another amount, which is `IncorrectRepay`; or on the
/// end of the log, which is `NoRepay`.
pub proof fn lemma_first_repay_decides(
    log: Seq<u8>,
    from: int,
    program: Identity,
    pool: Identity,
    amount: u64,
)
    ensures
        match repay_search(log, from, program, pool, amount) {
            Ok(at) => {
                &&& from <= at < 0xffff
                &&& unrelated_between(log, from, at, program, pool, amount)
                &&& sighting_at(log, at, program, pool, amount) == Some(Sighting::Matching)
            },
            Err(AdobeError::IncorrectRepay) => exists|at: int|
                {
                    &&& from <= at < 0xffff
                    &&& unrelated_between(log, from, at, program, pool, amount)
                    &&& #[trigger] sighting_at(log, at, program, pool, amount) == Some(
                        Sighting::Mismatched,
                    )
                },
            Err(AdobeError::NoRepay) => exists|end: int|
                {
                    &&& from <= end
                    &&& unrelated_between(log, from, end, program, pool, amount)
                    &&& #[trigger] ends_at(log, end)
                },
            Err(_) => false,
        },
    decreases 0xffff - from,
{
    if from >= 0xffff {
        assert(unrelated_between(log, from, from, program, pool, amount));
        assert(ends_at(log, from));
    } else {
        match sighting_at(log, from, program, pool, amount) {
            None => {
                assert(unrelated_between(log, from, from, program, pool, amount));
                assert(ends_at(log, from));
            },
            Some(Sighting::Matching) => {},
            Some(Sighting::Mismatched) => {
                assert(unrelated_between(log, from, from, program, pool, amount));
                assert(sighting_at(log, from, program, pool, amount) == Some(Sighting::Mismatched));
            },
            Some(Sighting::Unrelated) => {
                lemma_first_repay_decides(log, from + 1, program, pool, amount);
                match repay_search(log, from + 1, program, pool, amount) {
                    Ok(at) => {
                        assert(unrelated_between(log, from, at, program, pool, amount));
                    },
                    Err(AdobeError::IncorrectRepay) => {
                        let at = choose|at: int|
                            {
                                &&& from + 1 <= at < 0xffff
                                &&& unrelated_between(log, from + 1, at, program, pool, amount)
                                &&& #[trigger] sighting_at(log, at, program, pool, amount) == Some(
                                    Sighting::Mismatched,
                                )
                            };
                        assert(unrelated_between(log, from, at, program, pool, amount));
                    },
                    Err(AdobeError::NoRepay) => {
                        let end = choose|end: int|
                            {
                                &&& from + 1 <= end
                                &&& unrelated_between(log, from + 1, end, program, pool, amount)
                                &&& #[trigger] ends_at(log, end)
                            };
                        assert(unrelated_between(log, from, end, program, pool, amount));
                    },
                    Err(_) => {},
                }
            },
        }
    }
}

/// A borrow passes only where a later instruction of the same transaction is
/// a top-level repay of the same amount to the same pool. Where the accounts
/// fit, no loan is out and the call is not forwarded, a borrow that does not
/// pass fails with `NoRepay` or with `IncorrectRepay`.
pub proof fn law_borrow_needs_repay(ctx: Borrow, amount: u64)
    ensures
        borrow_outcome(ctx, amount) is Ok ==> exists|at: int|
            {
                &&& at > current_index_of(ctx.instructions@)
                &&& #[trigger] sighting_at(
                    ctx.instructions@,
                    at,
                    ctx.program_id,
                    ctx.pool_key,
                    amount,
                ) == Some(Sighting::Matching)
            },
        ctx.pool_token == ctx.pool.pool_token && ctx.user_token.mint == ctx.pool.token_mint
            && !ctx.pool.borrowing && invoker_of(ctx.instructions@) == Some(ctx.program_id) ==> {
            ||| borrow_outcome(ctx, amount) is Ok
            ||| borrow_outcome(ctx, amount) == Err::<Seq<TokenAction>, Failure>(
                Failure::Engine(AdobeError::NoRepay),
            )
            ||| borrow_outcome(ctx, amount) == Err::<Seq<TokenAction>, Failure>(
                Failure::Engine(AdobeError::IncorrectRepay),
            )
        },
{
    lemma_first_repay_decides(
        ctx.instructions@,
        current_index_of(ctx.instructions@) + 1,
        ctx.program_id,
        ctx.pool_key,
        amount,
    );
    if borrow_outcome(ctx, amount) is Ok {
        let at = ctx.repay_position(amount)->Ok_0;
        assert(sighting_at(ctx.instructions@, at, ctx.program_id, ctx.pool_key, amount) == Some(
            Sighting::Matching,
        ));
    }
}

/// After a borrow has passed, every further borrow from the same pool fails
/// with `Borrowing`, whatever it asks for and whatever the rest of the
/// transaction holds, until a repay has passed.
pub proof fn law_second_borrow_refused(first: Borrow, amount: u64, second: Borrow, again: u64)
    requires
        borrow_outcome(first, amount) is Ok,
        second.pool == first.lent().pool,
        second.pool_token == second.pool.pool_token,
        second.user_token.mint == second.pool.token_mint,
    ensures
        borrow_outcome(second, again) == Err::<Seq<TokenAction>, Failure>(
            Failure::Engine(AdobeError::Borrowing),
        ),
{
}

/// A borrow that another program forwarded fails with `CpiBorrow`, and a
/// repay that another program forwarded fails with `CpiRepay`, whatever the
/// amount and whatever follows in the transaction. This is said of accounts
/// that fit the pool and, for the borrow, of a pool without a loan: the
/// checks of those come first.
pub proof fn law_forwarded_calls_refused(b: Borrow, r: Repay, forwarder: Identity, amount: u64)
    requires
        b.pool_token == b.pool.pool_token,
        b.user_token.mint == b.pool.token_mint,
        !b.pool.borrowing,
        invoker_of(b.instructions@) == Some(forwarder),
        forwarder != b.program_id,
        r.pool_token == r.pool.pool_token,
        r.user_token.mint == r.pool.token_mint,
        invoker_of(r.instructions@) == Some(forwarder),
        forwarder != r.program_id,
    ensures
        borrow_outcome(b, amount) == Err::<Seq<TokenAction>, Failure>(
            Failure::Engine(AdobeError::CpiBorrow),
        ),
        repay_outcome(r, amount) == Err::<Seq<TokenAction>, Failure>(
            Failure::Engine(AdobeError::CpiRepay),
        ),
{
}

/// A change of fee is the authority's alone, and it is prospective: the pools
/// that exist keep the fee they were created with, and a pool added after the
/// change carries the new fee.
pub proof fn law_fee_is_prospective(
    before: RegistryView,
    ctx: SetFee,
    fee_bps: u16,
    next: AddPool,
    pool_bump: u8,
)
    ensures
        (before.state matches Some(state) && ctx.authority != state.authority)
            ==> set_fee_outcome(before, ctx, fee_bps) == Err::<RegistryView, Failure>(
            Failure::Unauthorized,
        ),
        set_fee_outcome(before, ctx, fee_bps) matches Ok(changed) ==> {
            &&& before.state matches Some(state) && ctx.authority == state.authority
            &&& changed.pools == before.pools
            &&& add_pool_outcome(changed, next, pool_bump) matches Ok(grown) ==> {
                &&& grown.pools.len() == before.pools.len() + 1
                &&& grown.pools.last().fee_bps == fee_bps
                &&& grown.pools.last().token_mint == next.token_mint
                &&& grown.pools.drop_last() == before.pools
            }
        },
{
    if set_fee_outcome(before, ctx, fee_bps) is Ok {
        let changed = set_fee_outcome(before, ctx, fee_bps)->Ok_0;
        if add_pool_outcome(changed, next, pool_bump) is Ok {
            let grown = add_pool_outcome(changed, next, pool_bump)->Ok_0;
            assert(grown.pools.drop_last() =~= before.pools);
        }
    }
}

/// Once an asset has a pool, no second pool can be added for it.
pub proof fn law_one_pool_per_asset(
    before: RegistryView,
    first: AddPool,
    first_bump: u8,
    second: AddPool,
    second_bump: u8,
)
    requires
        add_pool_outcome(before, first, first_bump) is Ok,
        second.token_mint == first.token_mint,
    ensures
        add_pool_outcome(before, first, first_bump)->Ok_0.state == before.state,
        add_pool_outcome(add_pool_outcome(before, first, first_bump)->Ok_0, second, second_bump)
            is Err,
        second.authority == first.authority ==> add_pool_outcome(
            add_pool_outcome(before, first, first_bump)->Ok_0,
            second,
            second_bump,
        ) == Err::<RegistryView, Failure>(Failure::DuplicatePool),
{
    let after = add_pool_outcome(before, first, first_bump)->Ok_0;
    assert(after.pools[before.pools.len() as int].token_mint == first.token_mint);
    assert(has_pool(after.pools, second.token_mint));
}

/// What the request of a one-step instruction comes to.
pub proof fn lemma_run_one(l: LedgerView, a: TokenAction)
    ensures
        run(l, seq![a]) == effect_of(l, a),
{
    assert(seq![a][0] == a);
    assert(seq![a].drop_first() =~= Seq::<TokenAction>::empty());
    if effect_of(l, a) is Ok {
        let next = effect_of(l, a)->Ok_0;
        assert(run(next, Seq::<TokenAction>::empty()) == Ok::<LedgerView, TokenError>(next));
    }
}

/// What the requests of a two-step instruction come to.
pub proof fn lemma_run_pair(l: LedgerView, a: TokenAction, b: TokenAction)
    ensures
        run(l, seq![a, b]) == (match effect_of(l, a) {
            Err(e) => Err::<LedgerView, TokenError>(e),
            Ok(next) => effect_of(next, b),
        }),
{
    let both = seq![a, b];
    assert(both[0] == a);
    assert(both.drop_first() =~= seq![b]);
    assert(seq![b][0] == b);
    assert(seq![b].drop_first() =~= Seq::<TokenAction>::empty());
    if effect_of(l, a) is Ok {
        let next = effect_of(l, a)->Ok_0;
        assert(run(next, seq![b]) == effect_of(next, b)) by {
            if effect_of(next, b) is Ok {
                let last = effect_of(next, b)->Ok_0;
                assert(run(last, Seq::<TokenAction>::empty()) == Ok::<LedgerView, TokenError>(last));
            }
        }
    }
}

/// The accounts of the withdrawal that undoes the deposit `d`.
pub open spec fn withdrawal_for(d: Deposit) -> Withdraw {
    Withdraw {
        state: d.state,
        pool: d.pool,
        pool_token: d.pool_token,
        voucher_mint: d.voucher_mint,
        user_token: d.user_token,
        user_voucher: d.user_voucher,
    }
}

/// A deposit that went through, followed by a withdrawal of the same amount
/// by the same caller, leaves every balance and every supply as they were
/// before the deposit: the caller's underlying is restored and the voucher
/// supply is unchanged. In between, the voucher supply stands higher by
/// exactly the amount.
pub proof fn law_deposit_withdraw_round_trip(before: LedgerView, d: Deposit, amount: u64)
    requires
        amount > 0,
        deposit_outcome(d, amount) is Ok,
        run(before, deposit_outcome(d, amount)->Ok_0) is Ok,
    ensures
        withdraw_outcome(withdrawal_for(d), amount) is Ok,
        run(before, deposit_outcome(d, amount)->Ok_0)->Ok_0.mints[d.voucher_mint].supply
            == before.mints[d.voucher_mint].supply + amount,
        run(
            run(before, deposit_outcome(d, amount)->Ok_0)->Ok_0,
            withdraw_outcome(withdrawal_for(d), amount)->Ok_0,
        ) == Ok::<LedgerView, TokenError>(before),
{
    let w = withdrawal_for(d);
    let pay = TokenAction::Transfer {
        from: d.user_token.key,
        to: d.pool_token,
        authority: d.user,
        amount,
    };
    let make = TokenAction::MintTo {
        mint: d.voucher_mint,
        to: d.user_voucher.key,
        authority: d.state,
        amount,
    };
    let destroy = TokenAction::Burn {
        mint: d.voucher_mint,
        from: d.user_voucher.key,
        authority: d.state,
        amount,
    };
    let pay_back = TokenAction::Transfer {
        from: d.pool_token,
        to: d.user_token.key,
        authority: d.state,
        amount,
    };
    assert(deposit_outcome(d, amount)->Ok_0 =~= seq![pay, make]);
    assert(withdraw_outcome(w, amount)->Ok_0 =~= seq![destroy, pay_back]);
    lemma_run_pair(before, pay, make);
    let paid = effect_of(before, pay)->Ok_0;
    let deposited = effect_of(paid, make)->Ok_0;
    lemma_run_pair(deposited, destroy, pay_back);
    let destroyed = effect_of(deposited, destroy)->Ok_0;
    assert(effect_of(deposited, destroy) is Ok);
    assert(destroyed.mints =~= before.mints);
    assert(destroyed.accounts =~= paid.accounts);
    assert(effect_of(destroyed, pay_back) is Ok);
    let restored = effect_of(destroyed, pay_back)->Ok_0;
    assert(restored.accounts =~= before.accounts);
}

/// The voucher supply follows the deposits and the withdrawals, one for one:
/// a deposit that goes through raises it by exactly the amount paid into
/// custody, and a withdrawal that goes through lowers it by exactly the
/// amount paid out.
pub proof fn law_vouchers_track_deposits(before: LedgerView, d: Deposit, w: Withdraw, amount: u64)
    ensures
        deposit_outcome(d, amount) matches Ok(actions) ==> (run(before, actions) matches Ok(after)
            ==> after.mints[d.voucher_mint].supply == before.mints[d.voucher_mint].supply + amount),
        withdraw_outcome(w, amount) matches Ok(actions) ==> (run(before, actions) matches Ok(after)
            ==> after.mints[w.voucher_mint].supply == before.mints[w.voucher_mint].supply - amount),
{
    if deposit_outcome(d, amount) is Ok {
        let pay = TokenAction::Transfer {
            from: d.user_token.key,
            to: d.pool_token,
            authority: d.user,
            amount,
        };
        let make = TokenAction::MintTo {
            mint: d.voucher_mint,
            to: d.user_voucher.key,
            authority: d.state,
            amount,
        };
        assert(deposit_outcome(d, amount)->Ok_0 =~= seq![pay, make]);
        lemma_run_pair(before, pay, make);
    }
    if withdraw_outcome(w, amount) is Ok {
        let destroy = TokenAction::Burn {
            mint: w.voucher_mint,
            from: w.user_voucher.key,
            authority: w.state,
            amount,
        };
        let pay_back = TokenAction::Transfer {
            from: w.pool_token,
            to: w.user_token.key,
            authority: w.state,
            amount,
        };
        assert(withdraw_outcome(w, amount)->Ok_0 =~= seq![destroy, pay_back]);
        lemma_run_pair(before, destroy, pay_back);
    }
}

/// A withdrawal does not look at whether a loan is out. Where the caller
/// holds the vouchers and has room for the underlying, it goes through
/// exactly if custody still holds the amount.
pub proof fn law_withdraw_during_loan(l: LedgerView, w: Withdraw, amount: u64)
    requires
        misfit(w.pool, w.pool_token, w.voucher_mint, w.user_token, w.user_voucher) is None,
        l.mints.dom().contains(w.voucher_mint),
        l.accounts.dom().contains(w.user_voucher.key),
        l.accounts.dom().contains(w.user_token.key),
        l.accounts.dom().contains(w.pool_token),
        l.accounts[w.user_voucher.key].mint == w.voucher_mint,
        l.accounts[w.user_token.key].mint == l.accounts[w.pool_token].mint,
        w.user_voucher.key != w.pool_token,
        w.user_voucher.key != w.user_token.key,
        l.accounts[w.user_voucher.key].amount >= amount,
        l.mints[w.voucher_mint].supply >= amount,
        l.accounts[w.user_token.key].amount + amount <= u64::MAX,
    ensures
        withdraw_outcome(w, amount) is Ok,
        withdraw_outcome(w, amount) == withdraw_outcome(
            Withdraw { pool: Pool { borrowing: !w.pool.borrowing, ..w.pool }, ..w },
            amount,
        ),
        run(l, withdraw_outcome(w, amount)->Ok_0) is Ok <==> l.accounts[w.pool_token].amount
            >= amount,
        l.accounts[w.pool_token].amount < amount ==> run(l, withdraw_outcome(w, amount)->Ok_0)
            == Err::<LedgerView, TokenError>(TokenError::InsufficientFunds),
{
    let destroy = TokenAction::Burn {
        mint: w.voucher_mint,
        from: w.user_voucher.key,
        authority: w.state,
        amount,
    };
    let pay_back = TokenAction::Transfer {
        from: w.pool_token,
        to: w.user_token.key,
        authority: w.state,
        amount,
    };
    assert(withdraw_outcome(w, amount)->Ok_0 =~= seq![destroy, pay_back]);
    lemma_run_pair(l, destroy, pay_back);
}

/// A fee within the intended range, of at most 10000 basis points, is never
/// more than the amount it is charged on.
pub proof fn lemma_fee_within_amount(amount: u64, fee_bps: u16)
    requires
        fee_bps <= BASIS,
    ensures
        0 <= fee_of(amount, fee_bps) <= amount,
        amount <= total_due(amount, fee_bps) <= 2 * amount,
{
    let a = amount as int;
    let f = fee_bps as int;
    assert(0 <= a * f <= a * 10000) by (nonlinear_arith)
        requires
            0 <= a,
            0 <= f <= 10000,
    ;
    assert(0 <= (a * f) / 10000 <= a) by (nonlinear_arith)
        requires
            0 <= a * f <= a * 10000,
    ;
}

/// A loan runs its course: a borrow that passes marks the pool as lending, a
/// repay that passes marks it as idle, and the pool's record is then what it
/// was before the borrow.
pub proof fn law_loan_cycle(b: Borrow, amount: u64, r: Repay, repaid: u64)
    requires
        borrow_outcome(b, amount) is Ok,
        r.pool == b.lent().pool,
        repay_outcome(r, repaid) is Ok,
    ensures
        !b.pool.borrowing,
        b.lent().pool.borrowing,
        r.settled().pool == b.pool,
{
}

/// A flash loan costs the borrower the fee and nothing else, and custody
/// gains it: where the requests of a borrow and of the repay of the same
/// amount are both carried out, between an account of the borrower and the
/// custody account, custody ends higher and the borrower lower by exactly
/// the pool's fee on the amount.
pub proof fn law_flash_loan_pays_the_fee(before: LedgerView, b: Borrow, r: Repay, amount: u64)
    requires
        borrow_outcome(b, amount) is Ok,
        repay_outcome(r, amount) is Ok,
        r.pool == b.lent().pool,
        r.pool_token == b.pool_token,
        r.user_token.key == b.user_token.key,
        b.user_token.key != b.pool_token,
        run(before, borrow_outcome(b, amount)->Ok_0) is Ok,
        run(
            run(before, borrow_outcome(b, amount)->Ok_0)->Ok_0,
            repay_outcome(r, amount)->Ok_0,
        ) is Ok,
    ensures
        ({
            let lent = run(before, borrow_outcome(b, amount)->Ok_0)->Ok_0;
            let after = run(lent, repay_outcome(r, amount)->Ok_0)->Ok_0;
            let fee = fee_of(amount, b.pool.fee_bps);
            &&& lent.accounts[b.pool_token].amount == before.accounts[b.pool_token].amount
                - amount
            &&& after.accounts[b.pool_token].amount == before.accounts[b.pool_token].amount + fee
            &&& after.accounts[b.user_token.key].amount == before.accounts[b.user_token.key].amount
                - fee
            &&& after.mints == before.mints
        }),
{
    let lend = TokenAction::Transfer {
        from: b.pool_token,
        to: b.user_token.key,
        authority: b.state,
        amount,
    };
    let pay = TokenAction::Transfer {
        from: r.user_token.key,
        to: r.pool_token,
        authority: r.user,
        amount: total_due(amount, r.pool.fee_bps) as u64,
    };
    assert(borrow_outcome(b, amount)->Ok_0 =~= seq![lend]);
    assert(repay_outcome(r, amount)->Ok_0 =~= seq![pay]);
    lemma_run_one(before, lend);
    let lent = effect_of(before, lend)->Ok_0;
    lemma_run_one(lent, pay);
}

/// At no fee a repay owes the amount, and at 10000 basis points twice the
/// amount; what bounds a repay is the amount due alone, not the product of
/// amount and rate.
pub proof fn lemma_fee_at_the_ends(amount: u64)
    ensures
        total_due(amount, 0) == amount,
        total_due(amount, 10000) == 2 * amount,
        payable(amount, 0),
        payable(amount, 10000) <==> 2 * amount <= u64::MAX,
{
    let a = amount as int;
    assert(a * 0 == 0) by (nonlinear_arith);
    assert((a * 10000) / 10000 == a) by (nonlinear_arith);
}

/// A loan that custody cannot cover does not happen: the engine plans it, the
/// token module refuses the payment, and pool and ledger are as they were.
/// The same holds of a repay that the caller cannot cover: the pool's flag is
/// not reset.
pub proof fn law_refused_payment_leaves_no_trace(
    ledger: LedgerView,
    b: Borrow,
    r: Repay,
    amount: u64,
)
    ensures
        (borrow_outcome(b, amount) is Ok && ledger.accounts.dom().contains(b.pool_token)
            && ledger.accounts.dom().contains(b.user_token.key)
            && ledger.accounts[b.pool_token].amount < amount) ==> borrow_as_a_whole(
            b,
            ledger,
            amount,
        ) == Err::<(Borrow, LedgerView), Refusal>(Refusal::Tokens(TokenError::InsufficientFunds)),
        (repay_outcome(r, amount) is Ok && ledger.accounts.dom().contains(r.pool_token)
            && ledger.accounts.dom().contains(r.user_token.key)
            && ledger.accounts[r.user_token.key].amount < total_due(amount, r.pool.fee_bps))
            ==> repay_as_a_whole(r, ledger, amount) == Err::<(Repay, LedgerView), Refusal>(
            Refusal::Tokens(TokenError::InsufficientFunds),
        ),
        borrow_as_a_whole(b, ledger, amount) matches Ok(done) ==> done.0 == b.lent() && run(
            ledger,
            borrow_outcome(b, amount)->Ok_0,
        ) == Ok::<LedgerView, TokenError>(done.1),
        repay_as_a_whole(r, ledger, amount) matches Ok(done) ==> done.0 == r.settled() && run(
            ledger,
            repay_outcome(r, amount)->Ok_0,
        ) == Ok::<LedgerView, TokenError>(done.1),
{
    if borrow_outcome(b, amount) is Ok {
        let lend = TokenAction::Transfer {
            from: b.pool_token,
            to: b.user_token.key,
            authority: b.state,
            amount,
        };
        assert(borrow_outcome(b, amount)->Ok_0 =~= seq![lend]);
        lemma_run_one(ledger, lend);
    }
    if repay_outcome(r, amount) is Ok {
        let pay = TokenAction::Transfer {
            from: r.user_token.key,
            to: r.pool_token,
            authority: r.user,
            amount: total_due(amount, r.pool.fee_bps) as u64,
        };
        assert(repay_outcome(r, amount)->Ok_0 =~= seq![pay]);
        lemma_run_one(ledger, pay);
    }
}

/// A repay that was not forwarded, whose amount due fits in 64 bits and is
/// covered by the caller, goes through whatever the product of amount and
/// rate comes to: the caller pays exactly the amount due into custody and the
/// pool is idle.
pub proof fn law_covered_repay_goes_through(ledger: LedgerView, r: Repay, amount: u64)
    requires
        r.pool_token == r.pool.pool_token,
        r.user_token.mint == r.pool.token_mint,
        invoker_of(r.instructions@) == Some(r.program_id),
        total_due(amount, r.pool.fee_bps) <= u64::MAX,
        ledger.accounts.dom().contains(r.pool_token),
        ledger.accounts.dom().contains(r.user_token.key),
        ledger.accounts[r.user_token.key].mint == ledger.accounts[r.pool_token].mint,
        r.user_token.key != r.pool_token,
        ledger.accounts[r.user_token.key].amount >= total_due(amount, r.pool.fee_bps),
        ledger.accounts[r.pool_token].amount + total_due(amount, r.pool.fee_bps) <= u64::MAX,
    ensures
        repay_as_a_whole(r, ledger, amount) is Ok,
        ({
            let done = repay_as_a_whole(r, ledger, amount)->Ok_0;
            let due = total_due(amount, r.pool.fee_bps);
            &&& done.0 == r.settled()
            &&& !done.0.pool.borrowing
            &&& done.1.accounts[r.pool_token].amount == ledger.accounts[r.pool_token].amount + due
            &&& done.1.accounts[r.user_token.key].amount == ledger.accounts[r.user_token.key].amount
                - due
            &&& done.1.mints == ledger.mints
        }),
{
    let pay = TokenAction::Transfer {
        from: r.user_token.key,
        to: r.pool_token,
        authority: r.user,
        amount: total_due(amount, r.pool.fee_bps) as u64,
    };
    assert(repay_outcome(r, amount)->Ok_0 =~= seq![pay]);
    lemma_run_one(ledger, pay);
}

} // verus!
