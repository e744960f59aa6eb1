use crate::error::AdobeError;
use crate::error::Failure;
use crate::identity::Identity;
use crate::log::current_index_of;
use crate::log::logged_instruction;
use crate::log::Instruction;
use crate::log::InstructionLog;
use crate::log::InstructionView;
use crate::state::Pool;
use crate::token::planned;
use crate::token::TokenAccount;
use crate::token::TokenAction;
use crate::wire::decode;
use crate::wire::payload_of;
use crate::wire::Payload;
use vstd::prelude::*;

verus! {

/// Where, among the accounts of a repay instruction, the pool stands.
pub const POOL_SLOT: usize = 2;

/// What a fee in basis points is a fraction of.
pub const BASIS: u64 = 10000;

/// What one later instruction of the transaction is to a borrow from `pool`.
#[derive(Clone, Copy, Debug, PartialEq, Eq, Structural)]
pub enum Sighting {
    /// Not a repay to the pool.
    Unrelated,
    /// A repay to the pool, but not of the amount borrowed.
    Mismatched,
    /// A repay to the pool of the amount borrowed.
    Matching,
}

/// Whether `ix` is a top-level repay, under `program`, to `pool`.
pub open spec fn is_repay_to(ix: InstructionView, program: Identity, pool: Identity) -> bool {
    &&& ix.program_id == program
    &&& payload_of(ix.data) != Payload::Other
    &&& ix.accounts.len() > POOL_SLOT
    &&& ix.accounts[POOL_SLOT as int] == pool
}

/// What `ix` is to a borrow of `amount` from `pool`.
pub open spec fn sighting_of(
    ix: InstructionView,
    program: Identity,
    pool: Identity,
    amount: u64,
) -> Sighting {
    if !is_repay_to(ix, program, pool) {
        Sighting::Unrelated
    } else if payload_of(ix.data) == (Payload::Repay { amount }) {
        Sighting::Matching
    } else {
        Sighting::Mismatched
    }
}

/// Classifies one entry of the instruction log for a borrow of `amount` from
/// `pool` by the engine that runs as `program`.
pub fn examine(ix: &Instruction, program: &Identity, pool: &Identity, amount: u64) -> (s: Sighting)
    ensures
        s == sighting_of(ix@, *program, *pool, amount),
{
    if !ix.program_id.same(program) {
        return Sighting::Unrelated;
    }
    if ix.accounts.len() <= POOL_SLOT || !ix.accounts[POOL_SLOT].same(pool) {
        return Sighting::Unrelated;
    }
    match decode(ix.data.as_slice()) {
        Payload::Other => Sighting::Unrelated,
        Payload::Truncated => Sighting::Mismatched,
        Payload::Repay { amount: repaid } => {
            if repaid == amount {
                Sighting::Matching
            } else {
                Sighting::Mismatched
            }
        },
    }
}

/// The outcome of looking for a repay from position `from` of the log on:
/// the position of the first repay to `pool` if it is of `amount`,
/// `IncorrectRepay` if it is of another amount, `NoRepay` if the log ends
/// first.
pub open spec fn repay_search(
    log: Seq<u8>,
    from: int,
    program: Identity,
    pool: Identity,
    amount: u64,
) -> Result<int, AdobeError>
    decreases 0xffff - from,
{
    if from >= 0xffff {
        Err(AdobeError::NoRepay)
    } else {
        match logged_instruction(log, from) {
            None => Err(AdobeError::NoRepay),
            Some(ix) => match sighting_of(ix, program, pool, amount) {
                Sighting::Matching => Ok(from),
                Sighting::Mismatched => Err(AdobeError::IncorrectRepay),
                Sighting::Unrelated => repay_search(log, from + 1, program, pool, amount),
            },
        }
    }
}

/// Looks through the log, from position `from` on, for the repay that a
/// borrow of `amount` from `pool` needs. The first repay to the pool decides.
pub fn find_repay(
    log: &InstructionLog,
    from: usize,
    program: &Identity,
    pool: &Identity,
    amount: u64,
) -> (r: Result<usize, AdobeError>)
    ensures
        match r {
            Ok(at) => repay_search(log@, from as int, *program, *pool, amount) == Ok::<
                int,
                AdobeError,
            >(at as int),
            Err(e) => repay_search(log@, from as int, *program, *pool, amount) == Err::<
                int,
                AdobeError,
            >(e),
        },
{
    let mut i: usize = from;
    loop
        invariant
            from <= i,
            repay_search(log@, i as int, *program, *pool, amount) == repay_search(
                log@,
                from as int,
                *program,
                *pool,
                amount,
            ),
        decreases 0xffff - i,
    {
        match log.instruction_at(i) {
            None => {
                return Err(AdobeError::NoRepay);
            },
            Some(ix) => {
                match examine(&ix, program, pool, amount) {
                    Sighting::Matching => {
                        return Ok(i);
                    },
                    Sighting::Mismatched => {
                        return Err(AdobeError::IncorrectRepay);
                    },
                    Sighting::Unrelated => {
                        i = i + 1;
                    },
                }
            },
        }
    }
}

/// The program that the runtime recorded as invoked at the log's own current
/// position; `None` where the log has no readable entry there.
pub open spec fn invoker_of(log: Seq<u8>) -> Option<Identity> {
    match logged_instruction(log, current_index_of(log)) {
        Some(ix) => Some(ix.program_id),
        None => None,
    }
}

/// Reads from the log which program the executing instruction was addressed to.
pub fn invoker(log: &InstructionLog) -> (r: Option<Identity>)
    ensures
        r == invoker_of(log@),
{
    let current: u16 = log.current_index();
    match log.instruction_at(current as usize) {
        Some(ix) => Some(ix.program_id),
        None => None,
    }
}

/// What the check against forwarding comes to: the position of the executing
/// instruction where it was addressed to `program` itself, `refusal` where
/// another program stands at that position of the log.
pub open spec fn top_level_position(log: Seq<u8>, program: Identity, refusal: AdobeError) -> Result<
    int,
    Failure,
> {
    match invoker_of(log) {
        None => Err(Failure::UnreadableLog),
        Some(invoked) => if invoked != program {
            Err(Failure::Engine(refusal))
        } else {
            Ok(current_index_of(log))
        },
    }
}

/// Checks that the executing instruction was addressed to `program` itself
/// and not forwarded to it by another program.
pub fn check_top_level(log: &InstructionLog, program: &Identity, refusal: AdobeError) -> (r: Result<
    u16,
    Failure,
>)
    ensures
        match r {
            Ok(at) => top_level_position(log@, *program, refusal) == Ok::<int, Failure>(at as int),
            Err(e) => top_level_position(log@, *program, refusal) == Err::<int, Failure>(e),
        },
{
    let current: u16 = log.current_index();
    match log.instruction_at(current as usize) {
        None => Err(Failure::UnreadableLog),
        Some(ix) => {
            if ix.program_id.same(program) {
                Ok(current)
            } else {
                Err(Failure::Engine(refusal))
            }
        },
    }
}

/// The fee on a loan of `amount` at `fee_bps` basis points, rounded down.
pub open spec fn fee_of(amount: u64, fee_bps: u16) -> int {
    (amount as int * fee_bps as int) / (BASIS as int)
}

/// What a repay of `amount` moves into custody: the amount and the fee on it.
pub open spec fn total_due(amount: u64, fee_bps: u16) -> int {
    amount + fee_of(amount, fee_bps)
}

/// Whether the amount due fits in 64 bits. The product of amount and rate
/// may be larger: only the sum of amount and fee is bounded.
pub open spec fn payable(amount: u64, fee_bps: u16) -> bool {
    total_due(amount, fee_bps) <= u64::MAX
}

/// Computes what a repay of `amount` owes at `fee_bps` basis points: the
/// amount and the fee on it, the fee rounded down. `None` where that leaves
/// 64 bits.
pub fn amount_due(amount: u64, fee_bps: u16) -> (r: Option<u64>)
    ensures
        r == (if payable(amount, fee_bps) {
            Some(total_due(amount, fee_bps) as u64)
        } else {
            None
        }),
{
    assert(0 <= amount as int * fee_bps as int <= 0xffff_ffff_ffff_ffff * 0xffff) by (nonlinear_arith)
        requires
            0 <= amount <= 0xffff_ffff_ffff_ffff,
            0 <= fee_bps <= 0xffff,
    ;
    let product: u128 = amount as u128 * fee_bps as u128;
    let total: u128 = amount as u128 + product / (BASIS as u128);
    if total > u64::MAX as u128 {
        None
    } else {
        Some(total as u64)
    }
}

/// The accounts of a borrow, with the identity under which the engine runs.
pub struct Borrow {
    /// The engine's own identity.
    pub program_id: Identity,
    /// The caller.
    pub user: Identity,
    /// The address of the global state, which signs for custody.
    pub state: Identity,
    /// The address of the pool's record.
    pub pool_key: Identity,
    /// The pool's record.
    pub pool: Pool,
    /// The custody account supplied.
    pub pool_token: Identity,
    /// The caller's account of the underlying, which receives the loan.
    pub user_token: TokenAccount,
    /// The instruction log of the executing transaction.
    pub instructions: InstructionLog,
}

/// The accounts of a repay, with the identity under which the engine runs.
pub struct Repay {
    /// The engine's own identity.
    pub program_id: Identity,
    /// The caller, who signs for the payment.
    pub user: Identity,
    /// The address of the global state.
    pub state: Identity,
    /// The address of the pool's record.
    pub pool_key: Identity,
    /// The pool's record.
    pub pool: Pool,
    /// The custody account supplied.
    pub pool_token: Identity,
    /// The caller's account of the underlying, which pays.
    pub user_token: TokenAccount,
    /// The instruction log of the executing transaction.
    pub instructions: InstructionLog,
}

impl Borrow {
    /// Where the log holds the repay that lets this borrow of `amount` pass.
    pub open spec fn repay_position(self, amount: u64) -> Result<int, AdobeError> {
        repay_search(
            self.instructions@,
            current_index_of(self.instructions@) + 1,
            self.program_id,
            self.pool_key,
            amount,
        )
    }

    /// These accounts once the loan is out.
    pub open spec fn lent(self) -> Borrow {
        Borrow { pool: Pool { borrowing: true, ..self.pool }, ..self }
    }
}

impl Repay {
    /// These accounts once the pool is idle again.
    pub open spec fn settled(self) -> Repay {
        Repay { pool: Pool { borrowing: false, ..self.pool }, ..self }
    }
}

/// What a borrow of `amount` comes to. The checks, in order: the custody
/// account is the pool's; the receiving account holds the pool's asset; no
/// loan is outstanding; the instruction was addressed to the engine itself
/// and not forwarded; the first later repay to the pool is of `amount`. On
/// success custody pays the caller, under the signature of the global state.
pub open spec fn borrow_outcome(ctx: Borrow, amount: u64) -> Result<Seq<TokenAction>, Failure> {
    if ctx.pool_token != ctx.pool.pool_token {
        Err(Failure::WrongCustody)
    } else if ctx.user_token.mint != ctx.pool.token_mint {
        Err(Failure::WrongAsset)
    } else if ctx.pool.borrowing {
        Err(Failure::Engine(AdobeError::Borrowing))
    } else {
        match invoker_of(ctx.instructions@) {
            None => Err(Failure::UnreadableLog),
            Some(program) => if program != ctx.program_id {
                Err(Failure::Engine(AdobeError::CpiBorrow))
            } else {
                match ctx.repay_position(amount) {
                    Err(e) => Err(Failure::Engine(e)),
                    Ok(_) => Ok(
                        seq![
                            TokenAction::Transfer {
                                from: ctx.pool_token,
                                to: ctx.user_token.key,
                                authority: ctx.state,
                                amount,
                            },
                        ],
                    ),
                }
            },
        }
    }
}

/// What a repay of `amount` comes to. The checks, in order: the custody
/// account is the pool's; the paying account holds the pool's asset; the
/// instruction was addressed to the engine itself and not forwarded; the
/// amount due fits in 64 bits. On success the caller pays the amount and the
/// pool's fee on it into custody. Whether a loan is outstanding, and of what
/// amount, is not looked at.
pub open spec fn repay_outcome(ctx: Repay, amount: u64) -> Result<Seq<TokenAction>, Failure> {
    if ctx.pool_token != ctx.pool.pool_token {
        Err(Failure::WrongCustody)
    } else if ctx.user_token.mint != ctx.pool.token_mint {
        Err(Failure::WrongAsset)
    } else {
        match invoker_of(ctx.instructions@) {
            None => Err(Failure::UnreadableLog),
            Some(program) => if program != ctx.program_id {
                Err(Failure::Engine(AdobeError::CpiRepay))
            } else if !payable(amount, ctx.pool.fee_bps) {
                Err(Failure::Overflow)
            } else {
                Ok(
                    seq![
                        TokenAction::Transfer {
                            from: ctx.user_token.key,
                            to: ctx.pool_token,
                            authority: ctx.user,
                            amount: total_due(amount, ctx.pool.fee_bps) as u64,
                        },
                    ],
                )
            },
        }
    }
}

/// Lends `amount` of the pool's underlying to the caller, provided that the
/// same transaction repays it later. On success the pool is marked as
/// lending and the transfer to carry out is returned; on failure nothing
/// changes. Where the token module then refuses the transfer, the
/// instruction has not happened and the record is to be dropped:
/// `atomic::borrow_atomically` does both steps as one.
pub fn borrow(ctx: &mut Borrow, amount: u64) -> (r: Result<Vec<TokenAction>, Failure>)
    ensures
        planned(r) == borrow_outcome(*old(ctx), amount),
        r is Ok ==> *final(ctx) == old(ctx).lent(),
        r is Err ==> *final(ctx) == *old(ctx),
{
    if !ctx.pool_token.same(&ctx.pool.pool_token) {
        return Err(Failure::WrongCustody);
    }
    if !ctx.user_token.mint.same(&ctx.pool.token_mint) {
        return Err(Failure::WrongAsset);
    }
    if ctx.pool.borrowing {
        return Err(Failure::Engine(AdobeError::Borrowing));
    }
    let current: u16 = match check_top_level(
        &ctx.instructions,
        &ctx.program_id,
        AdobeError::CpiBorrow,
    ) {
        Ok(at) => at,
        Err(e) => {
            return Err(e);
        },
    };
    match find_repay(&ctx.instructions, current as usize + 1, &ctx.program_id, &ctx.pool_key, amount) {
        Err(e) => {
            return Err(Failure::Engine(e));
        },
        Ok(_) => {},
    }
    let mut actions: Vec<TokenAction> = Vec::new();
    actions.push(
        TokenAction::Transfer {
            from: ctx.pool_token,
            to: ctx.user_token.key,
            authority: ctx.state,
            amount,
        },
    );
    ctx.pool.borrowing = true;
    proof {
        assert(actions@ =~= borrow_outcome(*old(ctx), amount)->Ok_0);
    }
    Ok(actions)
}

/// Takes back a loan of `amount` with the pool's fee on it. On success the
/// pool is marked as idle, whatever it was before, and the transfer to carry
/// out is returned; on failure nothing changes. Where the token module then
/// refuses the transfer, the instruction has not happened and the record is
/// to be dropped: `atomic::repay_atomically` does both steps as one.
pub fn repay(ctx: &mut Repay, amount: u64) -> (r: Result<Vec<TokenAction>, Failure>)
    ensures
        planned(r) == repay_outcome(*old(ctx), amount),
        r is Ok ==> *final(ctx) == old(ctx).settled(),
        r is Err ==> *final(ctx) == *old(ctx),
{
    if !ctx.pool_token.same(&ctx.pool.pool_token) {
        return Err(Failure::WrongCustody);
    }
    if !ctx.user_token.mint.same(&ctx.pool.token_mint) {
        return Err(Failure::WrongAsset);
    }
    match check_top_level(&ctx.instructions, &ctx.program_id, AdobeError::CpiRepay) {
        Ok(_) => {},
        Err(e) => {
            return Err(e);
        },
    }
    let total: u64 = match amount_due(amount, ctx.pool.fee_bps) {
        Some(total) => total,
        None => {
            return Err(Failure::Overflow);
        },
    };
    let mut actions: Vec<TokenAction> = Vec::new();
    actions.push(
        TokenAction::Transfer {
            from: ctx.user_token.key,
            to: ctx.pool_token,
            authority: ctx.user,
            amount: total,
        },
    );
    ctx.pool.borrowing = false;
    proof {
        assert(actions@ =~= repay_outcome(*old(ctx), amount)->Ok_0);
    }
    Ok(actions)
}

} // verus!
