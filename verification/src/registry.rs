use crate::error::Failure;
use crate::identity::Identity;
use crate::state::Pool;
use crate::state::State;
use crate::state::DEFAULT_FEE_BPS;
use vstd::prelude::*;

verus! {

/// The records that the engine keeps: the global state, once it exists, and
/// one pool per underlying asset.
pub struct Registry {
    state: Option<State>,
    pools: Vec<Pool>,
}

/// The records as a mathematical value.
pub struct RegistryView {
    pub state: Option<State>,
    /// The pools in the order in which they were added.
    pub pools: Seq<Pool>,
}

/// The signer of an `initialize`.
#[derive(Clone, Copy, Debug)]
pub struct Initialize {
    /// The caller, who becomes the authority.
    pub authority: Identity,
}

/// The signer of a `set_fee`.
#[derive(Clone, Copy, Debug)]
pub struct SetFee {
    /// The caller.
    pub authority: Identity,
}

/// The accounts of an `add_pool`.
#[derive(Clone, Copy, Debug)]
pub struct AddPool {
    /// The caller.
    pub authority: Identity,
    /// The underlying asset that the pool is for.
    pub token_mint: Identity,
    /// The custody account provided for the pool.
    pub pool_token: Identity,
    /// The voucher asset provided for the pool.
    pub voucher_mint: Identity,
}

/// Whether one of `pools` is for the asset `mint`.
pub open spec fn has_pool(pools: Seq<Pool>, mint: Identity) -> bool {
    exists|i: int| 0 <= i < pools.len() && (#[trigger] pools[i]).token_mint == mint
}

/// Whether no two of `pools` are for the same asset.
pub open spec fn distinct_assets(pools: Seq<Pool>) -> bool {
    forall|i: int, j: int|
        0 <= i < j < pools.len() ==> (#[trigger] pools[i]).token_mint != (#[trigger] pools[j]).token_mint
}

/// What an `initialize` comes to: the global state is created with the caller
/// as authority and the default fee, unless it exists.
pub open spec fn initialize_outcome(
    before: RegistryView,
    ctx: Initialize,
    state_bump: u8,
) -> Result<RegistryView, Failure> {
    if before.state is Some {
        Err(Failure::AlreadyInitialized)
    } else {
        Ok(
            RegistryView {
                state: Some(
                    State { bump: state_bump, authority: ctx.authority, fee_bps: DEFAULT_FEE_BPS },
                ),
                pools: before.pools,
            },
        )
    }
}

/// What a `set_fee` comes to: the authority, and nobody else, replaces the
/// fee in the global state. No pool is touched, and no fee is refused.
pub open spec fn set_fee_outcome(before: RegistryView, ctx: SetFee, fee_bps: u16) -> Result<
    RegistryView,
    Failure,
> {
    match before.state {
        None => Err(Failure::NotInitialized),
        Some(state) => if ctx.authority != state.authority {
            Err(Failure::Unauthorized)
        } else {
            Ok(RegistryView { state: Some(State { fee_bps, ..state }), pools: before.pools })
        },
    }
}

/// The pool that an `add_pool` creates under the global state `state`.
pub open spec fn new_pool(state: State, ctx: AddPool, pool_bump: u8) -> Pool {
    Pool {
        bump: pool_bump,
        borrowing: false,
        token_mint: ctx.token_mint,
        pool_token: ctx.pool_token,
        voucher_mint: ctx.voucher_mint,
        fee_bps: state.fee_bps,
    }
}

/// What an `add_pool` comes to: the authority, and nobody else, adds an idle
/// pool that carries the fee of the global state as it stands, unless the
/// asset has a pool.
pub open spec fn add_pool_outcome(before: RegistryView, ctx: AddPool, pool_bump: u8) -> Result<
    RegistryView,
    Failure,
> {
    match before.state {
        None => Err(Failure::NotInitialized),
        Some(state) => if ctx.authority != state.authority {
            Err(Failure::Unauthorized)
        } else if has_pool(before.pools, ctx.token_mint) {
            Err(Failure::DuplicatePool)
        } else {
            Ok(
                RegistryView {
                    state: before.state,
                    pools: before.pools.push(new_pool(state, ctx, pool_bump)),
                },
            )
        },
    }
}

impl View for Registry {
    type V = RegistryView;

    closed spec fn view(&self) -> RegistryView {
        RegistryView { state: self.state, pools: self.pools@ }
    }
}

impl Registry {
    #[verifier::type_invariant]
    spec fn one_pool_per_asset(&self) -> bool {
        distinct_assets(self.pools@)
    }

    /// A registry without global state and without pools.
    pub fn new() -> (r: Registry)
        ensures
            r@.state is None,
            r@.pools.len() == 0,
    {
        Registry { state: None, pools: Vec::new() }
    }

    /// Takes records that were kept elsewhere as a registry. `None` where two
    /// of the pools are for the same asset.
    pub fn load(state: Option<State>, pools: Vec<Pool>) -> (r: Option<Registry>)
        ensures
            r is Some <==> distinct_assets(pools@),
            r matches Some(registry) ==> registry@ == (RegistryView { state, pools: pools@ }),
    {
        let mut j: usize = 0;
        while j < pools.len()
            invariant
                j <= pools.len(),
                forall|a: int, b: int|
                    0 <= a < b < j ==> (#[trigger] pools@[a]).token_mint != (
                    #[trigger] pools@[b]).token_mint,
            decreases pools.len() - j,
        {
            let mut i: usize = 0;
            while i < j
                invariant
                    i <= j < pools.len(),
                    forall|a: int| 0 <= a < i ==> (#[trigger] pools@[a]).token_mint != pools@[j as int].token_mint,
                decreases j - i,
            {
                if pools[i].token_mint.same(&pools[j].token_mint) {
                    return None;
                }
                i += 1;
            }
            j += 1;
        }
        Some(Registry { state, pools })
    }

    /// The global state, if it exists.
    pub fn state(&self) -> (r: Option<State>)
        ensures
            r == self@.state,
    {
        self.state
    }

    /// How many pools there are.
    pub fn pool_count(&self) -> (n: usize)
        ensures
            n == self@.pools.len(),
    {
        self.pools.len()
    }

    /// The position of the pool for the asset `mint`.
    fn position(&self, mint: &Identity) -> (r: Option<usize>)
        ensures
            r matches Some(i) ==> i < self@.pools.len() && self@.pools[i as int].token_mint == *mint,
            r is None ==> !has_pool(self@.pools, *mint),
    {
        let mut i: usize = 0;
        while i < self.pools.len()
            invariant
                i <= self.pools.len(),
                forall|k: int| 0 <= k < i ==> self.pools[k].token_mint != *mint,
            decreases self.pools.len() - i,
        {
            if self.pools[i].token_mint.same(mint) {
                return Some(i);
            }
            i += 1;
        }
        None
    }

    /// The pool for the asset `mint`, if there is one. There is never more
    /// than one.
    pub fn pool(&self, mint: &Identity) -> (r: Option<Pool>)
        ensures
            distinct_assets(self@.pools),
            r matches Some(pool) ==> pool.token_mint == *mint && self@.pools.contains(pool),
            r is None ==> !has_pool(self@.pools, *mint),
    {
        proof {
            use_type_invariant(self);
        }
        match self.position(mint) {
            Some(i) => Some(self.pools[i]),
            None => None,
        }
    }
}

/// Creates the global state, with the caller as authority and a fee of 30
/// basis points. Fails, and changes nothing, where it exists already.
pub fn initialize(registry: &mut Registry, ctx: &Initialize, state_bump: u8) -> (r: Result<
    (),
    Failure,
>)
    ensures
        match r {
            Ok(()) => initialize_outcome(old(registry)@, *ctx, state_bump) == Ok::<
                RegistryView,
                Failure,
            >(final(registry)@),
            Err(e) => initialize_outcome(old(registry)@, *ctx, state_bump) == Err::<
                RegistryView,
                Failure,
            >(e) && final(registry)@ == old(registry)@,
        },
{
    proof {
        use_type_invariant(&*registry);
    }
    if registry.state.is_some() {
        return Err(Failure::AlreadyInitialized);
    }
    registry.state = Some(
        State { bump: state_bump, authority: ctx.authority, fee_bps: DEFAULT_FEE_BPS },
    );
    Ok(())
}

/// Replaces the fee that later pools will be created with. Only the
/// authority may; the pools that exist keep their own fee.
pub fn set_fee(registry: &mut Registry, ctx: &SetFee, fee_bps: u16) -> (r: Result<(), Failure>)
    ensures
        match r {
            Ok(()) => set_fee_outcome(old(registry)@, *ctx, fee_bps) == Ok::<RegistryView, Failure>(
                final(registry)@,
            ),
            Err(e) => set_fee_outcome(old(registry)@, *ctx, fee_bps) == Err::<RegistryView, Failure>(
                e,
            ) && final(registry)@ == old(registry)@,
        },
{
    proof {
        use_type_invariant(&*registry);
    }
    match registry.state {
        None => Err(Failure::NotInitialized),
        Some(state) => {
            if !ctx.authority.same(&state.authority) {
                return Err(Failure::Unauthorized);
            }
            registry.state = Some(
                State { bump: state.bump, authority: state.authority, fee_bps },
            );
            Ok(())
        },
    }
}

/// Adds the pool for an asset: idle, and with the fee of the global state as
/// it stands. Only the authority may, and only once per asset.
pub fn add_pool(registry: &mut Registry, ctx: &AddPool, pool_bump: u8) -> (r: Result<(), Failure>)
    ensures
        match r {
            Ok(()) => add_pool_outcome(old(registry)@, *ctx, pool_bump) == Ok::<
                RegistryView,
                Failure,
            >(final(registry)@),
            Err(e) => add_pool_outcome(old(registry)@, *ctx, pool_bump) == Err::<
                RegistryView,
                Failure,
            >(e) && final(registry)@ == old(registry)@,
        },
{
    proof {
        use_type_invariant(&*registry);
    }
    let state = match registry.state {
        None => {
            return Err(Failure::NotInitialized);
        },
        Some(state) => state,
    };
    if !ctx.authority.same(&state.authority) {
        return Err(Failure::Unauthorized);
    }
    if registry.position(&ctx.token_mint).is_some() {
        return Err(Failure::DuplicatePool);
    }
    let pool = Pool {
        bump: pool_bump,
        borrowing: false,
        token_mint: ctx.token_mint,
        pool_token: ctx.pool_token,
        voucher_mint: ctx.voucher_mint,
        fee_bps: state.fee_bps,
    };
    let mut pools: Vec<Pool> = Vec::new();
    std::mem::swap(&mut registry.pools, &mut pools);
    pools.push(pool);
    std::mem::swap(&mut registry.pools, &mut pools);
    Ok(())
}

} // verus!
