use crate::identity::Identity;
use crate::token::Mint;
use crate::token::TokenAccount;
use crate::token::TokenAction;
use vstd::prelude::*;

verus! {

/// Why the token module refuses a request.
#[derive(Clone, Copy, Debug, PartialEq, Eq, Structural)]
pub enum TokenError {
    /// No account stands under the key.
    UnknownAccount,
    /// No asset stands under the key.
    UnknownMint,
    /// The key is taken.
    AlreadyInUse,
    /// The account holds less than asked for.
    InsufficientFunds,
    /// The account holds another asset.
    MintMismatch,
    /// A balance or a supply would leave 64 bits.
    Overflow,
}

/// A record that is found by its key.
trait Keyed: Sized {
    spec fn key_of(&self) -> Identity;

    fn key(&self) -> (k: Identity)
        ensures
            k == self.key_of(),
    ;
}

impl Keyed for TokenAccount {
    spec fn key_of(&self) -> Identity {
        self.key
    }

    fn key(&self) -> (k: Identity) {
        self.key
    }
}

impl Keyed for Mint {
    spec fn key_of(&self) -> Identity {
        self.key
    }

    fn key(&self) -> (k: Identity) {
        self.key
    }
}

/// Whether no two of `records` share a key.
spec fn distinct<T: Keyed>(records: Seq<T>) -> bool {
    forall|i: int, j: int|
        0 <= i < j < records.len() ==> (#[trigger] records[i]).key_of() != (
        #[trigger] records[j]).key_of()
}

/// Whether one of `records` stands under `key`.
spec fn present<T: Keyed>(records: Seq<T>, key: Identity) -> bool {
    exists|i: int| 0 <= i < records.len() && (#[trigger] records[i]).key_of() == key
}

/// The position of a record under `key`.
spec fn position_of<T: Keyed>(records: Seq<T>, key: Identity) -> int {
    choose|i: int| 0 <= i < records.len() && (#[trigger] records[i]).key_of() == key
}

/// The records as a map from their keys.
spec fn by_key<T: Keyed>(records: Seq<T>) -> Map<Identity, T> {
    Map::new(|k: Identity| present(records, k), |k: Identity| records[position_of(records, k)])
}

proof fn lemma_by_key_at<T: Keyed>(records: Seq<T>, i: int)
    requires
        distinct(records),
        0 <= i < records.len(),
    ensures
        by_key(records).dom().contains(records[i].key_of()),
        by_key(records)[records[i].key_of()] == records[i],
{
    let k = records[i].key_of();
    let j = position_of(records, k);
    assert(0 <= j < records.len() && records[j].key_of() == k);
    assert(i == j);
}

proof fn lemma_by_key_update<T: Keyed>(records: Seq<T>, i: int, record: T)
    requires
        distinct(records),
        0 <= i < records.len(),
        record.key_of() == records[i].key_of(),
    ensures
        distinct(records.update(i, record)),
        by_key(records.update(i, record)) == by_key(records).insert(record.key_of(), record),
{
    let after = records.update(i, record);
    assert forall|a: int, b: int| 0 <= a < b < after.len() implies (#[trigger] after[a]).key_of()
        != (#[trigger] after[b]).key_of() by {
        assert(after[a].key_of() == records[a].key_of());
        assert(after[b].key_of() == records[b].key_of());
    }
    let m0 = by_key(after);
    let m1 = by_key(records).insert(record.key_of(), record);
    assert forall|k: Identity| m0.dom().contains(k) <==> m1.dom().contains(k) by {
        if present(after, k) {
            let j = position_of(after, k);
            assert(records[j].key_of() == k);
        }
        if present(records, k) {
            let j = position_of(records, k);
            assert(after[j].key_of() == k);
        }
        if k == record.key_of() {
            assert(after[i].key_of() == k);
        }
    }
    assert forall|k: Identity| m0.dom().contains(k) implies m0[k] == m1[k] by {
        let j = position_of(after, k);
        assert(0 <= j < after.len() && after[j].key_of() == k);
        lemma_by_key_at(after, j);
        if j == i {
        } else {
            assert(records[j].key_of() == k);
            lemma_by_key_at(records, j);
        }
    }
    assert(m0 =~= m1);
}

proof fn lemma_by_key_push<T: Keyed>(records: Seq<T>, record: T)
    requires
        distinct(records),
        !present(records, record.key_of()),
    ensures
        distinct(records.push(record)),
        by_key(records.push(record)) == by_key(records).insert(record.key_of(), record),
{
    let after = records.push(record);
    assert forall|a: int, b: int| 0 <= a < b < after.len() implies (#[trigger] after[a]).key_of()
        != (#[trigger] after[b]).key_of() by {
        if b == records.len() {
            assert(records[a].key_of() != record.key_of());
        } else {
            assert(after[a] == records[a] && after[b] == records[b]);
        }
    }
    let m0 = by_key(after);
    let m1 = by_key(records).insert(record.key_of(), record);
    assert forall|k: Identity| m0.dom().contains(k) <==> m1.dom().contains(k) by {
        if present(after, k) {
            let j = position_of(after, k);
            if j < records.len() {
                assert(records[j].key_of() == k);
            }
        }
        if present(records, k) {
            let j = position_of(records, k);
            assert(after[j].key_of() == k);
        }
        if k == record.key_of() {
            assert(after[records.len() as int].key_of() == k);
        }
    }
    assert forall|k: Identity| m0.dom().contains(k) implies m0[k] == m1[k] by {
        let j = position_of(after, k);
        assert(0 <= j < after.len() && after[j].key_of() == k);
        lemma_by_key_at(after, j);
        if j < records.len() {
            assert(records[j].key_of() == k);
            lemma_by_key_at(records, j);
        }
    }
    assert(m0 =~= m1);
}

/// Finds the record under `key`.
fn find<T: Keyed>(records: &Vec<T>, key: &Identity) -> (r: Option<usize>)
    ensures
        r matches Some(i) ==> i < records@.len() && records@[i as int].key_of() == *key,
        r is None ==> !present(records@, *key),
{
    let mut i: usize = 0;
    while i < records.len()
        invariant
            i <= records.len(),
            forall|k: int| 0 <= k < i ==> (#[trigger] records@[k]).key_of() != *key,
        decreases records.len() - i,
    {
        if records[i].key().same(key) {
            return Some(i);
        }
        i += 1;
    }
    None
}

/// A copy of `records`.
fn duplicate<T: Copy>(records: &Vec<T>) -> (r: Vec<T>)
    ensures
        r@ == records@,
{
    let mut r: Vec<T> = Vec::new();
    let mut i: usize = 0;
    while i < records.len()
        invariant
            i <= records.len(),
            r@ == records@.take(i as int),
        decreases records.len() - i,
    {
        r.push(records[i]);
        i += 1;
        assert(r@ =~= records@.take(i as int));
    }
    assert(records@.take(records@.len() as int) =~= records@);
    r
}

/// What the token module holds, as a mathematical value: every account and
/// every asset under its key.
pub struct LedgerView {
    pub accounts: Map<Identity, TokenAccount>,
    pub mints: Map<Identity, Mint>,
}

/// The ledger after `amount` went from the account `from` to the account
/// `to`, or why it cannot. Moving to the account itself changes nothing.
pub open spec fn transfer_effect(l: LedgerView, from: Identity, to: Identity, amount: u64) -> Result<
    LedgerView,
    TokenError,
> {
    if !l.accounts.dom().contains(from) || !l.accounts.dom().contains(to) {
        Err(TokenError::UnknownAccount)
    } else if l.accounts[from].amount < amount {
        Err(TokenError::InsufficientFunds)
    } else if l.accounts[from].mint != l.accounts[to].mint {
        Err(TokenError::MintMismatch)
    } else if from == to {
        Ok(l)
    } else if l.accounts[to].amount + amount > u64::MAX {
        Err(TokenError::Overflow)
    } else {
        Ok(
            LedgerView {
                accounts: l.accounts.insert(
                    from,
                    TokenAccount {
                        amount: (l.accounts[from].amount - amount) as u64,
                        ..l.accounts[from]
                    },
                ).insert(
                    to,
                    TokenAccount {
                        amount: (l.accounts[to].amount + amount) as u64,
                        ..l.accounts[to]
                    },
                ),
                mints: l.mints,
            },
        )
    }
}

/// The ledger after `amount` of the asset `mint` was made in the account
/// `to`, or why it cannot be.
pub open spec fn mint_effect(l: LedgerView, mint: Identity, to: Identity, amount: u64) -> Result<
    LedgerView,
    TokenError,
> {
    if !l.mints.dom().contains(mint) {
        Err(TokenError::UnknownMint)
    } else if !l.accounts.dom().contains(to) {
        Err(TokenError::UnknownAccount)
    } else if l.accounts[to].mint != mint {
        Err(TokenError::MintMismatch)
    } else if l.accounts[to].amount + amount > u64::MAX || l.mints[mint].supply + amount
        > u64::MAX {
        Err(TokenError::Overflow)
    } else {
        Ok(
            LedgerView {
                accounts: l.accounts.insert(
                    to,
                    TokenAccount {
                        amount: (l.accounts[to].amount + amount) as u64,
                        ..l.accounts[to]
                    },
                ),
                mints: l.mints.insert(
                    mint,
                    Mint { supply: (l.mints[mint].supply + amount) as u64, ..l.mints[mint] },
                ),
            },
        )
    }
}

/// The ledger after `amount` of the asset `mint` was destroyed in the account
/// `from`, or why it cannot be.
pub open spec fn burn_effect(l: LedgerView, mint: Identity, from: Identity, amount: u64) -> Result<
    LedgerView,
    TokenError,
> {
    if !l.mints.dom().contains(mint) {
        Err(TokenError::UnknownMint)
    } else if !l.accounts.dom().contains(from) {
        Err(TokenError::UnknownAccount)
    } else if l.accounts[from].amount < amount || l.mints[mint].supply < amount {
        Err(TokenError::InsufficientFunds)
    } else if l.accounts[from].mint != mint {
        Err(TokenError::MintMismatch)
    } else {
        Ok(
            LedgerView {
                accounts: l.accounts.insert(
                    from,
                    TokenAccount {
                        amount: (l.accounts[from].amount - amount) as u64,
                        ..l.accounts[from]
                    },
                ),
                mints: l.mints.insert(
                    mint,
                    Mint { supply: (l.mints[mint].supply - amount) as u64, ..l.mints[mint] },
                ),
            },
        )
    }
}

/// The ledger after one request, or why the request is refused. Who signed
/// is not part of this model: it counts balances and supply only.
pub open spec fn effect_of(l: LedgerView, action: TokenAction) -> Result<LedgerView, TokenError> {
    match action {
        TokenAction::Transfer { from, to, authority, amount } => transfer_effect(l, from, to, amount),
        TokenAction::MintTo { mint, to, authority, amount } => mint_effect(l, mint, to, amount),
        TokenAction::Burn { mint, from, authority, amount } => burn_effect(l, mint, from, amount),
    }
}

/// The ledger after the requests of one instruction, taken in order, or the
/// refusal of the first that is refused.
pub open spec fn run(l: LedgerView, actions: Seq<TokenAction>) -> Result<LedgerView, TokenError>
    decreases actions.len(),
{
    if actions.len() == 0 {
        Ok(l)
    } else {
        match effect_of(l, actions[0]) {
            Err(e) => Err(e),
            Ok(next) => run(next, actions.drop_first()),
        }
    }
}

/// A token module in memory: it keeps balances and supply as the real one
/// does, so that what an instruction asks of the token module can be carried
/// out and looked at.
pub struct Ledger {
    accounts: Vec<TokenAccount>,
    mints: Vec<Mint>,
}

impl View for Ledger {
    type V = LedgerView;

    closed spec fn view(&self) -> LedgerView {
        LedgerView { accounts: by_key(self.accounts@), mints: by_key(self.mints@) }
    }
}

impl Ledger {
    #[verifier::type_invariant]
    spec fn one_record_per_key(&self) -> bool {
        distinct(self.accounts@) && distinct(self.mints@)
    }

    /// A ledger without assets and without accounts.
    pub fn new() -> (r: Ledger)
        ensures
            r@.accounts == Map::<Identity, TokenAccount>::empty(),
            r@.mints == Map::<Identity, Mint>::empty(),
    {
        let r = Ledger { accounts: Vec::new(), mints: Vec::new() };
        assert(by_key(r.accounts@) =~= Map::<Identity, TokenAccount>::empty());
        assert(by_key(r.mints@) =~= Map::<Identity, Mint>::empty());
        r
    }

    /// The account under `key`.
    pub fn account(&self, key: &Identity) -> (r: Option<TokenAccount>)
        ensures
            r == (if self@.accounts.dom().contains(*key) {
                Some(self@.accounts[*key])
            } else {
                None
            }),
            r matches Some(a) ==> a.key == *key,
    {
        proof {
            use_type_invariant(self);
        }
        match find(&self.accounts, key) {
            Some(i) => {
                proof {
                    lemma_by_key_at(self.accounts@, i as int);
                }
                Some(self.accounts[i])
            },
            None => None,
        }
    }

    /// What the account under `key` holds.
    pub fn balance(&self, key: &Identity) -> (r: Option<u64>)
        ensures
            r == (if self@.accounts.dom().contains(*key) {
                Some(self@.accounts[*key].amount)
            } else {
                None
            }),
    {
        match self.account(key) {
            Some(a) => Some(a.amount),
            None => None,
        }
    }

    /// How much of the asset under `key` exists.
    pub fn supply(&self, key: &Identity) -> (r: Option<u64>)
        ensures
            r == (if self@.mints.dom().contains(*key) {
                Some(self@.mints[*key].supply)
            } else {
                None
            }),
    {
        proof {
            use_type_invariant(self);
        }
        match find(&self.mints, key) {
            Some(i) => {
                proof {
                    lemma_by_key_at(self.mints@, i as int);
                }
                Some(self.mints[i].supply)
            },
            None => None,
        }
    }

    /// Creates an asset under `key`, with nothing of it in existence.
    pub fn create_mint(&mut self, key: Identity) -> (r: Result<(), TokenError>)
        ensures
            old(self)@.mints.dom().contains(key) ==> r == Err::<(), TokenError>(
                TokenError::AlreadyInUse,
            ) && final(self)@ == old(self)@,
            !old(self)@.mints.dom().contains(key) ==> r is Ok && final(self)@ == (LedgerView {
                mints: old(self)@.mints.insert(key, Mint { key, supply: 0 }),
                ..old(self)@
            }),
    {
        proof {
            use_type_invariant(&*self);
        }
        if find(&self.mints, &key).is_some() {
            return Err(TokenError::AlreadyInUse);
        }
        let mut mints: Vec<Mint> = Vec::new();
        std::mem::swap(&mut self.mints, &mut mints);
        proof {
            lemma_by_key_push(mints@, Mint { key, supply: 0 });
        }
        mints.push(Mint { key, supply: 0 });
        std::mem::swap(&mut self.mints, &mut mints);
        Ok(())
    }

    /// Opens an empty account under `key` for the asset `mint`.
    pub fn open_account(&mut self, key: Identity, mint: Identity) -> (r: Result<(), TokenError>)
        ensures
            r == (if !old(self)@.mints.dom().contains(mint) {
                Err::<(), TokenError>(TokenError::UnknownMint)
            } else if old(self)@.accounts.dom().contains(key) {
                Err(TokenError::AlreadyInUse)
            } else {
                Ok(())
            }),
            r is Err ==> final(self)@ == old(self)@,
            r is Ok ==> final(self)@ == (LedgerView {
                accounts: old(self)@.accounts.insert(key, TokenAccount { key, mint, amount: 0 }),
                ..old(self)@
            }),
    {
        proof {
            use_type_invariant(&*self);
        }
        if find(&self.mints, &mint).is_none() {
            return Err(TokenError::UnknownMint);
        }
        if find(&self.accounts, &key).is_some() {
            return Err(TokenError::AlreadyInUse);
        }
        let mut accounts: Vec<TokenAccount> = Vec::new();
        std::mem::swap(&mut self.accounts, &mut accounts);
        proof {
            lemma_by_key_push(accounts@, TokenAccount { key, mint, amount: 0 });
        }
        accounts.push(TokenAccount { key, mint, amount: 0 });
        std::mem::swap(&mut self.accounts, &mut accounts);
        Ok(())
    }

    /// Moves `amount` from the account `from` to the account `to`.
    fn transfer(&mut self, from: &Identity, to: &Identity, amount: u64) -> (r: Result<
        (),
        TokenError,
    >)
        ensures
            match r {
                Ok(()) => transfer_effect(old(self)@, *from, *to, amount) == Ok::<
                    LedgerView,
                    TokenError,
                >(final(self)@),
                Err(e) => transfer_effect(old(self)@, *from, *to, amount) == Err::<
                    LedgerView,
                    TokenError,
                >(e) && final(self)@ == old(self)@,
            },
    {
        proof {
            use_type_invariant(&*self);
        }
        let i = match find(&self.accounts, from) {
            Some(i) => i,
            None => {
                return Err(TokenError::UnknownAccount);
            },
        };
        let j = match find(&self.accounts, to) {
            Some(j) => j,
            None => {
                return Err(TokenError::UnknownAccount);
            },
        };
        proof {
            lemma_by_key_at(self.accounts@, i as int);
            lemma_by_key_at(self.accounts@, j as int);
        }
        let src = self.accounts[i];
        let dst = self.accounts[j];
        if src.amount < amount {
            return Err(TokenError::InsufficientFunds);
        }
        if !src.mint.same(&dst.mint) {
            return Err(TokenError::MintMismatch);
        }
        if i == j {
            return Ok(());
        }
        if dst.amount > u64::MAX - amount {
            return Err(TokenError::Overflow);
        }
        let paid = TokenAccount { key: src.key, mint: src.mint, amount: src.amount - amount };
        let received = TokenAccount { key: dst.key, mint: dst.mint, amount: dst.amount + amount };
        let mut accounts: Vec<TokenAccount> = Vec::new();
        std::mem::swap(&mut self.accounts, &mut accounts);
        proof {
            lemma_by_key_update(accounts@, i as int, paid);
            lemma_by_key_update(accounts@.update(i as int, paid), j as int, received);
        }
        accounts.set(i, paid);
        accounts.set(j, received);
        std::mem::swap(&mut self.accounts, &mut accounts);
        Ok(())
    }

    /// Makes `amount` of the asset `mint` in the account `to`.
    fn mint_to(&mut self, mint: &Identity, to: &Identity, amount: u64) -> (r: Result<
        (),
        TokenError,
    >)
        ensures
            match r {
                Ok(()) => mint_effect(old(self)@, *mint, *to, amount) == Ok::<
                    LedgerView,
                    TokenError,
                >(final(self)@),
                Err(e) => mint_effect(old(self)@, *mint, *to, amount) == Err::<
                    LedgerView,
                    TokenError,
                >(e) && final(self)@ == old(self)@,
            },
    {
        proof {
            use_type_invariant(&*self);
        }
        let m = match find(&self.mints, mint) {
            Some(m) => m,
            None => {
                return Err(TokenError::UnknownMint);
            },
        };
        let j = match find(&self.accounts, to) {
            Some(j) => j,
            None => {
                return Err(TokenError::UnknownAccount);
            },
        };
        proof {
            lemma_by_key_at(self.mints@, m as int);
            lemma_by_key_at(self.accounts@, j as int);
        }
        let asset = self.mints[m];
        let dst = self.accounts[j];
        if !dst.mint.same(mint) {
            return Err(TokenError::MintMismatch);
        }
        if dst.amount > u64::MAX - amount || asset.supply > u64::MAX - amount {
            return Err(TokenError::Overflow);
        }
        let received = TokenAccount { key: dst.key, mint: dst.mint, amount: dst.amount + amount };
        let grown = Mint { key: asset.key, supply: asset.supply + amount };
        let mut accounts: Vec<TokenAccount> = Vec::new();
        let mut mints: Vec<Mint> = Vec::new();
        std::mem::swap(&mut self.accounts, &mut accounts);
        std::mem::swap(&mut self.mints, &mut mints);
        proof {
            lemma_by_key_update(accounts@, j as int, received);
            lemma_by_key_update(mints@, m as int, grown);
        }
        accounts.set(j, received);
        mints.set(m, grown);
        std::mem::swap(&mut self.accounts, &mut accounts);
        std::mem::swap(&mut self.mints, &mut mints);
        Ok(())
    }

    /// Destroys `amount` of the asset `mint` in the account `from`.
    fn burn(&mut self, mint: &Identity, from: &Identity, amount: u64) -> (r: Result<(), TokenError>)
        ensures
            match r {
                Ok(()) => burn_effect(old(self)@, *mint, *from, amount) == Ok::<
                    LedgerView,
                    TokenError,
                >(final(self)@),
                Err(e) => burn_effect(old(self)@, *mint, *from, amount) == Err::<
                    LedgerView,
                    TokenError,
                >(e) && final(self)@ == old(self)@,
            },
    {
        proof {
            use_type_invariant(&*self);
        }
        let m = match find(&self.mints, mint) {
            Some(m) => m,
            None => {
                return Err(TokenError::UnknownMint);
            },
        };
        let i = match find(&self.accounts, from) {
            Some(i) => i,
            None => {
                return Err(TokenError::UnknownAccount);
            },
        };
        proof {
            lemma_by_key_at(self.mints@, m as int);
            lemma_by_key_at(self.accounts@, i as int);
        }
        let asset = self.mints[m];
        let src = self.accounts[i];
        if src.amount < amount || asset.supply < amount {
            return Err(TokenError::InsufficientFunds);
        }
        if !src.mint.same(mint) {
            return Err(TokenError::MintMismatch);
        }
        let paid = TokenAccount { key: src.key, mint: src.mint, amount: src.amount - amount };
        let shrunk = Mint { key: asset.key, supply: asset.supply - amount };
        let mut accounts: Vec<TokenAccount> = Vec::new();
        let mut mints: Vec<Mint> = Vec::new();
        std::mem::swap(&mut self.accounts, &mut accounts);
        std::mem::swap(&mut self.mints, &mut mints);
        proof {
            lemma_by_key_update(accounts@, i as int, paid);
            lemma_by_key_update(mints@, m as int, shrunk);
        }
        accounts.set(i, paid);
        mints.set(m, shrunk);
        std::mem::swap(&mut self.accounts, &mut accounts);
        std::mem::swap(&mut self.mints, &mut mints);
        Ok(())
    }

    /// Carries out one request. A request that is refused changes nothing.
    pub fn apply(&mut self, action: &TokenAction) -> (r: Result<(), TokenError>)
        ensures
            match r {
                Ok(()) => effect_of(old(self)@, *action) == Ok::<LedgerView, TokenError>(
                    final(self)@,
                ),
                Err(e) => effect_of(old(self)@, *action) == Err::<LedgerView, TokenError>(e)
                    && final(self)@ == old(self)@,
            },
    {
        match action {
            TokenAction::Transfer { from, to, authority, amount } => self.transfer(
                from,
                to,
                *amount,
            ),
            TokenAction::MintTo { mint, to, authority, amount } => self.mint_to(mint, to, *amount),
            TokenAction::Burn { mint, from, authority, amount } => self.burn(mint, from, *amount),
        }
    }

    /// Carries out the requests of one instruction, in order and as a whole:
    /// where one of them is refused, none of them has happened.
    pub fn execute(&mut self, actions: &Vec<TokenAction>) -> (r: Result<(), TokenError>)
        ensures
            match r {
                Ok(()) => run(old(self)@, actions@) == Ok::<LedgerView, TokenError>(final(self)@),
                Err(e) => run(old(self)@, actions@) == Err::<LedgerView, TokenError>(e)
                    && final(self)@ == old(self)@,
            },
    {
        proof {
            use_type_invariant(&*self);
        }
        let mut saved_accounts = duplicate(&self.accounts);
        let mut saved_mints = duplicate(&self.mints);
        let mut i: usize = 0;
        assert(actions@.skip(0) =~= actions@);
        while i < actions.len()
            invariant
                i <= actions.len(),
                saved_accounts@ == old(self).accounts@,
                saved_mints@ == old(self).mints@,
                distinct(saved_accounts@),
                distinct(saved_mints@),
                run(old(self)@, actions@) == run(self@, actions@.skip(i as int)),
            decreases actions.len() - i,
        {
            assert(actions@.skip(i as int).drop_first() =~= actions@.skip(i + 1));
            match self.apply(&actions[i]) {
                Ok(()) => {},
                Err(e) => {
                    proof {
                        use_type_invariant(&*self);
                    }
                    std::mem::swap(&mut self.accounts, &mut saved_accounts);
                    std::mem::swap(&mut self.mints, &mut saved_mints);
                    return Err(e);
                },
            }
            i += 1;
        }
        Ok(())
    }
}

} // verus!
