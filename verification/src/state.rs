use crate::identity::Identity;
use vstd::prelude::*;

verus! {

/// The fee, in basis points, that a freshly created global state carries.
pub const DEFAULT_FEE_BPS: u16 = 30;

/// The global state: who may administer the pools, and the fee that the next
/// pool will be created with.
#[derive(Clone, Copy, Debug, PartialEq, Eq)]
pub struct State {
    pub bump: u8,
    pub authority: Identity,
    pub fee_bps: u16,
}

/// The record of one pool. There is one pool per underlying asset.
#[derive(Clone, Copy, Debug, PartialEq, Eq)]
pub struct Pool {
    pub bump: u8,
    /// Whether a loan is outstanding.
    pub borrowing: bool,
    /// The underlying asset.
    pub token_mint: Identity,
    /// The custody account that holds the pool's underlying.
    pub pool_token: Identity,
    /// The voucher asset handed out against deposits.
    pub voucher_mint: Identity,
    /// The fee in basis points, as it stood in the global state when the pool
    /// was created.
    pub fee_bps: u16,
}

/// How many bytes the record of the global state takes.
pub const STATE_LEN: usize = 35;

/// How many bytes the record of a pool takes.
pub const POOL_LEN: usize = 100;

/// The two bytes of `x`, least significant first.
pub open spec fn le_pair(x: u16) -> Seq<u8> {
    seq![(x % 256) as u8, (x / 256) as u8]
}

/// Reads two bytes as a number, least significant first.
fn read_le_u16(data: &[u8], offset: usize) -> (x: u16)
    requires
        offset + 2 <= data@.len(),
    ensures
        le_pair(x) == data@.subrange(offset as int, offset + 2),
{
    let x: u16 = data[offset] as u16 + 256 * (data[offset + 1] as u16);
    assert(le_pair(x) =~= data@.subrange(offset as int, offset + 2));
    x
}

/// Appends the two bytes of `x`, least significant first.
fn push_le_u16(out: &mut Vec<u8>, x: u16)
    ensures
        final(out)@ == old(out)@ + le_pair(x),
{
    out.push((x % 256) as u8);
    out.push((x / 256) as u8);
    assert(out@ =~= old(out)@ + le_pair(x));
}

impl State {
    /// The record as it is kept: the bump, the authority, and the fee with
    /// its less significant byte first.
    pub open spec fn layout(self) -> Seq<u8> {
        seq![self.bump] + self.authority.bytes@ + le_pair(self.fee_bps)
    }

    /// Whether `data` opens with the record of `self`. What follows the
    /// record is not looked at.
    pub open spec fn stands_in(self, data: Seq<u8>) -> bool {
        data.len() >= STATE_LEN && data.subrange(0, STATE_LEN as int) == self.layout()
    }

    /// Writes the record out.
    pub fn encode(&self) -> (out: Vec<u8>)
        ensures
            out@ == self.layout(),
            out@.len() == STATE_LEN,
    {
        let mut out: Vec<u8> = Vec::new();
        out.push(self.bump);
        self.authority.write(&mut out);
        push_le_u16(&mut out, self.fee_bps);
        assert(out@ =~= self.layout());
        out
    }

    /// Reads the record that `data` opens with. `None` where `data` is
    /// shorter than a record.
    pub fn decode(data: &[u8]) -> (r: Option<State>)
        ensures
            r is Some <==> data@.len() >= STATE_LEN,
            r matches Some(state) ==> state.stands_in(data@),
    {
        if data.len() < STATE_LEN {
            return None;
        }
        let authority = match Identity::read(data, 1) {
            Some(id) => id,
            None => {
                return None;
            },
        };
        let state = State { bump: data[0], authority, fee_bps: read_le_u16(data, 33) };
        assert(data@.subrange(0, STATE_LEN as int) =~= state.layout());
        Some(state)
    }

    /// A record is read back as it was written, and no two states share a
    /// record.
    pub proof fn lemma_layout_is_faithful(a: State, b: State, data: Seq<u8>)
        ensures
            a.layout().len() == STATE_LEN,
            a.stands_in(a.layout()),
            a.stands_in(data) && b.stands_in(data) ==> a == b,
    {
        assert(a.layout().subrange(0, STATE_LEN as int) =~= a.layout());
        if a.stands_in(data) && b.stands_in(data) {
            assert(a.layout()[0] == a.bump && b.layout()[0] == b.bump);
            assert(a.authority.bytes@ =~= a.layout().subrange(1, 33));
            assert(b.authority.bytes@ =~= b.layout().subrange(1, 33));
            assert(a.authority.bytes =~= b.authority.bytes);
            assert(le_pair(a.fee_bps) =~= a.layout().subrange(33, 35));
            assert(le_pair(b.fee_bps) =~= b.layout().subrange(33, 35));
            lemma_le_pair_injective(a.fee_bps, b.fee_bps);
        }
    }
}

proof fn lemma_le_pair_injective(x: u16, y: u16)
    requires
        le_pair(x) == le_pair(y),
    ensures
        x == y,
{
    assert(le_pair(x)[0] == le_pair(y)[0]);
    assert(le_pair(x)[1] == le_pair(y)[1]);
}

impl Pool {
    /// The record as it is kept: the bump, the loan flag as one byte, the
    /// underlying asset, the custody account, the voucher asset, and the fee
    /// with its less significant byte first.
    pub open spec fn layout(self) -> Seq<u8> {
        seq![self.bump, if self.borrowing { 1u8 } else { 0u8 }] + self.token_mint.bytes@
            + self.pool_token.bytes@ + self.voucher_mint.bytes@ + le_pair(self.fee_bps)
    }

    /// Whether `data` opens with the record of `self`. What follows the
    /// record is not looked at.
    pub open spec fn stands_in(self, data: Seq<u8>) -> bool {
        data.len() >= POOL_LEN && data.subrange(0, POOL_LEN as int) == self.layout()
    }

    /// Writes the record out.
    pub fn encode(&self) -> (out: Vec<u8>)
        ensures
            out@ == self.layout(),
            out@.len() == POOL_LEN,
    {
        let mut out: Vec<u8> = Vec::new();
        out.push(self.bump);
        out.push(if self.borrowing { 1u8 } else { 0u8 });
        self.token_mint.write(&mut out);
        self.pool_token.write(&mut out);
        self.voucher_mint.write(&mut out);
        push_le_u16(&mut out, self.fee_bps);
        assert(out@ =~= self.layout());
        out
    }

    /// Reads the record that `data` opens with. `None` where `data` is
    /// shorter than a record or the loan flag is neither 0 nor 1.
    pub fn decode(data: &[u8]) -> (r: Option<Pool>)
        ensures
            r is Some <==> data@.len() >= POOL_LEN && data@[1] <= 1,
            r matches Some(pool) ==> pool.stands_in(data@),
    {
        if data.len() < POOL_LEN || data[1] > 1 {
            return None;
        }
        let token_mint = match Identity::read(data, 2) {
            Some(id) => id,
            None => {
                return None;
            },
        };
        let pool_token = match Identity::read(data, 34) {
            Some(id) => id,
            None => {
                return None;
            },
        };
        let voucher_mint = match Identity::read(data, 66) {
            Some(id) => id,
            None => {
                return None;
            },
        };
        let pool = Pool {
            bump: data[0],
            borrowing: data[1] == 1,
            token_mint,
            pool_token,
            voucher_mint,
            fee_bps: read_le_u16(data, 98),
        };
        assert(data@.subrange(0, POOL_LEN as int) =~= pool.layout());
        Some(pool)
    }

    /// A record is read back as it was written, and no two pools share a
    /// record.
    pub proof fn lemma_layout_is_faithful(a: Pool, b: Pool, data: Seq<u8>)
        ensures
            a.layout().len() == POOL_LEN,
            a.layout()[1] <= 1,
            a.stands_in(a.layout()),
            a.stands_in(data) && b.stands_in(data) ==> a == b,
    {
        assert(a.layout().subrange(0, POOL_LEN as int) =~= a.layout());
        if a.stands_in(data) && b.stands_in(data) {
            assert(a.layout()[0] == a.bump && b.layout()[0] == b.bump);
            assert(a.layout()[1] == (if a.borrowing { 1u8 } else { 0u8 }));
            assert(b.layout()[1] == (if b.borrowing { 1u8 } else { 0u8 }));
            assert(a.token_mint.bytes@ =~= a.layout().subrange(2, 34));
            assert(b.token_mint.bytes@ =~= b.layout().subrange(2, 34));
            assert(a.token_mint.bytes =~= b.token_mint.bytes);
            assert(a.pool_token.bytes@ =~= a.layout().subrange(34, 66));
            assert(b.pool_token.bytes@ =~= b.layout().subrange(34, 66));
            assert(a.pool_token.bytes =~= b.pool_token.bytes);
            assert(a.voucher_mint.bytes@ =~= a.layout().subrange(66, 98));
            assert(b.voucher_mint.bytes@ =~= b.layout().subrange(66, 98));
            assert(a.voucher_mint.bytes =~= b.voucher_mint.bytes);
            assert(le_pair(a.fee_bps) =~= a.layout().subrange(98, 100));
            assert(le_pair(b.fee_bps) =~= b.layout().subrange(98, 100));
            lemma_le_pair_injective(a.fee_bps, b.fee_bps);
        }
    }
}

} // verus!
