use crate::identity::Identity;
use vstd::prelude::*;

verus! {

/// One entry of a transaction's instruction log.
#[derive(Clone, Debug, PartialEq, Eq)]
pub struct Instruction {
    /// The program that the runtime recorded as invoked at this position.
    pub program_id: Identity,
    /// The accounts that the instruction refers to, in order.
    pub accounts: Vec<Identity>,
    /// The payload.
    pub data: Vec<u8>,
}

/// An entry of the log as a mathematical value.
pub struct InstructionView {
    pub program_id: Identity,
    pub accounts: Seq<Identity>,
    pub data: Seq<u8>,
}

impl View for Instruction {
    type V = InstructionView;

    open spec fn view(&self) -> InstructionView {
        InstructionView { program_id: self.program_id, accounts: self.accounts@, data: self.data@ }
    }
}

/// The entry that the instructions sysvar with account data `data` holds at
/// `index`, as `load_instruction_at_checked` reads it; `None` where that call
/// fails.
pub uninterp spec fn logged_instruction(data: Seq<u8>, index: int) -> Option<InstructionView>;

/// The index that the last two bytes of the sysvar's account data spell, least
/// significant byte first.
pub open spec fn current_index_of(data: Seq<u8>) -> int
    recommends
        data.len() >= 2,
{
    data[data.len() - 2] as int + 256 * (data[data.len() - 1] as int)
}

/// Calls `load_instruction_at_checked` of the crate solana-instructions-sysvar,
/// reached through anchor-lang, on an account that carries the sysvar's own
/// key and a copy of `data`.
///
/// Believed without proof: the result depends on `data` and `index` alone, and
/// the call fails for every index from 65535 on, because it first compares
/// the index with an entry count held in sixteen bits. Under the sysvar's key
/// and with data that nothing else has borrowed, the call's only failures are
/// those of decoding, which give `None`.
#[verifier::external_body]
fn load_instruction(data: &Vec<u8>, index: usize) -> (r: Option<Instruction>)
    ensures
        r matches Some(ix) ==> logged_instruction(data@, index as int) == Some(ix@),
        r is None ==> logged_instruction(data@, index as int) is None,
        index >= 0xffff ==> r is None,
{
    let key = anchor_lang::compat::solana_instructions_sysvar::ID;
    let (mut lamports, mut bytes) = (0u64, data.clone());
    let info = anchor_lang::solana_program::account_info::AccountInfo::new(
        &key, false, false, &mut lamports, &mut bytes, &key, false,
    );
    match anchor_lang::compat::solana_instructions_sysvar::load_instruction_at_checked(index, &info) {
        Ok(ix) => Some(Instruction {
            program_id: Identity { bytes: ix.program_id.to_bytes() },
            accounts: ix.accounts.iter().map(|a| Identity { bytes: a.pubkey.to_bytes() }).collect(),
            data: ix.data,
        }),
        Err(_) => None,
    }
}

/// Calls `load_current_index_checked` of the crate solana-instructions-sysvar,
/// reached through anchor-lang, on an account that carries the sysvar's own
/// key and a copy of `data`.
///
/// Believed without proof: the call returns the number that the last two
/// bytes of `data` spell, least significant byte first. It fails only under
/// another key or on borrowed data, neither of which it is given here; with
/// fewer than two bytes it would panic, which `requires` leaves out.
#[verifier::external_body]
fn load_current_index(data: &Vec<u8>) -> (r: Option<u16>)
    requires
        data@.len() >= 2,
    ensures
        r == Some(current_index_of(data@) as u16),
{
    let key = anchor_lang::compat::solana_instructions_sysvar::ID;
    let (mut lamports, mut bytes) = (0u64, data.clone());
    let info = anchor_lang::solana_program::account_info::AccountInfo::new(
        &key, false, false, &mut lamports, &mut bytes, &key, false,
    );
    anchor_lang::compat::solana_instructions_sysvar::load_current_index_checked(&info).ok()
}

/// The instruction log of the transaction that is executing: the account data
/// of the instructions sysvar, which always ends with the two bytes of the
/// current instruction's index.
pub struct InstructionLog {
    data: Vec<u8>,
}

impl View for InstructionLog {
    type V = Seq<u8>;

    closed spec fn view(&self) -> Seq<u8> {
        self.data@
    }
}

impl InstructionLog {
    #[verifier::type_invariant]
    spec fn long_enough(&self) -> bool {
        self.data@.len() >= 2
    }

    /// Takes the sysvar's account data as a log. `None` where the data is too
    /// short to end with an index.
    pub fn new(data: Vec<u8>) -> (r: Option<InstructionLog>)
        ensures
            data@.len() < 2 ==> r is None,
            data@.len() >= 2 ==> r is Some && r->0@ == data@,
    {
        if data.len() < 2 {
            None
        } else {
            Some(InstructionLog { data })
        }
    }

    /// The position in the transaction of the instruction that is executing.
    pub fn current_index(&self) -> (r: u16)
        ensures
            r == current_index_of(self@),
    {
        proof {
            use_type_invariant(self);
        }
        match load_current_index(&self.data) {
            Some(index) => index,
            None => 0,
        }
    }

    /// The entry at `index`, or `None` where the log has no readable entry there.
    pub fn instruction_at(&self, index: usize) -> (r: Option<Instruction>)
        ensures
            r matches Some(ix) ==> logged_instruction(self@, index as int) == Some(ix@),
            r is None ==> logged_instruction(self@, index as int) is None,
            index >= 0xffff ==> r is None,
    {
        load_instruction(&self.data, index)
    }
}

} // verus!
