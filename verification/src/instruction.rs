use crate::address::Address;
use crate::transaction::CompiledInstruction;
use vstd::prelude::*;

verus! {

/// An instruction with its program and its accounts given by address: the
/// form in which a decoder reads it.
#[derive(Clone, Debug)]
pub struct Instruction {
    pub program_id: Address,
    pub accounts: Vec<Address>,
    pub data: Vec<u8>,
}

/// The mathematical value of an [`Instruction`].
pub struct InstructionView {
    pub program_id: Address,
    pub accounts: Seq<Address>,
    pub data: Seq<u8>,
}

impl View for Instruction {
    type V = InstructionView;

    open spec fn view(&self) -> InstructionView {
        InstructionView { program_id: self.program_id, accounts: self.accounts@, data: self.data@ }
    }
}

/// The address at `index` of the account list, if the list is that long.
pub open spec fn account_at(keys: Seq<Address>, index: u8) -> Option<Address> {
    if (index as int) < keys.len() {
        Some(keys[index as int])
    } else {
        None
    }
}

/// The program of an instruction: the account at its program index, or the
/// all-zero address where the index is outside the account list.
pub open spec fn program_of(keys: Seq<Address>, index: u8) -> Address {
    match account_at(keys, index) {
        Some(address) => address,
        None => Address::zero(),
    }
}

/// The accounts of an instruction, in its own order: every index that lies
/// in the account list, replaced by the address there. Indices outside the
/// list are left out.
pub open spec fn accounts_of(keys: Seq<Address>, indices: Seq<u8>) -> Seq<Address> {
    indices.filter_map(|index: u8| account_at(keys, index))
}

/// The instruction that `compiled` stands for in a transaction whose account
/// list is `keys`. The payload is taken over as it is, even when empty.
pub open spec fn resolved(keys: Seq<Address>, compiled: CompiledInstruction) -> InstructionView {
    InstructionView {
        program_id: program_of(keys, compiled.program_id_index),
        accounts: accounts_of(keys, compiled.accounts@),
        data: compiled.data@,
    }
}

/// Where every index of `compiled` lies in the account list, nothing is
/// left out and nothing is made up: the program and each account are the
/// entries of the list that the indices name.
pub proof fn lemma_valid_indices_resolve(keys: Seq<Address>, compiled: CompiledInstruction)
    requires
        compiled.indices_within(keys.len()),
    ensures
        resolved(keys, compiled).program_id == keys[compiled.program_id_index as int],
        resolved(keys, compiled).accounts.len() == compiled.accounts@.len(),
        forall|i: int|
            0 <= i < compiled.accounts@.len() ==> (#[trigger] resolved(keys, compiled).accounts[i])
                == keys[compiled.accounts@[i] as int],
{
    lemma_accounts_of_valid(keys, compiled.accounts@);
}

/// The accounts that indices inside the account list name.
proof fn lemma_accounts_of_valid(keys: Seq<Address>, indices: Seq<u8>)
    requires
        forall|i: int| 0 <= i < indices.len() ==> (#[trigger] indices[i] as int) < keys.len(),
    ensures
        accounts_of(keys, indices).len() == indices.len(),
        forall|i: int|
            0 <= i < indices.len() ==> (#[trigger] accounts_of(keys, indices)[i]) == keys[indices[i] as int],
    decreases indices.len(),
{
    if indices.len() > 0 {
        lemma_accounts_of_valid(keys, indices.drop_last());
        assert(account_at(keys, indices.last()) == Some(keys[indices.last() as int]));
    }
}

/// A copy of `bytes`.
pub fn copy_bytes(bytes: &Vec<u8>) -> (copy: Vec<u8>)
    ensures
        copy@ == bytes@,
{
    let mut copy: Vec<u8> = Vec::with_capacity(bytes.len());
    let mut i: usize = 0;
    while i < bytes.len()
        invariant
            i <= bytes.len(),
            copy@ == bytes@.take(i as int),
        decreases bytes.len() - i,
    {
        copy.push(bytes[i]);
        i += 1;
    }
    copy
}

/// Replaces the indices of `compiled` by the addresses they name in `keys`.
pub fn resolve(keys: &Vec<Address>, compiled: &CompiledInstruction) -> (instruction: Instruction)
    ensures
        instruction@ == resolved(keys@, *compiled),
{
    let program_index: usize = compiled.program_id_index as usize;
    let program_id = if program_index < keys.len() {
        keys[program_index]
    } else {
        Address::zeroed()
    };
    let mut accounts: Vec<Address> = Vec::with_capacity(compiled.accounts.len());
    let mut i: usize = 0;
    while i < compiled.accounts.len()
        invariant
            i <= compiled.accounts.len(),
            accounts@ == accounts_of(keys@, compiled.accounts@.take(i as int)),
        decreases compiled.accounts.len() - i,
    {
        let index: usize = compiled.accounts[i] as usize;
        proof {
            compiled.accounts@.lemma_filter_map_take_succ(
                |index: u8| account_at(keys@, index),
                i as int,
            );
        }
        if index < keys.len() {
            accounts.push(keys[index]);
        }
        i += 1;
    }
    proof {
        assert(compiled.accounts@.take(compiled.accounts@.len() as int) == compiled.accounts@);
    }
    Instruction { program_id, accounts, data: copy_bytes(&compiled.data) }
}

} // verus!
