use crate::address::Address;
use vstd::prelude::*;

verus! {

/// Width of a transaction signature in bytes.
pub const SIGNATURE_LEN: usize = 64;

/// The unique identifier of a transaction.
#[derive(Clone, Copy, Debug, PartialEq, Eq)]
pub struct Signature {
    pub bytes: [u8; SIGNATURE_LEN],
}

impl View for Signature {
    type V = Seq<u8>;

    open spec fn view(&self) -> Seq<u8> {
        self.bytes@
    }
}

/// One directive of a transaction in its compact form: the program and the
/// accounts are given as indices into the account list of the transaction
/// that owns the instruction.
#[derive(Clone, Debug)]
pub struct CompiledInstruction {
    pub program_id_index: u8,
    pub accounts: Vec<u8>,
    pub data: Vec<u8>,
}

/// The instructions that one top-level instruction invoked while it ran, in
/// the order in which they were executed.
#[derive(Clone, Debug)]
pub struct InnerInstructions {
    /// Position of the invoking instruction in the top-level list.
    pub index: u8,
    pub instructions: Vec<CompiledInstruction>,
}

/// Whether the transaction ran to completion.
#[derive(Clone, Copy, Debug, PartialEq, Eq, Structural)]
pub enum ExecutionStatus {
    Succeeded,
    Failed,
}

/// What the chain recorded while it executed a transaction.
#[derive(Clone, Debug)]
pub struct ExecutionMeta {
    pub status: ExecutionStatus,
    pub inner_instructions: Vec<InnerInstructions>,
    pub log_messages: Vec<String>,
}

/// The account list of a transaction and its top-level instructions.
#[derive(Clone, Debug)]
pub struct Message {
    pub account_keys: Vec<Address>,
    pub instructions: Vec<CompiledInstruction>,
}

/// A message in one of the two formats of the chain. Both carry an account
/// list and a list of top-level instructions.
#[derive(Clone, Debug)]
pub enum VersionedMessage {
    Legacy(Message),
    V0(Message),
}

impl VersionedMessage {
    /// The message whatever its format.
    pub open spec fn body(&self) -> Message {
        match *self {
            VersionedMessage::Legacy(m) => m,
            VersionedMessage::V0(m) => m,
        }
    }

    /// The account list of the transaction.
    pub fn account_keys(&self) -> (keys: &Vec<Address>)
        ensures
            *keys == self.body().account_keys,
    {
        match self {
            VersionedMessage::Legacy(m) => &m.account_keys,
            VersionedMessage::V0(m) => &m.account_keys,
        }
    }

    /// The top-level instructions in program order.
    pub fn instructions(&self) -> (instructions: &Vec<CompiledInstruction>)
        ensures
            *instructions == self.body().instructions,
    {
        match self {
            VersionedMessage::Legacy(m) => &m.instructions,
            VersionedMessage::V0(m) => &m.instructions,
        }
    }
}

/// A decoded transaction as the block source hands it over.
#[derive(Clone, Debug)]
pub struct TransactionRecord {
    pub slot: u64,
    pub signature: Signature,
    pub message: VersionedMessage,
    pub meta: ExecutionMeta,
}

impl TransactionRecord {
    /// What holds of every transaction that the chain accepted: the account
    /// list is not empty, its first entry being the fee payer, and every
    /// instruction, top-level or invoked, names its program and its accounts
    /// by indices that lie in the account list.
    pub open spec fn well_formed(&self) -> bool {
        let keys = self.message.body().account_keys@;
        let top = self.message.body().instructions@;
        let groups = self.meta.inner_instructions@;
        &&& keys.len() > 0
        &&& forall|i: int| 0 <= i < top.len() ==> (#[trigger] top[i]).indices_within(keys.len())
        &&& forall|g: int, i: int|
            0 <= g < groups.len() && 0 <= i < groups[g].instructions@.len() ==> (
            #[trigger] groups[g].instructions@[i]).indices_within(keys.len())
    }
}

impl CompiledInstruction {
    /// Whether the program index and every account index is below `count`.
    pub open spec fn indices_within(&self, count: nat) -> bool {
        &&& (self.program_id_index as int) < count
        &&& forall|i: int|
            0 <= i < self.accounts@.len() ==> (#[trigger] self.accounts@[i] as int) < count
    }
}

/// The context that every instruction of one transaction shares. It borrows
/// the message and the execution record instead of copying them.
#[derive(Clone, Copy, Debug)]
pub struct TxMetadata<'a> {
    pub slot: u64,
    pub signature: Signature,
    pub fee_payer: Address,
    pub meta: &'a ExecutionMeta,
    pub message: &'a VersionedMessage,
}

impl<'a> TxMetadata<'a> {
    /// The context of `transaction`, or `None` where its account list is
    /// empty and so names no fee payer.
    pub fn of(transaction: &'a TransactionRecord) -> (metadata: Option<TxMetadata<'a>>)
        ensures
            match metadata {
                Some(m) => {
                    &&& transaction.message.body().account_keys@.len() > 0
                    &&& m.slot == transaction.slot
                    &&& m.signature == transaction.signature
                    &&& m.fee_payer == transaction.message.body().account_keys@[0]
                    &&& *m.meta == transaction.meta
                    &&& *m.message == transaction.message
                },
                None => transaction.message.body().account_keys@.len() == 0,
            },
    {
        let keys = transaction.message.account_keys();
        if keys.len() == 0 {
            None
        } else {
            Some(
                TxMetadata {
                    slot: transaction.slot,
                    signature: transaction.signature,
                    fee_payer: keys[0],
                    meta: &transaction.meta,
                    message: &transaction.message,
                },
            )
        }
    }
}

} // verus!
