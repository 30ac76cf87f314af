use crate::address::{contains_address, occurs, Address};
use crate::decoder::{DecodedEvent, InstructionDecoder};
use crate::flatten::{flatten, flattened, instruction_views, FlattenedInstruction};
use crate::instruction::InstructionView;
use crate::registry::{first_match, DecoderRegistry};
use crate::transaction::{Signature, TransactionRecord, TxMetadata};
use vstd::prelude::*;

verus! {

/// A recognised event together with the transaction it was found in: what
/// the pipeline reports.
#[derive(Clone, Copy, Debug, PartialEq, Eq)]
pub struct EventRecord {
    pub signature: Signature,
    pub slot: u64,
    pub event: DecodedEvent,
}

/// Whether a transaction passes the filter for `target`: it has at least one
/// instruction, and `target` is in its account list. Accounts that only an
/// invoked instruction names are not looked at.
pub open spec fn involves(target: Address, transaction: TransactionRecord) -> bool {
    transaction.message.body().instructions@.len() > 0 && occurs(
        transaction.message.body().account_keys@,
        target,
    )
}

/// The filter: tells whether `transaction` involves `target`.
pub fn matches(target: &Address, transaction: &TransactionRecord) -> (hit: bool)
    ensures
        hit == involves(*target, *transaction),
{
    if transaction.message.instructions().len() == 0 {
        return false;
    }
    contains_address(transaction.message.account_keys(), target)
}

/// The record for one instruction of the transaction `signature` in `slot`,
/// if a decoder recognises the instruction.
pub open spec fn record_of<D: InstructionDecoder>(
    decoders: Seq<D>,
    signature: Signature,
    slot: u64,
    instruction: InstructionView,
) -> Option<EventRecord> {
    match first_match(decoders, instruction) {
        Some(event) => Some(EventRecord { signature, slot, event }),
        None => None,
    }
}

/// The records for a sequence of instructions of one transaction, in the
/// order of the instructions. An instruction that no decoder recognises adds
/// nothing and takes nothing away.
pub open spec fn records_of<D: InstructionDecoder>(
    decoders: Seq<D>,
    signature: Signature,
    slot: u64,
    instructions: Seq<InstructionView>,
) -> Seq<EventRecord> {
    instructions.filter_map(
        |instruction: InstructionView| record_of(decoders, signature, slot, instruction),
    )
}

/// What the pipeline reports for a transaction: nothing at all (`None`)
/// unless the transaction involves `target`, and else the records of the
/// instructions it executed, in execution order.
pub open spec fn transaction_events<D: InstructionDecoder>(
    decoders: Seq<D>,
    target: Address,
    transaction: TransactionRecord,
) -> Option<Seq<EventRecord>> {
    if involves(target, transaction) {
        Some(
            records_of(
                decoders,
                transaction.signature,
                transaction.slot,
                flattened(
                    transaction.message.body().account_keys@,
                    transaction.message.body().instructions@,
                    transaction.meta.inner_instructions@,
                ),
            ),
        )
    } else {
        None
    }
}

/// Decodes every instruction of `flat` and reports those that a decoder of
/// `registry` recognises, under the signature and the slot that the item
/// carries. An instruction that is not recognised is passed over and the
/// rest is still decoded.
pub fn decode_all<'a, D: InstructionDecoder>(
    registry: &DecoderRegistry<D>,
    flat: &Vec<FlattenedInstruction<'a>>,
) -> (records: Vec<EventRecord>)
    ensures
        records@ == flat@.filter_map(
            |item: FlattenedInstruction|
                record_of(registry@, item.metadata.signature, item.metadata.slot, item.instruction@),
        ),
{
    let ghost record = |item: FlattenedInstruction|
        record_of(registry@, item.metadata.signature, item.metadata.slot, item.instruction@);
    let mut records: Vec<EventRecord> = Vec::new();
    let mut i: usize = 0;
    while i < flat.len()
        invariant
            i <= flat.len(),
            record == |item: FlattenedInstruction|
                record_of(
                    registry@,
                    item.metadata.signature,
                    item.metadata.slot,
                    item.instruction@,
                ),
            records@ == flat@.take(i as int).filter_map(record),
        decreases flat.len() - i,
    {
        let item = &flat[i];
        proof {
            flat@.lemma_filter_map_take_succ(record, i as int);
        }
        match registry.decode(&item.instruction) {
            Some(event) => {
                records.push(
                    EventRecord {
                        signature: item.metadata.signature,
                        slot: item.metadata.slot,
                        event,
                    },
                );
            },
            None => {},
        }
        i += 1;
    }
    proof {
        assert(flat@.take(flat@.len() as int) == flat@);
    }
    records
}

/// Items that all carry one signature and one slot give the records of
/// their instructions under that signature and slot.
proof fn lemma_records_of_one_transaction<D: InstructionDecoder>(
    decoders: Seq<D>,
    flat: Seq<FlattenedInstruction>,
    signature: Signature,
    slot: u64,
)
    requires
        forall|k: int|
            0 <= k < flat.len() ==> (#[trigger] flat[k]).metadata.signature == signature
                && flat[k].metadata.slot == slot,
    ensures
        flat.filter_map(
            |item: FlattenedInstruction|
                record_of(decoders, item.metadata.signature, item.metadata.slot, item.instruction@),
        ) == records_of(decoders, signature, slot, instruction_views(flat)),
    decreases flat.len(),
{
    let by_item = |item: FlattenedInstruction|
        record_of(decoders, item.metadata.signature, item.metadata.slot, item.instruction@);
    let by_view = |instruction: InstructionView| record_of(decoders, signature, slot, instruction);
    if flat.len() > 0 {
        lemma_records_of_one_transaction(decoders, flat.drop_last(), signature, slot);
        assert(instruction_views(flat).drop_last() == instruction_views(flat.drop_last()));
        assert(by_item(flat.last()) == by_view(instruction_views(flat).last()));
    }
}

/// Gating: a transaction whose account list does not hold `target` yields
/// nothing, whatever it executed and whatever decoders are registered.
pub proof fn lemma_no_target_no_events<D: InstructionDecoder>(
    decoders: Seq<D>,
    target: Address,
    transaction: TransactionRecord,
)
    requires
        !occurs(transaction.message.body().account_keys@, target),
    ensures
        transaction_events(decoders, target, transaction) is None,
{
}

/// The records of two runs of instructions, one after the other, are the
/// records of the first followed by the records of the second.
pub proof fn lemma_records_concat<D: InstructionDecoder>(
    decoders: Seq<D>,
    signature: Signature,
    slot: u64,
    first: Seq<InstructionView>,
    second: Seq<InstructionView>,
)
    ensures
        records_of(decoders, signature, slot, first + second) == records_of(
            decoders,
            signature,
            slot,
            first,
        ) + records_of(decoders, signature, slot, second),
    decreases second.len(),
{
    if second.len() == 0 {
        assert(first + second == first);
    } else {
        lemma_records_concat(decoders, signature, slot, first, second.drop_last());
        assert((first + second).drop_last() == first + second.drop_last());
        assert((first + second).last() == second.last());
    }
}

/// Isolation of decode failures: an instruction that no decoder recognises,
/// wherever it stands, leaves the records of the instructions before it and
/// after it as they are.
pub proof fn lemma_unrecognised_is_skipped<D: InstructionDecoder>(
    decoders: Seq<D>,
    signature: Signature,
    slot: u64,
    before: Seq<InstructionView>,
    unrecognised: InstructionView,
    after: Seq<InstructionView>,
)
    requires
        first_match(decoders, unrecognised) is None,
    ensures
        records_of(decoders, signature, slot, before + seq![unrecognised] + after) == records_of(
            decoders,
            signature,
            slot,
            before,
        ) + records_of(decoders, signature, slot, after),
{
    lemma_records_concat(decoders, signature, slot, before + seq![unrecognised], after);
    lemma_records_concat(decoders, signature, slot, before, seq![unrecognised]);
    assert(seq![unrecognised].drop_last() == Seq::<InstructionView>::empty());
    assert(records_of(decoders, signature, slot, seq![unrecognised]) == Seq::<
        EventRecord,
    >::empty()) by {
        reveal_with_fuel(Seq::filter_map, 2);
    }
}

/// Runs the pipeline on one transaction: the filter, and on a match the
/// flattener and the decoders.
///
/// Returns `None` when the transaction does not involve `target`; nothing is
/// flattened or decoded then. On a match it returns the records of the
/// recognised instructions in execution order, which may be none.
pub fn process<D: InstructionDecoder>(
    target: &Address,
    registry: &DecoderRegistry<D>,
    transaction: &TransactionRecord,
) -> (found: Option<Vec<EventRecord>>)
    ensures
        match found {
            Some(records) => transaction_events(registry@, *target, *transaction) == Some(
                records@,
            ),
            None => transaction_events(registry@, *target, *transaction) is None,
        },
        !occurs(transaction.message.body().account_keys@, *target) ==> found is None,
        transaction.message.body().instructions@.len() == 0 ==> found is None,
{
    if !matches(target, transaction) {
        return None;
    }
    let metadata = match TxMetadata::of(transaction) {
        Some(metadata) => metadata,
        None => {
            return None;
        },
    };
    let flat = flatten(&metadata, &transaction.message, &transaction.meta);
    let records = decode_all(registry, &flat);
    proof {
        lemma_records_of_one_transaction(
            registry@,
            flat@,
            transaction.signature,
            transaction.slot,
        );
    }
    Some(records)
}

} // verus!
