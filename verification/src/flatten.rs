use crate::address::{occurs, Address};
use crate::instruction::{resolve, resolved, Instruction, InstructionView};
use crate::transaction::{
    CompiledInstruction, ExecutionMeta, InnerInstructions, TransactionRecord, TxMetadata,
    VersionedMessage,
};
use vstd::prelude::*;

verus! {

/// One executed instruction together with the context of its transaction.
#[derive(Clone, Debug)]
pub struct FlattenedInstruction<'a> {
    pub metadata: &'a TxMetadata<'a>,
    pub instruction: Instruction,
}

/// The instructions of a flattened sequence, without their context.
pub open spec fn instruction_views(flat: Seq<FlattenedInstruction>) -> Seq<InstructionView> {
    flat.map_values(|item: FlattenedInstruction| item.instruction@)
}

/// The instructions that top-level instruction `outer` invoked: those of
/// every group recorded for `outer`, group after group, each in its own
/// order.
pub open spec fn inner_of(groups: Seq<InnerInstructions>, outer: int) -> Seq<CompiledInstruction>
    decreases groups.len(),
{
    if groups.len() == 0 {
        Seq::empty()
    } else {
        let earlier = inner_of(groups.drop_last(), outer);
        if groups.last().index as int == outer {
            earlier + groups.last().instructions@
        } else {
            earlier
        }
    }
}

/// Every instruction of `compiled`, resolved against `keys`.
pub open spec fn resolved_all(keys: Seq<Address>, compiled: Seq<CompiledInstruction>) -> Seq<
    InstructionView,
> {
    compiled.map_values(|c: CompiledInstruction| resolved(keys, c))
}

/// Top-level instruction `outer` followed by what it invoked.
pub open spec fn block(
    keys: Seq<Address>,
    top: Seq<CompiledInstruction>,
    groups: Seq<InnerInstructions>,
    outer: int,
) -> Seq<InstructionView> {
    seq![resolved(keys, top[outer])] + resolved_all(keys, inner_of(groups, outer))
}

/// The blocks of the first `count` top-level instructions, in program order.
pub open spec fn blocks(
    keys: Seq<Address>,
    top: Seq<CompiledInstruction>,
    groups: Seq<InnerInstructions>,
    count: int,
) -> Seq<Seq<InstructionView>> {
    Seq::new(count as nat, |outer: int| block(keys, top, groups, outer))
}

/// Every instruction that a transaction executed, in execution order: the
/// blocks of its top-level instructions, one after the other.
pub open spec fn flattened(
    keys: Seq<Address>,
    top: Seq<CompiledInstruction>,
    groups: Seq<InnerInstructions>,
) -> Seq<InstructionView> {
    blocks(keys, top, groups, top.len() as int).flatten()
}

/// The position in the flattened sequence at which the block of top-level
/// instruction `outer` begins: the number of instructions that the earlier
/// top-level instructions and what they invoked take up.
pub open spec fn block_start(
    keys: Seq<Address>,
    top: Seq<CompiledInstruction>,
    groups: Seq<InnerInstructions>,
    outer: int,
) -> int {
    blocks(keys, top, groups, outer).flatten().len() as int
}

/// The blocks of the first `count` top-level instructions open the flattened
/// sequence of the first `limit`, for `count <= limit`.
proof fn lemma_blocks_prefix(
    keys: Seq<Address>,
    top: Seq<CompiledInstruction>,
    groups: Seq<InnerInstructions>,
    count: int,
    limit: int,
)
    requires
        0 <= count <= limit,
    ensures
        blocks(keys, top, groups, count).flatten().len() <= blocks(
            keys,
            top,
            groups,
            limit,
        ).flatten().len(),
        blocks(keys, top, groups, limit).flatten().take(
            blocks(keys, top, groups, count).flatten().len() as int,
        ) == blocks(keys, top, groups, count).flatten(),
    decreases limit - count,
{
    let whole = blocks(keys, top, groups, limit);
    let part = blocks(keys, top, groups, count);
    if count < limit {
        let shorter = blocks(keys, top, groups, limit - 1);
        lemma_blocks_prefix(keys, top, groups, count, limit - 1);
        whole.lemma_flatten_and_flatten_alt_are_equivalent();
        shorter.lemma_flatten_and_flatten_alt_are_equivalent();
        assert(whole.drop_last() == shorter);
        assert(whole.flatten() == shorter.flatten() + whole.last());
        assert(whole.flatten().take(part.flatten().len() as int) == shorter.flatten().take(
            part.flatten().len() as int,
        ));
    } else {
        assert(whole.flatten().take(whole.flatten().len() as int) == whole.flatten());
    }
}

/// Order preservation: in the flattened sequence every top-level instruction
/// is followed at once by the instructions it invoked, in their recorded
/// order, and the next top-level instruction comes only after the last of
/// them.
pub proof fn lemma_outer_then_inner(
    keys: Seq<Address>,
    top: Seq<CompiledInstruction>,
    groups: Seq<InnerInstructions>,
    outer: int,
)
    requires
        0 <= outer < top.len(),
    ensures
        ({
            let flat = flattened(keys, top, groups);
            let start = block_start(keys, top, groups, outer);
            let inner = resolved_all(keys, inner_of(groups, outer));
            &&& 0 <= start
            &&& start + 1 + inner.len() <= flat.len()
            &&& flat[start] == resolved(keys, top[outer])
            &&& flat.subrange(start + 1, start + 1 + inner.len()) == inner
            &&& block_start(keys, top, groups, outer + 1) == start + 1 + inner.len()
        }),
{
    let flat = flattened(keys, top, groups);
    let before = blocks(keys, top, groups, outer);
    let through = blocks(keys, top, groups, outer + 1);
    let inner = resolved_all(keys, inner_of(groups, outer));
    let start = block_start(keys, top, groups, outer);
    before.lemma_flatten_and_flatten_alt_are_equivalent();
    through.lemma_flatten_and_flatten_alt_are_equivalent();
    assert(through.drop_last() == before);
    assert(through.flatten() == before.flatten() + block(keys, top, groups, outer));
    lemma_blocks_prefix(keys, top, groups, outer + 1, top.len() as int);
    assert(flat.take(through.flatten().len() as int) == through.flatten());
    assert(flat[start] == through.flatten()[start]);
    assert(flat.subrange(start + 1, start + 1 + inner.len()) == inner) by {
        assert forall|k: int| 0 <= k < inner.len() implies flat[start + 1 + k] == inner[k] by {
            assert(flat[start + 1 + k] == through.flatten()[start + 1 + k]);
        }
    }
}

/// Whether the transaction holds `compiled`, as a top-level instruction or
/// in one of the groups of invoked instructions.
pub open spec fn recorded(
    top: Seq<CompiledInstruction>,
    groups: Seq<InnerInstructions>,
    compiled: CompiledInstruction,
) -> bool {
    ||| exists|i: int| 0 <= i < top.len() && top[i] == compiled
    ||| exists|g: int, i: int|
        0 <= g < groups.len() && 0 <= i < groups[g].instructions@.len()
            && groups[g].instructions@[i] == compiled
}

/// What a top-level instruction invoked stands in the groups.
proof fn lemma_inner_of_is_recorded(groups: Seq<InnerInstructions>, outer: int, k: int)
    requires
        0 <= k < inner_of(groups, outer).len(),
    ensures
        exists|g: int, i: int|
            0 <= g < groups.len() && 0 <= i < groups[g].instructions@.len()
                && groups[g].instructions@[i] == inner_of(groups, outer)[k],
    decreases groups.len(),
{
    let earlier = inner_of(groups.drop_last(), outer);
    if k < earlier.len() {
        lemma_inner_of_is_recorded(groups.drop_last(), outer, k);
        let (g, i) = choose|g: int, i: int|
            0 <= g < groups.drop_last().len() && 0 <= i < groups.drop_last()[g].instructions@.len()
                && groups.drop_last()[g].instructions@[i] == earlier[k];
        assert(groups[g].instructions@[i] == inner_of(groups, outer)[k]);
    } else {
        let g = groups.len() - 1;
        let i = k - earlier.len();
        assert(groups[g].instructions@[i] == inner_of(groups, outer)[k]);
    }
}

/// The blocks of the first `count` top-level instructions hold resolved
/// instructions of the transaction and nothing else.
proof fn lemma_blocks_are_recorded(
    keys: Seq<Address>,
    top: Seq<CompiledInstruction>,
    groups: Seq<InnerInstructions>,
    count: int,
    k: int,
)
    requires
        0 <= count <= top.len(),
        0 <= k < blocks(keys, top, groups, count).flatten().len(),
    ensures
        exists|compiled: CompiledInstruction| #[trigger]
            recorded(top, groups, compiled) && blocks(keys, top, groups, count).flatten()[k]
                == resolved(keys, compiled),
    decreases count,
{
    let all = blocks(keys, top, groups, count);
    all.lemma_flatten_and_flatten_alt_are_equivalent();
    if count > 0 {
        let before = blocks(keys, top, groups, count - 1);
        before.lemma_flatten_and_flatten_alt_are_equivalent();
        assert(all.drop_last() == before);
        assert(all.flatten() == before.flatten() + block(keys, top, groups, count - 1));
        if k < before.flatten().len() {
            lemma_blocks_are_recorded(keys, top, groups, count - 1, k);
            let compiled = choose|compiled: CompiledInstruction| #[trigger]
                recorded(top, groups, compiled) && before.flatten()[k] == resolved(
                    keys,
                    compiled,
                );
            assert(recorded(top, groups, compiled) && all.flatten()[k] == resolved(keys, compiled));
        } else {
            let at = k - before.flatten().len();
            if at == 0 {
                let compiled = top[count - 1];
                assert(recorded(top, groups, compiled) && all.flatten()[k] == resolved(
                    keys,
                    compiled,
                ));
            } else {
                lemma_inner_of_is_recorded(groups, count - 1, at - 1);
                let compiled = inner_of(groups, count - 1)[at - 1];
                assert(recorded(top, groups, compiled) && all.flatten()[k] == resolved(
                    keys,
                    compiled,
                ));
            }
        }
    }
}

/// Flattening makes nothing up: every instruction of the flattened sequence
/// is an instruction that the transaction holds, resolved against its
/// account list.
pub proof fn lemma_flattened_is_recorded(
    keys: Seq<Address>,
    top: Seq<CompiledInstruction>,
    groups: Seq<InnerInstructions>,
    k: int,
)
    requires
        0 <= k < flattened(keys, top, groups).len(),
    ensures
        exists|compiled: CompiledInstruction| #[trigger]
            recorded(top, groups, compiled) && flattened(keys, top, groups)[k] == resolved(
                keys,
                compiled,
            ),
{
    lemma_blocks_are_recorded(keys, top, groups, top.len() as int, k);
}

/// In a well-formed transaction every executed instruction runs a program
/// of the account list.
pub proof fn lemma_well_formed_programs_are_listed(transaction: TransactionRecord, k: int)
    requires
        transaction.well_formed(),
        0 <= k < flattened(
            transaction.message.body().account_keys@,
            transaction.message.body().instructions@,
            transaction.meta.inner_instructions@,
        ).len(),
    ensures
        occurs(
            transaction.message.body().account_keys@,
            flattened(
                transaction.message.body().account_keys@,
                transaction.message.body().instructions@,
                transaction.meta.inner_instructions@,
            )[k].program_id,
        ),
{
    let keys = transaction.message.body().account_keys@;
    let top = transaction.message.body().instructions@;
    let groups = transaction.meta.inner_instructions@;
    lemma_flattened_is_recorded(keys, top, groups, k);
    let compiled = choose|compiled: CompiledInstruction| #[trigger]
        recorded(top, groups, compiled) && flattened(keys, top, groups)[k] == resolved(
            keys,
            compiled,
        );
    assert(compiled.indices_within(keys.len()));
    assert(keys[compiled.program_id_index as int] == resolved(keys, compiled).program_id);
}

/// Appends to `out` what top-level instruction `outer` invoked.
fn push_inner<'a>(
    metadata: &'a TxMetadata<'a>,
    keys: &Vec<Address>,
    groups: &Vec<InnerInstructions>,
    outer: usize,
    out: &mut Vec<FlattenedInstruction<'a>>,
)
    ensures
        instruction_views(final(out)@) == instruction_views(old(out)@) + resolved_all(
            keys@,
            inner_of(groups@, outer as int),
        ),
        forall|k: int|
            0 <= k < old(out)@.len() ==> (#[trigger] final(out)@[k]) == old(out)@[k],
        forall|k: int|
            old(out)@.len() <= k < final(out)@.len() ==> (#[trigger] final(out)@[k]).metadata
                == metadata,
{
    let ghost before = instruction_views(out@);
    let ghost start = out@;
    let mut g: usize = 0;
    while g < groups.len()
        invariant
            g <= groups.len(),
            before == instruction_views(start),
            instruction_views(out@) == before + resolved_all(
                keys@,
                inner_of(groups@.take(g as int), outer as int),
            ),
            start.len() <= out@.len(),
            forall|k: int| 0 <= k < start.len() ==> (#[trigger] out@[k]) == start[k],
            forall|k: int|
                start.len() <= k < out@.len() ==> (#[trigger] out@[k]).metadata == metadata,
        decreases groups.len() - g,
    {
        let group = &groups[g];
        let ghost earlier = inner_of(groups@.take(g as int), outer as int);
        proof {
            assert(groups@.take(g + 1).drop_last() == groups@.take(g as int));
            assert(groups@.take(g + 1).last() == groups@[g as int]);
        }
        if group.index as usize == outer {
            let mut k: usize = 0;
            while k < group.instructions.len()
                invariant
                    k <= group.instructions.len(),
                    before == instruction_views(start),
                    instruction_views(out@) == before + resolved_all(
                        keys@,
                        earlier + group.instructions@.take(k as int),
                    ),
                    start.len() <= out@.len(),
                    forall|j: int| 0 <= j < start.len() ==> (#[trigger] out@[j]) == start[j],
                    forall|j: int|
                        start.len() <= j < out@.len() ==> (#[trigger] out@[j]).metadata
                            == metadata,
                decreases group.instructions.len() - k,
            {
                let instruction = resolve(keys, &group.instructions[k]);
                let ghost views = instruction_views(out@);
                out.push(FlattenedInstruction { metadata, instruction });
                proof {
                    assert(instruction_views(out@) == views.push(instruction@));
                    assert(group.instructions@.take(k + 1) == group.instructions@.take(
                        k as int,
                    ).push(group.instructions@[k as int]));
                    assert(resolved_all(keys@, earlier + group.instructions@.take(k + 1))
                        == resolved_all(keys@, earlier + group.instructions@.take(k as int)).push(
                        instruction@,
                    ));
                }
                k += 1;
            }
            proof {
                assert(group.instructions@.take(group.instructions@.len() as int)
                    == group.instructions@);
            }
        } else {
            proof {
                assert(earlier + group.instructions@.take(0) == earlier);
            }
        }
        g += 1;
    }
    proof {
        assert(groups@.take(groups@.len() as int) == groups@);
    }
}

/// Lists every instruction that a transaction executed, in execution order.
///
/// The top-level instructions of `message` come in program order, and each is
/// followed at once by the instructions that `meta` records as invoked by it,
/// in the order in which the chain executed them. Whether the transaction
/// succeeded plays no part: what was recorded is listed. Every item carries
/// `metadata`.
pub fn flatten<'a>(
    metadata: &'a TxMetadata<'a>,
    message: &VersionedMessage,
    meta: &ExecutionMeta,
) -> (flat: Vec<FlattenedInstruction<'a>>)
    ensures
        instruction_views(flat@) == flattened(
            message.body().account_keys@,
            message.body().instructions@,
            meta.inner_instructions@,
        ),
        forall|k: int| 0 <= k < flat@.len() ==> (#[trigger] flat@[k]).metadata == metadata,
{
    let keys = message.account_keys();
    let top = message.instructions();
    let groups = &meta.inner_instructions;
    let mut flat: Vec<FlattenedInstruction<'a>> = Vec::new();
    let mut outer: usize = 0;
    proof {
        assert(instruction_views(flat@) == blocks(keys@, top@, groups@, 0).flatten_alt());
    }
    while outer < top.len()
        invariant
            outer <= top.len(),
            instruction_views(flat@) == blocks(keys@, top@, groups@, outer as int).flatten_alt(),
            forall|k: int| 0 <= k < flat@.len() ==> (#[trigger] flat@[k]).metadata == metadata,
        decreases top.len() - outer,
    {
        let instruction = resolve(keys, &top[outer]);
        let ghost views = instruction_views(flat@);
        flat.push(FlattenedInstruction { metadata, instruction });
        proof {
            assert(instruction_views(flat@) == views.push(instruction@));
        }
        push_inner(metadata, keys, groups, outer, &mut flat);
        proof {
            let next = blocks(keys@, top@, groups@, outer + 1);
            assert(next.drop_last() == blocks(keys@, top@, groups@, outer as int));
            assert(next.last() == block(keys@, top@, groups@, outer as int));
            assert(instruction_views(flat@) == views + block(keys@, top@, groups@, outer as int));
        }
        outer += 1;
    }
    proof {
        blocks(keys@, top@, groups@, top@.len() as int).lemma_flatten_and_flatten_alt_are_equivalent();
    }
    flat
}

} // verus!
