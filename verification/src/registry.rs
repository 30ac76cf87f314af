use crate::decoder::{DecodedEvent, InstructionDecoder};
use crate::instruction::{Instruction, InstructionView};
use vstd::prelude::*;

verus! {

/// What the first decoder of `decoders` that recognises `instruction` makes
/// of it; `None` if none of them does.
pub open spec fn first_match<D: InstructionDecoder>(
    decoders: Seq<D>,
    instruction: InstructionView,
) -> Option<DecodedEvent>
    decreases decoders.len(),
{
    if decoders.len() == 0 {
        None
    } else {
        match decoders.first().decoded(instruction) {
            Some(event) => Some(event),
            None => first_match(decoders.drop_first(), instruction),
        }
    }
}

/// The decoders of a pipeline, in the order in which they were registered.
/// An instruction goes to each in turn, and the first that recognises it
/// decides.
pub struct DecoderRegistry<D: InstructionDecoder> {
    pub decoders: Vec<D>,
}

impl<D: InstructionDecoder> View for DecoderRegistry<D> {
    type V = Seq<D>;

    open spec fn view(&self) -> Seq<D> {
        self.decoders@
    }
}

impl<D: InstructionDecoder> DecoderRegistry<D> {
    /// A registry without decoders: it recognises nothing.
    pub fn new() -> (registry: Self)
        ensures
            registry@ == Seq::<D>::empty(),
    {
        DecoderRegistry { decoders: Vec::new() }
    }

    /// Registers `decoder` behind those already there.
    pub fn register(&mut self, decoder: D)
        ensures
            final(self)@ == old(self)@.push(decoder),
    {
        self.decoders.push(decoder);
    }

    /// The number of decoders registered.
    pub fn len(&self) -> (count: usize)
        ensures
            count == self@.len(),
    {
        self.decoders.len()
    }

    /// Whether no decoder is registered.
    pub fn is_empty(&self) -> (empty: bool)
        ensures
            empty == (self@.len() == 0),
    {
        self.decoders.len() == 0
    }

    /// Decodes `instruction` with the first decoder that recognises it.
    pub fn decode(&self, instruction: &Instruction) -> (event: Option<DecodedEvent>)
        ensures
            event == first_match(self@, instruction@),
    {
        let mut i: usize = 0;
        proof {
            assert(self@.skip(0) == self@);
        }
        while i < self.decoders.len()
            invariant
                i <= self.decoders.len(),
                first_match(self@, instruction@) == first_match(
                    self@.skip(i as int),
                    instruction@,
                ),
            decreases self.decoders.len() - i,
        {
            let event = self.decoders[i].decode(instruction);
            proof {
                assert(self@.skip(i as int).first() == self@[i as int]);
                assert(self@.skip(i as int).drop_first() == self@.skip(i + 1));
            }
            if event.is_some() {
                return event;
            }
            i += 1;
        }
        None
    }
}

/// A registry recognises an instruction exactly when one of its decoders
/// does, and then answers as the earliest of them.
pub proof fn lemma_first_match_is_earliest<D: InstructionDecoder>(
    decoders: Seq<D>,
    instruction: InstructionView,
)
    ensures
        first_match(decoders, instruction) is None <==> forall|i: int|
            0 <= i < decoders.len() ==> (#[trigger] decoders[i]).decoded(instruction) is None,
        first_match(decoders, instruction) is Some ==> exists|i: int|
            0 <= i < decoders.len() && decoders[i].decoded(instruction) == first_match(
                decoders,
                instruction,
            ) && forall|j: int|
                0 <= j < i ==> (#[trigger] decoders[j]).decoded(instruction) is None,
    decreases decoders.len(),
{
    if decoders.len() > 0 {
        let rest = decoders.drop_first();
        lemma_first_match_is_earliest(rest, instruction);
        assert forall|i: int| 0 <= i < rest.len() implies rest[i] == decoders[i + 1] by {}
        if decoders.first().decoded(instruction) is Some {
            assert(decoders[0].decoded(instruction) == first_match(decoders, instruction));
        } else {
            if first_match(rest, instruction) is Some {
                let i = choose|i: int|
                    0 <= i < rest.len() && rest[i].decoded(instruction) == first_match(
                        rest,
                        instruction,
                    ) && forall|j: int|
                        0 <= j < i ==> (#[trigger] rest[j]).decoded(instruction) is None;
                assert(decoders[i + 1] == rest[i]);
                assert forall|j: int| 0 <= j < i + 1 implies (#[trigger] decoders[j]).decoded(
                    instruction,
                ) is None by {
                    if j > 0 {
                        assert(decoders[j] == rest[j - 1]);
                    }
                }
            } else {
                assert forall|i: int| 0 <= i < decoders.len() implies (#[trigger] decoders[i]).decoded(
                    instruction,
                ) is None by {
                    if i > 0 {
                        assert(decoders[i] == rest[i - 1]);
                    }
                }
            }
        }
    }
}

/// Where exactly one decoder recognises an instruction, as it is when the
/// decoders are registered for programs that differ, that decoder decides,
/// wherever it stands in the order of registration.
pub proof fn lemma_sole_match_decides<D: InstructionDecoder>(
    decoders: Seq<D>,
    instruction: InstructionView,
    sole: int,
)
    requires
        0 <= sole < decoders.len(),
        decoders[sole].decoded(instruction) is Some,
        forall|i: int|
            0 <= i < decoders.len() && i != sole ==> (#[trigger] decoders[i]).decoded(instruction)
                is None,
    ensures
        first_match(decoders, instruction) == decoders[sole].decoded(instruction),
{
    lemma_first_match_is_earliest(decoders, instruction);
}

} // verus!
