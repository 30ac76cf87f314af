use crate::address::Address;
use crate::instruction::{Instruction, InstructionView};
use carbon_core::instruction::InstructionDecoder as OutsideDecoder;
use carbon_pumpfun_decoder::instructions::PumpfunInstruction;
use vstd::prelude::*;

verus! {

/// A trade on the pump.fun bonding curve, as the program reports it.
#[derive(Clone, Copy, Debug, PartialEq, Eq)]
pub struct TradeEvent {
    pub mint: Address,
    pub sol_amount: u64,
    pub token_amount: u64,
    pub is_buy: bool,
    pub user: Address,
    pub timestamp: i64,
}

impl TradeEvent {
    /// What the user handed over: lamports when buying, tokens when selling.
    pub open spec fn spec_amount_in(&self) -> u64 {
        if self.is_buy {
            self.sol_amount
        } else {
            self.token_amount
        }
    }

    /// What the user got: tokens when buying, lamports when selling.
    pub open spec fn spec_amount_out(&self) -> u64 {
        if self.is_buy {
            self.token_amount
        } else {
            self.sol_amount
        }
    }

    /// What the user handed over: lamports when buying, tokens when selling.
    /// The amount is passed through as decoded.
    #[verifier::when_used_as_spec(spec_amount_in)]
    pub fn amount_in(&self) -> (amount: u64)
        ensures
            amount == self.spec_amount_in(),
    {
        if self.is_buy {
            self.sol_amount
        } else {
            self.token_amount
        }
    }

    /// What the user got: tokens when buying, lamports when selling. The
    /// amount is passed through as decoded.
    #[verifier::when_used_as_spec(spec_amount_out)]
    pub fn amount_out(&self) -> (amount: u64)
        ensures
            amount == self.spec_amount_out(),
    {
        if self.is_buy {
            self.token_amount
        } else {
            self.sol_amount
        }
    }
}

/// What a decoder recognised in an instruction, tagged by program and kind.
#[derive(Clone, Copy, Debug, PartialEq, Eq)]
pub enum DecodedEvent {
    /// A pump.fun trade.
    Trade(TradeEvent),
}

/// A decoder for the instructions of one program.
///
/// What a decoder returns depends on the instruction alone: on its program
/// address and its bytes. An instruction of another program, or one whose
/// payload fits no known layout, is not an error: the decoder returns `None`.
pub trait InstructionDecoder {
    /// What this decoder makes of `instruction`.
    spec fn decoded(&self, instruction: InstructionView) -> Option<DecodedEvent>;

    /// Decodes `instruction`.
    fn decode(&self, instruction: &Instruction) -> (event: Option<DecodedEvent>)
        ensures
            event == self.decoded(instruction@),
    ;
}

/// Length of the discriminator that opens the payload of a trade event.
pub const TRADE_DISCRIMINATOR_LEN: usize = 16;

/// Length of the shortest payload that holds a trade event: the
/// discriminator and the fields of the event, which are all of fixed width.
pub const TRADE_PAYLOAD_MIN_LEN: usize = 266;

/// The address of the pump.fun program,
/// `6EF8rrecthR5Dkzon8Nwu78hRvfCKubJ14M5uBEwF6P`.
pub open spec fn pumpfun_program_id() -> Seq<u8> {
    seq![
        1u8, 86u8, 224u8, 246u8, 147u8, 102u8, 90u8, 207u8,
        68u8, 219u8, 21u8, 104u8, 191u8, 23u8, 91u8, 170u8,
        81u8, 137u8, 203u8, 151u8, 245u8, 210u8, 255u8, 59u8,
        101u8, 93u8, 43u8, 182u8, 253u8, 109u8, 24u8, 176u8,
    ]
}

/// The sixteen bytes that open the payload of a trade event.
pub open spec fn trade_discriminator() -> Seq<u8> {
    seq![
        228u8, 69u8, 165u8, 46u8, 81u8, 203u8, 154u8, 29u8,
        189u8, 219u8, 127u8, 211u8, 78u8, 230u8, 97u8, 238u8,
    ]
}

/// Whether `data` can be the payload of a trade event: it opens with the
/// discriminator of one and is long enough for all the fields.
pub open spec fn is_trade_payload(data: Seq<u8>) -> bool {
    data.len() >= TRADE_PAYLOAD_MIN_LEN && data.take(TRADE_DISCRIMINATOR_LEN as int)
        == trade_discriminator()
}

/// The trade event that the pump.fun decoder of `carbon_pumpfun_decoder`
/// reads from an instruction of program `program` with payload `data`, if it
/// reads one.
pub uninterp spec fn pumpfun_trade_event(program: Seq<u8>, data: Seq<u8>) -> Option<TradeEvent>;

/// Hands an instruction to `PumpfunDecoder::decode_instruction` of
/// `carbon_pumpfun_decoder` and keeps the trade event, if that is what was
/// decoded.
///
/// Not proved, taken from the decoder's source: the result depends on the
/// program address and the payload alone; a trade event comes only from an
/// instruction of the pump.fun program whose payload opens with the
/// discriminator of a trade event and then holds every field of the event,
/// 250 bytes in all. The decoder slices the first eight bytes of a payload
/// that is not empty without testing its length, so a payload of one to
/// seven bytes is not admitted. The accounts are not handed over: the
/// decoder does no more than copy them into its answer.
#[verifier::external_body]
fn pumpfun_decode(instruction: &Instruction) -> (trade: Option<TradeEvent>)
    requires
        instruction.data@.len() == 0 || instruction.data@.len() >= 8,
    ensures
        trade == pumpfun_trade_event(instruction.program_id@, instruction.data@),
        trade is Some ==> instruction.program_id@ == pumpfun_program_id() && is_trade_payload(
            instruction.data@,
        ),
{
    let program_id = solana_pubkey::Pubkey::new_from_array(instruction.program_id.bytes);
    let data = instruction.data.clone();
    let outside = solana_instruction::Instruction { program_id, accounts: Vec::new(), data };
    match carbon_pumpfun_decoder::PumpfunDecoder.decode_instruction(&outside)?.data {
        PumpfunInstruction::TradeEvent(e) => Some(TradeEvent {
            mint: Address { bytes: e.mint.to_bytes() },
            user: Address { bytes: e.user.to_bytes() },
            sol_amount: e.sol_amount, token_amount: e.token_amount,
            is_buy: e.is_buy, timestamp: e.timestamp,
        }),
        _ => None,
    }
}

/// The decoder for the pump.fun program. It surfaces trade events.
#[derive(Clone, Copy, Debug)]
pub struct PumpfunDecoder;

impl PumpfunDecoder {
    /// The trade event in `instruction`, if it holds one. A payload too short
    /// for the discriminator of a trade event holds none.
    pub open spec fn trade_of(instruction: InstructionView) -> Option<TradeEvent> {
        if instruction.data.len() < TRADE_DISCRIMINATOR_LEN {
            None
        } else {
            pumpfun_trade_event(instruction.program_id@, instruction.data)
        }
    }

    /// Reads the trade event in `instruction`, if it holds one.
    ///
    /// An instruction of another program, a payload that opens with other
    /// bytes than the discriminator of a trade event, and a payload cut
    /// short all give `None`.
    pub fn decode_trade(&self, instruction: &Instruction) -> (trade: Option<TradeEvent>)
        ensures
            trade == Self::trade_of(instruction@),
            instruction.program_id@ != pumpfun_program_id() ==> trade is None,
            !is_trade_payload(instruction.data@) ==> trade is None,
    {
        if instruction.data.len() < TRADE_DISCRIMINATOR_LEN {
            None
        } else {
            pumpfun_decode(instruction)
        }
    }
}

impl InstructionDecoder for PumpfunDecoder {
    open spec fn decoded(&self, instruction: InstructionView) -> Option<DecodedEvent> {
        match Self::trade_of(instruction) {
            Some(trade) => Some(DecodedEvent::Trade(trade)),
            None => None,
        }
    }

    fn decode(&self, instruction: &Instruction) -> (event: Option<DecodedEvent>)
        ensures
            instruction.program_id@ != pumpfun_program_id() ==> event is None,
            !is_trade_payload(instruction.data@) ==> event is None,
    {
        match self.decode_trade(instruction) {
            Some(trade) => Some(DecodedEvent::Trade(trade)),
            None => None,
        }
    }
}

/// Decoder purity: what the pump.fun decoder reads from an instruction is
/// settled by the program address and the payload. Two instructions that
/// agree on both decode alike, whatever accounts they name.
pub proof fn lemma_pumpfun_reads_program_and_payload(a: InstructionView, b: InstructionView)
    requires
        a.program_id == b.program_id,
        a.data == b.data,
    ensures
        PumpfunDecoder.decoded(a) == PumpfunDecoder.decoded(b),
{
}

} // verus!
