use mint_tracking::address::Address;
use mint_tracking::decoder::{DecodedEvent, InstructionDecoder, PumpfunDecoder, TradeEvent};
use mint_tracking::flatten::flatten;
use mint_tracking::instruction::{copy_bytes, resolve, Instruction};
use mint_tracking::pipeline::{decode_all, process, EventRecord};
use mint_tracking::plugin::MintTrackingPlugin;
use mint_tracking::registry::DecoderRegistry;
use mint_tracking::transaction::{
    CompiledInstruction, ExecutionMeta, ExecutionStatus, InnerInstructions, Message, Signature,
    TransactionRecord, TxMetadata, VersionedMessage,
};

const PUMPFUN: [u8; 32] = [
    1, 86, 224, 246, 147, 102, 90, 207, 68, 219, 21, 104, 191, 23, 91, 170, 81, 137, 203, 151, 245,
    210, 255, 59, 101, 93, 43, 182, 253, 109, 24, 176,
];

const TRADE_DISCRIMINATOR: [u8; 16] = [
    228, 69, 165, 46, 81, 203, 154, 29, 189, 219, 127, 211, 78, 230, 97, 238,
];

fn address(tag: u8) -> Address {
    Address { bytes: [tag; 32] }
}

fn pumpfun() -> Address {
    Address { bytes: PUMPFUN }
}

fn signature(tag: u8) -> Signature {
    Signature { bytes: [tag; 64] }
}

fn trade(mint: Address, user: Address, is_buy: bool, sol: u64, token: u64, time: i64) -> TradeEvent {
    TradeEvent { mint, sol_amount: sol, token_amount: token, is_buy, user, timestamp: time }
}

/// The payload by which the pump.fun program reports `event`.
fn trade_payload(event: &TradeEvent) -> Vec<u8> {
    let mut data: Vec<u8> = Vec::new();
    data.extend_from_slice(&TRADE_DISCRIMINATOR);
    data.extend_from_slice(&event.mint.bytes);
    data.extend_from_slice(&event.sol_amount.to_le_bytes());
    data.extend_from_slice(&event.token_amount.to_le_bytes());
    data.push(if event.is_buy { 1 } else { 0 });
    data.extend_from_slice(&event.user.bytes);
    data.extend_from_slice(&event.timestamp.to_le_bytes());
    // virtual and real reserves
    data.extend_from_slice(&30_000_000_000u64.to_le_bytes());
    data.extend_from_slice(&1_073_000_000_000_000u64.to_le_bytes());
    data.extend_from_slice(&0u64.to_le_bytes());
    data.extend_from_slice(&793_100_000_000_000u64.to_le_bytes());
    // fee recipient, fee in basis points, fee
    data.extend_from_slice(&[7u8; 32]);
    data.extend_from_slice(&95u64.to_le_bytes());
    data.extend_from_slice(&9u64.to_le_bytes());
    // creator, creator fee in basis points, creator fee
    data.extend_from_slice(&[8u8; 32]);
    data.extend_from_slice(&5u64.to_le_bytes());
    data.extend_from_slice(&1u64.to_le_bytes());
    // volume tracking
    data.push(0);
    data.extend_from_slice(&0u64.to_le_bytes());
    data.extend_from_slice(&0u64.to_le_bytes());
    data.extend_from_slice(&0u64.to_le_bytes());
    data.extend_from_slice(&0i64.to_le_bytes());
    data
}

fn compiled(program_id_index: u8, accounts: Vec<u8>, data: Vec<u8>) -> CompiledInstruction {
    CompiledInstruction { program_id_index, accounts, data }
}

fn record(
    slot: u64,
    sig: Signature,
    keys: Vec<Address>,
    instructions: Vec<CompiledInstruction>,
    inner: Vec<InnerInstructions>,
) -> TransactionRecord {
    TransactionRecord {
        slot,
        signature: sig,
        message: VersionedMessage::V0(Message { account_keys: keys, instructions }),
        meta: ExecutionMeta {
            status: ExecutionStatus::Succeeded,
            inner_instructions: inner,
            log_messages: Vec::new(),
        },
    }
}

fn flat_of(transaction: &TransactionRecord) -> Vec<Instruction> {
    let metadata = TxMetadata {
        slot: transaction.slot,
        signature: transaction.signature,
        fee_payer: transaction.message.account_keys()[0],
        meta: &transaction.meta,
        message: &transaction.message,
    };
    flatten(&metadata, &transaction.message, &transaction.meta)
        .into_iter()
        .map(|item| item.instruction)
        .collect()
}

#[test]
fn filter_needs_the_target_in_the_account_list() {
    let tx = record(
        5,
        signature(1),
        vec![address(10), address(20)],
        vec![compiled(1, vec![0], vec![1, 2, 3])],
        Vec::new(),
    );
    assert!(mint_tracking::pipeline::matches(&address(10), &tx));
    assert!(mint_tracking::pipeline::matches(&address(20), &tx));
    assert!(!mint_tracking::pipeline::matches(&address(30), &tx));
}

#[test]
fn filter_rejects_a_transaction_without_instructions() {
    let tx = record(5, signature(1), vec![address(10), address(20)], Vec::new(), Vec::new());
    assert!(!mint_tracking::pipeline::matches(&address(10), &tx));
    assert!(!mint_tracking::pipeline::matches(&address(20), &tx));
}

#[test]
fn filter_does_not_look_into_invoked_instructions() {
    // The only place where account 99 could be meant is an inner instruction,
    // and the account list does not hold it.
    let inner = InnerInstructions { index: 0, instructions: vec![compiled(1, vec![0], vec![9])] };
    let tx = record(
        5,
        signature(1),
        vec![address(10), address(20)],
        vec![compiled(1, vec![0], vec![1])],
        vec![inner],
    );
    assert!(!mint_tracking::pipeline::matches(&address(99), &tx));
}

#[test]
fn filter_treats_both_message_formats_alike() {
    let legacy = TransactionRecord {
        slot: 1,
        signature: signature(1),
        message: VersionedMessage::Legacy(Message {
            account_keys: vec![address(1), address(2)],
            instructions: vec![compiled(0, Vec::new(), Vec::new())],
        }),
        meta: ExecutionMeta {
            status: ExecutionStatus::Succeeded,
            inner_instructions: Vec::new(),
            log_messages: Vec::new(),
        },
    };
    assert!(mint_tracking::pipeline::matches(&address(2), &legacy));
    assert!(!mint_tracking::pipeline::matches(&address(3), &legacy));
}

#[test]
fn flatten_puts_inner_instructions_right_after_their_outer() {
    let keys = vec![address(1), address(2), address(3), address(4)];
    let inner = InnerInstructions {
        index: 0,
        instructions: vec![compiled(2, vec![0], vec![0xA1]), compiled(3, vec![1], vec![0xA2])],
    };
    let tx = record(
        9,
        signature(2),
        keys,
        vec![compiled(1, vec![0, 2], vec![0xA0]), compiled(2, vec![3], vec![0xB0])],
        vec![inner],
    );
    let flat = flat_of(&tx);
    assert_eq!(flat.len(), 4);
    assert_eq!(flat[0].data, vec![0xA0]);
    assert_eq!(flat[1].data, vec![0xA1]);
    assert_eq!(flat[2].data, vec![0xA2]);
    assert_eq!(flat[3].data, vec![0xB0]);
    assert!(flat[0].program_id == address(2));
    assert!(flat[1].program_id == address(3));
    assert!(flat[2].program_id == address(4));
    assert!(flat[3].program_id == address(3));
    assert!(flat[0].accounts == vec![address(1), address(3)]);
    assert!(flat[2].accounts == vec![address(2)]);
}

#[test]
fn flatten_gathers_every_group_of_an_outer_instruction_in_order() {
    let keys = vec![address(1), address(2)];
    let groups = vec![
        InnerInstructions { index: 1, instructions: vec![compiled(0, Vec::new(), vec![11])] },
        InnerInstructions { index: 0, instructions: vec![compiled(0, Vec::new(), vec![1])] },
        InnerInstructions { index: 1, instructions: vec![compiled(0, Vec::new(), vec![12])] },
        InnerInstructions { index: 7, instructions: vec![compiled(0, Vec::new(), vec![77])] },
    ];
    let tx = record(
        9,
        signature(2),
        keys,
        vec![compiled(1, Vec::new(), vec![0]), compiled(1, Vec::new(), vec![10])],
        groups,
    );
    let data: Vec<Vec<u8>> = flat_of(&tx).into_iter().map(|ix| ix.data).collect();
    assert_eq!(data, vec![vec![0], vec![1], vec![10], vec![11], vec![12]]);
}

#[test]
fn flatten_of_no_instructions_is_empty() {
    let tx = record(9, signature(2), vec![address(1)], Vec::new(), Vec::new());
    assert!(flat_of(&tx).is_empty());
}

#[test]
fn flatten_keeps_an_empty_payload() {
    let tx = record(
        9,
        signature(2),
        vec![address(1), address(2)],
        vec![compiled(1, vec![0], Vec::new())],
        Vec::new(),
    );
    let flat = flat_of(&tx);
    assert_eq!(flat.len(), 1);
    assert!(flat[0].data.is_empty());
    assert!(flat[0].program_id == address(2));
}

#[test]
fn flatten_does_not_look_at_the_status() {
    let inner = InnerInstructions { index: 0, instructions: vec![compiled(0, Vec::new(), vec![2])] };
    let mut tx = record(
        9,
        signature(2),
        vec![address(1)],
        vec![compiled(0, Vec::new(), vec![1])],
        vec![inner],
    );
    let succeeded: Vec<Vec<u8>> = flat_of(&tx).into_iter().map(|ix| ix.data).collect();
    tx.meta.status = ExecutionStatus::Failed;
    let failed: Vec<Vec<u8>> = flat_of(&tx).into_iter().map(|ix| ix.data).collect();
    assert_eq!(failed, vec![vec![1], vec![2]]);
    assert_eq!(succeeded, failed);
}

#[test]
fn flatten_hands_every_item_the_metadata() {
    let tx = record(
        77,
        signature(3),
        vec![address(1), address(2)],
        vec![compiled(1, Vec::new(), vec![1]), compiled(1, Vec::new(), vec![2])],
        Vec::new(),
    );
    let metadata = TxMetadata {
        slot: tx.slot,
        signature: tx.signature,
        fee_payer: address(1),
        meta: &tx.meta,
        message: &tx.message,
    };
    let flat = flatten(&metadata, &tx.message, &tx.meta);
    assert_eq!(flat.len(), 2);
    for item in flat.iter() {
        assert_eq!(item.metadata.slot, 77);
        assert_eq!(item.metadata.signature, signature(3));
        assert!(item.metadata.fee_payer == address(1));
    }
}

#[test]
fn resolve_maps_indices_outside_the_account_list() {
    let tx = record(
        9,
        signature(2),
        vec![address(1), address(2)],
        vec![compiled(5, vec![0, 9, 1, 200], vec![42])],
        Vec::new(),
    );
    let flat = flat_of(&tx);
    assert_eq!(flat.len(), 1);
    assert!(flat[0].program_id == Address { bytes: [0; 32] });
    assert!(flat[0].accounts == vec![address(1), address(2)]);
    assert_eq!(flat[0].data, vec![42]);
}

#[test]
fn decoder_reads_a_trade() {
    let event = trade(address(50), address(60), true, 1000, 500_000, 1_700_000_000);
    let ix = Instruction { program_id: pumpfun(), accounts: Vec::new(), data: trade_payload(&event) };
    assert_eq!(PumpfunDecoder.decode_trade(&ix), Some(event));
    assert_eq!(PumpfunDecoder.decode(&ix), Some(DecodedEvent::Trade(event)));
}

#[test]
fn decoder_reads_a_sale_with_a_negative_timestamp() {
    let event = trade(address(51), address(61), false, u64::MAX, 0, -5);
    let ix = Instruction {
        program_id: pumpfun(),
        accounts: vec![address(1), address(2)],
        data: trade_payload(&event),
    };
    assert_eq!(PumpfunDecoder.decode_trade(&ix), Some(event));
}

#[test]
fn decoder_gives_the_same_answer_twice() {
    let event = trade(address(50), address(60), true, 1, 2, 3);
    let ix = Instruction { program_id: pumpfun(), accounts: Vec::new(), data: trade_payload(&event) };
    let first = PumpfunDecoder.decode(&ix);
    let second = PumpfunDecoder.decode(&ix);
    assert_eq!(first, second);
    assert_eq!(first, Some(DecodedEvent::Trade(event)));
    let garbage = Instruction { program_id: pumpfun(), accounts: Vec::new(), data: vec![9; 40] };
    assert_eq!(PumpfunDecoder.decode(&garbage), PumpfunDecoder.decode(&garbage));
    assert_eq!(PumpfunDecoder.decode(&garbage), None);
}

#[test]
fn decoder_does_not_read_the_accounts() {
    let event = trade(address(50), address(60), true, 1, 2, 3);
    let bare = Instruction { program_id: pumpfun(), accounts: Vec::new(), data: trade_payload(&event) };
    let full = Instruction {
        program_id: pumpfun(),
        accounts: vec![address(1), address(2), address(3)],
        data: trade_payload(&event),
    };
    assert_eq!(PumpfunDecoder.decode(&bare), PumpfunDecoder.decode(&full));
}

#[test]
fn decoder_passes_over_a_foreign_program() {
    let event = trade(address(50), address(60), true, 1000, 500_000, 7);
    let ix = Instruction { program_id: address(9), accounts: Vec::new(), data: trade_payload(&event) };
    assert_eq!(PumpfunDecoder.decode_trade(&ix), None);
    assert_eq!(PumpfunDecoder.decode(&ix), None);
}

#[test]
fn decoder_passes_over_a_truncated_payload() {
    let event = trade(address(50), address(60), true, 1000, 500_000, 7);
    let whole = trade_payload(&event);
    assert_eq!(whole.len(), 266);
    for len in 0..whole.len() {
        let ix = Instruction {
            program_id: pumpfun(),
            accounts: Vec::new(),
            data: whole[..len].to_vec(),
        };
        assert_eq!(PumpfunDecoder.decode(&ix), None, "length {}", len);
    }
}

#[test]
fn decoder_passes_over_other_discriminators() {
    let event = trade(address(50), address(60), true, 1000, 500_000, 7);
    let mut data = trade_payload(&event);
    data[15] ^= 1;
    let ix = Instruction { program_id: pumpfun(), accounts: Vec::new(), data };
    assert_eq!(PumpfunDecoder.decode(&ix), None);
    // a pump.fun `sell` instruction is decodable, and is no trade event
    let mut sell: Vec<u8> = vec![51, 230, 133, 164, 1, 127, 131, 173];
    sell.extend_from_slice(&5u64.to_le_bytes());
    sell.extend_from_slice(&6u64.to_le_bytes());
    let ix = Instruction { program_id: pumpfun(), accounts: Vec::new(), data: sell };
    assert_eq!(PumpfunDecoder.decode(&ix), None);
}

#[test]
fn decoder_rejects_a_flag_that_is_no_boolean() {
    let event = trade(address(50), address(60), true, 1000, 500_000, 7);
    let mut data = trade_payload(&event);
    data[16 + 32 + 8 + 8] = 2;
    let ix = Instruction { program_id: pumpfun(), accounts: Vec::new(), data };
    assert_eq!(PumpfunDecoder.decode(&ix), None);
}

#[test]
fn decoder_accepts_bytes_after_the_event() {
    let event = trade(address(50), address(60), false, 3, 4, 5);
    let mut data = trade_payload(&event);
    data.extend_from_slice(&[1, 2, 3]);
    let ix = Instruction { program_id: pumpfun(), accounts: Vec::new(), data };
    assert_eq!(PumpfunDecoder.decode_trade(&ix), Some(event));
}

#[test]
fn amounts_follow_the_direction() {
    let buy = trade(address(1), address(2), true, 1000, 500_000, 0);
    assert_eq!(buy.amount_in(), 1000);
    assert_eq!(buy.amount_out(), 500_000);
    let sell = trade(address(1), address(2), false, 1000, 500_000, 0);
    assert_eq!(sell.amount_in(), 500_000);
    assert_eq!(sell.amount_out(), 1000);
    let large = trade(address(1), address(2), true, u64::MAX, u64::MAX - 1, 0);
    assert_eq!(large.amount_in(), u64::MAX);
    assert_eq!(large.amount_out(), u64::MAX - 1);
}

#[test]
fn registry_without_decoders_recognises_nothing() {
    let registry: DecoderRegistry<PumpfunDecoder> = DecoderRegistry::new();
    assert!(registry.is_empty());
    assert_eq!(registry.len(), 0);
    let event = trade(address(50), address(60), true, 1, 2, 3);
    let ix = Instruction { program_id: pumpfun(), accounts: Vec::new(), data: trade_payload(&event) };
    assert_eq!(registry.decode(&ix), None);
}

#[test]
fn registry_answers_with_a_registered_decoder() {
    let mut registry = DecoderRegistry::new();
    registry.register(PumpfunDecoder);
    registry.register(PumpfunDecoder);
    assert!(!registry.is_empty());
    assert_eq!(registry.len(), 2);
    let event = trade(address(50), address(60), true, 1, 2, 3);
    let ix = Instruction { program_id: pumpfun(), accounts: Vec::new(), data: trade_payload(&event) };
    assert_eq!(registry.decode(&ix), Some(DecodedEvent::Trade(event)));
    let foreign = Instruction { program_id: address(3), accounts: Vec::new(), data: vec![1] };
    assert_eq!(registry.decode(&foreign), None);
}

#[test]
fn plugin_registers_the_pumpfun_decoder() {
    let registry = MintTrackingPlugin::decoders();
    assert_eq!(registry.len(), 1);
}

#[test]
fn malformed_instruction_does_not_stop_the_others() {
    let first = trade(address(50), address(60), true, 10, 20, 1);
    let third = trade(address(50), address(61), false, 30, 40, 2);
    let mut malformed = trade_payload(&first);
    malformed.truncate(100);
    let keys = vec![address(1), address(50), pumpfun()];
    let tx = record(
        12,
        signature(4),
        keys,
        vec![
            compiled(2, vec![0], trade_payload(&first)),
            compiled(2, vec![0], malformed),
            compiled(2, vec![0], trade_payload(&third)),
        ],
        Vec::new(),
    );
    let found = process(&address(50), &MintTrackingPlugin::decoders(), &tx);
    let expected = vec![
        EventRecord { signature: signature(4), slot: 12, event: DecodedEvent::Trade(first) },
        EventRecord { signature: signature(4), slot: 12, event: DecodedEvent::Trade(third) },
    ];
    assert_eq!(found, Some(expected));
}

#[test]
fn short_payloads_of_the_program_do_not_stop_the_others() {
    let event = trade(address(50), address(60), true, 10, 20, 1);
    let keys = vec![address(1), address(50), pumpfun()];
    let mut instructions: Vec<CompiledInstruction> = Vec::new();
    for len in 0..9usize {
        instructions.push(compiled(2, vec![0], vec![228; len]));
    }
    instructions.push(compiled(2, vec![0], trade_payload(&event)));
    let tx = record(12, signature(4), keys, instructions, Vec::new());
    let found = MintTrackingPlugin::new(address(50)).on_transaction(0, &tx);
    let expected =
        vec![EventRecord { signature: signature(4), slot: 12, event: DecodedEvent::Trade(event) }];
    assert_eq!(found, Some(expected));
}

#[test]
fn decode_all_reports_under_the_metadata_of_each_item() {
    let event = trade(address(50), address(60), true, 10, 20, 1);
    let tx = record(
        31,
        signature(8),
        vec![address(1), pumpfun()],
        vec![compiled(1, Vec::new(), trade_payload(&event)), compiled(0, Vec::new(), vec![1])],
        Vec::new(),
    );
    let metadata = TxMetadata {
        slot: tx.slot,
        signature: tx.signature,
        fee_payer: address(1),
        meta: &tx.meta,
        message: &tx.message,
    };
    let flat = flatten(&metadata, &tx.message, &tx.meta);
    let records = decode_all(&MintTrackingPlugin::decoders(), &flat);
    assert_eq!(
        records,
        vec![EventRecord { signature: signature(8), slot: 31, event: DecodedEvent::Trade(event) }]
    );
    let none: DecoderRegistry<PumpfunDecoder> = DecoderRegistry::new();
    assert!(decode_all(&none, &flat).is_empty());
}

#[test]
fn end_to_end_trade_in_a_matching_transaction() {
    let fee_payer = address(1);
    let target_mint = address(2);
    let event = trade(target_mint, address(60), true, 1000, 500_000, 1_700_000_000);
    let tx = record(
        358_560_000,
        signature(9),
        vec![fee_payer, target_mint, pumpfun()],
        vec![compiled(2, vec![0, 1], trade_payload(&event))],
        Vec::new(),
    );
    let found = MintTrackingPlugin::new(target_mint).on_transaction(3, &tx);
    let records = found.expect("the transaction names the mint");
    assert_eq!(records.len(), 1);
    assert_eq!(records[0].signature, signature(9));
    assert_eq!(records[0].slot, 358_560_000);
    match records[0].event {
        DecodedEvent::Trade(seen) => {
            assert!(seen.is_buy);
            assert_eq!(seen.sol_amount, 1000);
            assert_eq!(seen.token_amount, 500_000);
            assert!(seen.mint == target_mint);
            assert!(seen.user == address(60));
            assert_eq!(seen.timestamp, 1_700_000_000);
            assert_eq!(seen.amount_in(), 1000);
            assert_eq!(seen.amount_out(), 500_000);
        }
    }
}

#[test]
fn end_to_end_trade_invoked_by_another_program() {
    let target_mint = address(2);
    let event = trade(target_mint, address(60), false, 77, 88, 99);
    let inner =
        InnerInstructions { index: 0, instructions: vec![compiled(3, vec![1], trade_payload(&event))] };
    let tx = record(
        40,
        signature(5),
        vec![address(1), target_mint, address(70), pumpfun()],
        vec![compiled(2, vec![0, 1], vec![1, 2, 3])],
        vec![inner],
    );
    let found = MintTrackingPlugin::new(target_mint).on_transaction(0, &tx);
    assert_eq!(
        found,
        Some(vec![EventRecord { signature: signature(5), slot: 40, event: DecodedEvent::Trade(event) }])
    );
}

#[test]
fn end_to_end_target_not_in_the_account_list() {
    let other_mint = address(3);
    let event = trade(other_mint, address(60), true, 1000, 500_000, 1);
    let tx = record(
        10,
        signature(9),
        vec![address(1), other_mint, pumpfun()],
        vec![compiled(2, vec![0, 1], trade_payload(&event))],
        Vec::new(),
    );
    assert_eq!(MintTrackingPlugin::new(address(2)).on_transaction(0, &tx), None);
    let two = record(
        10,
        signature(9),
        vec![address(1), other_mint],
        vec![compiled(1, vec![0], vec![1])],
        Vec::new(),
    );
    assert_eq!(MintTrackingPlugin::new(address(2)).on_transaction(0, &two), None);
}

#[test]
fn end_to_end_no_instructions() {
    let target_mint = address(2);
    let tx = record(10, signature(9), vec![address(1), target_mint], Vec::new(), Vec::new());
    assert_eq!(MintTrackingPlugin::new(target_mint).on_transaction(0, &tx), None);
}

#[test]
fn matching_transaction_without_trades_reports_none_of_them() {
    let target_mint = address(2);
    let tx = record(
        10,
        signature(9),
        vec![address(1), target_mint, address(5)],
        vec![compiled(2, vec![0, 1], vec![1, 2, 3])],
        Vec::new(),
    );
    assert_eq!(MintTrackingPlugin::new(target_mint).on_transaction(0, &tx), Some(Vec::new()));
}

#[test]
fn failed_transaction_is_still_decoded() {
    let target_mint = address(2);
    let event = trade(target_mint, address(60), true, 5, 6, 7);
    let mut tx = record(
        10,
        signature(9),
        vec![address(1), target_mint, pumpfun()],
        vec![compiled(2, vec![0, 1], trade_payload(&event))],
        Vec::new(),
    );
    tx.meta.status = ExecutionStatus::Failed;
    let found = MintTrackingPlugin::new(target_mint).on_transaction(0, &tx);
    assert_eq!(
        found,
        Some(vec![EventRecord { signature: signature(9), slot: 10, event: DecodedEvent::Trade(event) }])
    );
}

#[test]
fn metadata_names_the_fee_payer() {
    let tx = record(
        21,
        signature(6),
        vec![address(7), address(8)],
        vec![compiled(1, Vec::new(), vec![1])],
        Vec::new(),
    );
    let metadata = TxMetadata::of(&tx).expect("the account list is not empty");
    assert_eq!(metadata.slot, 21);
    assert_eq!(metadata.signature, signature(6));
    assert!(metadata.fee_payer == address(7));
    assert_eq!(metadata.meta.status, ExecutionStatus::Succeeded);
    assert_eq!(metadata.message.account_keys().len(), 2);
}

#[test]
fn metadata_needs_an_account() {
    let tx = record(21, signature(6), Vec::new(), vec![compiled(0, Vec::new(), vec![1])], Vec::new());
    assert!(TxMetadata::of(&tx).is_none());
    // no account, so no target either
    assert_eq!(process(&address(1), &MintTrackingPlugin::decoders(), &tx), None);
}

#[test]
fn resolve_replaces_indices_by_addresses() {
    let keys = vec![address(1), address(2), address(3)];
    let ix = resolve(&keys, &compiled(2, vec![1, 0, 1], vec![5, 6]));
    assert!(ix.program_id == address(3));
    assert!(ix.accounts == vec![address(2), address(1), address(2)]);
    assert_eq!(ix.data, vec![5, 6]);
}

#[test]
fn copy_bytes_copies() {
    assert_eq!(copy_bytes(&vec![1, 2, 3]), vec![1, 2, 3]);
    assert!(copy_bytes(&Vec::new()).is_empty());
}
