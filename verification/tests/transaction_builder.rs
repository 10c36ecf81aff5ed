use solana_message::VersionedMessage;
use solana_transaction::versioned::VersionedTransaction;
use transaction_bench::cli::{
    InstructionPaddingConfig, TRANSFER_TRANSACTION_LOADED_ACCOUNTS_DATA_SIZE,
};
use transaction_bench::generator::transaction_builder::{
    create_serialized_signed_transaction, create_serialized_transfers, create_transfers_at_price,
    effective_compute_unit_price, maybe_wrap_instruction, Cursor,
};
use transaction_bench::priority_fee::{
    PremiumPlan, PriorityFeeMode, PriorityFeeStats, ShapedDraw,
};
use transaction_bench::wire::{AccountMeta, Instruction, Keypair};

fn keypair(seed: u8) -> Keypair {
    Keypair::new_from_array([seed; 32])
}

fn plain(i: solana_instruction::Instruction) -> Instruction {
    Instruction {
        program_id: i.program_id.to_bytes(),
        accounts: i
            .accounts
            .iter()
            .map(|a| AccountMeta {
                pubkey: a.pubkey.to_bytes(),
                is_signer: a.is_signer,
                is_writable: a.is_writable,
            })
            .collect(),
        data: i.data,
    }
}

fn transfer(from: [u8; 32], to: [u8; 32], lamports: u64) -> Instruction {
    plain(solana_system_interface::instruction::transfer(&from.into(), &to.into(), lamports))
}

fn no_draw() -> ShapedDraw {
    ShapedDraw { rounded_fee: 0, below_zero: vec![] }
}

fn create_test_transfer(compute_unit_price: Option<u64>, use_txv1: bool) -> VersionedTransaction {
    let senders = [Keypair::new()];
    let receivers = [Keypair::new()];
    let lamports = [1];
    let mut accounts_from = Cursor::new(&senders);
    let mut accounts_to = Cursor::new(&receivers);
    let mut lamports = Cursor::new(&lamports);
    let mut instructions = Vec::new();
    let mut signers = Vec::new();
    let mut priority_fee_stats = PriorityFeeStats::default();

    let wire_transaction = create_serialized_transfers(
        &mut accounts_from,
        &mut accounts_to,
        &mut lamports,
        &[7; 32],
        &mut instructions,
        &mut signers,
        1,
        600,
        None,
        compute_unit_price,
        &PriorityFeeMode::BaseOnly,
        &mut priority_fee_stats,
        0,
        0,
        &no_draw(),
        use_txv1,
    );
    assert_eq!(priority_fee_stats.read_and_reset(), (0, 0));

    wincode::deserialize(&wire_transaction).unwrap()
}

#[test]
fn test_maybe_wrap_instruction_keeps_transfer_when_disabled() {
    let from = keypair(1).pubkey();
    let to = keypair(2).pubkey();
    let transfer_instruction = transfer(from, to, 1);

    let instruction = maybe_wrap_instruction(transfer_instruction.clone(), None);

    assert_eq!(instruction, transfer_instruction);
}

#[test]
fn test_maybe_wrap_instruction_uses_padding_program_when_enabled() {
    let from = keypair(1).pubkey();
    let to = keypair(2).pubkey();
    let transfer_instruction = transfer(from, to, 1);
    let padding_program_id = keypair(3).pubkey();
    let padding_config = InstructionPaddingConfig {
        program_id: padding_program_id,
        data_size: 64,
        loaded_accounts_data_size_limit: 58 * 1024,
    };

    let instruction = maybe_wrap_instruction(transfer_instruction, Some(&padding_config));

    assert_eq!(instruction.program_id, padding_program_id);
    assert!(!instruction.data.is_empty());
}

#[test]
fn test_wrapped_instruction_in_full() {
    let from = keypair(1).pubkey();
    let to = keypair(2).pubkey();
    let config = InstructionPaddingConfig {
        program_id: [8; 32],
        data_size: 300,
        loaded_accounts_data_size_limit: 58 * 1024,
    };
    let wrapped = maybe_wrap_instruction(transfer(from, to, 513), Some(&config));
    let mut data = vec![1, 2, 0, 0, 0, 12, 0, 0, 0];
    data.extend([2, 0, 0, 0, 1, 2, 0, 0, 0, 0, 0, 0]);
    data.extend((0..300).map(|i| (i % 255) as u8));
    let meta = |pubkey: [u8; 32], is_signer: bool, is_writable: bool| AccountMeta {
        pubkey,
        is_signer,
        is_writable,
    };
    assert_eq!(
        wrapped,
        Instruction {
            program_id: [8; 32],
            accounts: vec![
                meta(from, true, true),
                meta(to, false, true),
                meta([0; 32], false, false)
            ],
            data,
        }
    );
}

#[test]
fn test_create_serialized_transfers_uses_legacy_by_default() {
    let tx = create_test_transfer(None, false);

    assert!(matches!(&tx.message, VersionedMessage::Legacy(_)));
    assert_eq!(tx.message.instructions().len(), 2);
}

#[test]
fn test_create_serialized_transfers_adds_legacy_compute_unit_price() {
    let tx = create_test_transfer(Some(1), false);

    assert!(matches!(&tx.message, VersionedMessage::Legacy(_)));
    assert_eq!(tx.message.instructions().len(), 3);
}

#[test]
fn test_create_serialized_transfers_uses_v1_when_enabled() {
    let tx = create_test_transfer(Some(1), true);
    let VersionedMessage::V1(message) = tx.message else {
        panic!("expected v1 message");
    };

    assert_eq!(message.config.compute_unit_limit, Some(600));
    assert_eq!(message.config.priority_fee, Some(1));
    assert_eq!(
        message.config.loaded_accounts_data_size_limit,
        Some(TRANSFER_TRANSACTION_LOADED_ACCOUNTS_DATA_SIZE)
    );
    assert_eq!(message.instructions.len(), 1);
}

#[test]
fn test_budget_instructions_come_first() {
    let senders = [keypair(1), keypair(2), keypair(3)];
    let receivers = [keypair(4), keypair(5), keypair(6)];
    let lamports = [10, 20, 30];
    let mut accounts_from = Cursor::new(&senders);
    let mut accounts_to = Cursor::new(&receivers);
    let mut amounts = Cursor::new(&lamports);
    let mut instructions = Vec::new();
    let mut signers = Vec::new();
    let config = InstructionPaddingConfig {
        program_id: [8; 32],
        data_size: 5,
        loaded_accounts_data_size_limit: 58 * 1024,
    };

    let bytes = create_transfers_at_price(
        &mut accounts_from,
        &mut accounts_to,
        &mut amounts,
        &[7; 32],
        &mut instructions,
        &mut signers,
        2,
        600,
        Some(&config),
        Some(9),
        false,
    );

    let budget = |data: Vec<u8>| Instruction {
        program_id: solana_compute_budget_interface::ID.to_bytes(),
        accounts: vec![],
        data,
    };
    assert_eq!(instructions.len(), 5);
    assert_eq!(instructions[0], budget(vec![2, 88, 2, 0, 0]));
    assert_eq!(instructions[1], budget(vec![3, 9, 0, 0, 0, 0, 0, 0, 0]));
    assert_eq!(instructions[2], budget(vec![4, 0, 232, 0, 0]));
    for i in 0..2 {
        let plain = transfer(senders[i].pubkey(), receivers[i].pubkey(), lamports[i]);
        assert_eq!(instructions[3 + i], maybe_wrap_instruction(plain, Some(&config)));
    }
    assert_eq!(signers.len(), 2);
    assert_eq!(signers[1].pubkey(), senders[1].pubkey());
    // The third of each is still there.
    assert_eq!(accounts_from.next().unwrap().pubkey(), senders[2].pubkey());
    assert_eq!(accounts_to.next().unwrap().pubkey(), receivers[2].pubkey());
    assert_eq!(amounts.next(), Some(&30));

    // The bytes are a transaction with valid signatures over these instructions.
    let tx: VersionedTransaction = wincode::deserialize(&bytes).unwrap();
    assert_eq!(tx.signatures.len(), 2);
    assert_eq!(tx.message.recent_blockhash().to_bytes(), [7; 32]);
    assert_eq!(tx.message.static_account_keys()[0].to_bytes(), senders[0].pubkey());
    assert_eq!(tx.message.instructions().len(), 5);
    assert_eq!(tx.message.instructions()[1].data, instructions[1].data);
    for (i, signature) in tx.signatures.iter().enumerate() {
        let key = &tx.message.static_account_keys()[i];
        assert!(signature.verify(key.as_ref(), &tx.message.serialize()));
    }
}

#[test]
fn test_v1_transaction_is_signed() {
    let senders = [keypair(1), keypair(2)];
    let receivers = [keypair(4), keypair(5)];
    let lamports = [10, 20];
    let mut instructions = Vec::new();
    let mut signers = Vec::new();
    let bytes = create_transfers_at_price(
        &mut Cursor::new(&senders),
        &mut Cursor::new(&receivers),
        &mut Cursor::new(&lamports),
        &[7; 32],
        &mut instructions,
        &mut signers,
        2,
        600,
        None,
        None,
        true,
    );
    assert_eq!(instructions.len(), 2);
    let tx: VersionedTransaction = wincode::deserialize(&bytes).unwrap();
    assert_eq!(tx.signatures.len(), 2);
    for (i, signature) in tx.signatures.iter().enumerate() {
        let key = &tx.message.static_account_keys()[i];
        assert!(signature.verify(key.as_ref(), &tx.message.serialize()));
    }
}

#[test]
fn test_transfers_end_with_the_shortest_list() {
    let senders = [keypair(1), keypair(2), keypair(3)];
    let receivers = [keypair(4)];
    let lamports = [10, 20, 30];
    let mut accounts_from = Cursor::new(&senders);
    let mut accounts_to = Cursor::new(&receivers);
    let mut amounts = Cursor::new(&lamports);
    let mut instructions = Vec::new();
    let mut signers = Vec::new();
    create_transfers_at_price(
        &mut accounts_from,
        &mut accounts_to,
        &mut amounts,
        &[7; 32],
        &mut instructions,
        &mut signers,
        3,
        600,
        None,
        None,
        false,
    );
    assert_eq!(instructions.len(), 2);
    // One more sender was taken before the receivers turned out to be used up.
    assert_eq!(accounts_from.next().unwrap().pubkey(), senders[2].pubkey());
    assert_eq!(amounts.next(), Some(&20));
}

#[test]
fn test_active_mode_always_sets_a_price() {
    let plan = PremiumPlan { total: 10, premium_count: 10, premium_fee: 500 };
    let mode = PriorityFeeMode::Premium(plan);
    assert_eq!(effective_compute_unit_price(None, &mode, 500), Some(501));
    assert_eq!(effective_compute_unit_price(Some(0), &mode, 500), Some(500));
    assert_eq!(effective_compute_unit_price(Some(7), &mode, 500), Some(507));
    assert_eq!(effective_compute_unit_price(Some(u64::MAX), &mode, 500), Some(u64::MAX));
    assert_eq!(effective_compute_unit_price(None, &PriorityFeeMode::BaseOnly, 0), None);
    assert_eq!(effective_compute_unit_price(Some(0), &PriorityFeeMode::BaseOnly, 0), Some(0));

    let senders = [keypair(1)];
    let receivers = [keypair(2)];
    let mut stats = PriorityFeeStats::default();
    let bytes = create_serialized_transfers(
        &mut Cursor::new(&senders),
        &mut Cursor::new(&receivers),
        &mut Cursor::new(&[1]),
        &[7; 32],
        &mut vec![],
        &mut vec![],
        1,
        600,
        None,
        Some(7),
        &mode,
        &mut stats,
        3,
        0,
        &no_draw(),
        false,
    );
    let tx: VersionedTransaction = wincode::deserialize(&bytes).unwrap();
    assert_eq!(tx.message.instructions()[1].data, vec![3, 251, 1, 0, 0, 0, 0, 0, 0]);
    assert_eq!(stats.read_and_reset(), (507, 1));
}

#[test]
fn test_explicit_base_of_zero_is_kept() {
    let plan = PremiumPlan { total: 10, premium_count: 3, premium_fee: 500 };
    let senders = [keypair(1)];
    let receivers = [keypair(2)];
    for (base, data, price) in [
        (Some(0), vec![3, 244, 1, 0, 0, 0, 0, 0, 0], 500),
        (None, vec![3, 245, 1, 0, 0, 0, 0, 0, 0], 501),
    ] {
        let mut stats = PriorityFeeStats::default();
        let bytes = create_serialized_transfers(
            &mut Cursor::new(&senders),
            &mut Cursor::new(&receivers),
            &mut Cursor::new(&[1]),
            &[7; 32],
            &mut vec![],
            &mut vec![],
            1,
            600,
            None,
            base,
            &PriorityFeeMode::Premium(plan),
            &mut stats,
            6,
            0,
            &no_draw(),
            false,
        );
        let tx: VersionedTransaction = wincode::deserialize(&bytes).unwrap();
        assert_eq!(tx.message.instructions()[1].data, data);
        assert_eq!(stats.read_and_reset(), (price, 1));
    }
}

#[test]
fn test_create_serialized_signed_transaction() {
    let payer = keypair(1);
    let other = keypair(2);
    let instructions = vec![transfer(other.pubkey(), payer.pubkey(), 5)];
    let bytes =
        create_serialized_signed_transaction(&payer, &[7; 32], instructions, vec![&other], 400);
    let tx: VersionedTransaction = wincode::deserialize(&bytes).unwrap();
    assert_eq!(tx.signatures.len(), 2);
    assert_eq!(tx.message.instructions().len(), 2);
    assert_eq!(tx.message.instructions()[0].data, vec![2, 144, 1, 0, 0]);
    assert_eq!(tx.message.static_account_keys()[0].to_bytes(), payer.pubkey());
}

#[test]
fn test_cycling_cursor() {
    let items = [10, 11, 12];
    let mut cursor = Cursor::cycling(&items, 2, 2, 5);
    let walked: Vec<i32> = (0..5).map(|_| *cursor.next().unwrap()).collect();
    assert_eq!(walked, vec![12, 10, 12, 10, 12]);
    assert!(cursor.next().is_none());
}

#[test]
fn test_keypairs_are_those_of_the_solana_crates() {
    let ours = keypair(5);
    let theirs = solana_keypair::Keypair::new_from_array([5; 32]);
    assert_eq!(ours.pubkey(), solana_signer::Signer::pubkey(&theirs).to_bytes());
    assert_ne!(ours.pubkey(), [5; 32]);
    assert_ne!(Keypair::new().pubkey(), Keypair::new().pubkey());
}
