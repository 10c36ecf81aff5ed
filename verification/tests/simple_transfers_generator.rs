use solana_transaction::versioned::VersionedTransaction;
use std::collections::HashSet;
use transaction_bench::cli::{
    InstructionPaddingConfig, InstructionPaddingParams, SimpleTransferTxParams, TransactionParams,
};
use transaction_bench::generator::simple_transfers_generator::{
    create_transfer_batch, generate_transfer_transaction_batch, is_batch_possible, random_amounts,
    TxInputs,
};
use transaction_bench::priority_fee::{
    PremiumPlan, PriorityFeeMode, PriorityFeeStats, ShapedDraw,
};
use transaction_bench::wire::Keypair;

fn payers(count: u8) -> Vec<Keypair> {
    (1..=count).map(|seed| Keypair::new_from_array([seed; 32])).collect()
}

fn params(instructions: usize, groups: Option<usize>, use_txv1: bool) -> TransactionParams {
    TransactionParams {
        simple_transfer_tx_params: SimpleTransferTxParams {
            max_lamports_to_transfer: 513,
            transfer_tx_cu_budget: 600,
            num_send_instructions_per_tx: instructions,
            tx_batch_size: None,
            num_conflict_groups: groups,
        },
        padding_params: InstructionPaddingParams {
            instruction_padding_data_size: None,
            instruction_padding_program_id: None,
        },
        use_txv1,
    }
}

fn inputs(count: usize) -> Vec<TxInputs> {
    let draw = ShapedDraw { rounded_fee: 0, below_zero: vec![] };
    (0..count).map(|_| TxInputs { now_ms: 0, draw: draw.clone() }).collect()
}

/// Sender, receiver and amount of each transfer of a transaction.
fn transfers(bytes: &[u8]) -> Vec<([u8; 32], [u8; 32], u64)> {
    let tx: VersionedTransaction = wincode::deserialize(bytes).unwrap();
    let keys = tx.message.static_account_keys();
    tx.message
        .instructions()
        .iter()
        .filter(|i| i.data.len() == 12)
        .map(|i| {
            (
                keys[i.accounts[0] as usize].to_bytes(),
                keys[i.accounts[1] as usize].to_bytes(),
                u64::from_le_bytes(i.data[4..].try_into().unwrap()),
            )
        })
        .collect()
}

#[test]
fn test_batch_walks_over_the_payers() {
    let payers = payers(5);
    let key = |i: usize| payers[i].pubkey();
    let mut stats = PriorityFeeStats::default();
    let batch = create_transfer_batch(
        &payers,
        3,
        &[7; 32],
        &params(2, None, false),
        None,
        None,
        &PriorityFeeMode::BaseOnly,
        &mut stats,
        0,
        &vec![1, 2, 3, 4],
        &inputs(2),
    );
    // Senders 3, 4, 0, 1; receivers 2, 3, 4, 0.
    assert_eq!(transfers(&batch[0]), vec![(key(3), key(2), 1), (key(4), key(3), 2)]);
    assert_eq!(transfers(&batch[1]), vec![(key(0), key(4), 3), (key(1), key(0), 4)]);
    assert_eq!(batch.len(), 2);
    assert_eq!(stats.read_and_reset(), (0, 0));
}

#[test]
fn test_destinations_are_unique_by_default() {
    let payers = payers(8);
    let batch = create_transfer_batch(
        &payers,
        5,
        &[7; 32],
        &params(2, None, false),
        None,
        None,
        &PriorityFeeMode::BaseOnly,
        &mut PriorityFeeStats::default(),
        0,
        &vec![1, 2, 3, 4],
        &inputs(2),
    );
    let pairs: Vec<_> = batch.iter().flat_map(|bytes| transfers(bytes)).collect();
    let keys: HashSet<[u8; 32]> = pairs.iter().flat_map(|pair| [pair.0, pair.1]).collect();
    assert_eq!(keys.len(), 8);
}

#[test]
fn test_conflict_groups_repeat_receivers() {
    let payers = payers(7);
    let key = |i: usize| payers[i].pubkey();
    let batch = create_transfer_batch(
        &payers,
        0,
        &[7; 32],
        &params(1, Some(2), true),
        None,
        None,
        &PriorityFeeMode::BaseOnly,
        &mut PriorityFeeStats::default(),
        0,
        &vec![1, 2, 3, 4],
        &inputs(4),
    );
    let receivers: Vec<[u8; 32]> = batch.iter().map(|bytes| transfers(bytes)[0].1).collect();
    assert_eq!(receivers, vec![key(4), key(5), key(4), key(5)]);
}

#[test]
fn test_batch_counts_premium_transactions_by_position() {
    let plan = PremiumPlan { total: 10, premium_count: 3, premium_fee: 500 };
    let mut stats = PriorityFeeStats::default();
    let batch = create_transfer_batch(
        &payers(4),
        0,
        &[7; 32],
        &params(1, None, false),
        None,
        None,
        &PriorityFeeMode::Premium(plan),
        &mut stats,
        2,
        &vec![1, 2, 3],
        &inputs(3),
    );
    // Of the positions 2, 3 and 4, only 3 is premium.
    assert_eq!(batch.len(), 3);
    assert_eq!(stats.read_and_reset(), (1 + 501 + 1, 3));
}

#[test]
fn test_amounts_of_a_batch_are_unique() {
    let batch = generate_transfer_transaction_batch(
        &payers(4),
        0,
        &[7; 32],
        &params(9, None, false),
        None,
        None,
        &PriorityFeeMode::BaseOnly,
        &mut PriorityFeeStats::default(),
        0,
        &inputs(57),
    );
    let amounts: Vec<u64> =
        batch.iter().flat_map(|bytes| transfers(bytes)).map(|(_, _, amount)| amount).collect();
    assert_eq!(amounts.len(), 513);
    assert_eq!(amounts.iter().collect::<HashSet<_>>().len(), 513);
    assert!(amounts.iter().all(|&amount| (1..=513).contains(&amount)));
    assert_ne!(random_amounts(u64::MAX, 5), random_amounts(u64::MAX, 5));
    assert!(random_amounts(0, 0).is_empty());
}

#[test]
fn test_what_makes_a_batch_possible() {
    let config = |data_size: u32| InstructionPaddingConfig {
        program_id: [8; 32],
        data_size,
        loaded_accounts_data_size_limit: 0,
    };
    assert!(is_batch_possible(&payers(1), &params(255, None, false), None));
    assert!(!is_batch_possible(&payers(1), &params(256, None, false), None));
    assert!(!is_batch_possible(&payers(1), &params(0, None, false), None));
    assert!(!is_batch_possible(&vec![], &params(1, None, false), None));
    assert!(!is_batch_possible(&payers(1), &params(1, Some(0), false), None));
    assert!(is_batch_possible(&payers(1), &params(1, None, false), Some(&config(10219))));
    assert!(!is_batch_possible(&payers(1), &params(1, None, false), Some(&config(10220))));
    assert!(is_batch_possible(&payers(2), &params(2, None, true), None));
    assert!(!is_batch_possible(&payers(2), &params(3, None, true), None));
    let twins = vec![Keypair::new_from_array([1; 32]), Keypair::new_from_array([1; 32])];
    assert!(!is_batch_possible(&twins, &params(2, None, true), None));
    assert!(is_batch_possible(&twins, &params(2, None, false), None));
}

#[test]
fn test_legacy_transaction_with_a_repeated_sender() {
    let batch = create_transfer_batch(
        &payers(1),
        0,
        &[7; 32],
        &params(3, None, false),
        None,
        None,
        &PriorityFeeMode::BaseOnly,
        &mut PriorityFeeStats::default(),
        0,
        &vec![1, 2, 3],
        &inputs(1),
    );
    let tx: VersionedTransaction = wincode::deserialize(&batch[0]).unwrap();
    assert_eq!(tx.signatures.len(), 1);
    assert_eq!(transfers(&batch[0]).len(), 3);
}

#[test]
fn test_largest_transactions_can_be_built() {
    for (count, use_txv1) in [(255u8, false), (127, true)] {
        let padding = InstructionPaddingConfig {
            program_id: [8; 32],
            data_size: 1,
            loaded_accounts_data_size_limit: 58 * 1024,
        };
        let payers: Vec<Keypair> =
            (0..2 * count as u16).map(|i| {
                let mut seed = [1; 32];
                seed[..2].copy_from_slice(&i.to_le_bytes());
                Keypair::new_from_array(seed)
            }).collect();
        let params = params(count as usize, None, use_txv1);
        assert!(is_batch_possible(&payers, &params, Some(&padding)));
        let batch = create_transfer_batch(
            &payers,
            0,
            &[7; 32],
            &params,
            Some(&padding),
            Some(1),
            &PriorityFeeMode::BaseOnly,
            &mut PriorityFeeStats::default(),
            0,
            &(1..=count as u64).collect(),
            &inputs(1),
        );
        assert_eq!(batch.len(), 1);
    }
}
