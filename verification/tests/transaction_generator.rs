use transaction_bench::cli::{InstructionPaddingParams, SimpleTransferTxParams, TransactionParams};
use transaction_bench::generator::transaction_builder::{create_serialized_transfers, Cursor};
use transaction_bench::generator::transaction_generator::{
    compute_batch_interval, compute_transfer_tx_min_cu_budget, BatchOrder, GeneratorAction,
    GeneratorEvent, GeneratorSettings, TransactionGenerator, TransactionGeneratorError,
    TransactionType,
};
use transaction_bench::priority_fee::{
    PremiumPlan, PriorityFeeMode, PriorityFeeStats, ShapedDraw,
};
use transaction_bench::wire::Keypair;

fn make_transaction_params(
    num_send_instructions_per_tx: usize,
    instruction_padding_data_size: Option<u32>,
    use_txv1: bool,
) -> TransactionParams {
    TransactionParams {
        simple_transfer_tx_params: SimpleTransferTxParams {
            max_lamports_to_transfer: 513,
            transfer_tx_cu_budget: 600,
            num_send_instructions_per_tx,
            tx_batch_size: None,
            num_conflict_groups: None,
        },
        padding_params: InstructionPaddingParams {
            instruction_padding_data_size,
            instruction_padding_program_id: None,
        },
        use_txv1,
    }
}

fn settings() -> GeneratorSettings {
    GeneratorSettings {
        num_payers: 7,
        num_senders: 2,
        transaction_params: make_transaction_params(1, None, false),
        compute_unit_price: None,
        send_batch_size: 2,
        run_duration: None,
        num_transactions: Some(5),
        target_tps: None,
        workers_pull_size: 2,
    }
}

const HASH: [u8; 32] = [9; 32];

fn look(elapsed: u128) -> GeneratorEvent {
    GeneratorEvent::Observed { elapsed, all_senders_closed: false, blockhash: HASH }
}

fn order(sender_index: usize, index_payer: usize, first_tx_index: u64, size: usize) -> GeneratorAction {
    GeneratorAction::SpawnBatch(BatchOrder {
        transaction_type: TransactionType::Transfer,
        sender_index,
        index_payer,
        first_tx_index,
        send_batch_size: size,
        blockhash: HASH,
    })
}

#[test]
fn test_compute_batch_interval() {
    // In nanoseconds: 100 ms and 1 s.
    assert_eq!(compute_batch_interval(10, 100), 100_000_000);
    assert_eq!(compute_batch_interval(1, 1), 1_000_000_000);
}

#[test]
fn test_batch_interval_rounds_up_and_saturates() {
    assert_eq!(compute_batch_interval(1, 3), 333_333_334);
    assert_eq!(compute_batch_interval(0, 3), 0);
    assert_eq!(compute_batch_interval(usize::MAX, 1), u64::MAX);
}

#[test]
fn test_transfer_tx_min_cu_budget_legacy_without_optional_compute_budget_instructions() {
    let transaction_params = make_transaction_params(2, None, false);

    let actual = compute_transfer_tx_min_cu_budget(&transaction_params, None);

    // 1 compute-budget instruction + 2 simple transfer instructions.
    assert_eq!(actual, 150 + 2 * 150);
}

#[test]
fn test_transfer_tx_min_cu_budget_legacy_with_price_and_padding() {
    let transaction_params = make_transaction_params(2, Some(32), false);

    let actual = compute_transfer_tx_min_cu_budget(&transaction_params, Some(1_000));

    // 3 compute-budget instructions (limit + price + loaded-account-size) + 2 padded transfers.
    assert_eq!(actual, 3 * 150 + 2 * 3_000);
}

#[test]
fn test_transfer_tx_min_cu_budget_v1_with_price_and_padding() {
    let transaction_params = make_transaction_params(2, Some(32), true);

    let actual = compute_transfer_tx_min_cu_budget(&transaction_params, Some(1_000));

    // A V1 message holds the settings without compute-budget instructions.
    assert_eq!(actual, 2 * 3_000);
}

#[test]
fn test_generator_sends_exactly_the_requested_count() {
    let mut generator = TransactionGenerator::new(settings());
    assert_eq!(generator.run(GeneratorEvent::Started), GeneratorAction::Observe);
    assert_eq!(generator.run(look(0)), order(0, 0, 0, 2));
    assert_eq!(generator.run(GeneratorEvent::BatchSpawned), order(1, 4, 2, 2));
    assert_eq!(generator.run(GeneratorEvent::BatchSpawned), GeneratorAction::JoinBatch);
    assert_eq!(generator.run(GeneratorEvent::BatchJoined), GeneratorAction::Observe);
    // The last batch holds what is left.
    assert_eq!(generator.run(look(1)), order(0, 1, 4, 1));
    assert_eq!(generator.run(GeneratorEvent::BatchSpawned), GeneratorAction::JoinBatch);
    assert_eq!(generator.run(GeneratorEvent::BatchJoined), GeneratorAction::Observe);
    assert_eq!(generator.run(look(2)), GeneratorAction::JoinBatch);
    assert_eq!(generator.run(GeneratorEvent::BatchJoined), GeneratorAction::Finish);
}

#[test]
fn test_generator_stops_in_mid_filling_when_all_is_scheduled() {
    let mut generator = TransactionGenerator::new(GeneratorSettings {
        num_transactions: Some(2),
        workers_pull_size: 9,
        ..settings()
    });
    generator.run(GeneratorEvent::Started);
    assert_eq!(generator.run(look(0)), order(0, 0, 0, 2));
    assert_eq!(generator.run(GeneratorEvent::BatchSpawned), GeneratorAction::JoinBatch);
}

#[test]
fn test_generator_stops_when_time_is_up() {
    let mut generator =
        TransactionGenerator::new(GeneratorSettings { run_duration: Some(10), ..settings() });
    generator.run(GeneratorEvent::Started);
    assert_eq!(generator.run(look(9)), order(0, 0, 0, 2));
    generator.run(GeneratorEvent::BatchSpawned);
    generator.run(GeneratorEvent::BatchSpawned);
    generator.run(GeneratorEvent::BatchJoined);
    // One batch is still on its way.
    assert_eq!(generator.run(look(10)), GeneratorAction::JoinBatch);
    assert_eq!(generator.run(GeneratorEvent::BatchJoined), GeneratorAction::Finish);
}

#[test]
fn test_generator_waits_for_every_batch_before_it_finishes() {
    let mut generator = TransactionGenerator::new(GeneratorSettings {
        num_transactions: Some(6),
        workers_pull_size: 3,
        ..settings()
    });
    generator.run(GeneratorEvent::Started);
    assert_eq!(generator.run(look(0)), order(0, 0, 0, 2));
    assert_eq!(generator.run(GeneratorEvent::BatchSpawned), order(1, 4, 2, 2));
    assert_eq!(generator.run(GeneratorEvent::BatchSpawned), order(0, 1, 4, 2));
    assert_eq!(generator.run(GeneratorEvent::BatchSpawned), GeneratorAction::JoinBatch);
    assert_eq!(generator.run(GeneratorEvent::BatchJoined), GeneratorAction::Observe);
    assert_eq!(generator.run(look(1)), GeneratorAction::JoinBatch);
    assert_eq!(generator.run(GeneratorEvent::BatchJoined), GeneratorAction::JoinBatch);
    assert_eq!(generator.run(GeneratorEvent::BatchJoined), GeneratorAction::Finish);
}

#[test]
fn test_generator_finishes_at_once_where_nothing_is_in_flight() {
    let mut generator =
        TransactionGenerator::new(GeneratorSettings { run_duration: Some(0), ..settings() });
    generator.run(GeneratorEvent::Started);
    assert_eq!(generator.run(look(0)), GeneratorAction::Finish);
}

#[test]
fn test_generator_paces_batches() {
    let mut generator = TransactionGenerator::new(GeneratorSettings {
        target_tps: Some(4),
        workers_pull_size: 9,
        ..settings()
    });
    generator.run(GeneratorEvent::Started);
    assert_eq!(generator.run(look(0)), GeneratorAction::WaitUntil { deadline: 0 });
    assert_eq!(generator.run(GeneratorEvent::Waited), order(0, 0, 0, 2));
    // Two transactions at four per second.
    assert_eq!(
        generator.run(GeneratorEvent::BatchSpawned),
        GeneratorAction::WaitUntil { deadline: 500_000_000 }
    );
    assert_eq!(generator.run(GeneratorEvent::Waited), order(1, 4, 2, 2));
    assert_eq!(
        generator.run(GeneratorEvent::BatchSpawned),
        GeneratorAction::WaitUntil { deadline: 1_000_000_000 }
    );
    assert_eq!(generator.run(GeneratorEvent::Waited), order(0, 1, 4, 1));
    assert_eq!(
        generator.run(GeneratorEvent::BatchSpawned),
        GeneratorAction::WaitUntil { deadline: 1_250_000_000 }
    );
    assert_eq!(generator.run(GeneratorEvent::Waited), GeneratorAction::JoinBatch);
}

#[test]
fn test_conflict_groups_use_up_fewer_receivers() {
    let mut params = make_transaction_params(1, None, false);
    params.simple_transfer_tx_params.num_conflict_groups = Some(1);
    let mut generator =
        TransactionGenerator::new(GeneratorSettings { transaction_params: params, ..settings() });
    generator.run(GeneratorEvent::Started);
    assert_eq!(generator.run(look(0)), order(0, 0, 0, 2));
    assert_eq!(generator.run(GeneratorEvent::BatchSpawned), order(1, 3, 2, 2));
}

#[test]
fn test_premium_transactions_of_a_run() {
    let plan = PremiumPlan { total: 101, premium_count: 17, premium_fee: 1 };
    let mut generator = TransactionGenerator::new(GeneratorSettings {
        num_transactions: Some(plan.total),
        send_batch_size: 8,
        ..settings()
    });
    let mut action = generator.run(GeneratorEvent::Started);
    let mut premiums = 0;
    let mut sent = 0;
    loop {
        let event = match action {
            GeneratorAction::Observe => look(0),
            GeneratorAction::SpawnBatch(order) => {
                assert_eq!(order.first_tx_index, sent);
                sent += order.send_batch_size as u64;
                premiums += (order.first_tx_index..sent).filter(|&i| plan.is_premium(i)).count();
                GeneratorEvent::BatchSpawned
            }
            GeneratorAction::JoinBatch => GeneratorEvent::BatchJoined,
            GeneratorAction::Finish => break,
            _ => panic!("unexpected {action:?}"),
        };
        action = generator.run(event);
    }
    assert_eq!(sent, 101);
    assert_eq!(premiums, 17);
}

#[test]
fn test_min_budget_counts_the_instructions_of_a_transaction() {
    let senders = [Keypair::new_from_array([1; 32])];
    let receivers = [Keypair::new_from_array([2; 32])];
    let plan = PremiumPlan { total: 1, premium_count: 1, premium_fee: 1 };
    for (price, mode, uncounted) in [
        (None, PriorityFeeMode::BaseOnly, 0),
        (Some(5), PriorityFeeMode::BaseOnly, 0),
        (Some(5), PriorityFeeMode::Premium(plan), 0),
        (None, PriorityFeeMode::Premium(plan), 1),
    ] {
        let mut instructions = vec![];
        create_serialized_transfers(
            &mut Cursor::new(&senders),
            &mut Cursor::new(&receivers),
            &mut Cursor::new(&[1]),
            &HASH,
            &mut instructions,
            &mut vec![],
            1,
            600,
            None,
            price,
            &mode,
            &mut PriorityFeeStats::default(),
            0,
            0,
            &ShapedDraw { rounded_fee: 0, below_zero: vec![] },
            false,
        );
        let budget =
            compute_transfer_tx_min_cu_budget(&make_transaction_params(1, None, false), price);
        assert_eq!(budget + 150 * uncounted, 150 * instructions.len() as u32);
    }
}

#[test]
fn test_generator_errors() {
    let mut params = make_transaction_params(4, None, false);
    params.simple_transfer_tx_params.transfer_tx_cu_budget = 749;
    let mut generator =
        TransactionGenerator::new(GeneratorSettings { transaction_params: params, ..settings() });
    let failure = TransactionGeneratorError::GenerateTxBatchFailure;
    assert_eq!(generator.run(GeneratorEvent::Started), GeneratorAction::Fail(failure));
    assert_eq!(failure.message(), "Failed to generate transaction batch.");

    params.simple_transfer_tx_params.transfer_tx_cu_budget = 750;
    let mut generator =
        TransactionGenerator::new(GeneratorSettings { transaction_params: params, ..settings() });
    assert_eq!(generator.run(GeneratorEvent::Started), GeneratorAction::Observe);
    let closed =
        GeneratorEvent::Observed { elapsed: 0, all_senders_closed: true, blockhash: HASH };
    let failure = TransactionGeneratorError::ReceiverDropped;
    assert_eq!(generator.run(closed), GeneratorAction::Fail(failure));
    assert_eq!(failure.message(), "Transactions receiver has been dropped unexpectedly.");

    let mut generator =
        TransactionGenerator::new(GeneratorSettings { num_senders: 0, ..settings() });
    generator.run(GeneratorEvent::Started);
    assert_eq!(generator.run(look(0)), GeneratorAction::Fail(failure));
}

#[test]
fn test_settings_that_cannot_be_worked_by() {
    assert!(settings().is_well_formed());
    assert!(!GeneratorSettings { num_payers: 0, ..settings() }.is_well_formed());
    assert!(!GeneratorSettings { target_tps: Some(0), ..settings() }.is_well_formed());
    assert!(!GeneratorSettings { send_batch_size: usize::MAX, ..settings() }.is_well_formed());
    let many = make_transaction_params(u32::MAX as usize, None, false);
    assert!(!GeneratorSettings { transaction_params: many, ..settings() }.is_well_formed());
}

#[test]
fn test_pace_of_a_large_batch_size_under_a_small_limit() {
    // Full batches would take longer than 64 bits can say; the one that is ordered
    // holds three transactions.
    let size = 50_000_000_000;
    assert_eq!(compute_batch_interval(size, 1), u64::MAX);
    let mut params = make_transaction_params(1, None, false);
    params.simple_transfer_tx_params.num_conflict_groups = Some(1);
    let mut generator = TransactionGenerator::new(GeneratorSettings {
        transaction_params: params,
        send_batch_size: size,
        num_transactions: Some(3),
        target_tps: Some(1),
        ..settings()
    });
    generator.run(GeneratorEvent::Started);
    assert_eq!(generator.run(look(0)), GeneratorAction::WaitUntil { deadline: 0 });
    assert_eq!(generator.run(GeneratorEvent::Waited), order(0, 0, 0, 3));
    assert_eq!(
        generator.run(GeneratorEvent::BatchSpawned),
        GeneratorAction::WaitUntil { deadline: 3_000_000_000 }
    );
}
