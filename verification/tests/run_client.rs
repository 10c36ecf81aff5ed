use transaction_bench::blockhash_updater::BlockhashUpdaterError;
use transaction_bench::cli::{
    ExecutionParams, FeeDistributionKind, FloatReadings, InstructionPaddingParams, LeaderTracker,
    PriorityFeeParams, SimpleTransferTxParams, TransactionParams,
};
use transaction_bench::error::BenchClientError;
use transaction_bench::generator::transaction_generator::{
    GeneratorSettings, TransactionGeneratorError,
};
use transaction_bench::priority_fee::PriorityFeeMode;
use transaction_bench::run_client::{
    check_batch, compute_max_allowed_uni_streams, compute_num_streams, compute_send_batch_size,
    compute_workers_pull_size, find_node_activated_stake, join_service, run_client, stream_span,
    BlockhashChoice, ClientAction, ClientEvent, ClientPhase, ClientState, ConnectionPeerType,
    RunPlan, SchedulerOrder, TaskOutcome, VoteAccount,
};

fn plan() -> RunPlan {
    RunPlan {
        num_payers: 25,
        transaction_params: TransactionParams {
            simple_transfer_tx_params: SimpleTransferTxParams {
                max_lamports_to_transfer: 513,
                transfer_tx_cu_budget: 600,
                num_send_instructions_per_tx: 1,
                tx_batch_size: None,
                num_conflict_groups: None,
            },
            padding_params: InstructionPaddingParams {
                instruction_padding_data_size: None,
                instruction_padding_program_id: None,
            },
            use_txv1: false,
        },
        execution_params: ExecutionParams {
            staked_identity_files: vec![],
            bind: "127.0.0.1:0".to_string(),
            duration: Some(2_000_000_000),
            num_transactions: None,
            blockhash_stale_slots: 0,
            blockhash_stale_secs: 0,
            target_tps: Some(10),
            initial_congestion_window: None,
            drain_seconds: 0,
            num_max_open_connections: 1,
            workers_pull_size: 1,
            send_fanout: 1,
            compute_unit_price: Some(100),
            priority_fee_params: PriorityFeeParams {
                random_compute_unit_price_max: 0,
                priority_fee_distribution: FeeDistributionKind::Uniform,
                priority_fee_shape: None,
                priority_fee_tiers: None,
                high_fee_microlamports: None,
                high_fee_fraction: None,
                high_fee_count: None,
                priority_fee_schedule_period_ms: None,
            },
            leader_tracker: LeaderTracker::WsLeaderTracker,
        },
        floats: FloatReadings { scaled_fraction: 0, tier_weights: vec![] },
    }
}

fn vote_accounts() -> Vec<VoteAccount> {
    let account = |id: [u8; 32], activated_stake: u64| VoteAccount {
        node_pubkey: solana_pubkey::Pubkey::from(id).to_string(),
        activated_stake,
    };
    vec![account([1; 32], 30), account([2; 32], 70), account([1; 32], 900)]
}

fn order(index: usize, identity: Option<usize>) -> ClientAction {
    ClientAction::StartScheduler(SchedulerOrder {
        index,
        identity,
        num_connections: 1,
        worker_channel_size: 20,
        max_reconnect_attempts: 5,
        fanout_send: 1,
        fanout_connect: 2,
        skip_check_transaction_age: false,
        override_initial_congestion_window: None,
    })
}

fn arguments(text: &str) -> ClientAction {
    ClientAction::Fail(BenchClientError::InvalidCliArguments(text.to_string()))
}

fn at(phase: ClientPhase) -> ClientState {
    ClientState {
        phase,
        first_identity: None,
        num_identities: 0,
        send_batch_size: 1,
        workers_pull_size: 1,
    }
}

/// A run up to the point at which the number of streams is known.
fn sized(plan: &RunPlan) -> (ClientState, ClientAction) {
    let mut state = ClientState::default();
    run_client(plan, &mut state, ClientEvent::Started);
    run_client(plan, &mut state, ClientEvent::IdentitiesRead(Some(vec![])));
    let action =
        run_client(plan, &mut state, ClientEvent::VoteAccountsAnswered(Some(vote_accounts())));
    (state, action)
}

#[test]
fn test_node_stake() {
    let accounts = vote_accounts();
    assert_eq!(find_node_activated_stake(Some(&accounts), None), Ok((None, 1000)));
    assert_eq!(find_node_activated_stake(Some(&accounts), Some(&[2; 32])), Ok((Some(70), 1000)));
    // The first entry of the node counts.
    assert_eq!(find_node_activated_stake(Some(&accounts), Some(&[1; 32])), Ok((Some(30), 1000)));
    let failure = Err(BenchClientError::FindValidatorIdentityFailure);
    assert_eq!(find_node_activated_stake(Some(&accounts), Some(&[3; 32])), failure);
    assert_eq!(find_node_activated_stake(None, None), failure);
}

#[test]
fn test_streams_by_stake() {
    assert_eq!(stream_span(), 99_872);
    let streams = compute_max_allowed_uni_streams;
    assert_eq!(streams(ConnectionPeerType::Unstaked, 0, 7), 128);
    assert_eq!(streams(ConnectionPeerType::Staked(5), 0, 7), 128);
    assert_eq!(streams(ConnectionPeerType::Staked(5), 4, 7), 128);
    assert_eq!(streams(ConnectionPeerType::Staked(5), 10, 7), 135);
    assert_eq!(streams(ConnectionPeerType::Staked(5), 10, 384), 512);
    assert_eq!(streams(ConnectionPeerType::Staked(5), 10, 385), 512);
    assert_eq!(streams(ConnectionPeerType::Staked(5), 10, usize::MAX), 512);
    assert_eq!(compute_num_streams(Ok((Some(5), 10)), 9), Ok(137));
    assert_eq!(compute_num_streams(Ok((None, 10)), 9), Ok(128));
    let failure = BenchClientError::FindValidatorIdentityFailure;
    assert_eq!(compute_num_streams(Err(failure.clone()), 9), Err(failure));
}

#[test]
fn test_streams_grow_with_the_stake() {
    let total = 1_000_000u64;
    let streams: Vec<usize> = (0..=total)
        .step_by(100)
        .map(|stake| {
            let share = ((stake as f64 / total as f64) * stream_span() as f64) as usize;
            compute_max_allowed_uni_streams(ConnectionPeerType::Staked(stake), total, share)
        })
        .collect();
    assert!(streams.windows(2).all(|pair| pair[0] <= pair[1]));
    assert_eq!(*streams.last().unwrap(), 512);
}

#[test]
fn test_send_batch_size() {
    assert_eq!(compute_send_batch_size(Some(3), 128, Some(1000)), 3);
    assert_eq!(compute_send_batch_size(None, 128, None), 128);
    assert_eq!(compute_send_batch_size(None, 128, Some(1)), 1);
    assert_eq!(compute_send_batch_size(None, 128, Some(11)), 2);
    assert_eq!(compute_send_batch_size(None, 128, Some(5000)), 128);
    assert_eq!(compute_send_batch_size(None, 128, Some(u64::MAX)), 128);
}

#[test]
fn test_at_most_ten_batches_per_second() {
    for target_tps in 1..5000u64 {
        let size = compute_send_batch_size(None, 512, Some(target_tps)) as u64;
        assert!(target_tps.div_ceil(size) <= 10);
    }
}

#[test]
fn test_workers_pull_size() {
    assert_eq!(compute_workers_pull_size(8, 128, None), 8);
    assert_eq!(compute_workers_pull_size(8, 10, Some(10)), 1);
    assert_eq!(compute_workers_pull_size(8, 10, Some(100)), 2);
    assert_eq!(compute_workers_pull_size(8, 10, Some(101)), 4);
    assert_eq!(compute_workers_pull_size(3, 10, Some(101)), 3);
    assert_eq!(compute_workers_pull_size(0, 10, Some(101)), 1);
}

#[test]
fn test_join_service() {
    assert_eq!(join_service(TaskOutcome::Completed, "x"), Ok(()));
    let stuck = BenchClientError::BlockhashUpdater(BlockhashUpdaterError::BlockhashStuck);
    assert_eq!(join_service(TaskOutcome::Failed(stuck.clone()), "x"), Err(stuck.clone()));
    assert_eq!(stuck.message(), "Blockhash is stuck.");
    let outcome = TaskOutcome::NotJoined { reason: "panic".to_string() };
    let failure = BenchClientError::TaskJoinFailure {
        task_name: "x".to_string(),
        reason: "panic".to_string(),
    };
    assert_eq!(join_service(outcome, "x"), Err(failure));
}

#[test]
fn test_batch_checks() {
    let mut params = plan().transaction_params;
    params.simple_transfer_tx_params.num_send_instructions_per_tx = 4;
    assert_eq!(check_batch(&params, 128), Ok(()));
    assert_eq!(
        check_batch(&params, 129),
        Err(BenchClientError::InvalidCliArguments(
            "--max-lamports-to-transfer (513) must be >= transfer instructions per generated \
             batch (516) ; computed as num-send-instructions-per-tx (4) * tx-batch-size (129)"
                .to_string()
        ))
    );
    params.simple_transfer_tx_params.num_conflict_groups = Some(8);
    assert_eq!(check_batch(&params, 2), Ok(()));
    params.simple_transfer_tx_params.num_conflict_groups = Some(9);
    assert_eq!(
        check_batch(&params, 2),
        Err(BenchClientError::InvalidCliArguments(
            "--num-conflict-groups (9) must be <= num-send-instructions-per-tx (4) * \
             tx-batch-size (2)"
                .to_string()
        ))
    );
}

#[test]
fn test_plain_run() {
    let plan = plan();
    let mut state = ClientState::default();
    let mut turn = |event: ClientEvent| run_client(&plan, &mut state, event);
    assert_eq!(turn(ClientEvent::Started), ClientAction::ReadIdentities);
    assert_eq!(turn(ClientEvent::IdentitiesRead(Some(vec![]))), ClientAction::GetVoteAccounts);
    assert_eq!(
        turn(ClientEvent::VoteAccountsAnswered(Some(vote_accounts()))),
        ClientAction::GetLatestBlockhash
    );
    assert_eq!(
        turn(ClientEvent::BlockhashAnswered),
        ClientAction::StartUpdater(BlockhashChoice::Freshest)
    );
    assert_eq!(
        turn(ClientEvent::Proceeded),
        ClientAction::StartGenerator {
            settings: GeneratorSettings {
                num_payers: 25,
                num_senders: 1,
                transaction_params: plan.transaction_params,
                compute_unit_price: Some(100),
                send_batch_size: 1,
                run_duration: Some(2_000_000_000),
                num_transactions: None,
                target_tps: Some(10),
                workers_pull_size: 1,
            },
            mode: PriorityFeeMode::BaseOnly,
        }
    );
    assert_eq!(turn(ClientEvent::Proceeded), order(0, None));
    assert_eq!(turn(ClientEvent::SchedulerStarted(Ok(()))), ClientAction::ReportStats);
    assert_eq!(turn(ClientEvent::Proceeded), ClientAction::JoinGenerator);
    assert_eq!(turn(ClientEvent::Joined(TaskOutcome::Completed)), ClientAction::CloseChannels);
    assert_eq!(turn(ClientEvent::Proceeded), ClientAction::JoinUpdater);
    assert_eq!(
        turn(ClientEvent::Joined(TaskOutcome::Completed)),
        ClientAction::JoinScheduler { index: 0 }
    );
    assert_eq!(turn(ClientEvent::Joined(TaskOutcome::Completed)), ClientAction::Finish);
    assert_eq!(state.phase, ClientPhase::Over);
}

#[test]
fn test_staked_run_with_all_options() {
    let mut plan = plan();
    plan.execution_params.target_tps = None;
    plan.execution_params.blockhash_stale_secs = 20;
    plan.execution_params.drain_seconds = 3;
    plan.execution_params.workers_pull_size = 8;
    plan.transaction_params.padding_params.instruction_padding_data_size = Some(1);
    let mut state = ClientState::default();
    let mut turn = |event: ClientEvent| run_client(&plan, &mut state, event);
    turn(ClientEvent::Started);
    turn(ClientEvent::IdentitiesRead(Some(vec![[2; 32], [4; 32]])));
    assert_eq!(
        turn(ClientEvent::VoteAccountsAnswered(Some(vote_accounts()))),
        ClientAction::ScaleShare { peer_stake: 70, total_stake: 1000 }
    );
    assert_eq!(
        turn(ClientEvent::ShareScaled { scaled_share: 6991 }),
        ClientAction::GetAccount {
            program_id: spl_instruction_padding_interface::ID.to_bytes()
        }
    );
    assert_eq!(turn(ClientEvent::AccountAnswered(Ok(()))), ClientAction::GetLatestBlockhash);
    assert_eq!(
        turn(ClientEvent::BlockhashAnswered),
        ClientAction::StartUpdater(BlockhashChoice::StaleFor(20_000_000_000))
    );
    // Primed until the first blockhash is old enough, and a little longer.
    assert_eq!(turn(ClientEvent::Proceeded), ClientAction::Sleep { nanos: 22_000_000_000 });
    match turn(ClientEvent::Proceeded) {
        ClientAction::StartGenerator { settings, .. } => {
            assert_eq!(settings.num_senders, 2);
            assert_eq!(settings.send_batch_size, 512);
            assert_eq!(settings.workers_pull_size, 8);
        }
        _ => panic!("expected a generator"),
    }
    assert_eq!(turn(ClientEvent::Proceeded), order(0, Some(0)));
    assert_eq!(turn(ClientEvent::SchedulerStarted(Ok(()))), order(1, Some(1)));
    assert_eq!(turn(ClientEvent::SchedulerStarted(Ok(()))), ClientAction::ReportStats);
    assert_eq!(turn(ClientEvent::Proceeded), ClientAction::JoinGenerator);
    assert_eq!(
        turn(ClientEvent::Joined(TaskOutcome::Completed)),
        ClientAction::Sleep { nanos: 3_000_000_000 }
    );
    assert_eq!(turn(ClientEvent::Proceeded), ClientAction::CloseChannels);
    assert_eq!(turn(ClientEvent::Proceeded), ClientAction::JoinUpdater);
    assert_eq!(
        turn(ClientEvent::Joined(TaskOutcome::Completed)),
        ClientAction::JoinScheduler { index: 0 }
    );
    assert_eq!(
        turn(ClientEvent::Joined(TaskOutcome::Completed)),
        ClientAction::JoinScheduler { index: 1 }
    );
    assert_eq!(turn(ClientEvent::Joined(TaskOutcome::Completed)), ClientAction::Finish);
}

#[test]
fn test_stale_slots_are_checked_first() {
    let mut plan = plan();
    plan.execution_params.blockhash_stale_slots = 145;
    let (mut state, action) = sized(&plan);
    assert_eq!(action, ClientAction::GetLatestBlockhash);
    assert_eq!(
        run_client(&plan, &mut state, ClientEvent::BlockhashAnswered),
        ClientAction::CheckAgedBlockhash { stale_slots: 145 }
    );
    let mut other = state;
    assert_eq!(
        run_client(&plan, &mut other, ClientEvent::AgedBlockhashChecked(Err("no".to_string()))),
        arguments("no")
    );
    assert_eq!(
        run_client(&plan, &mut state, ClientEvent::AgedBlockhashChecked(Ok(()))),
        ClientAction::StartUpdater(BlockhashChoice::StaleSlots(145))
    );
    // No priming.
    assert!(matches!(
        run_client(&plan, &mut state, ClientEvent::Proceeded),
        ClientAction::StartGenerator { .. }
    ));
}

#[test]
fn test_stale_slots_and_seconds_exclude_each_other() {
    let mut plan = plan();
    plan.execution_params.blockhash_stale_slots = 145;
    plan.execution_params.blockhash_stale_secs = 20;
    let mut state = ClientState::default();
    assert_eq!(
        run_client(&plan, &mut state, ClientEvent::Started),
        arguments("--blockhash-stale-slots cannot be combined with --blockhash-stale-secs")
    );
    assert_eq!(state.phase, ClientPhase::Over);
}

#[test]
fn test_unknown_stake_falls_back_to_a_default() {
    let mut plan = plan();
    plan.execution_params.target_tps = None;
    let mut state = ClientState::default();
    run_client(&plan, &mut state, ClientEvent::Started);
    run_client(&plan, &mut state, ClientEvent::IdentitiesRead(Some(vec![[3; 32]])));
    assert_eq!(
        run_client(&plan, &mut state, ClientEvent::VoteAccountsAnswered(Some(vote_accounts()))),
        ClientAction::GetLatestBlockhash
    );
    assert_eq!(state.send_batch_size, 8);
}

#[test]
fn test_longest_priming() {
    let mut plan = plan();
    plan.execution_params.blockhash_stale_secs = u64::MAX;
    let mut state = at(ClientPhase::StartingUpdater);
    assert_eq!(
        run_client(&plan, &mut state, ClientEvent::Proceeded),
        ClientAction::Sleep { nanos: std::time::Duration::MAX.as_nanos() }
    );
}

#[test]
fn test_run_failures() {
    let mut plan = plan();
    let mut state = at(ClientPhase::ReadingIdentities);
    assert_eq!(
        run_client(&plan, &mut state, ClientEvent::IdentitiesRead(None)),
        ClientAction::Fail(BenchClientError::KeypairReadFailure)
    );

    plan.transaction_params.simple_transfer_tx_params.tx_batch_size = Some(514);
    assert_eq!(
        sized(&plan).1,
        arguments(
            "--max-lamports-to-transfer (513) must be >= transfer instructions per generated \
             batch (514) ; computed as num-send-instructions-per-tx (1) * tx-batch-size (514)"
        )
    );

    plan.transaction_params.simple_transfer_tx_params.tx_batch_size = Some(1);
    plan.transaction_params.padding_params.instruction_padding_data_size = Some(1);
    plan.transaction_params.padding_params.instruction_padding_program_id = Some([8; 32]);
    let (mut state, action) = sized(&plan);
    assert_eq!(action, ClientAction::GetAccount { program_id: [8; 32] });
    let id = solana_pubkey::Pubkey::from([8; 32]);
    assert_eq!(
        run_client(&plan, &mut state, ClientEvent::AccountAnswered(Err("gone".to_string()))),
        arguments(&format!("instruction padding program {id} is not available: gone"))
    );

    plan.execution_params.priority_fee_params.priority_fee_schedule_period_ms = Some(5);
    let mut state = at(ClientPhase::StartingUpdater);
    assert_eq!(
        run_client(&plan, &mut state, ClientEvent::Proceeded),
        arguments(
            "--priority-fee-schedule-period-ms has no effect when \
             --random-compute-unit-price-max is 0; set it to a positive value"
        )
    );

    let failure = || BenchClientError::ServiceFailure("no leader".to_string());
    let mut state = at(ClientPhase::StartingScheduler { index: 0 });
    assert_eq!(
        run_client(&plan, &mut state, ClientEvent::SchedulerStarted(Err(failure()))),
        ClientAction::Fail(failure())
    );

    let dropped = BenchClientError::TransactionGenerator(TransactionGeneratorError::ReceiverDropped);
    let mut state = at(ClientPhase::JoiningGenerator);
    assert_eq!(
        run_client(&plan, &mut state, ClientEvent::Joined(TaskOutcome::Failed(dropped.clone()))),
        ClientAction::Fail(dropped)
    );

    for (phase, name) in [
        (ClientPhase::JoiningGenerator, "TransactionGenerator"),
        (ClientPhase::JoiningUpdater, "BlockhashUpdater"),
        (ClientPhase::JoiningScheduler { index: 0 }, "Scheduler-0"),
    ] {
        let outcome = TaskOutcome::NotJoined { reason: "panic".to_string() };
        let expected = BenchClientError::TaskJoinFailure {
            task_name: name.to_string(),
            reason: "panic".to_string(),
        };
        assert_eq!(
            run_client(&plan, &mut at(phase), ClientEvent::Joined(outcome)),
            ClientAction::Fail(expected)
        );
    }
}

#[test]
fn test_plans_that_cannot_be_worked_by() {
    let mut plan = plan();
    assert!(plan.is_well_formed());
    plan.execution_params.target_tps = Some(0);
    assert!(!plan.is_well_formed());
    plan.execution_params.target_tps = None;
    plan.transaction_params.simple_transfer_tx_params.tx_batch_size = Some(0);
    assert!(!plan.is_well_formed());
    plan.transaction_params.simple_transfer_tx_params.tx_batch_size = None;
    plan.execution_params.priority_fee_params.priority_fee_schedule_period_ms = Some(0);
    assert!(!plan.is_well_formed());
}

#[test]
fn test_error_messages() {
    assert_eq!(
        BenchClientError::InvalidCliArguments("x".to_string()).message(),
        "Invalid CLI arguments: x"
    );
    assert_eq!(BenchClientError::ServiceFailure("x".to_string()).message(), "x");
    assert_eq!(
        BenchClientError::TransactionGenerator(TransactionGeneratorError::GenerateTxBatchFailure)
            .message(),
        "Failed to generate transaction batch."
    );
    let failure = BenchClientError::TaskJoinFailure {
        task_name: "a".to_string(),
        reason: "b".to_string(),
    };
    assert_eq!(failure.message(), "Task a failed to join: b");
    assert!(!BenchClientError::KeypairReadFailure.message().is_empty());
    assert!(!BenchClientError::FindValidatorIdentityFailure.message().is_empty());
}
