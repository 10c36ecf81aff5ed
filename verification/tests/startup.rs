use transaction_bench::cli::{
    AccountParams, ClientCliParameters, Command, CommitmentLevel, DeleteAccounts, ExecutionParams,
    FeeDistributionKind, InstructionPaddingParams, LeaderTracker, PriorityFeeParams, ReadAccounts,
    SimpleTransferTxParams, TransactionParams, WriteAccounts,
};
use transaction_bench::error::BenchClientError;
use transaction_bench::startup::{
    create_mock_accounts, run, validate_mock_rpc_usage, StartupAction, StartupEvent, StartupPhase,
};

fn execution_params(leader_tracker: LeaderTracker) -> ExecutionParams {
    ExecutionParams {
        staked_identity_files: vec![],
        bind: "127.0.0.1:0".to_string(),
        duration: None,
        num_transactions: None,
        blockhash_stale_slots: 0,
        blockhash_stale_secs: 0,
        target_tps: None,
        initial_congestion_window: None,
        drain_seconds: 0,
        num_max_open_connections: 1,
        workers_pull_size: 1,
        send_fanout: 1,
        compute_unit_price: None,
        priority_fee_params: PriorityFeeParams {
            random_compute_unit_price_max: 0,
            priority_fee_distribution: FeeDistributionKind::Uniform,
            priority_fee_shape: None,
            priority_fee_tiers: None,
            high_fee_microlamports: None,
            high_fee_fraction: None,
            high_fee_count: None,
            priority_fee_schedule_period_ms: None,
        },
        leader_tracker,
    }
}

fn transaction_params() -> TransactionParams {
    TransactionParams {
        simple_transfer_tx_params: SimpleTransferTxParams {
            max_lamports_to_transfer: 513,
            transfer_tx_cu_budget: 600,
            num_send_instructions_per_tx: 1,
            tx_batch_size: None,
            num_conflict_groups: None,
        },
        padding_params: InstructionPaddingParams {
            instruction_padding_data_size: None,
            instruction_padding_program_id: None,
        },
        use_txv1: false,
    }
}

fn pinned() -> LeaderTracker {
    LeaderTracker::PinnedLeaderTracker { address: "127.0.0.1:8009".to_string() }
}

fn test_run_parameters(leader_tracker: LeaderTracker) -> ClientCliParameters {
    ClientCliParameters {
        json_rpc_url: "http://localhost:8899".to_string(),
        commitment_config: CommitmentLevel::Confirmed,
        authority: None,
        validate_accounts: false,
        mock_rpc: true,
        command: Command::Run {
            account_params: AccountParams { num_payers: 4, payer_account_balance: 1_000 },
            execution_params: execution_params(leader_tracker),
            transaction_params: transaction_params(),
        },
    }
}

fn write_accounts() -> Command {
    Command::WriteAccounts(WriteAccounts {
        accounts_file: "accounts.json".to_string(),
        account_params: AccountParams { num_payers: 4, payer_account_balance: 1_000 },
    })
}

#[test]
fn test_mock_rpc_requires_pinned_leader_tracker() {
    let parameters = test_run_parameters(LeaderTracker::WsLeaderTracker);

    let err = validate_mock_rpc_usage(&parameters).unwrap_err().message();
    assert!(err.contains("pinned-leader-tracker"));
}

#[test]
fn test_mock_rpc_rejects_write_accounts() {
    let parameters = ClientCliParameters {
        json_rpc_url: "http://localhost:8899".to_string(),
        commitment_config: CommitmentLevel::Confirmed,
        authority: None,
        validate_accounts: false,
        mock_rpc: true,
        command: write_accounts(),
    };

    let err = validate_mock_rpc_usage(&parameters).unwrap_err().message();
    assert!(err.contains("write-accounts"));
}

#[test]
fn test_create_mock_accounts_generates_requested_number_of_payers() {
    let accounts = create_mock_accounts(3);
    assert_eq!(accounts.payers.len(), 3);
}

#[test]
fn test_mock_accounts_differ() {
    let accounts = create_mock_accounts(2);
    assert_ne!(accounts.payers[0].pubkey(), accounts.payers[1].pubkey());
}

#[test]
fn test_mock_rpc_usage_texts() {
    let error = |p: &ClientCliParameters| validate_mock_rpc_usage(p).unwrap_err();
    let arguments = |text: &str| BenchClientError::InvalidCliArguments(text.to_string());
    let mut parameters = test_run_parameters(LeaderTracker::WsLeaderTracker);
    assert_eq!(error(&parameters), arguments("--mock-rpc requires `pinned-leader-tracker`"));
    parameters.validate_accounts = true;
    assert_eq!(error(&parameters), arguments("--mock-rpc does not support --validate-accounts"));
    parameters.validate_accounts = false;
    parameters.command = write_accounts();
    assert_eq!(error(&parameters), arguments("--mock-rpc does not support `write-accounts`"));
    parameters.command = Command::ReadAccountsRun {
        read_accounts: ReadAccounts { accounts_file: "accounts.json".to_string() },
        execution_params: execution_params(LeaderTracker::YellowstoneLeaderTracker {
            url: "http://localhost".to_string(),
            token: None,
        }),
        transaction_params: transaction_params(),
    };
    assert_eq!(error(&parameters), arguments("--mock-rpc requires `pinned-leader-tracker`"));
    parameters.mock_rpc = false;
    assert_eq!(validate_mock_rpc_usage(&parameters), Ok(()));
    assert_eq!(validate_mock_rpc_usage(&test_run_parameters(pinned())), Ok(()));
}

#[test]
fn test_mock_run() {
    let parameters = test_run_parameters(pinned());
    let mut phase = StartupPhase::NotStarted;
    let mut turn = |event: StartupEvent| run(&parameters, &mut phase, event);
    assert_eq!(turn(StartupEvent::Started), StartupAction::MakeAuthority);
    assert_eq!(
        turn(StartupEvent::AuthorityAnswered { available: true }),
        StartupAction::Connect { mock: true }
    );
    assert_eq!(turn(StartupEvent::Connected), StartupAction::MakeMockAccounts { num_payers: 4 });
    assert_eq!(turn(StartupEvent::AccountsAnswered(Ok(()))), StartupAction::RunClient);
    assert_eq!(turn(StartupEvent::WorkDone(Ok(()))), StartupAction::Finish);
    assert_eq!(phase, StartupPhase::Over);
}

#[test]
fn test_commands() {
    let mut parameters = test_run_parameters(pinned());
    parameters.mock_rpc = false;
    parameters.validate_accounts = true;
    parameters.authority = Some("key.json".to_string());
    let mut phase = StartupPhase::NotStarted;
    assert_eq!(run(&parameters, &mut phase, StartupEvent::Started), StartupAction::ReadAuthority);
    let mut phase = StartupPhase::Connecting;
    assert_eq!(
        run(&parameters, &mut phase, StartupEvent::Connected),
        StartupAction::CreateAccounts { num_payers: 4, payer_account_balance: 1_000, validate: true }
    );
    parameters.command = write_accounts();
    let mut phase = StartupPhase::Connecting;
    assert_eq!(
        run(&parameters, &mut phase, StartupEvent::Connected),
        StartupAction::WriteAccounts { num_payers: 4, payer_account_balance: 1_000, validate: true }
    );
    assert_eq!(run(&parameters, &mut phase, StartupEvent::WorkDone(Ok(()))), StartupAction::Finish);
    parameters.command = Command::DeleteAccounts(DeleteAccounts {
        accounts_file: "accounts.json".to_string(),
        recipient: "somebody".to_string(),
        txn_batch_size: 60,
    });
    let mut phase = StartupPhase::Connecting;
    assert_eq!(
        run(&parameters, &mut phase, StartupEvent::Connected),
        StartupAction::DeleteAccounts
    );
    parameters.command = Command::ReadAccountsRun {
        read_accounts: ReadAccounts { accounts_file: "accounts.json".to_string() },
        execution_params: execution_params(LeaderTracker::WsLeaderTracker),
        transaction_params: transaction_params(),
    };
    let mut phase = StartupPhase::Connecting;
    assert_eq!(run(&parameters, &mut phase, StartupEvent::Connected), StartupAction::ReadAccounts);
}

#[test]
fn test_startup_failures() {
    let mut parameters = test_run_parameters(pinned());
    let mut phase = StartupPhase::GettingAuthority;
    let unread = StartupEvent::AuthorityAnswered { available: false };
    assert_eq!(
        run(&parameters, &mut phase, unread),
        StartupAction::Fail(BenchClientError::KeypairReadFailure)
    );
    let failure = || BenchClientError::ServiceFailure("no funds".to_string());
    let mut phase = StartupPhase::GettingAccounts;
    assert_eq!(
        run(&parameters, &mut phase, StartupEvent::AccountsAnswered(Err(failure()))),
        StartupAction::Fail(failure())
    );
    let mut phase = StartupPhase::Working;
    assert_eq!(
        run(&parameters, &mut phase, StartupEvent::WorkDone(Err(failure()))),
        StartupAction::Fail(failure())
    );
    assert_eq!(phase, StartupPhase::Over);
    parameters.validate_accounts = true;
    let mut phase = StartupPhase::NotStarted;
    assert_eq!(
        run(&parameters, &mut phase, StartupEvent::Started),
        StartupAction::Fail(BenchClientError::InvalidCliArguments(
            "--mock-rpc does not support --validate-accounts".to_string()
        ))
    );
}
