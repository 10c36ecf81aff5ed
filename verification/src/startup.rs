//! From the command line to a run: what is refused at once, where the accounts
//! come from, and what each command does.
//!
//! Reading files and talking to the RPC node happen outside. [`run`] is told what
//! happened and says what to do next.
use vstd::prelude::*;
use vstd::string::*;
use crate::cli::{ClientCliParameters, Command, LeaderTracker};
use crate::error::{BenchClientError, ErrorView};
use crate::generator::transaction_generator::AccountsFile;
use crate::wire;
use crate::wire::Keypair;

verus! {

pub const MOCK_WITH_VALIDATION: &'static str = "--mock-rpc does not support --validate-accounts";

pub const MOCK_WITHOUT_PINNED_LEADER: &'static str = "--mock-rpc requires `pinned-leader-tracker`";

pub const MOCK_WITH_WRITE_ACCOUNTS: &'static str = "--mock-rpc does not support `write-accounts`";

/// The command sends transactions, but not all to one chosen node.
pub open spec fn runs_unpinned(command: Command) -> bool {
    match command {
        Command::Run { execution_params, .. } => !(
        execution_params.leader_tracker is PinnedLeaderTracker),
        Command::ReadAccountsRun { execution_params, .. } => !(
        execution_params.leader_tracker is PinnedLeaderTracker),
        _ => false,
    }
}

/// What the mock RPC client cannot serve, if anything.
pub open spec fn mock_fault(parameters: ClientCliParameters) -> Option<Seq<char>> {
    if !parameters.mock_rpc {
        None
    } else if parameters.validate_accounts {
        Some(MOCK_WITH_VALIDATION@)
    } else if runs_unpinned(parameters.command) {
        Some(MOCK_WITHOUT_PINNED_LEADER@)
    } else if parameters.command is WriteAccounts {
        Some(MOCK_WITH_WRITE_ACCOUNTS@)
    } else {
        None
    }
}

fn is_pinned(tracker: &LeaderTracker) -> (pinned: bool)
    ensures
        pinned == (tracker is PinnedLeaderTracker),
{
    match tracker {
        LeaderTracker::PinnedLeaderTracker { address: _ } => true,
        _ => false,
    }
}

/// Refuses what the mock RPC client cannot serve.
pub fn validate_mock_rpc_usage(parameters: &ClientCliParameters) -> (r: Result<(), BenchClientError>)
    ensures
        match (r, mock_fault(*parameters)) {
            (Ok(_), None) => true,
            (Err(error), Some(fault)) => error@ == ErrorView::InvalidCliArguments(fault),
            _ => false,
        },
{
    if !parameters.mock_rpc {
        return Ok(());
    }
    if parameters.validate_accounts {
        return Err(BenchClientError::InvalidCliArguments(MOCK_WITH_VALIDATION.to_string()));
    }
    let requires_pinned: bool = match &parameters.command {
        Command::Run { execution_params, account_params: _, transaction_params: _ } => !is_pinned(
            &execution_params.leader_tracker,
        ),
        Command::ReadAccountsRun { execution_params, read_accounts: _, transaction_params: _ } => !is_pinned(
            &execution_params.leader_tracker,
        ),
        _ => false,
    };
    if requires_pinned {
        return Err(BenchClientError::InvalidCliArguments(MOCK_WITHOUT_PINNED_LEADER.to_string()));
    }
    match &parameters.command {
        Command::WriteAccounts(_) => Err(
            BenchClientError::InvalidCliArguments(MOCK_WITH_WRITE_ACCOUNTS.to_string()),
        ),
        _ => Ok(()),
    }
}

/// Makes payer accounts that exist nowhere but here.
pub fn create_mock_accounts(num_payers: usize) -> (accounts: AccountsFile)
    ensures
        accounts.payers@.len() == num_payers,
        forall|i: int|
            0 <= i < num_payers ==> (#[trigger] accounts.payers@[i]).address()
                == wire::pubkey_of_secret(accounts.payers@[i].secret()),
{
    let mut payers: Vec<Keypair> = Vec::new();
    while payers.len() < num_payers
        invariant
            payers@.len() <= num_payers,
            forall|i: int|
                0 <= i < payers@.len() ==> (#[trigger] payers@[i]).address()
                    == wire::pubkey_of_secret(payers@[i].secret()),
        decreases num_payers - payers@.len(),
    {
        payers.push(Keypair::new());
    }
    AccountsFile { payers }
}

/// What the program waits for.
#[derive(Clone, Copy, Debug, PartialEq, Eq, Structural)]
pub enum StartupPhase {
    NotStarted,
    GettingAuthority,
    Connecting,
    GettingAccounts,
    /// The last step of the command.
    Working,
    Over,
}

/// What happened.
#[derive(Debug, PartialEq, Eq)]
pub enum StartupEvent {
    Started,
    /// The authority's keypair is there, or its file could not be read.
    AuthorityAnswered { available: bool },
    Connected,
    /// The accounts are there, or they could not be made.
    AccountsAnswered(Result<(), BenchClientError>),
    /// The last step of the command is done.
    WorkDone(Result<(), BenchClientError>),
}

/// What to do next.
#[derive(Debug, PartialEq, Eq)]
pub enum StartupAction {
    /// Read the authority's keypair file.
    ReadAuthority,
    /// Make an authority just for this run.
    MakeAuthority,
    /// Get the RPC client, the mock one where `mock` is set, and the websocket URL.
    Connect { mock: bool },
    MakeMockAccounts { num_payers: usize },
    /// Make funded accounts without saving them.
    CreateAccounts { num_payers: usize, payer_account_balance: u64, validate: bool },
    /// Read the accounts file.
    ReadAccounts,
    /// Make funded accounts and save them to the accounts file.
    WriteAccounts { num_payers: usize, payer_account_balance: u64, validate: bool },
    /// Transfer all lamports of the payers in the accounts file to the recipient.
    DeleteAccounts,
    /// Run the client on the accounts.
    RunClient,
    Finish,
    Fail(BenchClientError),
}

/// What a [`StartupAction`] says.
pub enum StartupView {
    ReadAuthority,
    MakeAuthority,
    Connect { mock: bool },
    MakeMockAccounts { num_payers: usize },
    CreateAccounts { num_payers: usize, payer_account_balance: u64, validate: bool },
    ReadAccounts,
    WriteAccounts { num_payers: usize, payer_account_balance: u64, validate: bool },
    DeleteAccounts,
    RunClient,
    Finish,
    Fail(ErrorView),
}

impl View for StartupAction {
    type V = StartupView;

    open spec fn view(&self) -> StartupView {
        match *self {
            StartupAction::ReadAuthority => StartupView::ReadAuthority,
            StartupAction::MakeAuthority => StartupView::MakeAuthority,
            StartupAction::Connect { mock } => StartupView::Connect { mock },
            StartupAction::MakeMockAccounts { num_payers } => StartupView::MakeMockAccounts {
                num_payers,
            },
            StartupAction::CreateAccounts { num_payers, payer_account_balance, validate } =>
                StartupView::CreateAccounts { num_payers, payer_account_balance, validate },
            StartupAction::ReadAccounts => StartupView::ReadAccounts,
            StartupAction::WriteAccounts { num_payers, payer_account_balance, validate } =>
                StartupView::WriteAccounts { num_payers, payer_account_balance, validate },
            StartupAction::DeleteAccounts => StartupView::DeleteAccounts,
            StartupAction::RunClient => StartupView::RunClient,
            StartupAction::Finish => StartupView::Finish,
            StartupAction::Fail(error) => StartupView::Fail(error@),
        }
    }
}

/// The event is what the program waits for in this phase.
pub open spec fn awaits(phase: StartupPhase, event: StartupEvent) -> bool {
    match event {
        StartupEvent::Started => phase is NotStarted,
        StartupEvent::AuthorityAnswered { .. } => phase is GettingAuthority,
        StartupEvent::Connected => phase is Connecting,
        StartupEvent::AccountsAnswered(_) => phase is GettingAccounts,
        StartupEvent::WorkDone(_) => phase is Working,
    }
}

/// The first step of a command, once there is a connection. With the mock client a
/// run gets payers that are made locally.
pub open spec fn command_turn(parameters: ClientCliParameters) -> (StartupPhase, StartupView) {
    match parameters.command {
        Command::Run { account_params, .. } => (
            StartupPhase::GettingAccounts,
            if parameters.mock_rpc {
                StartupView::MakeMockAccounts { num_payers: account_params.num_payers }
            } else {
                StartupView::CreateAccounts {
                    num_payers: account_params.num_payers,
                    payer_account_balance: account_params.payer_account_balance,
                    validate: parameters.validate_accounts,
                }
            },
        ),
        Command::ReadAccountsRun { .. } => (
            StartupPhase::GettingAccounts,
            StartupView::ReadAccounts,
        ),
        Command::WriteAccounts(write_accounts) => (
            StartupPhase::Working,
            StartupView::WriteAccounts {
                num_payers: write_accounts.account_params.num_payers,
                payer_account_balance: write_accounts.account_params.payer_account_balance,
                validate: parameters.validate_accounts,
            },
        ),
        Command::DeleteAccounts(_) => (StartupPhase::Working, StartupView::DeleteAccounts),
    }
}

/// One turn of the program: where it stands afterwards, and what to do next.
pub open spec fn startup_turn(parameters: ClientCliParameters, event: StartupEvent) -> (
    StartupPhase,
    StartupView,
) {
    match event {
        StartupEvent::Started => match mock_fault(parameters) {
            Some(fault) => (
                StartupPhase::Over,
                StartupView::Fail(ErrorView::InvalidCliArguments(fault)),
            ),
            None => (
                StartupPhase::GettingAuthority,
                if parameters.authority is Some {
                    StartupView::ReadAuthority
                } else {
                    StartupView::MakeAuthority
                },
            ),
        },
        StartupEvent::AuthorityAnswered { available } => if available {
            (StartupPhase::Connecting, StartupView::Connect { mock: parameters.mock_rpc })
        } else {
            (StartupPhase::Over, StartupView::Fail(ErrorView::KeypairReadFailure))
        },
        StartupEvent::Connected => command_turn(parameters),
        StartupEvent::AccountsAnswered(Ok(_)) => (StartupPhase::Working, StartupView::RunClient),
        StartupEvent::WorkDone(Ok(_)) => (StartupPhase::Over, StartupView::Finish),
        StartupEvent::AccountsAnswered(Err(error)) | StartupEvent::WorkDone(Err(error)) => (
            StartupPhase::Over,
            StartupView::Fail(error@),
        ),
    }
}

fn command_step(parameters: &ClientCliParameters, phase: &mut StartupPhase) -> (action:
    StartupAction)
    ensures
        (*final(phase), action@) == command_turn(*parameters),
{
    match &parameters.command {
        Command::Run { account_params, execution_params: _, transaction_params: _ } => {
            *phase = StartupPhase::GettingAccounts;
            if parameters.mock_rpc {
                StartupAction::MakeMockAccounts { num_payers: account_params.num_payers }
            } else {
                StartupAction::CreateAccounts {
                    num_payers: account_params.num_payers,
                    payer_account_balance: account_params.payer_account_balance,
                    validate: parameters.validate_accounts,
                }
            }
        },
        Command::ReadAccountsRun { read_accounts: _, execution_params: _, transaction_params: _ } => {
            *phase = StartupPhase::GettingAccounts;
            StartupAction::ReadAccounts
        },
        Command::WriteAccounts(write_accounts) => {
            *phase = StartupPhase::Working;
            StartupAction::WriteAccounts {
                num_payers: write_accounts.account_params.num_payers,
                payer_account_balance: write_accounts.account_params.payer_account_balance,
                validate: parameters.validate_accounts,
            }
        },
        Command::DeleteAccounts(_) => {
            *phase = StartupPhase::Working;
            StartupAction::DeleteAccounts
        },
    }
}

/// One turn of the program: takes what happened, and says what to do next.
pub fn run(parameters: &ClientCliParameters, phase: &mut StartupPhase, event: StartupEvent) -> (action:
    StartupAction)
    requires
        awaits(*old(phase), event),
    ensures
        (*final(phase), action@) == startup_turn(*parameters, event),
{
    match event {
        StartupEvent::Started => {
            if let Err(error) = validate_mock_rpc_usage(parameters) {
                *phase = StartupPhase::Over;
                return StartupAction::Fail(error);
            }
            *phase = StartupPhase::GettingAuthority;
            if parameters.authority.is_some() {
                StartupAction::ReadAuthority
            } else {
                StartupAction::MakeAuthority
            }
        },
        StartupEvent::AuthorityAnswered { available } => {
            if available {
                *phase = StartupPhase::Connecting;
                StartupAction::Connect { mock: parameters.mock_rpc }
            } else {
                *phase = StartupPhase::Over;
                StartupAction::Fail(BenchClientError::KeypairReadFailure)
            }
        },
        StartupEvent::Connected => command_step(parameters, phase),
        StartupEvent::AccountsAnswered(Ok(_)) => {
            *phase = StartupPhase::Working;
            StartupAction::RunClient
        },
        StartupEvent::WorkDone(Ok(_)) => {
            *phase = StartupPhase::Over;
            StartupAction::Finish
        },
        StartupEvent::AccountsAnswered(Err(error)) => {
            *phase = StartupPhase::Over;
            StartupAction::Fail(error)
        },
        StartupEvent::WorkDone(Err(error)) => {
            *phase = StartupPhase::Over;
            StartupAction::Fail(error)
        },
    }
}

/// With the mock client nothing is created on a cluster: a run that is let through
/// never asks for funded accounts.
pub proof fn law_mock_creates_no_accounts(parameters: ClientCliParameters, event: StartupEvent)
    requires
        parameters.mock_rpc,
        mock_fault(parameters) is None,
    ensures
        ({
            let action = startup_turn(parameters, event).1;
            !(action is CreateAccounts) && !(action is WriteAccounts)
        }),
{
}

/// The program refuses at the start exactly what the mock client cannot serve:
/// with it, validation of accounts, a run whose leader is not pinned, and writing
/// accounts. Without it nothing is refused. What is not refused goes on to get the
/// authority: from its file where one is named, a new one otherwise.
pub proof fn law_what_is_refused_at_the_start(parameters: ClientCliParameters)
    ensures
        ({
            let action = startup_turn(parameters, StartupEvent::Started).1;
            let refused = parameters.mock_rpc && (parameters.validate_accounts
                || match parameters.command {
                Command::Run { execution_params, .. } => !(execution_params.leader_tracker matches
                    LeaderTracker::PinnedLeaderTracker { .. }),
                Command::ReadAccountsRun { execution_params, .. } => !(
                execution_params.leader_tracker matches LeaderTracker::PinnedLeaderTracker { .. }),
                Command::WriteAccounts(_) => true,
                Command::DeleteAccounts(_) => false,
            });
            &&& refused ==> (action matches StartupView::Fail(ErrorView::InvalidCliArguments(_)))
            &&& !refused && parameters.authority is Some ==> action is ReadAuthority
            &&& !refused && parameters.authority is None ==> action is MakeAuthority
            &&& mock_fault(parameters) is Some <==> refused
        }),
{
}

/// What each command does, once there is a connection, which is the mock one exactly
/// where it was asked for. A run makes as many payers as asked for, with the
/// balance asked for and validated where asked for, or locally with the mock
/// client; a run on saved accounts reads them; both then run the client. Writing
/// makes its own number of payers, and neither writing nor deleting runs anything.
pub proof fn law_each_command_does_its_work(parameters: ClientCliParameters)
    ensures
        startup_turn(parameters, StartupEvent::AuthorityAnswered { available: true }).1
            == (StartupView::Connect { mock: parameters.mock_rpc }),
        match (parameters.command, startup_turn(parameters, StartupEvent::Connected)) {
            (Command::Run { account_params, .. }, (phase, action)) => {
                &&& phase is GettingAccounts
                &&& parameters.mock_rpc ==> action == (StartupView::MakeMockAccounts {
                    num_payers: account_params.num_payers,
                })
                &&& !parameters.mock_rpc ==> action == (StartupView::CreateAccounts {
                    num_payers: account_params.num_payers,
                    payer_account_balance: account_params.payer_account_balance,
                    validate: parameters.validate_accounts,
                })
            },
            (Command::ReadAccountsRun { .. }, (phase, action)) => {
                &&& phase is GettingAccounts
                &&& action is ReadAccounts
            },
            (Command::WriteAccounts(write), (phase, action)) => {
                &&& phase is Working
                &&& action == (StartupView::WriteAccounts {
                    num_payers: write.account_params.num_payers,
                    payer_account_balance: write.account_params.payer_account_balance,
                    validate: parameters.validate_accounts,
                })
            },
            (Command::DeleteAccounts(_), (phase, action)) => {
                &&& phase is Working
                &&& action is DeleteAccounts
            },
        },
        startup_turn(parameters, StartupEvent::AccountsAnswered(Ok(()))) == (
            StartupPhase::Working,
            StartupView::RunClient,
        ),
        startup_turn(parameters, StartupEvent::WorkDone(Ok(()))) == (
            StartupPhase::Over,
            StartupView::Finish,
        ),
{
}

/// An error ends the program, and is its own: nothing is done after it, and nothing
/// else ends the program but the end of its work.
pub proof fn law_errors_end_the_program(
    parameters: ClientCliParameters,
    event: StartupEvent,
    error: BenchClientError,
)
    ensures
        startup_turn(parameters, StartupEvent::AccountsAnswered(Err(error))) == (
            StartupPhase::Over,
            StartupView::Fail(error@),
        ),
        startup_turn(parameters, StartupEvent::WorkDone(Err(error))) == (
            StartupPhase::Over,
            StartupView::Fail(error@),
        ),
        startup_turn(parameters, StartupEvent::AuthorityAnswered { available: false }) == (
            StartupPhase::Over,
            StartupView::Fail(ErrorView::KeypairReadFailure),
        ),
        ({
            let (phase, action) = startup_turn(parameters, event);
            &&& phase is Over <==> action is Fail || action is Finish
            &&& action is Finish ==> (event matches StartupEvent::WorkDone(Ok(_)))
            &&& action is RunClient ==> (event matches StartupEvent::AccountsAnswered(Ok(_)))
        }),
{
}

/// The program never gets stuck: whatever it asks for, it takes the answer, and once
/// it is over nothing is awaited.
pub proof fn law_what_is_asked_for_is_awaited(
    parameters: ClientCliParameters,
    event: StartupEvent,
    available: bool,
    outcome: Result<(), BenchClientError>,
)
    ensures
        awaits(StartupPhase::NotStarted, StartupEvent::Started),
        ({
            let (phase, action) = startup_turn(parameters, event);
            &&& action is ReadAuthority || action is MakeAuthority <==> awaits(
                phase,
                StartupEvent::AuthorityAnswered { available },
            )
            &&& action is Connect <==> awaits(phase, StartupEvent::Connected)
            &&& action is MakeMockAccounts || action is CreateAccounts || action is ReadAccounts
                <==> awaits(phase, StartupEvent::AccountsAnswered(outcome))
            &&& action is WriteAccounts || action is DeleteAccounts || action is RunClient
                <==> awaits(phase, StartupEvent::WorkDone(outcome))
            &&& !awaits(phase, StartupEvent::Started)
        }),
{
}

/// Why the mock client refuses: the first of these that holds is said. It does not
/// validate accounts, does not run without a pinned leader, and does not write
/// accounts.
pub proof fn law_mock_refusals_say_why(parameters: ClientCliParameters)
    requires
        parameters.mock_rpc,
    ensures
        parameters.validate_accounts ==> mock_fault(parameters) == Some(MOCK_WITH_VALIDATION@),
        !parameters.validate_accounts ==> match parameters.command {
            Command::Run { execution_params, .. } => match execution_params.leader_tracker {
                LeaderTracker::PinnedLeaderTracker { .. } => mock_fault(parameters) is None,
                _ => mock_fault(parameters) == Some(MOCK_WITHOUT_PINNED_LEADER@),
            },
            Command::ReadAccountsRun { execution_params, .. } => match execution_params.leader_tracker {
                LeaderTracker::PinnedLeaderTracker { .. } => mock_fault(parameters) is None,
                _ => mock_fault(parameters) == Some(MOCK_WITHOUT_PINNED_LEADER@),
            },
            Command::WriteAccounts(_) => mock_fault(parameters) == Some(MOCK_WITH_WRITE_ACCOUNTS@),
            Command::DeleteAccounts(_) => mock_fault(parameters) is None,
        },
{
}

} // verus!
