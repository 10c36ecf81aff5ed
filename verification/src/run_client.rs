//! A benchmark run from end to end: what is checked before it starts, how batches
//! are sized, which services are started in which order, and how they are wound
//! up.
//!
//! Asking the RPC node, spawning and joining tasks, and sleeping happen outside.
//! [`run_client`] is told what happened and says what to do next.
use vstd::prelude::*;
use vstd::string::*;
use crate::cli;
use crate::cli::{ExecutionParams, FloatReadings, TransactionParams};
use crate::error::{BenchClientError, ErrorView};
use crate::generator::transaction_generator::GeneratorSettings;
use crate::priority_fee::{ModeView, PriorityFeeMode};
use crate::text;
use crate::wire;

verus! {

pub const GENERATOR_CHANNEL_SIZE: usize = 32;

/// Empirically chosen size of the connection worker channel. Lower or higher
/// values give significantly smaller blocks of transactions.
pub const WORKER_CHANNEL_SIZE: usize = 20;

/// Number of reconnection attempts, a reasonable value that does not affect the
/// rate.
pub const MAX_RECONNECT_ATTEMPTS: usize = 5;

/// Number of streams per connection where it cannot be computed from the stake.
pub const DEFAULT_NUM_STREAMS_PER_CONNECTION: usize = 8;

pub const TARGET_BATCHES_PER_SECOND: u64 = 10;

/// How many leaders ahead are looked up.
pub const LOOKAHEAD_LEADERS: u8 = 4;

/// How often the nodes are looked up again, in seconds.
pub const REFRESH_NODES_INFO_SECS: u64 = 30;

/// How many lookups in a row may fail.
pub const MAX_CONSECUTIVE_FAILURES: usize = 5;

/// How many seconds longer than the asked-for age the delay line is primed, to
/// absorb poll jitter.
pub const PRIMING_MARGIN_SECS: u64 = 2;

/// A vote account: the address of its node, in base-58 notation, and its stake.
#[derive(Clone, Debug, PartialEq, Eq)]
pub struct VoteAccount {
    pub node_pubkey: String,
    pub activated_stake: u64,
}

/// The stake of the first `count` vote accounts.
pub open spec fn stake_sum(accounts: Seq<VoteAccount>, count: int) -> int
    decreases count,
{
    if count <= 0 {
        0
    } else {
        stake_sum(accounts, count - 1) + accounts[count - 1].activated_stake
    }
}

/// The stake of the first vote account of a node.
pub open spec fn stake_of(accounts: Seq<VoteAccount>, node: Seq<char>) -> Option<u64>
    decreases accounts.len(),
{
    if accounts.len() == 0 {
        None
    } else if accounts[0].node_pubkey@ == node {
        Some(accounts[0].activated_stake)
    } else {
        stake_of(accounts.drop_first(), node)
    }
}

/// The stake of a node, where one is asked for, and the total stake. Fails where
/// there are no vote accounts to look at, and where the node is not among them.
pub open spec fn stake_outcome(
    vote_accounts: Option<Seq<VoteAccount>>,
    node: Option<Seq<char>>,
) -> Option<(Option<u64>, u64)> {
    match (vote_accounts, node) {
        (None, _) => None,
        (Some(accounts), None) => Some(
            (None, stake_sum(accounts, accounts.len() as int) as u64),
        ),
        (Some(accounts), Some(node)) => match stake_of(accounts, node) {
            Some(stake) => Some((Some(stake), stake_sum(accounts, accounts.len() as int) as u64)),
            None => None,
        },
    }
}

/// The total stake fits 64 bits.
pub open spec fn stakes_fit(vote_accounts: Option<Seq<VoteAccount>>) -> bool {
    vote_accounts matches Some(accounts) ==> stake_sum(accounts, accounts.len() as int) <= u64::MAX
}

/// What each of an optional list holds.
pub open spec fn listed(vote_accounts: Option<&Vec<VoteAccount>>) -> Option<Seq<VoteAccount>> {
    match vote_accounts {
        Some(accounts) => Some(accounts@),
        None => None,
    }
}

proof fn lemma_stake_sum_grows(accounts: Seq<VoteAccount>, a: int, b: int)
    requires
        0 <= a <= b <= accounts.len(),
    ensures
        0 <= stake_sum(accounts, a) <= stake_sum(accounts, b),
    decreases b,
{
    if a < b {
        lemma_stake_sum_grows(accounts, a, b - 1);
    } else if a > 0 {
        lemma_stake_sum_grows(accounts, a - 1, a - 1);
    }
}

/// Looks a node up in the vote accounts by the notation of its address. `None`
/// stands for vote accounts that could not be had.
pub fn find_stake_by_notation(
    vote_accounts: Option<&Vec<VoteAccount>>,
    node: Option<&str>,
) -> (r: Result<(Option<u64>, u64), BenchClientError>)
    requires
        stakes_fit(listed(vote_accounts)),
    ensures
        match r {
            Ok(found) => Some(found) == stake_outcome(
                listed(vote_accounts),
                match node {
                    Some(text) => Some(text@),
                    None => None,
                },
            ),
            Err(error) => {
                &&& error == BenchClientError::FindValidatorIdentityFailure
                &&& stake_outcome(
                    listed(vote_accounts),
                    match node {
                        Some(text) => Some(text@),
                        None => None,
                    },
                ) is None
            },
        },
{
    let accounts: &Vec<VoteAccount> = match vote_accounts {
        Some(accounts) => accounts,
        None => {
            return Err(BenchClientError::FindValidatorIdentityFailure);
        },
    };
    let mut total_active_stake: u64 = 0;
    let mut i: usize = 0;
    while i < accounts.len()
        invariant
            i <= accounts@.len(),
            total_active_stake == stake_sum(accounts@, i as int),
            stake_sum(accounts@, accounts@.len() as int) <= u64::MAX,
        decreases accounts@.len() - i,
    {
        proof {
            lemma_stake_sum_grows(accounts@, i + 1, accounts@.len() as int);
        }
        total_active_stake = total_active_stake + accounts[i].activated_stake;
        i += 1;
    }
    let node_text: &str = match node {
        Some(node_text) => node_text,
        None => {
            return Ok((None, total_active_stake));
        },
    };
    let wanted: String = node_text.to_string();
    let mut j: usize = 0;
    assert(accounts@.skip(0) =~= accounts@);
    while j < accounts.len()
        invariant
            j <= accounts@.len(),
            wanted@ == node_text@,
            node == Some(node_text),
            stake_of(accounts@, wanted@) == stake_of(accounts@.skip(j as int), wanted@),
            total_active_stake == stake_sum(accounts@, accounts@.len() as int),
            vote_accounts == Some(accounts),
        decreases accounts@.len() - j,
    {
        assert(accounts@.skip(j as int).drop_first() =~= accounts@.skip(j + 1));
        if accounts[j].node_pubkey == wanted {
            return Ok((Some(accounts[j].activated_stake), total_active_stake));
        }
        j += 1;
    }
    Err(BenchClientError::FindValidatorIdentityFailure)
}

/// The notation of an optional address.
pub open spec fn notation_of(node_id: Option<&[u8; 32]>) -> Option<Seq<char>> {
    match node_id {
        Some(id) => Some(wire::address_notation(id@)),
        None => None,
    }
}

/// Finds the stake of a node, where one is given, and the total stake. `None`
/// stands for vote accounts that could not be had.
pub fn find_node_activated_stake(
    vote_accounts: Option<&Vec<VoteAccount>>,
    node_id: Option<&[u8; 32]>,
) -> (r: Result<(Option<u64>, u64), BenchClientError>)
    requires
        stakes_fit(listed(vote_accounts)),
    ensures
        match r {
            Ok(found) => Some(found) == stake_outcome(listed(vote_accounts), notation_of(node_id)),
            Err(error) => {
                &&& error == BenchClientError::FindValidatorIdentityFailure
                &&& stake_outcome(listed(vote_accounts), notation_of(node_id)) is None
            },
        },
{
    match node_id {
        Some(id) => {
            let text: String = wire::address_text(id);
            find_stake_by_notation(vote_accounts, Some(text.as_str()))
        },
        None => find_stake_by_notation(vote_accounts, None),
    }
}

/// How a connection is classed by its peer.
#[derive(Clone, Copy, Debug, PartialEq, Eq, Structural)]
pub enum ConnectionPeerType {
    Unstaked,
    Staked(u64),
}

/// Reads the constant `QUIC_MAX_UNSTAKED_CONCURRENT_STREAMS` of
/// `solana_quic_definitions`.
#[verifier::external_body]
fn quic_max_unstaked_concurrent_streams() -> (streams: usize)
    ensures
        streams == 128,
{
    solana_quic_definitions::QUIC_MAX_UNSTAKED_CONCURRENT_STREAMS
}

/// Reads the constant `QUIC_MIN_STAKED_CONCURRENT_STREAMS` of
/// `solana_quic_definitions`.
#[verifier::external_body]
fn quic_min_staked_concurrent_streams() -> (streams: usize)
    ensures
        streams == 128,
{
    solana_quic_definitions::QUIC_MIN_STAKED_CONCURRENT_STREAMS
}

/// Reads the constant `QUIC_MAX_STAKED_CONCURRENT_STREAMS` of
/// `solana_quic_definitions`.
#[verifier::external_body]
fn quic_max_staked_concurrent_streams() -> (streams: usize)
    ensures
        streams == 512,
{
    solana_quic_definitions::QUIC_MAX_STAKED_CONCURRENT_STREAMS
}

/// Reads the constant `QUIC_TOTAL_STAKED_CONCURRENT_STREAMS` of
/// `solana_quic_definitions`.
#[verifier::external_body]
fn quic_total_staked_concurrent_streams() -> (streams: usize)
    ensures
        streams == 100_000,
{
    solana_quic_definitions::QUIC_TOTAL_STAKED_CONCURRENT_STREAMS
}

/// The number of streams that the whole stake has beyond the minimum. A peer's
/// share of it is its share of the stake.
pub fn stream_span() -> (streams: usize)
    ensures
        streams == 100_000 - 128,
{
    quic_total_staked_concurrent_streams() - quic_min_staked_concurrent_streams()
}

/// The number of streams that a peer may open: the minimum plus its share, at most
/// the maximum. Stake values that make no sense get the minimum.
pub open spec fn allowed_streams(
    peer_type: ConnectionPeerType,
    total_stake: u64,
    scaled_share: usize,
) -> int {
    match peer_type {
        ConnectionPeerType::Unstaked => 128,
        ConnectionPeerType::Staked(peer_stake) => if total_stake == 0 || peer_stake > total_stake {
            128
        } else if scaled_share + 128 > 512 {
            512
        } else {
            scaled_share + 128
        },
    }
}

/// Computes the number of streams that a peer may open. `scaled_share` is the
/// peer's share of the stake times [`stream_span`], rounded towards zero.
pub fn compute_max_allowed_uni_streams(
    peer_type: ConnectionPeerType,
    total_stake: u64,
    scaled_share: usize,
) -> (streams: usize)
    ensures
        streams == allowed_streams(peer_type, total_stake, scaled_share),
{
    match peer_type {
        ConnectionPeerType::Staked(peer_stake) => {
            if total_stake == 0 || peer_stake > total_stake {
                quic_min_staked_concurrent_streams()
            } else {
                let streams: usize = scaled_share.saturating_add(quic_min_staked_concurrent_streams());
                if streams > quic_max_staked_concurrent_streams() {
                    quic_max_staked_concurrent_streams()
                } else {
                    streams
                }
            }
        },
        ConnectionPeerType::Unstaked => quic_max_unstaked_concurrent_streams(),
    }
}

/// How a connection is classed by the stake that was found for it.
pub open spec fn peer_type_of(stake: Option<u64>) -> ConnectionPeerType {
    match stake {
        Some(stake) => ConnectionPeerType::Staked(stake),
        None => ConnectionPeerType::Unstaked,
    }
}

/// Computes the number of streams per connection from the stake that was found. A
/// failure to find it is handed on.
pub fn compute_num_streams(
    found: Result<(Option<u64>, u64), BenchClientError>,
    scaled_share: usize,
) -> (r: Result<usize, BenchClientError>)
    ensures
        match (found, r) {
            (Ok((stake, total_stake)), Ok(streams)) => streams == allowed_streams(
                peer_type_of(stake),
                total_stake,
                scaled_share,
            ),
            (Err(error), Err(e)) => e == error,
            _ => false,
        },
{
    match found {
        Ok((stake, total_stake)) => {
            let peer_type: ConnectionPeerType = match stake {
                Some(stake) => ConnectionPeerType::Staked(stake),
                None => ConnectionPeerType::Unstaked,
            };
            Ok(compute_max_allowed_uni_streams(peer_type, total_stake, scaled_share))
        },
        Err(error) => Err(error),
    }
}

/// What became of a task.
#[derive(Clone, Debug, PartialEq, Eq)]
pub enum TaskOutcome {
    Completed,
    Failed(BenchClientError),
    /// The task was cancelled or panicked.
    NotJoined { reason: String },
}

/// The error of a task, if any.
pub open spec fn task_error(outcome: TaskOutcome, task_name: Seq<char>) -> Option<ErrorView> {
    match outcome {
        TaskOutcome::Completed => None,
        TaskOutcome::Failed(error) => Some(error@),
        TaskOutcome::NotJoined { reason } => Some(
            ErrorView::TaskJoinFailure { task_name, reason: reason@ },
        ),
    }
}

/// Turns what became of a task into a result.
pub fn join_service(outcome: TaskOutcome, task_name: &str) -> (r: Result<(), BenchClientError>)
    ensures
        match (r, task_error(outcome, task_name@)) {
            (Ok(_), None) => true,
            (Err(error), Some(expected)) => error@ == expected,
            _ => false,
        },
{
    match outcome {
        TaskOutcome::Completed => Ok(()),
        TaskOutcome::Failed(error) => Err(error),
        TaskOutcome::NotJoined { reason } => Err(
            BenchClientError::TaskJoinFailure { task_name: task_name.to_string(), reason },
        ),
    }
}

/// `a / b`, rounded up.
pub open spec fn ceiling(a: int, b: int) -> int {
    (a + b - 1) / b
}

/// The number of transactions per batch: as configured; or for about ten batches
/// per second at the target rate, at least one and at most one per stream; or one
/// per stream.
pub open spec fn send_batch_size_of(
    tx_batch_size_override: Option<usize>,
    num_streams_per_connection: usize,
    target_tps: Option<u64>,
) -> int {
    match (tx_batch_size_override, target_tps) {
        (Some(size), _) => size as int,
        (None, None) => num_streams_per_connection as int,
        (None, Some(target_tps)) => {
            let size = ceiling(target_tps as int, TARGET_BATCHES_PER_SECOND as int);
            if size < 1 {
                1
            } else if size > num_streams_per_connection {
                num_streams_per_connection as int
            } else {
                size
            }
        },
    }
}

/// Computes the number of transactions per batch.
pub fn compute_send_batch_size(
    tx_batch_size_override: Option<usize>,
    num_streams_per_connection: usize,
    target_tps: Option<u64>,
) -> (size: usize)
    requires
        tx_batch_size_override is None && target_tps is Some ==> num_streams_per_connection >= 1,
    ensures
        size == send_batch_size_of(tx_batch_size_override, num_streams_per_connection, target_tps),
{
    if let Some(size) = tx_batch_size_override {
        return size;
    }
    match target_tps {
        None => num_streams_per_connection,
        Some(target_tps) => {
            let size: u128 = (target_tps as u128 + (TARGET_BATCHES_PER_SECOND as u128 - 1))
                / TARGET_BATCHES_PER_SECOND as u128;
            if size < 1 {
                1
            } else if size > num_streams_per_connection as u128 {
                num_streams_per_connection
            } else {
                size as usize
            }
        },
    }
}

/// The number of batches in flight: as configured; or with a target rate one, two
/// or four, depending on how many batches per second it takes, but no more than
/// configured.
pub open spec fn workers_of(
    configured_workers_pull_size: usize,
    send_batch_size: usize,
    target_tps: Option<u64>,
) -> int {
    match target_tps {
        None => configured_workers_pull_size as int,
        Some(target_tps) => {
            let batches_per_sec = ceiling(target_tps as int, send_batch_size as int);
            let guess: int = if batches_per_sec <= 1 {
                1
            } else if batches_per_sec <= 10 {
                2
            } else {
                4
            };
            let most: int = if configured_workers_pull_size >= 1 {
                configured_workers_pull_size as int
            } else {
                1
            };
            if guess < most {
                guess
            } else {
                most
            }
        },
    }
}

/// Computes the number of batches in flight.
pub fn compute_workers_pull_size(
    configured_workers_pull_size: usize,
    send_batch_size: usize,
    target_tps: Option<u64>,
) -> (workers: usize)
    requires
        target_tps is Some ==> send_batch_size > 0,
    ensures
        workers == workers_of(configured_workers_pull_size, send_batch_size, target_tps),
{
    match target_tps {
        None => configured_workers_pull_size,
        Some(target_tps) => {
            let size: u128 = send_batch_size as u128;
            let batches_per_sec: u128 = (target_tps as u128 + (size - 1)) / size;
            let guess: usize = if batches_per_sec <= 1 {
                1
            } else if batches_per_sec <= 10 {
                2
            } else {
                4
            };
            let most: usize = if configured_workers_pull_size >= 1 {
                configured_workers_pull_size
            } else {
                1
            };
            if guess < most {
                guess
            } else {
                most
            }
        },
    }
}

/// Of two connections that hold part of the stake, the one with the larger share of
/// the streams gets no fewer of them. Without a share a connection gets the minimum,
/// with the whole span the maximum.
pub proof fn law_streams_grow_with_the_share(
    stake: u64,
    other_stake: u64,
    total_stake: u64,
    share: usize,
    other_share: usize,
)
    requires
        0 < total_stake,
        stake <= total_stake,
        other_stake <= total_stake,
        share <= other_share,
    ensures
        ({
            let peer = ConnectionPeerType::Staked(stake);
            let other = ConnectionPeerType::Staked(other_stake);
            &&& 128 <= allowed_streams(peer, total_stake, share) <= allowed_streams(
                other,
                total_stake,
                other_share,
            ) <= 512
            &&& allowed_streams(peer, total_stake, 0) == 128
            &&& allowed_streams(peer, total_stake, 99_872) == 512
        }),
{
}

/// A staked connection gets at least the minimum and at most the maximum number of
/// streams, whatever its share.
pub proof fn law_streams_stay_in_bounds(
    peer_type: ConnectionPeerType,
    total_stake: u64,
    scaled_share: usize,
)
    ensures
        128 <= allowed_streams(peer_type, total_stake, scaled_share) <= 512,
{
}

/// Without a configured size, a target rate takes at most ten batches per second,
/// unless the batches would outgrow the streams.
pub proof fn law_ten_batches_per_second(num_streams_per_connection: usize, target_tps: u64)
    requires
        target_tps >= 1,
        ceiling(target_tps as int, 10) <= num_streams_per_connection,
    ensures
        ({
            let size = send_batch_size_of(None, num_streams_per_connection, Some(target_tps));
            &&& size >= 1
            &&& ceiling(target_tps as int, size) <= 10
        }),
{
    let size = send_batch_size_of(None, num_streams_per_connection, Some(target_tps));
    assert(10 * size >= target_tps);
    assert(target_tps + size - 1 < 11 * size);
    vstd::arithmetic::div_mod::lemma_div_is_ordered(target_tps + size - 1, 11 * size - 1, size);
    assert((11 * size - 1) / size == 10) by {
        assert(11 * size - 1 == size * 10 + (size - 1));
        vstd::arithmetic::div_mod::lemma_fundamental_div_mod_converse(
            11 * size - 1,
            size,
            10,
            size - 1,
        );
    }
}

/// With a target rate there is always a batch in flight, and never more than
/// configured, four at most.
pub proof fn law_workers_stay_in_bounds(
    configured_workers_pull_size: usize,
    send_batch_size: usize,
    target_tps: u64,
)
    ensures
        1 <= workers_of(configured_workers_pull_size, send_batch_size, Some(target_tps)) <= 4,
        configured_workers_pull_size >= 1 ==> workers_of(
            configured_workers_pull_size,
            send_batch_size,
            Some(target_tps),
        ) <= configured_workers_pull_size,
{
}

/// The message for more transfers in a batch than there are different amounts.
pub open spec fn lamports_error(max: u64, transfers: nat, instructions: nat, size: nat) -> Seq<char> {
    "--max-lamports-to-transfer ("@ + text::decimal(max as nat)
        + ") must be >= transfer instructions per generated batch ("@ + text::decimal(transfers)
        + ") ; computed as num-send-instructions-per-tx ("@ + text::decimal(instructions)
        + ") * tx-batch-size ("@ + text::decimal(size) + ")"@
}

fn lamports_message(max: u64, transfers: usize, instructions: usize, size: usize) -> (message:
    String)
    ensures
        message@ == lamports_error(max, transfers as nat, instructions as nat, size as nat),
{
    let mut message: String = "--max-lamports-to-transfer (".to_string();
    message.append(text::decimal_text(max).as_str());
    message.append(") must be >= transfer instructions per generated batch (");
    message.append(text::decimal_text(transfers as u64).as_str());
    message.append(") ; computed as num-send-instructions-per-tx (");
    message.append(text::decimal_text(instructions as u64).as_str());
    message.append(") * tx-batch-size (");
    message.append(text::decimal_text(size as u64).as_str());
    message.append(")");
    message
}

/// The message for more conflict groups than there are transfers in a batch.
pub open spec fn groups_error(groups: nat, instructions: nat, size: nat) -> Seq<char> {
    "--num-conflict-groups ("@ + text::decimal(groups)
        + ") must be <= num-send-instructions-per-tx ("@ + text::decimal(instructions)
        + ") * tx-batch-size ("@ + text::decimal(size) + ")"@
}

fn groups_message(groups: usize, instructions: usize, size: usize) -> (message: String)
    ensures
        message@ == groups_error(groups as nat, instructions as nat, size as nat),
{
    let mut message: String = "--num-conflict-groups (".to_string();
    message.append(text::decimal_text(groups as u64).as_str());
    message.append(") must be <= num-send-instructions-per-tx (");
    message.append(text::decimal_text(instructions as u64).as_str());
    message.append(") * tx-batch-size (");
    message.append(text::decimal_text(size as u64).as_str());
    message.append(")");
    message
}

/// The message for a padding program that is not there.
pub open spec fn padding_error(program: Seq<char>, error: Seq<char>) -> Seq<char> {
    "instruction padding program "@ + program + " is not available: "@ + error
}

fn padding_message(program: &str, error: &str) -> (message: String)
    ensures
        message@ == padding_error(program@, error@),
{
    let mut message: String = "instruction padding program ".to_string();
    message.append(program);
    message.append(" is not available: ");
    message.append(error);
    message
}

/// The transfers in a batch, as far as they can be counted.
pub open spec fn transfers_per_batch(params: TransactionParams, send_batch_size: usize) -> nat {
    let transfers = params.simple_transfer_tx_params.num_send_instructions_per_tx * send_batch_size;
    if transfers <= usize::MAX {
        transfers as nat
    } else {
        usize::MAX as nat
    }
}

fn count_transfers(params: &TransactionParams, send_batch_size: usize) -> (count: usize)
    ensures
        count == transfers_per_batch(*params, send_batch_size),
{
    match params.simple_transfer_tx_params.num_send_instructions_per_tx.checked_mul(
        send_batch_size,
    ) {
        Some(count) => count,
        None => usize::MAX,
    }
}

/// What is wrong with the transfers of a batch, if anything: there have to be
/// enough different amounts for them, and no more conflict groups than transfers.
pub open spec fn batch_fault(params: TransactionParams, send_batch_size: usize) -> Option<Seq<char>> {
    let transfers = params.simple_transfer_tx_params;
    let count = transfers_per_batch(params, send_batch_size);
    if count > transfers.max_lamports_to_transfer {
        Some(
            lamports_error(
                transfers.max_lamports_to_transfer,
                count,
                transfers.num_send_instructions_per_tx as nat,
                send_batch_size as nat,
            ),
        )
    } else {
        match transfers.num_conflict_groups {
            Some(groups) if groups > count => Some(
                groups_error(
                    groups as nat,
                    transfers.num_send_instructions_per_tx as nat,
                    send_batch_size as nat,
                ),
            ),
            _ => None,
        }
    }
}

/// Checks the transfers of a batch.
pub fn check_batch(params: &TransactionParams, send_batch_size: usize) -> (r: Result<
    (),
    BenchClientError,
>)
    ensures
        match (r, batch_fault(*params, send_batch_size)) {
            (Ok(_), None) => true,
            (Err(error), Some(fault)) => error@ == ErrorView::InvalidCliArguments(fault),
            _ => false,
        },
{
    let instructions: usize = params.simple_transfer_tx_params.num_send_instructions_per_tx;
    let max: u64 = params.simple_transfer_tx_params.max_lamports_to_transfer;
    let count: usize = count_transfers(params, send_batch_size);
    if count as u64 > max {
        return Err(
            BenchClientError::InvalidCliArguments(
                lamports_message(max, count, instructions, send_batch_size),
            ),
        );
    }
    if let Some(groups) = params.simple_transfer_tx_params.num_conflict_groups {
        if groups > count {
            return Err(
                BenchClientError::InvalidCliArguments(
                    groups_message(groups, instructions, send_batch_size),
                ),
            );
        }
    }
    Ok(())
}

/// What a run works by.
#[derive(Clone, Debug, PartialEq)]
pub struct RunPlan {
    /// How many payer accounts there are.
    pub num_payers: usize,
    pub transaction_params: TransactionParams,
    pub execution_params: ExecutionParams,
    /// What floating-point arithmetic makes of the priority-fee settings.
    pub floats: FloatReadings,
}

impl RunPlan {
    /// Numbers that may not be zero are not.
    pub open spec fn well_formed(self) -> bool {
        &&& self.transaction_params.simple_transfer_tx_params.tx_batch_size != Some(0usize)
        &&& self.execution_params.target_tps != Some(0u64)
        &&& self.execution_params.priority_fee_params.priority_fee_schedule_period_ms != Some(0u64)
    }

    /// Whether the plan can be worked by.
    pub fn is_well_formed(&self) -> (b: bool)
        ensures
            b == self.well_formed(),
    {
        if let Some(size) = self.transaction_params.simple_transfer_tx_params.tx_batch_size {
            if size == 0 {
                return false;
            }
        }
        if let Some(target_tps) = self.execution_params.target_tps {
            if target_tps == 0 {
                return false;
            }
        }
        match self.execution_params.priority_fee_params.priority_fee_schedule_period_ms {
            Some(period_ms) => period_ms != 0,
            None => true,
        }
    }
}

/// What a run waits for.
#[derive(Clone, Copy, Debug, PartialEq, Eq, Structural)]
pub enum ClientPhase {
    NotStarted,
    ReadingIdentities,
    FindingStake,
    ScalingShare { peer_stake: u64, total_stake: u64 },
    CheckingPaddingProgram,
    FetchingBlockhash,
    CheckingAgedBlockhash,
    StartingUpdater,
    Priming,
    StartingGenerator,
    StartingScheduler { index: usize },
    ReportingStats,
    JoiningGenerator,
    Draining,
    ClosingChannels,
    JoiningUpdater,
    JoiningScheduler { index: usize },
    Over,
}

/// Where a run stands.
#[derive(Clone, Copy, Debug, PartialEq, Eq)]
pub struct ClientState {
    pub phase: ClientPhase,
    /// The address of the first validator identity.
    pub first_identity: Option<[u8; 32]>,
    /// How many validator identities were read.
    pub num_identities: usize,
    /// Transactions per batch.
    pub send_batch_size: usize,
    /// Batches in flight.
    pub workers_pull_size: usize,
}

/// What happened.
#[derive(Debug, PartialEq, Eq)]
pub enum ClientEvent {
    Started,
    /// All identity keypair files were read, in order, or one of them could not
    /// be. The addresses.
    IdentitiesRead(Option<Vec<[u8; 32]>>),
    /// The current vote accounts, or that they could not be had.
    VoteAccountsAnswered(Option<Vec<VoteAccount>>),
    /// The share of the stake times [`stream_span`], rounded towards zero.
    ShareScaled { scaled_share: usize },
    /// The padding program's account was found, or the node's own words.
    AccountAnswered(Result<(), String>),
    /// The latest blockhash is there.
    BlockhashAnswered,
    /// An aged blockhash could be had, or what went wrong.
    AgedBlockhashChecked(Result<(), String>),
    /// What was asked for is done: a service started, a sleep over.
    Proceeded,
    /// A scheduler was started, or its leader updater could not be made.
    SchedulerStarted(Result<(), BenchClientError>),
    /// What became of the awaited task.
    Joined(TaskOutcome),
}

/// How blockhashes are chosen.
#[derive(Clone, Copy, Debug, PartialEq, Eq, Structural)]
pub enum BlockhashChoice {
    Freshest,
    StaleSlots(u64),
    /// In nanoseconds.
    StaleFor(u128),
}

/// A connection scheduler to be started.
#[derive(Clone, Copy, Debug, PartialEq, Eq, Structural)]
pub struct SchedulerOrder {
    pub index: usize,
    /// Which of the validator identities the connections are staked by.
    pub identity: Option<usize>,
    pub num_connections: usize,
    pub worker_channel_size: usize,
    pub max_reconnect_attempts: usize,
    pub fanout_send: usize,
    pub fanout_connect: usize,
    pub skip_check_transaction_age: bool,
    pub override_initial_congestion_window: Option<u64>,
}

/// What to do next.
#[derive(Debug, PartialEq)]
pub enum ClientAction {
    ReadIdentities,
    GetVoteAccounts,
    ScaleShare { peer_stake: u64, total_stake: u64 },
    GetAccount { program_id: [u8; 32] },
    GetLatestBlockhash,
    CheckAgedBlockhash { stale_slots: u64 },
    StartUpdater(BlockhashChoice),
    Sleep { nanos: u128 },
    /// Make one channel per client and start the generator on their sending ends,
    /// which are kept.
    StartGenerator { settings: GeneratorSettings, mode: PriorityFeeMode },
    StartScheduler(SchedulerOrder),
    ReportStats,
    JoinGenerator,
    /// Drop the sending ends that were kept.
    CloseChannels,
    JoinUpdater,
    JoinScheduler { index: usize },
    Finish,
    Fail(BenchClientError),
}

/// What a [`ClientAction`] says.
pub enum ClientActionView {
    ReadIdentities,
    GetVoteAccounts,
    ScaleShare { peer_stake: u64, total_stake: u64 },
    GetAccount { program_id: Seq<u8> },
    GetLatestBlockhash,
    CheckAgedBlockhash { stale_slots: u64 },
    StartUpdater(BlockhashChoice),
    Sleep { nanos: u128 },
    StartGenerator { settings: GeneratorSettings, mode: ModeView },
    StartScheduler(SchedulerOrder),
    ReportStats,
    JoinGenerator,
    CloseChannels,
    JoinUpdater,
    JoinScheduler { index: usize },
    Finish,
    Fail(ErrorView),
}

impl View for ClientAction {
    type V = ClientActionView;

    open spec fn view(&self) -> ClientActionView {
        match *self {
            ClientAction::ReadIdentities => ClientActionView::ReadIdentities,
            ClientAction::GetVoteAccounts => ClientActionView::GetVoteAccounts,
            ClientAction::ScaleShare { peer_stake, total_stake } => ClientActionView::ScaleShare {
                peer_stake,
                total_stake,
            },
            ClientAction::GetAccount { program_id } => ClientActionView::GetAccount {
                program_id: program_id@,
            },
            ClientAction::GetLatestBlockhash => ClientActionView::GetLatestBlockhash,
            ClientAction::CheckAgedBlockhash { stale_slots } =>
                ClientActionView::CheckAgedBlockhash { stale_slots },
            ClientAction::StartUpdater(choice) => ClientActionView::StartUpdater(choice),
            ClientAction::Sleep { nanos } => ClientActionView::Sleep { nanos },
            ClientAction::StartGenerator { settings, mode } => ClientActionView::StartGenerator {
                settings,
                mode: mode@,
            },
            ClientAction::StartScheduler(order) => ClientActionView::StartScheduler(order),
            ClientAction::ReportStats => ClientActionView::ReportStats,
            ClientAction::JoinGenerator => ClientActionView::JoinGenerator,
            ClientAction::CloseChannels => ClientActionView::CloseChannels,
            ClientAction::JoinUpdater => ClientActionView::JoinUpdater,
            ClientAction::JoinScheduler { index } => ClientActionView::JoinScheduler { index },
            ClientAction::Finish => ClientActionView::Finish,
            ClientAction::Fail(error) => ClientActionView::Fail(error@),
        }
    }
}

/// Where a run stands before it starts.
pub open spec fn initial_client_state() -> ClientState {
    ClientState {
        phase: ClientPhase::NotStarted,
        first_identity: None,
        num_identities: 0,
        send_batch_size: 0,
        workers_pull_size: 0,
    }
}

impl Default for ClientState {
    fn default() -> (state: Self)
        ensures
            state == initial_client_state(),
    {
        ClientState {
            phase: ClientPhase::NotStarted,
            first_identity: None,
            num_identities: 0,
            send_batch_size: 0,
            workers_pull_size: 0,
        }
    }
}

impl ClientState {
    /// The event is what a run in this state waits for.
    pub open spec fn awaits(self, event: ClientEvent) -> bool {
        match event {
            ClientEvent::Started => self.phase is NotStarted,
            ClientEvent::IdentitiesRead(_) => self.phase is ReadingIdentities,
            ClientEvent::VoteAccountsAnswered(accounts) => {
                &&& self.phase is FindingStake
                &&& accounts matches Some(accounts) ==> stakes_fit(Some(accounts@))
            },
            ClientEvent::ShareScaled { .. } => self.phase is ScalingShare,
            ClientEvent::AccountAnswered(_) => self.phase is CheckingPaddingProgram,
            ClientEvent::BlockhashAnswered => self.phase is FetchingBlockhash,
            ClientEvent::AgedBlockhashChecked(_) => self.phase is CheckingAgedBlockhash,
            ClientEvent::Proceeded => {
                ||| self.phase is StartingUpdater
                ||| self.phase is Priming
                ||| self.phase is StartingGenerator
                ||| self.phase is ReportingStats
                ||| self.phase is Draining
                ||| self.phase is ClosingChannels
            },
            ClientEvent::SchedulerStarted(_) => self.phase is StartingScheduler,
            ClientEvent::Joined(_) => {
                ||| self.phase is JoiningGenerator
                ||| self.phase is JoiningUpdater
                ||| self.phase is JoiningScheduler
            },
        }
    }

    /// How many client instances there are: one per identity, one without.
    pub open spec fn num_tpu_clients(self) -> int {
        if self.num_identities >= 1 {
            self.num_identities as int
        } else {
            1
        }
    }

    pub open spec fn in_phase(self, phase: ClientPhase) -> ClientState {
        ClientState { phase, ..self }
    }

    /// The run is over because of an error.
    pub open spec fn failed(self, error: ErrorView) -> (ClientState, ClientActionView) {
        (self.in_phase(ClientPhase::Over), ClientActionView::Fail(error))
    }
}

/// The generator that a run starts.
pub open spec fn generator_settings(plan: RunPlan, state: ClientState) -> GeneratorSettings {
    GeneratorSettings {
        num_payers: plan.num_payers,
        num_senders: state.num_tpu_clients() as usize,
        transaction_params: plan.transaction_params,
        compute_unit_price: plan.execution_params.compute_unit_price,
        send_batch_size: state.send_batch_size,
        run_duration: plan.execution_params.duration,
        num_transactions: plan.execution_params.num_transactions,
        target_tps: plan.execution_params.target_tps,
        workers_pull_size: state.workers_pull_size,
    }
}

/// The scheduler number `index` that a run starts.
pub open spec fn scheduler_order(plan: RunPlan, state: ClientState, index: usize) -> SchedulerOrder {
    SchedulerOrder {
        index,
        identity: if index < state.num_identities {
            Some(index)
        } else {
            None
        },
        num_connections: plan.execution_params.num_max_open_connections,
        worker_channel_size: WORKER_CHANNEL_SIZE,
        max_reconnect_attempts: MAX_RECONNECT_ATTEMPTS,
        fanout_send: plan.execution_params.send_fanout,
        fanout_connect: if plan.execution_params.send_fanout < usize::MAX {
            (plan.execution_params.send_fanout + 1) as usize
        } else {
            usize::MAX
        },
        skip_check_transaction_age: false,
        override_initial_congestion_window: plan.execution_params.initial_congestion_window,
    }
}

/// The number of streams is known: batches are sized and checked. Where transfers
/// are padded, the padding program has to be there.
pub open spec fn sized_turn(plan: RunPlan, state: ClientState, num_streams: usize) -> (
    ClientState,
    ClientActionView,
) {
    let params = plan.transaction_params;
    let target_tps = plan.execution_params.target_tps;
    let size = send_batch_size_of(
        params.simple_transfer_tx_params.tx_batch_size,
        num_streams,
        target_tps,
    ) as usize;
    let sized = ClientState {
        send_batch_size: size,
        workers_pull_size: workers_of(
            plan.execution_params.workers_pull_size,
            size,
            target_tps,
        ) as usize,
        ..state
    };
    match batch_fault(params, size) {
        Some(fault) => sized.failed(ErrorView::InvalidCliArguments(fault)),
        None => if params.padding_params.instruction_padding_data_size is Some {
            (
                sized.in_phase(ClientPhase::CheckingPaddingProgram),
                ClientActionView::GetAccount { program_id: padding_program(params) },
            )
        } else {
            (
                sized.in_phase(ClientPhase::FetchingBlockhash),
                ClientActionView::GetLatestBlockhash,
            )
        },
    }
}

/// The address of the padding program that is used.
pub open spec fn padding_program(params: TransactionParams) -> Seq<u8> {
    match params.padding_params.instruction_padding_program_id {
        Some(id) => id@,
        None => wire::spl_padding_program(),
    }
}

pub const STALE_SLOTS_AND_SECS: &'static str = "--blockhash-stale-slots cannot be combined with --blockhash-stale-secs";

/// Blockhashes cannot be aged by slots and by seconds at once.
pub open spec fn ages_twice(params: ExecutionParams) -> bool {
    params.blockhash_stale_slots > 0 && params.blockhash_stale_secs > 0
}

/// How a run chooses its blockhashes. At most one of the two ages is set.
pub open spec fn blockhash_choice(params: ExecutionParams) -> BlockhashChoice {
    if params.blockhash_stale_slots > 0 {
        BlockhashChoice::StaleSlots(params.blockhash_stale_slots)
    } else if params.blockhash_stale_secs > 0 {
        BlockhashChoice::StaleFor((params.blockhash_stale_secs * 1_000_000_000) as u128)
    } else {
        BlockhashChoice::Freshest
    }
}

/// The longest duration, in nanoseconds: the largest 64-bit number of seconds, and
/// one nanosecond less than another second.
pub const LONGEST_NANOS: u128 = 18_446_744_073_709_551_615_999_999_999;

/// How long the delay line is primed, in nanoseconds: until the first blockhash
/// has the asked-for age, and a margin for poll jitter.
pub open spec fn priming_time(stale_secs: u64) -> u128 {
    if stale_secs + PRIMING_MARGIN_SECS <= u64::MAX {
        ((stale_secs + PRIMING_MARGIN_SECS) * 1_000_000_000) as u128
    } else {
        LONGEST_NANOS
    }
}

/// The priority-fee settings are resolved, and the generator is started.
pub open spec fn generator_turn(plan: RunPlan, state: ClientState) -> (
    ClientState,
    ClientActionView,
) {
    match plan.execution_params.priority_fee_params.mode_outcome(
        plan.execution_params.num_transactions,
        plan.floats,
    ) {
        Ok(mode) => (
            state.in_phase(ClientPhase::StartingGenerator),
            ClientActionView::StartGenerator { settings: generator_settings(plan, state), mode },
        ),
        Err(error) => state.failed(ErrorView::InvalidCliArguments(error)),
    }
}

/// The schedulers are started one after the other; then the statistics go out.
pub open spec fn scheduler_turn(plan: RunPlan, state: ClientState, index: usize) -> (
    ClientState,
    ClientActionView,
) {
    if index < state.num_tpu_clients() {
        (
            state.in_phase(ClientPhase::StartingScheduler { index }),
            ClientActionView::StartScheduler(scheduler_order(plan, state, index)),
        )
    } else {
        (state.in_phase(ClientPhase::ReportingStats), ClientActionView::ReportStats)
    }
}

/// The schedulers are joined one after the other; then the run is complete.
pub open spec fn join_turn(state: ClientState, index: usize) -> (ClientState, ClientActionView) {
    if index < state.num_tpu_clients() {
        (
            state.in_phase(ClientPhase::JoiningScheduler { index }),
            ClientActionView::JoinScheduler { index },
        )
    } else {
        (state.in_phase(ClientPhase::Over), ClientActionView::Finish)
    }
}

/// What the awaited task is called.
pub open spec fn task_name(phase: ClientPhase) -> Seq<char> {
    match phase {
        ClientPhase::JoiningGenerator => "TransactionGenerator"@,
        ClientPhase::JoiningUpdater => "BlockhashUpdater"@,
        ClientPhase::JoiningScheduler { index } => "Scheduler-"@ + text::decimal(index as nat),
        _ => Seq::empty(),
    }
}

/// One turn of a run: where it stands afterwards, and what to do next.
pub open spec fn client_turn(plan: RunPlan, state: ClientState, event: ClientEvent) -> (
    ClientState,
    ClientActionView,
) {
    match event {
        ClientEvent::Started => if ages_twice(plan.execution_params) {
            state.failed(ErrorView::InvalidCliArguments(STALE_SLOTS_AND_SECS@))
        } else {
            (
                state.in_phase(ClientPhase::ReadingIdentities),
                ClientActionView::ReadIdentities,
            )
        },
        ClientEvent::IdentitiesRead(None) => state.failed(ErrorView::KeypairReadFailure),
        ClientEvent::IdentitiesRead(Some(identities)) => (
            ClientState {
                phase: ClientPhase::FindingStake,
                first_identity: if identities@.len() > 0 {
                    Some(identities@[0])
                } else {
                    None
                },
                num_identities: identities@.len() as usize,
                ..state
            },
            ClientActionView::GetVoteAccounts,
        ),
        ClientEvent::VoteAccountsAnswered(accounts) => match stake_outcome(
            match accounts {
                Some(accounts) => Some(accounts@),
                None => None,
            },
            match state.first_identity {
                Some(id) => Some(wire::address_notation(id@)),
                None => None,
            },
        ) {
            None => sized_turn(plan, state, DEFAULT_NUM_STREAMS_PER_CONNECTION),
            Some((Some(peer_stake), total_stake)) => (
                state.in_phase(ClientPhase::ScalingShare { peer_stake, total_stake }),
                ClientActionView::ScaleShare { peer_stake, total_stake },
            ),
            Some((None, total_stake)) => sized_turn(
                plan,
                state,
                allowed_streams(ConnectionPeerType::Unstaked, total_stake, 0) as usize,
            ),
        },
        ClientEvent::ShareScaled { scaled_share } => match state.phase {
            ClientPhase::ScalingShare { peer_stake, total_stake } => sized_turn(
                plan,
                state,
                allowed_streams(
                    ConnectionPeerType::Staked(peer_stake),
                    total_stake,
                    scaled_share,
                ) as usize,
            ),
            _ => (state, ClientActionView::Finish),
        },
        ClientEvent::AccountAnswered(Ok(_)) => (
            state.in_phase(ClientPhase::FetchingBlockhash),
            ClientActionView::GetLatestBlockhash,
        ),
        ClientEvent::AccountAnswered(Err(error)) => state.failed(
            ErrorView::InvalidCliArguments(
                padding_error(
                    wire::address_notation(padding_program(plan.transaction_params)),
                    error@,
                ),
            ),
        ),
        ClientEvent::BlockhashAnswered => if plan.execution_params.blockhash_stale_slots > 0 {
            (
                state.in_phase(ClientPhase::CheckingAgedBlockhash),
                ClientActionView::CheckAgedBlockhash {
                    stale_slots: plan.execution_params.blockhash_stale_slots,
                },
            )
        } else {
            (
                state.in_phase(ClientPhase::StartingUpdater),
                ClientActionView::StartUpdater(blockhash_choice(plan.execution_params)),
            )
        },
        ClientEvent::AgedBlockhashChecked(Ok(_)) => (
            state.in_phase(ClientPhase::StartingUpdater),
            ClientActionView::StartUpdater(blockhash_choice(plan.execution_params)),
        ),
        ClientEvent::AgedBlockhashChecked(Err(error)) => state.failed(
            ErrorView::InvalidCliArguments(error@),
        ),
        ClientEvent::Proceeded => match state.phase {
            ClientPhase::StartingUpdater => if blockhash_choice(
                plan.execution_params,
            ) is StaleFor {
                (
                    state.in_phase(ClientPhase::Priming),
                    ClientActionView::Sleep {
                        nanos: priming_time(plan.execution_params.blockhash_stale_secs),
                    },
                )
            } else {
                generator_turn(plan, state)
            },
            ClientPhase::Priming => generator_turn(plan, state),
            ClientPhase::StartingGenerator => scheduler_turn(plan, state, 0),
            ClientPhase::ReportingStats => (
                state.in_phase(ClientPhase::JoiningGenerator),
                ClientActionView::JoinGenerator,
            ),
            ClientPhase::Draining => (
                state.in_phase(ClientPhase::ClosingChannels),
                ClientActionView::CloseChannels,
            ),
            ClientPhase::ClosingChannels => (
                state.in_phase(ClientPhase::JoiningUpdater),
                ClientActionView::JoinUpdater,
            ),
            _ => (state, ClientActionView::Finish),
        },
        ClientEvent::SchedulerStarted(Ok(_)) => match state.phase {
            ClientPhase::StartingScheduler { index } => scheduler_turn(
                plan,
                state,
                (index + 1) as usize,
            ),
            _ => (state, ClientActionView::Finish),
        },
        ClientEvent::SchedulerStarted(Err(error)) => state.failed(error@),
        ClientEvent::Joined(outcome) => match task_error(outcome, task_name(state.phase)) {
            Some(error) => state.failed(error),
            None => match state.phase {
                ClientPhase::JoiningGenerator => if plan.execution_params.drain_seconds > 0 {
                    (
                        state.in_phase(ClientPhase::Draining),
                        ClientActionView::Sleep {
                            nanos: (plan.execution_params.drain_seconds * 1_000_000_000) as u128,
                        },
                    )
                } else {
                    (
                        state.in_phase(ClientPhase::ClosingChannels),
                        ClientActionView::CloseChannels,
                    )
                },
                ClientPhase::JoiningUpdater => join_turn(state, 0),
                ClientPhase::JoiningScheduler { index } => join_turn(state, (index + 1) as usize),
                _ => (state, ClientActionView::Finish),
            },
        },
    }
}

/// Starting and joining go through the schedulers there are.
pub open spec fn client_consistent(state: ClientState) -> bool {
    &&& state.phase matches ClientPhase::StartingScheduler { index } ==> index
        < state.num_tpu_clients()
    &&& state.phase matches ClientPhase::JoiningScheduler { index } ==> index
        < state.num_tpu_clients()
}

fn scheduler_step(plan: &RunPlan, state: &mut ClientState, index: usize) -> (action: ClientAction)
    ensures
        (*final(state), action@) == scheduler_turn(*plan, *old(state), index),
{
    let clients: usize = tpu_clients(state);
    if index < clients {
        state.phase = ClientPhase::StartingScheduler { index };
        let identity: Option<usize> = if index < state.num_identities {
            Some(index)
        } else {
            None
        };
        ClientAction::StartScheduler(
            SchedulerOrder {
                index,
                identity,
                num_connections: plan.execution_params.num_max_open_connections,
                worker_channel_size: WORKER_CHANNEL_SIZE,
                max_reconnect_attempts: MAX_RECONNECT_ATTEMPTS,
                fanout_send: plan.execution_params.send_fanout,
                fanout_connect: plan.execution_params.send_fanout.saturating_add(1),
                skip_check_transaction_age: false,
                override_initial_congestion_window: plan.execution_params.initial_congestion_window,
            },
        )
    } else {
        state.phase = ClientPhase::ReportingStats;
        ClientAction::ReportStats
    }
}

fn tpu_clients(state: &ClientState) -> (clients: usize)
    ensures
        clients == state.num_tpu_clients(),
{
    if state.num_identities >= 1 {
        state.num_identities
    } else {
        1
    }
}

fn join_step(state: &mut ClientState, index: usize) -> (action: ClientAction)
    ensures
        (*final(state), action@) == join_turn(*old(state), index),
{
    if index < tpu_clients(state) {
        state.phase = ClientPhase::JoiningScheduler { index };
        ClientAction::JoinScheduler { index }
    } else {
        state.phase = ClientPhase::Over;
        ClientAction::Finish
    }
}

/// A mode that is handed to a generator is fit for use.
pub open spec fn hands_out_usable_mode(action: ClientAction) -> bool {
    action matches ClientAction::StartGenerator { settings: _, mode } ==> mode.well_formed()
}

fn generator_step(plan: &RunPlan, state: &mut ClientState) -> (action: ClientAction)
    requires
        plan.well_formed(),
    ensures
        (*final(state), action@) == generator_turn(*plan, *old(state)),
        hands_out_usable_mode(action),
{
    match plan.execution_params.priority_fee_params.to_mode(
        plan.execution_params.num_transactions,
        &plan.floats,
    ) {
        Ok(mode) => {
            proof {
                cli::law_resolved_mode_is_well_formed(
                    plan.execution_params.priority_fee_params,
                    plan.execution_params.num_transactions,
                    plan.floats,
                    mode,
                );
            }
            state.phase = ClientPhase::StartingGenerator;
            let settings = GeneratorSettings {
                num_payers: plan.num_payers,
                num_senders: tpu_clients(state),
                transaction_params: plan.transaction_params,
                compute_unit_price: plan.execution_params.compute_unit_price,
                send_batch_size: state.send_batch_size,
                run_duration: plan.execution_params.duration,
                num_transactions: plan.execution_params.num_transactions,
                target_tps: plan.execution_params.target_tps,
                workers_pull_size: state.workers_pull_size,
            };
            ClientAction::StartGenerator { settings, mode }
        },
        Err(error) => {
            state.phase = ClientPhase::Over;
            ClientAction::Fail(BenchClientError::InvalidCliArguments(error))
        },
    }
}

fn sized_step(plan: &RunPlan, state: &mut ClientState, num_streams: usize) -> (action: ClientAction)
    requires
        plan.well_formed(),
        num_streams >= 1,
    ensures
        (*final(state), action@) == sized_turn(*plan, *old(state), num_streams),
{
    let params: &TransactionParams = &plan.transaction_params;
    let target_tps: Option<u64> = plan.execution_params.target_tps;
    let send_batch_size: usize = compute_send_batch_size(
        params.simple_transfer_tx_params.tx_batch_size,
        num_streams,
        target_tps,
    );
    state.send_batch_size = send_batch_size;
    state.workers_pull_size = compute_workers_pull_size(
        plan.execution_params.workers_pull_size,
        send_batch_size,
        target_tps,
    );
    if let Err(error) = check_batch(params, send_batch_size) {
        state.phase = ClientPhase::Over;
        return ClientAction::Fail(error);
    }
    match params.instruction_padding_config() {
        Some(config) => {
            state.phase = ClientPhase::CheckingPaddingProgram;
            ClientAction::GetAccount { program_id: config.program_id }
        },
        None => {
            state.phase = ClientPhase::FetchingBlockhash;
            ClientAction::GetLatestBlockhash
        },
    }
}

fn updater_step(plan: &RunPlan, state: &mut ClientState) -> (action: ClientAction)
    ensures
        *final(state) == old(state).in_phase(ClientPhase::StartingUpdater),
        action@ == ClientActionView::StartUpdater(blockhash_choice(plan.execution_params)),
{
    state.phase = ClientPhase::StartingUpdater;
    let slots: u64 = plan.execution_params.blockhash_stale_slots;
    let secs: u64 = plan.execution_params.blockhash_stale_secs;
    let choice: BlockhashChoice = if slots > 0 {
        BlockhashChoice::StaleSlots(slots)
    } else if secs > 0 {
        BlockhashChoice::StaleFor(secs as u128 * 1_000_000_000)
    } else {
        BlockhashChoice::Freshest
    };
    ClientAction::StartUpdater(choice)
}

fn padding_failure(plan: &RunPlan, error: &str) -> (r: BenchClientError)
    requires
        plan.transaction_params.padding_params.instruction_padding_data_size is Some,
    ensures
        r@ == ErrorView::InvalidCliArguments(
            padding_error(
                wire::address_notation(padding_program(plan.transaction_params)),
                error@,
            ),
        ),
{
    let program_id: [u8; 32] = match plan.transaction_params.padding_params.instruction_padding_program_id {
        Some(id) => id,
        None => wire::padding_program_id(),
    };
    let program: String = wire::address_text(&program_id);
    BenchClientError::InvalidCliArguments(padding_message(program.as_str(), error))
}

fn joined_step(plan: &RunPlan, state: &mut ClientState, outcome: TaskOutcome) -> (action:
    ClientAction)
    requires
        old(state).awaits(ClientEvent::Joined(outcome)),
        client_consistent(*old(state)),
    ensures
        (*final(state), action@) == client_turn(*plan, *old(state), ClientEvent::Joined(outcome)),
{
    match state.phase {
        ClientPhase::JoiningGenerator => {
            if let Err(error) = join_service(outcome, "TransactionGenerator") {
                state.phase = ClientPhase::Over;
                return ClientAction::Fail(error);
            }
            let drain_seconds: u64 = plan.execution_params.drain_seconds;
            if drain_seconds > 0 {
                state.phase = ClientPhase::Draining;
                ClientAction::Sleep { nanos: drain_seconds as u128 * 1_000_000_000 }
            } else {
                state.phase = ClientPhase::ClosingChannels;
                ClientAction::CloseChannels
            }
        },
        ClientPhase::JoiningUpdater => {
            if let Err(error) = join_service(outcome, "BlockhashUpdater") {
                state.phase = ClientPhase::Over;
                return ClientAction::Fail(error);
            }
            join_step(state, 0)
        },
        ClientPhase::JoiningScheduler { index } => {
            let mut name: String = "Scheduler-".to_string();
            name.append(text::decimal_text(index as u64).as_str());
            if let Err(error) = join_service(outcome, name.as_str()) {
                state.phase = ClientPhase::Over;
                return ClientAction::Fail(error);
            }
            join_step(state, index + 1)
        },
        _ => ClientAction::Finish,
    }
}

fn proceeded_step(plan: &RunPlan, state: &mut ClientState) -> (action: ClientAction)
    requires
        plan.well_formed(),
        old(state).awaits(ClientEvent::Proceeded),
    ensures
        (*final(state), action@) == client_turn(*plan, *old(state), ClientEvent::Proceeded),
        hands_out_usable_mode(action),
{
    match state.phase {
        ClientPhase::StartingUpdater => {
            let secs: u64 = plan.execution_params.blockhash_stale_secs;
            if plan.execution_params.blockhash_stale_slots == 0 && secs > 0 {
                state.phase = ClientPhase::Priming;
                let nanos: u128 = if secs <= u64::MAX - PRIMING_MARGIN_SECS {
                    (secs + PRIMING_MARGIN_SECS) as u128 * 1_000_000_000
                } else {
                    LONGEST_NANOS
                };
                ClientAction::Sleep { nanos }
            } else {
                generator_step(plan, state)
            }
        },
        ClientPhase::Priming => generator_step(plan, state),
        ClientPhase::StartingGenerator => scheduler_step(plan, state, 0),
        ClientPhase::ReportingStats => {
            state.phase = ClientPhase::JoiningGenerator;
            ClientAction::JoinGenerator
        },
        ClientPhase::Draining => {
            state.phase = ClientPhase::ClosingChannels;
            ClientAction::CloseChannels
        },
        ClientPhase::ClosingChannels => {
            state.phase = ClientPhase::JoiningUpdater;
            ClientAction::JoinUpdater
        },
        _ => ClientAction::Finish,
    }
}

/// The padding program is only looked for where transfers are padded.
pub open spec fn padding_checked_for_padding(plan: RunPlan, state: ClientState) -> bool {
    state.phase is CheckingPaddingProgram
        ==> plan.transaction_params.padding_params.instruction_padding_data_size is Some
}

/// One turn of a run: takes what happened, and says what to do next. The run
/// refuses to age blockhashes by slots and by seconds at once. It then reads the
/// identities, sizes its batches by the stake of the first one and
/// checks them, then starts updater, generator and schedulers, and winds them up
/// in that order of dependence: first the generator, then, after a time for what
/// is in flight, the channels are closed, then updater and schedulers.
pub fn run_client(plan: &RunPlan, state: &mut ClientState, event: ClientEvent) -> (action:
    ClientAction)
    requires
        plan.well_formed(),
        old(state).awaits(event),
        client_consistent(*old(state)),
        padding_checked_for_padding(*plan, *old(state)),
    ensures
        (*final(state), action@) == client_turn(*plan, *old(state), event),
        client_consistent(*final(state)),
        padding_checked_for_padding(*plan, *final(state)),
        hands_out_usable_mode(action),
{
    match event {
        ClientEvent::Started => {
            if plan.execution_params.blockhash_stale_slots > 0
                && plan.execution_params.blockhash_stale_secs > 0 {
                state.phase = ClientPhase::Over;
                return ClientAction::Fail(
                    BenchClientError::InvalidCliArguments(STALE_SLOTS_AND_SECS.to_string()),
                );
            }
            state.phase = ClientPhase::ReadingIdentities;
            ClientAction::ReadIdentities
        },
        ClientEvent::IdentitiesRead(None) => {
            state.phase = ClientPhase::Over;
            ClientAction::Fail(BenchClientError::KeypairReadFailure)
        },
        ClientEvent::IdentitiesRead(Some(identities)) => {
            state.phase = ClientPhase::FindingStake;
            state.num_identities = identities.len();
            state.first_identity = if identities.len() > 0 {
                Some(identities[0])
            } else {
                None
            };
            ClientAction::GetVoteAccounts
        },
        ClientEvent::VoteAccountsAnswered(accounts) => {
            let node_id: Option<[u8; 32]> = state.first_identity;
            match find_node_activated_stake(accounts.as_ref(), node_id.as_ref()) {
                Err(_) => sized_step(plan, state, DEFAULT_NUM_STREAMS_PER_CONNECTION),
                Ok((Some(peer_stake), total_stake)) => {
                    state.phase = ClientPhase::ScalingShare { peer_stake, total_stake };
                    ClientAction::ScaleShare { peer_stake, total_stake }
                },
                Ok((None, total_stake)) => {
                    let streams: usize = compute_max_allowed_uni_streams(
                        ConnectionPeerType::Unstaked,
                        total_stake,
                        0,
                    );
                    sized_step(plan, state, streams)
                },
            }
        },
        ClientEvent::ShareScaled { scaled_share } => match state.phase {
            ClientPhase::ScalingShare { peer_stake, total_stake } => {
                match compute_num_streams(Ok((Some(peer_stake), total_stake)), scaled_share) {
                    Ok(streams) => sized_step(plan, state, streams),
                    Err(error) => ClientAction::Fail(error),
                }
            },
            _ => ClientAction::Finish,
        },
        ClientEvent::AccountAnswered(Ok(_)) => {
            state.phase = ClientPhase::FetchingBlockhash;
            ClientAction::GetLatestBlockhash
        },
        ClientEvent::AccountAnswered(Err(error)) => {
            let failure: BenchClientError = padding_failure(plan, error.as_str());
            state.phase = ClientPhase::Over;
            ClientAction::Fail(failure)
        },
        ClientEvent::BlockhashAnswered => {
            let stale_slots: u64 = plan.execution_params.blockhash_stale_slots;
            if stale_slots > 0 {
                state.phase = ClientPhase::CheckingAgedBlockhash;
                ClientAction::CheckAgedBlockhash { stale_slots }
            } else {
                updater_step(plan, state)
            }
        },
        ClientEvent::AgedBlockhashChecked(Ok(_)) => updater_step(plan, state),
        ClientEvent::AgedBlockhashChecked(Err(error)) => {
            state.phase = ClientPhase::Over;
            ClientAction::Fail(BenchClientError::InvalidCliArguments(error))
        },
        ClientEvent::Proceeded => proceeded_step(plan, state),
        ClientEvent::SchedulerStarted(Ok(_)) => match state.phase {
            ClientPhase::StartingScheduler { index } => scheduler_step(plan, state, index + 1),
            _ => ClientAction::Finish,
        },
        ClientEvent::SchedulerStarted(Err(error)) => {
            state.phase = ClientPhase::Over;
            ClientAction::Fail(error)
        },
        ClientEvent::Joined(outcome) => joined_step(plan, state, outcome),
    }
}

/// How far a run has come.
pub open spec fn rank(phase: ClientPhase) -> (int, int) {
    match phase {
        ClientPhase::NotStarted => (0, 0),
        ClientPhase::ReadingIdentities => (1, 0),
        ClientPhase::FindingStake => (2, 0),
        ClientPhase::ScalingShare { .. } => (3, 0),
        ClientPhase::CheckingPaddingProgram => (4, 0),
        ClientPhase::FetchingBlockhash => (5, 0),
        ClientPhase::CheckingAgedBlockhash => (6, 0),
        ClientPhase::StartingUpdater => (7, 0),
        ClientPhase::Priming => (8, 0),
        ClientPhase::StartingGenerator => (9, 0),
        ClientPhase::StartingScheduler { index } => (10, index as int),
        ClientPhase::ReportingStats => (11, 0),
        ClientPhase::JoiningGenerator => (12, 0),
        ClientPhase::Draining => (13, 0),
        ClientPhase::ClosingChannels => (14, 0),
        ClientPhase::JoiningUpdater => (15, 0),
        ClientPhase::JoiningScheduler { index } => (16, index as int),
        ClientPhase::Over => (17, 0),
    }
}

/// A run only goes forward: each turn takes it to a later stage, or to the next
/// scheduler of the same one. It is over exactly when it says so.
pub proof fn law_run_goes_forward(plan: RunPlan, state: ClientState, event: ClientEvent)
    requires
        state.awaits(event),
        client_consistent(state),
    ensures
        ({
            let (after, action) = client_turn(plan, state, event);
            let (stage, index) = rank(state.phase);
            let (next_stage, next_index) = rank(after.phase);
            &&& next_stage > stage || (next_stage == stage && next_index == index + 1)
            &&& client_consistent(after)
            &&& after.phase is Over <==> action is Finish || action is Fail
        }),
{
}

/// Where a run stands after some events, and what it has asked for on the way.
pub open spec fn client_history(plan: RunPlan, events: Seq<ClientEvent>) -> (
    ClientState,
    Seq<ClientActionView>,
)
    decreases events.len(),
{
    if events.len() == 0 {
        (initial_client_state(), Seq::empty())
    } else {
        let (before, actions) = client_history(plan, events.drop_last());
        let (state, action) = client_turn(plan, before, events.last());
        (state, actions.push(action))
    }
}

/// Each event is one that the run waits for.
pub open spec fn client_orderly(plan: RunPlan, events: Seq<ClientEvent>) -> bool
    decreases events.len(),
{
    events.len() > 0 ==> client_orderly(plan, events.drop_last()) && client_history(
        plan,
        events.drop_last(),
    ).0.awaits(events.last())
}

/// The batches have been sized and found to be in order.
pub open spec fn batches_checked(plan: RunPlan, state: ClientState) -> bool {
    batch_fault(plan.transaction_params, state.send_batch_size) is None
}

proof fn lemma_history_invariant(plan: RunPlan, events: Seq<ClientEvent>)
    requires
        client_orderly(plan, events),
    ensures
        ({
            let (state, actions) = client_history(plan, events);
            &&& client_consistent(state)
            &&& 4 <= rank(state.phase).0 < 17 ==> batches_checked(plan, state)
            &&& forall|k: int|
                0 <= k < actions.len() ==> (#[trigger] actions[k] matches
                    ClientActionView::StartGenerator { settings, mode: _ } ==> batch_fault(
                    settings.transaction_params,
                    settings.send_batch_size,
                ) is None && settings.num_senders >= 1)
        }),
    decreases events.len(),
{
    if events.len() > 0 {
        lemma_history_invariant(plan, events.drop_last());
        let (before, actions) = client_history(plan, events.drop_last());
        law_run_goes_forward(plan, before, events.last());
        let all = client_history(plan, events).1;
        assert forall|k: int| 0 <= k < all.len() implies (#[trigger] all[k] matches
            ClientActionView::StartGenerator { settings, mode: _ } ==> batch_fault(
            settings.transaction_params,
            settings.send_batch_size,
        ) is None && settings.num_senders >= 1) by {
            if k < actions.len() {
                assert(all[k] == actions[k]);
            }
        }
    }
}

/// No generator is started on a batch size that does not fit: by then there are
/// enough different amounts for the transfers of a batch, no more conflict groups
/// than transfers, and at least one channel.
pub proof fn law_generator_starts_checked(plan: RunPlan, events: Seq<ClientEvent>, k: int)
    requires
        client_orderly(plan, events),
        0 <= k < client_history(plan, events).1.len(),
    ensures
        client_history(plan, events).1[k] matches ClientActionView::StartGenerator {
            settings,
            mode: _,
        } ==> {
            let transfers = settings.transaction_params.simple_transfer_tx_params;
            let count = transfers_per_batch(settings.transaction_params, settings.send_batch_size);
            &&& count <= transfers.max_lamports_to_transfer
            &&& transfers.num_conflict_groups matches Some(groups) ==> groups <= count
            &&& settings.num_senders >= 1
        },
{
    lemma_history_invariant(plan, events);
}

/// Where transfers are padded, no generator is started before the padding program
/// has been found.
pub proof fn law_padding_program_is_found_first(plan: RunPlan, events: Seq<ClientEvent>)
    requires
        plan.transaction_params.padding_params.instruction_padding_data_size is Some,
        client_orderly(plan, events),
        5 <= rank(client_history(plan, events).0.phase).0 < 17,
    ensures
        exists|k: int|
            0 <= k < events.len() && #[trigger] events[k] matches ClientEvent::AccountAnswered(Ok(_)),
    decreases events.len(),
{
    if events.len() > 0 {
        let rest = events.drop_last();
        let before = client_history(plan, rest).0;
        lemma_history_invariant(plan, rest);
        law_run_goes_forward(plan, before, events.last());
        if rank(before.phase).0 >= 5 {
            law_padding_program_is_found_first(plan, rest);
            let k = choose|k: int|
                0 <= k < rest.len() && #[trigger] rest[k] matches ClientEvent::AccountAnswered(
                    Ok(_),
                );
            assert(events[k] == rest[k]);
        } else {
            assert(events[events.len() - 1] matches ClientEvent::AccountAnswered(Ok(_)));
        }
    }
}

/// With stale seconds, the generator is started right behind the priming of the
/// delay line, so that the first transaction is already aged and the run time
/// counts from there; without, there is no priming.
pub proof fn law_primed_before_sending(plan: RunPlan, state: ClientState, event: ClientEvent)
    requires
        state.awaits(event),
    ensures
        ({
            let (after, action) = client_turn(plan, state, event);
            &&& action is StartGenerator && blockhash_choice(plan.execution_params) is StaleFor
                ==> state.phase is Priming
            &&& after.phase is Priming ==> {
                &&& blockhash_choice(plan.execution_params) is StaleFor
                &&& action == ClientActionView::Sleep {
                    nanos: priming_time(plan.execution_params.blockhash_stale_secs),
                }
            }
        }),
{
}

/// A plan that ages blockhashes both by slots and by seconds gets nowhere: the run
/// is over before it asks for anything.
pub proof fn law_slots_and_seconds_exclude_each_other(plan: RunPlan, events: Seq<ClientEvent>)
    requires
        ages_twice(plan.execution_params),
        client_orderly(plan, events),
    ensures
        ({
            let (state, actions) = client_history(plan, events);
            &&& state.phase is NotStarted || state.phase is Over
            &&& forall|k: int|
                0 <= k < actions.len() ==> #[trigger] actions[k] == ClientActionView::Fail(
                    ErrorView::InvalidCliArguments(STALE_SLOTS_AND_SECS@),
                )
        }),
    decreases events.len(),
{
    if events.len() > 0 {
        law_slots_and_seconds_exclude_each_other(plan, events.drop_last());
        let (before, actions) = client_history(plan, events.drop_last());
        let all = client_history(plan, events).1;
        assert(all.drop_last() =~= actions);
        assert forall|k: int| 0 <= k < all.len() implies #[trigger] all[k]
            == ClientActionView::Fail(
            ErrorView::InvalidCliArguments(STALE_SLOTS_AND_SECS@),
        ) by {
            if k < actions.len() {
                assert(all[k] == actions[k]);
            }
        }
    }
}

/// The schedulers that a run has started.
pub open spec fn schedulers_started(actions: Seq<ClientActionView>) -> Seq<SchedulerOrder>
    decreases actions.len(),
{
    if actions.len() == 0 {
        Seq::empty()
    } else {
        let before = schedulers_started(actions.drop_last());
        match actions.last() {
            ClientActionView::StartScheduler(order) => before.push(order),
            _ => before,
        }
    }
}

/// How many schedulers have been started at this point of a run, at least.
pub open spec fn schedulers_due(state: ClientState) -> Option<int> {
    match state.phase {
        ClientPhase::StartingScheduler { index } => Some(index + 1),
        _ => if rank(state.phase).0 < 10 {
            Some(0)
        } else if rank(state.phase).0 < 17 {
            Some(state.num_tpu_clients())
        } else {
            None
        },
    }
}

/// There is one scheduler per identity, in order and staked by it, or a single
/// unstaked one. Once the generator is awaited, all of them have been started.
pub proof fn law_one_scheduler_per_identity(plan: RunPlan, events: Seq<ClientEvent>)
    requires
        client_orderly(plan, events),
    ensures
        ({
            let (state, actions) = client_history(plan, events);
            let orders = schedulers_started(actions);
            &&& orders.len() <= state.num_tpu_clients()
            &&& schedulers_due(state) matches Some(due) ==> orders.len() == due
            &&& forall|k: int|
                0 <= k < orders.len() ==> (#[trigger] orders[k]) == scheduler_order(
                    plan,
                    state,
                    k as usize,
                )
        }),
    decreases events.len(),
{
    if events.len() > 0 {
        law_one_scheduler_per_identity(plan, events.drop_last());
        lemma_history_invariant(plan, events.drop_last());
        let (before, actions) = client_history(plan, events.drop_last());
        let (state, all) = client_history(plan, events);
        law_run_goes_forward(plan, before, events.last());
        assert(all.drop_last() =~= actions);
        let started = schedulers_started(actions);
        if rank(before.phase).0 < 10 {
            assert(started.len() == 0);
        } else {
            assert(state.num_identities == before.num_identities);
        }
    }
}

/// The identities that a run has read.
pub open spec fn identities_read(events: Seq<ClientEvent>) -> Seq<[u8; 32]>
    decreases events.len(),
{
    if events.len() == 0 {
        Seq::empty()
    } else {
        match events.last() {
            ClientEvent::IdentitiesRead(Some(identities)) => identities@,
            _ => identities_read(events.drop_last()),
        }
    }
}

proof fn lemma_identities_are_kept(plan: RunPlan, events: Seq<ClientEvent>)
    requires
        client_orderly(plan, events),
        forall|k: int|
            0 <= k < events.len() ==> (#[trigger] events[k] matches ClientEvent::IdentitiesRead(
                Some(identities),
            ) ==> identities@.len() <= usize::MAX),
    ensures
        ({
            let state = client_history(plan, events).0;
            let identities = identities_read(events);
            &&& state.num_identities == identities.len()
            &&& state.first_identity == if identities.len() > 0 {
                Some(identities[0])
            } else {
                None
            }
        }),
    decreases events.len(),
{
    if events.len() > 0 {
        let rest = events.drop_last();
        assert forall|k: int| 0 <= k < rest.len() implies (#[trigger] rest[k] matches
            ClientEvent::IdentitiesRead(Some(identities)) ==> identities@.len() <= usize::MAX) by {
            assert(rest[k] == events[k]);
        }
        lemma_identities_are_kept(plan, rest);
        assert(events.last() == events[events.len() - 1]);
    }
}

/// Every scheduler that a run starts follows the plan: it sends to as many leaders as
/// the plan's fanout says and connects to one more, has as many connections as the
/// plan allows and the plan's congestion window. The schedulers are numbered, and
/// number `k` is staked by identity number `k`, where there are identities.
pub proof fn law_schedulers_follow_the_plan(plan: RunPlan, events: Seq<ClientEvent>, k: int)
    requires
        client_orderly(plan, events),
        forall|j: int|
            0 <= j < events.len() ==> (#[trigger] events[j] matches ClientEvent::IdentitiesRead(
                Some(identities),
            ) ==> identities@.len() <= usize::MAX),
        0 <= k < schedulers_started(client_history(plan, events).1).len(),
    ensures
        ({
            let order = schedulers_started(client_history(plan, events).1)[k];
            let params = plan.execution_params;
            let identities = identities_read(events);
            &&& order.fanout_send == params.send_fanout
            &&& params.send_fanout < usize::MAX ==> order.fanout_connect == params.send_fanout + 1
            &&& params.send_fanout == usize::MAX ==> order.fanout_connect == usize::MAX
            &&& order.num_connections == params.num_max_open_connections
            &&& order.override_initial_congestion_window == params.initial_congestion_window
            &&& order.index == k
            &&& identities.len() > 0 ==> k < identities.len() && order.identity == Some(k as usize)
            &&& identities.len() == 0 ==> k == 0 && order.identity is None
            &&& order.worker_channel_size == 20
            &&& order.max_reconnect_attempts == 5
            &&& !order.skip_check_transaction_age
        }),
{
    law_one_scheduler_per_identity(plan, events);
    lemma_identities_are_kept(plan, events);
}

/// A run that has got as far as to wait for its generator has started a scheduler
/// for each identity, or the single one where there is none.
pub proof fn law_every_identity_gets_a_scheduler(plan: RunPlan, events: Seq<ClientEvent>)
    requires
        client_orderly(plan, events),
        forall|j: int|
            0 <= j < events.len() ==> (#[trigger] events[j] matches ClientEvent::IdentitiesRead(
                Some(identities),
            ) ==> identities@.len() <= usize::MAX),
        client_history(plan, events).0.phase is JoiningGenerator,
    ensures
        ({
            let started = schedulers_started(client_history(plan, events).1).len();
            let identities = identities_read(events).len();
            &&& identities > 0 ==> started == identities
            &&& identities == 0 ==> started == 1
        }),
{
    law_one_scheduler_per_identity(plan, events);
    lemma_identities_are_kept(plan, events);
}

/// The generator that a run starts follows the plan: its payers, transactions,
/// price, limits and rate are the plan's; it has one channel per client, and its
/// batches and workers are those that the run has sized. Its mode is what the
/// priority-fee settings resolve to; where they do not resolve, the run fails with
/// their error.
pub proof fn law_generator_follows_the_plan(plan: RunPlan, state: ClientState, event: ClientEvent)
    requires
        state.awaits(event),
    ensures
        ({
            let action = client_turn(plan, state, event).1;
            let params = plan.execution_params;
            let resolved = params.priority_fee_params.mode_outcome(
                params.num_transactions,
                plan.floats,
            );
            &&& action matches ClientActionView::StartGenerator { settings, mode } ==> {
                &&& settings.num_payers == plan.num_payers
                &&& settings.transaction_params == plan.transaction_params
                &&& settings.compute_unit_price == params.compute_unit_price
                &&& settings.run_duration == params.duration
                &&& settings.num_transactions == params.num_transactions
                &&& settings.target_tps == params.target_tps
                &&& settings.send_batch_size == state.send_batch_size
                &&& settings.workers_pull_size == state.workers_pull_size
                &&& state.num_identities > 0 ==> settings.num_senders == state.num_identities
                &&& state.num_identities == 0 ==> settings.num_senders == 1
                &&& resolved == Ok::<ModeView, Seq<char>>(mode)
            }
            &&& event is Proceeded && (state.phase is Priming || (state.phase is StartingUpdater
                && !(params.blockhash_stale_slots == 0 && params.blockhash_stale_secs > 0)))
                ==> match resolved {
                Ok(_) => action is StartGenerator,
                Err(error) => action == ClientActionView::Fail(
                    ErrorView::InvalidCliArguments(error),
                ),
            }
        }),
{
}

/// How large batches are. A configured size counts. Otherwise there is one
/// transaction per stream; with a target rate the batches are the smallest ones of
/// which ten per second suffice, but at least one transaction and at most one per
/// stream.
pub proof fn law_size_of_batches(
    tx_batch_size: Option<usize>,
    streams: usize,
    target_tps: Option<u64>,
)
    requires
        streams >= 1,
    ensures
        ({
            let size = send_batch_size_of(tx_batch_size, streams, target_tps);
            match (tx_batch_size, target_tps) {
                (Some(configured), _) => size == configured,
                (None, None) => size == streams,
                (None, Some(target_tps)) => {
                    &&& 1 <= size <= streams
                    &&& 10 * size >= target_tps || size == streams
                    &&& size == 1 || 10 * (size - 1) < target_tps
                },
            }
        }),
{
}

/// How many batches are in flight. Without a target rate as many as configured. With
/// one: one where a batch per second suffices, two up to ten batches per second,
/// else four; but no more than configured, where at least one is.
pub proof fn law_number_of_workers(configured: usize, size: usize, target_tps: u64)
    requires
        size >= 1,
    ensures
        workers_of(configured, size, None) == configured,
        ({
            let workers = workers_of(configured, size, Some(target_tps));
            let wanted: int = if target_tps <= size {
                1
            } else if target_tps <= 10 * size {
                2
            } else {
                4
            };
            &&& wanted <= configured ==> workers == wanted
            &&& 1 <= configured < wanted ==> workers == configured
            &&& configured == 0 ==> workers == 1
        }),
{
    let q = ceiling(target_tps as int, size as int);
    let x = target_tps + size - 1;
    let s = size as int;
    vstd::arithmetic::div_mod::lemma_fundamental_div_mod(x, s);
    vstd::arithmetic::div_mod::lemma_mod_bound(x, s);
    assert(s * q == q * s) by (nonlinear_arith);
    assert(q <= 1 <==> target_tps <= size) by (nonlinear_arith)
        requires
            q * s <= target_tps + s - 1 < q * s + s,
            s >= 1,
            s == size,
    ;
    assert(q <= 10 <==> target_tps <= 10 * size) by (nonlinear_arith)
        requires
            q * s <= target_tps + s - 1 < q * s + s,
            s >= 1,
            s == size,
    ;
}

/// How many streams a connection has. Unstaked ones have 128, and so do staked ones
/// whose numbers make no sense. Each stream of a peer's share comes on top of 128,
/// up to 512 in all.
pub proof fn law_streams_add_up(stake: u64, total_stake: u64, share: usize)
    ensures
        allowed_streams(ConnectionPeerType::Unstaked, total_stake, share) == 128,
        total_stake == 0 || stake > total_stake ==> allowed_streams(
            ConnectionPeerType::Staked(stake),
            total_stake,
            share,
        ) == 128,
        0 < total_stake && stake <= total_stake && share <= 384 ==> allowed_streams(
            ConnectionPeerType::Staked(stake),
            total_stake,
            share,
        ) == 128 + share,
        0 < total_stake && stake <= total_stake && share >= 384 ==> allowed_streams(
            ConnectionPeerType::Staked(stake),
            total_stake,
            share,
        ) == 512,
{
}

proof fn lemma_stake_of_first_match(accounts: Seq<VoteAccount>, node: Seq<char>, k: int)
    ensures
        stake_of(accounts, node) is Some <==> exists|j: int|
            0 <= j < accounts.len() && (#[trigger] accounts[j]).node_pubkey@ == node,
        0 <= k < accounts.len() && accounts[k].node_pubkey@ == node && (forall|j: int|
            0 <= j < k ==> (#[trigger] accounts[j]).node_pubkey@ != node) ==> stake_of(
            accounts,
            node,
        ) == Some(accounts[k].activated_stake),
    decreases accounts.len(),
{
    if accounts.len() > 0 && accounts[0].node_pubkey@ != node {
        let rest = accounts.drop_first();
        lemma_stake_of_first_match(rest, node, k - 1);
        if exists|j: int| 0 <= j < accounts.len() && (#[trigger] accounts[j]).node_pubkey@ == node {
            let j = choose|j: int|
                0 <= j < accounts.len() && (#[trigger] accounts[j]).node_pubkey@ == node;
            assert(rest[j - 1].node_pubkey@ == node);
        }
        if exists|j: int| 0 <= j < rest.len() && (#[trigger] rest[j]).node_pubkey@ == node {
            let j = choose|j: int| 0 <= j < rest.len() && (#[trigger] rest[j]).node_pubkey@ == node;
            assert(accounts[j + 1].node_pubkey@ == node);
        }
        if 0 < k < accounts.len() && accounts[k].node_pubkey@ == node && (forall|j: int|
            0 <= j < k ==> (#[trigger] accounts[j]).node_pubkey@ != node) {
            assert(rest[k - 1] == accounts[k]);
            assert forall|j: int| 0 <= j < k - 1 implies (#[trigger] rest[j]).node_pubkey@
                != node by {
                assert(rest[j] == accounts[j + 1]);
            }
        }
    } else if accounts.len() > 0 {
        assert(accounts[0].node_pubkey@ == node);
    }
}

/// Whose stake is found. The stake of a node is that of its first vote account. It is
/// not found exactly where the vote accounts could not be had or none is the
/// node's. Without a node only the total is asked for.
pub proof fn law_stake_is_that_of_the_first_match(
    accounts: Seq<VoteAccount>,
    node: Seq<char>,
    k: int,
)
    ensures
        stake_outcome(None, None) is None,
        stake_outcome(None, Some(node)) is None,
        (stake_outcome(Some(accounts), None) matches Some((stake, _)) && stake is None),
        stake_outcome(Some(accounts), Some(node)) is None <==> (forall|j: int|
            0 <= j < accounts.len() ==> (#[trigger] accounts[j]).node_pubkey@ != node),
        0 <= k < accounts.len() && accounts[k].node_pubkey@ == node && (forall|j: int|
            0 <= j < k ==> (#[trigger] accounts[j]).node_pubkey@ != node) ==> (stake_outcome(
            Some(accounts),
            Some(node),
        ) matches Some((stake, total)) && stake == Some(accounts[k].activated_stake) && Some(
            (None::<u64>, total),
        ) == stake_outcome(Some(accounts), None)),
{
    lemma_stake_of_first_match(accounts, node, k);
}

/// The total stake is the sum over all vote accounts: none at first, and each further
/// account adds its own.
pub proof fn law_total_stake_adds_up(accounts: Seq<VoteAccount>, account: VoteAccount)
    requires
        stakes_fit(Some(accounts.push(account))),
    ensures
        stake_outcome(Some(Seq::empty()), None) == Some((None::<u64>, 0u64)),
        ({
            let before = stake_outcome(Some(accounts), None);
            let after = stake_outcome(Some(accounts.push(account)), None);
            &&& before matches Some((_, total))
            &&& after matches Some((_, new_total))
            &&& new_total == total + account.activated_stake
        }),
{
    lemma_stake_sum_of_prefix(accounts, account, accounts.len() as int);
    lemma_stake_sum_grows(accounts, 0, accounts.len() as int);
    assert(accounts.push(account)[accounts.len() as int] == account);
}

proof fn lemma_stake_sum_of_prefix(accounts: Seq<VoteAccount>, account: VoteAccount, count: int)
    requires
        count <= accounts.len(),
    ensures
        stake_sum(accounts.push(account), count) == stake_sum(accounts, count),
    decreases count,
{
    if count > 0 {
        lemma_stake_sum_of_prefix(accounts, account, count - 1);
    }
}

/// By how many streams a run sizes its batches. Where vote accounts could not be had,
/// or the first identity is not among them, by 8. Without an identity by the 128 of
/// an unstaked connection. Where its stake is found, the share is asked for first,
/// and then counts on top of 128, up to 512.
pub proof fn law_batches_are_sized_by_the_stake(
    plan: RunPlan,
    state: ClientState,
    answer: Vec<VoteAccount>,
    id: [u8; 32],
    k: int,
    scaled_share: usize,
)
    requires
        stakes_fit(Some(answer@)),
    ensures
        client_turn(plan, state, ClientEvent::VoteAccountsAnswered(None)) == sized_turn(
            plan,
            state,
            8,
        ),
        state.first_identity is None ==> client_turn(
            plan,
            state,
            ClientEvent::VoteAccountsAnswered(Some(answer)),
        ) == sized_turn(plan, state, 128),
        state.first_identity == Some(id) && (forall|j: int|
            0 <= j < answer@.len() ==> (#[trigger] answer@[j]).node_pubkey@
                != wire::address_notation(id@)) ==> client_turn(
            plan,
            state,
            ClientEvent::VoteAccountsAnswered(Some(answer)),
        ) == sized_turn(plan, state, 8),
        state.first_identity == Some(id) && 0 <= k < answer@.len() && answer@[k].node_pubkey@
            == wire::address_notation(id@) && (forall|j: int|
            0 <= j < k ==> (#[trigger] answer@[j]).node_pubkey@ != wire::address_notation(id@))
            ==> (client_turn(
            plan,
            state,
            ClientEvent::VoteAccountsAnswered(Some(answer)),
        ).1 matches ClientActionView::ScaleShare { peer_stake, total_stake } && peer_stake
            == answer@[k].activated_stake && stake_outcome(Some(answer@), None) == Some(
            (None::<u64>, total_stake),
        )),
        state.phase matches ClientPhase::ScalingShare { peer_stake, total_stake } ==> {
            let event = ClientEvent::ShareScaled { scaled_share };
            let usual = 0 < total_stake && peer_stake <= total_stake;
            &&& usual && scaled_share <= 384 ==> client_turn(plan, state, event) == sized_turn(
                plan,
                state,
                (128 + scaled_share) as usize,
            )
            &&& usual && scaled_share > 384 ==> client_turn(plan, state, event) == sized_turn(
                plan,
                state,
                512,
            )
            &&& !usual ==> client_turn(plan, state, event) == sized_turn(plan, state, 128)
        },
{
    law_stake_is_that_of_the_first_match(answer@, wire::address_notation(id@), k);
}

/// What a run does once the number of streams is known. It keeps the size of its
/// batches and the number of its workers. It fails where the transfers of a batch
/// are more than the amounts there are, or fewer than the conflict groups.
/// Otherwise it looks for the padding program where transfers are padded, the one
/// that was named or else the SPL one, and asks for the blockhash where not.
pub proof fn law_batches_are_checked(plan: RunPlan, state: ClientState, streams: usize)
    requires
        plan.well_formed(),
        streams >= 1,
    ensures
        ({
            let (after, action) = sized_turn(plan, state, streams);
            let params = plan.transaction_params;
            let transfers = params.simple_transfer_tx_params;
            let target_tps = plan.execution_params.target_tps;
            let size = send_batch_size_of(transfers.tx_batch_size, streams, target_tps);
            let count = transfers.num_send_instructions_per_tx * size;
            let too_many = count > transfers.max_lamports_to_transfer;
            let too_few = transfers.num_conflict_groups matches Some(groups) && groups > count;
            &&& after.send_batch_size == size
            &&& after.workers_pull_size == workers_of(
                plan.execution_params.workers_pull_size,
                size as usize,
                target_tps,
            )
            &&& count <= usize::MAX && (too_many || too_few) ==> (action matches
                ClientActionView::Fail(ErrorView::InvalidCliArguments(_)))
            &&& count <= usize::MAX && !too_many && !too_few
                ==> match params.padding_params.instruction_padding_data_size {
                Some(_) => action matches ClientActionView::GetAccount { program_id }
                    && match params.padding_params.instruction_padding_program_id {
                    Some(id) => program_id == id@,
                    None => program_id == wire::spl_padding_program(),
                },
                None => action is GetLatestBlockhash,
            }
            &&& count > usize::MAX > transfers.max_lamports_to_transfer ==> (action matches
                ClientActionView::Fail(ErrorView::InvalidCliArguments(_)))
            &&& action is Fail || action is GetAccount || action is GetLatestBlockhash
        }),
{
    law_size_of_batches(
        plan.transaction_params.simple_transfer_tx_params.tx_batch_size,
        streams,
        plan.execution_params.target_tps,
    );
    if let Some(target_tps) = plan.execution_params.target_tps {
        law_workers_stay_in_bounds(
            plan.execution_params.workers_pull_size,
            send_batch_size_of(
                plan.transaction_params.simple_transfer_tx_params.tx_batch_size,
                streams,
                Some(target_tps),
            ) as usize,
            target_tps,
        );
    }
}

/// What was sized stays: no later turn changes batches, workers or identities.
pub proof fn law_sizes_stay(plan: RunPlan, state: ClientState, event: ClientEvent)
    requires
        state.awaits(event),
    ensures
        ({
            let after = client_turn(plan, state, event).0;
            &&& !(event is VoteAccountsAnswered) && !(event is ShareScaled) ==> {
                &&& after.send_batch_size == state.send_batch_size
                &&& after.workers_pull_size == state.workers_pull_size
            }
            &&& !(event is IdentitiesRead) ==> {
                &&& after.num_identities == state.num_identities
                &&& after.first_identity == state.first_identity
            }
        }),
{
}

/// Which blockhashes a run signs with. With stale slots it first checks that blocks
/// so many slots back can be had, and starts an updater for so many slots only
/// then. With stale seconds it starts an updater with that delay. Without either it
/// starts one for the freshest blockhash.
pub proof fn law_updater_follows_the_plan(plan: RunPlan, state: ClientState, event: ClientEvent)
    requires
        state.awaits(event),
    ensures
        ({
            let action = client_turn(plan, state, event).1;
            let slots = plan.execution_params.blockhash_stale_slots;
            let secs = plan.execution_params.blockhash_stale_secs;
            &&& action matches ClientActionView::StartUpdater(choice) ==> {
                &&& slots > 0 ==> choice == BlockhashChoice::StaleSlots(slots)
                    && event is AgedBlockhashChecked
                &&& slots == 0 && secs > 0 ==> (choice matches BlockhashChoice::StaleFor(nanos)
                    && nanos == secs * 1_000_000_000)
                &&& slots == 0 && secs == 0 ==> choice == BlockhashChoice::Freshest
            }
            &&& event is BlockhashAnswered && slots > 0 ==> action
                == (ClientActionView::CheckAgedBlockhash { stale_slots: slots })
            &&& event is BlockhashAnswered && slots == 0 ==> action is StartUpdater
            &&& (event matches ClientEvent::AgedBlockhashChecked(Ok(_))) ==> action is StartUpdater
        }),
{
}

/// With stale seconds, and only then, a run sleeps between its updater and its
/// generator: for that many seconds and two more, or for as long as a duration can
/// say.
pub proof fn law_priming_lasts_as_long_as_the_age(plan: RunPlan, state: ClientState)
    requires
        state.phase is StartingUpdater,
    ensures
        ({
            let (after, action) = client_turn(plan, state, ClientEvent::Proceeded);
            let slots = plan.execution_params.blockhash_stale_slots;
            let secs = plan.execution_params.blockhash_stale_secs;
            &&& slots == 0 && secs > 0 ==> after.phase is Priming && action is Sleep
            &&& slots == 0 && 0 < secs <= u64::MAX - 2 ==> (action matches ClientActionView::Sleep {
                nanos,
            } && nanos == (secs + 2) * 1_000_000_000)
            &&& slots == 0 && secs > u64::MAX - 2 ==> action == (ClientActionView::Sleep {
                nanos: 18_446_744_073_709_551_615_999_999_999,
            })
            &&& slots > 0 || secs == 0 ==> action is StartGenerator || action is Fail
        }),
{
}

/// How a run goes on where nothing fails. The schedulers are started one after the
/// other, all of them, then the statistics go out and the generator is awaited.
/// When it is done the run sleeps for the drain time, where there is one, closes
/// the channels, awaits the updater and then the schedulers one after the other,
/// all of them, and is complete only after the last.
pub proof fn law_services_are_started_and_wound_up_in_order(plan: RunPlan, state: ClientState)
    requires
        client_consistent(state),
    ensures
        ({
            let proceeded = client_turn(plan, state, ClientEvent::Proceeded).1;
            let started = client_turn(plan, state, ClientEvent::SchedulerStarted(Ok(()))).1;
            let joined = client_turn(plan, state, ClientEvent::Joined(TaskOutcome::Completed)).1;
            let clients: int = if state.num_identities == 0 {
                1
            } else {
                state.num_identities as int
            };
            let drain = plan.execution_params.drain_seconds;
            match state.phase {
                ClientPhase::StartingGenerator => proceeded matches
                    ClientActionView::StartScheduler(order) && order.index == 0,
                ClientPhase::StartingScheduler { index } => {
                    &&& index + 1 < clients ==> (started matches ClientActionView::StartScheduler(
                        order,
                    ) && order.index == index + 1)
                    &&& index + 1 == clients ==> started is ReportStats
                },
                ClientPhase::ReportingStats => proceeded is JoinGenerator,
                ClientPhase::JoiningGenerator => {
                    &&& drain == 0 ==> joined is CloseChannels
                    &&& drain > 0 ==> (joined matches ClientActionView::Sleep { nanos } && nanos
                        == drain * 1_000_000_000)
                },
                ClientPhase::Draining => proceeded is CloseChannels,
                ClientPhase::ClosingChannels => proceeded is JoinUpdater,
                ClientPhase::JoiningUpdater => joined == (ClientActionView::JoinScheduler {
                    index: 0,
                }),
                ClientPhase::JoiningScheduler { index } => {
                    &&& index + 1 < clients ==> (joined matches ClientActionView::JoinScheduler {
                        index: next,
                    } && next == index + 1)
                    &&& index + 1 == clients ==> joined is Finish
                },
                _ => true,
            }
        }),
{
}

/// A run that fails says why: an error that it is told of ends it, and is its own.
pub proof fn law_errors_end_the_run(
    plan: RunPlan,
    state: ClientState,
    error: BenchClientError,
    words: String,
)
    requires
        state.awaits(ClientEvent::Joined(TaskOutcome::Completed)),
    ensures
        client_turn(plan, state, ClientEvent::IdentitiesRead(None)).1 == ClientActionView::Fail(
            ErrorView::KeypairReadFailure,
        ),
        client_turn(plan, state, ClientEvent::AgedBlockhashChecked(Err(words))).1
            == ClientActionView::Fail(ErrorView::InvalidCliArguments(words@)),
        client_turn(plan, state, ClientEvent::SchedulerStarted(Err(error))).1
            == ClientActionView::Fail(error@),
        client_turn(plan, state, ClientEvent::Joined(TaskOutcome::Failed(error))).1
            == ClientActionView::Fail(error@),
        (client_turn(
            plan,
            state,
            ClientEvent::Joined(TaskOutcome::NotJoined { reason: words }),
        ).1 matches ClientActionView::Fail(ErrorView::TaskJoinFailure { task_name: _, reason })
            && reason == words@),
        (client_turn(plan, state, ClientEvent::AccountAnswered(Err(words))).1 matches
            ClientActionView::Fail(ErrorView::InvalidCliArguments(_))),
        client_turn(plan, state, ClientEvent::AccountAnswered(Ok(()))).1 is GetLatestBlockhash,
{
}

/// A run never gets stuck: whatever it asks for, it takes the answer, and once it is
/// over nothing is awaited.
pub proof fn law_what_is_asked_for_is_awaited(
    plan: RunPlan,
    state: ClientState,
    event: ClientEvent,
    identities: Option<Vec<[u8; 32]>>,
    accounts: Option<Vec<VoteAccount>>,
    scaled_share: usize,
    found: Result<(), String>,
    started: Result<(), BenchClientError>,
    outcome: TaskOutcome,
)
    requires
        state.awaits(event),
        accounts matches Some(accounts) ==> stake_sum(accounts@, accounts@.len() as int)
            <= u64::MAX,
    ensures
        initial_client_state().awaits(ClientEvent::Started),
        ({
            let (after, action) = client_turn(plan, state, event);
            &&& action is ReadIdentities <==> after.awaits(ClientEvent::IdentitiesRead(identities))
            &&& action is GetVoteAccounts <==> after.awaits(
                ClientEvent::VoteAccountsAnswered(accounts),
            )
            &&& action is ScaleShare <==> after.awaits(ClientEvent::ShareScaled { scaled_share })
            &&& action is GetAccount <==> after.awaits(ClientEvent::AccountAnswered(found))
            &&& action is GetLatestBlockhash <==> after.awaits(ClientEvent::BlockhashAnswered)
            &&& action is CheckAgedBlockhash <==> after.awaits(
                ClientEvent::AgedBlockhashChecked(found),
            )
            &&& action is StartUpdater || action is Sleep || action is StartGenerator
                || action is ReportStats || action is CloseChannels <==> after.awaits(
                ClientEvent::Proceeded,
            )
            &&& action is StartScheduler <==> after.awaits(ClientEvent::SchedulerStarted(started))
            &&& action is JoinGenerator || action is JoinUpdater || action is JoinScheduler
                <==> after.awaits(ClientEvent::Joined(outcome))
            &&& !after.awaits(ClientEvent::Started)
        }),
{
}

/// How a run begins: it is refused where blockhashes are to be aged both by slots and
/// by seconds, and else reads its identities, then the vote accounts.
pub proof fn law_how_a_run_begins(plan: RunPlan, state: ClientState, identities: Vec<[u8; 32]>)
    requires
        identities@.len() <= usize::MAX,
    ensures
        ({
            let slots = plan.execution_params.blockhash_stale_slots;
            let secs = plan.execution_params.blockhash_stale_secs;
            let first = client_turn(plan, state, ClientEvent::Started).1;
            let (after, second) = client_turn(
                plan,
                state,
                ClientEvent::IdentitiesRead(Some(identities)),
            );
            &&& slots > 0 && secs > 0 ==> (first matches ClientActionView::Fail(
                ErrorView::InvalidCliArguments(_),
            ))
            &&& slots == 0 || secs == 0 ==> first is ReadIdentities
            &&& second is GetVoteAccounts
            &&& after.num_identities == identities@.len()
            &&& identities@.len() > 0 ==> after.first_identity == Some(identities@[0])
            &&& identities@.len() == 0 ==> after.first_identity is None
        }),
{
}

/// A task that was not joined is named in the error: the generator, the updater, or a
/// scheduler with its number.
pub proof fn law_unjoined_tasks_are_named(plan: RunPlan, state: ClientState, words: String)
    ensures
        ({
            let event = ClientEvent::Joined(TaskOutcome::NotJoined { reason: words });
            let action = client_turn(plan, state, event).1;
            match state.phase {
                ClientPhase::JoiningGenerator => action == ClientActionView::Fail(
                    ErrorView::TaskJoinFailure {
                        task_name: "TransactionGenerator"@,
                        reason: words@,
                    },
                ),
                ClientPhase::JoiningUpdater => action == ClientActionView::Fail(
                    ErrorView::TaskJoinFailure { task_name: "BlockhashUpdater"@, reason: words@ },
                ),
                ClientPhase::JoiningScheduler { index } => action == ClientActionView::Fail(
                    ErrorView::TaskJoinFailure {
                        task_name: "Scheduler-"@ + text::decimal(index as nat),
                        reason: words@,
                    },
                ),
                _ => true,
            }
        }),
{
}

/// A task is reported as it ended: nothing where it completed, its own error where it
/// failed, and its name and the reason where it could not be joined.
pub proof fn law_tasks_are_reported_as_they_ended(
    task: Seq<char>,
    error: BenchClientError,
    words: String,
)
    ensures
        task_error(TaskOutcome::Completed, task) is None,
        task_error(TaskOutcome::Failed(error), task) == Some(error@),
        task_error(TaskOutcome::NotJoined { reason: words }, task) == Some(
            ErrorView::TaskJoinFailure { task_name: task, reason: words@ },
        ),
{
}

/// A connection is staked exactly where a stake was found for it, and by that stake;
/// a node is looked up by the notation of its own address.
pub proof fn law_peers_are_classed_by_their_stake(stake: u64, id: [u8; 32])
    ensures
        peer_type_of(Some(stake)) == ConnectionPeerType::Staked(stake),
        peer_type_of(None) == ConnectionPeerType::Unstaked,
        notation_of(Some(&id)) == Some(wire::address_notation(id@)),
        notation_of(None) is None,
{
}

/// Which plans can be worked by: those in which no batch size, no rate and no period
/// is zero.
pub proof fn law_which_plans_are_well_formed(plan: RunPlan)
    ensures
        plan.well_formed() <==> {
            &&& plan.transaction_params.simple_transfer_tx_params.tx_batch_size matches Some(size)
                ==> size > 0
            &&& plan.execution_params.target_tps matches Some(rate) ==> rate > 0
            &&& plan.execution_params.priority_fee_params.priority_fee_schedule_period_ms matches
                Some(period) ==> period > 0
        },
{
}

/// What a run asks for is what it says: the views hide nothing.
pub proof fn law_client_views(
    peer_stake: u64,
    total_stake: u64,
    program_id: [u8; 32],
    choice: BlockhashChoice,
    nanos: u128,
    settings: GeneratorSettings,
    mode: PriorityFeeMode,
    order: SchedulerOrder,
    index: usize,
    error: BenchClientError,
)
    ensures
        (ClientAction::ScaleShare { peer_stake, total_stake })@ == (ClientActionView::ScaleShare {
            peer_stake,
            total_stake,
        }),
        (ClientAction::GetAccount { program_id })@ == (ClientActionView::GetAccount {
            program_id: program_id@,
        }),
        (ClientAction::CheckAgedBlockhash { stale_slots: peer_stake })@
            == (ClientActionView::CheckAgedBlockhash { stale_slots: peer_stake }),
        ClientAction::StartUpdater(choice)@ == ClientActionView::StartUpdater(choice),
        (ClientAction::Sleep { nanos })@ == (ClientActionView::Sleep { nanos }),
        (ClientAction::StartGenerator { settings, mode })@ == (ClientActionView::StartGenerator {
            settings,
            mode: mode@,
        }),
        ClientAction::StartScheduler(order)@ == ClientActionView::StartScheduler(order),
        (ClientAction::JoinScheduler { index })@ == (ClientActionView::JoinScheduler { index }),
        ClientAction::Fail(error)@ == ClientActionView::Fail(error@),
        ClientAction::ReadIdentities@ is ReadIdentities,
        ClientAction::GetVoteAccounts@ is GetVoteAccounts,
        ClientAction::GetLatestBlockhash@ is GetLatestBlockhash,
        ClientAction::ReportStats@ is ReportStats,
        ClientAction::JoinGenerator@ is JoinGenerator,
        ClientAction::CloseChannels@ is CloseChannels,
        ClientAction::JoinUpdater@ is JoinUpdater,
        ClientAction::Finish@ is Finish,
{
}

/// Why a batch is refused: the message for too many transfers quotes the amounts
/// there are, the transfers of a batch, those of a transaction and the batch size; the
/// one for too many conflict groups quotes the groups, the transfers of a transaction
/// and the batch size. Too many transfers are said first.
pub proof fn law_batch_refusals_say_why(params: TransactionParams, size: usize)
    requires
        params.simple_transfer_tx_params.num_send_instructions_per_tx * size <= usize::MAX,
    ensures
        ({
            let transfers = params.simple_transfer_tx_params;
            let n = transfers.num_send_instructions_per_tx;
            let count = n * size;
            let max = transfers.max_lamports_to_transfer;
            &&& count > max ==> exists|
                a: Seq<char>,
                b: Seq<char>,
                c: Seq<char>,
                d: Seq<char>,
                e: Seq<char>,
            |
                batch_fault(params, size) == Some(
                    #[trigger] (a + text::decimal(max as nat) + b + text::decimal(count as nat) + c
                        + text::decimal(n as nat) + d + text::decimal(size as nat) + e),
                )
            &&& count <= max ==> match transfers.num_conflict_groups {
                Some(groups) if groups > count => exists|
                    a: Seq<char>,
                    b: Seq<char>,
                    c: Seq<char>,
                    d: Seq<char>,
                |
                    batch_fault(params, size) == Some(
                        #[trigger] (a + text::decimal(groups as nat) + b + text::decimal(n as nat)
                            + c + text::decimal(size as nat) + d),
                    ),
                _ => batch_fault(params, size) is None,
            }
        }),
{
    let transfers = params.simple_transfer_tx_params;
    let n = transfers.num_send_instructions_per_tx;
    let count = n * size;
    let max = transfers.max_lamports_to_transfer;
    assert(0 <= count) by (nonlinear_arith)
        requires
            count == n * size,
    ;
    let a = "--max-lamports-to-transfer ("@;
    let b = ") must be >= transfer instructions per generated batch ("@;
    let c = ") ; computed as num-send-instructions-per-tx ("@;
    let d = ") * tx-batch-size ("@;
    let e = ")"@;
    assert(lamports_error(max, count as nat, n as nat, size as nat) == a + text::decimal(
        max as nat,
    ) + b + text::decimal(count as nat) + c + text::decimal(n as nat) + d + text::decimal(
        size as nat,
    ) + e);
    if let Some(groups) = transfers.num_conflict_groups {
        let a = "--num-conflict-groups ("@;
        let b = ") must be <= num-send-instructions-per-tx ("@;
        assert(groups_error(groups as nat, n as nat, size as nat) == a + text::decimal(
            groups as nat,
        ) + b + text::decimal(n as nat) + d + text::decimal(size as nat) + e);
    }
}

/// Where the padding program is not there, the error quotes its address and the
/// node's words.
pub proof fn law_missing_padding_program_is_named(plan: RunPlan, state: ClientState, words: String)
    ensures
        ({
            let program = match plan.transaction_params.padding_params.instruction_padding_program_id {
                Some(id) => id@,
                None => wire::spl_padding_program(),
            };
            let action = client_turn(plan, state, ClientEvent::AccountAnswered(Err(words))).1;
            let notation = wire::address_notation(program);
            action matches ClientActionView::Fail(ErrorView::InvalidCliArguments(message))
                && quotes(message, notation, words@)
        }),
{
    let program = padding_program(plan.transaction_params);
    let a = "instruction padding program "@;
    let b = " is not available: "@;
    let notation = wire::address_notation(program);
    assert(padding_error(notation, words@) == a + notation + b + words@);
    assert(quotes(padding_error(notation, words@), notation, words@));
}

/// A message that quotes one text and ends with another.
pub open spec fn quotes(message: Seq<char>, first: Seq<char>, second: Seq<char>) -> bool {
    exists|a: Seq<char>, b: Seq<char>| message == #[trigger] (a + first + b + second)
}

} // verus!
