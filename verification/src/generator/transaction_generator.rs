//! Service generating serialized transactions in batches: when a batch is due, how
//! large it is, from which payers it draws, and to which channel it goes.
//!
//! Reading clocks and channels, sleeping and running tasks happen outside. The
//! [`TransactionGenerator`] is told what happened and says what to do next.
use vstd::prelude::*;
use vstd::string::*;
use crate::cli::{InstructionPaddingConfig, TransactionParams};
use crate::generator::transaction_builder;
use crate::priority_fee;
use crate::priority_fee::{PremiumPlan, PriorityFeeMode};
use crate::wire::{InstructionView, Keypair};

verus! {

pub const COMPUTE_BUDGET_INSTRUCTION_CU_COST: u32 = 150;

pub const SIMPLE_TRANSFER_INSTRUCTION_CU_COST: u32 = 150;

pub const PADDED_TRANSFER_INSTRUCTION_CU_COST: u32 = 3_000;

/// Why the generator gave up.
#[derive(Clone, Copy, Debug, PartialEq, Eq, Structural)]
pub enum TransactionGeneratorError {
    /// Nobody takes transactions any more.
    ReceiverDropped,
    /// The compute-unit budget is too small for the transactions asked for.
    GenerateTxBatchFailure,
}

impl TransactionGeneratorError {
    /// The error in words.
    pub open spec fn words(self) -> Seq<char> {
        match self {
            TransactionGeneratorError::ReceiverDropped =>
                "Transactions receiver has been dropped unexpectedly."@,
            TransactionGeneratorError::GenerateTxBatchFailure =>
                "Failed to generate transaction batch."@,
        }
    }

    /// Puts the error into words.
    pub fn message(&self) -> (text: String)
        ensures
            text@ == self.words(),
    {
        match self {
            TransactionGeneratorError::ReceiverDropped =>
                "Transactions receiver has been dropped unexpectedly.".to_string(),
            TransactionGeneratorError::GenerateTxBatchFailure =>
                "Failed to generate transaction batch.".to_string(),
        }
    }
}

/// The payer accounts of a run.
pub struct AccountsFile {
    pub payers: Vec<Keypair>,
}

/// The kinds of transactions that can be generated.
#[derive(Clone, Copy, Debug, PartialEq, Eq, Structural)]
pub enum TransactionType {
    Transfer,
}

/// How many compute-budget instructions a transaction holds. A legacy transaction
/// has the limit, the price where there is one, and the limit on loaded data
/// where transfers are padded. A V1 transaction has these settings in its
/// message instead.
pub open spec fn compute_budget_count(params: TransactionParams, price: Option<u64>) -> nat {
    if params.use_txv1 {
        0
    } else {
        1 + (if price is Some {
            1nat
        } else {
            0nat
        }) + (if params.padding_params.instruction_padding_data_size is Some {
            1nat
        } else {
            0nat
        })
    }
}

/// What one transfer instruction costs.
pub open spec fn transfer_cost(params: TransactionParams) -> nat {
    if params.padding_params.instruction_padding_data_size is Some {
        PADDED_TRANSFER_INSTRUCTION_CU_COST as nat
    } else {
        SIMPLE_TRANSFER_INSTRUCTION_CU_COST as nat
    }
}

/// The compute units that a transfer transaction needs at least. The number of
/// instructions is taken modulo 2^32.
pub open spec fn min_cu_budget(params: TransactionParams, price: Option<u64>) -> nat {
    compute_budget_count(params, price) * COMPUTE_BUDGET_INSTRUCTION_CU_COST as nat + transfer_cost(
        params,
    ) * (params.simple_transfer_tx_params.num_send_instructions_per_tx as nat % 0x1_0000_0000)
}

/// Computes the compute units that a transfer transaction needs at least.
pub fn compute_transfer_tx_min_cu_budget(
    transaction_params: &TransactionParams,
    compute_unit_price: Option<u64>,
) -> (units: u32)
    requires
        min_cu_budget(*transaction_params, compute_unit_price) <= u32::MAX,
    ensures
        units == min_cu_budget(*transaction_params, compute_unit_price),
{
    let use_instruction_padding: bool =
        transaction_params.padding_params.instruction_padding_data_size.is_some();
    let per_instruction_cu_cost: u32 = if use_instruction_padding {
        PADDED_TRANSFER_INSTRUCTION_CU_COST
    } else {
        SIMPLE_TRANSFER_INSTRUCTION_CU_COST
    };
    let compute_budget_instructions_count: u32 = if transaction_params.use_txv1 {
        0
    } else {
        1 + (if compute_unit_price.is_some() {
            1u32
        } else {
            0u32
        }) + (if use_instruction_padding {
            1u32
        } else {
            0u32
        })
    };
    let instructions: u32 = (
    transaction_params.simple_transfer_tx_params.num_send_instructions_per_tx as u64
        % 0x1_0000_0000) as u32;
    assert(0 <= per_instruction_cu_cost * instructions) by (nonlinear_arith)
        requires
            0 <= per_instruction_cu_cost,
            0 <= instructions,
    ;
    compute_budget_instructions_count * COMPUTE_BUDGET_INSTRUCTION_CU_COST
        + per_instruction_cu_cost * instructions
}

/// The minimum budget counts every instruction that the transaction will hold, at
/// whatever fee the priority-fee mode adds. There is one exception: an active mode
/// puts a price into a legacy transaction even where none is configured, and that
/// instruction is not counted.
pub proof fn law_min_budget_counts_every_instruction(
    params: TransactionParams,
    compute_unit_price: Option<u64>,
    mode: PriorityFeeMode,
    fee: u64,
    body: Seq<InstructionView>,
    transaction_cu_budget: u32,
    padding: Option<&InstructionPaddingConfig>,
)
    requires
        padding is Some <==> params.padding_params.instruction_padding_data_size is Some,
    ensures
        transaction_builder::compiled_instructions(
            body,
            transaction_cu_budget,
            padding,
            transaction_builder::effective_price(compute_unit_price, mode, fee),
            params.use_txv1,
        ).len() == compute_budget_count(params, compute_unit_price) + body.len() + (if !(
        mode is BaseOnly) && compute_unit_price is None && !params.use_txv1 {
            1int
        } else {
            0int
        }),
{
}

/// Nanoseconds between batches that keep up a rate: `size` transactions at
/// `target_tps` per second, rounded up, at most what fits 64 bits.
pub open spec fn batch_interval(size: nat, target_tps: nat) -> nat {
    let nanos = (size * 1_000_000_000 + target_tps - 1) as nat / target_tps;
    if nanos <= u64::MAX {
        nanos
    } else {
        u64::MAX as nat
    }
}

/// Computes the time between batches in nanoseconds.
pub fn compute_batch_interval(send_batch_size: usize, target_tps: u64) -> (nanos: u64)
    requires
        target_tps > 0,
    ensures
        nanos == batch_interval(send_batch_size as nat, target_tps as nat),
{
    let nanos: u128 = (send_batch_size as u128 * 1_000_000_000 + (target_tps as u128 - 1))
        / target_tps as u128;
    if nanos <= u64::MAX as u128 {
        nanos as u64
    } else {
        u64::MAX
    }
}

/// What a generator works by.
#[derive(Clone, Debug, PartialEq)]
pub struct GeneratorSettings {
    /// How many payer accounts there are.
    pub num_payers: usize,
    /// How many channels take batches.
    pub num_senders: usize,
    pub transaction_params: TransactionParams,
    pub compute_unit_price: Option<u64>,
    /// Transactions per batch.
    pub send_batch_size: usize,
    /// Limit on the run time, in nanoseconds.
    pub run_duration: Option<u128>,
    /// Limit on the number of transactions.
    pub num_transactions: Option<u64>,
    /// Target rate in transactions per second.
    pub target_tps: Option<u64>,
    /// How many batches may be in flight.
    pub workers_pull_size: usize,
}

impl GeneratorSettings {
    /// Sender and receiver pairs in a batch of `size` transactions.
    pub open spec fn pairs(self, size: int) -> int {
        self.transaction_params.simple_transfer_tx_params.num_send_instructions_per_tx * size
    }

    /// Payers that a batch of `size` transactions uses up: the senders, then the
    /// receivers, of which there is one per conflict group where groups are set.
    pub open spec fn payers_used(self, size: int) -> int {
        self.pairs(size) + match self.transaction_params.simple_transfer_tx_params.num_conflict_groups {
            Some(groups) => groups as int,
            None => self.pairs(size),
        }
    }

    /// There are payers, rates are positive, and every count fits its type.
    pub open spec fn well_formed(self) -> bool {
        &&& self.num_payers > 0
        &&& self.target_tps != Some(0u64)
        &&& self.payers_used(self.send_batch_size as int) <= usize::MAX
        &&& min_cu_budget(self.transaction_params, self.compute_unit_price) <= u32::MAX
    }

    /// Whether the settings can be worked by.
    pub fn is_well_formed(&self) -> (b: bool)
        ensures
            b == self.well_formed(),
    {
        if self.num_payers == 0 {
            return false;
        }
        if let Some(target_tps) = self.target_tps {
            if target_tps == 0 {
                return false;
            }
        }
        let params: &TransactionParams = &self.transaction_params;
        let instructions: usize = params.simple_transfer_tx_params.num_send_instructions_per_tx;
        let n: u128 = instructions as u128;
        let size: u128 = self.send_batch_size as u128;
        assert(0 <= n * size <= 0xffff_ffff_ffff_ffff * 0xffff_ffff_ffff_ffff) by (nonlinear_arith)
            requires
                0 <= n <= 0xffff_ffff_ffff_ffff,
                0 <= size <= 0xffff_ffff_ffff_ffff,
        ;
        let pairs: u128 = n * size;
        let limit: u128 = usize::MAX as u128;
        if pairs > limit {
            return false;
        }
        let receivers: u128 = match params.simple_transfer_tx_params.num_conflict_groups {
            Some(groups) => groups as u128,
            None => pairs,
        };
        if pairs + receivers > limit {
            return false;
        }
        let cost: u64 = if params.padding_params.instruction_padding_data_size.is_some() {
            3_000
        } else {
            150
        };
        cost * (instructions as u64 % 0x1_0000_0000) + self.budget_instructions() * 150
            <= u32::MAX as u64
    }

    fn budget_instructions(&self) -> (count: u64)
        ensures
            count == compute_budget_count(self.transaction_params, self.compute_unit_price),
            count <= 3,
    {
        if self.transaction_params.use_txv1 {
            return 0;
        }
        let mut count: u64 = 1;
        if self.compute_unit_price.is_some() {
            count += 1;
        }
        if self.transaction_params.padding_params.instruction_padding_data_size.is_some() {
            count += 1;
        }
        count
    }

    /// The budget of the transactions covers what they need.
    pub open spec fn budget_suffices(self) -> bool {
        self.transaction_params.simple_transfer_tx_params.transfer_tx_cu_budget >= min_cu_budget(
            self.transaction_params,
            self.compute_unit_price,
        )
    }

    /// One of the limits of the run is reached.
    pub open spec fn limit_reached(self, elapsed: u128, txs_scheduled: u64) -> bool {
        ||| self.run_duration matches Some(limit) && elapsed >= limit
        ||| self.num_transactions matches Some(limit) && txs_scheduled >= limit
    }

    /// How many transactions the next batch has: a full batch, or what is left.
    pub open spec fn next_batch_size(self, txs_scheduled: u64) -> int {
        match self.num_transactions {
            Some(limit) => {
                let left = if limit > txs_scheduled {
                    limit - txs_scheduled
                } else {
                    0
                };
                if left < self.send_batch_size {
                    left
                } else {
                    self.send_batch_size as int
                }
            },
            None => self.send_batch_size as int,
        }
    }

    /// No batch is due any more.
    pub open spec fn all_scheduled(self, txs_scheduled: u64) -> bool {
        self.num_transactions matches Some(limit) && txs_scheduled >= limit
    }
}

/// What a generator waits for.
#[derive(Clone, Copy, Debug, PartialEq, Eq)]
pub enum GeneratorPhase {
    NotStarted,
    /// A look at the clock, the channels and the blockhash.
    Observing,
    /// The deadline of the next batch.
    Waiting { blockhash: [u8; 32] },
    /// A batch to be on its way.
    Spawning { blockhash: [u8; 32] },
    /// A batch to be done.
    Joining,
    /// The batches that are still on their way to be done.
    Draining,
    /// Nothing any more.
    Over,
}

/// Where a generator stands.
#[derive(Clone, Copy, Debug, PartialEq, Eq)]
pub struct GeneratorState {
    pub phase: GeneratorPhase,
    /// The first payer of the next batch.
    pub index_payer: usize,
    /// The channel of the next batch.
    pub sender_index: usize,
    pub txs_scheduled: u64,
    /// When the next batch is due, in nanoseconds since the start.
    pub next_batch_at: Option<u128>,
    /// Batches that are on their way.
    pub in_flight: usize,
}

/// What happened.
#[derive(Clone, Copy, Debug, PartialEq, Eq)]
pub enum GeneratorEvent {
    Started,
    /// A look was taken, `elapsed` nanoseconds after the start.
    Observed { elapsed: u128, all_senders_closed: bool, blockhash: [u8; 32] },
    Waited,
    BatchSpawned,
    BatchJoined,
}

/// A batch to be generated and sent.
#[derive(Clone, Copy, Debug, PartialEq, Eq)]
pub struct BatchOrder {
    pub transaction_type: TransactionType,
    pub sender_index: usize,
    pub index_payer: usize,
    /// Position of the batch's first transaction in overall send order.
    pub first_tx_index: u64,
    pub send_batch_size: usize,
    pub blockhash: [u8; 32],
}

/// What to do next.
#[derive(Clone, Copy, Debug, PartialEq, Eq)]
pub enum GeneratorAction {
    /// Look at the clock, the channels and the blockhash.
    Observe,
    /// Wait until `deadline` nanoseconds after the start.
    WaitUntil { deadline: u128 },
    /// Start a task that generates and sends this batch.
    SpawnBatch(BatchOrder),
    /// Wait for one of the tasks to be done, if there is any.
    JoinBatch,
    /// The run is complete; no task is left.
    Finish,
    /// The run is over.
    Fail(TransactionGeneratorError),
}

/// Where a generator stands before its run.
pub open spec fn initial_state(settings: GeneratorSettings) -> GeneratorState {
    GeneratorState {
        phase: GeneratorPhase::NotStarted,
        index_payer: 0,
        sender_index: 0,
        txs_scheduled: 0,
        next_batch_at: match settings.target_tps {
            Some(_) => Some(0u128),
            None => None,
        },
        in_flight: 0,
    }
}

/// The event is what a generator in this state waits for.
pub open spec fn awaits(state: GeneratorState, event: GeneratorEvent) -> bool {
    match event {
        GeneratorEvent::Started => state.phase is NotStarted,
        GeneratorEvent::Observed { .. } => state.phase is Observing,
        GeneratorEvent::Waited => state.phase is Waiting,
        GeneratorEvent::BatchSpawned => state.phase is Spawning,
        GeneratorEvent::BatchJoined => state.phase is Joining || state.phase is Draining,
    }
}

/// The state with another phase.
pub open spec fn in_phase(state: GeneratorState, phase: GeneratorPhase) -> GeneratorState {
    GeneratorState { phase, ..state }
}

/// A batch goes out, where one is still due: round robin over the channels, from
/// the payers behind those of the batch before.
pub open spec fn spawn_turn(
    settings: GeneratorSettings,
    state: GeneratorState,
    blockhash: [u8; 32],
) -> (GeneratorState, GeneratorAction) {
    if settings.all_scheduled(state.txs_scheduled) {
        (in_phase(state, GeneratorPhase::Joining), GeneratorAction::JoinBatch)
    } else {
        let size = settings.next_batch_size(state.txs_scheduled);
        let payer = state.index_payer + settings.payers_used(size);
        (
            GeneratorState {
                phase: GeneratorPhase::Spawning { blockhash },
                index_payer: ((if payer <= usize::MAX {
                    payer
                } else {
                    usize::MAX as int
                }) % settings.num_payers as int) as usize,
                sender_index: ((state.sender_index + 1) % settings.num_senders as int) as usize,
                txs_scheduled: if state.txs_scheduled + size <= u64::MAX {
                    (state.txs_scheduled + size) as u64
                } else {
                    u64::MAX
                },
                next_batch_at: match (settings.target_tps, state.next_batch_at) {
                    (Some(target_tps), Some(deadline)) => {
                        let next = deadline + batch_interval(size as nat, target_tps as nat);
                        Some(
                            if next <= u128::MAX {
                                next as u128
                            } else {
                                u128::MAX
                            },
                        )
                    },
                    _ => state.next_batch_at,
                },
                in_flight: (state.in_flight + 1) as usize,
            },
            GeneratorAction::SpawnBatch(
                BatchOrder {
                    transaction_type: TransactionType::Transfer,
                    sender_index: state.sender_index,
                    index_payer: state.index_payer,
                    first_tx_index: state.txs_scheduled,
                    send_batch_size: size as usize,
                    blockhash,
                },
            ),
        )
    }
}

/// Batches are sent while there is room in flight, each at its deadline where
/// there is one.
pub open spec fn fill_turn(
    settings: GeneratorSettings,
    state: GeneratorState,
    blockhash: [u8; 32],
) -> (GeneratorState, GeneratorAction) {
    if state.in_flight >= settings.workers_pull_size {
        (in_phase(state, GeneratorPhase::Joining), GeneratorAction::JoinBatch)
    } else if let Some(deadline) = state.next_batch_at {
        (
            in_phase(state, GeneratorPhase::Waiting { blockhash }),
            GeneratorAction::WaitUntil { deadline },
        )
    } else {
        spawn_turn(settings, state, blockhash)
    }
}

/// No batch goes out any more. The run is complete once all that are on their way
/// are done.
pub open spec fn stop_turn(state: GeneratorState) -> (GeneratorState, GeneratorAction) {
    if state.in_flight > 0 {
        (in_phase(state, GeneratorPhase::Draining), GeneratorAction::JoinBatch)
    } else {
        (in_phase(state, GeneratorPhase::Over), GeneratorAction::Finish)
    }
}

/// The state after one of the batches is done.
pub open spec fn joined(state: GeneratorState) -> GeneratorState {
    GeneratorState {
        in_flight: if state.in_flight > 0 {
            (state.in_flight - 1) as usize
        } else {
            0
        },
        ..state
    }
}

/// One turn of a run: where the generator stands afterwards, and what to do next.
pub open spec fn turn(
    settings: GeneratorSettings,
    state: GeneratorState,
    event: GeneratorEvent,
) -> (GeneratorState, GeneratorAction) {
    match (event, state.phase) {
        (GeneratorEvent::Started, _) => if settings.budget_suffices() {
            (in_phase(state, GeneratorPhase::Observing), GeneratorAction::Observe)
        } else {
            (
                in_phase(state, GeneratorPhase::Over),
                GeneratorAction::Fail(TransactionGeneratorError::GenerateTxBatchFailure),
            )
        },
        (GeneratorEvent::Observed { elapsed, all_senders_closed, blockhash }, _) => if settings.limit_reached(
            elapsed,
            state.txs_scheduled,
        ) {
            stop_turn(state)
        } else if all_senders_closed || settings.num_senders == 0 {
            (
                in_phase(state, GeneratorPhase::Over),
                GeneratorAction::Fail(TransactionGeneratorError::ReceiverDropped),
            )
        } else {
            fill_turn(settings, state, blockhash)
        },
        (GeneratorEvent::Waited, GeneratorPhase::Waiting { blockhash }) => spawn_turn(
            settings,
            state,
            blockhash,
        ),
        (GeneratorEvent::BatchSpawned, GeneratorPhase::Spawning { blockhash }) => fill_turn(
            settings,
            state,
            blockhash,
        ),
        (GeneratorEvent::BatchJoined, GeneratorPhase::Draining) => stop_turn(joined(state)),
        (GeneratorEvent::BatchJoined, _) => (
            in_phase(joined(state), GeneratorPhase::Observing),
            GeneratorAction::Observe,
        ),
        _ => (state, GeneratorAction::Observe),
    }
}

/// What holds of a generator at any time: its indices are in range, no more is in
/// flight than may be, no more is scheduled than asked for, and there is a
/// deadline exactly where there is a target rate.
pub open spec fn consistent(settings: GeneratorSettings, state: GeneratorState) -> bool {
    &&& state.index_payer < settings.num_payers
    &&& state.sender_index == 0 || state.sender_index < settings.num_senders
    &&& state.in_flight <= settings.workers_pull_size
    &&& (state.phase is Waiting || state.phase is Spawning) ==> settings.num_senders > 0
    &&& state.phase is Waiting ==> state.in_flight < settings.workers_pull_size
    &&& settings.num_transactions matches Some(limit) ==> state.txs_scheduled <= limit
    &&& settings.target_tps is Some <==> state.next_batch_at is Some
}

/// Generates batches of transactions until a limit is reached.
pub struct TransactionGenerator {
    settings: GeneratorSettings,
    state: GeneratorState,
}

impl TransactionGenerator {
    #[verifier::type_invariant]
    spec fn sound(self) -> bool {
        &&& self.settings.well_formed()
        &&& consistent(self.settings, self.state)
    }

    pub closed spec fn settings(self) -> GeneratorSettings {
        self.settings
    }

    pub closed spec fn state(self) -> GeneratorState {
        self.state
    }

    /// A generator that has not started yet.
    pub fn new(settings: GeneratorSettings) -> (generator: Self)
        requires
            settings.well_formed(),
        ensures
            generator.settings() == settings,
            generator.state() == initial_state(settings),
    {
        let next_batch_at: Option<u128> = match settings.target_tps {
            Some(_) => Some(0),
            None => None,
        };
        TransactionGenerator {
            settings,
            state: GeneratorState {
                phase: GeneratorPhase::NotStarted,
                index_payer: 0,
                sender_index: 0,
                txs_scheduled: 0,
                next_batch_at,
                in_flight: 0,
            },
        }
    }

    /// One turn of the run: takes what happened, and says what to do next.
    pub fn run(&mut self, event: GeneratorEvent) -> (action: GeneratorAction)
        requires
            awaits(old(self).state(), event),
        ensures
            final(self).settings() == old(self).settings(),
            (final(self).state(), action) == turn(
                old(self).settings(),
                old(self).state(),
                event,
            ),
            consistent(final(self).settings(), final(self).state()),
    {
        proof {
            use_type_invariant(&*self);
        }
        match event {
            GeneratorEvent::Started => {
                let params: &TransactionParams = &self.settings.transaction_params;
                let budget: u32 = params.simple_transfer_tx_params.transfer_tx_cu_budget;
                let needed: u32 = compute_transfer_tx_min_cu_budget(
                    params,
                    self.settings.compute_unit_price,
                );
                if budget < needed {
                    self.enter(GeneratorPhase::Over);
                    GeneratorAction::Fail(TransactionGeneratorError::GenerateTxBatchFailure)
                } else {
                    self.enter(GeneratorPhase::Observing);
                    GeneratorAction::Observe
                }
            },
            GeneratorEvent::Observed { elapsed, all_senders_closed, blockhash } => {
                if let Some(run_duration) = self.settings.run_duration {
                    if elapsed >= run_duration {
                        return self.stop();
                    }
                }
                if let Some(limit) = self.settings.num_transactions {
                    if self.state.txs_scheduled >= limit {
                        return self.stop();
                    }
                }
                if all_senders_closed || self.settings.num_senders == 0 {
                    self.enter(GeneratorPhase::Over);
                    return GeneratorAction::Fail(TransactionGeneratorError::ReceiverDropped);
                }
                self.fill(blockhash)
            },
            GeneratorEvent::Waited => {
                let blockhash: [u8; 32] = match self.state.phase {
                    GeneratorPhase::Waiting { blockhash } => blockhash,
                    _ => [0;32],
                };
                self.spawn(blockhash)
            },
            GeneratorEvent::BatchSpawned => {
                let blockhash: [u8; 32] = match self.state.phase {
                    GeneratorPhase::Spawning { blockhash } => blockhash,
                    _ => [0;32],
                };
                self.fill(blockhash)
            },
            GeneratorEvent::BatchJoined => {
                let in_flight: usize = self.state.in_flight.saturating_sub(1);
                self.state = GeneratorState { in_flight, ..self.state };
                if let GeneratorPhase::Draining = self.state.phase {
                    return self.stop();
                }
                self.enter(GeneratorPhase::Observing);
                GeneratorAction::Observe
            },
        }
    }

    fn enter(&mut self, phase: GeneratorPhase)
        requires
            phase is Waiting || phase is Spawning ==> old(self).settings().num_senders > 0,
            phase is Waiting ==> old(self).state().in_flight < old(
                self,
            ).settings().workers_pull_size,
        ensures
            final(self).settings() == old(self).settings(),
            final(self).state() == in_phase(old(self).state(), phase),
            consistent(final(self).settings(), final(self).state()),
    {
        proof {
            use_type_invariant(&*self);
        }
        self.state = GeneratorState { phase, ..self.state };
    }

    fn stop(&mut self) -> (action: GeneratorAction)
        ensures
            final(self).settings() == old(self).settings(),
            (final(self).state(), action) == stop_turn(old(self).state()),
            consistent(final(self).settings(), final(self).state()),
    {
        if self.state.in_flight > 0 {
            self.enter(GeneratorPhase::Draining);
            GeneratorAction::JoinBatch
        } else {
            self.enter(GeneratorPhase::Over);
            GeneratorAction::Finish
        }
    }

    fn fill(&mut self, blockhash: [u8; 32]) -> (action: GeneratorAction)
        requires
            old(self).settings().num_senders > 0,
        ensures
            final(self).settings() == old(self).settings(),
            (final(self).state(), action) == fill_turn(
                old(self).settings(),
                old(self).state(),
                blockhash,
            ),
            consistent(final(self).settings(), final(self).state()),
    {
        if self.state.in_flight >= self.settings.workers_pull_size {
            self.enter(GeneratorPhase::Joining);
            GeneratorAction::JoinBatch
        } else if let Some(deadline) = self.state.next_batch_at {
            self.enter(GeneratorPhase::Waiting { blockhash });
            GeneratorAction::WaitUntil { deadline }
        } else {
            self.spawn(blockhash)
        }
    }

    fn spawn(&mut self, blockhash: [u8; 32]) -> (action: GeneratorAction)
        requires
            old(self).settings().num_senders > 0,
            old(self).state().in_flight < old(self).settings().workers_pull_size,
        ensures
            final(self).settings() == old(self).settings(),
            (final(self).state(), action) == spawn_turn(
                old(self).settings(),
                old(self).state(),
                blockhash,
            ),
            consistent(final(self).settings(), final(self).state()),
    {
        proof {
            use_type_invariant(&*self);
        }
        let state: GeneratorState = self.state;
        let send_batch_size: usize = match self.settings.num_transactions {
            Some(limit) => {
                let remaining: u64 = limit.saturating_sub(state.txs_scheduled);
                if remaining == 0 {
                    self.enter(GeneratorPhase::Joining);
                    return GeneratorAction::JoinBatch;
                }
                if remaining < self.settings.send_batch_size as u64 {
                    remaining as usize
                } else {
                    self.settings.send_batch_size
                }
            },
            None => self.settings.send_batch_size,
        };
        let transfers = &self.settings.transaction_params.simple_transfer_tx_params;
        proof {
            let n = transfers.num_send_instructions_per_tx as int;
            let full = self.settings.send_batch_size as int;
            assert(0 <= n * send_batch_size <= n * full) by (nonlinear_arith)
                requires
                    0 <= n,
                    0 <= send_batch_size <= full,
            ;
        }
        let total_pairs: usize = transfers.num_send_instructions_per_tx * send_batch_size;
        let receivers_consumed: usize = match transfers.num_conflict_groups {
            Some(groups) => groups,
            None => total_pairs,
        };
        let index_payer: usize = state.index_payer.saturating_add(total_pairs + receivers_consumed)
            % self.settings.num_payers;
        let sender_index: usize = if state.sender_index == self.settings.num_senders - 1 {
            0
        } else {
            state.sender_index + 1
        };
        proof {
            let m = self.settings.num_senders as int;
            if state.sender_index == m - 1 {
                vstd::arithmetic::div_mod::lemma_mod_self_0(m);
            } else {
                vstd::arithmetic::div_mod::lemma_small_mod((state.sender_index + 1) as nat, m as nat);
            }
        }
        let next_batch_at: Option<u128> = match (self.settings.target_tps, state.next_batch_at) {
            (Some(target_tps), Some(deadline)) => Some(
                deadline.saturating_add(
                    compute_batch_interval(send_batch_size, target_tps) as u128,
                ),
            ),
            _ => state.next_batch_at,
        };
        self.state = GeneratorState {
            phase: GeneratorPhase::Spawning { blockhash },
            index_payer,
            sender_index,
            txs_scheduled: state.txs_scheduled.saturating_add(send_batch_size as u64),
            next_batch_at,
            in_flight: state.in_flight + 1,
        };
        GeneratorAction::SpawnBatch(
            BatchOrder {
                transaction_type: TransactionType::Transfer,
                sender_index: state.sender_index,
                index_payer: state.index_payer,
                first_tx_index: state.txs_scheduled,
                send_batch_size,
                blockhash,
            },
        )
    }
}

/// Where a generator stands after a run of events, and the batches that it has
/// ordered on the way.
pub open spec fn history(settings: GeneratorSettings, events: Seq<GeneratorEvent>) -> (
    GeneratorState,
    Seq<BatchOrder>,
)
    decreases events.len(),
{
    if events.len() == 0 {
        (initial_state(settings), Seq::empty())
    } else {
        let (before, orders) = history(settings, events.drop_last());
        let (state, action) = turn(settings, before, events.last());
        (
            state,
            match action {
                GeneratorAction::SpawnBatch(order) => orders.push(order),
                _ => orders,
            },
        )
    }
}

/// Each event of a run is one that the generator waits for.
pub open spec fn orderly(settings: GeneratorSettings, events: Seq<GeneratorEvent>) -> bool
    decreases events.len(),
{
    events.len() > 0 ==> orderly(settings, events.drop_last()) && awaits(
        history(settings, events.drop_last()).0,
        events.last(),
    )
}

/// The number of transactions in the first `count` batches.
pub open spec fn transactions_in(orders: Seq<BatchOrder>, count: int) -> int
    decreases count,
{
    if count <= 0 {
        0
    } else {
        transactions_in(orders, count - 1) + orders[count - 1].send_batch_size
    }
}

proof fn lemma_transactions_in_prefix(orders: Seq<BatchOrder>, order: BatchOrder, count: int)
    requires
        count <= orders.len(),
    ensures
        transactions_in(orders.push(order), count) == transactions_in(orders, count),
    decreases count,
{
    if count > 0 {
        lemma_transactions_in_prefix(orders, order, count - 1);
    }
}

/// One turn keeps what holds of a generator at any time.
pub proof fn lemma_turn_keeps_consistency(
    settings: GeneratorSettings,
    state: GeneratorState,
    event: GeneratorEvent,
)
    requires
        settings.well_formed(),
        consistent(settings, state),
        awaits(state, event),
    ensures
        consistent(settings, turn(settings, state, event).0),
{
    if turn(settings, state, event).1 is SpawnBatch {
        let size = settings.next_batch_size(state.txs_scheduled);
        let n =
            settings.transaction_params.simple_transfer_tx_params.num_send_instructions_per_tx as int;
        assert(0 <= n * size) by (nonlinear_arith)
            requires
                0 <= n,
                0 <= size,
        ;
        let payer = state.index_payer + settings.payers_used(size);
        let payer = if payer <= usize::MAX {
            payer
        } else {
            usize::MAX as int
        };
        vstd::arithmetic::div_mod::lemma_mod_bound(payer, settings.num_payers as int);
        vstd::arithmetic::div_mod::lemma_mod_bound(
            state.sender_index + 1,
            settings.num_senders as int,
        );
    }
}

/// Whatever happens during a run, the generator stays consistent: payer and
/// channel indices are in range, no more batches are in flight than there are
/// workers, and no more transactions are scheduled than asked for.
pub proof fn law_generator_stays_consistent(
    settings: GeneratorSettings,
    events: Seq<GeneratorEvent>,
)
    requires
        settings.well_formed(),
        orderly(settings, events),
    ensures
        consistent(settings, history(settings, events).0),
    decreases events.len(),
{
    if events.len() > 0 {
        law_generator_stays_consistent(settings, events.drop_last());
        lemma_turn_keeps_consistency(
            settings,
            history(settings, events.drop_last()).0,
            events.last(),
        );
    }
}

/// Batches go to the channels in turn: batch number `k` goes to channel `k` modulo
/// the number of channels.
pub proof fn law_batches_go_round_robin(
    settings: GeneratorSettings,
    events: Seq<GeneratorEvent>,
    k: int,
)
    requires
        settings.well_formed(),
        orderly(settings, events),
        0 <= k < history(settings, events).1.len(),
    ensures
        settings.num_senders > 0,
        history(settings, events).1[k].sender_index == k % settings.num_senders as int,
{
    lemma_round_robin(settings, events);
}

proof fn lemma_round_robin(settings: GeneratorSettings, events: Seq<GeneratorEvent>)
    requires
        settings.well_formed(),
        orderly(settings, events),
    ensures
        ({
            let (state, orders) = history(settings, events);
            let m = settings.num_senders as int;
            &&& orders.len() > 0 ==> m > 0
            &&& m > 0 ==> state.sender_index == orders.len() as int % m
            &&& forall|k: int|
                0 <= k < orders.len() ==> (#[trigger] orders[k]).sender_index == k % m
        }),
    decreases events.len(),
{
    let m = settings.num_senders as int;
    if events.len() == 0 {
        if m > 0 {
            vstd::arithmetic::div_mod::lemma_small_mod(0, m as nat);
        }
    } else {
        let (before, orders) = history(settings, events.drop_last());
        lemma_round_robin(settings, events.drop_last());
        law_generator_stays_consistent(settings, events.drop_last());
        if m > 0 {
            let j = orders.len() as int;
            vstd::arithmetic::div_mod::lemma_mod_bound(j, m);
            vstd::arithmetic::div_mod::lemma_add_mod_noop_right(1, j, m);
            vstd::arithmetic::div_mod::lemma_mod_bound(before.sender_index + 1, m);
        }
    }
}

/// The event does not show that the time limit is reached.
pub open spec fn in_time(settings: GeneratorSettings, event: GeneratorEvent) -> bool {
    match (settings.run_duration, event) {
        (Some(limit), GeneratorEvent::Observed { elapsed, .. }) => elapsed < limit,
        _ => true,
    }
}

/// No event of a run shows that the time limit is reached.
pub open spec fn all_in_time(settings: GeneratorSettings, events: Seq<GeneratorEvent>) -> bool {
    forall|k: int| 0 <= k < events.len() ==> in_time(settings, #[trigger] events[k])
}

/// A run with a transaction limit numbers its transactions without gaps, never
/// schedules more than the limit, and has scheduled exactly the limit when it
/// stops and when it finishes for any other reason than time.
pub proof fn law_transaction_limit_is_exact(
    settings: GeneratorSettings,
    events: Seq<GeneratorEvent>,
    limit: u64,
)
    requires
        settings.well_formed(),
        settings.num_transactions == Some(limit),
        orderly(settings, events),
    ensures
        ({
            let (state, orders) = history(settings, events);
            &&& transactions_in(orders, orders.len() as int) == state.txs_scheduled <= limit
            &&& forall|k: int|
                0 <= k < orders.len() ==> (#[trigger] orders[k]).first_tx_index
                    == transactions_in(orders, k)
            &&& all_in_time(settings, events) && state.phase is Draining ==> state.txs_scheduled
                == limit
            &&& all_in_time(settings, events) ==> forall|event: GeneratorEvent|
                awaits(state, event) && in_time(settings, event) && (#[trigger] turn(
                    settings,
                    state,
                    event,
                )).1 is Finish ==> state.txs_scheduled == limit
        }),
    decreases events.len(),
{
    if events.len() > 0 {
        if all_in_time(settings, events) {
            assert(in_time(settings, events[events.len() - 1]));
            assert forall|k: int| 0 <= k < events.len() - 1 implies in_time(
                settings,
                #[trigger] events.drop_last()[k],
            ) by {
                assert(in_time(settings, events[k]));
            }
        }
        let (before, orders) = history(settings, events.drop_last());
        let (state, after) = history(settings, events);
        law_transaction_limit_is_exact(settings, events.drop_last(), limit);
        law_generator_stays_consistent(settings, events);
        if let GeneratorAction::SpawnBatch(order) = turn(settings, before, events.last()).1 {
            assert forall|k: int| 0 <= k <= orders.len() implies #[trigger] transactions_in(after, k)
                == transactions_in(orders, k) by {
                lemma_transactions_in_prefix(orders, order, k);
            }
            assert(transactions_in(after, after.len() as int) == transactions_in(
                after,
                orders.len() as int,
            ) + order.send_batch_size);
        }
    }
}

/// How many premium transactions the first `count` batches hold.
pub open spec fn premiums_in(plan: PremiumPlan, orders: Seq<BatchOrder>, count: int) -> int
    decreases count,
{
    if count <= 0 {
        0
    } else {
        let order = orders[count - 1];
        premiums_in(plan, orders, count - 1) + plan.count_premiums(
            order.first_tx_index as int,
            order.first_tx_index + order.send_batch_size,
        )
    }
}

/// A run that has sent all that was asked for has sent exactly the premium
/// transactions of its plan, however the batches were cut; a run that was stopped
/// earlier has sent its proportional share.
pub proof fn law_premium_run_is_exact(
    settings: GeneratorSettings,
    events: Seq<GeneratorEvent>,
    plan: PremiumPlan,
)
    requires
        settings.well_formed(),
        settings.num_transactions == Some(plan.total),
        plan.total > 0,
        plan.premium_count <= plan.total,
        orderly(settings, events),
    ensures
        ({
            let (state, orders) = history(settings, events);
            let premiums = premiums_in(plan, orders, orders.len() as int);
            &&& premiums == state.txs_scheduled * plan.premium_count / plan.total as int
            &&& state.txs_scheduled == plan.total ==> premiums == plan.premium_count
        }),
{
    let (state, orders) = history(settings, events);
    law_transaction_limit_is_exact(settings, events, plan.total);
    lemma_premiums_of_prefix(plan, orders, orders.len() as int);
    priority_fee::law_premium_prefix_is_proportional(plan, state.txs_scheduled as int);
    priority_fee::law_premium_count_is_exact(plan);
}

proof fn lemma_premiums_of_prefix(plan: PremiumPlan, orders: Seq<BatchOrder>, count: int)
    requires
        0 <= count <= orders.len(),
        forall|k: int|
            0 <= k < orders.len() ==> (#[trigger] orders[k]).first_tx_index == transactions_in(
                orders,
                k,
            ),
    ensures
        transactions_in(orders, count) >= 0,
        premiums_in(plan, orders, count) == plan.count_premiums(0, transactions_in(orders, count)),
    decreases count,
{
    if count > 0 {
        lemma_premiums_of_prefix(plan, orders, count - 1);
        let order = orders[count - 1];
        let from = order.first_tx_index as int;
        let to = from + order.send_batch_size;
        assert(from == transactions_in(orders, count - 1));
        priority_fee::lemma_premiums_in_window(plan, 0, from);
        priority_fee::lemma_premiums_in_window(plan, from, to);
        priority_fee::lemma_premiums_in_window(plan, 0, to);
    }
}

/// A run stops ordering batches when, and only when, the first of its limits is
/// reached at a look at the clock; the time limit counts from the start of the
/// run. Once it has stopped, it goes on to wait for the batches on their way.
pub proof fn law_first_limit_stops_the_run(
    settings: GeneratorSettings,
    state: GeneratorState,
    event: GeneratorEvent,
)
    requires
        awaits(state, event),
    ensures
        ({
            let (after, action) = turn(settings, state, event);
            after.phase is Draining || action is Finish <==> state.phase is Draining || (
            event matches GeneratorEvent::Observed {
                elapsed,
                all_senders_closed: _,
                blockhash: _,
            } && settings.limit_reached(elapsed, state.txs_scheduled))
        }),
{
}

/// How many batches were reported done.
pub open spec fn batches_joined(events: Seq<GeneratorEvent>) -> nat
    decreases events.len(),
{
    if events.len() == 0 {
        0
    } else {
        batches_joined(events.drop_last()) + if events.last() is BatchJoined {
            1nat
        } else {
            0nat
        }
    }
}

/// A run is complete only when nothing is in flight any more: every batch that it
/// ordered is done.
pub proof fn law_finished_run_has_waited_for_every_batch(
    settings: GeneratorSettings,
    events: Seq<GeneratorEvent>,
)
    requires
        settings.well_formed(),
        orderly(settings, events),
        events.len() > 0,
        turn(settings, history(settings, events.drop_last()).0, events.last()).1 is Finish,
    ensures
        history(settings, events).0.in_flight == 0,
        history(settings, events).1.len() <= batches_joined(events),
{
    lemma_batches_are_in_flight_or_done(settings, events);
}

proof fn lemma_batches_are_in_flight_or_done(
    settings: GeneratorSettings,
    events: Seq<GeneratorEvent>,
)
    requires
        settings.well_formed(),
        orderly(settings, events),
    ensures
        history(settings, events).1.len() <= history(settings, events).0.in_flight
            + batches_joined(events),
    decreases events.len(),
{
    if events.len() > 0 {
        lemma_batches_are_in_flight_or_done(settings, events.drop_last());
        law_generator_stays_consistent(settings, events.drop_last());
    }
}

/// How long the first `count` batches take at the target rate, in nanoseconds.
pub open spec fn time_for(orders: Seq<BatchOrder>, count: int, target_tps: u64) -> nat
    decreases count,
{
    if count <= 0 {
        0
    } else {
        time_for(orders, count - 1, target_tps) + batch_interval(
            orders[count - 1].send_batch_size as nat,
            target_tps as nat,
        )
    }
}

/// The deadline of a batch is the sum of the intervals of those before it, however
/// long they took in fact: a batch that is late does not move those behind it.
pub proof fn law_deadline_is_the_sum_of_intervals(
    settings: GeneratorSettings,
    events: Seq<GeneratorEvent>,
    target_tps: u64,
)
    requires
        settings.well_formed(),
        settings.target_tps == Some(target_tps),
        orderly(settings, events),
    ensures
        ({
            let (state, orders) = history(settings, events);
            let time = time_for(orders, orders.len() as int, target_tps);
            let due = if time <= u128::MAX {
                time as u128
            } else {
                u128::MAX
            };
            &&& state.next_batch_at == Some(due)
            &&& forall|event: GeneratorEvent|
                awaits(state, event) ==> ((#[trigger] turn(settings, state, event)).1 matches
                    GeneratorAction::WaitUntil { deadline } ==> deadline == due)
        }),
    decreases events.len(),
{
    if events.len() > 0 {
        let (before, orders) = history(settings, events.drop_last());
        let after = history(settings, events).1;
        law_deadline_is_the_sum_of_intervals(settings, events.drop_last(), target_tps);
        law_generator_stays_consistent(settings, events.drop_last());
        if let GeneratorAction::SpawnBatch(order) = turn(settings, before, events.last()).1 {
            lemma_time_for_prefix(orders, order, orders.len() as int, target_tps);
            assert(after == orders.push(order));
        }
    }
}

proof fn lemma_time_for_prefix(
    orders: Seq<BatchOrder>,
    order: BatchOrder,
    count: int,
    target_tps: u64,
)
    requires
        count <= orders.len(),
    ensures
        time_for(orders.push(order), count, target_tps) == time_for(orders, count, target_tps),
    decreases count,
{
    if count > 0 {
        lemma_time_for_prefix(orders, order, count - 1, target_tps);
    }
}

proof fn lemma_scheduled_so_far(settings: GeneratorSettings, events: Seq<GeneratorEvent>)
    requires
        settings.well_formed(),
        orderly(settings, events),
    ensures
        ({
            let (state, orders) = history(settings, events);
            let full = settings.send_batch_size as int;
            let most = match settings.num_transactions {
                Some(limit) => limit as int,
                None => u64::MAX as int,
            };
            &&& state.txs_scheduled == if orders.len() * full <= most {
                orders.len() * full
            } else {
                most
            }
            &&& forall|k: int|
                0 <= k < orders.len() ==> {
                    let order = #[trigger] orders[k];
                    &&& order.first_tx_index == if k * full <= most {
                        k * full
                    } else {
                        most
                    }
                    &&& settings.num_transactions is None ==> order.send_batch_size == full
                    &&& settings.num_transactions matches Some(limit) ==> k * full < limit
                        && order.send_batch_size == if limit - k * full < full {
                        limit - k * full
                    } else {
                        full
                    }
                }
        }),
    decreases events.len(),
{
    let full = settings.send_batch_size as int;
    let most = match settings.num_transactions {
        Some(limit) => limit as int,
        None => u64::MAX as int,
    };
    if events.len() == 0 {
        assert(0 * full == 0);
    } else {
        lemma_scheduled_so_far(settings, events.drop_last());
        law_generator_stays_consistent(settings, events.drop_last());
        let (before, orders) = history(settings, events.drop_last());
        let (state, after) = history(settings, events);
        let n = orders.len() as int;
        if let GeneratorAction::SpawnBatch(order) = turn(settings, before, events.last()).1 {
            assert((n + 1) * full == n * full + full) by (nonlinear_arith);
            assert(n * full >= 0) by (nonlinear_arith)
                requires
                    n >= 0,
                    full >= 0,
            ;
            assert(after == orders.push(order));
            assert(after[n] == order);
            assert(after.len() == n + 1);
            assert forall|k: int| 0 <= k < after.len() implies {
                let order = #[trigger] after[k];
                &&& order.first_tx_index == if k * full <= most {
                    k * full
                } else {
                    most
                }
                &&& settings.num_transactions is None ==> order.send_batch_size == full
                &&& settings.num_transactions matches Some(limit) ==> k * full < limit
                    && order.send_batch_size == if limit - k * full < full {
                    limit - k * full
                } else {
                    full
                }
            } by {
                if k < n {
                    assert(after[k] == orders[k]);
                }
            }
        }
    }
}

/// Batches are full. Without a transaction limit every batch holds exactly the
/// configured number of transactions; with one, every batch does but the last,
/// which holds what is left. So batch number `k` begins at transaction `k` times
/// the batch size, as long as 64 bits can say so.
pub proof fn law_batches_are_full(
    settings: GeneratorSettings,
    events: Seq<GeneratorEvent>,
    k: int,
)
    requires
        settings.well_formed(),
        orderly(settings, events),
        0 <= k < history(settings, events).1.len(),
    ensures
        ({
            let order = history(settings, events).1[k];
            let full = settings.send_batch_size;
            &&& k * full <= u64::MAX ==> order.first_tx_index == k * full
            &&& match settings.num_transactions {
                None => order.send_batch_size == full,
                Some(limit) => {
                    &&& order.first_tx_index == k * full
                    &&& k * full < limit
                    &&& k * full + full <= limit ==> order.send_batch_size == full
                    &&& k * full + full > limit ==> order.send_batch_size == limit - k * full
                    &&& k + 1 < history(settings, events).1.len() ==> order.send_batch_size == full
                },
            }
        }),
{
    lemma_scheduled_so_far(settings, events);
    let orders = history(settings, events).1;
    let full = settings.send_batch_size as int;
    if k + 1 < orders.len() {
        assert((k + 1) * full == k * full + full) by (nonlinear_arith);
        assert(orders[k + 1].first_tx_index >= 0);
    }
}

/// A batch that begins with payer `first` and holds `size` transactions, and the
/// batch behind it that begins with `following`, draw their payers in turn: one
/// sender per transfer, one receiver per transfer or per conflict group, and going
/// round at the end of the list.
#[verifier::opaque]
pub open spec fn follows_in_turn(
    settings: GeneratorSettings,
    first: int,
    size: int,
    following: int,
) -> bool {
    let transfers = settings.transaction_params.simple_transfer_tx_params;
    let senders = transfers.num_send_instructions_per_tx * size;
    let receivers = match transfers.num_conflict_groups {
        Some(groups) => groups as int,
        None => senders,
    };
    let next = first + senders + receivers;
    following == (if next <= usize::MAX {
        next
    } else {
        usize::MAX as int
    }) % settings.num_payers as int
}

/// A run draws its payers in turn. The first batch begins with the first payer.
/// Each batch takes one sender per transfer and one receiver per transfer, or one
/// per conflict group where groups are set, and the next batch begins with the
/// payer behind them, going round at the end of the list.
pub proof fn law_batches_draw_payers_in_turn(
    settings: GeneratorSettings,
    events: Seq<GeneratorEvent>,
    k: int,
)
    requires
        settings.well_formed(),
        orderly(settings, events),
        0 <= k < history(settings, events).1.len(),
    ensures
        ({
            let orders = history(settings, events).1;
            let transfers = settings.transaction_params.simple_transfer_tx_params;
            let senders = transfers.num_send_instructions_per_tx * orders[k].send_batch_size;
            let receivers = match transfers.num_conflict_groups {
                Some(groups) => groups as int,
                None => senders,
            };
            let next = orders[k].index_payer + senders + receivers;
            &&& orders[0].index_payer == 0
            &&& orders[k].index_payer < settings.num_payers
            &&& next <= usize::MAX && k + 1 < orders.len() ==> orders[k + 1].index_payer == next
                % settings.num_payers as int
        }),
{
    reveal(follows_in_turn);
    lemma_payers_in_turn(settings, events);
    let orders = history(settings, events).1;
    assert(orders[k].index_payer < settings.num_payers);
    if k + 1 < orders.len() {
        assert(follows_in_turn(
            settings,
            orders[k].index_payer as int,
            orders[k].send_batch_size as int,
            orders[k + 1].index_payer as int,
        ));
    }
}

proof fn lemma_turn_draws_payers(
    settings: GeneratorSettings,
    state: GeneratorState,
    event: GeneratorEvent,
)
    requires
        settings.well_formed(),
        consistent(settings, state),
        awaits(state, event),
    ensures
        ({
            let (after, action) = turn(settings, state, event);
            match action {
                GeneratorAction::SpawnBatch(order) => {
                    &&& order.index_payer == state.index_payer
                    &&& follows_in_turn(
                        settings,
                        state.index_payer as int,
                        order.send_batch_size as int,
                        after.index_payer as int,
                    )
                },
                _ => after.index_payer == state.index_payer,
            }
        }),
{
    reveal(follows_in_turn);
    if turn(settings, state, event).1 is SpawnBatch {
        let size = settings.next_batch_size(state.txs_scheduled);
        let transfers = settings.transaction_params.simple_transfer_tx_params;
        assert(0 <= transfers.num_send_instructions_per_tx * size) by (nonlinear_arith)
            requires
                0 <= size,
        ;
        let next = state.index_payer + settings.payers_used(size);
        let next = if next <= usize::MAX {
            next
        } else {
            usize::MAX as int
        };
        vstd::arithmetic::div_mod::lemma_mod_bound(next, settings.num_payers as int);
    }
}

proof fn lemma_payers_in_turn(settings: GeneratorSettings, events: Seq<GeneratorEvent>)
    requires
        settings.well_formed(),
        orderly(settings, events),
    ensures
        ({
            let (state, orders) = history(settings, events);
            &&& orders.len() == 0 ==> state.index_payer == 0
            &&& orders.len() > 0 ==> orders[0].index_payer == 0
            &&& forall|k: int|
                0 <= k < orders.len() ==> (#[trigger] orders[k]).index_payer < settings.num_payers
            &&& forall|k: int, next: int|
                0 <= k < orders.len() && next == k + 1 && next < orders.len() ==> follows_in_turn(
                    settings,
                    (#[trigger] orders[k]).index_payer as int,
                    orders[k].send_batch_size as int,
                    (#[trigger] orders[next]).index_payer as int,
                )
            &&& orders.len() > 0 ==> follows_in_turn(
                settings,
                orders.last().index_payer as int,
                orders.last().send_batch_size as int,
                state.index_payer as int,
            )
        }),
    decreases events.len(),
{
    if events.len() > 0 {
        lemma_payers_in_turn(settings, events.drop_last());
        law_generator_stays_consistent(settings, events.drop_last());
        let (before, orders) = history(settings, events.drop_last());
        let after = history(settings, events).1;
        lemma_turn_draws_payers(settings, before, events.last());
        if let GeneratorAction::SpawnBatch(order) = turn(settings, before, events.last()).1 {
            assert(after == orders.push(order));
            assert forall|k: int, next: int|
                0 <= k < after.len() && next == k + 1 && next
                    < after.len() implies follows_in_turn(
                settings,
                (#[trigger] after[k]).index_payer as int,
                after[k].send_batch_size as int,
                (#[trigger] after[next]).index_payer as int,
            ) by {
                assert(after[k] == orders[k]);
                if next < orders.len() {
                    assert(after[next] == orders[next]);
                }
            }
        }
    }
}

/// The blockhash that was seen at the latest look.
pub open spec fn latest_blockhash(events: Seq<GeneratorEvent>) -> Option<[u8; 32]>
    decreases events.len(),
{
    if events.len() == 0 {
        None
    } else {
        match events.last() {
            GeneratorEvent::Observed { blockhash, .. } => Some(blockhash),
            _ => latest_blockhash(events.drop_last()),
        }
    }
}

/// Every batch is signed with the blockhash of the latest look, and holds transfers.
pub proof fn law_batches_carry_the_latest_blockhash(
    settings: GeneratorSettings,
    events: Seq<GeneratorEvent>,
    event: GeneratorEvent,
)
    requires
        orderly(settings, events),
        awaits(history(settings, events).0, event),
    ensures
        turn(settings, history(settings, events).0, event).1 matches GeneratorAction::SpawnBatch(
            order,
        ) ==> {
            &&& Some(order.blockhash) == latest_blockhash(events.push(event))
            &&& order.transaction_type == TransactionType::Transfer
        },
{
    lemma_phase_holds_the_latest_blockhash(settings, events);
    assert(events.push(event).drop_last() =~= events);
}

proof fn lemma_phase_holds_the_latest_blockhash(
    settings: GeneratorSettings,
    events: Seq<GeneratorEvent>,
)
    requires
        orderly(settings, events),
    ensures
        match history(settings, events).0.phase {
            GeneratorPhase::Waiting { blockhash } => Some(blockhash) == latest_blockhash(events),
            GeneratorPhase::Spawning { blockhash } => Some(blockhash) == latest_blockhash(events),
            _ => true,
        },
    decreases events.len(),
{
    if events.len() > 0 {
        lemma_phase_holds_the_latest_blockhash(settings, events.drop_last());
    }
}

/// The workers are kept busy: as long as batches are due, a run waits for one to be
/// done only when as many are on their way as there are workers. It never sends
/// more than that at once, and counts each that it sends.
pub proof fn law_workers_are_kept_busy(
    settings: GeneratorSettings,
    state: GeneratorState,
    event: GeneratorEvent,
)
    requires
        settings.well_formed(),
        consistent(settings, state),
        awaits(state, event),
    ensures
        ({
            let (after, action) = turn(settings, state, event);
            &&& action is JoinBatch && !(after.phase is Draining) ==> {
                ||| state.in_flight == settings.workers_pull_size
                ||| settings.num_transactions matches Some(limit) && state.txs_scheduled >= limit
            }
            &&& action is SpawnBatch ==> after.in_flight == state.in_flight + 1 && after.in_flight
                <= settings.workers_pull_size
            &&& event is BatchJoined && state.in_flight > 0 ==> after.in_flight == state.in_flight
                - 1
            &&& !(action is SpawnBatch) && !(event is BatchJoined) ==> after.in_flight
                == state.in_flight
        }),
{
}

/// With a target rate every batch waits for its deadline; without one no batch
/// waits. Once its time has come, a batch that is due goes out.
pub proof fn law_only_paced_batches_wait(
    settings: GeneratorSettings,
    state: GeneratorState,
    event: GeneratorEvent,
)
    requires
        consistent(settings, state),
        awaits(state, event),
    ensures
        ({
            let (after, action) = turn(settings, state, event);
            let all_scheduled = settings.num_transactions matches Some(limit)
                && state.txs_scheduled >= limit;
            &&& action is SpawnBatch && settings.target_tps is Some ==> event is Waited
            &&& action is WaitUntil ==> settings.target_tps is Some
            &&& event is Waited && !all_scheduled ==> action is SpawnBatch
            &&& event is BatchSpawned && settings.target_tps is None && state.in_flight
                < settings.workers_pull_size && !all_scheduled ==> action is SpawnBatch
        }),
{
}

/// The interval between batches is the shortest one, in whole nanoseconds, that
/// keeps to the rate: `size` transactions at `target_tps` per second take no longer
/// than it, and longer than one nanosecond less. Where 64 bits do not suffice it is
/// what they can say at most.
pub proof fn law_interval_is_the_shortest(size: nat, target_tps: nat)
    requires
        target_tps > 0,
    ensures
        ({
            let interval = batch_interval(size, target_tps);
            &&& interval < u64::MAX ==> size * 1_000_000_000 <= interval * target_tps
            &&& interval <= u64::MAX
            &&& interval > 0 ==> (interval - 1) * target_tps < size * 1_000_000_000
        }),
{
    let x = (size * 1_000_000_000 + target_tps - 1) as int;
    let t = target_tps as int;
    let q = x / t;
    let interval = batch_interval(size, target_tps) as int;
    vstd::arithmetic::div_mod::lemma_fundamental_div_mod(x, t);
    vstd::arithmetic::div_mod::lemma_mod_bound(x, t);
    assert(t * q == q * t) by (nonlinear_arith);
    assert((q - 1) * t == q * t - t) by (nonlinear_arith);
    assert(interval <= q);
    assert((interval - 1) * t <= (q - 1) * t) by (nonlinear_arith)
        requires
            interval <= q,
            t > 0,
    ;
}

/// A run begins only if its budget covers what a transaction needs: 150 units for
/// each compute-budget instruction, of which a legacy transaction has one for the
/// limit, one for a configured price and one for padding, and a V1 transaction
/// none; and for each transfer 150 units, or 3000 where it is padded.
pub proof fn law_budget_decides_at_the_start(settings: GeneratorSettings, state: GeneratorState)
    requires
        settings.well_formed(),
        settings.transaction_params.simple_transfer_tx_params.num_send_instructions_per_tx
            < 0x1_0000_0000,
    ensures
        ({
            let params = settings.transaction_params;
            let transfers = params.simple_transfer_tx_params;
            let n = transfers.num_send_instructions_per_tx as int;
            let padded = params.padding_params.instruction_padding_data_size is Some;
            let prefix: int = if params.use_txv1 {
                0
            } else if settings.compute_unit_price is Some && padded {
                450
            } else if settings.compute_unit_price is Some || padded {
                300
            } else {
                150
            };
            let needed = prefix + (if padded {
                3000 * n
            } else {
                150 * n
            });
            let action = turn(settings, state, GeneratorEvent::Started).1;
            &&& transfers.transfer_tx_cu_budget < needed ==> action == GeneratorAction::Fail(
                TransactionGeneratorError::GenerateTxBatchFailure,
            )
            &&& transfers.transfer_tx_cu_budget >= needed ==> action is Observe
            &&& min_cu_budget(params, settings.compute_unit_price) == needed
        }),
{
    vstd::arithmetic::div_mod::lemma_small_mod(
        settings.transaction_params.simple_transfer_tx_params.num_send_instructions_per_tx as nat,
        0x1_0000_0000,
    );
}

/// What a look decides. The run stops where its time is up or its transactions are
/// all scheduled, whichever comes first. Otherwise it fails where nobody takes
/// transactions any more, and goes on in all other cases.
pub proof fn law_a_look_decides(
    settings: GeneratorSettings,
    state: GeneratorState,
    elapsed: u128,
    all_senders_closed: bool,
    blockhash: [u8; 32],
)
    requires
        consistent(settings, state),
        state.phase is Observing,
    ensures
        ({
            let event = GeneratorEvent::Observed { elapsed, all_senders_closed, blockhash };
            let (after, action) = turn(settings, state, event);
            let time_is_up = settings.run_duration matches Some(limit) && limit <= elapsed;
            let all_scheduled = settings.num_transactions matches Some(limit) && limit
                <= state.txs_scheduled;
            let nobody_listens = all_senders_closed || settings.num_senders == 0;
            if time_is_up || all_scheduled {
                &&& state.in_flight == 0 ==> action is Finish
                &&& state.in_flight > 0 ==> action is JoinBatch && after.phase is Draining
            } else if nobody_listens {
                action == GeneratorAction::Fail(TransactionGeneratorError::ReceiverDropped)
            } else {
                action is JoinBatch || action is WaitUntil || action is SpawnBatch
            }
        }),
{
}

/// The next deadline leaves room for what has been scheduled so far at the target
/// rate.
pub open spec fn pace_kept(settings: GeneratorSettings, state: GeneratorState) -> bool {
    settings.target_tps matches Some(target_tps) ==> state.next_batch_at matches Some(deadline)
        && state.txs_scheduled * 1_000_000_000 <= deadline * target_tps
}

/// No batch is so large that its interval at the target rate does not fit into 64
/// bits.
pub open spec fn intervals_fit(orders: Seq<BatchOrder>, target_tps: u64) -> bool {
    forall|k: int|
        0 <= k < orders.len() ==> (#[trigger] orders[k]).send_batch_size * 1_000_000_000 <= u64::MAX
            * target_tps
}

/// A paced run is never faster than its target: by the deadline of a batch, the
/// target rate covers all transactions of the batches before it. That holds as long
/// as no batch was ordered whose interval had to be cut.
pub proof fn law_pace_never_exceeds_target(
    settings: GeneratorSettings,
    events: Seq<GeneratorEvent>,
)
    requires
        settings.well_formed(),
        settings.target_tps matches Some(target_tps) ==> intervals_fit(
            history(settings, events).1,
            target_tps,
        ),
        orderly(settings, events),
    ensures
        pace_kept(settings, history(settings, events).0),
    decreases events.len(),
{
    if events.len() == 0 {
        if let Some(target_tps) = settings.target_tps {
            assert(0 * target_tps == 0);
        }
    } else {
        let (before, orders) = history(settings, events.drop_last());
        let after = history(settings, events).1;
        assert(orders =~= after.take(orders.len() as int));
        if let Some(target_tps) = settings.target_tps {
            assert forall|k: int| 0 <= k < orders.len() implies (
            #[trigger] orders[k]).send_batch_size * 1_000_000_000 <= u64::MAX * target_tps by {
                assert(after[k] == orders[k]);
            }
        }
        law_pace_never_exceeds_target(settings, events.drop_last());
        law_generator_stays_consistent(settings, events.drop_last());
        if turn(settings, before, events.last()).1 is SpawnBatch && settings.target_tps is Some {
            let target_tps = settings.target_tps->0;
            let size = settings.next_batch_size(before.txs_scheduled);
            assert(after.last().send_batch_size == size);
            lemma_interval_covers_batch(size as nat, target_tps as nat);
            let deadline = before.next_batch_at->0;
            let interval = batch_interval(size as nat, target_tps as nat);
            assert((deadline + interval) * target_tps == deadline * target_tps + interval
                * target_tps) by (nonlinear_arith);
            assert(u128::MAX * target_tps >= u128::MAX) by (nonlinear_arith)
                requires
                    target_tps >= 1,
            ;
        }
    }
}

proof fn lemma_interval_covers_batch(size: nat, target_tps: nat)
    requires
        target_tps > 0,
    ensures
        size * 1_000_000_000 <= u64::MAX * target_tps ==> batch_interval(size, target_tps)
            * target_tps >= size * 1_000_000_000,
{
    let x = (size * 1_000_000_000 + target_tps - 1) as int;
    let q = x / (target_tps as int);
    vstd::arithmetic::div_mod::lemma_fundamental_div_mod(x, target_tps as int);
    vstd::arithmetic::div_mod::lemma_mod_bound(x, target_tps as int);
    assert(target_tps * q == q * target_tps) by (nonlinear_arith);
    if q > u64::MAX {
        assert(q * target_tps >= (u64::MAX + 1) * target_tps) by (nonlinear_arith)
            requires
                q >= u64::MAX + 1,
                target_tps >= 0,
        ;
    }
}

/// A run never gets stuck: whatever it asks for, it takes the answer. It begins with
/// its start; a look, a deadline, a batch on its way and a batch done are awaited
/// right after they were asked for; and once a run is over nothing is awaited.
pub proof fn law_what_is_asked_for_is_awaited(
    settings: GeneratorSettings,
    state: GeneratorState,
    event: GeneratorEvent,
    elapsed: u128,
    all_senders_closed: bool,
    blockhash: [u8; 32],
)
    requires
        awaits(state, event),
    ensures
        awaits(initial_state(settings), GeneratorEvent::Started),
        ({
            let (after, action) = turn(settings, state, event);
            let look = GeneratorEvent::Observed { elapsed, all_senders_closed, blockhash };
            &&& action is Observe <==> awaits(after, look)
            &&& action is WaitUntil <==> awaits(after, GeneratorEvent::Waited)
            &&& action is SpawnBatch <==> awaits(after, GeneratorEvent::BatchSpawned)
            &&& action is JoinBatch <==> awaits(after, GeneratorEvent::BatchJoined)
            &&& !awaits(after, GeneratorEvent::Started)
        }),
{
}

/// Which settings can be worked by: there are payers, a target rate is not zero, the
/// payers of a full batch can be counted, and so can the budget.
pub proof fn law_which_settings_are_well_formed(settings: GeneratorSettings)
    requires
        settings.transaction_params.simple_transfer_tx_params.num_send_instructions_per_tx
            <= 1_000_000,
    ensures
        ({
            let transfers = settings.transaction_params.simple_transfer_tx_params;
            let senders = transfers.num_send_instructions_per_tx * settings.send_batch_size;
            let receivers = match transfers.num_conflict_groups {
                Some(groups) => groups as int,
                None => senders,
            };
            settings.well_formed() <==> settings.num_payers > 0 && settings.target_tps != Some(0u64)
                && senders + receivers <= usize::MAX
        }),
{
    vstd::arithmetic::div_mod::lemma_small_mod(
        settings.transaction_params.simple_transfer_tx_params.num_send_instructions_per_tx as nat,
        0x1_0000_0000,
    );
    let n = settings.transaction_params.simple_transfer_tx_params.num_send_instructions_per_tx as int;
    let cost = transfer_cost(settings.transaction_params) as int;
    assert(0 <= cost * n <= 3_000_000_000) by (nonlinear_arith)
        requires
            0 <= cost <= 3000,
            0 <= n <= 1_000_000,
    ;
}

} // verus!
