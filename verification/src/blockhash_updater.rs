//! Background blockhash refresh for transaction generators.
//!
//! By default the updater publishes the freshest blockhash. With a number of stale
//! slots it instead publishes the blockhash of a block that many slots behind the
//! tip, so that transactions carry a near-expiry blockhash. With a number of stale
//! seconds it publishes what was the freshest blockhash that long ago, from a
//! delay line of the blockhashes it has seen.
//!
//! Asking the RPC node, reading the clock and publishing happen outside. The
//! [`BlockhashUpdater`] is told what happened and says what to do next. Times are
//! nanoseconds on a clock that does not go back.
use vstd::prelude::*;
use vstd::string::*;
use crate::text;
use crate::wire;

verus! {

/// How many slots below the target to search for a produced block, in case the
/// exact target slot was skipped.
pub const STALE_BLOCK_SEARCH_WINDOW: u64 = 150;

/// The intervals of an updater, in nanoseconds.
#[derive(Clone, Copy, Debug, PartialEq, Eq)]
pub struct BlockhashUpdaterConfig {
    /// How often the blockhash is asked for.
    pub update_interval: u128,
    /// For how long there may be no new blockhash before the updater gives up.
    pub stuck_interval: u128,
    /// For how long there may be no new blockhash before warnings are due.
    pub not_updating_interval: u128,
    /// How often warnings are due.
    pub error_report_interval: u128,
}

/// The default intervals: a poll and at most one warning per second, warnings after
/// half a minute, and two minutes before the updater gives up.
pub open spec fn default_config() -> BlockhashUpdaterConfig {
    BlockhashUpdaterConfig {
        update_interval: 1_000_000_000,
        stuck_interval: 120_000_000_000,
        not_updating_interval: 30_000_000_000,
        error_report_interval: 1_000_000_000,
    }
}

impl Default for BlockhashUpdaterConfig {
    fn default() -> (config: Self)
        ensures
            config == default_config(),
    {
        BlockhashUpdaterConfig {
            update_interval: 1_000_000_000,
            stuck_interval: 120_000_000_000,
            not_updating_interval: 30_000_000_000,
            error_report_interval: 1_000_000_000,
        }
    }
}

/// Why the updater gave up.
#[derive(Clone, Copy, Debug, PartialEq, Eq, Structural)]
pub enum BlockhashUpdaterError {
    /// The blockhash did not change within the configured stuck interval.
    BlockhashStuck,
}

impl BlockhashUpdaterError {
    /// The error in words.
    pub open spec fn words(self) -> Seq<char> {
        "Blockhash is stuck."@
    }

    /// Puts the error into words.
    pub fn message(&self) -> (text: String)
        ensures
            text@ == self.words(),
    {
        "Blockhash is stuck.".to_string()
    }
}

/// A blockhash, and when it was first seen.
#[derive(Clone, Copy, Debug, PartialEq, Eq)]
pub struct Sighting {
    pub seen_at: u128,
    pub blockhash: [u8; 32],
}

/// What an updater waits for.
#[derive(Clone, Copy, Debug, PartialEq, Eq, Structural)]
pub enum UpdaterPhase {
    NotStarted,
    /// The outcome of a poll.
    Polling,
    /// Whether a blockhash could be published.
    Publishing,
    /// Nothing any more.
    Over,
}

/// Where an updater stands.
pub struct UpdaterState {
    pub config: BlockhashUpdaterConfig,
    pub phase: UpdaterPhase,
    /// Publish a blockhash this many slots behind the tip; `0` means freshest.
    pub stale_slots: u64,
    /// Publish a blockhash seen this long ago.
    pub delay: Option<u128>,
    /// The blockhashes that have been seen and not published yet.
    pub line: Seq<Sighting>,
    /// The blockhash that was seen last.
    pub last_seen: [u8; 32],
    /// The blockhash that was published last.
    pub last_blockhash: [u8; 32],
    pub blockhash_last_updated: u128,
    pub last_error_log: u128,
}

/// What happened.
#[derive(Clone, Copy, Debug, PartialEq, Eq)]
pub enum UpdaterEvent {
    Started { now: u128 },
    /// Nobody listens any more.
    ChannelClosed,
    /// The blockhash was asked for, and this came back.
    Polled { fetched: Option<[u8; 32]>, now: u128 },
    Published { now: u128 },
    /// Nobody listens any more.
    PublishFailed,
}

/// What to do next.
#[derive(Clone, Copy, Debug, PartialEq, Eq)]
pub enum UpdaterAction {
    /// Where a number of seconds is given, warn that there was no new blockhash
    /// for that long. Then, unless the channel is closed, wait for the next tick
    /// and ask for the blockhash: for an aged one where slots are stale, for the
    /// latest one otherwise.
    Poll { not_updating_for_secs: Option<u128> },
    Publish { blockhash: [u8; 32] },
    /// The updater is done.
    Finish,
    /// The updater gives up.
    Fail(BlockhashUpdaterError),
}

/// How many sightings at the front of the line are old enough.
pub open spec fn ripe_count(line: Seq<Sighting>, delay: u128, now: u128) -> nat
    decreases line.len(),
{
    if line.len() == 0 || line[0].seen_at + delay > now {
        0
    } else {
        1 + ripe_count(line.drop_first(), delay, now)
    }
}

/// How long ago `then` was.
pub open spec fn since(then: u128, now: u128) -> int {
    if now >= then {
        now - then
    } else {
        0
    }
}

impl UpdaterState {
    /// The event is what an updater in this state waits for.
    pub open spec fn awaits(self, event: UpdaterEvent) -> bool {
        match event {
            UpdaterEvent::Started { .. } => self.phase is NotStarted,
            UpdaterEvent::ChannelClosed => self.phase is Polling,
            UpdaterEvent::Polled { .. } => self.phase is Polling,
            UpdaterEvent::Published { .. } => self.phase is Publishing,
            UpdaterEvent::PublishFailed => self.phase is Publishing,
        }
    }

    /// The state with another phase.
    pub open spec fn in_phase(self, phase: UpdaterPhase) -> UpdaterState {
        UpdaterState { phase, ..self }
    }

    /// Without a new blockhash for too long the updater gives up; before that, it
    /// warns now and then.
    pub open spec fn judged(self, now: u128) -> (UpdaterState, UpdaterAction) {
        let idle = since(self.blockhash_last_updated, now);
        if idle > self.config.stuck_interval {
            (
                self.in_phase(UpdaterPhase::Over),
                UpdaterAction::Fail(BlockhashUpdaterError::BlockhashStuck),
            )
        } else if idle > self.config.not_updating_interval && since(self.last_error_log, now)
            >= self.config.error_report_interval {
            (
                UpdaterState { phase: UpdaterPhase::Polling, last_error_log: now, ..self },
                UpdaterAction::Poll { not_updating_for_secs: Some((idle / 1_000_000_000) as u128) },
            )
        } else {
            (
                self.in_phase(UpdaterPhase::Polling),
                UpdaterAction::Poll { not_updating_for_secs: None },
            )
        }
    }

    /// A blockhash that differs from the one published last is to be published.
    pub open spec fn offered(self, blockhash: Option<[u8; 32]>, now: u128) -> (
        UpdaterState,
        UpdaterAction,
    ) {
        match blockhash {
            Some(blockhash) if blockhash != self.last_blockhash => (
                UpdaterState {
                    phase: UpdaterPhase::Publishing,
                    last_blockhash: blockhash,
                    ..self
                },
                UpdaterAction::Publish { blockhash },
            ),
            _ => self.judged(now),
        }
    }

    /// A blockhash that differs from the one seen last joins the delay line.
    pub open spec fn sighted(self, fetched: Option<[u8; 32]>, now: u128) -> UpdaterState {
        match fetched {
            Some(blockhash) if blockhash != self.last_seen => UpdaterState {
                line: self.line.push(Sighting { seen_at: now, blockhash }),
                last_seen: blockhash,
                blockhash_last_updated: now,
                ..self
            },
            _ => self,
        }
    }

    /// The newest sighting that is old enough leaves the delay line, and all older
    /// ones with it.
    pub open spec fn released(self, delay: u128, now: u128) -> (UpdaterState, Option<[u8; 32]>) {
        let k = ripe_count(self.line, delay, now) as int;
        (
            UpdaterState { line: self.line.skip(k), ..self },
            if k > 0 {
                Some(self.line[k - 1].blockhash)
            } else {
                None
            },
        )
    }

    /// One turn of the updater: where it stands afterwards, and what to do next.
    pub open spec fn turn(self, event: UpdaterEvent) -> (UpdaterState, UpdaterAction) {
        match event {
            UpdaterEvent::Started { now } => (
                UpdaterState {
                    phase: UpdaterPhase::Polling,
                    blockhash_last_updated: now,
                    last_error_log: now,
                    ..self
                },
                UpdaterAction::Poll { not_updating_for_secs: None },
            ),
            UpdaterEvent::ChannelClosed | UpdaterEvent::PublishFailed => (
                self.in_phase(UpdaterPhase::Over),
                UpdaterAction::Finish,
            ),
            UpdaterEvent::Polled { fetched, now } => match self.delay {
                None => self.offered(fetched, now),
                Some(delay) => {
                    let (state, ripe) = self.sighted(fetched, now).released(delay, now);
                    state.offered(ripe, now)
                },
            },
            UpdaterEvent::Published { now } => UpdaterState {
                blockhash_last_updated: match self.delay {
                    None => now,
                    Some(_) => self.blockhash_last_updated,
                },
                ..self
            }.judged(now),
        }
    }
}

/// Polls for blockhashes and publishes them.
///
/// The updater is done when nobody listens any more, and gives up where there is
/// no new blockhash for too long, be it that the node keeps failing or that it
/// keeps returning the same one.
pub struct BlockhashUpdater {
    config: BlockhashUpdaterConfig,
    phase: UpdaterPhase,
    stale_slots: u64,
    delay: Option<u128>,
    line: Vec<Sighting>,
    last_seen: [u8; 32],
    last_blockhash: [u8; 32],
    blockhash_last_updated: u128,
    last_error_log: u128,
}

/// The blockhash of no block: 32 zero bytes.
pub open spec fn no_blockhash() -> Seq<u8> {
    Seq::new(32, |i: int| 0u8)
}

/// An updater that has not started yet.
pub open spec fn is_fresh(
    state: UpdaterState,
    config: BlockhashUpdaterConfig,
    stale_slots: u64,
    delay: Option<u128>,
) -> bool {
    &&& state.config == config
    &&& state.phase is NotStarted
    &&& state.stale_slots == stale_slots
    &&& state.delay == delay
    &&& state.line.len() == 0
    &&& state.last_seen@ == no_blockhash()
    &&& state.last_blockhash@ == no_blockhash()
}

impl BlockhashUpdater {
    pub closed spec fn state(self) -> UpdaterState {
        UpdaterState {
            config: self.config,
            phase: self.phase,
            stale_slots: self.stale_slots,
            delay: self.delay,
            line: self.line@,
            last_seen: self.last_seen,
            last_blockhash: self.last_blockhash,
            blockhash_last_updated: self.blockhash_last_updated,
            last_error_log: self.last_error_log,
        }
    }

    fn make(config: BlockhashUpdaterConfig, stale_slots: u64, delay: Option<u128>) -> (updater: Self)
        ensures
            is_fresh(updater.state(), config, stale_slots, delay),
    {
        let zero: [u8; 32] = [0;32];
        assert(zero@ =~= no_blockhash());
        BlockhashUpdater {
            config,
            phase: UpdaterPhase::NotStarted,
            stale_slots,
            delay,
            line: Vec::new(),
            last_seen: zero,
            last_blockhash: zero,
            blockhash_last_updated: 0,
            last_error_log: 0,
        }
    }

    /// An updater that always publishes the freshest blockhash.
    pub fn new() -> (updater: Self)
        ensures
            is_fresh(updater.state(), default_config(), 0, None),
    {
        Self::with_stale_slots(0)
    }

    /// An updater that publishes the blockhash of a block roughly `stale_slots`
    /// behind the tip. With `0` it is the same as [`BlockhashUpdater::new`].
    pub fn with_stale_slots(stale_slots: u64) -> (updater: Self)
        ensures
            is_fresh(updater.state(), default_config(), stale_slots, None),
    {
        Self::make(BlockhashUpdaterConfig::default(), stale_slots, None)
    }

    /// An updater that publishes blockhashes once it has seen them `delay`
    /// nanoseconds ago.
    pub fn with_stale_secs(delay: u128) -> (updater: Self)
        ensures
            is_fresh(updater.state(), default_config(), 0, Some(delay)),
    {
        Self::make(BlockhashUpdaterConfig::default(), 0, Some(delay))
    }

    /// An updater with other intervals than the default ones.
    pub fn with_config(config: BlockhashUpdaterConfig) -> (updater: Self)
        ensures
            is_fresh(updater.state(), config, 0, None),
    {
        Self::make(config, 0, None)
    }

    /// The time between polls, in nanoseconds.
    pub fn update_interval(&self) -> (nanos: u128)
        ensures
            nanos == self.state().config.update_interval,
    {
        self.config.update_interval
    }

    /// How many slots behind the tip the blockhash is to be; `0` means freshest.
    pub fn stale_slots(&self) -> (slots: u64)
        ensures
            slots == self.state().stale_slots,
    {
        self.stale_slots
    }

    /// One turn of the updater: takes what happened, and says what to do next.
    pub fn run(&mut self, event: UpdaterEvent) -> (action: UpdaterAction)
        requires
            old(self).state().awaits(event),
        ensures
            (final(self).state(), action) == old(self).state().turn(event),
    {
        match event {
            UpdaterEvent::Started { now } => {
                self.phase = UpdaterPhase::Polling;
                self.blockhash_last_updated = now;
                self.last_error_log = now;
                UpdaterAction::Poll { not_updating_for_secs: None }
            },
            UpdaterEvent::ChannelClosed => {
                self.phase = UpdaterPhase::Over;
                UpdaterAction::Finish
            },
            UpdaterEvent::PublishFailed => {
                self.phase = UpdaterPhase::Over;
                UpdaterAction::Finish
            },
            UpdaterEvent::Polled { fetched, now } => {
                match self.delay {
                    None => self.offer(fetched, now),
                    Some(delay) => {
                        self.sight(fetched, now);
                        let ripe: Option<[u8; 32]> = self.release(delay, now);
                        self.offer(ripe, now)
                    },
                }
            },
            UpdaterEvent::Published { now } => {
                if self.delay.is_none() {
                    self.blockhash_last_updated = now;
                }
                self.judge(now)
            },
        }
    }

    fn judge(&mut self, now: u128) -> (action: UpdaterAction)
        ensures
            (final(self).state(), action) == old(self).state().judged(now),
    {
        let idle: u128 = now.saturating_sub(self.blockhash_last_updated);
        if idle > self.config.stuck_interval {
            self.phase = UpdaterPhase::Over;
            UpdaterAction::Fail(BlockhashUpdaterError::BlockhashStuck)
        } else if idle > self.config.not_updating_interval && now.saturating_sub(self.last_error_log)
            >= self.config.error_report_interval {
            self.phase = UpdaterPhase::Polling;
            self.last_error_log = now;
            UpdaterAction::Poll { not_updating_for_secs: Some(idle / 1_000_000_000) }
        } else {
            self.phase = UpdaterPhase::Polling;
            UpdaterAction::Poll { not_updating_for_secs: None }
        }
    }

    fn offer(&mut self, blockhash: Option<[u8; 32]>, now: u128) -> (action: UpdaterAction)
        ensures
            (final(self).state(), action) == old(self).state().offered(blockhash, now),
    {
        if let Some(blockhash) = blockhash {
            if !wire::same_bytes(&blockhash, &self.last_blockhash) {
                self.phase = UpdaterPhase::Publishing;
                self.last_blockhash = blockhash;
                return UpdaterAction::Publish { blockhash };
            }
        }
        self.judge(now)
    }

    fn sight(&mut self, fetched: Option<[u8; 32]>, now: u128)
        ensures
            final(self).state() == old(self).state().sighted(fetched, now),
    {
        if let Some(blockhash) = fetched {
            if !wire::same_bytes(&blockhash, &self.last_seen) {
                self.line.push(Sighting { seen_at: now, blockhash });
                self.last_seen = blockhash;
                self.blockhash_last_updated = now;
            }
        }
    }

    fn release(&mut self, delay: u128, now: u128) -> (blockhash: Option<[u8; 32]>)
        ensures
            (final(self).state(), blockhash) == old(self).state().released(delay, now),
    {
        let mut k: usize = 0;
        let ghost line = self.line@;
        assert(line.skip(0) =~= line);
        while k < self.line.len() && now >= delay && self.line[k].seen_at <= now - delay
            invariant
                k <= self.line@.len(),
                self.line@ == line,
                ripe_count(line, delay, now) == k + ripe_count(line.skip(k as int), delay, now),
            decreases self.line@.len() - k,
        {
            assert(line.skip(k as int).drop_first() =~= line.skip(k + 1));
            k += 1;
        }
        assert(ripe_count(line.skip(k as int), delay, now) == 0);
        if k == 0 {
            assert(line.skip(0) =~= line);
            return None;
        }
        let blockhash: [u8; 32] = self.line[k - 1].blockhash;
        let rest: Vec<Sighting> = self.line.split_off(k);
        assert(rest@ =~= line.skip(k as int));
        self.line = rest;
        Some(blockhash)
    }
}

/// A turn in fetching an aged blockhash: what came back from the node. Errors come
/// in the node's own words.
#[derive(Debug, PartialEq, Eq)]
pub enum FetchEvent {
    Begun,
    /// The current slot.
    SlotAnswered(Result<u64, String>),
    /// The slots of a range in which blocks were produced.
    BlocksAnswered { start_slot: u64, target_slot: u64, answer: Result<Vec<u64>, String> },
    /// The blockhash of a block, in base-58 notation.
    BlockAnswered { block_slot: u64, answer: Result<String, String> },
}

/// What to ask the node next, or what has come of it.
#[derive(Debug, PartialEq, Eq)]
pub enum FetchAction {
    GetSlot,
    GetBlocks { start_slot: u64, target_slot: u64 },
    /// Only the header is needed: no transactions, no rewards.
    GetBlock { block_slot: u64 },
    Done(Result<[u8; 32], String>),
}

/// What a [`FetchAction`] says.
pub enum FetchView {
    GetSlot,
    GetBlocks { start_slot: u64, target_slot: u64 },
    GetBlock { block_slot: u64 },
    Done(Result<Seq<u8>, Seq<char>>),
}

impl View for FetchAction {
    type V = FetchView;

    open spec fn view(&self) -> FetchView {
        match *self {
            FetchAction::GetSlot => FetchView::GetSlot,
            FetchAction::GetBlocks { start_slot, target_slot } => FetchView::GetBlocks {
                start_slot,
                target_slot,
            },
            FetchAction::GetBlock { block_slot } => FetchView::GetBlock { block_slot },
            FetchAction::Done(Ok(blockhash)) => FetchView::Done(Ok(blockhash@)),
            FetchAction::Done(Err(error)) => FetchView::Done(Err(error@)),
        }
    }
}

/// `slot`, `distance` slots back, as far as there are slots.
pub open spec fn slots_back(slot: u64, distance: u64) -> u64 {
    if slot >= distance {
        (slot - distance) as u64
    } else {
        0
    }
}

pub open spec fn blocks_error(start_slot: u64, target_slot: u64, error: Seq<char>) -> Seq<char> {
    "getBlocks("@ + text::decimal(start_slot as nat) + "..="@ + text::decimal(target_slot as nat)
        + ") failed: "@ + error
        + ". The target RPC must serve getBlock/getBlocks; run the validator with --enable-rpc-transaction-history."@
}

pub open spec fn no_block_error(start_slot: u64, target_slot: u64) -> Seq<char> {
    "no produced block in ["@ + text::decimal(start_slot as nat) + ", "@ + text::decimal(
        target_slot as nat,
    ) + "]"@
}

pub open spec fn block_error(block_slot: u64, error: Seq<char>) -> Seq<char> {
    "getBlock("@ + text::decimal(block_slot as nat) + ") failed: "@ + error
        + ". The target RPC must serve getBlock; run the validator with --enable-rpc-transaction-history."@
}

pub open spec fn hash_error(block_slot: u64, error: Seq<char>) -> Seq<char> {
    "failed to parse blockhash of slot "@ + text::decimal(block_slot as nat) + ": "@ + error
}

/// What comes of the blockhash of a block, once it is read.
pub open spec fn hash_outcome(block_slot: u64, reading: Result<Seq<u8>, Seq<char>>) -> FetchView {
    match reading {
        Ok(blockhash) => FetchView::Done(Ok(blockhash)),
        Err(error) => FetchView::Done(Err(hash_error(block_slot, error))),
    }
}

/// The steps to an aged blockhash. The target lies `stale_slots` behind the current
/// slot. It may have been skipped, so that the newest produced block at or below
/// it is looked for, not too far down.
pub open spec fn fetch_turn(stale_slots: u64, event: FetchEvent) -> FetchView {
    match event {
        FetchEvent::Begun => FetchView::GetSlot,
        FetchEvent::SlotAnswered(Ok(current_slot)) => {
            let target_slot = slots_back(current_slot, stale_slots);
            FetchView::GetBlocks {
                start_slot: slots_back(target_slot, STALE_BLOCK_SEARCH_WINDOW),
                target_slot,
            }
        },
        FetchEvent::SlotAnswered(Err(error)) => FetchView::Done(
            Err("getSlot failed: "@ + error@),
        ),
        FetchEvent::BlocksAnswered { start_slot, target_slot, answer } => match answer {
            Ok(slots) => if slots@.len() > 0 {
                FetchView::GetBlock { block_slot: slots@.last() }
            } else {
                FetchView::Done(Err(no_block_error(start_slot, target_slot)))
            },
            Err(error) => FetchView::Done(Err(blocks_error(start_slot, target_slot, error@))),
        },
        FetchEvent::BlockAnswered { block_slot, answer } => match answer {
            Ok(notation) => hash_outcome(block_slot, wire::hash_reading(notation@)),
            Err(error) => FetchView::Done(Err(block_error(block_slot, error@))),
        },
    }
}

/// What comes of the blockhash of a block, once it is read: the blockhash, or what
/// is wrong with its notation.
pub fn conclude_fetch(block_slot: u64, reading: Result<[u8; 32], String>) -> (action: FetchAction)
    ensures
        action@ == hash_outcome(
            block_slot,
            match reading {
                Ok(blockhash) => Ok(blockhash@),
                Err(error) => Err(error@),
            },
        ),
{
    match reading {
        Ok(blockhash) => FetchAction::Done(Ok(blockhash)),
        Err(error) => {
            let mut message: String = "failed to parse blockhash of slot ".to_string();
            message.append(text::decimal_text(block_slot).as_str());
            message.append(": ");
            message.append(error.as_str());
            FetchAction::Done(Err(message))
        },
    }
}

fn blocks_message(start_slot: u64, target_slot: u64, error: &str) -> (message: String)
    ensures
        message@ == blocks_error(start_slot, target_slot, error@),
{
    let mut message: String = "getBlocks(".to_string();
    message.append(text::decimal_text(start_slot).as_str());
    message.append("..=");
    message.append(text::decimal_text(target_slot).as_str());
    message.append(") failed: ");
    message.append(error);
    message.append(
        ". The target RPC must serve getBlock/getBlocks; run the validator with --enable-rpc-transaction-history.",
    );
    message
}

fn no_block_message(start_slot: u64, target_slot: u64) -> (message: String)
    ensures
        message@ == no_block_error(start_slot, target_slot),
{
    let mut message: String = "no produced block in [".to_string();
    message.append(text::decimal_text(start_slot).as_str());
    message.append(", ");
    message.append(text::decimal_text(target_slot).as_str());
    message.append("]");
    message
}

fn block_message(block_slot: u64, error: &str) -> (message: String)
    ensures
        message@ == block_error(block_slot, error@),
{
    let mut message: String = "getBlock(".to_string();
    message.append(text::decimal_text(block_slot).as_str());
    message.append(") failed: ");
    message.append(error);
    message.append(
        ". The target RPC must serve getBlock; run the validator with --enable-rpc-transaction-history.",
    );
    message
}

/// What the check of the aged-blockhash path needs next, or what has come of it.
#[derive(Debug, PartialEq, Eq)]
pub enum CheckAction {
    Fetch(FetchAction),
    Done(Result<(), String>),
}

impl BlockhashUpdater {
    /// One turn in fetching the blockhash of a block roughly `stale_slots` behind
    /// the current slot.
    pub fn fetch_aged_blockhash(&self, event: FetchEvent) -> (action: FetchAction)
        ensures
            action@ == fetch_turn(self.state().stale_slots, event),
    {
        match event {
            FetchEvent::Begun => FetchAction::GetSlot,
            FetchEvent::SlotAnswered(Ok(current_slot)) => {
                let target_slot: u64 = current_slot.saturating_sub(self.stale_slots);
                let start_slot: u64 = target_slot.saturating_sub(STALE_BLOCK_SEARCH_WINDOW);
                FetchAction::GetBlocks { start_slot, target_slot }
            },
            FetchEvent::SlotAnswered(Err(error)) => {
                let mut message: String = "getSlot failed: ".to_string();
                message.append(error.as_str());
                FetchAction::Done(Err(message))
            },
            FetchEvent::BlocksAnswered { start_slot, target_slot, answer } => match answer {
                Ok(slots) => {
                    let count: usize = slots.len();
                    if count > 0 {
                        FetchAction::GetBlock { block_slot: slots[count - 1] }
                    } else {
                        FetchAction::Done(Err(no_block_message(start_slot, target_slot)))
                    }
                },
                Err(error) => FetchAction::Done(
                    Err(blocks_message(start_slot, target_slot, error.as_str())),
                ),
            },
            FetchEvent::BlockAnswered { block_slot, answer } => match answer {
                Ok(notation) => conclude_fetch(block_slot, wire::parse_hash(notation.as_str())),
                Err(error) => FetchAction::Done(Err(block_message(block_slot, error.as_str()))),
            },
        }
    }

    /// One turn of a check that the aged-blockhash path works, for failing fast at
    /// startup: a single fetch, whose error is handed on. There is nothing to
    /// check where no slots are stale.
    pub fn check_stale_blockhash_available(&self, event: FetchEvent) -> (action: CheckAction)
        ensures
            match action {
                CheckAction::Fetch(fetch) => {
                    &&& self.state().stale_slots > 0
                    &&& fetch@ == fetch_turn(self.state().stale_slots, event)
                    &&& !(fetch@ is Done)
                },
                CheckAction::Done(Ok(_)) => {
                    ||| self.state().stale_slots == 0
                    ||| fetch_turn(self.state().stale_slots, event) matches FetchView::Done(Ok(_))
                },
                CheckAction::Done(Err(error)) => {
                    &&& self.state().stale_slots > 0
                    &&& fetch_turn(self.state().stale_slots, event) == FetchView::Done(Err(error@))
                },
            },
    {
        if self.stale_slots == 0 {
            return CheckAction::Done(Ok(()));
        }
        match self.fetch_aged_blockhash(event) {
            FetchAction::Done(Ok(_)) => CheckAction::Done(Ok(())),
            FetchAction::Done(Err(error)) => CheckAction::Done(Err(error)),
            other => CheckAction::Fetch(other),
        }
    }
}

/// The range in which an aged block is looked for ends `stale_slots` behind the
/// current slot, or at the first slot, and holds at most one slot more than the
/// search window.
pub proof fn law_aged_range(stale_slots: u64, current_slot: u64)
    ensures
        fetch_turn(stale_slots, FetchEvent::SlotAnswered(Ok(current_slot))) matches
            FetchView::GetBlocks { start_slot, target_slot } && {
            &&& start_slot <= target_slot <= current_slot
            &&& stale_slots <= current_slot ==> current_slot - target_slot == stale_slots
            &&& stale_slots > current_slot ==> target_slot == 0
            &&& target_slot - start_slot <= STALE_BLOCK_SEARCH_WINDOW
        },
{
}

/// The updater after a run of events, and the blockhashes that it has published on
/// the way.
pub open spec fn updater_history(initial: UpdaterState, events: Seq<UpdaterEvent>) -> (
    UpdaterState,
    Seq<[u8; 32]>,
)
    decreases events.len(),
{
    if events.len() == 0 {
        (initial, Seq::empty())
    } else {
        let (before, published) = updater_history(initial, events.drop_last());
        let (state, action) = before.turn(events.last());
        (
            state,
            match action {
                UpdaterAction::Publish { blockhash } => published.push(blockhash),
                _ => published,
            },
        )
    }
}

/// The blockhashes that came back from the polls of a run.
pub open spec fn fetched_in(events: Seq<UpdaterEvent>) -> Seq<[u8; 32]>
    decreases events.len(),
{
    if events.len() == 0 {
        Seq::empty()
    } else {
        let fetched = fetched_in(events.drop_last());
        match events.last() {
            UpdaterEvent::Polled { fetched: Some(blockhash), .. } => fetched.push(blockhash),
            _ => fetched,
        }
    }
}

/// A sequence without the items that repeat the one before; the first item counts
/// as a repetition of `initial` where they are equal.
pub open spec fn without_repeats(initial: [u8; 32], items: Seq<[u8; 32]>) -> Seq<[u8; 32]>
    decreases items.len(),
{
    if items.len() == 0 {
        Seq::empty()
    } else {
        let before = if items.len() > 1 {
            items[items.len() - 2]
        } else {
            initial
        };
        let kept = without_repeats(initial, items.drop_last());
        if items.last() != before {
            kept.push(items.last())
        } else {
            kept
        }
    }
}

/// Without a delay, the updater publishes what it fetches, in order and without
/// loss: all but the repetitions of the blockhash before.
pub proof fn law_fetched_blockhashes_are_published(
    initial: UpdaterState,
    events: Seq<UpdaterEvent>,
)
    requires
        initial.delay is None,
    ensures
        ({
            let (state, published) = updater_history(initial, events);
            let fetched = fetched_in(events);
            &&& published == without_repeats(initial.last_blockhash, fetched)
            &&& state.delay is None
            &&& state.last_blockhash == if fetched.len() > 0 {
                fetched.last()
            } else {
                initial.last_blockhash
            }
        }),
    decreases events.len(),
{
    if events.len() > 0 {
        law_fetched_blockhashes_are_published(initial, events.drop_last());
        let fetched = fetched_in(events.drop_last());
        if let UpdaterEvent::Polled { fetched: Some(blockhash), .. } = events.last() {
            assert(fetched.push(blockhash).drop_last() =~= fetched);
        }
    }
}

/// The same blockhash is never published twice in a row.
pub proof fn law_published_blockhashes_change(initial: UpdaterState, events: Seq<UpdaterEvent>)
    ensures
        ({
            let (state, published) = updater_history(initial, events);
            &&& published.len() > 0 ==> state.last_blockhash == published.last()
            &&& published.len() == 0 ==> state.last_blockhash == initial.last_blockhash
            &&& forall|k: int|
                0 < k < published.len() ==> #[trigger] published[k] != published[k - 1]
        }),
    decreases events.len(),
{
    if events.len() > 0 {
        law_published_blockhashes_change(initial, events.drop_last());
        let (before, published) = updater_history(initial, events.drop_last());
        let (state, action) = before.turn(events.last());
        if action is Publish {
            let after = updater_history(initial, events).1;
            assert forall|k: int| 0 < k < after.len() implies #[trigger] after[k] != after[k - 1] by {
                if k < published.len() {
                    assert(after[k] == published[k] && after[k - 1] == published[k - 1]);
                }
            }
        }
    }
}

/// The updater gives up only when there was no new blockhash for longer than the
/// stuck interval, and, where nothing is held back in a delay line, always when a
/// poll then brings none.
pub proof fn law_gives_up_exactly_when_stuck(state: UpdaterState, event: UpdaterEvent)
    requires
        state.awaits(event),
    ensures
        ({
            let (after, action) = state.turn(event);
            &&& action is Fail ==> {
                &&& action == UpdaterAction::Fail(BlockhashUpdaterError::BlockhashStuck)
                &&& event matches UpdaterEvent::Polled { fetched: _, now } ==> since(
                    after.blockhash_last_updated,
                    now,
                ) > state.config.stuck_interval
            }
            &&& event matches UpdaterEvent::Polled { fetched: None, now } ==> since(
                state.blockhash_last_updated,
                now,
            ) > state.config.stuck_interval && state.delay is None ==> action is Fail
            &&& event is Started || event is ChannelClosed || event is PublishFailed
                ==> !(action is Fail)
        }),
{
}

proof fn lemma_ripe_are_old(line: Seq<Sighting>, delay: u128, now: u128, k: int)
    requires
        0 <= k < ripe_count(line, delay, now),
    ensures
        ripe_count(line, delay, now) <= line.len(),
        line[k].seen_at + delay <= now,
    decreases line.len(),
{
    if k > 0 {
        lemma_ripe_are_old(line.drop_first(), delay, now, k - 1);
    } else {
        lemma_ripe_count_bounded(line, delay, now);
    }
}

proof fn lemma_ripe_count_bounded(line: Seq<Sighting>, delay: u128, now: u128)
    ensures
        ripe_count(line, delay, now) <= line.len(),
    decreases line.len(),
{
    if line.len() > 0 && line[0].seen_at + delay <= now {
        lemma_ripe_count_bounded(line.drop_first(), delay, now);
    }
}

/// Nothing leaves the delay line too early: with a delay, a blockhash is published
/// only if it was seen at least that long ago.
pub proof fn law_delayed_blockhashes_are_aged(
    state: UpdaterState,
    delay: u128,
    fetched: Option<[u8; 32]>,
    now: u128,
)
    requires
        state.delay == Some(delay),
    ensures
        state.turn(UpdaterEvent::Polled { fetched, now }).1 matches UpdaterAction::Publish {
            blockhash,
        } ==> {
            let line = state.sighted(fetched, now).line;
            exists|k: int|
                0 <= k < line.len() && (#[trigger] line[k]).blockhash == blockhash
                    && line[k].seen_at + delay <= now
        },
{
    let line = state.sighted(fetched, now).line;
    let count = ripe_count(line, delay, now) as int;
    if count > 0 {
        lemma_ripe_are_old(line, delay, now, count - 1);
        assert(line[count - 1].seen_at + delay <= now);
    }
}

/// The range in which an aged block is looked for: it ends exactly `stale_slots`
/// behind the current slot and reaches exactly 150 slots further back, each as far
/// as there are slots.
pub proof fn law_aged_range_is_exact(stale_slots: u64, current_slot: u64)
    ensures
        fetch_turn(stale_slots, FetchEvent::SlotAnswered(Ok(current_slot))) matches
            FetchView::GetBlocks { start_slot, target_slot } && {
            &&& stale_slots <= current_slot ==> target_slot + stale_slots == current_slot
            &&& stale_slots > current_slot ==> target_slot == 0
            &&& target_slot >= 150 ==> start_slot + 150 == target_slot
            &&& target_slot < 150 ==> start_slot == 0
        },
{
}

/// The block that is asked for is the newest of those that were produced in the
/// range: it is one of them and none is behind it, so it is the target itself where
/// that slot was not skipped. Where no block was produced, the fetch fails.
pub proof fn law_newest_block_is_asked_for(
    stale_slots: u64,
    start_slot: u64,
    target_slot: u64,
    slots: Vec<u64>,
)
    requires
        forall|i: int, j: int|
            0 <= i <= j < slots@.len() ==> #[trigger] slots@[i] <= #[trigger] slots@[j],
    ensures
        ({
            let action = fetch_turn(
                stale_slots,
                FetchEvent::BlocksAnswered { start_slot, target_slot, answer: Ok(slots) },
            );
            &&& slots@.len() > 0 ==> action is GetBlock
            &&& slots@.len() == 0 ==> (action matches FetchView::Done(Err(_)))
            &&& action matches FetchView::GetBlock { block_slot } ==> {
                &&& slots@.contains(block_slot)
                &&& forall|i: int| 0 <= i < slots@.len() ==> #[trigger] slots@[i] <= block_slot
                &&& slots@.contains(target_slot) && (forall|i: int|
                    0 <= i < slots@.len() ==> #[trigger] slots@[i] <= target_slot) ==> block_slot
                    == target_slot
            }
        }),
{
    if slots@.len() > 0 {
        let newest = slots@[slots@.len() - 1];
        assert(slots@.contains(newest));
        if slots@.contains(target_slot) {
            let k = choose|k: int| 0 <= k < slots@.len() && slots@[k] == target_slot;
            assert(slots@[k] <= newest);
        }
    }
}

/// How a fetch goes: slot, blocks, block, blockhash. It ends with the blockhash of
/// the block that was asked for, as it is read from the node's answer, or with an
/// error; and it ends with an error exactly where the node answers with one, no
/// block was produced, or the blockhash cannot be read. What the node says of its
/// failure, or the reader of the blockhash of its own, is part of the error.
pub proof fn law_fetch_ends_with_the_blockhash(stale_slots: u64, event: FetchEvent)
    ensures
        match (event, fetch_turn(stale_slots, event)) {
            (FetchEvent::Begun, action) => action is GetSlot,
            (FetchEvent::SlotAnswered(Ok(_)), action) => action is GetBlocks,
            (FetchEvent::SlotAnswered(Err(error)), action) => ends_in_error(action, error@),
            (FetchEvent::BlocksAnswered { answer: Err(error), .. }, action) => ends_in_error(
                action,
                error@,
            ),
            (FetchEvent::BlocksAnswered { answer: Ok(slots), .. }, action) => {
                action is GetBlock <==> slots@.len() > 0
            },
            (FetchEvent::BlockAnswered { answer: Err(error), .. }, action) => ends_in_error(
                action,
                error@,
            ),
            (FetchEvent::BlockAnswered { answer: Ok(notation), .. }, action) => match wire::hash_reading(
                notation@,
            ) {
                Ok(blockhash) => action == FetchView::Done(Ok(blockhash)),
                Err(error) => ends_in_error(action, error),
            },
        },
{
    match event {
        FetchEvent::SlotAnswered(Err(error)) => {
            let front = "getSlot failed: "@;
            assert(front + error@ + Seq::empty() =~= front + error@);
        },
        FetchEvent::BlocksAnswered { start_slot, target_slot, answer: Err(error) } => {
            let front = "getBlocks("@ + text::decimal(start_slot as nat) + "..="@ + text::decimal(
                target_slot as nat,
            ) + ") failed: "@;
            let back =
                ". The target RPC must serve getBlock/getBlocks; run the validator with --enable-rpc-transaction-history."@;
            assert(blocks_error(start_slot, target_slot, error@) == front + error@ + back);
        },
        FetchEvent::BlockAnswered { block_slot, answer: Err(error) } => {
            let front = "getBlock("@ + text::decimal(block_slot as nat) + ") failed: "@;
            let back =
                ". The target RPC must serve getBlock; run the validator with --enable-rpc-transaction-history."@;
            assert(block_error(block_slot, error@) == front + error@ + back);
        },
        FetchEvent::BlockAnswered { block_slot, answer: Ok(notation) } => {
            if let Err(error) = wire::hash_reading(notation@) {
                let front = "failed to parse blockhash of slot "@ + text::decimal(block_slot as nat)
                    + ": "@;
                assert(front + error + Seq::empty() =~= front + error);
            }
        },
        _ => {},
    }
}

/// A fetch is over with an error that quotes these words.
pub open spec fn ends_in_error(action: FetchView, words: Seq<char>) -> bool {
    exists|front: Seq<char>, back: Seq<char>|
        action == FetchView::Done(Err(#[trigger] (front + words + back)))
}

/// The time since which there is nothing new: the latest start, or the latest
/// publication where there is no delay.
pub open spec fn quiet_since(events: Seq<UpdaterEvent>) -> Option<u128>
    decreases events.len(),
{
    if events.len() == 0 {
        None
    } else {
        match events.last() {
            UpdaterEvent::Started { now } => Some(now),
            UpdaterEvent::Published { now } => Some(now),
            _ => quiet_since(events.drop_last()),
        }
    }
}

/// Without a delay the updater counts from its start and from each publication.
pub proof fn law_clock_restarts_with_each_publication(
    initial: UpdaterState,
    events: Seq<UpdaterEvent>,
)
    requires
        initial.delay is None,
    ensures
        ({
            let state = updater_history(initial, events).0;
            &&& state.delay is None
            &&& state.config == initial.config
            &&& state.stale_slots == initial.stale_slots
            &&& quiet_since(events) matches Some(then) ==> state.blockhash_last_updated == then
        }),
    decreases events.len(),
{
    if events.len() > 0 {
        law_clock_restarts_with_each_publication(initial, events.drop_last());
    }
}

/// What comes of a poll that brings nothing new, without a delay. Let `idle` be the
/// time since the last news. Past the stuck interval the updater gives up; past the
/// warning interval it warns, in whole seconds, unless it has warned less than the
/// report interval ago; else it just polls on. The time of a warning is kept, and
/// nothing else changes.
pub proof fn law_quiet_polls_lead_to_warnings(state: UpdaterState, fetched: Option<[u8; 32]>, now: u128)
    requires
        state.delay is None,
        fetched matches Some(blockhash) ==> blockhash == state.last_blockhash,
        state.blockhash_last_updated <= now,
        state.last_error_log <= now,
    ensures
        ({
            let idle = now - state.blockhash_last_updated;
            let (after, action) = state.turn(UpdaterEvent::Polled { fetched, now });
            let warned_long_ago = now - state.last_error_log >= state.config.error_report_interval;
            if idle > state.config.stuck_interval {
                action == UpdaterAction::Fail(BlockhashUpdaterError::BlockhashStuck)
            } else if idle > state.config.not_updating_interval && warned_long_ago {
                &&& action matches UpdaterAction::Poll { not_updating_for_secs: Some(secs) } && secs
                    * 1_000_000_000 <= idle < (secs + 1) * 1_000_000_000
                &&& after.last_error_log == now
                &&& after.blockhash_last_updated == state.blockhash_last_updated
            } else {
                &&& action == UpdaterAction::Poll { not_updating_for_secs: None }
                &&& after.last_error_log == state.last_error_log
                &&& after.blockhash_last_updated == state.blockhash_last_updated
            }
        }),
{
}

/// The updater is done exactly when nobody listens any more, and publishes exactly
/// what a poll brought it to.
pub proof fn law_when_the_updater_is_done(state: UpdaterState, event: UpdaterEvent)
    requires
        state.awaits(event),
    ensures
        ({
            let (after, action) = state.turn(event);
            &&& action is Finish <==> event is ChannelClosed || event is PublishFailed
            &&& action is Publish ==> event is Polled
            &&& action is Publish <==> after.phase is Publishing
            &&& action is Poll <==> after.phase is Polling
            &&& action matches UpdaterAction::Publish { blockhash } ==> after.last_blockhash
                == blockhash
            &&& !(action is Publish) ==> after.last_blockhash == state.last_blockhash
        }),
{
}

/// How a delay line works. A blockhash that was not seen last joins it at the end,
/// with the time. Then all that were seen at least the delay ago leave it in front.
/// The newest of those that leave is published, unless it was published last; where
/// none leaves, nothing is published.
pub proof fn law_delay_line_gives_the_newest_ripe_blockhash(
    state: UpdaterState,
    delay: u128,
    fetched: Option<[u8; 32]>,
    now: u128,
)
    requires
        state.delay == Some(delay),
    ensures
        ({
            let (after, action) = state.turn(UpdaterEvent::Polled { fetched, now });
            let line = match fetched {
                Some(blockhash) if blockhash != state.last_seen => state.line.push(
                    Sighting { seen_at: now, blockhash },
                ),
                _ => state.line,
            };
            let k = line.len() - after.line.len();
            &&& 0 <= k <= line.len()
            &&& after.line == line.skip(k)
            &&& forall|i: int| 0 <= i < k ==> (#[trigger] line[i]).seen_at + delay <= now
            &&& k < line.len() ==> line[k].seen_at + delay > now
            &&& k > 0 && line[k - 1].blockhash != state.last_blockhash ==> action
                == UpdaterAction::Publish { blockhash: line[k - 1].blockhash }
            &&& k == 0 || line[k - 1].blockhash == state.last_blockhash ==> !(action is Publish)
            &&& fetched matches Some(blockhash) ==> after.last_seen == blockhash
            &&& fetched is None ==> after.last_seen == state.last_seen
            &&& line.len() > state.line.len() ==> after.blockhash_last_updated == now
            &&& line.len() == state.line.len() ==> after.blockhash_last_updated
                == state.blockhash_last_updated
        }),
{
    let sighted = state.sighted(fetched, now);
    let line = sighted.line;
    let k = ripe_count(line, delay, now) as int;
    lemma_ripe_count_bounded(line, delay, now);
    lemma_next_is_not_ripe(line, delay, now);
    assert forall|i: int| 0 <= i < k implies (#[trigger] line[i]).seen_at + delay <= now by {
        lemma_ripe_are_old(line, delay, now, i);
    }
}

proof fn lemma_next_is_not_ripe(line: Seq<Sighting>, delay: u128, now: u128)
    ensures
        ({
            let k = ripe_count(line, delay, now) as int;
            0 <= k < line.len() ==> line[k].seen_at + delay > now
        }),
    decreases line.len(),
{
    if line.len() > 0 && line[0].seen_at + delay <= now {
        lemma_next_is_not_ripe(line.drop_first(), delay, now);
    }
}

/// An updater never gets stuck: whatever it asks for, it takes the answer, and once
/// it is over nothing is awaited.
pub proof fn law_what_is_asked_for_is_awaited(
    state: UpdaterState,
    event: UpdaterEvent,
    fetched: Option<[u8; 32]>,
    now: u128,
)
    requires
        state.awaits(event),
    ensures
        ({
            let (after, action) = state.turn(event);
            &&& action is Poll <==> after.awaits(UpdaterEvent::Polled { fetched, now })
            &&& action is Poll <==> after.awaits(UpdaterEvent::ChannelClosed)
            &&& action is Publish <==> after.awaits(UpdaterEvent::Published { now })
            &&& action is Publish <==> after.awaits(UpdaterEvent::PublishFailed)
            &&& !after.awaits(UpdaterEvent::Started { now })
        }),
{
}

/// What a fresh updater is: it has published and seen nothing, and awaits its start.
pub proof fn law_fresh_updaters(
    state: UpdaterState,
    config: BlockhashUpdaterConfig,
    stale_slots: u64,
    delay: Option<u128>,
    now: u128,
)
    requires
        is_fresh(state, config, stale_slots, delay),
    ensures
        state.awaits(UpdaterEvent::Started { now }),
        state.config == config,
        state.stale_slots == stale_slots,
        state.delay == delay,
        state.line.len() == 0,
        forall|i: int| 0 <= i < 32 ==> #[trigger] state.last_blockhash@[i] == 0,
        forall|i: int| 0 <= i < 32 ==> #[trigger] state.last_seen@[i] == 0,
        state.turn(UpdaterEvent::Started { now }).1 == (UpdaterAction::Poll {
            not_updating_for_secs: None,
        }),
        state.turn(UpdaterEvent::Started { now }).0.blockhash_last_updated == now,
{
}

/// What a fetch asks for is what it says: the views hide nothing.
pub proof fn law_fetch_views(start_slot: u64, target_slot: u64, hash: [u8; 32], words: String)
    ensures
        FetchAction::GetSlot@ is GetSlot,
        (FetchAction::GetBlocks { start_slot, target_slot })@ == (FetchView::GetBlocks {
            start_slot,
            target_slot,
        }),
        (FetchAction::GetBlock { block_slot: target_slot })@ == (FetchView::GetBlock {
            block_slot: target_slot,
        }),
        FetchAction::Done(Ok(hash))@ == FetchView::Done(Ok(hash@)),
        FetchAction::Done(Err(words))@ == FetchView::Done(Err(words@)),
{
}

/// After a publication the updater polls on. Without a delay it has just had news, so
/// there is nothing to warn of. With one, what counts is when a blockhash was last
/// seen: past the stuck interval the updater gives up, and before that it warns only
/// past the warning interval.
pub proof fn law_after_a_publication(state: UpdaterState, now: u128)
    requires
        state.blockhash_last_updated <= now,
    ensures
        ({
            let (after, action) = state.turn(UpdaterEvent::Published { now });
            let idle = now - state.blockhash_last_updated;
            &&& state.delay is None ==> {
                &&& action == UpdaterAction::Poll { not_updating_for_secs: None }
                &&& after.blockhash_last_updated == now
            }
            &&& state.delay is Some ==> {
                &&& action is Fail <==> idle > state.config.stuck_interval
                &&& idle <= state.config.not_updating_interval && idle
                    <= state.config.stuck_interval ==> action == UpdaterAction::Poll {
                    not_updating_for_secs: None,
                }
                &&& after.blockhash_last_updated == state.blockhash_last_updated
            }
        }),
{
}

/// With a delay, a poll after which nothing is published leads to the same warnings:
/// what counts is when a blockhash was last seen.
pub proof fn law_quiet_delay_lines_lead_to_warnings(
    state: UpdaterState,
    delay: u128,
    fetched: Option<[u8; 32]>,
    now: u128,
)
    requires
        state.delay == Some(delay),
        fetched matches Some(blockhash) ==> blockhash == state.last_seen,
        state.blockhash_last_updated <= now,
        state.last_error_log <= now,
    ensures
        ({
            let idle = now - state.blockhash_last_updated;
            let (after, action) = state.turn(UpdaterEvent::Polled { fetched, now });
            let warned_long_ago = now - state.last_error_log >= state.config.error_report_interval;
            !(action is Publish) ==> if idle > state.config.stuck_interval {
                action == UpdaterAction::Fail(BlockhashUpdaterError::BlockhashStuck)
            } else if idle > state.config.not_updating_interval && warned_long_ago {
                &&& action matches UpdaterAction::Poll { not_updating_for_secs: Some(secs) } && secs
                    * 1_000_000_000 <= idle < (secs + 1) * 1_000_000_000
                &&& after.last_error_log == now
            } else {
                &&& action == UpdaterAction::Poll { not_updating_for_secs: None }
                &&& after.last_error_log == state.last_error_log
            }
        }),
{
}

} // verus!
