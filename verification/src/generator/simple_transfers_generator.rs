//! Batches of transfer transactions: which payers pay which, and how much.
use vstd::prelude::*;
use vstd::arithmetic::div_mod::*;
use crate::cli::{InstructionPaddingConfig, TransactionParams};
use crate::generator::transaction_builder;
use crate::generator::transaction_builder::{create_serialized_transfers, Cursor};
use crate::priority_fee::{PriorityFeeMode, PriorityFeeStats, ShapedDraw};
use crate::priority_fee;
use crate::wire;
use crate::wire::{Instruction, Keypair};

verus! {

/// What the surroundings contribute to one transaction: the time, and what was
/// made of a random number.
#[derive(Clone, Debug, PartialEq)]
pub struct TxInputs {
    /// Milliseconds of wall-clock time.
    pub now_ms: u64,
    pub draw: ShapedDraw,
}

/// The senders of a batch of `pairs` transfers, in order: the payers from
/// `index_payer` on, going round at the end of the list.
pub open spec fn batch_senders(payers: Seq<Keypair>, index_payer: usize, pairs: nat) -> Seq<
    Keypair,
> {
    Seq::new(
        pairs,
        |i: int| transaction_builder::walked(payers, index_payer as int, pairs as int, i),
    )
}

/// The receivers of a batch of `pairs` transfers, in order: the payers behind the
/// senders. With conflict groups there are only so many, over and over again.
pub open spec fn batch_receivers(
    payers: Seq<Keypair>,
    index_payer: usize,
    pairs: nat,
    num_conflict_groups: Option<usize>,
) -> Seq<Keypair> {
    let period = match num_conflict_groups {
        Some(groups) => groups as int,
        None => pairs as int,
    };
    let start = (index_payer + pairs) % payers.len() as int;
    Seq::new(pairs, |i: int| transaction_builder::walked(payers, start, period, i))
}

/// No two payers have the same address.
pub open spec fn distinct_payers(payers: Seq<Keypair>) -> bool {
    forall|i: int, j: int|
        0 <= i < j < payers.len() ==> #[trigger] payers[i].address() != #[trigger] payers[j].address()
}

/// A batch can be made of these payers: there are some, each transaction holds at
/// least one transfer and no more than its format allows, padding stays within
/// its limit, and no sender occurs twice in a V1 transaction.
pub open spec fn batch_possible(
    payers: Seq<Keypair>,
    params: TransactionParams,
    padding: Option<&InstructionPaddingConfig>,
) -> bool {
    let n = params.simple_transfer_tx_params.num_send_instructions_per_tx;
    &&& payers.len() > 0
    &&& 1 <= n <= transaction_builder::transfer_limit(params.use_txv1)
    &&& params.simple_transfer_tx_params.num_conflict_groups != Some(0usize)
    &&& transaction_builder::padded_transfer_fits(padding)
    &&& params.use_txv1 ==> n <= payers.len() && distinct_payers(payers)
}

fn are_distinct(payers: &Vec<Keypair>) -> (distinct: bool)
    ensures
        distinct == distinct_payers(payers@),
{
    let mut j: usize = 0;
    while j < payers.len()
        invariant
            j <= payers@.len(),
            forall|a: int, b: int|
                0 <= a < b < j ==> #[trigger] payers@[a].address() != #[trigger] payers@[b].address(),
        decreases payers@.len() - j,
    {
        let address: [u8; 32] = payers[j].pubkey();
        let mut i: usize = 0;
        while i < j
            invariant
                i <= j < payers@.len(),
                address@ == payers@[j as int].address(),
                forall|a: int| 0 <= a < i ==> #[trigger] payers@[a].address() != address@,
            decreases j - i,
        {
            if wire::same_bytes(&payers[i].pubkey(), &address) {
                return false;
            }
            i += 1;
        }
        j += 1;
    }
    true
}

/// Whether a batch can be made of these payers.
pub fn is_batch_possible(
    payers: &Vec<Keypair>,
    params: &TransactionParams,
    padding: Option<&InstructionPaddingConfig>,
) -> (possible: bool)
    ensures
        possible == batch_possible(payers@, *params, padding),
{
    let n: usize = params.simple_transfer_tx_params.num_send_instructions_per_tx;
    let limit: usize = if params.use_txv1 {
        127
    } else {
        255
    };
    if payers.len() == 0 || n < 1 || n > limit {
        return false;
    }
    if let Some(groups) = params.simple_transfer_tx_params.num_conflict_groups {
        if groups == 0 {
            return false;
        }
    }
    if let Some(config) = padding {
        if config.data_size > 10219 {
            return false;
        }
    }
    !params.use_txv1 || (n <= payers.len() && are_distinct(payers))
}

/// The position of transaction `t` of a batch in overall send order.
pub open spec fn tx_position(first_tx_index: u64, t: int) -> u64 {
    if first_tx_index + t <= u64::MAX {
        (first_tx_index + t) as u64
    } else {
        u64::MAX
    }
}

/// `bytes` is transaction `t` of a batch in which `fee` was added to the base
/// price: the transfers number `t * n` and following, `n` of them.
pub open spec fn is_batch_transaction(
    bytes: Seq<u8>,
    t: int,
    fee: u64,
    payers: Seq<Keypair>,
    index_payer: usize,
    blockhash: Seq<u8>,
    params: TransactionParams,
    padding: Option<&InstructionPaddingConfig>,
    compute_unit_price: Option<u64>,
    mode: PriorityFeeMode,
    amounts: Seq<u64>,
) -> bool {
    let transfers = params.simple_transfer_tx_params;
    let n = transfers.num_send_instructions_per_tx;
    let pairs = amounts.len();
    bytes == transaction_builder::transfers_bytes(
        batch_senders(payers, index_payer, pairs).skip(t * n),
        batch_receivers(payers, index_payer, pairs, transfers.num_conflict_groups).skip(t * n),
        amounts.skip(t * n),
        blockhash,
        Seq::empty(),
        Seq::empty(),
        n,
        transfers.transfer_tx_cu_budget,
        padding,
        transaction_builder::effective_price(compute_unit_price, mode, fee),
        params.use_txv1,
    )
}

/// The sum of the prices of the first `count` transactions.
pub open spec fn price_sum(
    fees: Seq<u64>,
    count: int,
    compute_unit_price: Option<u64>,
    mode: PriorityFeeMode,
) -> int
    decreases count,
{
    if count <= 0 {
        0
    } else {
        price_sum(fees, count - 1, compute_unit_price, mode)
            + transaction_builder::effective_price(compute_unit_price, mode, fees[count - 1])->0
    }
}

/// These fees account for the transactions of a batch and for what was recorded
/// of them: each is allowed by the mode, and where a mode is active the prices
/// were added up and the transactions counted.
pub open spec fn fees_account_for(
    fees: Seq<u64>,
    transactions: Seq<Vec<u8>>,
    payers: Seq<Keypair>,
    index_payer: usize,
    blockhash: Seq<u8>,
    params: TransactionParams,
    padding: Option<&InstructionPaddingConfig>,
    compute_unit_price: Option<u64>,
    mode: PriorityFeeMode,
    amounts: Seq<u64>,
    first_tx_index: u64,
    inputs: Seq<TxInputs>,
    before: PriorityFeeStats,
    after: PriorityFeeStats,
) -> bool {
    &&& fees.len() == transactions.len()
    &&& forall|t: int|
        0 <= t < fees.len() ==> mode.allows_fee(
            tx_position(first_tx_index, t),
            inputs[t].now_ms,
            inputs[t].draw,
            #[trigger] fees[t],
        )
    &&& forall|t: int|
        0 <= t < fees.len() ==> is_batch_transaction(
            (#[trigger] transactions[t])@,
            t,
            fees[t],
            payers,
            index_payer,
            blockhash,
            params,
            padding,
            compute_unit_price,
            mode,
            amounts,
        )
    &&& if mode is BaseOnly {
        after == before
    } else {
        &&& after.total_fees() == (before.total_fees() + price_sum(
            fees,
            fees.len() as int,
            compute_unit_price,
            mode,
        )) % 0x1_0000_0000_0000_0000
        &&& after.tx_count() == (before.tx_count() + fees.len()) % 0x1_0000_0000_0000_0000
    }
}

proof fn lemma_price_sum_prefix(
    fees: Seq<u64>,
    fee: u64,
    count: int,
    compute_unit_price: Option<u64>,
    mode: PriorityFeeMode,
)
    requires
        count <= fees.len(),
    ensures
        price_sum(fees.push(fee), count, compute_unit_price, mode) == price_sum(
            fees,
            count,
            compute_unit_price,
            mode,
        ),
    decreases count,
{
    if count > 0 {
        lemma_price_sum_prefix(fees, fee, count - 1, compute_unit_price, mode);
    }
}

/// As long as no more payers are walked over than there are, none comes twice.
proof fn lemma_window_is_distinct(payers: Seq<Keypair>, index_payer: usize, pairs: nat, at: int, n: nat)
    requires
        distinct_payers(payers),
        0 < n <= payers.len(),
        0 <= at,
        at + n <= pairs,
    ensures
        transaction_builder::first_addresses(
            batch_senders(payers, index_payer, pairs).skip(at),
            n,
        ).no_duplicates(),
{
    let senders = batch_senders(payers, index_payer, pairs);
    let window = transaction_builder::first_addresses(senders.skip(at), n);
    let len = payers.len() as int;
    assert forall|i: int, j: int| 0 <= i < j < n implies window[i] != window[j] by {
        let a = index_payer + at + i;
        let b = index_payer + at + j;
        lemma_small_mod((at + i) as nat, pairs);
        lemma_small_mod((at + j) as nat, pairs);
        assert(window[i] == payers[a % len].address());
        assert(window[j] == payers[b % len].address());
        lemma_mod_bound(a, len);
        lemma_mod_bound(b, len);
        lemma_nearby_positions_differ(a, b, len);
        assert(a % len < b % len || b % len < a % len);
    }
}

/// With conflict groups, destinations repeat: the same receiver comes again after
/// as many transfers as there are groups.
pub proof fn law_conflict_groups_repeat_receivers(
    payers: Seq<Keypair>,
    index_payer: usize,
    pairs: nat,
    groups: usize,
    i: int,
)
    requires
        payers.len() > 0,
        groups > 0,
        0 <= i,
        i + groups < pairs,
    ensures
        batch_receivers(payers, index_payer, pairs, Some(groups))[i + groups]
            == batch_receivers(payers, index_payer, pairs, Some(groups))[i],
{
    lemma_mod_add_multiples_vanish(i, groups as int);
}

/// Without conflict groups, all destinations of a batch are different, and nobody
/// both sends and receives, as long as there are enough different payers.
pub proof fn law_destinations_are_unique_by_default(
    payers: Seq<Keypair>,
    index_payer: usize,
    pairs: nat,
    i: int,
    j: int,
)
    requires
        distinct_payers(payers),
        2 * pairs <= payers.len(),
        0 <= i < pairs,
        0 <= j < pairs,
    ensures
        ({
            let senders = batch_senders(payers, index_payer, pairs);
            let receivers = batch_receivers(payers, index_payer, pairs, None);
            &&& i != j ==> receivers[i].address() != receivers[j].address()
            &&& senders[i].address() != receivers[j].address()
        }),
{
    let len = payers.len() as int;
    let start = (index_payer + pairs) % len;
    lemma_small_mod(i as nat, pairs);
    lemma_small_mod(j as nat, pairs);
    lemma_add_mod_noop_right(i, index_payer + pairs, len);
    lemma_add_mod_noop_right(j, index_payer + pairs, len);
    assert((start + i) % len == (index_payer + pairs + i) % len);
    assert((start + j) % len == (index_payer + pairs + j) % len);
    if i < j {
        lemma_nearby_positions_differ(index_payer + pairs + i, index_payer + pairs + j, len);
    } else if j < i {
        lemma_nearby_positions_differ(index_payer + pairs + j, index_payer + pairs + i, len);
    }
    lemma_nearby_positions_differ(index_payer + i, index_payer + pairs + j, len);
    lemma_mod_bound(index_payer + i, len);
    lemma_mod_bound(index_payer + pairs + i, len);
    lemma_mod_bound(index_payer + pairs + j, len);
    let a = (index_payer + i) % len;
    let b = (index_payer + pairs + i) % len;
    let c = (index_payer + pairs + j) % len;
    assert(a < c || c < a);
    assert(i != j ==> b < c || c < b);
}

/// Going round a list of `len`, fewer than `len` steps never come back.
proof fn lemma_nearby_positions_differ(a: int, b: int, len: int)
    requires
        0 < len,
        a < b < a + len,
    ensures
        a % len != b % len,
{
    if a % len == b % len {
        lemma_fundamental_div_mod(a, len);
        lemma_fundamental_div_mod(b, len);
        let qa = a / len;
        let qb = b / len;
        assert(b - a == len * (qb - qa)) by (nonlinear_arith)
            requires
                a == len * qa + a % len,
                b == len * qb + b % len,
                a % len == b % len,
        ;
        assert(qb - qa >= 1 ==> len * (qb - qa) >= len) by (nonlinear_arith)
            requires
                len > 0,
        ;
        assert(qb - qa <= 0 ==> len * (qb - qa) <= 0) by (nonlinear_arith)
            requires
                len > 0,
        ;
    }
}

/// Builds the transactions of a batch from amounts that are already drawn. Senders
/// and receivers are taken from the payers, in order.
#[verifier::rlimit(40)]
pub fn create_transfer_batch(
    payers: &Vec<Keypair>,
    index_payer: usize,
    blockhash: &[u8; 32],
    params: &TransactionParams,
    padding: Option<&InstructionPaddingConfig>,
    compute_unit_price: Option<u64>,
    priority_fee_mode: &PriorityFeeMode,
    priority_fee_stats: &mut PriorityFeeStats,
    first_tx_index: u64,
    amounts: &Vec<u64>,
    inputs: &Vec<TxInputs>,
) -> (transactions: Vec<Vec<u8>>)
    requires
        batch_possible(payers@, *params, padding),
        priority_fee_mode.well_formed(),
        amounts@.len() == params.simple_transfer_tx_params.num_send_instructions_per_tx
            * inputs@.len(),
    ensures
        transactions@.len() == inputs@.len(),
        exists|fees: Seq<u64>|
            #[trigger] fees_account_for(
                fees,
                transactions@,
                payers@,
                index_payer,
                blockhash@,
                *params,
                padding,
                compute_unit_price,
                *priority_fee_mode,
                amounts@,
                first_tx_index,
                inputs@,
                *old(priority_fee_stats),
                *final(priority_fee_stats),
            ),
{
    let ghost before = *priority_fee_stats;
    let ghost mode = *priority_fee_mode;
    let ghost mut fees: Seq<u64> = Seq::empty();
    let mut transactions: Vec<Vec<u8>> = Vec::new();
    let size: usize = inputs.len();
    proof {
        priority_fee::lemma_counters_fit(before);
        lemma_small_mod(before.total_fees() as nat, 0x1_0000_0000_0000_0000);
        lemma_small_mod(before.tx_count() as nat, 0x1_0000_0000_0000_0000);
    }
    if size == 0 {
        assert(fees_account_for(
            fees,
            transactions@,
            payers@,
            index_payer,
            blockhash@,
            *params,
            padding,
            compute_unit_price,
            mode,
            amounts@,
            first_tx_index,
            inputs@,
            before,
            *priority_fee_stats,
        ));
        return transactions;
    }
    let n: usize = params.simple_transfer_tx_params.num_send_instructions_per_tx;
    let budget: u32 = params.simple_transfer_tx_params.transfer_tx_cu_budget;
    let pairs: usize = amounts.len();
    assert(pairs >= 1) by (nonlinear_arith)
        requires
            pairs == n * size,
            n >= 1,
            size >= 1,
    ;
    let period: usize = match params.simple_transfer_tx_params.num_conflict_groups {
        Some(groups) => groups,
        None => pairs,
    };
    let start: usize = ((index_payer as u128 + pairs as u128) % payers.len() as u128) as usize;
    let mut accounts_from: Cursor<Keypair> = Cursor::cycling(
        payers.as_slice(),
        index_payer,
        pairs,
        pairs,
    );
    let mut accounts_to: Cursor<Keypair> = Cursor::cycling(payers.as_slice(), start, period, pairs);
    let mut lamports: Cursor<u64> = Cursor::new(amounts.as_slice());
    let ghost senders = batch_senders(payers@, index_payer, pairs as nat);
    let ghost receivers = batch_receivers(
        payers@,
        index_payer,
        pairs as nat,
        params.simple_transfer_tx_params.num_conflict_groups,
    );
    assert(accounts_from.remaining() =~= senders.skip(0));
    assert(accounts_to.remaining() =~= receivers.skip(0));
    assert(lamports.remaining() =~= amounts@.skip(0));
    assert(0 * n == 0);
    let mut t: usize = 0;
    while t < size
        invariant
            t <= size,
            size == inputs@.len(),
            n == params.simple_transfer_tx_params.num_send_instructions_per_tx,
            budget == params.simple_transfer_tx_params.transfer_tx_cu_budget,
            pairs == amounts@.len(),
            pairs == n * size,
            batch_possible(payers@, *params, padding),
            mode == *priority_fee_mode,
            mode.well_formed(),
            senders == batch_senders(payers@, index_payer, pairs as nat),
            receivers == batch_receivers(
                payers@,
                index_payer,
                pairs as nat,
                params.simple_transfer_tx_params.num_conflict_groups,
            ),
            accounts_from.remaining() == senders.skip(t * n),
            accounts_to.remaining() == receivers.skip(t * n),
            lamports.remaining() == amounts@.skip(t * n),
            transactions@.len() == t,
            fees_account_for(
                fees,
                transactions@,
                payers@,
                index_payer,
                blockhash@,
                *params,
                padding,
                compute_unit_price,
                mode,
                amounts@,
                first_tx_index,
                inputs@,
                before,
                *priority_fee_stats,
            ),
        decreases size - t,
    {
        let ghost at = t * n;
        let ghost from = senders.skip(at);
        let ghost to = receivers.skip(at);
        let ghost left = amounts@.skip(at);
        proof {
            assert(0 <= at && at + n <= pairs && (t + 1) * n == at + n) by (nonlinear_arith)
                requires
                    at == t * n,
                    0 <= t < size,
                    n >= 0,
                    pairs == n * size,
            ;
            if params.use_txv1 {
                lemma_window_is_distinct(payers@, index_payer, pairs as nat, at, n as nat);
            }
            assert(transaction_builder::transfer_count(from, to, left, n as nat) == n);
            transaction_builder::law_fresh_transfers_are_signable(
                from,
                to,
                left,
                n,
                budget,
                padding,
                transaction_builder::effective_price(compute_unit_price, mode, 0),
                params.use_txv1,
            );
            assert(from.skip(n as int) =~= senders.skip(at + n));
            assert(to.skip(n as int) =~= receivers.skip(at + n));
            assert(left.skip(n as int) =~= amounts@.skip(at + n));
        }
        let tx_index: u64 = first_tx_index.saturating_add(t as u64);
        let mut instructions: Vec<Instruction> = Vec::new();
        let mut signers: Vec<&Keypair> = Vec::new();
        assert(instructions@ =~= Seq::empty());
        assert(signers@ =~= Seq::empty());
        let ghost stats = *priority_fee_stats;
        let bytes: Vec<u8> = create_serialized_transfers(
            &mut accounts_from,
            &mut accounts_to,
            &mut lamports,
            blockhash,
            &mut instructions,
            &mut signers,
            n,
            budget,
            padding,
            compute_unit_price,
            priority_fee_mode,
            priority_fee_stats,
            tx_index,
            inputs[t].now_ms,
            &inputs[t].draw,
            params.use_txv1,
        );
        let ghost old_transactions = transactions@;
        let ghost old_fees = fees;
        proof {
            let input = inputs@[t as int];
            let fee = choose|fee: u64|
                {
                    let price = transaction_builder::effective_price(compute_unit_price, mode, fee);
                    &&& #[trigger] mode.allows_fee(tx_index, input.now_ms, input.draw, fee)
                    &&& bytes@ == transaction_builder::transfers_bytes(
                        from,
                        to,
                        left,
                        blockhash@,
                        Seq::empty(),
                        Seq::empty(),
                        n,
                        budget,
                        padding,
                        price,
                        params.use_txv1,
                    )
                    &&& match (mode, price) {
                        (PriorityFeeMode::BaseOnly, _) => *priority_fee_stats == stats,
                        (_, Some(price)) => {
                            &&& priority_fee_stats.total_fees() == (stats.total_fees() + price)
                                % 0x1_0000_0000_0000_0000
                            &&& priority_fee_stats.tx_count() == (stats.tx_count() + 1)
                                % 0x1_0000_0000_0000_0000
                        },
                        _ => false,
                    }
                };
            fees = old_fees.push(fee);
            lemma_price_sum_prefix(old_fees, fee, t as int, compute_unit_price, mode);
            let m = 0x1_0000_0000_0000_0000int;
            let price = transaction_builder::effective_price(compute_unit_price, mode, fee)->0;
            lemma_add_mod_noop_right(
                price as int,
                before.total_fees() + price_sum(old_fees, t as int, compute_unit_price, mode),
                m,
            );
            lemma_add_mod_noop_right(1, before.tx_count() + t, m);
        }
        transactions.push(bytes);
        proof {
            assert forall|u: int| 0 <= u < fees.len() implies is_batch_transaction(
                (#[trigger] transactions@[u])@,
                u,
                fees[u],
                payers@,
                index_payer,
                blockhash@,
                *params,
                padding,
                compute_unit_price,
                mode,
                amounts@,
            ) by {
                if u < t {
                    assert(transactions@[u] == old_transactions[u]);
                    assert(fees[u] == old_fees[u]);
                }
            }
            assert forall|u: int| 0 <= u < fees.len() implies mode.allows_fee(
                tx_position(first_tx_index, u),
                inputs@[u].now_ms,
                inputs@[u].draw,
                #[trigger] fees[u],
            ) by {
                if u < t {
                    assert(fees[u] == old_fees[u]);
                }
            }
        }
        t += 1;
    }
    transactions
}

/// Calls `rand::seq::index::sample` on the thread's generator: `amount` different
/// numbers below `length`, different ones each time. The call panics where there
/// are not that many.
#[verifier::external_body]
fn sample_indices(length: usize, amount: usize) -> (indices: Vec<usize>)
    requires
        amount <= length,
    ensures
        indices@.len() == amount,
        indices@.no_duplicates(),
        forall|i: int| 0 <= i < indices@.len() ==> #[trigger] indices@[i] < length,
{
    rand::seq::index::sample(&mut rand::thread_rng(), length, amount).into_vec()
}

/// `amounts` are different numbers between 1 and `max`.
pub open spec fn unique_amounts(amounts: Seq<u64>, max: u64) -> bool {
    &&& amounts.no_duplicates()
    &&& forall|i: int| 0 <= i < amounts.len() ==> 1 <= #[trigger] amounts[i] <= max
}

/// Draws `count` different amounts between 1 and `max`.
pub fn random_amounts(max: u64, count: usize) -> (amounts: Vec<u64>)
    requires
        count <= max,
    ensures
        amounts@.len() == count,
        unique_amounts(amounts@, max),
{
    let length: usize = if max <= usize::MAX as u64 {
        max as usize
    } else {
        usize::MAX
    };
    let indices: Vec<usize> = sample_indices(length, count);
    let mut amounts: Vec<u64> = Vec::new();
    let mut i: usize = 0;
    while i < indices.len()
        invariant
            i <= indices@.len(),
            amounts@.len() == i,
            length <= max,
            indices@.no_duplicates(),
            forall|j: int| 0 <= j < indices@.len() ==> #[trigger] indices@[j] < length,
            forall|j: int| 0 <= j < i ==> #[trigger] amounts@[j] == indices@[j] + 1,
        decreases indices@.len() - i,
    {
        amounts.push(indices[i] as u64 + 1);
        i += 1;
    }
    amounts
}

/// Generates a batch of transfer transactions. Each transfer of the batch moves a
/// different random amount.
pub fn generate_transfer_transaction_batch(
    payers: &Vec<Keypair>,
    index_payer: usize,
    blockhash: &[u8; 32],
    params: &TransactionParams,
    padding: Option<&InstructionPaddingConfig>,
    compute_unit_price: Option<u64>,
    priority_fee_mode: &PriorityFeeMode,
    priority_fee_stats: &mut PriorityFeeStats,
    first_tx_index: u64,
    inputs: &Vec<TxInputs>,
) -> (transactions: Vec<Vec<u8>>)
    requires
        batch_possible(payers@, *params, padding),
        priority_fee_mode.well_formed(),
        params.simple_transfer_tx_params.num_send_instructions_per_tx * inputs@.len() <= usize::MAX,
        params.simple_transfer_tx_params.num_send_instructions_per_tx * inputs@.len()
            <= params.simple_transfer_tx_params.max_lamports_to_transfer,
    ensures
        transactions@.len() == inputs@.len(),
        exists|fees: Seq<u64>, amounts: Seq<u64>|
            {
                &&& amounts.len()
                    == params.simple_transfer_tx_params.num_send_instructions_per_tx
                    * inputs@.len()
                &&& unique_amounts(
                    amounts,
                    params.simple_transfer_tx_params.max_lamports_to_transfer,
                )
                &&& #[trigger] fees_account_for(
                    fees,
                    transactions@,
                    payers@,
                    index_payer,
                    blockhash@,
                    *params,
                    padding,
                    compute_unit_price,
                    *priority_fee_mode,
                    amounts,
                    first_tx_index,
                    inputs@,
                    *old(priority_fee_stats),
                    *final(priority_fee_stats),
                )
            },
{
    let pairs: usize = params.simple_transfer_tx_params.num_send_instructions_per_tx * inputs.len();
    let amounts: Vec<u64> = random_amounts(
        params.simple_transfer_tx_params.max_lamports_to_transfer,
        pairs,
    );
    create_transfer_batch(
        payers,
        index_payer,
        blockhash,
        params,
        padding,
        compute_unit_price,
        priority_fee_mode,
        priority_fee_stats,
        first_tx_index,
        &amounts,
        inputs,
    )
}

/// The senders of a batch are the payers from `index_payer` on, one per transfer;
/// the receivers are the payers behind them, one per transfer or, with conflict
/// groups, the first so many of them over and over again. The list goes round.
pub proof fn law_receivers_stand_behind_senders(
    payers: Seq<Keypair>,
    index_payer: usize,
    pairs: nat,
    groups: usize,
    i: int,
)
    requires
        payers.len() > 0,
        0 <= i < pairs,
        groups > 0,
    ensures
        ({
            let len = payers.len() as int;
            let senders = batch_senders(payers, index_payer, pairs);
            let receivers = batch_receivers(payers, index_payer, pairs, None);
            let grouped = batch_receivers(payers, index_payer, pairs, Some(groups));
            &&& senders.len() == pairs && receivers.len() == pairs && grouped.len() == pairs
            &&& senders[i] == payers[(index_payer + i) % len]
            &&& receivers[i] == payers[(index_payer + pairs + i) % len]
            &&& i < groups ==> grouped[i] == receivers[i]
            &&& grouped[i] == grouped[i % groups as int]
        }),
{
    let len = payers.len() as int;
    let start = (index_payer + pairs) % len;
    lemma_small_mod(i as nat, pairs);
    lemma_add_mod_noop_right(i, index_payer + pairs, len);
    assert((start + i) % len == (index_payer + pairs + i) % len);
    lemma_mod_bound(i, groups as int);
    lemma_mod_decreases(i as nat, groups as nat);
    lemma_small_mod((i % groups as int) as nat, groups as nat);
    if i < groups {
        lemma_small_mod(i as nat, groups as nat);
    }
}

/// With conflict groups a batch has as many different destinations as there are
/// groups, where there are enough payers and transfers.
pub proof fn law_conflict_groups_are_different_receivers(
    payers: Seq<Keypair>,
    index_payer: usize,
    pairs: nat,
    groups: usize,
    i: int,
    j: int,
)
    requires
        distinct_payers(payers),
        pairs + groups <= payers.len(),
        0 <= i < j < groups <= pairs,
    ensures
        ({
            let receivers = batch_receivers(payers, index_payer, pairs, Some(groups));
            let senders = batch_senders(payers, index_payer, pairs);
            &&& receivers[i].address() != receivers[j].address()
            &&& forall|k: int|
                0 <= k < pairs ==> (#[trigger] senders[k]).address() != receivers[i].address()
        }),
{
    let len = payers.len() as int;
    let receivers = batch_receivers(payers, index_payer, pairs, Some(groups));
    let senders = batch_senders(payers, index_payer, pairs);
    law_receivers_stand_behind_senders(payers, index_payer, pairs, groups, i);
    law_receivers_stand_behind_senders(payers, index_payer, pairs, groups, j);
    let a = index_payer + pairs + i;
    let b = index_payer + pairs + j;
    lemma_nearby_positions_differ(a, b, len);
    lemma_mod_bound(a, len);
    lemma_mod_bound(b, len);
    assert(a % len < b % len || b % len < a % len);
    assert forall|k: int| 0 <= k < pairs implies (#[trigger] senders[k]).address()
        != receivers[i].address() by {
        law_receivers_stand_behind_senders(payers, index_payer, pairs, groups, k);
        let c = index_payer + k;
        lemma_nearby_positions_differ(c, a, len);
        lemma_mod_bound(c, len);
        assert(c % len < a % len || a % len < c % len);
    }
}

/// What transaction `t` of a batch is made of: the transfers from number `t * n` on,
/// `n` of them. Transfer number `k` of the batch goes from the payer `k` places
/// behind `index_payer` to the receiver of the same number, over amount `k`. The
/// first of the senders pays for the transaction, and they all sign it.
pub proof fn law_transactions_of_a_batch(
    bytes: Seq<u8>,
    t: int,
    fee: u64,
    payers: Seq<Keypair>,
    index_payer: usize,
    blockhash: Seq<u8>,
    params: TransactionParams,
    padding: Option<&InstructionPaddingConfig>,
    compute_unit_price: Option<u64>,
    mode: PriorityFeeMode,
    amounts: Seq<u64>,
    size: int,
)
    requires
        payers.len() > 0,
        params.simple_transfer_tx_params.num_send_instructions_per_tx >= 1,
        params.simple_transfer_tx_params.num_conflict_groups != Some(0usize),
        amounts.len() == params.simple_transfer_tx_params.num_send_instructions_per_tx * size,
        0 <= t < size,
        is_batch_transaction(
            bytes,
            t,
            fee,
            payers,
            index_payer,
            blockhash,
            params,
            padding,
            compute_unit_price,
            mode,
            amounts,
        ),
    ensures
        ({
            let transfers = params.simple_transfer_tx_params;
            let n = transfers.num_send_instructions_per_tx as int;
            let len = payers.len() as int;
            let sender = |k: int| payers[(index_payer + k) % len];
            let receiver = |k: int|
                match transfers.num_conflict_groups {
                    None => payers[(index_payer + amounts.len() + k) % len],
                    Some(groups) => payers[(index_payer + amounts.len() + k % groups as int) % len],
                };
            let body = Seq::new(
                n as nat,
                |i: int|
                    {
                        let transfer = wire::transfer_view(
                            sender(t * n + i).address(),
                            receiver(t * n + i).address(),
                            amounts[t * n + i],
                        );
                        match padding {
                            Some(config) => wire::wrapped_view(
                                config.program_id@,
                                transfer,
                                config.data_size,
                            ),
                            None => transfer,
                        }
                    },
            );
            bytes == transaction_builder::transaction_bytes(
                body,
                sender(t * n).address(),
                Seq::new(n as nat, |i: int| sender(t * n + i).secret()),
                blockhash,
                transfers.transfer_tx_cu_budget,
                padding,
                transaction_builder::effective_price(compute_unit_price, mode, fee),
                params.use_txv1,
            )
        }),
{
    let transfers = params.simple_transfer_tx_params;
    let n = transfers.num_send_instructions_per_tx as int;
    let len = payers.len() as int;
    let pairs = amounts.len();
    let at = t * n;
    assert(0 <= at && at + n <= pairs) by (nonlinear_arith)
        requires
            at == t * n,
            0 <= t < size,
            n >= 1,
            pairs == n * size,
    ;
    let sender = |k: int| payers[(index_payer + k) % len];
    let receiver = |k: int|
        match transfers.num_conflict_groups {
            None => payers[(index_payer + pairs + k) % len],
            Some(groups) => payers[(index_payer + pairs + k % groups as int) % len],
        };
    let senders = batch_senders(payers, index_payer, pairs);
    let receivers = batch_receivers(payers, index_payer, pairs, transfers.num_conflict_groups);
    assert forall|k: int| 0 <= k < pairs implies #[trigger] senders[k] == sender(k) && receivers[k]
        == receiver(k) by {
        lemma_small_mod(k as nat, pairs);
        let start = (index_payer + pairs) % len;
        lemma_add_mod_noop_right(k, index_payer + pairs, len);
        assert((start + k) % len == (index_payer + pairs + k) % len);
        if let Some(groups) = transfers.num_conflict_groups {
            let r = k % groups as int;
            lemma_add_mod_noop_right(r, index_payer + pairs, len);
            assert((start + r) % len == (index_payer + pairs + r) % len);
        }
    }
    transaction_builder::law_senders_pay_receivers_pairwise(
        senders.skip(at),
        receivers.skip(at),
        amounts.skip(at),
        blockhash,
        Seq::empty(),
        Seq::empty(),
        transfers.num_send_instructions_per_tx,
        transfers.transfer_tx_cu_budget,
        padding,
        transaction_builder::effective_price(compute_unit_price, mode, fee),
        params.use_txv1,
    );
    let wanted = Seq::new(
        n as nat,
        |i: int|
            {
                let transfer = wire::transfer_view(
                    sender(t * n + i).address(),
                    receiver(t * n + i).address(),
                    amounts[t * n + i],
                );
                match padding {
                    Some(config) => wire::wrapped_view(
                        config.program_id@,
                        transfer,
                        config.data_size,
                    ),
                    None => transfer,
                }
            },
    );
    let body = Seq::new(
        n as nat,
        |i: int|
            {
                let transfer = wire::transfer_view(
                    senders.skip(at)[i].address(),
                    receivers.skip(at)[i].address(),
                    amounts.skip(at)[i],
                );
                match padding {
                    Some(config) => wire::wrapped_view(
                        config.program_id@,
                        transfer,
                        config.data_size,
                    ),
                    None => transfer,
                }
            },
    );
    assert forall|i: int| 0 <= i < n implies senders.skip(at)[i] == sender(t * n + i)
        && receivers.skip(at)[i] == receiver(t * n + i) && amounts.skip(at)[i] == amounts[t * n
        + i] by {
        assert(senders[at + i] == sender(at + i));
    }
    assert(body =~= wanted);
    assert(Seq::new(0, |i: int| Seq::<Instruction>::empty()[i]@) + body =~= wanted);
    assert(Seq::new(n as nat, |i: int| senders.skip(at)[i].secret()) =~= Seq::new(
        n as nat,
        |i: int| sender(t * n + i).secret(),
    ));
    assert(Seq::new(0, |i: int| Seq::<&Keypair>::empty()[i].secret()) + Seq::new(
        n as nat,
        |i: int| senders.skip(at)[i].secret(),
    ) =~= Seq::new(n as nat, |i: int| sender(t * n + i).secret()));
    assert(senders.skip(at)[0] == sender(t * n + 0));
}

proof fn lemma_prices_are_bases_and_fees(
    fees: Seq<u64>,
    count: int,
    base: u64,
    mode: PriorityFeeMode,
)
    requires
        0 <= count <= fees.len(),
        !(mode is BaseOnly),
        forall|t: int| 0 <= t < fees.len() ==> base + #[trigger] fees[t] <= u64::MAX,
    ensures
        price_sum(fees, count, Some(base), mode) == count * base + priority_fee::fee_sum(
            fees.take(count),
        ),
    decreases count,
{
    if count > 0 {
        lemma_prices_are_bases_and_fees(fees, count - 1, base, mode);
        transaction_builder::law_price_is_base_plus_fee(base, mode, fees[count - 1]);
        assert(fees.take(count).drop_last() =~= fees.take(count - 1));
        assert(count * base == (count - 1) * base + base) by (nonlinear_arith);
    } else {
        assert(0 * base == 0);
    }
}

/// What is recorded of a batch: with an active mode every transaction is counted
/// once, and its base and its fee go into the total; without one nothing is
/// recorded. The transaction at place `t` is resolved for that place in the overall
/// send order, at its own time and with its own draw.
pub proof fn law_batches_are_recorded_in_full(
    fees: Seq<u64>,
    transactions: Seq<Vec<u8>>,
    payers: Seq<Keypair>,
    index_payer: usize,
    blockhash: Seq<u8>,
    params: TransactionParams,
    padding: Option<&InstructionPaddingConfig>,
    base: u64,
    mode: PriorityFeeMode,
    amounts: Seq<u64>,
    first_tx_index: u64,
    inputs: Seq<TxInputs>,
    before: PriorityFeeStats,
    after: PriorityFeeStats,
)
    requires
        fees_account_for(
            fees,
            transactions,
            payers,
            index_payer,
            blockhash,
            params,
            padding,
            Some(base),
            mode,
            amounts,
            first_tx_index,
            inputs,
            before,
            after,
        ),
        forall|t: int| 0 <= t < fees.len() ==> base + #[trigger] fees[t] <= u64::MAX,
        first_tx_index + fees.len() <= u64::MAX,
    ensures
        fees.len() == transactions.len(),
        mode is BaseOnly ==> after == before,
        !(mode is BaseOnly) ==> {
            &&& after.total_fees() == (before.total_fees() + transactions.len() * base
                + priority_fee::fee_sum(fees)) % 0x1_0000_0000_0000_0000
            &&& after.tx_count() == (before.tx_count() + transactions.len())
                % 0x1_0000_0000_0000_0000
        },
        forall|t: int|
            0 <= t < fees.len() ==> mode.allows_fee(
                (first_tx_index + t) as u64,
                inputs[t].now_ms,
                inputs[t].draw,
                #[trigger] fees[t],
            ),
        forall|t: int|
            0 <= t < fees.len() ==> is_batch_transaction(
                (#[trigger] transactions[t])@,
                t,
                fees[t],
                payers,
                index_payer,
                blockhash,
                params,
                padding,
                Some(base),
                mode,
                amounts,
            ),
{
    if !(mode is BaseOnly) {
        lemma_prices_are_bases_and_fees(fees, fees.len() as int, base, mode);
        assert(fees.take(fees.len() as int) =~= fees);
    }
}

/// Amounts that are drawn for a batch are all different, none is zero and none
/// exceeds the maximum.
pub proof fn law_amounts_are_unique(amounts: Seq<u64>, max: u64, i: int, j: int)
    requires
        unique_amounts(amounts, max),
        0 <= i < amounts.len(),
        0 <= j < amounts.len(),
    ensures
        i != j ==> amounts[i] != amounts[j],
        1 <= amounts[i] <= max,
{
}

/// Which batches can be made. A legacy transaction holds from 1 to 255 transfers; a
/// V1 transaction from 1 to 127, and its senders have to be different payers. There
/// have to be payers, and at least one conflict group where groups are set.
pub proof fn law_which_batches_are_possible(
    payers: Seq<Keypair>,
    params: TransactionParams,
    data_size: u32,
    config: &InstructionPaddingConfig,
)
    requires
        config.data_size == data_size,
    ensures
        ({
            let n = params.simple_transfer_tx_params.num_send_instructions_per_tx;
            let groups = params.simple_transfer_tx_params.num_conflict_groups;
            let plain = payers.len() > 0 && groups != Some(0usize) && if params.use_txv1 {
                &&& 1 <= n <= 127 && n <= payers.len()
                &&& forall|i: int, j: int|
                    0 <= i < j < payers.len() ==> #[trigger] payers[i].address()
                        != #[trigger] payers[j].address()
            } else {
                1 <= n <= 255
            };
            &&& batch_possible(payers, params, None) == plain
            &&& batch_possible(payers, params, Some(config)) == (plain && data_size <= 10219)
        }),
{
}

} // verus!
