//! Transfer transactions: which instructions they hold, in which order, who
//! signs them and what they pay.
use vstd::prelude::*;
use crate::cli::{InstructionPaddingConfig, TRANSFER_TRANSACTION_LOADED_ACCOUNTS_DATA_SIZE};
use crate::priority_fee::{PriorityFeeMode, PriorityFeeStats, ShapedDraw};
use crate::wire;
use crate::wire::{Instruction, InstructionView, Keypair, TransactionConfig};

verus! {

/// A walk over a list. It may start anywhere, goes round at the end of the list,
/// and may come back to where it started after a number of steps.
pub struct Cursor<'a, T> {
    items: &'a [T],
    start: usize,
    period: usize,
    position: usize,
    end: usize,
}

/// Item number `i` of a walk over `items` that starts at `start`, goes round at the
/// end of the list and starts again after `period` items.
pub open spec fn walked<T>(items: Seq<T>, start: int, period: int, i: int) -> T {
    items[(start + i % period) % items.len() as int]
}

impl<'a, T> Cursor<'a, T> {
    #[verifier::type_invariant]
    spec fn sound(self) -> bool {
        &&& self.position <= self.end
        &&& self.position < self.end ==> self.items@.len() > 0 && self.period > 0
    }

    /// What is still ahead.
    pub closed spec fn remaining(self) -> Seq<T> {
        Seq::new(
            (self.end - self.position) as nat,
            |i: int|
                walked(self.items@, self.start as int, self.period as int, self.position + i),
        )
    }

    /// A walk over all of `items`, from front to back.
    pub fn new(items: &'a [T]) -> (cursor: Self)
        ensures
            cursor.remaining() == items@,
    {
        let n: usize = items.len();
        let cursor = Cursor { items, start: 0, period: n, position: 0, end: n };
        assert forall|i: int| 0 <= i < n implies walked(items@, 0, n as int, i) == items@[i] by {
            vstd::arithmetic::div_mod::lemma_small_mod(i as nat, n as nat);
        }
        assert(cursor.remaining() =~= items@);
        cursor
    }

    /// A walk of `count` steps from `start` on that comes back to `start` after
    /// every `period` steps.
    pub fn cycling(items: &'a [T], start: usize, period: usize, count: usize) -> (cursor: Self)
        requires
            items@.len() > 0,
            period > 0,
        ensures
            cursor.remaining() == Seq::new(
                count as nat,
                |i: int| walked(items@, start as int, period as int, i),
            ),
    {
        let cursor = Cursor { items, start, period, position: 0, end: count };
        assert(cursor.remaining() =~= Seq::new(
            count as nat,
            |i: int| walked(items@, start as int, period as int, i),
        ));
        cursor
    }

    /// Takes the item in front.
    pub fn next(&mut self) -> (item: Option<&'a T>)
        ensures
            match item {
                Some(x) => {
                    &&& old(self).remaining().len() > 0
                    &&& *x == old(self).remaining()[0]
                    &&& final(self).remaining() == old(self).remaining().drop_first()
                },
                None => {
                    &&& old(self).remaining().len() == 0
                    &&& final(self).remaining() == old(self).remaining()
                },
            },
    {
        proof {
            use_type_invariant(&*self);
        }
        if self.position < self.end {
            let ghost before = self.remaining();
            let len: u128 = self.items.len() as u128;
            let at: u128 = (self.start as u128 + (self.position % self.period) as u128) % len;
            let item: &'a T = &self.items[at as usize];
            self.position = self.position + 1;
            assert(self.remaining() =~= before.drop_first());
            Some(item)
        } else {
            None
        }
    }
}

/// `instruction` as it goes into the transaction: wrapped where padding is on.
pub open spec fn maybe_wrapped(
    instruction: InstructionView,
    padding: Option<&InstructionPaddingConfig>,
) -> InstructionView {
    match padding {
        Some(config) => wire::wrapped_view(config.program_id@, instruction, config.data_size),
        None => instruction,
    }
}

/// `instruction` is small enough for the padding that is asked for.
pub open spec fn padding_fits(
    instruction: InstructionView,
    padding: Option<&InstructionPaddingConfig>,
) -> bool {
    match padding {
        Some(config) => wire::can_wrap(instruction, config.data_size),
        None => true,
    }
}

/// The instructions that a legacy transaction starts with: the compute-unit
/// limit, then the price where there is one, then the limit on loaded data where
/// padding is on.
pub open spec fn budget_prefix(
    transaction_cu_budget: u32,
    padding: Option<&InstructionPaddingConfig>,
    compute_unit_price: Option<u64>,
) -> Seq<InstructionView> {
    let limit = seq![wire::unit_limit_view(transaction_cu_budget)];
    let price = match compute_unit_price {
        Some(price) => seq![wire::unit_price_view(price)],
        None => Seq::empty(),
    };
    let loaded = match padding {
        Some(config) => seq![
            wire::loaded_data_limit_view(config.loaded_accounts_data_size_limit),
        ],
        None => Seq::empty(),
    };
    limit + price + loaded
}

/// The settings of a V1 transaction, which stand in its header instead.
pub open spec fn v1_settings(
    transaction_cu_budget: u32,
    padding: Option<&InstructionPaddingConfig>,
    compute_unit_price: Option<u64>,
) -> TransactionConfig {
    TransactionConfig {
        priority_fee: compute_unit_price,
        compute_unit_limit: Some(transaction_cu_budget),
        loaded_accounts_data_size_limit: Some(
            match padding {
                Some(config) => config.loaded_accounts_data_size_limit,
                None => TRANSFER_TRANSACTION_LOADED_ACCOUNTS_DATA_SIZE,
            },
        ),
        heap_size: None,
    }
}

/// The instructions of the transaction as it is compiled. In a legacy
/// transaction the compute-budget instructions come first.
pub open spec fn compiled_instructions(
    body: Seq<InstructionView>,
    transaction_cu_budget: u32,
    padding: Option<&InstructionPaddingConfig>,
    compute_unit_price: Option<u64>,
    use_txv1: bool,
) -> Seq<InstructionView> {
    if use_txv1 {
        body
    } else {
        budget_prefix(transaction_cu_budget, padding, compute_unit_price) + body
    }
}

/// The transaction of these instructions can be compiled and signed.
pub open spec fn signable(
    body: Seq<InstructionView>,
    payer: Seq<u8>,
    signers: Seq<Seq<u8>>,
    transaction_cu_budget: u32,
    padding: Option<&InstructionPaddingConfig>,
    compute_unit_price: Option<u64>,
    use_txv1: bool,
) -> bool {
    let instructions = compiled_instructions(
        body,
        transaction_cu_budget,
        padding,
        compute_unit_price,
        use_txv1,
    );
    if use_txv1 {
        wire::v1_signable(instructions, payer, signers)
    } else {
        wire::legacy_signable(instructions, payer, signers)
    }
}

/// The wire form of the transaction of these instructions.
pub open spec fn transaction_bytes(
    body: Seq<InstructionView>,
    payer: Seq<u8>,
    secrets: Seq<Seq<u8>>,
    blockhash: Seq<u8>,
    transaction_cu_budget: u32,
    padding: Option<&InstructionPaddingConfig>,
    compute_unit_price: Option<u64>,
    use_txv1: bool,
) -> Seq<u8> {
    let instructions = compiled_instructions(
        body,
        transaction_cu_budget,
        padding,
        compute_unit_price,
        use_txv1,
    );
    if use_txv1 {
        wire::v1_transaction_bytes(
            instructions,
            payer,
            secrets,
            blockhash,
            v1_settings(transaction_cu_budget, padding, compute_unit_price),
        )
    } else {
        wire::legacy_transaction_bytes(instructions, payer, secrets, blockhash)
    }
}

/// Wraps `instruction` for the padding program where padding is on.
pub fn maybe_wrap_instruction(
    instruction: Instruction,
    instruction_padding_config: Option<&InstructionPaddingConfig>,
) -> (r: Instruction)
    requires
        padding_fits(instruction@, instruction_padding_config),
    ensures
        r@ == maybe_wrapped(instruction@, instruction_padding_config),
{
    match instruction_padding_config {
        Some(padding_config) => {
            match wire::wrap_instruction(
                &padding_config.program_id,
                &instruction,
                padding_config.data_size,
            ) {
                Some(wrapped) => wrapped,
                None => instruction,
            }
        },
        None => instruction,
    }
}

/// Puts `prefix` in front of `instructions`.
fn prepend(prefix: Vec<Instruction>, instructions: &mut Vec<Instruction>)
    ensures
        final(instructions)@ == prefix@ + old(instructions)@,
{
    let mut whole: Vec<Instruction> = prefix;
    whole.append(instructions);
    *instructions = whole;
}

/// The wire form of a signed legacy transaction. The compute-budget instructions
/// are put in front of `instructions`, which keeps them.
pub fn create_legacy_transfer_transaction(
    tx_payer: &[u8; 32],
    instructions: &mut Vec<Instruction>,
    signers: &[&Keypair],
    recent_blockhash: &[u8; 32],
    transaction_cu_budget: u32,
    instruction_padding_config: Option<&InstructionPaddingConfig>,
    compute_unit_price: Option<u64>,
) -> (bytes: Vec<u8>)
    requires
        signable(
            wire::instruction_views(old(instructions)@),
            tx_payer@,
            wire::addresses(signers@),
            transaction_cu_budget,
            instruction_padding_config,
            compute_unit_price,
            false,
        ),
    ensures
        wire::instruction_views(final(instructions)@) == compiled_instructions(
            wire::instruction_views(old(instructions)@),
            transaction_cu_budget,
            instruction_padding_config,
            compute_unit_price,
            false,
        ),
        bytes@ == transaction_bytes(
            wire::instruction_views(old(instructions)@),
            tx_payer@,
            wire::secrets(signers@),
            recent_blockhash@,
            transaction_cu_budget,
            instruction_padding_config,
            compute_unit_price,
            false,
        ),
{
    let mut prefix: Vec<Instruction> = Vec::new();
    prefix.push(wire::set_compute_unit_limit(transaction_cu_budget));
    if let Some(compute_unit_price) = compute_unit_price {
        prefix.push(wire::set_compute_unit_price(compute_unit_price));
    }
    if let Some(padding_config) = instruction_padding_config {
        prefix.push(
            wire::set_loaded_accounts_data_size_limit(
                padding_config.loaded_accounts_data_size_limit,
            ),
        );
    }
    assert(wire::instruction_views(prefix@) =~= budget_prefix(
        transaction_cu_budget,
        instruction_padding_config,
        compute_unit_price,
    ));
    let ghost body = instructions@;
    let ghost front = prefix@;
    prepend(prefix, instructions);
    assert(wire::instruction_views(instructions@) =~= wire::instruction_views(front)
        + wire::instruction_views(body));
    wire::signed_legacy_transaction(instructions, tx_payer, signers, recent_blockhash)
}

/// The wire form of a signed V1 transaction, whose compute-budget settings stand
/// in the message instead of in instructions.
pub fn create_v1_transfer_transaction(
    tx_payer: &[u8; 32],
    instructions: &Vec<Instruction>,
    signers: &[&Keypair],
    recent_blockhash: &[u8; 32],
    transaction_cu_budget: u32,
    instruction_padding_config: Option<&InstructionPaddingConfig>,
    compute_unit_price: Option<u64>,
) -> (bytes: Vec<u8>)
    requires
        signable(
            wire::instruction_views(instructions@),
            tx_payer@,
            wire::addresses(signers@),
            transaction_cu_budget,
            instruction_padding_config,
            compute_unit_price,
            true,
        ),
    ensures
        bytes@ == transaction_bytes(
            wire::instruction_views(instructions@),
            tx_payer@,
            wire::secrets(signers@),
            recent_blockhash@,
            transaction_cu_budget,
            instruction_padding_config,
            compute_unit_price,
            true,
        ),
{
    let loaded_accounts_data_size_limit: u32 = match instruction_padding_config {
        Some(padding_config) => padding_config.loaded_accounts_data_size_limit,
        None => TRANSFER_TRANSACTION_LOADED_ACCOUNTS_DATA_SIZE,
    };
    wire::signed_v1_transaction(
        instructions,
        tx_payer,
        signers,
        recent_blockhash,
        compute_unit_price,
        Some(transaction_cu_budget),
        Some(loaded_accounts_data_size_limit),
        None,
    )
}

/// The wire form of a signed transfer transaction in the chosen format.
pub fn create_transfer_transaction(
    tx_payer: &[u8; 32],
    instructions: &mut Vec<Instruction>,
    signers: &[&Keypair],
    recent_blockhash: &[u8; 32],
    transaction_cu_budget: u32,
    instruction_padding_config: Option<&InstructionPaddingConfig>,
    compute_unit_price: Option<u64>,
    use_txv1: bool,
) -> (bytes: Vec<u8>)
    requires
        signable(
            wire::instruction_views(old(instructions)@),
            tx_payer@,
            wire::addresses(signers@),
            transaction_cu_budget,
            instruction_padding_config,
            compute_unit_price,
            use_txv1,
        ),
    ensures
        wire::instruction_views(final(instructions)@) == compiled_instructions(
            wire::instruction_views(old(instructions)@),
            transaction_cu_budget,
            instruction_padding_config,
            compute_unit_price,
            use_txv1,
        ),
        bytes@ == transaction_bytes(
            wire::instruction_views(old(instructions)@),
            tx_payer@,
            wire::secrets(signers@),
            recent_blockhash@,
            transaction_cu_budget,
            instruction_padding_config,
            compute_unit_price,
            use_txv1,
        ),
{
    if use_txv1 {
        create_v1_transfer_transaction(
            tx_payer,
            instructions,
            signers,
            recent_blockhash,
            transaction_cu_budget,
            instruction_padding_config,
            compute_unit_price,
        )
    } else {
        create_legacy_transfer_transaction(
            tx_payer,
            instructions,
            signers,
            recent_blockhash,
            transaction_cu_budget,
            instruction_padding_config,
            compute_unit_price,
        )
    }
}

/// The wire form of a signed legacy transaction of arbitrary instructions, with
/// the compute-unit limit set first.
pub fn create_serialized_signed_transaction(
    payer: &Keypair,
    recent_blockhash: &[u8; 32],
    instructions: Vec<Instruction>,
    additional_signers: Vec<&Keypair>,
    transaction_cu_budget: u32,
) -> (bytes: Vec<u8>)
    requires
        wire::legacy_signable(
            seq![wire::unit_limit_view(transaction_cu_budget)] + wire::instruction_views(
                instructions@,
            ),
            payer.address(),
            seq![payer.address()] + wire::addresses(additional_signers@),
        ),
    ensures
        bytes@ == wire::legacy_transaction_bytes(
            seq![wire::unit_limit_view(transaction_cu_budget)] + wire::instruction_views(
                instructions@,
            ),
            payer.address(),
            seq![payer.secret()] + wire::secrets(additional_signers@),
            recent_blockhash@,
        ),
{
    let mut all: Vec<Instruction> = Vec::new();
    all.push(wire::set_compute_unit_limit(transaction_cu_budget));
    let ghost body = instructions@;
    let mut rest: Vec<Instruction> = instructions;
    all.append(&mut rest);
    let mut signers: Vec<&Keypair> = Vec::new();
    signers.push(payer);
    let ghost others = additional_signers@;
    let mut additional: Vec<&Keypair> = additional_signers;
    signers.append(&mut additional);
    let tx_payer: [u8; 32] = payer.pubkey();
    assert(wire::instruction_views(all@) =~= seq![wire::unit_limit_view(transaction_cu_budget)]
        + wire::instruction_views(body));
    assert(wire::addresses(signers@) =~= seq![payer.address()] + wire::addresses(others));
    assert(wire::secrets(signers@) =~= seq![payer.secret()] + wire::secrets(others));
    wire::signed_legacy_transaction(&all, &tx_payer, signers.as_slice(), recent_blockhash)
}

/// The price that a transaction carries. With a priority-fee mode there is always
/// one: the configured price, or 1 where none is configured, plus the additional
/// fee. Without a mode, the configured price passes through unchanged.
pub open spec fn effective_price(
    compute_unit_price: Option<u64>,
    priority_fee_mode: PriorityFeeMode,
    additional: u64,
) -> Option<u64> {
    match priority_fee_mode {
        PriorityFeeMode::BaseOnly => compute_unit_price,
        _ => {
            let base = match compute_unit_price {
                Some(price) => price,
                None => 1,
            };
            Some(
                if base + additional > u64::MAX {
                    u64::MAX
                } else {
                    (base + additional) as u64
                },
            )
        },
    }
}

/// Computes the per-transaction compute-unit price from the additional fee.
pub fn effective_compute_unit_price(
    compute_unit_price: Option<u64>,
    priority_fee_mode: &PriorityFeeMode,
    additional: u64,
) -> (price: Option<u64>)
    ensures
        price == effective_price(compute_unit_price, *priority_fee_mode, additional),
{
    match priority_fee_mode {
        PriorityFeeMode::BaseOnly => compute_unit_price,
        _ => {
            let base: u64 = match compute_unit_price {
                Some(price) => price,
                None => 1,
            };
            Some(base.saturating_add(additional))
        },
    }
}

/// With an active priority-fee mode every transaction carries a price: never less
/// than the additional fee or the configured price, at least 1 where no price is
/// configured, and no less for a higher additional fee.
pub proof fn law_active_mode_always_prices(
    compute_unit_price: Option<u64>,
    mode: PriorityFeeMode,
    fee: u64,
    higher_fee: u64,
)
    requires
        !(mode is BaseOnly),
        fee <= higher_fee,
    ensures
        ({
            let price = effective_price(compute_unit_price, mode, fee);
            &&& price matches Some(p) && fee <= p
            &&& compute_unit_price is None ==> 1 <= price->0
            &&& compute_unit_price matches Some(base) ==> base <= price->0
            &&& price->0 <= effective_price(compute_unit_price, mode, higher_fee)->0
        }),
{
}

/// With an active mode the price is the base plus the additional fee, as far as 64
/// bits reach; the base is the configured price, or 1 where none is configured.
/// Without a mode the configured price is the price, and none is none.
pub proof fn law_price_is_base_plus_fee(base: u64, mode: PriorityFeeMode, fee: u64)
    ensures
        !(mode is BaseOnly) && base + fee <= u64::MAX ==> effective_price(Some(base), mode, fee)
            == Some((base + fee) as u64),
        !(mode is BaseOnly) && base + fee > u64::MAX ==> effective_price(Some(base), mode, fee)
            == Some(u64::MAX),
        !(mode is BaseOnly) && fee < u64::MAX ==> effective_price(None, mode, fee) == Some(
            (1 + fee) as u64,
        ),
        mode is BaseOnly ==> effective_price(Some(base), mode, fee) == Some(base),
        mode is BaseOnly ==> effective_price(None, mode, fee) == None::<u64>,
{
}

/// What a transaction pays extra it pays in full: of two transactions with the same
/// base, the one with the higher fee has a price that is higher by the difference,
/// as long as 64 bits suffice. The same holds of two bases and one fee.
pub proof fn law_every_microlamport_counts(
    base: u64,
    higher_base: u64,
    mode: PriorityFeeMode,
    fee: u64,
    higher_fee: u64,
)
    requires
        !(mode is BaseOnly),
        base <= higher_base,
        fee <= higher_fee,
        higher_base + higher_fee <= u64::MAX,
    ensures
        effective_price(Some(base), mode, higher_fee)->0 - effective_price(Some(base), mode, fee)->0
            == higher_fee - fee,
        effective_price(Some(higher_base), mode, fee)->0 - effective_price(Some(base), mode, fee)->0
            == higher_base - base,
{
}

/// How many transfers a transaction gets: one per instruction that is asked for,
/// at least one, as far as senders, receivers and amounts last.
pub open spec fn transfer_count(
    from: Seq<Keypair>,
    to: Seq<Keypair>,
    lamports: Seq<u64>,
    limit: nat,
) -> nat {
    let a = if from.len() < to.len() {
        from.len()
    } else {
        to.len()
    };
    let b = if lamports.len() < limit {
        lamports.len()
    } else {
        limit
    };
    if a < b {
        a
    } else {
        b
    }
}

/// The first `count` transfers: the senders pay the receivers pairwise.
pub open spec fn transfer_body(
    from: Seq<Keypair>,
    to: Seq<Keypair>,
    lamports: Seq<u64>,
    count: nat,
    padding: Option<&InstructionPaddingConfig>,
) -> Seq<InstructionView> {
    Seq::new(
        count,
        |i: int|
            maybe_wrapped(
                wire::transfer_view(from[i].address(), to[i].address(), lamports[i]),
                padding,
            ),
    )
}

pub open spec fn first_addresses(keypairs: Seq<Keypair>, count: nat) -> Seq<Seq<u8>> {
    Seq::new(count, |i: int| keypairs[i].address())
}

pub open spec fn first_secrets(keypairs: Seq<Keypair>, count: nat) -> Seq<Seq<u8>> {
    Seq::new(count, |i: int| keypairs[i].secret())
}

/// How many senders are used up. Where the receivers or the amounts run out
/// first, one more sender has been taken by then.
pub open spec fn senders_taken(
    from: Seq<Keypair>,
    to: Seq<Keypair>,
    lamports: Seq<u64>,
    limit: nat,
) -> nat {
    let count = transfer_count(from, to, lamports, limit);
    if count < limit && count < from.len() {
        count + 1
    } else {
        count
    }
}

/// How many receivers are used up. Where the amounts run out first, one more
/// receiver has been taken by then.
pub open spec fn receivers_taken(
    from: Seq<Keypair>,
    to: Seq<Keypair>,
    lamports: Seq<u64>,
    limit: nat,
) -> nat {
    let count = transfer_count(from, to, lamports, limit);
    if count < limit && count < from.len() && count < to.len() {
        count + 1
    } else {
        count
    }
}

/// Padded transfers stay within the padding program's limits.
pub open spec fn padded_transfer_fits(padding: Option<&InstructionPaddingConfig>) -> bool {
    match padding {
        Some(config) => 21 + config.data_size <= 10240,
        None => true,
    }
}

proof fn lemma_le_bytes_len(n: nat, width: nat)
    ensures
        wire::le_bytes(n, width).len() == width,
    decreases width,
{
    if width > 0 {
        lemma_le_bytes_len(n / 256, (width - 1) as nat);
    }
}

proof fn lemma_padded_transfer_fits(
    from: Seq<u8>,
    to: Seq<u8>,
    lamports: u64,
    padding: Option<&InstructionPaddingConfig>,
)
    requires
        padded_transfer_fits(padding),
    ensures
        padding_fits(wire::transfer_view(from, to, lamports), padding),
{
    lemma_le_bytes_len(2, 4);
    lemma_le_bytes_len(lamports as nat, 8);
}

/// Appends up to `limit` transfers and their senders.
fn append_transfers<'a>(
    accounts_from: &mut Cursor<'a, Keypair>,
    accounts_to: &mut Cursor<'a, Keypair>,
    lamports: &mut Cursor<'a, u64>,
    instructions: &mut Vec<Instruction>,
    signers: &mut Vec<&'a Keypair>,
    limit: usize,
    padding: Option<&InstructionPaddingConfig>,
)
    requires
        padded_transfer_fits(padding),
    ensures
        ({
            let from = old(accounts_from).remaining();
            let to = old(accounts_to).remaining();
            let amounts = old(lamports).remaining();
            let count = transfer_count(from, to, amounts, limit as nat);
            &&& wire::instruction_views(final(instructions)@) == wire::instruction_views(
                old(instructions)@,
            ) + transfer_body(from, to, amounts, count, padding)
            &&& wire::addresses(final(signers)@) == wire::addresses(old(signers)@)
                + first_addresses(from, count)
            &&& wire::secrets(final(signers)@) == wire::secrets(old(signers)@) + first_secrets(
                from,
                count,
            )
            &&& final(accounts_from).remaining() == from.skip(
                senders_taken(from, to, amounts, limit as nat) as int,
            )
            &&& final(accounts_to).remaining() == to.skip(
                receivers_taken(from, to, amounts, limit as nat) as int,
            )
            &&& final(lamports).remaining() == amounts.skip(count as int)
        }),
{
    let ghost from = accounts_from.remaining();
    let ghost to = accounts_to.remaining();
    let ghost amounts = lamports.remaining();
    let ghost instructions0 = wire::instruction_views(instructions@);
    let ghost addresses0 = wire::addresses(signers@);
    let ghost secrets0 = wire::secrets(signers@);
    let mut taken: usize = 0;
    assert(from.skip(0) =~= from && to.skip(0) =~= to && amounts.skip(0) =~= amounts);
    assert(instructions0 + transfer_body(from, to, amounts, 0, padding) =~= instructions0);
    assert(addresses0 + first_addresses(from, 0) =~= addresses0);
    assert(secrets0 + first_secrets(from, 0) =~= secrets0);
    while taken < limit
        invariant
            taken <= limit,
            taken <= from.len(),
            taken <= to.len(),
            taken <= amounts.len(),
            padded_transfer_fits(padding),
            accounts_from.remaining() == from.skip(taken as int),
            accounts_to.remaining() == to.skip(taken as int),
            lamports.remaining() == amounts.skip(taken as int),
            wire::instruction_views(instructions@) == instructions0 + transfer_body(
                from,
                to,
                amounts,
                taken as nat,
                padding,
            ),
            wire::addresses(signers@) == addresses0 + first_addresses(from, taken as nat),
            wire::secrets(signers@) == secrets0 + first_secrets(from, taken as nat),
            from == old(accounts_from).remaining(),
            to == old(accounts_to).remaining(),
            amounts == old(lamports).remaining(),
            instructions0 == wire::instruction_views(old(instructions)@),
            addresses0 == wire::addresses(old(signers)@),
            secrets0 == wire::secrets(old(signers)@),
        decreases limit - taken,
    {
        let sender: &'a Keypair = match accounts_from.next() {
            Some(sender) => sender,
            None => {
                return ;
            },
        };
        assert(from.skip(taken as int).drop_first() =~= from.skip(taken + 1));
        let receiver: &'a Keypair = match accounts_to.next() {
            Some(receiver) => receiver,
            None => {
                return ;
            },
        };
        assert(to.skip(taken as int).drop_first() =~= to.skip(taken + 1));
        let amount: &'a u64 = match lamports.next() {
            Some(amount) => amount,
            None => {
                return ;
            },
        };
        assert(amounts.skip(taken as int).drop_first() =~= amounts.skip(taken + 1));
        let ghost signers_before = signers@;
        let ghost instructions_before = instructions@;
        signers.push(sender);
        let transfer_instruction: Instruction = wire::transfer(
            &sender.pubkey(),
            &receiver.pubkey(),
            *amount,
        );
        proof {
            lemma_padded_transfer_fits(sender.address(), receiver.address(), *amount, padding);
        }
        instructions.push(maybe_wrap_instruction(transfer_instruction, padding));
        proof {
            assert(wire::instruction_views(instructions@) =~= wire::instruction_views(
                instructions_before,
            ).push(
                maybe_wrapped(
                    wire::transfer_view(
                        from[taken as int].address(),
                        to[taken as int].address(),
                        amounts[taken as int],
                    ),
                    padding,
                ),
            ));
            assert(wire::instruction_views(instructions@) =~= instructions0 + transfer_body(
                from,
                to,
                amounts,
                (taken + 1) as nat,
                padding,
            ));
            assert(wire::addresses(signers@) =~= wire::addresses(signers_before).push(
                from[taken as int].address(),
            ));
            assert(wire::addresses(signers@) =~= addresses0 + first_addresses(
                from,
                (taken + 1) as nat,
            ));
            assert(wire::secrets(signers@) =~= wire::secrets(signers_before).push(
                from[taken as int].secret(),
            ));
            assert(wire::secrets(signers@) =~= secrets0 + first_secrets(from, (taken + 1) as nat));
        }
        taken += 1;
    }
}

/// At least one transfer is asked for.
pub open spec fn at_least_one(num_send_instructions_per_tx: usize) -> nat {
    if num_send_instructions_per_tx >= 1 {
        num_send_instructions_per_tx as nat
    } else {
        1
    }
}

/// The transaction that the accounts, amounts and buffers at hand make up can be
/// compiled and signed.
pub open spec fn transfers_signable(
    from: Seq<Keypair>,
    to: Seq<Keypair>,
    lamports: Seq<u64>,
    instructions: Seq<Instruction>,
    signers: Seq<&Keypair>,
    num_send_instructions_per_tx: usize,
    transaction_cu_budget: u32,
    padding: Option<&InstructionPaddingConfig>,
    price: Option<u64>,
    use_txv1: bool,
) -> bool {
    let count = transfer_count(from, to, lamports, at_least_one(num_send_instructions_per_tx));
    signable(
        wire::instruction_views(instructions) + transfer_body(from, to, lamports, count, padding),
        from[0].address(),
        wire::addresses(signers) + first_addresses(from, count),
        transaction_cu_budget,
        padding,
        price,
        use_txv1,
    )
}

/// The wire form of that transaction, paid for by the first sender.
pub open spec fn transfers_bytes(
    from: Seq<Keypair>,
    to: Seq<Keypair>,
    lamports: Seq<u64>,
    blockhash: Seq<u8>,
    instructions: Seq<Instruction>,
    signers: Seq<&Keypair>,
    num_send_instructions_per_tx: usize,
    transaction_cu_budget: u32,
    padding: Option<&InstructionPaddingConfig>,
    price: Option<u64>,
    use_txv1: bool,
) -> Seq<u8> {
    let count = transfer_count(from, to, lamports, at_least_one(num_send_instructions_per_tx));
    transaction_bytes(
        wire::instruction_views(instructions) + transfer_body(from, to, lamports, count, padding),
        from[0].address(),
        wire::secrets(signers) + first_secrets(from, count),
        blockhash,
        transaction_cu_budget,
        padding,
        price,
        use_txv1,
    )
}

/// Builds one transfer transaction at a given compute-unit price, from the
/// accounts and amounts in front of the cursors. The first sender also pays the
/// transaction fee.
pub fn create_transfers_at_price<'a>(
    accounts_from: &mut Cursor<'a, Keypair>,
    accounts_to: &mut Cursor<'a, Keypair>,
    lamports: &mut Cursor<'a, u64>,
    recent_blockhash: &[u8; 32],
    instructions: &mut Vec<Instruction>,
    signers: &mut Vec<&'a Keypair>,
    num_send_instructions_per_tx: usize,
    transaction_cu_budget: u32,
    instruction_padding_config: Option<&InstructionPaddingConfig>,
    price: Option<u64>,
    use_txv1: bool,
) -> (bytes: Vec<u8>)
    requires
        old(accounts_from).remaining().len() > 0,
        old(accounts_to).remaining().len() > 0,
        old(lamports).remaining().len() > 0,
        padded_transfer_fits(instruction_padding_config),
        transfers_signable(
            old(accounts_from).remaining(),
            old(accounts_to).remaining(),
            old(lamports).remaining(),
            old(instructions)@,
            old(signers)@,
            num_send_instructions_per_tx,
            transaction_cu_budget,
            instruction_padding_config,
            price,
            use_txv1,
        ),
    ensures
        bytes@ == transfers_bytes(
            old(accounts_from).remaining(),
            old(accounts_to).remaining(),
            old(lamports).remaining(),
            recent_blockhash@,
            old(instructions)@,
            old(signers)@,
            num_send_instructions_per_tx,
            transaction_cu_budget,
            instruction_padding_config,
            price,
            use_txv1,
        ),
        ({
            let from = old(accounts_from).remaining();
            let to = old(accounts_to).remaining();
            let amounts = old(lamports).remaining();
            let limit = at_least_one(num_send_instructions_per_tx);
            let count = transfer_count(from, to, amounts, limit);
            &&& wire::instruction_views(final(instructions)@) == compiled_instructions(
                wire::instruction_views(old(instructions)@) + transfer_body(
                    from,
                    to,
                    amounts,
                    count,
                    instruction_padding_config,
                ),
                transaction_cu_budget,
                instruction_padding_config,
                price,
                use_txv1,
            )
            &&& wire::addresses(final(signers)@) == wire::addresses(old(signers)@)
                + first_addresses(from, count)
            &&& wire::secrets(final(signers)@) == wire::secrets(old(signers)@) + first_secrets(
                from,
                count,
            )
            &&& final(accounts_from).remaining() == from.skip(
                senders_taken(from, to, amounts, limit) as int,
            )
            &&& final(accounts_to).remaining() == to.skip(
                receivers_taken(from, to, amounts, limit) as int,
            )
            &&& final(lamports).remaining() == amounts.skip(count as int)
        }),
{
    let ghost from = accounts_from.remaining();
    let ghost to = accounts_to.remaining();
    let ghost amounts = lamports.remaining();
    let ghost limit = at_least_one(num_send_instructions_per_tx);
    let ghost count = transfer_count(from, to, amounts, limit);
    let ghost instructions0 = instructions@;
    let ghost signers0 = signers@;
    // The first sender is also the transaction fee payer.
    let tx_payer_kp: &'a Keypair = accounts_from.next().unwrap();
    let tx_payer: [u8; 32] = tx_payer_kp.pubkey();
    signers.push(tx_payer_kp);
    let receiver: &'a Keypair = accounts_to.next().unwrap();
    let amount: &'a u64 = lamports.next().unwrap();
    let transfer_instruction: Instruction = wire::transfer(&tx_payer, &receiver.pubkey(), *amount);
    proof {
        lemma_padded_transfer_fits(
            from[0].address(),
            to[0].address(),
            amounts[0],
            instruction_padding_config,
        );
    }
    instructions.push(maybe_wrap_instruction(transfer_instruction, instruction_padding_config));
    let ghost instructions1 = instructions@;
    let ghost signers1 = signers@;
    let additional: usize = num_send_instructions_per_tx.saturating_sub(1);
    append_transfers(
        accounts_from,
        accounts_to,
        lamports,
        instructions,
        signers,
        additional,
        instruction_padding_config,
    );
    proof {
        let from1 = from.drop_first();
        let to1 = to.drop_first();
        let amounts1 = amounts.drop_first();
        let count1 = transfer_count(from1, to1, amounts1, additional as nat);
        assert(count == count1 + 1);
        assert(wire::instruction_views(instructions@) =~= wire::instruction_views(instructions0)
            + transfer_body(from, to, amounts, count, instruction_padding_config)) by {
            assert(wire::instruction_views(instructions1) =~= wire::instruction_views(
                instructions0,
            ).push(
                maybe_wrapped(
                    wire::transfer_view(from[0].address(), to[0].address(), amounts[0]),
                    instruction_padding_config,
                ),
            ));
        }
        assert(wire::addresses(signers@) =~= wire::addresses(signers0) + first_addresses(
            from,
            count,
        )) by {
            assert(wire::addresses(signers1) =~= wire::addresses(signers0).push(from[0].address()));
        }
        assert(wire::secrets(signers@) =~= wire::secrets(signers0) + first_secrets(from, count)) by {
            assert(wire::secrets(signers1) =~= wire::secrets(signers0).push(from[0].secret()));
        }
        assert(from1.skip(senders_taken(from1, to1, amounts1, additional as nat) as int)
            =~= from.skip(senders_taken(from, to, amounts, limit) as int));
        assert(to1.skip(receivers_taken(from1, to1, amounts1, additional as nat) as int)
            =~= to.skip(receivers_taken(from, to, amounts, limit) as int));
        assert(amounts1.skip(count1 as int) =~= amounts.skip(count as int));
    }
    create_transfer_transaction(
        &tx_payer,
        instructions,
        signers.as_slice(),
        recent_blockhash,
        transaction_cu_budget,
        instruction_padding_config,
        price,
        use_txv1,
    )
}

/// Whether a transaction can be compiled and signed depends on whether it carries
/// a price, not on the price.
pub proof fn lemma_signable_whatever_the_price(
    body: Seq<InstructionView>,
    payer: Seq<u8>,
    signers: Seq<Seq<u8>>,
    transaction_cu_budget: u32,
    padding: Option<&InstructionPaddingConfig>,
    price: u64,
    other_price: u64,
    use_txv1: bool,
)
    requires
        signable(
            body,
            payer,
            signers,
            transaction_cu_budget,
            padding,
            Some(price),
            use_txv1,
        ),
    ensures
        signable(
            body,
            payer,
            signers,
            transaction_cu_budget,
            padding,
            Some(other_price),
            use_txv1,
        ),
{
    let a = compiled_instructions(body, transaction_cu_budget, padding, Some(price), use_txv1);
    let b = compiled_instructions(body, transaction_cu_budget, padding, Some(other_price), use_txv1);
    lemma_le_bytes_len(price as nat, 8);
    lemma_le_bytes_len(other_price as nat, 8);
    assert(a.len() == b.len());
    assert forall|i: int| 0 <= i < a.len() implies (#[trigger] a[i]).accounts == b[i].accounts
        && a[i].program_id == b[i].program_id && a[i].data.len() == b[i].data.len() by {}
    lemma_keys_ignore_data(a, b, payer);
    assert forall|i: int| 0 <= i < b.len() && !use_txv1 implies (#[trigger] b[i]).accounts.len()
        <= 65535 && b[i].data.len() <= 65535 by {
        assert(a[i].accounts.len() <= 65535);
    }
}

/// The addresses of a transaction do not depend on instruction data.
proof fn lemma_keys_ignore_data(a: Seq<InstructionView>, b: Seq<InstructionView>, payer: Seq<u8>)
    requires
        a.len() == b.len(),
        forall|i: int|
            0 <= i < a.len() ==> (#[trigger] a[i]).accounts == b[i].accounts && a[i].program_id
                == b[i].program_id,
    ensures
        wire::signer_keys(a, payer) == wire::signer_keys(b, payer),
        wire::read_only_keys(a, payer) == wire::read_only_keys(b, payer),
        wire::account_keys(a, payer) == wire::account_keys(b, payer),
{
    assert forall|key: Seq<u8>| wire::signer_keys(a, payer).contains(key) implies wire::signer_keys(
        b,
        payer,
    ).contains(key) by {
        if key != payer {
            let (i, j) = choose|i: int, j: int|
                0 <= i < a.len() && 0 <= j < a[i].accounts.len()
                    && #[trigger] a[i].accounts[j].pubkey == key && a[i].accounts[j].is_signer;
            assert(b[i].accounts[j].pubkey == key);
        }
    }
    assert forall|key: Seq<u8>| wire::signer_keys(b, payer).contains(key) implies wire::signer_keys(
        a,
        payer,
    ).contains(key) by {
        if key != payer {
            let (i, j) = choose|i: int, j: int|
                0 <= i < b.len() && 0 <= j < b[i].accounts.len()
                    && #[trigger] b[i].accounts[j].pubkey == key && b[i].accounts[j].is_signer;
            assert(a[i].accounts[j].pubkey == key);
        }
    }
    assert(wire::signer_keys(a, payer) =~= wire::signer_keys(b, payer));
    assert forall|key: Seq<u8>|
        wire::writable_keys(a, payer).contains(key) implies wire::writable_keys(
        b,
        payer,
    ).contains(key) by {
        if key != payer {
            let (i, j) = choose|i: int, j: int|
                0 <= i < a.len() && 0 <= j < a[i].accounts.len()
                    && #[trigger] a[i].accounts[j].pubkey == key && a[i].accounts[j].is_writable;
            assert(b[i].accounts[j].pubkey == key);
        }
    }
    assert forall|key: Seq<u8>|
        wire::writable_keys(b, payer).contains(key) implies wire::writable_keys(
        a,
        payer,
    ).contains(key) by {
        if key != payer {
            let (i, j) = choose|i: int, j: int|
                0 <= i < b.len() && 0 <= j < b[i].accounts.len()
                    && #[trigger] b[i].accounts[j].pubkey == key && b[i].accounts[j].is_writable;
            assert(a[i].accounts[j].pubkey == key);
        }
    }
    assert(wire::writable_keys(a, payer) =~= wire::writable_keys(b, payer));
    assert forall|key: Seq<u8>|
        wire::account_keys(a, payer).contains(key) implies wire::account_keys(b, payer).contains(
        key,
    ) by {
        if key != payer {
            if exists|i: int| 0 <= i < a.len() && #[trigger] a[i].program_id == key {
                let i = choose|i: int| 0 <= i < a.len() && #[trigger] a[i].program_id == key;
                assert(b[i].program_id == key);
            } else {
                let (i, j) = choose|i: int, j: int|
                    0 <= i < a.len() && 0 <= j < a[i].accounts.len()
                        && #[trigger] a[i].accounts[j].pubkey == key;
                assert(b[i].accounts[j].pubkey == key);
            }
        }
    }
    assert forall|key: Seq<u8>|
        wire::account_keys(b, payer).contains(key) implies wire::account_keys(a, payer).contains(
        key,
    ) by {
        if key != payer {
            if exists|i: int| 0 <= i < b.len() && #[trigger] b[i].program_id == key {
                let i = choose|i: int| 0 <= i < b.len() && #[trigger] b[i].program_id == key;
                assert(a[i].program_id == key);
            } else {
                let (i, j) = choose|i: int, j: int|
                    0 <= i < b.len() && 0 <= j < b[i].accounts.len()
                        && #[trigger] b[i].accounts[j].pubkey == key;
                assert(a[i].accounts[j].pubkey == key);
            }
        }
    }
    assert(wire::account_keys(a, payer) =~= wire::account_keys(b, payer));
}

/// Builds one transfer transaction. The additional fee is resolved by the
/// priority-fee mode, and the resulting price recorded where a mode is active.
pub fn create_serialized_transfers<'a>(
    accounts_from: &mut Cursor<'a, Keypair>,
    accounts_to: &mut Cursor<'a, Keypair>,
    lamports: &mut Cursor<'a, u64>,
    recent_blockhash: &[u8; 32],
    instructions: &mut Vec<Instruction>,
    signers: &mut Vec<&'a Keypair>,
    num_send_instructions_per_tx: usize,
    transaction_cu_budget: u32,
    instruction_padding_config: Option<&InstructionPaddingConfig>,
    compute_unit_price: Option<u64>,
    priority_fee_mode: &PriorityFeeMode,
    priority_fee_stats: &mut PriorityFeeStats,
    tx_index: u64,
    now_ms: u64,
    draw: &ShapedDraw,
    use_txv1: bool,
) -> (bytes: Vec<u8>)
    requires
        old(accounts_from).remaining().len() > 0,
        old(accounts_to).remaining().len() > 0,
        old(lamports).remaining().len() > 0,
        padded_transfer_fits(instruction_padding_config),
        priority_fee_mode.well_formed(),
        transfers_signable(
            old(accounts_from).remaining(),
            old(accounts_to).remaining(),
            old(lamports).remaining(),
            old(instructions)@,
            old(signers)@,
            num_send_instructions_per_tx,
            transaction_cu_budget,
            instruction_padding_config,
            effective_price(compute_unit_price, *priority_fee_mode, 0),
            use_txv1,
        ),
    ensures
        exists|additional: u64|
            {
                let price = effective_price(compute_unit_price, *priority_fee_mode, additional);
                &&& #[trigger] priority_fee_mode.allows_fee(tx_index, now_ms, *draw, additional)
                &&& bytes@ == transfers_bytes(
                    old(accounts_from).remaining(),
                    old(accounts_to).remaining(),
                    old(lamports).remaining(),
                    recent_blockhash@,
                    old(instructions)@,
                    old(signers)@,
                    num_send_instructions_per_tx,
                    transaction_cu_budget,
                    instruction_padding_config,
                    price,
                    use_txv1,
                )
                &&& match (*priority_fee_mode, price) {
                    (PriorityFeeMode::BaseOnly, _) => *final(priority_fee_stats) == *old(
                        priority_fee_stats,
                    ),
                    (_, Some(price)) => {
                        &&& final(priority_fee_stats).total_fees() == (old(
                            priority_fee_stats,
                        ).total_fees() + price) % 0x1_0000_0000_0000_0000
                        &&& final(priority_fee_stats).tx_count() == (old(
                            priority_fee_stats,
                        ).tx_count() + 1) % 0x1_0000_0000_0000_0000
                    },
                    _ => false,
                }
                &&& wire::instruction_views(final(instructions)@) == compiled_instructions(
                    wire::instruction_views(old(instructions)@) + transfer_body(
                        old(accounts_from).remaining(),
                        old(accounts_to).remaining(),
                        old(lamports).remaining(),
                        transfer_count(
                            old(accounts_from).remaining(),
                            old(accounts_to).remaining(),
                            old(lamports).remaining(),
                            at_least_one(num_send_instructions_per_tx),
                        ),
                        instruction_padding_config,
                    ),
                    transaction_cu_budget,
                    instruction_padding_config,
                    price,
                    use_txv1,
                )
            },
        ({
            let from = old(accounts_from).remaining();
            let to = old(accounts_to).remaining();
            let amounts = old(lamports).remaining();
            let limit = at_least_one(num_send_instructions_per_tx);
            let count = transfer_count(from, to, amounts, limit);
            &&& wire::addresses(final(signers)@) == wire::addresses(old(signers)@)
                + first_addresses(from, count)
            &&& wire::secrets(final(signers)@) == wire::secrets(old(signers)@) + first_secrets(
                from,
                count,
            )
            &&& final(accounts_from).remaining() == from.skip(
                senders_taken(from, to, amounts, limit) as int,
            )
            &&& final(accounts_to).remaining() == to.skip(
                receivers_taken(from, to, amounts, limit) as int,
            )
            &&& final(lamports).remaining() == amounts.skip(count as int)
        }),
{
    let additional: u64 = priority_fee_mode.resolve(tx_index, now_ms, draw);
    let price: Option<u64> = effective_compute_unit_price(
        compute_unit_price,
        priority_fee_mode,
        additional,
    );
    match priority_fee_mode {
        PriorityFeeMode::BaseOnly => {},
        _ => {
            if let Some(price) = price {
                priority_fee_stats.record(price);
            }
            proof {
                let from = accounts_from.remaining();
                let count = transfer_count(
                    from,
                    accounts_to.remaining(),
                    lamports.remaining(),
                    at_least_one(num_send_instructions_per_tx),
                );
                lemma_signable_whatever_the_price(
                    wire::instruction_views(instructions@) + transfer_body(
                        from,
                        accounts_to.remaining(),
                        lamports.remaining(),
                        count,
                        instruction_padding_config,
                    ),
                    from[0].address(),
                    wire::addresses(signers@) + first_addresses(from, count),
                    transaction_cu_budget,
                    instruction_padding_config,
                    effective_price(compute_unit_price, *priority_fee_mode, 0)->0,
                    price->0,
                    use_txv1,
                );
            }
        },
    }
    create_transfers_at_price(
        accounts_from,
        accounts_to,
        lamports,
        recent_blockhash,
        instructions,
        signers,
        num_send_instructions_per_tx,
        transaction_cu_budget,
        instruction_padding_config,
        price,
        use_txv1,
    )
}

/// A transfer and its wrapping do not leave out or add a signer: the senders, and
/// nobody else, sign. Every address but those of programs is written to.
proof fn lemma_keys_of_transfers(
    from: Seq<Keypair>,
    to: Seq<Keypair>,
    lamports: Seq<u64>,
    count: nat,
    transaction_cu_budget: u32,
    padding: Option<&InstructionPaddingConfig>,
    price: Option<u64>,
    use_txv1: bool,
)
    requires
        0 < count <= from.len(),
        count <= to.len(),
    ensures
        ({
            let all = compiled_instructions(
                transfer_body(from, to, lamports, count, padding),
                transaction_cu_budget,
                padding,
                price,
                use_txv1,
            );
            let payer = from[0].address();
            let programs = seq![wire::system_program()] + (match padding {
                Some(config) => seq![config.program_id@],
                None => Seq::empty(),
            }) + (if use_txv1 {
                Seq::empty()
            } else {
                seq![wire::compute_budget_program()]
            });
            &&& wire::signer_keys(all, payer) == first_addresses(from, count).to_set()
            &&& wire::account_keys(all, payer).subset_of(
                (first_addresses(from, count) + first_addresses(to, count) + programs).to_set(),
            )
            &&& wire::read_only_keys(all, payer).subset_of(programs.to_set())
        }),
{
    let body = transfer_body(from, to, lamports, count, padding);
    let all = compiled_instructions(body, transaction_cu_budget, padding, price, use_txv1);
    let payer = from[0].address();
    let senders = first_addresses(from, count);
    let receivers = first_addresses(to, count);
    let padding_programs = match padding {
        Some(config) => seq![config.program_id@],
        None => Seq::empty(),
    };
    let budget_programs = if use_txv1 {
        Seq::empty()
    } else {
        seq![wire::compute_budget_program()]
    };
    let programs = seq![wire::system_program()] + padding_programs + budget_programs;
    let prefix = if use_txv1 {
        Seq::<InstructionView>::empty()
    } else {
        budget_prefix(transaction_cu_budget, padding, price)
    };
    let k = prefix.len() as int;
    assert(all =~= prefix + body);
    assert(forall|i: int| 0 <= i < k ==> (#[trigger] all[i]).accounts.len() == 0);
    assert(forall|i: int| 0 <= i < k ==> (#[trigger] all[i]).program_id
        == wire::compute_budget_program());
    assert forall|i: int| k <= i < all.len() implies {
        let transfer = wire::transfer_view(
            from[i - k].address(),
            to[i - k].address(),
            lamports[i - k],
        );
        #[trigger] all[i] == maybe_wrapped(transfer, padding)
    } by {
        assert(all[i] == body[i - k]);
    }
    assert(senders[0] == payer);
    assert(programs[0] == wire::system_program());
    if padding is Some {
        assert(programs[1] == padding_programs[0]);
    }
    if !use_txv1 {
        assert(programs.last() == wire::compute_budget_program());
    }
    assert forall|key: Seq<u8>| wire::signer_keys(all, payer).contains(key) implies senders.contains(
        key,
    ) by {
        if key != payer {
            let (i, j) = choose|i: int, j: int|
                0 <= i < all.len() && 0 <= j < all[i].accounts.len()
                    && #[trigger] all[i].accounts[j].pubkey == key && all[i].accounts[j].is_signer;
            assert(i >= k);
            assert(j == 0);
            assert(senders[i - k] == key);
        }
    }
    assert forall|key: Seq<u8>| senders.contains(key) implies wire::signer_keys(
        all,
        payer,
    ).contains(key) by {
        let i = choose|i: int| 0 <= i < senders.len() && senders[i] == key;
        assert(all[k + i].accounts[0].pubkey == key && all[k + i].accounts[0].is_signer);
    }
    assert(wire::signer_keys(all, payer) =~= senders.to_set());
    let known = senders + receivers + programs;
    assert forall|key: Seq<u8>| wire::account_keys(all, payer).contains(key) implies known.contains(
        key,
    ) && (programs.contains(key) || wire::writable_keys(all, payer).contains(key)) by {
        if key == payer {
            assert(known[0] == key);
        } else if exists|i: int| 0 <= i < all.len() && #[trigger] all[i].program_id == key {
            let i = choose|i: int| 0 <= i < all.len() && #[trigger] all[i].program_id == key;
            assert(programs.contains(key)) by {
                if i < k {
                    assert(programs[programs.len() - 1] == key);
                } else if padding is Some {
                    assert(programs[1] == key);
                } else {
                    assert(programs[0] == key);
                }
            }
            let p = choose|p: int| 0 <= p < programs.len() && programs[p] == key;
            assert(known[2 * count + p] == key);
        } else {
            let (i, j) = choose|i: int, j: int|
                0 <= i < all.len() && 0 <= j < all[i].accounts.len()
                    && #[trigger] all[i].accounts[j].pubkey == key;
            assert(i >= k);
            if j == 0 {
                assert(known[i - k] == key);
                assert(all[i].accounts[j].is_writable);
            } else if j == 1 {
                assert(known[count + (i - k)] == key);
                assert(all[i].accounts[j].is_writable);
            } else {
                assert(known[2 * count as int] == key);
                assert(programs[0] == key);
            }
        }
    }
    assert(wire::account_keys(all, payer).subset_of(known.to_set()));
    assert(wire::read_only_keys(all, payer).subset_of(programs.to_set()));
}

/// How many transfers one transaction can hold: a legacy transaction counts its
/// signers in a byte, a V1 transaction all its addresses.
pub open spec fn transfer_limit(use_txv1: bool) -> nat {
    if use_txv1 {
        127
    } else {
        255
    }
}

/// A transaction that is built from empty buffers is signed by exactly those who
/// have to sign, and can be compiled, as long as it holds no more transfers than
/// the format allows. In a V1 transaction no sender may occur twice.
pub proof fn law_fresh_transfers_are_signable(
    from: Seq<Keypair>,
    to: Seq<Keypair>,
    lamports: Seq<u64>,
    num_send_instructions_per_tx: usize,
    transaction_cu_budget: u32,
    padding: Option<&InstructionPaddingConfig>,
    price: Option<u64>,
    use_txv1: bool,
)
    requires
        from.len() > 0,
        to.len() > 0,
        lamports.len() > 0,
        padded_transfer_fits(padding),
        ({
            let count = transfer_count(
                from,
                to,
                lamports,
                at_least_one(num_send_instructions_per_tx),
            );
            &&& count <= transfer_limit(use_txv1)
            &&& use_txv1 ==> first_addresses(from, count).no_duplicates()
        }),
    ensures
        transfers_signable(
            from,
            to,
            lamports,
            Seq::empty(),
            Seq::empty(),
            num_send_instructions_per_tx,
            transaction_cu_budget,
            padding,
            price,
            use_txv1,
        ),
{
    broadcast use vstd::seq_lib::seq_to_set_is_finite;

    let count = transfer_count(from, to, lamports, at_least_one(num_send_instructions_per_tx));
    let body = transfer_body(from, to, lamports, count, padding);
    let all = compiled_instructions(body, transaction_cu_budget, padding, price, use_txv1);
    let payer = from[0].address();
    let senders = first_addresses(from, count);
    let receivers = first_addresses(to, count);
    let programs = seq![wire::system_program()] + (match padding {
        Some(config) => seq![config.program_id@],
        None => Seq::empty(),
    }) + (if use_txv1 {
        Seq::empty()
    } else {
        seq![wire::compute_budget_program()]
    });
    assert(wire::instruction_views(Seq::empty()) + body =~= body);
    assert(wire::addresses(Seq::empty()) + senders =~= senders);
    lemma_keys_of_transfers(
        from,
        to,
        lamports,
        count,
        transaction_cu_budget,
        padding,
        price,
        use_txv1,
    );
    senders.lemma_cardinality_of_set();
    programs.lemma_cardinality_of_set();
    (senders + receivers + programs).lemma_cardinality_of_set();
    vstd::set_lib::lemma_len_subset(
        wire::account_keys(all, payer),
        (senders + receivers + programs).to_set(),
    );
    vstd::set_lib::lemma_len_subset(wire::read_only_keys(all, payer), programs.to_set());
    if !use_txv1 {
        lemma_le_bytes_len(transaction_cu_budget as nat, 4);
        if let Some(price) = price {
            lemma_le_bytes_len(price as nat, 8);
        }
        if let Some(config) = padding {
            lemma_le_bytes_len(config.loaded_accounts_data_size_limit as nat, 4);
        }
        let prefix = budget_prefix(transaction_cu_budget, padding, price);
        assert forall|i: int| 0 <= i < all.len() implies (#[trigger] all[i]).accounts.len() <= 65535
            && all[i].data.len() <= 65535 by {
            if i >= prefix.len() {
                let j = i - prefix.len();
                assert(all[i] == body[j]);
                lemma_le_bytes_len(2, 4);
                lemma_le_bytes_len(12, 4);
                lemma_le_bytes_len(lamports[j] as nat, 8);
            } else {
                assert(all[i] == prefix[i]);
            }
        }
    }
}

/// Legacy and V1 transactions ask for the same budget. A legacy transaction says so
/// in instructions in front of all others: the compute-unit limit, the price where
/// there is one, and, where transfers are padded, the limit on loaded data. A V1
/// transaction has the same numbers in its message, and there the limit on loaded
/// data is 30 KiB where nothing is padded. Nothing else differs: the instructions,
/// the payer, the signers and the blockhash are those that were given.
pub proof fn law_both_formats_ask_for_the_same_budget(
    body: Seq<InstructionView>,
    payer: Seq<u8>,
    secrets: Seq<Seq<u8>>,
    blockhash: Seq<u8>,
    transaction_cu_budget: u32,
    padding: Option<&InstructionPaddingConfig>,
    price: Option<u64>,
)
    ensures
        ({
            let limit = seq![wire::unit_limit_view(transaction_cu_budget)];
            let front = match (price, padding) {
                (None, None) => limit,
                (Some(price), None) => limit.push(wire::unit_price_view(price)),
                (None, Some(config)) => limit.push(
                    wire::loaded_data_limit_view(config.loaded_accounts_data_size_limit),
                ),
                (Some(price), Some(config)) => limit.push(wire::unit_price_view(price)).push(
                    wire::loaded_data_limit_view(config.loaded_accounts_data_size_limit),
                ),
            };
            let loaded: u32 = match padding {
                Some(config) => config.loaded_accounts_data_size_limit,
                None => 30720,
            };
            &&& transaction_bytes(
                body,
                payer,
                secrets,
                blockhash,
                transaction_cu_budget,
                padding,
                price,
                false,
            ) == wire::legacy_transaction_bytes(front + body, payer, secrets, blockhash)
            &&& transaction_bytes(
                body,
                payer,
                secrets,
                blockhash,
                transaction_cu_budget,
                padding,
                price,
                true,
            ) == wire::v1_transaction_bytes(
                body,
                payer,
                secrets,
                blockhash,
                (TransactionConfig {
                    priority_fee: price,
                    compute_unit_limit: Some(transaction_cu_budget),
                    loaded_accounts_data_size_limit: Some(loaded),
                    heap_size: None,
                }),
            )
            &&& compiled_instructions(body, transaction_cu_budget, padding, price, false) == front
                + body
            &&& compiled_instructions(body, transaction_cu_budget, padding, price, true) == body
        }),
{
    let limit = seq![wire::unit_limit_view(transaction_cu_budget)];
    let front = match (price, padding) {
        (None, None) => limit,
        (Some(price), None) => limit.push(wire::unit_price_view(price)),
        (None, Some(config)) => limit.push(
            wire::loaded_data_limit_view(config.loaded_accounts_data_size_limit),
        ),
        (Some(price), Some(config)) => limit.push(wire::unit_price_view(price)).push(
            wire::loaded_data_limit_view(config.loaded_accounts_data_size_limit),
        ),
    };
    assert(budget_prefix(transaction_cu_budget, padding, price) =~= front);
}

/// The settings of a V1 transaction are the numbers that were asked for.
pub proof fn law_v1_settings_are_those_asked_for(
    transaction_cu_budget: u32,
    config: &InstructionPaddingConfig,
    price: Option<u64>,
)
    ensures
        ({
            let padded = v1_settings(transaction_cu_budget, Some(config), price);
            let plain = v1_settings(transaction_cu_budget, None, price);
            &&& padded.loaded_accounts_data_size_limit == Some(
                config.loaded_accounts_data_size_limit,
            )
            &&& plain.loaded_accounts_data_size_limit == Some(30720u32)
            &&& padded.compute_unit_limit == Some(transaction_cu_budget)
            &&& plain.compute_unit_limit == Some(transaction_cu_budget)
            &&& padded.priority_fee == price && plain.priority_fee == price
            &&& padded.heap_size is None && plain.heap_size is None
        }),
{
}

/// A transaction holds exactly as many transfers as were asked for, at least one,
/// where senders, receivers and amounts last, and then takes exactly so many of
/// each. Where they do not last it holds as many as there are.
pub proof fn law_transfers_are_as_many_as_asked_for(
    from: Seq<Keypair>,
    to: Seq<Keypair>,
    lamports: Seq<u64>,
    num_send_instructions_per_tx: usize,
)
    ensures
        ({
            let asked: int = if num_send_instructions_per_tx == 0 {
                1
            } else {
                num_send_instructions_per_tx as int
            };
            let limit = at_least_one(num_send_instructions_per_tx);
            let count = transfer_count(from, to, lamports, limit);
            let senders = senders_taken(from, to, lamports, limit);
            let receivers = receivers_taken(from, to, lamports, limit);
            &&& asked <= from.len() && asked <= to.len() && asked <= lamports.len() ==> {
                &&& count == asked
                &&& senders == asked
                &&& receivers == asked
            }
            &&& count <= asked && count <= from.len() && count <= to.len() && count
                <= lamports.len()
            &&& count == asked || count == from.len() || count == to.len() || count
                == lamports.len()
            &&& count <= senders <= from.len()
            &&& count <= receivers <= to.len()
        }),
{
}

/// What a transaction is made of. It holds the instructions that are already there
/// and `n` transfers behind them, number `i` from sender `i` to receiver `i` over
/// amount `i`, each wrapped where padding is on. The first sender pays for it; the
/// signers that are already there and the senders sign it, in order.
pub proof fn law_senders_pay_receivers_pairwise(
    from: Seq<Keypair>,
    to: Seq<Keypair>,
    lamports: Seq<u64>,
    blockhash: Seq<u8>,
    instructions: Seq<Instruction>,
    signers: Seq<&Keypair>,
    n: usize,
    transaction_cu_budget: u32,
    padding: Option<&InstructionPaddingConfig>,
    price: Option<u64>,
    use_txv1: bool,
)
    requires
        1 <= n <= from.len(),
        n <= to.len(),
        n <= lamports.len(),
    ensures
        ({
            let front = Seq::new(instructions.len(), |i: int| instructions[i]@);
            let body = Seq::new(
                n as nat,
                |i: int|
                    {
                        let transfer = wire::transfer_view(
                            from[i].address(),
                            to[i].address(),
                            lamports[i],
                        );
                        match padding {
                            Some(config) => wire::wrapped_view(
                                config.program_id@,
                                transfer,
                                config.data_size,
                            ),
                            None => transfer,
                        }
                    },
            );
            let first = Seq::new(signers.len(), |i: int| signers[i].secret());
            let secrets = Seq::new(n as nat, |i: int| from[i].secret());
            transfers_bytes(
                from,
                to,
                lamports,
                blockhash,
                instructions,
                signers,
                n,
                transaction_cu_budget,
                padding,
                price,
                use_txv1,
            ) == transaction_bytes(
                front + body,
                from[0].address(),
                first + secrets,
                blockhash,
                transaction_cu_budget,
                padding,
                price,
                use_txv1,
            )
        }),
{
    let front = Seq::new(instructions.len(), |i: int| instructions[i]@);
    let body = Seq::new(
        n as nat,
        |i: int|
            {
                let transfer = wire::transfer_view(from[i].address(), to[i].address(), lamports[i]);
                match padding {
                    Some(config) => wire::wrapped_view(
                        config.program_id@,
                        transfer,
                        config.data_size,
                    ),
                    None => transfer,
                }
            },
    );
    let first = Seq::new(signers.len(), |i: int| signers[i].secret());
    let secrets = Seq::new(n as nat, |i: int| from[i].secret());
    assert(wire::instruction_views(instructions) =~= front);
    assert(transfer_body(from, to, lamports, n as nat, padding) =~= body);
    assert(wire::secrets(signers) =~= first);
    assert(first_secrets(from, n as nat) =~= secrets);
}

/// A walk takes the items in order from where it starts, goes round at the end of
/// the list, and comes back to its start after every `period` items.
pub proof fn law_walks_go_in_order<T>(items: Seq<T>, start: int, period: int, i: int)
    requires
        items.len() > 0,
        period > 0,
        0 <= start,
        0 <= i,
    ensures
        i < period ==> walked(items, start, period, i) == items[(start + i) % items.len() as int],
        walked(items, start, period, i + period) == walked(items, start, period, i),
        walked(items, start, period, 0) == items[start % items.len() as int],
{
    if i < period {
        vstd::arithmetic::div_mod::lemma_small_mod(i as nat, period as nat);
    }
    vstd::arithmetic::div_mod::lemma_small_mod(0, period as nat);
    vstd::arithmetic::div_mod::lemma_mod_add_multiples_vanish(i, period);
}

} // verus!
