//! Priority-fee logic: per-transaction fee selection and metrics.
//!
//! - [`PriorityFeeMode`] picks the additional compute-unit price that is put on
//!   top of the base price (none / random / premium / scheduled). In random
//!   mode a [`FeeDistribution`] shapes the draw, so that expensive transactions
//!   can be made rare. Premium mode ([`PremiumPlan`]) pins an exact,
//!   reproducible high-fee subset instead.
//! - [`PriorityFeeStats`] accumulates totals for metrics reporting.
//!
//! Shape parameters and weights are binary floating-point numbers. They are
//! carried here as their bit patterns ([`Binary64`]), on which the range checks
//! are exact integer comparisons. Arithmetic on them happens outside; its
//! rounded outcome comes in as a [`ShapedDraw`].
use vstd::prelude::*;
use vstd::arithmetic::div_mod::*;

verus! {

/// Bit pattern of positive infinity, the least one that is not a finite
/// non-negative number.
pub const BINARY64_INFINITY_BITS: u64 = 0x7ff0_0000_0000_0000;

/// Bit pattern of the number one.
pub const BINARY64_ONE_BITS: u64 = 0x3ff0_0000_0000_0000;

/// A binary floating-point number of 64 bits (IEEE 754 binary64), as its bit
/// pattern. Among the patterns without a sign bit, the order of the patterns is
/// the order of the numbers.
#[derive(Clone, Copy, Debug, PartialEq, Eq, Structural)]
pub struct Binary64 {
    pub bits: u64,
}

impl Binary64 {
    /// Greater than zero, and neither infinite nor a NaN.
    pub open spec fn positive_finite(self) -> bool {
        0 < self.bits < BINARY64_INFINITY_BITS
    }

    /// In the half-open interval from zero (excluded) to one.
    pub open spec fn in_unit_interval(self) -> bool {
        0 < self.bits <= BINARY64_ONE_BITS
    }

    pub fn is_positive_finite(&self) -> (b: bool)
        ensures
            b == self.positive_finite(),
    {
        0 < self.bits && self.bits < BINARY64_INFINITY_BITS
    }

    pub fn is_in_unit_interval(&self) -> (b: bool)
        ensures
            b == self.in_unit_interval(),
    {
        0 < self.bits && self.bits <= BINARY64_ONE_BITS
    }
}

/// How the additional priority fee (on top of the base price) is chosen.
#[derive(Clone, Debug, PartialEq)]
pub enum PriorityFeeMode {
    /// No additional fee beyond the base.
    BaseOnly,
    /// Each transaction gets the base plus a random draw shaped by the given
    /// distribution.
    Random(FeeDistribution),
    /// An exact, reproducible high-fee subset. See [`PremiumPlan`].
    Premium(PremiumPlan),
    /// The fee ramps linearly from `0` to `max` over `period_ms` milliseconds,
    /// then resets.
    Scheduled { max: u64, period_ms: u64 },
}

/// Shape of the per-transaction random additional fee.
#[derive(Clone, Debug, PartialEq)]
pub enum FeeDistribution {
    /// Flat on `[0, max]`: every fee is equally likely.
    Uniform { max: u64 },
    /// Bounded power law on `[0, max]`: high fees get rarer as `beta` grows.
    PowerLaw { max: u64, beta: Binary64 },
    /// Bounded Pareto on `[1, max]` with shape `alpha`: a heavy right tail.
    Pareto { max: u64, alpha: Binary64 },
    /// Weighted discrete tiers: each transaction draws one tier's fee with a
    /// probability proportional to its weight.
    Tiered { tiers: Vec<FeeTier> },
}

/// What a [`PriorityFeeMode`] says.
pub enum ModeView {
    BaseOnly,
    Random(DistributionView),
    Premium(PremiumPlan),
    Scheduled { max: u64, period_ms: u64 },
}

/// What a [`FeeDistribution`] says.
pub enum DistributionView {
    Uniform { max: u64 },
    PowerLaw { max: u64, beta: Binary64 },
    Pareto { max: u64, alpha: Binary64 },
    Tiered { tiers: Seq<FeeTier> },
}

impl View for FeeDistribution {
    type V = DistributionView;

    open spec fn view(&self) -> DistributionView {
        match *self {
            FeeDistribution::Uniform { max } => DistributionView::Uniform { max },
            FeeDistribution::PowerLaw { max, beta } => DistributionView::PowerLaw { max, beta },
            FeeDistribution::Pareto { max, alpha } => DistributionView::Pareto { max, alpha },
            FeeDistribution::Tiered { tiers } => DistributionView::Tiered { tiers: tiers@ },
        }
    }
}

impl View for PriorityFeeMode {
    type V = ModeView;

    open spec fn view(&self) -> ModeView {
        match *self {
            PriorityFeeMode::BaseOnly => ModeView::BaseOnly,
            PriorityFeeMode::Random(distribution) => ModeView::Random(distribution@),
            PriorityFeeMode::Premium(plan) => ModeView::Premium(plan),
            PriorityFeeMode::Scheduled { max, period_ms } => ModeView::Scheduled {
                max,
                period_ms,
            },
        }
    }
}

/// One bucket of a [`FeeDistribution::Tiered`] mixture. `fee` is additional
/// microlamports; `weight` is a relative (unnormalized) share.
#[derive(Clone, Copy, Debug, PartialEq, Eq, Structural)]
pub struct FeeTier {
    pub fee: u64,
    pub weight: Binary64,
}

/// A reproducible two-level fee plan: `premium_count` of `total` transactions
/// pay `premium_fee` additional microlamports, the rest pay nothing extra.
/// Premium positions are spread on an even stride across `[0, total)`, so both
/// the count and the layout are independent of the send rate.
#[derive(Clone, Copy, Debug, PartialEq, Eq, Structural)]
pub struct PremiumPlan {
    /// Total transactions the run will send.
    pub total: u64,
    /// How many of `total` are premium.
    pub premium_count: u64,
    /// Additional microlamports a premium transaction pays.
    pub premium_fee: u64,
}

/// What floating-point arithmetic has made of one random number, for the
/// distributions that are shaped by it.
#[derive(Clone, Debug, PartialEq)]
pub struct ShapedDraw {
    /// The continuous draw (power law, Pareto), rounded to a whole fee.
    pub rounded_fee: u64,
    /// For a weighted pick: per tier, whether the picked point lies below zero
    /// once the weights up to and including that tier are subtracted.
    pub below_zero: Vec<bool>,
}

impl PremiumPlan {
    /// The number of premium slots that the first `len` transactions hold:
    /// `floor(len * P / N)` for `P = premium_count < N = total`.
    pub open spec fn premiums_before(self, len: int) -> int {
        if self.premium_count == 0 || self.total == 0 {
            0
        } else if self.premium_count >= self.total {
            len
        } else {
            len * self.premium_count / self.total as int
        }
    }

    /// Slot `index` is premium when it is the one at which the running count
    /// advances.
    pub open spec fn premium_slot(self, index: int) -> bool {
        self.premiums_before(index + 1) > self.premiums_before(index)
    }

    /// How many of the slots `from .. to` are premium, counted one by one.
    pub open spec fn count_premiums(self, from: int, to: int) -> int
        decreases to - from,
    {
        if to <= from {
            0
        } else {
            self.count_premiums(from, to - 1) + if self.premium_slot(to - 1) {
                1int
            } else {
                0int
            }
        }
    }

    /// Additional fee for transaction `index` (0-based send-order position):
    /// `premium_fee` on a premium slot, else `0`.
    pub fn fee_at(&self, index: u64) -> (fee: u64)
        ensures
            fee == if self.premium_slot(index as int) {
                self.premium_fee
            } else {
                0
            },
    {
        if self.is_premium(index) {
            self.premium_fee
        } else {
            0
        }
    }

    /// Whether `index` is a premium slot, via even placement: premium iff
    /// `floor((index + 1) * P / N) > floor(index * P / N)`. The products are
    /// formed in 128 bits, so no run is too large.
    pub fn is_premium(&self, index: u64) -> (b: bool)
        ensures
            b == self.premium_slot(index as int),
    {
        if self.premium_count == 0 || self.total == 0 {
            return false;
        }
        if self.premium_count >= self.total {
            return true;
        }
        let p: u128 = self.premium_count as u128;
        let n: u128 = self.total as u128;
        let i: u128 = index as u128;
        assert((i + 1) * p <= 0x1_0000_0000_0000_0000 * 0xffff_ffff_ffff_ffff) by (nonlinear_arith)
            requires
                i + 1 <= 0x1_0000_0000_0000_0000,
                p <= 0xffff_ffff_ffff_ffff,
        ;
        assert(i * p <= (i + 1) * p) by (nonlinear_arith)
            requires
                0 <= p,
        ;
        (i + 1) * p / n > i * p / n
    }
}

proof fn lemma_premiums_step(plan: PremiumPlan, index: int)
    requires
        index >= 0,
    ensures
        plan.premiums_before(index) <= plan.premiums_before(index + 1)
            <= plan.premiums_before(index) + 1,
        plan.premiums_before(index) >= 0,
{
    if 0 < plan.premium_count < plan.total {
        let p = plan.premium_count as int;
        let n = plan.total as int;
        assert((index + 1) * p == index * p + p) by (nonlinear_arith);
        assert(0 <= index * p) by (nonlinear_arith)
            requires
                0 <= index,
                0 <= p,
        ;
        lemma_div_is_ordered(index * p, (index + 1) * p, n);
        lemma_div_is_ordered((index + 1) * p, index * p + n, n);
        lemma_div_plus_one(index * p, n);
        lemma_div_is_ordered(0, index * p, n);
    }
}

/// Any stretch of slots holds as many premium ones as the running count advances
/// over it.
pub proof fn lemma_premiums_in_window(plan: PremiumPlan, from: int, to: int)
    requires
        0 <= from <= to,
    ensures
        plan.count_premiums(from, to) == plan.premiums_before(to) - plan.premiums_before(from),
    decreases to - from,
{
    if from < to {
        lemma_premiums_in_window(plan, from, to - 1);
        lemma_premiums_step(plan, to - 1);
    }
}

/// Any prefix of length `len` holds `floor(len * P / N)` premium transactions,
/// so a run that is cut short has the right composition on its prefix.
pub proof fn law_premium_prefix_is_proportional(plan: PremiumPlan, len: int)
    requires
        0 < plan.total,
        plan.premium_count <= plan.total,
        0 <= len,
    ensures
        plan.count_premiums(0, len) == len * plan.premium_count / plan.total as int,
{
    lemma_premiums_in_window(plan, 0, len);
    assert(0 * plan.premium_count == 0);
    if plan.premium_count == 0 {
        assert(len * 0 == 0);
    } else if plan.premium_count == plan.total {
        lemma_div_multiples_vanish(len, plan.total as int);
        assert(len * plan.premium_count == plan.total * len) by (nonlinear_arith)
            requires
                plan.premium_count == plan.total,
        ;
    }
}

/// Exactly `premium_count` of the `total` transactions are premium.
pub proof fn law_premium_count_is_exact(plan: PremiumPlan)
    requires
        plan.premium_count <= plan.total,
    ensures
        plan.count_premiums(0, plan.total as int) == plan.premium_count,
{
    if plan.total > 0 {
        law_premium_prefix_is_proportional(plan, plan.total as int);
        lemma_div_multiples_vanish(plan.premium_count as int, plan.total as int);
    }
}

/// Premium slots are spread evenly: any stretch of `len` slots holds
/// `floor(len * P / N)` of them or one more.
pub proof fn law_premium_spread_is_even(plan: PremiumPlan, from: int, len: int)
    requires
        0 < plan.total,
        plan.premium_count <= plan.total,
        0 <= from,
        0 <= len,
    ensures
        len * plan.premium_count / plan.total as int <= plan.count_premiums(from, from + len)
            <= len * plan.premium_count / plan.total as int + 1,
{
    let p = plan.premium_count as int;
    let n = plan.total as int;
    law_premium_prefix_is_proportional(plan, from);
    law_premium_prefix_is_proportional(plan, from + len);
    lemma_premiums_in_window(plan, from, from + len);
    lemma_premiums_in_window(plan, 0, from);
    lemma_premiums_in_window(plan, 0, from + len);
    assert((from + len) * p == from * p + len * p) by (nonlinear_arith);
    lemma_floor_of_sum(from * p, len * p, n);
}

/// A sum rounds down to the sum of the rounded parts, or to one more.
proof fn lemma_floor_of_sum(a: int, b: int, n: int)
    requires
        n > 0,
    ensures
        a / n + b / n <= (a + b) / n <= a / n + b / n + 1,
{
    lemma_fundamental_div_mod(a, n);
    lemma_fundamental_div_mod(b, n);
    lemma_mod_bound(a, n);
    lemma_mod_bound(b, n);
    let q = a / n + b / n;
    assert(n * q == n * (a / n) + n * (b / n)) by (nonlinear_arith)
        requires
            q == a / n + b / n,
    ;
    let r = a % n + b % n;
    assert(a + b == n * q + r);
    if r < n {
        lemma_fundamental_div_mod_converse(a + b, n, q, r);
    } else {
        assert(n * (q + 1) == n * q + n) by (nonlinear_arith);
        lemma_fundamental_div_mod_converse(a + b, n, q + 1, r - n);
    }
}

/// With no premium transactions nobody pays extra; when all are premium,
/// everybody does.
pub proof fn law_premium_extremes(plan: PremiumPlan, index: int)
    requires
        0 <= index,
    ensures
        plan.premium_count == 0 ==> !plan.premium_slot(index),
        plan.premium_count >= plan.total > 0 ==> plan.premium_slot(index),
{
}

proof fn lemma_div_plus_one(x: int, n: int)
    requires
        n > 0,
    ensures
        (x + n) / n == x / n + 1,
{
    lemma_fundamental_div_mod(x, n);
    lemma_mod_bound(x, n);
    assert(n * (x / n + 1) == n * (x / n) + n) by (nonlinear_arith);
    lemma_fundamental_div_mod_converse(x + n, n, x / n + 1, x % n);
}

impl PriorityFeeMode {
    /// What the rest of the program relies on: a positive period, a usable
    /// distribution, no more premium slots than transactions.
    pub open spec fn well_formed(self) -> bool {
        match self {
            PriorityFeeMode::BaseOnly => true,
            PriorityFeeMode::Random(distribution) => distribution.well_formed(),
            PriorityFeeMode::Premium(plan) => plan.premium_count <= plan.total,
            PriorityFeeMode::Scheduled { max: _, period_ms } => period_ms >= 1,
        }
    }

    /// The additional fees that this mode allows for transaction `tx_index` at
    /// time `now_ms`. Only a uniform draw leaves more than one.
    pub open spec fn allows_fee(
        self,
        tx_index: u64,
        now_ms: u64,
        draw: ShapedDraw,
        fee: u64,
    ) -> bool {
        match self {
            PriorityFeeMode::BaseOnly => fee == 0,
            PriorityFeeMode::Random(distribution) => distribution.allows_fee(draw, fee),
            PriorityFeeMode::Premium(plan) => fee == if plan.premium_slot(tx_index as int) {
                plan.premium_fee
            } else {
                0
            },
            PriorityFeeMode::Scheduled { max, period_ms } => fee == sawtooth_fee(
                now_ms as int,
                max as int,
                period_ms as int,
            ),
        }
    }

    /// The additional fee of transaction `tx_index` at time `now_ms`, once both
    /// the uniform number and the shaped draw are there.
    pub open spec fn resolved_fee(
        self,
        tx_index: u64,
        now_ms: u64,
        uniform: u64,
        draw: ShapedDraw,
    ) -> int {
        match self {
            PriorityFeeMode::BaseOnly => 0,
            PriorityFeeMode::Random(distribution) => distribution.drawn_fee(uniform, draw) as int,
            PriorityFeeMode::Premium(plan) => if plan.premium_slot(tx_index as int) {
                plan.premium_fee as int
            } else {
                0
            },
            PriorityFeeMode::Scheduled { max, period_ms } => sawtooth_fee(
                now_ms as int,
                max as int,
                period_ms as int,
            ),
        }
    }

    /// The number can come of the uniform draw of this mode, where it makes one.
    pub open spec fn may_draw(self, uniform: u64) -> bool {
        self matches PriorityFeeMode::Random(distribution) ==> distribution.may_draw(uniform)
    }

    /// The additional fee of transaction `tx_index` at time `now_ms`, of a uniform
    /// number that was drawn before.
    pub fn resolve_drawn(
        &self,
        tx_index: u64,
        now_ms: u64,
        uniform: u64,
        draw: &ShapedDraw,
    ) -> (fee: u64)
        requires
            self.well_formed(),
        ensures
            fee == self.resolved_fee(tx_index, now_ms, uniform, *draw),
    {
        match self {
            PriorityFeeMode::BaseOnly => 0,
            PriorityFeeMode::Random(distribution) => distribution.sample_drawn(uniform, draw),
            PriorityFeeMode::Premium(plan) => plan.fee_at(tx_index),
            PriorityFeeMode::Scheduled { max, period_ms } => scheduled_fee_at(
                now_ms,
                *max,
                *period_ms,
            ),
        }
    }

    /// Resolves the additional fee for transaction `tx_index` (0-based position
    /// in overall send order) at `now_ms` milliseconds of wall-clock time. Only
    /// the premium mode uses `tx_index`, only the scheduled mode uses `now_ms`,
    /// only the random mode uses `draw`.
    pub fn resolve(&self, tx_index: u64, now_ms: u64, draw: &ShapedDraw) -> (fee: u64)
        requires
            self.well_formed(),
        ensures
            self.allows_fee(tx_index, now_ms, *draw, fee),
    {
        let uniform: u64 = match self {
            PriorityFeeMode::Random(distribution) => distribution.draw_uniform(),
            _ => 0,
        };
        self.resolve_drawn(tx_index, now_ms, uniform, draw)
    }
}

impl FeeDistribution {
    /// Positive, finite shapes and weights; at least one tier.
    pub open spec fn well_formed(self) -> bool {
        match self {
            FeeDistribution::Uniform { max: _ } => true,
            FeeDistribution::PowerLaw { max: _, beta } => beta.positive_finite(),
            FeeDistribution::Pareto { max: _, alpha } => alpha.positive_finite(),
            FeeDistribution::Tiered { tiers } => {
                &&& tiers@.len() > 0
                &&& forall|i: int|
                    0 <= i < tiers@.len() ==> (#[trigger] tiers@[i]).weight.positive_finite()
            },
        }
    }

    /// The fees that this distribution allows for a draw.
    pub open spec fn allows_fee(self, draw: ShapedDraw, fee: u64) -> bool {
        match self {
            FeeDistribution::Uniform { max } => fee <= max,
            FeeDistribution::PowerLaw { max, beta: _ } => fee == bounded_fee(
                draw.rounded_fee,
                0,
                max,
            ),
            FeeDistribution::Pareto { max, alpha: _ } => fee == if max <= 1 {
                max
            } else {
                bounded_fee(draw.rounded_fee, 1, max)
            },
            FeeDistribution::Tiered { tiers } => fee == weighted_pick(draw.below_zero@, tiers@),
        }
    }

    /// The fee that comes of a uniform number and a shaped draw.
    pub open spec fn drawn_fee(self, uniform: u64, draw: ShapedDraw) -> u64 {
        match self {
            FeeDistribution::Uniform { max: _ } => uniform,
            FeeDistribution::PowerLaw { max, beta: _ } => bounded_fee(draw.rounded_fee, 0, max),
            FeeDistribution::Pareto { max, alpha: _ } => if max <= 1 {
                max
            } else {
                bounded_fee(draw.rounded_fee, 1, max)
            },
            FeeDistribution::Tiered { tiers } => weighted_pick(draw.below_zero@, tiers@),
        }
    }

    /// The number can come of the uniform draw of this distribution, where it makes
    /// one.
    pub open spec fn may_draw(self, uniform: u64) -> bool {
        self matches FeeDistribution::Uniform { max } ==> uniform <= max
    }

    /// A number from the thread's random number generator, for the uniform
    /// distribution.
    fn draw_uniform(&self) -> (uniform: u64)
        ensures
            self.may_draw(uniform),
    {
        match self {
            FeeDistribution::Uniform { max } => uniform_up_to(*max),
            _ => 0,
        }
    }

    /// The fee of a uniform number that was drawn before; the other distributions
    /// read theirs off `draw`.
    pub fn sample_drawn(&self, uniform: u64, draw: &ShapedDraw) -> (fee: u64)
        ensures
            fee == self.drawn_fee(uniform, *draw),
    {
        match self {
            FeeDistribution::Uniform { max: _ } => uniform,
            FeeDistribution::PowerLaw { max, beta: _ } => power_law_fee(draw.rounded_fee, *max),
            FeeDistribution::Pareto { max, alpha: _ } => pareto_fee(draw.rounded_fee, *max),
            FeeDistribution::Tiered { tiers } => tiered_fee(&draw.below_zero, tiers),
        }
    }

    /// Draws one additional fee (microlamports). The uniform fee comes from the
    /// thread's random number generator; the others are read off `draw`.
    pub fn sample(&self, draw: &ShapedDraw) -> (fee: u64)
        ensures
            self.allows_fee(*draw, fee),
    {
        self.sample_drawn(self.draw_uniform(), draw)
    }
}

/// Calls `gen_range(0..=max)` of the `rand` crate on the thread's generator: some
/// number of that range, a different one each time.
#[verifier::external_body]
fn uniform_up_to(max: u64) -> (fee: u64)
    ensures
        fee <= max,
{
    rand::Rng::gen_range(&mut rand::thread_rng(), 0..=max)
}

/// `fee`, moved to the nearer end of `[low, high]` where it lies outside.
pub open spec fn bounded_fee(fee: u64, low: u64, high: u64) -> u64 {
    if fee < low {
        low
    } else if fee > high {
        high
    } else {
        fee
    }
}

/// The first tier whose flag is set; the last tier where none is.
pub open spec fn weighted_pick(below_zero: Seq<bool>, tiers: Seq<FeeTier>) -> u64
    decreases tiers.len(),
{
    if tiers.len() == 0 {
        0
    } else if tiers.len() == 1 || (below_zero.len() > 0 && below_zero[0]) {
        tiers[0].fee
    } else {
        weighted_pick(
            if below_zero.len() > 0 {
                below_zero.drop_first()
            } else {
                below_zero
            },
            tiers.drop_first(),
        )
    }
}

/// A weighted pick from a table gives the fee of one of its tiers.
pub proof fn law_pick_is_a_tier(below_zero: Seq<bool>, tiers: Seq<FeeTier>)
    requires
        tiers.len() > 0,
    ensures
        exists|k: int|
            0 <= k < tiers.len() && (#[trigger] tiers[k]).fee == weighted_pick(below_zero, tiers),
    decreases tiers.len(),
{
    if tiers.len() == 1 || (below_zero.len() > 0 && below_zero[0]) {
        assert(tiers[0].fee == weighted_pick(below_zero, tiers));
    } else {
        let flags = if below_zero.len() > 0 {
            below_zero.drop_first()
        } else {
            below_zero
        };
        let rest = tiers.drop_first();
        law_pick_is_a_tier(flags, rest);
        let k = choose|k: int|
            0 <= k < rest.len() && (#[trigger] rest[k]).fee == weighted_pick(flags, rest);
        assert(tiers[k + 1].fee == weighted_pick(below_zero, tiers));
    }
}

/// Whatever is drawn, and whenever, the additional fee stays within the range of
/// its mode: `[0, max]` for uniform, power law and schedule, `[1, max]` for Pareto,
/// nothing or the premium for a plan.
pub proof fn law_additional_fee_stays_in_range(
    mode: PriorityFeeMode,
    tx_index: u64,
    now_ms: u64,
    draw: ShapedDraw,
    fee: u64,
)
    requires
        mode.well_formed(),
        mode.allows_fee(tx_index, now_ms, draw, fee),
    ensures
        match mode {
            PriorityFeeMode::BaseOnly => fee == 0,
            PriorityFeeMode::Random(FeeDistribution::Uniform { max }) => fee <= max,
            PriorityFeeMode::Random(FeeDistribution::PowerLaw { max, beta: _ }) => fee <= max,
            PriorityFeeMode::Random(FeeDistribution::Pareto { max, alpha: _ }) => fee <= max && (max
                >= 1 ==> fee >= 1),
            PriorityFeeMode::Random(FeeDistribution::Tiered { tiers }) => exists|k: int|
                0 <= k < tiers@.len() && (#[trigger] tiers@[k]).fee == fee,
            PriorityFeeMode::Premium(plan) => fee == 0 || fee == plan.premium_fee,
            PriorityFeeMode::Scheduled { max, period_ms: _ } => fee <= max,
        },
{
    match mode {
        PriorityFeeMode::Random(FeeDistribution::Tiered { tiers }) => {
            law_pick_is_a_tier(draw.below_zero@, tiers@);
        },
        PriorityFeeMode::Scheduled { max, period_ms } => {
            lemma_sawtooth_bounds(now_ms as int, max as int, period_ms as int);
        },
        _ => {},
    }
}

/// Only the premium mode looks at a transaction's position in the send order: for
/// any other mode, two transactions with the same time and the same draws have the
/// same fee, and the same fees are allowed for them.
pub proof fn law_only_premium_uses_the_index(
    mode: PriorityFeeMode,
    i: u64,
    j: u64,
    now_ms: u64,
    uniform: u64,
    draw: ShapedDraw,
    fee: u64,
)
    requires
        !(mode is Premium),
    ensures
        mode.resolved_fee(i, now_ms, uniform, draw) == mode.resolved_fee(j, now_ms, uniform, draw),
        mode.allows_fee(i, now_ms, draw, fee) == mode.allows_fee(j, now_ms, draw, fee),
{
}

/// The fees that a mode allows are those that come of the numbers which its
/// uniform draw can give, and no others.
pub proof fn law_allowed_fees_are_those_of_some_draw(
    mode: PriorityFeeMode,
    tx_index: u64,
    now_ms: u64,
    draw: ShapedDraw,
    fee: u64,
)
    ensures
        mode.allows_fee(tx_index, now_ms, draw, fee) <==> exists|uniform: u64|
            mode.may_draw(uniform) && #[trigger] mode.resolved_fee(tx_index, now_ms, uniform, draw)
                == fee,
{
    if mode.allows_fee(tx_index, now_ms, draw, fee) {
        let uniform = match mode {
            PriorityFeeMode::Random(FeeDistribution::Uniform { max: _ }) => fee,
            _ => 0,
        };
        assert(mode.may_draw(uniform));
        assert(mode.resolved_fee(tx_index, now_ms, uniform, draw) == fee);
    }
}

/// The fee that each mode gives to a transaction. Base only: nothing. A premium
/// plan: the premium for as many of the first `i + 1` transactions as the plan's
/// share of them, rounded down, so that transaction `i` pays it exactly where that
/// number goes up. A uniform draw: any fee up to the maximum, and the one that was
/// drawn. Power law and Pareto: the rounded draw, kept within the range. Tiers: the
/// fee of the first tier that the draw points to, the last one where it points to
/// none. A schedule: a straight line over the period.
pub proof fn law_fee_of_each_mode(
    mode: PriorityFeeMode,
    i: u64,
    now_ms: u64,
    uniform: u64,
    draw: ShapedDraw,
    fee: u64,
)
    requires
        mode.well_formed(),
        mode.may_draw(uniform),
        fee == mode.resolved_fee(i, now_ms, uniform, draw),
    ensures
        match mode {
            PriorityFeeMode::BaseOnly => fee == 0,
            PriorityFeeMode::Premium(plan) => {
                &&& plan.total > 0 ==> fee == plan.premium_fee * ((i + 1) * plan.premium_count
                    / plan.total as int - i * plan.premium_count / plan.total as int)
                &&& plan.total == 0 ==> fee == 0
            },
            PriorityFeeMode::Random(FeeDistribution::Uniform { max }) => fee == uniform && uniform
                <= max,
            PriorityFeeMode::Random(FeeDistribution::PowerLaw { max, beta: _ }) => {
                &&& draw.rounded_fee <= max ==> fee == draw.rounded_fee
                &&& draw.rounded_fee > max ==> fee == max
            },
            PriorityFeeMode::Random(FeeDistribution::Pareto { max, alpha: _ }) => {
                &&& 1 <= draw.rounded_fee <= max ==> fee == draw.rounded_fee
                &&& draw.rounded_fee > max ==> fee == max
                &&& draw.rounded_fee == 0 && max >= 1 ==> fee == 1
            },
            PriorityFeeMode::Random(FeeDistribution::Tiered { tiers }) => exists|k: int|
                #![trigger tiers@[k]]
                {
                    &&& 0 <= k < tiers@.len() && fee == tiers@[k].fee
                    &&& forall|j: int|
                        0 <= j < k && j < draw.below_zero@.len() ==> !#[trigger] draw.below_zero@[j]
                    &&& k == tiers@.len() - 1 || (k < draw.below_zero@.len() && draw.below_zero@[k])
                },
            PriorityFeeMode::Scheduled { max, period_ms } => {
                &&& period_ms == 1 ==> fee == 0
                &&& period_ms >= 2 ==> fee * (period_ms - 1) <= (now_ms % period_ms) * max < (fee
                    + 1) * (period_ms - 1)
            },
        },
{
    match mode {
        PriorityFeeMode::Premium(plan) => {
            if plan.total > 0 {
                lemma_premium_step_by_shares(plan, i as int);
            }
        },
        PriorityFeeMode::Random(FeeDistribution::Tiered { tiers }) => {
            lemma_first_flagged_tier(draw.below_zero@, tiers@);
        },
        PriorityFeeMode::Scheduled { max, period_ms } => {
            if period_ms >= 2 {
                law_sawtooth_is_a_straight_line(
                    now_ms as int,
                    max as int,
                    period_ms as int,
                    (now_ms % period_ms) as int,
                );
            } else {
                law_sawtooth_degenerate_period(now_ms as int, max as int);
            }
        },
        _ => {},
    }
}

proof fn lemma_premium_step_by_shares(plan: PremiumPlan, i: int)
    requires
        0 <= i,
        plan.total > 0,
        plan.premium_count <= plan.total,
    ensures
        ({
            let step = (i + 1) * plan.premium_count / plan.total as int - i * plan.premium_count
                / plan.total as int;
            let fee = if plan.premium_slot(i) {
                plan.premium_fee as int
            } else {
                0
            };
            fee == plan.premium_fee * step
        }),
{
    let p = plan.premium_count as int;
    let n = plan.total as int;
    let step = (i + 1) * p / n - i * p / n;
    law_premium_prefix_is_proportional(plan, i);
    law_premium_prefix_is_proportional(plan, i + 1);
    assert(plan.count_premiums(0, i + 1) == plan.count_premiums(0, i) + if plan.premium_slot(i) {
        1int
    } else {
        0int
    });
    assert(plan.premium_fee * 1 == plan.premium_fee && plan.premium_fee * 0 == 0);
}

proof fn lemma_first_flagged_tier(below_zero: Seq<bool>, tiers: Seq<FeeTier>)
    requires
        tiers.len() > 0,
    ensures
        exists|k: int|
            #![trigger tiers[k]]
            {
                &&& 0 <= k < tiers.len() && weighted_pick(below_zero, tiers) == tiers[k].fee
                &&& forall|j: int|
                    0 <= j < k && j < below_zero.len() ==> !#[trigger] below_zero[j]
                &&& k == tiers.len() - 1 || (k < below_zero.len() && below_zero[k])
            },
    decreases tiers.len(),
{
    if tiers.len() == 1 || (below_zero.len() > 0 && below_zero[0]) {
        assert(tiers[0].fee == weighted_pick(below_zero, tiers));
    } else {
        let flags = if below_zero.len() > 0 {
            below_zero.drop_first()
        } else {
            below_zero
        };
        let rest = tiers.drop_first();
        lemma_first_flagged_tier(flags, rest);
        let k = choose|k: int|
            #![trigger rest[k]]
            {
                &&& 0 <= k < rest.len() && weighted_pick(flags, rest) == rest[k].fee
                &&& forall|j: int| 0 <= j < k && j < flags.len() ==> !#[trigger] flags[j]
                &&& k == rest.len() - 1 || (k < flags.len() && flags[k])
            };
        assert(tiers[k + 1] == rest[k]);
        assert forall|j: int| 0 <= j < k + 1 && j < below_zero.len() implies !#[trigger] below_zero[j] by {
            if j > 0 {
                assert(below_zero[j] == flags[j - 1]);
            }
        }
    }
}

/// Bounded power law: a draw already mapped to a whole fee, kept within
/// `[0, max]`.
pub fn power_law_fee(rounded_fee: u64, max: u64) -> (fee: u64)
    ensures
        fee == bounded_fee(rounded_fee, 0, max),
{
    if rounded_fee > max {
        max
    } else {
        rounded_fee
    }
}

/// A larger draw never makes a smaller power-law fee, and no fee exceeds `max`; a
/// draw of nothing costs nothing.
pub proof fn law_power_law_fee_grows_with_the_draw(rounded: u64, larger: u64, max: u64)
    requires
        rounded <= larger,
    ensures
        bounded_fee(rounded, 0, max) <= bounded_fee(larger, 0, max) <= max,
        bounded_fee(0, 0, max) == 0,
{
}

/// Bounded Pareto: a draw already mapped to a whole fee, kept within `[1, max]`
/// to absorb rounding. For `max <= 1` the range is degenerate and there is
/// nothing to spread.
pub fn pareto_fee(rounded_fee: u64, max: u64) -> (fee: u64)
    ensures
        fee == if max <= 1 {
            max
        } else {
            bounded_fee(rounded_fee, 1, max)
        },
{
    if max <= 1 {
        max
    } else if rounded_fee < 1 {
        1
    } else if rounded_fee > max {
        max
    } else {
        rounded_fee
    }
}

/// Weighted pick: walks the tiers and returns the fee of the first one that
/// drives the picked point below zero. Falls back to the last tier where
/// rounding lets the point reach the total weight.
pub fn tiered_fee(below_zero: &Vec<bool>, tiers: &Vec<FeeTier>) -> (fee: u64)
    ensures
        fee == weighted_pick(below_zero@, tiers@),
{
    let mut i: usize = 0;
    let ghost mut flags = below_zero@;
    assert(tiers@.skip(0) =~= tiers@);
    assert(below_zero@.skip(0) =~= below_zero@);
    while i < tiers.len()
        invariant
            i <= tiers@.len(),
            flags == if i <= below_zero@.len() {
                below_zero@.skip(i as int)
            } else {
                Seq::empty()
            },
            weighted_pick(below_zero@, tiers@) == weighted_pick(flags, tiers@.skip(i as int)),
        decreases tiers@.len() - i,
    {
        if i == tiers.len() - 1 || (i < below_zero.len() && below_zero[i]) {
            return tiers[i].fee;
        }
        proof {
            if flags.len() > 0 {
                assert(flags.drop_first() =~= below_zero@.skip(i + 1));
                flags = flags.drop_first();
            } else if i == below_zero@.len() {
                assert(flags =~= Seq::empty());
            }
            assert(tiers@.skip(i as int).drop_first() =~= tiers@.skip(i + 1));
        }
        i += 1;
    }
    0
}

/// Where the sawtooth stands: `position` of `[0, period_ms - 1]` mapped to
/// `[0, max]`. With a period of one millisecond the only position is `0`.
pub open spec fn sawtooth_fee(now_ms: int, max: int, period_ms: int) -> int {
    let position = now_ms % period_ms;
    let divisor = if period_ms >= 2 {
        period_ms - 1
    } else {
        1
    };
    (position * max) / divisor
}

/// Linear sawtooth: ramps from `0` to `max` over `period_ms` milliseconds, then
/// resets. Hits both endpoints exactly (`fee(0) = 0`, `fee(period_ms - 1) = max`).
///
/// `period_ms = 1` is degenerate and always returns `0`: a ramp of one
/// millisecond is not meaningful when sampled by the millisecond.
pub fn scheduled_fee_at(now_ms: u64, max: u64, period_ms: u64) -> (fee: u64)
    requires
        period_ms >= 1,
    ensures
        fee == sawtooth_fee(now_ms as int, max as int, period_ms as int),
        fee <= max,
{
    let position: u64 = now_ms % period_ms;
    let divisor: u64 = if period_ms >= 2 {
        period_ms - 1
    } else {
        1
    };
    proof {
        lemma_sawtooth_bounds(now_ms as int, max as int, period_ms as int);
        assert(position * max <= 0xffff_ffff_ffff_ffff * 0xffff_ffff_ffff_ffff) by (nonlinear_arith)
            requires
                0 <= position <= 0xffff_ffff_ffff_ffff,
                0 <= max <= 0xffff_ffff_ffff_ffff,
        ;
        assert(0 <= position * max) by (nonlinear_arith)
            requires
                0 <= position,
                0 <= max,
        ;
    }
    (position as u128 * max as u128 / divisor as u128) as u64
}

/// The sawtooth never leaves `[0, max]`.
pub proof fn lemma_sawtooth_bounds(now_ms: int, max: int, period_ms: int)
    requires
        period_ms >= 1,
        max >= 0,
    ensures
        0 <= sawtooth_fee(now_ms, max, period_ms) <= max,
{
    let position = now_ms % period_ms;
    let divisor = if period_ms >= 2 {
        period_ms - 1
    } else {
        1
    };
    lemma_mod_bound(now_ms, period_ms);
    assert(0 <= position * max <= max * divisor) by (nonlinear_arith)
        requires
            0 <= position <= divisor,
            0 <= max,
    ;
    lemma_div_is_ordered(0, position * max, divisor);
    lemma_div_is_ordered(position * max, max * divisor, divisor);
    lemma_div_multiples_vanish(max, divisor);
    assert(divisor * max == max * divisor) by (nonlinear_arith);
}

/// The ramp starts at `0`, ends at `max` and repeats with its period.
pub proof fn law_sawtooth_endpoints_and_period(now_ms: int, max: int, period_ms: int)
    requires
        period_ms >= 2,
        max >= 0,
    ensures
        sawtooth_fee(0, max, period_ms) == 0,
        sawtooth_fee(period_ms - 1, max, period_ms) == max,
        sawtooth_fee(now_ms + period_ms, max, period_ms) == sawtooth_fee(now_ms, max, period_ms),
{
    lemma_small_mod(0nat, period_ms as nat);
    lemma_small_mod((period_ms - 1) as nat, period_ms as nat);
    assert(0 * max == 0);
    lemma_div_multiples_vanish(max, period_ms - 1);
    assert((period_ms - 1) * max == max * (period_ms - 1)) by (nonlinear_arith);
    lemma_mod_add_multiples_vanish(now_ms, period_ms);
}

/// Within one period the fee never falls.
pub proof fn law_sawtooth_rises(earlier: int, later: int, max: int, period_ms: int)
    requires
        period_ms >= 1,
        max >= 0,
        0 <= earlier <= later < period_ms,
    ensures
        sawtooth_fee(earlier, max, period_ms) <= sawtooth_fee(later, max, period_ms),
{
    lemma_small_mod(earlier as nat, period_ms as nat);
    lemma_small_mod(later as nat, period_ms as nat);
    assert(earlier * max <= later * max) by (nonlinear_arith)
        requires
            earlier <= later,
            0 <= max,
    ;
    let divisor = if period_ms >= 2 {
        period_ms - 1
    } else {
        1
    };
    lemma_div_is_ordered(earlier * max, later * max, divisor);
}

/// The ramp is a straight line: at place `p` of a period the fee is `p` out of
/// `period_ms - 1` parts of `max`, rounded down.
pub proof fn law_sawtooth_is_a_straight_line(now_ms: int, max: int, period_ms: int, p: int)
    requires
        period_ms >= 2,
        max >= 0,
        p == now_ms % period_ms,
    ensures
        ({
            let fee = sawtooth_fee(now_ms, max, period_ms);
            fee * (period_ms - 1) <= p * max < (fee + 1) * (period_ms - 1)
        }),
{
    let d = period_ms - 1;
    let fee = sawtooth_fee(now_ms, max, period_ms);
    lemma_fundamental_div_mod(p * max, d);
    lemma_mod_bound(p * max, d);
    assert(d * fee == fee * d) by (nonlinear_arith);
    assert((fee + 1) * d == fee * d + d) by (nonlinear_arith);
}

/// A period of one millisecond never charges anything.
pub proof fn law_sawtooth_degenerate_period(now_ms: int, max: int)
    ensures
        sawtooth_fee(now_ms, max, 1) == 0,
{
    lemma_mod_bound(now_ms, 1);
    assert(0 * max == 0);
}

/// Accumulates priority fee totals for metrics reporting. Both counters wrap
/// around at 64 bits.
#[derive(Debug)]
pub struct PriorityFeeStats {
    total_fees: u64,
    tx_count: u64,
}

impl PriorityFeeStats {
    /// The sum of the recorded fees, modulo 2^64.
    pub closed spec fn total_fees(self) -> int {
        self.total_fees as int
    }

    /// The number of recorded fees, modulo 2^64.
    pub closed spec fn tx_count(self) -> int {
        self.tx_count as int
    }

    pub fn record(&mut self, fee: u64)
        ensures
            recorded(*old(self), fee, *final(self)),
    {
        self.total_fees = self.total_fees.wrapping_add(fee);
        self.tx_count = self.tx_count.wrapping_add(1);
    }

    /// Takes over what `other` has recorded, so that tasks can count on their own
    /// and report to a common place.
    pub fn absorb(&mut self, other: &mut PriorityFeeStats)
        ensures
            taken_over(
                *old(self),
                old(other).total_fees(),
                old(other).tx_count(),
                *final(self),
            ),
            final(other).total_fees() == 0,
            final(other).tx_count() == 0,
    {
        let (total, count) = other.read_and_reset();
        self.total_fees = self.total_fees.wrapping_add(total);
        self.tx_count = self.tx_count.wrapping_add(count);
    }

    /// Hands out both counters and sets them to zero.
    pub fn read_and_reset(&mut self) -> (r: (u64, u64))
        ensures
            handed_out(*old(self), r.0, r.1, *final(self)),
    {
        let total: u64 = self.total_fees;
        let count: u64 = self.tx_count;
        self.total_fees = 0;
        self.tx_count = 0;
        (total, count)
    }
}

/// `after` is `before` with `count` more fees, which add up to `total`.
pub open spec fn taken_over(
    before: PriorityFeeStats,
    total: int,
    count: int,
    after: PriorityFeeStats,
) -> bool {
    &&& after.total_fees() == (before.total_fees() + total) % 0x1_0000_0000_0000_0000
    &&& after.tx_count() == (before.tx_count() + count) % 0x1_0000_0000_0000_0000
}

/// `after` is `before` with one more fee recorded.
pub open spec fn recorded(before: PriorityFeeStats, fee: u64, after: PriorityFeeStats) -> bool {
    taken_over(before, fee as int, 1, after)
}

/// Both counters of `before` are handed out, and `after` starts from zero.
pub open spec fn handed_out(
    before: PriorityFeeStats,
    total: u64,
    count: u64,
    after: PriorityFeeStats,
) -> bool {
    &&& total == before.total_fees()
    &&& count == before.tx_count()
    &&& after.total_fees() == 0
    &&& after.tx_count() == 0
}

/// The sum of fees.
pub open spec fn fee_sum(fees: Seq<u64>) -> int
    decreases fees.len(),
{
    if fees.len() == 0 {
        0
    } else {
        fee_sum(fees.drop_last()) + fees.last()
    }
}

/// What is read after a run of records that started from zero is their sum and
/// their number, modulo 2^64.
pub proof fn law_stats_add_up(states: Seq<PriorityFeeStats>, fees: Seq<u64>)
    requires
        states.len() == fees.len() + 1,
        states[0].total_fees() == 0,
        states[0].tx_count() == 0,
        forall|i: int|
            0 <= i < fees.len() ==> recorded(#[trigger] states[i], fees[i], states[i + 1]),
    ensures
        states.last().total_fees() == fee_sum(fees) % 0x1_0000_0000_0000_0000,
        states.last().tx_count() == fees.len() as int % 0x1_0000_0000_0000_0000,
    decreases fees.len(),
{
    if fees.len() > 0 {
        let n = fees.len() as int;
        assert forall|i: int| 0 <= i < n - 1 implies recorded(
            #[trigger] states.drop_last()[i],
            fees.drop_last()[i],
            states.drop_last()[i + 1],
        ) by {
            assert(recorded(states[i], fees[i], states[i + 1]));
        }
        law_stats_add_up(states.drop_last(), fees.drop_last());
        assert(recorded(states[n - 1], fees[n - 1], states[n - 1 + 1]));
        lemma_add_mod_noop_right(
            fees.last() as int,
            fee_sum(fees.drop_last()),
            0x1_0000_0000_0000_0000,
        );
        lemma_add_mod_noop_right(1, n - 1, 0x1_0000_0000_0000_0000);
    }
}

/// A use of the statistics.
pub enum StatsUse {
    /// A fee was recorded.
    Record { fee: u64 },
    /// The counters of a task were taken over.
    Absorb { total: u64, count: u64 },
    /// The counters were read and reset.
    Read { total: u64, count: u64 },
}

/// What a use does to the statistics.
pub open spec fn used(before: PriorityFeeStats, step: StatsUse, after: PriorityFeeStats) -> bool {
    match step {
        StatsUse::Record { fee } => recorded(before, fee, after),
        StatsUse::Absorb { total, count } => taken_over(before, total as int, count as int, after),
        StatsUse::Read { total, count } => handed_out(before, total, count, after),
    }
}

/// The fees that were recorded or taken over in the course of `uses`, and how many they are.
pub open spec fn fees_recorded(uses: Seq<StatsUse>) -> (nat, nat)
    decreases uses.len(),
{
    if uses.len() == 0 {
        (0, 0)
    } else {
        let (total, count) = fees_recorded(uses.drop_last());
        match uses.last() {
            StatsUse::Record { fee } => (total + fee as nat, count + 1),
            StatsUse::Absorb { total: fees, count: number } => (
                total + fees as nat,
                count + number as nat,
            ),
            StatsUse::Read { .. } => (total, count),
        }
    }
}

/// The fees that were read in the course of `uses`, and how many they are.
pub open spec fn fees_reported(uses: Seq<StatsUse>) -> (nat, nat)
    decreases uses.len(),
{
    if uses.len() == 0 {
        (0, 0)
    } else {
        let (total, count) = fees_reported(uses.drop_last());
        match uses.last() {
            StatsUse::Record { .. } | StatsUse::Absorb { .. } => (total, count),
            StatsUse::Read { total: read, count: number } => (
                total + read as nat,
                count + number as nat,
            ),
        }
    }
}

/// What was reported and what is left add up to what was recorded; past the range
/// of the counters, modulo 2^64.
pub open spec fn balanced(recorded: nat, reported: nat, left: int) -> bool {
    &&& (reported + left) % 0x1_0000_0000_0000_0000 == recorded as int % 0x1_0000_0000_0000_0000
    &&& recorded < 0x1_0000_0000_0000_0000 ==> reported + left == recorded
}

/// However records and reads follow each other, every fee is reported exactly
/// once: what the reads gave, together with what is still to be read, is what was
/// recorded or taken over. Past the range of the counters this holds modulo 2^64.
pub proof fn law_every_fee_is_reported_once(states: Seq<PriorityFeeStats>, uses: Seq<StatsUse>)
    requires
        states.len() == uses.len() + 1,
        states[0].total_fees() == 0,
        states[0].tx_count() == 0,
        forall|i: int| 0 <= i < uses.len() ==> used(#[trigger] states[i], uses[i], states[i + 1]),
    ensures
        balanced(fees_recorded(uses).0, fees_reported(uses).0, states.last().total_fees()),
        balanced(fees_recorded(uses).1, fees_reported(uses).1, states.last().tx_count()),
    decreases uses.len(),
{
    if uses.len() > 0 {
        let n = uses.len() as int;
        let (total, count) = fees_recorded(uses.drop_last());
        let (reported, number) = fees_reported(uses.drop_last());
        let before = states[n - 1];
        assert forall|i: int| 0 <= i < n - 1 implies used(
            #[trigger] states.drop_last()[i],
            uses.drop_last()[i],
            states.drop_last()[i + 1],
        ) by {
            assert(used(states[i], uses[i], states[i + 1]));
        }
        law_every_fee_is_reported_once(states.drop_last(), uses.drop_last());
        assert(used(before, uses[n - 1], states[n - 1 + 1]));
        lemma_counters_fit(before);
        match uses.last() {
            StatsUse::Record { fee } => {
                lemma_addition_keeps_balance(total, reported, before.total_fees(), fee as nat);
                lemma_addition_keeps_balance(count, number, before.tx_count(), 1);
            },
            StatsUse::Absorb { total: fees, count: more } => {
                lemma_addition_keeps_balance(total, reported, before.total_fees(), fees as nat);
                lemma_addition_keeps_balance(count, number, before.tx_count(), more as nat);
            },
            StatsUse::Read { .. } => {},
        }
    }
}

proof fn lemma_addition_keeps_balance(recorded: nat, reported: nat, left: int, fee: nat)
    requires
        balanced(recorded, reported, left),
        0 <= left,
    ensures
        balanced(recorded + fee, reported, (left + fee) % 0x1_0000_0000_0000_0000),
{
    lemma_add_mod_noop_right(reported as int, left + fee, 0x1_0000_0000_0000_0000);
    lemma_add_mod_noop_right(fee as int, reported + left, 0x1_0000_0000_0000_0000);
    lemma_add_mod_noop_right(fee as int, recorded as int, 0x1_0000_0000_0000_0000);
    if recorded + fee < 0x1_0000_0000_0000_0000 {
        lemma_small_mod((left + fee) as nat, 0x1_0000_0000_0000_0000);
    }
}

/// Both counters hold 64 bits.
pub proof fn lemma_counters_fit(stats: PriorityFeeStats)
    ensures
        0 <= stats.total_fees() < 0x1_0000_0000_0000_0000,
        0 <= stats.tx_count() < 0x1_0000_0000_0000_0000,
{
}

impl Default for PriorityFeeStats {
    fn default() -> (stats: Self)
        ensures
            stats.total_fees() == 0,
            stats.tx_count() == 0,
    {
        PriorityFeeStats { total_fees: 0, tx_count: 0 }
    }
}

/// What a mode says is what it is: the views hide nothing.
pub proof fn law_mode_views(
    max: u64,
    period_ms: u64,
    number: Binary64,
    plan: PremiumPlan,
    tiers: Vec<FeeTier>,
)
    ensures
        PriorityFeeMode::BaseOnly@ is BaseOnly,
        PriorityFeeMode::Premium(plan)@ == ModeView::Premium(plan),
        (PriorityFeeMode::Scheduled { max, period_ms })@ == (ModeView::Scheduled { max, period_ms }),
        PriorityFeeMode::Random(FeeDistribution::Uniform { max })@ == ModeView::Random(
            DistributionView::Uniform { max },
        ),
        PriorityFeeMode::Random(FeeDistribution::PowerLaw { max, beta: number })@
            == ModeView::Random(DistributionView::PowerLaw { max, beta: number }),
        PriorityFeeMode::Random(FeeDistribution::Pareto { max, alpha: number })@
            == ModeView::Random(DistributionView::Pareto { max, alpha: number }),
        PriorityFeeMode::Random(FeeDistribution::Tiered { tiers })@ == ModeView::Random(
            DistributionView::Tiered { tiers: tiers@ },
        ),
{
}

/// Which bit patterns are positive finite numbers, and which lie above zero up to
/// one: those above the pattern of zero and below that of infinity, or up to that of
/// one.
pub proof fn law_binary64_ranges(number: Binary64)
    ensures
        number.positive_finite() <==> 1 <= number.bits <= 0x7fef_ffff_ffff_ffff,
        number.in_unit_interval() <==> 1 <= number.bits <= 0x3ff0_0000_0000_0000,
        number.in_unit_interval() ==> number.positive_finite(),
{
}

} // verus!
