//! The five-guard risk engine.
//!
//! Every evaluation runs the guards in a fixed order (cooldown, drawdown,
//! volatility, RSI, spread).  The numeric indicators are measured by the
//! caller; this module receives each measurement already placed in its zone
//! (for example "drawdown at or above the hard limit") and decides which
//! guards fire, the overall level, the position allowance and the per-pair
//! cooldowns.
use vstd::prelude::*;

use crate::indicators::VolatilityRegime;

verus! {

/// How restrictive a risk assessment is, from least to most severe.
#[derive(Clone, Copy, Debug, PartialEq, Eq, Structural, PartialOrd, Ord)]
pub enum RiskLevel {
    Clear,
    Caution,
    Cooldown,
    Halt,
}

impl RiskLevel {
    /// Severity rank: Clear < Caution < Cooldown < Halt.
    pub open spec fn spec_rank(self) -> nat {
        match self {
            RiskLevel::Clear => 0,
            RiskLevel::Caution => 1,
            RiskLevel::Cooldown => 2,
            RiskLevel::Halt => 3,
        }
    }

    pub fn rank(&self) -> (r: u8)
        ensures
            r == self.spec_rank(),
    {
        match self {
            RiskLevel::Clear => 0,
            RiskLevel::Caution => 1,
            RiskLevel::Cooldown => 2,
            RiskLevel::Halt => 3,
        }
    }

    pub open spec fn spec_label(self) -> Seq<char> {
        match self {
            RiskLevel::Clear => "CLEAR"@,
            RiskLevel::Caution => "CAUTION"@,
            RiskLevel::Cooldown => "COOLDOWN"@,
            RiskLevel::Halt => "HALT"@,
        }
    }

    /// The upper-case name shown in logs and reports.
    pub fn label(&self) -> (s: &'static str)
        ensures
            s@ == self.spec_label(),
    {
        match self {
            RiskLevel::Clear => "CLEAR",
            RiskLevel::Caution => "CAUTION",
            RiskLevel::Cooldown => "COOLDOWN",
            RiskLevel::Halt => "HALT",
        }
    }

    /// A level that still lets the agent open positions.
    pub open spec fn spec_permits_trading(self) -> bool {
        self is Clear || self is Caution
    }
}

pub open spec fn spec_level_badge(level: RiskLevel) -> Seq<char> {
    match level {
        RiskLevel::Clear => "● CLEAR"@,
        RiskLevel::Caution => "▲ CAUTION"@,
        RiskLevel::Halt => "✖ HALT"@,
        RiskLevel::Cooldown => "⏸ COOLDOWN"@,
    }
}

/// The badge that the dashboard shows next to a pair.
pub fn level_badge(level: &RiskLevel) -> (s: &'static str)
    ensures
        s@ == spec_level_badge(*level),
{
    match level {
        RiskLevel::Clear => "● CLEAR",
        RiskLevel::Caution => "▲ CAUTION",
        RiskLevel::Halt => "✖ HALT",
        RiskLevel::Cooldown => "⏸ COOLDOWN",
    }
}

/// The more severe of two levels.
pub open spec fn max_level(a: RiskLevel, b: RiskLevel) -> RiskLevel {
    if a.spec_rank() >= b.spec_rank() {
        a
    } else {
        b
    }
}

/// The five guards of the engine.
#[derive(Clone, Copy, Debug, PartialEq, Eq, Structural)]
pub enum Guard {
    Cooldown,
    Drawdown,
    Volatility,
    Rsi,
    Spread,
}

impl Guard {
    pub open spec fn spec_name(self) -> Seq<char> {
        match self {
            Guard::Cooldown => "cooldown"@,
            Guard::Drawdown => "drawdown"@,
            Guard::Volatility => "volatility"@,
            Guard::Rsi => "rsi"@,
            Guard::Spread => "spread"@,
        }
    }

    pub fn name(&self) -> (s: &'static str)
        ensures
            s@ == self.spec_name(),
    {
        match self {
            Guard::Cooldown => "cooldown",
            Guard::Drawdown => "drawdown",
            Guard::Volatility => "volatility",
            Guard::Rsi => "rsi",
            Guard::Spread => "spread",
        }
    }
}

/// What one guard concluded: whether it let the pair through, and at which level.
#[derive(Clone, Copy, Debug, PartialEq, Eq, Structural)]
pub struct GuardOutcome {
    pub guard: Guard,
    pub passed: bool,
    pub level: RiskLevel,
}

/// Portfolio drawdown against the two limits of the risk parameters.
#[derive(Clone, Copy, Debug, PartialEq, Eq, Structural)]
pub enum DrawdownZone {
    /// Below the warning limit.
    Within,
    /// At or above the warning limit, below the hard limit.
    Warning,
    /// At or above the hard limit.
    Breach,
}

/// The ATR multiple against the two volatility limits.
#[derive(Clone, Copy, Debug, PartialEq, Eq, Structural)]
pub enum MultipleBand {
    /// Below the caution multiple.
    Below,
    /// At or above the caution multiple, below the maximum.
    Caution,
    /// At or above the maximum multiple.
    Max,
}

/// The volatility measurement of a pair.
#[derive(Clone, Copy, Debug, PartialEq, Eq, Structural)]
pub enum VolatilityReading {
    /// Not enough candles to compute an ATR.
    Unavailable,
    Measured { regime: VolatilityRegime, band: MultipleBand },
}

/// RSI against the overbought and oversold limits.
#[derive(Clone, Copy, Debug, PartialEq, Eq, Structural)]
pub enum RsiZone {
    /// Strictly above the overbought limit.
    Overbought,
    /// Not overbought, and strictly below the oversold limit.
    Oversold,
    Neutral,
}

/// Bid-ask spread against the liquidity limit.
#[derive(Clone, Copy, Debug, PartialEq, Eq, Structural)]
pub enum SpreadZone {
    /// Strictly wider than the limit.
    Wide,
    Liquid,
}

/// Everything the guards read about one pair in one cycle.
#[derive(Clone, Debug)]
pub struct GuardReadings {
    pub drawdown: DrawdownZone,
    pub volatility: VolatilityReading,
    /// `None` when there are too few candles for an RSI.
    pub rsi: Option<RsiZone>,
    pub spread: SpreadZone,
    /// The reason recorded for the cooldown that a drawdown breach starts.
    pub halt_note: String,
}

pub open spec fn spec_cooldown_guard() -> GuardOutcome {
    GuardOutcome { guard: Guard::Cooldown, passed: false, level: RiskLevel::Cooldown }
}

pub open spec fn spec_drawdown_guard(zone: DrawdownZone) -> GuardOutcome {
    match zone {
        DrawdownZone::Breach => GuardOutcome {
            guard: Guard::Drawdown,
            passed: false,
            level: RiskLevel::Halt,
        },
        DrawdownZone::Warning => GuardOutcome {
            guard: Guard::Drawdown,
            passed: true,
            level: RiskLevel::Caution,
        },
        DrawdownZone::Within => GuardOutcome {
            guard: Guard::Drawdown,
            passed: true,
            level: RiskLevel::Clear,
        },
    }
}

pub open spec fn spec_volatility_guard(reading: VolatilityReading) -> GuardOutcome {
    match reading {
        VolatilityReading::Unavailable => GuardOutcome {
            guard: Guard::Volatility,
            passed: true,
            level: RiskLevel::Caution,
        },
        VolatilityReading::Measured { regime, band } => {
            if band is Max || regime is Extreme {
                GuardOutcome { guard: Guard::Volatility, passed: false, level: RiskLevel::Halt }
            } else if band is Caution || regime is Elevated {
                GuardOutcome { guard: Guard::Volatility, passed: true, level: RiskLevel::Caution }
            } else {
                GuardOutcome { guard: Guard::Volatility, passed: true, level: RiskLevel::Clear }
            }
        },
    }
}

pub open spec fn spec_rsi_guard(zone: RsiZone) -> GuardOutcome {
    match zone {
        RsiZone::Neutral => GuardOutcome { guard: Guard::Rsi, passed: true, level: RiskLevel::Clear },
        _ => GuardOutcome { guard: Guard::Rsi, passed: true, level: RiskLevel::Caution },
    }
}

pub open spec fn spec_spread_guard(zone: SpreadZone) -> GuardOutcome {
    match zone {
        SpreadZone::Wide => GuardOutcome {
            guard: Guard::Spread,
            passed: true,
            level: RiskLevel::Caution,
        },
        SpreadZone::Liquid => GuardOutcome {
            guard: Guard::Spread,
            passed: true,
            level: RiskLevel::Clear,
        },
    }
}

/// The guards that fire for a pair that is not cooling down: a drawdown
/// breach stops the cascade at once; otherwise drawdown, volatility, RSI
/// (when measurable) and spread, in this order.
pub open spec fn spec_cascade(r: GuardReadings) -> Seq<GuardOutcome> {
    if r.drawdown is Breach {
        seq![spec_drawdown_guard(r.drawdown)]
    } else {
        let head = seq![spec_drawdown_guard(r.drawdown), spec_volatility_guard(r.volatility)];
        let with_rsi = match r.rsi {
            Some(z) => head.push(spec_rsi_guard(z)),
            None => head,
        };
        with_rsi.push(spec_spread_guard(r.spread))
    }
}

pub fn drawdown_guard(zone: DrawdownZone) -> (g: GuardOutcome)
    ensures
        g == spec_drawdown_guard(zone),
{
    match zone {
        DrawdownZone::Breach => GuardOutcome {
            guard: Guard::Drawdown,
            passed: false,
            level: RiskLevel::Halt,
        },
        DrawdownZone::Warning => GuardOutcome {
            guard: Guard::Drawdown,
            passed: true,
            level: RiskLevel::Caution,
        },
        DrawdownZone::Within => GuardOutcome {
            guard: Guard::Drawdown,
            passed: true,
            level: RiskLevel::Clear,
        },
    }
}

pub fn volatility_guard(reading: VolatilityReading) -> (g: GuardOutcome)
    ensures
        g == spec_volatility_guard(reading),
{
    match reading {
        VolatilityReading::Unavailable => GuardOutcome {
            guard: Guard::Volatility,
            passed: true,
            level: RiskLevel::Caution,
        },
        VolatilityReading::Measured { regime, band } => {
            let max_band = match band {
                MultipleBand::Max => true,
                _ => false,
            };
            let caution_band = match band {
                MultipleBand::Caution => true,
                _ => false,
            };
            let extreme = match regime {
                VolatilityRegime::Extreme => true,
                _ => false,
            };
            let elevated = match regime {
                VolatilityRegime::Elevated => true,
                _ => false,
            };
            if max_band || extreme {
                GuardOutcome { guard: Guard::Volatility, passed: false, level: RiskLevel::Halt }
            } else if caution_band || elevated {
                GuardOutcome { guard: Guard::Volatility, passed: true, level: RiskLevel::Caution }
            } else {
                GuardOutcome { guard: Guard::Volatility, passed: true, level: RiskLevel::Clear }
            }
        },
    }
}

pub fn rsi_guard(zone: RsiZone) -> (g: GuardOutcome)
    ensures
        g == spec_rsi_guard(zone),
{
    match zone {
        RsiZone::Neutral => GuardOutcome { guard: Guard::Rsi, passed: true, level: RiskLevel::Clear },
        _ => GuardOutcome { guard: Guard::Rsi, passed: true, level: RiskLevel::Caution },
    }
}

pub fn spread_guard(zone: SpreadZone) -> (g: GuardOutcome)
    ensures
        g == spec_spread_guard(zone),
{
    match zone {
        SpreadZone::Wide => GuardOutcome {
            guard: Guard::Spread,
            passed: true,
            level: RiskLevel::Caution,
        },
        SpreadZone::Liquid => GuardOutcome {
            guard: Guard::Spread,
            passed: true,
            level: RiskLevel::Clear,
        },
    }
}

/// The most severe level among the guards (`Clear` when there are none).
pub open spec fn worst_level(gs: Seq<GuardOutcome>) -> RiskLevel
    decreases gs.len(),
{
    if gs.len() == 0 {
        RiskLevel::Clear
    } else {
        max_level(worst_level(gs.drop_last()), gs.last().level)
    }
}

/// How many guards sit at the given level.
pub open spec fn count_at_level(gs: Seq<GuardOutcome>, level: RiskLevel) -> nat
    decreases gs.len(),
{
    if gs.len() == 0 {
        0
    } else {
        count_at_level(gs.drop_last(), level) + if gs.last().level == level {
            1nat
        } else {
            0nat
        }
    }
}

/// How many guards passed with a caution flag.
pub open spec fn count_cautioned(gs: Seq<GuardOutcome>) -> nat
    decreases gs.len(),
{
    if gs.len() == 0 {
        0
    } else {
        count_cautioned(gs.drop_last()) + if gs.last().passed && gs.last().level
            == RiskLevel::Caution {
            1nat
        } else {
            0nat
        }
    }
}

/// The share of the maximum position that a verdict allows.
#[derive(Clone, Copy, Debug, PartialEq, Eq, Structural)]
pub enum Allowance {
    /// No new entries.
    Nothing,
    /// The full maximum position.
    Full,
    /// The maximum position reduced by a factor of 0.67 per caution flag.
    Reduced { caution_flags: usize },
}

/// Position sizing: halts and cooldowns allow nothing, caution reduces the
/// position once per guard at caution level, clear allows the maximum.
pub open spec fn allowance_for(gs: Seq<GuardOutcome>) -> Allowance {
    match worst_level(gs) {
        RiskLevel::Halt | RiskLevel::Cooldown => Allowance::Nothing,
        RiskLevel::Caution => Allowance::Reduced {
            caution_flags: count_at_level(gs, RiskLevel::Caution) as usize,
        },
        RiskLevel::Clear => Allowance::Full,
    }
}

/// Index of the first guard that did not pass, if any.
pub open spec fn first_failed(gs: Seq<GuardOutcome>) -> Option<nat> {
    if exists|i: int| 0 <= i < gs.len() && !gs[i].passed {
        Some(
            (choose|i: int|
                0 <= i < gs.len() && !gs[i].passed && forall|j: int|
                    0 <= j < i ==> gs[j].passed) as nat,
        )
    } else {
        None
    }
}

proof fn lemma_count_bounded(gs: Seq<GuardOutcome>, level: RiskLevel)
    ensures
        count_at_level(gs, level) <= gs.len(),
        count_cautioned(gs) <= gs.len(),
    decreases gs.len(),
{
    if gs.len() > 0 {
        lemma_count_bounded(gs.drop_last(), level);
    }
}

/// Worst level and allowance of a list of guard outcomes.
pub fn aggregate(guards: &Vec<GuardOutcome>) -> (res: (RiskLevel, Allowance))
    ensures
        res.0 == worst_level(guards@),
        res.1 == allowance_for(guards@),
{
    let mut worst = RiskLevel::Clear;
    let mut cautions: usize = 0;
    let mut i: usize = 0;
    while i < guards.len()
        invariant
            i <= guards.len(),
            worst == worst_level(guards@.subrange(0, i as int)),
            cautions == count_at_level(guards@.subrange(0, i as int), RiskLevel::Caution),
        decreases guards.len() - i,
    {
        let g = guards[i];
        proof {
            assert(guards@.subrange(0, i + 1).drop_last() =~= guards@.subrange(0, i as int));
            lemma_count_bounded(guards@.subrange(0, i as int), RiskLevel::Caution);
        }
        if g.level.rank() > worst.rank() {
            worst = g.level;
        }
        if g.level == RiskLevel::Caution {
            cautions = cautions + 1;
        }
        i = i + 1;
    }
    proof {
        assert(guards@.subrange(0, guards@.len() as int) =~= guards@);
    }
    let allowance = match worst {
        RiskLevel::Halt | RiskLevel::Cooldown => Allowance::Nothing,
        RiskLevel::Caution => Allowance::Reduced { caution_flags: cautions },
        RiskLevel::Clear => Allowance::Full,
    };
    (worst, allowance)
}

/// The outcome of evaluating one pair.
#[derive(Clone, Debug)]
pub struct RiskVerdict {
    pub pair: String,
    pub level: RiskLevel,
    pub guards: Vec<GuardOutcome>,
    pub allowance: Allowance,
    /// Whole seconds of cooldown left, for a verdict at `Cooldown` level (0 otherwise).
    pub cooldown_remaining_secs: u64,
    /// What started the cooldown, for a verdict at `Cooldown` level (empty otherwise).
    pub cooldown_reason: String,
}

impl RiskVerdict {
    /// Only `Clear` and `Caution` verdicts let the agent trade.
    pub fn can_trade(&self) -> (b: bool)
        ensures
            b == self.level.spec_permits_trading(),
    {
        match self.level {
            RiskLevel::Clear | RiskLevel::Caution => true,
            _ => false,
        }
    }

    /// Index of the first guard that failed; its reason heads a halt or cooldown summary.
    pub fn first_failed_guard(&self) -> (r: Option<usize>)
        ensures
            r matches Some(i) ==> first_failed(self.guards@) == Some(i as nat),
            r is None ==> first_failed(self.guards@) is None,
    {
        let mut i: usize = 0;
        while i < self.guards.len()
            invariant
                i <= self.guards.len(),
                forall|j: int| 0 <= j < i ==> self.guards@[j].passed,
            decreases self.guards.len() - i,
        {
            if !self.guards[i].passed {
                proof {
                    let gs = self.guards@;
                    let k = choose|k: int|
                        0 <= k < gs.len() && !gs[k].passed && forall|j: int|
                            0 <= j < k ==> gs[j].passed;
                    assert(0 <= i < gs.len() && !gs[i as int].passed && forall|j: int|
                        0 <= j < i ==> gs[j].passed);
                    if k < i {
                    } else if k > i {
                        assert(gs[i as int].passed);
                    }
                }
                return Some(i);
            }
            i = i + 1;
        }
        None
    }

    /// Number of guards that passed with a caution flag.
    pub fn caution_flags(&self) -> (n: usize)
        ensures
            n == count_cautioned(self.guards@),
    {
        let mut n: usize = 0;
        let mut i: usize = 0;
        while i < self.guards.len()
            invariant
                i <= self.guards.len(),
                n == count_cautioned(self.guards@.subrange(0, i as int)),
            decreases self.guards.len() - i,
        {
            proof {
                assert(self.guards@.subrange(0, i + 1).drop_last() =~= self.guards@.subrange(
                    0,
                    i as int,
                ));
                lemma_count_bounded(self.guards@.subrange(0, i as int), RiskLevel::Caution);
            }
            let g = self.guards[i];
            if g.passed && g.level == RiskLevel::Caution {
                n = n + 1;
            }
            i = i + 1;
        }
        proof {
            assert(self.guards@.subrange(0, self.guards@.len() as int) =~= self.guards@);
        }
        n
    }
}


/// Cooldown bookkeeping of one pair.
pub struct PairState {
    pub pair: String,
    /// End of the cooldown, in milliseconds of the engine clock.
    pub cooldown_until_ms: Option<u64>,
    pub cooldown_reason: String,
}

/// The cooldown view of one pair: its end (if one was ever started) and its reason.
pub type CooldownView = (Option<u64>, Seq<char>);

/// A cooldown is active at `now_ms` strictly before its end.
pub open spec fn active_at(c: CooldownView, now_ms: u64) -> bool {
    match c.0 {
        Some(until) => now_ms < until,
        None => false,
    }
}

/// Whole seconds left of a cooldown (rounded down), 0 once it has ended.
pub open spec fn remaining_secs_at(c: CooldownView, now_ms: u64) -> u64 {
    match c.0 {
        Some(until) => if until > now_ms {
            ((until - now_ms) / 1000) as u64
        } else {
            0
        },
        None => 0,
    }
}

/// `i` is the first slot of `pairs` that belongs to `key`.
pub open spec fn is_slot(pairs: Seq<PairState>, key: Seq<char>, i: int) -> bool {
    &&& 0 <= i < pairs.len()
    &&& pairs[i].pair@ == key
    &&& forall|j: int| 0 <= j < i ==> pairs[j].pair@ != key
}

/// The cooldown recorded for `key` in `pairs` (none, with an empty reason, if the
/// pair was never seen).
pub open spec fn cooldown_in(pairs: Seq<PairState>, key: Seq<char>) -> CooldownView {
    if exists|i: int| is_slot(pairs, key, i) {
        let i = choose|i: int| is_slot(pairs, key, i);
        (pairs[i].cooldown_until_ms, pairs[i].cooldown_reason@)
    } else {
        (None, Seq::empty())
    }
}

proof fn lemma_slot_unique(pairs: Seq<PairState>, key: Seq<char>, i: int, k: int)
    requires
        is_slot(pairs, key, i),
        is_slot(pairs, key, k),
    ensures
        i == k,
{
    if i < k {
        assert(pairs[i].pair@ != key);
    } else if k < i {
        assert(pairs[k].pair@ != key);
    }
}

proof fn lemma_cooldown_at_slot(pairs: Seq<PairState>, key: Seq<char>, i: int)
    requires
        is_slot(pairs, key, i),
    ensures
        cooldown_in(pairs, key) == (pairs[i].cooldown_until_ms, pairs[i].cooldown_reason@),
{
    let k = choose|k: int| is_slot(pairs, key, k);
    lemma_slot_unique(pairs, key, i, k);
}

/// Replacing the state in the slot of `key` by one with the same pair name
/// changes the view of `key` only.
proof fn lemma_update_slot(pairs: Seq<PairState>, key: Seq<char>, i: int, st: PairState)
    requires
        is_slot(pairs, key, i),
        st.pair@ == key,
    ensures
        cooldown_in(pairs.update(i, st), key) == (st.cooldown_until_ms, st.cooldown_reason@),
        forall|k2: Seq<char>| k2 != key ==> cooldown_in(pairs.update(i, st), k2) == cooldown_in(pairs, k2),
{
    let new = pairs.update(i, st);
    assert(is_slot(new, key, i));
    lemma_cooldown_at_slot(new, key, i);
    assert forall|k2: Seq<char>| k2 != key implies cooldown_in(new, k2) == cooldown_in(pairs, k2) by {
        if exists|m: int| is_slot(pairs, k2, m) {
            let m = choose|m: int| is_slot(pairs, k2, m);
            assert(m != i);
            assert(is_slot(new, k2, m));
            lemma_cooldown_at_slot(pairs, k2, m);
            lemma_cooldown_at_slot(new, k2, m);
        } else {
            assert forall|m: int| !is_slot(new, k2, m) by {
                if is_slot(new, k2, m) {
                    assert(m != i);
                    assert forall|j: int| 0 <= j < m implies pairs[j].pair@ != k2 by {
                        if j != i {
                            assert(new[j] == pairs[j]);
                        }
                    }
                    assert(is_slot(pairs, k2, m));
                }
            }
        }
    }
}

/// Appending the state of a pair that no slot holds.
proof fn lemma_push_slot(pairs: Seq<PairState>, key: Seq<char>, st: PairState)
    requires
        forall|j: int| 0 <= j < pairs.len() ==> pairs[j].pair@ != key,
        st.pair@ == key,
    ensures
        cooldown_in(pairs.push(st), key) == (st.cooldown_until_ms, st.cooldown_reason@),
        forall|k2: Seq<char>| k2 != key ==> cooldown_in(pairs.push(st), k2) == cooldown_in(pairs, k2),
{
    let new = pairs.push(st);
    let n = pairs.len() as int;
    assert(is_slot(new, key, n));
    lemma_cooldown_at_slot(new, key, n);
    assert forall|k2: Seq<char>| k2 != key implies cooldown_in(new, k2) == cooldown_in(pairs, k2) by {
        if exists|m: int| is_slot(pairs, k2, m) {
            let m = choose|m: int| is_slot(pairs, k2, m);
            assert(is_slot(new, k2, m));
            lemma_cooldown_at_slot(pairs, k2, m);
            lemma_cooldown_at_slot(new, k2, m);
        } else {
            assert forall|m: int| !is_slot(new, k2, m) by {
                if is_slot(new, k2, m) {
                    assert(m != n);
                    assert forall|j: int| 0 <= j < m implies pairs[j].pair@ != k2 by {
                        assert(new[j] == pairs[j]);
                    }
                    assert(is_slot(pairs, k2, m));
                }
            }
        }
    }
}

/// Per-pair cooldowns and the guard cascade.
pub struct RiskEngine {
    cooldown_secs: u64,
    pairs: Vec<PairState>,
}

impl RiskEngine {
    /// How long a cooldown lasts, in seconds.
    pub closed spec fn cooldown_period(self) -> u64 {
        self.cooldown_secs
    }

    pub fn cooldown_secs(&self) -> (s: u64)
        ensures
            s == self.cooldown_period(),
    {
        self.cooldown_secs
    }

    /// The cooldown recorded for a pair.
    pub closed spec fn cooldown_of(self, pair: Seq<char>) -> CooldownView {
        cooldown_in(self.pairs@, pair)
    }

    pub open spec fn in_cooldown_at(self, pair: Seq<char>, now_ms: u64) -> bool {
        active_at(self.cooldown_of(pair), now_ms)
    }

    /// The end of a cooldown started at `now_ms`; one that would outlast the
    /// clock ends at its last instant.
    pub open spec fn cooldown_end(self, now_ms: u64) -> int {
        let end = now_ms + self.cooldown_period() * 1000;
        if end > u64::MAX {
            u64::MAX as int
        } else {
            end
        }
    }

    fn end_of_cooldown(&self, now_ms: u64) -> (u: u64)
        ensures
            u == self.cooldown_end(now_ms),
    {
        let span = if self.cooldown_secs <= u64::MAX / 1000 {
            self.cooldown_secs * 1000
        } else {
            u64::MAX
        };
        now_ms.saturating_add(span)
    }

    /// The guards that an evaluation of `pair` at `now_ms` reports: the
    /// cooldown guard alone while the pair cools down, the cascade otherwise.
    pub open spec fn guards_at(self, pair: Seq<char>, now_ms: u64, r: GuardReadings) -> Seq<
        GuardOutcome,
    > {
        if self.in_cooldown_at(pair, now_ms) {
            seq![spec_cooldown_guard()]
        } else {
            spec_cascade(r)
        }
    }

    /// `next` is `self` after a cooldown of `pair` started at `now_ms` for `reason`.
    pub open spec fn cooled_down(self, next: Self, pair: Seq<char>, now_ms: u64, reason: Seq<char>) -> bool {
        &&& next.cooldown_period() == self.cooldown_period()
        &&& forall|k: Seq<char>|
            #![trigger next.cooldown_of(k)]
            next.cooldown_of(k) == if k == pair {
                (Some(self.cooldown_end(now_ms) as u64), reason)
            } else {
                self.cooldown_of(k)
            }
    }

    /// `next` is `self` after an evaluation of `pair` at `now_ms`: only a
    /// drawdown breach outside a cooldown changes anything, by starting one.
    pub open spec fn evaluated(self, next: Self, pair: Seq<char>, now_ms: u64, r: GuardReadings) -> bool {
        if !self.in_cooldown_at(pair, now_ms) && r.drawdown is Breach {
            self.cooled_down(next, pair, now_ms, r.halt_note@)
        } else {
            &&& next.cooldown_period() == self.cooldown_period()
            &&& forall|k: Seq<char>| #![trigger next.cooldown_of(k)] next.cooldown_of(k) == self.cooldown_of(k)
        }
    }

    /// An engine in which no pair has ever cooled down.
    pub fn new(cooldown_secs: u64) -> (e: Self)
        ensures
            e.cooldown_period() == cooldown_secs,
            forall|k: Seq<char>| #[trigger] e.cooldown_of(k) == (None::<u64>, Seq::<char>::empty()),
    {
        RiskEngine { cooldown_secs, pairs: Vec::new() }
    }

    fn find(&self, pair: &String) -> (r: Option<usize>)
        ensures
            r matches Some(i) ==> is_slot(self.pairs@, pair@, i as int),
            r is None ==> forall|j: int| 0 <= j < self.pairs@.len() ==> self.pairs@[j].pair@ != pair@,
    {
        let mut i: usize = 0;
        while i < self.pairs.len()
            invariant
                i <= self.pairs.len(),
                forall|j: int| 0 <= j < i ==> self.pairs@[j].pair@ != pair@,
            decreases self.pairs.len() - i,
        {
            if self.pairs[i].pair == *pair {
                return Some(i);
            }
            i = i + 1;
        }
        None
    }

    /// The cooldown end and reason recorded for a pair.
    fn lookup(&self, pair: &String) -> (r: (Option<u64>, String))
        ensures
            r.0 == self.cooldown_of(pair@).0,
            r.1@ == self.cooldown_of(pair@).1,
    {
        match self.find(pair) {
            Some(i) => {
                proof {
                    lemma_cooldown_at_slot(self.pairs@, pair@, i as int);
                }
                (self.pairs[i].cooldown_until_ms, self.pairs[i].cooldown_reason.clone())
            },
            None => {
                proof {
                    assert(forall|i: int| !is_slot(self.pairs@, pair@, i));
                }
                (None, String::new())
            },
        }
    }

    fn record(&mut self, pair: String, until_ms: u64, reason: String)
        ensures
            final(self).cooldown_period() == old(self).cooldown_period(),
            final(self).cooldown_of(pair@) == (Some(until_ms), reason@),
            forall|k: Seq<char>| k != pair@ ==> #[trigger] final(self).cooldown_of(k) == old(self).cooldown_of(k),
    {
        let ghost key = pair@;
        let ghost reason_view = reason@;
        let found = self.find(&pair);
        let st = PairState { pair, cooldown_until_ms: Some(until_ms), cooldown_reason: reason };
        match found {
            Some(i) => {
                proof {
                    lemma_update_slot(self.pairs@, key, i as int, st);
                }
                self.pairs.set(i, st);
            },
            None => {
                proof {
                    lemma_push_slot(self.pairs@, key, st);
                }
                self.pairs.push(st);
            },
        }
    }

    /// Whether `pair` is cooling down at `now_ms`.
    pub fn in_cooldown(&self, pair: &str, now_ms: u64) -> (b: bool)
        ensures
            b == self.in_cooldown_at(pair@, now_ms),
    {
        let key = String::from_str(pair);
        let (until, _) = self.lookup(&key);
        match until {
            Some(t) => now_ms < t,
            None => false,
        }
    }

    /// Whole seconds of cooldown left for `pair` at `now_ms`.
    pub fn cooldown_remaining_secs(&self, pair: &str, now_ms: u64) -> (s: u64)
        ensures
            s == remaining_secs_at(self.cooldown_of(pair@), now_ms),
    {
        let key = String::from_str(pair);
        let (until, _) = self.lookup(&key);
        match until {
            Some(t) => if t > now_ms {
                (t - now_ms) / 1000
            } else {
                0
            },
            None => 0,
        }
    }

    /// Starts (or restarts) the cooldown of `pair` at `now_ms`.
    pub fn trigger_cooldown(&mut self, pair: &str, reason: &str, now_ms: u64)
        ensures
            old(self).cooled_down(*final(self), pair@, now_ms, reason@),
    {
        let until = self.end_of_cooldown(now_ms);
        self.record(String::from_str(pair), until, String::from_str(reason));
    }

    /// Runs the guards for `pair` at `now_ms` on the readings of this cycle.
    pub fn evaluate(&mut self, pair: &str, now_ms: u64, readings: &GuardReadings) -> (v: RiskVerdict)
        ensures
            old(self).evaluated(*final(self), pair@, now_ms, *readings),
            v.pair@ == pair@,
            v.guards@ == old(self).guards_at(pair@, now_ms, *readings),
            v.level == worst_level(v.guards@),
            v.allowance == allowance_for(v.guards@),
            old(self).in_cooldown_at(pair@, now_ms) ==> {
                &&& v.cooldown_remaining_secs == remaining_secs_at(old(self).cooldown_of(pair@), now_ms)
                &&& v.cooldown_reason@ == old(self).cooldown_of(pair@).1
            },
            !old(self).in_cooldown_at(pair@, now_ms) ==> {
                &&& v.cooldown_remaining_secs == 0
                &&& v.cooldown_reason@ == Seq::<char>::empty()
            },
    {
        let key = String::from_str(pair);
        let (until, reason) = self.lookup(&key);
        let cooling = match until {
            Some(t) => now_ms < t,
            None => false,
        };
        let mut guards: Vec<GuardOutcome> = Vec::new();
        if cooling {
            let remaining = match until {
                Some(t) => (t - now_ms) / 1000,
                None => 0,
            };
            guards.push(GuardOutcome { guard: Guard::Cooldown, passed: false, level: RiskLevel::Cooldown });
            proof {
                assert(guards@ =~= seq![spec_cooldown_guard()]);
            }
            let (level, allowance) = aggregate(&guards);
            return RiskVerdict {
                pair: key,
                level,
                guards,
                allowance,
                cooldown_remaining_secs: remaining,
                cooldown_reason: reason,
            };
        }
        let dd = drawdown_guard(readings.drawdown);
        guards.push(dd);
        match readings.drawdown {
            DrawdownZone::Breach => {
                let until_ms = self.end_of_cooldown(now_ms);
                self.record(key.clone(), until_ms, readings.halt_note.clone());
                proof {
                    assert(guards@ =~= spec_cascade(*readings));
                }
                let (level, allowance) = aggregate(&guards);
                return RiskVerdict {
                    pair: key,
                    level,
                    guards,
                    allowance,
                    cooldown_remaining_secs: 0,
                    cooldown_reason: String::new(),
                };
            },
            _ => {},
        }
        guards.push(volatility_guard(readings.volatility));
        match readings.rsi {
            Some(z) => guards.push(rsi_guard(z)),
            None => {},
        }
        guards.push(spread_guard(readings.spread));
        proof {
            assert(guards@ =~= spec_cascade(*readings));
        }
        let (level, allowance) = aggregate(&guards);
        RiskVerdict {
            pair: key,
            level,
            guards,
            allowance,
            cooldown_remaining_secs: 0,
            cooldown_reason: String::new(),
        }
    }
}

/// The verdict level is the level of the most severe guard: no guard is
/// more severe, and (when there are guards) one of them has exactly that level.
pub proof fn law_level_is_worst_guard(gs: Seq<GuardOutcome>)
    ensures
        forall|i: int| 0 <= i < gs.len() ==> #[trigger] gs[i].level.spec_rank() <= worst_level(gs).spec_rank(),
        gs.len() > 0 ==> exists|i: int| 0 <= i < gs.len() && #[trigger] gs[i].level == worst_level(gs),
        gs.len() == 0 ==> worst_level(gs) == RiskLevel::Clear,
    decreases gs.len(),
{
    if gs.len() > 0 {
        let init = gs.drop_last();
        law_level_is_worst_guard(init);
        assert forall|i: int| 0 <= i < gs.len() implies #[trigger] gs[i].level.spec_rank() <= worst_level(gs).spec_rank() by {
            if i < gs.len() - 1 {
                assert(gs[i] == init[i]);
            }
        }
        if worst_level(gs) == gs.last() .level {
            assert(gs[gs.len() - 1].level == worst_level(gs));
        } else {
            let i = choose|i: int| 0 <= i < init.len() && #[trigger] init[i].level == worst_level(init);
            assert(gs[i] == init[i]);
        }
    }
}

/// A verdict lets the agent open positions exactly when its allowance is not
/// nothing; a caution verdict always carries at least one caution flag.
pub proof fn law_allowance_follows_level(gs: Seq<GuardOutcome>)
    ensures
        worst_level(gs).spec_permits_trading() <==> allowance_for(gs) != Allowance::Nothing,
        worst_level(gs) == RiskLevel::Clear <==> allowance_for(gs) == Allowance::Full,
        worst_level(gs) == RiskLevel::Caution ==> count_at_level(gs, RiskLevel::Caution) >= 1
            && allowance_for(gs) == (Allowance::Reduced {
            caution_flags: count_at_level(gs, RiskLevel::Caution) as usize,
        }),
{
    if worst_level(gs) == RiskLevel::Caution {
        law_level_is_worst_guard(gs);
        let i = choose|i: int| 0 <= i < gs.len() && #[trigger] gs[i].level == worst_level(gs);
        lemma_count_positive(gs, RiskLevel::Caution, i);
        lemma_count_bounded(gs, RiskLevel::Caution);
    }
}

proof fn lemma_count_positive(gs: Seq<GuardOutcome>, level: RiskLevel, i: int)
    requires
        0 <= i < gs.len(),
        gs[i].level == level,
    ensures
        count_at_level(gs, level) >= 1,
    decreases gs.len(),
{
    if i < gs.len() - 1 {
        assert(gs.drop_last()[i] == gs[i]);
        lemma_count_positive(gs.drop_last(), level, i);
    }
}

/// A guard that fails (does not pass) always blocks trading: the verdict is
/// then a halt or a cooldown.
pub proof fn law_failed_guard_blocks_trading(e: RiskEngine, pair: Seq<char>, now_ms: u64, r: GuardReadings)
    ensures
        (exists|i: int| 0 <= i < e.guards_at(pair, now_ms, r).len() && !#[trigger] e.guards_at(pair, now_ms, r)[i].passed)
            ==> !worst_level(e.guards_at(pair, now_ms, r)).spec_permits_trading(),
{
    let gs = e.guards_at(pair, now_ms, r);
    law_level_is_worst_guard(gs);
    if exists|i: int| 0 <= i < gs.len() && !#[trigger] gs[i].passed {
        let i = choose|i: int| 0 <= i < gs.len() && !#[trigger] gs[i].passed;
        assert(gs[i].level.spec_rank() >= 2);
    }
}

/// The guards run in a fixed order: a drawdown breach halts at once with the
/// drawdown guard alone; otherwise drawdown, volatility, RSI (only when it
/// can be measured) and spread, in this order.
pub proof fn law_guard_order(r: GuardReadings)
    ensures
        r.drawdown is Breach ==> spec_cascade(r) == seq![spec_drawdown_guard(r.drawdown)]
            && worst_level(spec_cascade(r)) == RiskLevel::Halt,
        !(r.drawdown is Breach) ==> {
            let gs = spec_cascade(r);
            &&& gs.len() == if r.rsi is Some { 4int } else { 3int }
            &&& gs[0].guard == Guard::Drawdown
            &&& gs[1].guard == Guard::Volatility
            &&& r.rsi is Some ==> gs[2].guard == Guard::Rsi
            &&& gs.last().guard == Guard::Spread
        },
{
    if r.drawdown is Breach {
        let gs = spec_cascade(r);
        assert(gs.drop_last() =~= Seq::<GuardOutcome>::empty());
    }
}

/// While a pair cools down, its evaluation reports the cooldown guard alone
/// and allows no position, whatever the readings.
pub proof fn law_cooldown_blocks_pair(e: RiskEngine, pair: Seq<char>, now_ms: u64, r: GuardReadings)
    requires
        e.in_cooldown_at(pair, now_ms),
    ensures
        e.guards_at(pair, now_ms, r) == seq![spec_cooldown_guard()],
        worst_level(e.guards_at(pair, now_ms, r)) == RiskLevel::Cooldown,
        allowance_for(e.guards_at(pair, now_ms, r)) == Allowance::Nothing,
{
    let gs = e.guards_at(pair, now_ms, r);
    assert(gs.drop_last() =~= Seq::<GuardOutcome>::empty());
    assert(worst_level(gs.drop_last()) == RiskLevel::Clear);
}

/// A cooldown started at `now_ms` blocks the pair at every instant before its
/// end, reports at most the configured number of seconds left, and is over
/// from its end on, when the cascade runs again.
pub proof fn law_cooldown_window(
    before: RiskEngine,
    after: RiskEngine,
    pair: Seq<char>,
    now_ms: u64,
    reason: Seq<char>,
    later_ms: u64,
    r: GuardReadings,
)
    requires
        before.cooled_down(after, pair, now_ms, reason),
    ensures
        now_ms <= later_ms < before.cooldown_end(now_ms) ==> {
            &&& after.in_cooldown_at(pair, later_ms)
            &&& worst_level(after.guards_at(pair, later_ms, r)) == RiskLevel::Cooldown
        },
        now_ms <= later_ms ==> remaining_secs_at(after.cooldown_of(pair), later_ms)
            <= before.cooldown_period(),
        later_ms >= before.cooldown_end(now_ms) ==> after.guards_at(pair, later_ms, r) == spec_cascade(r),
        after.cooldown_of(pair).1 == reason,
{
    assert(after.cooldown_of(pair) == (Some(before.cooldown_end(now_ms) as u64), reason));
    if now_ms <= later_ms < before.cooldown_end(now_ms) {
        law_cooldown_blocks_pair(after, pair, later_ms, r);
    }
    if now_ms <= later_ms && later_ms < before.cooldown_end(now_ms) {
        let d = (before.cooldown_end(now_ms) - later_ms) as int;
        assert(d <= before.cooldown_period() * 1000);
        assert(d / 1000 <= before.cooldown_period()) by (nonlinear_arith)
            requires
                0 <= d <= before.cooldown_period() * 1000,
        ;
    }
}

/// A drawdown breach halts the pair and starts its cooldown: every later
/// evaluation of that pair before the cooldown ends is a cooldown verdict
/// that allows no position, whatever its readings.
pub proof fn law_breach_starts_cooldown(
    before: RiskEngine,
    after: RiskEngine,
    pair: Seq<char>,
    now_ms: u64,
    r: GuardReadings,
    later_ms: u64,
    r2: GuardReadings,
)
    requires
        before.evaluated(after, pair, now_ms, r),
        !before.in_cooldown_at(pair, now_ms),
        r.drawdown is Breach,
        now_ms <= later_ms < before.cooldown_end(now_ms),
    ensures
        worst_level(before.guards_at(pair, now_ms, r)) == RiskLevel::Halt,
        worst_level(after.guards_at(pair, later_ms, r2)) == RiskLevel::Cooldown,
        allowance_for(after.guards_at(pair, later_ms, r2)) == Allowance::Nothing,
        after.cooldown_of(pair).1 == r.halt_note@,
{
    law_guard_order(r);
    law_cooldown_window(before, after, pair, now_ms, r.halt_note@, later_ms, r2);
    law_cooldown_blocks_pair(after, pair, later_ms, r2);
}

/// Evaluating or cooling down one pair never changes what another pair's
/// evaluation reports.
pub proof fn law_pairs_are_independent(
    before: RiskEngine,
    after: RiskEngine,
    pair: Seq<char>,
    now_ms: u64,
    r: GuardReadings,
    other: Seq<char>,
    t_ms: u64,
    r2: GuardReadings,
)
    requires
        before.evaluated(after, pair, now_ms, r),
        other != pair,
    ensures
        after.guards_at(other, t_ms, r2) == before.guards_at(other, t_ms, r2),
{
    assert(after.cooldown_of(other) == before.cooldown_of(other));
}

/// Every guard the engine reports passes exactly when its level still
/// permits trading.
proof fn lemma_passed_iff_permits(e: RiskEngine, pair: Seq<char>, now_ms: u64, r: GuardReadings)
    ensures
        forall|i: int|
            0 <= i < e.guards_at(pair, now_ms, r).len() ==> (#[trigger] e.guards_at(pair, now_ms, r)[i]).passed
                == e.guards_at(pair, now_ms, r)[i].level.spec_permits_trading(),
{
    let gs = e.guards_at(pair, now_ms, r);
    if !e.in_cooldown_at(pair, now_ms) && !(r.drawdown is Breach) {
        assert forall|i: int| 0 <= i < gs.len() implies (#[trigger] gs[i]).passed
            == gs[i].level.spec_permits_trading() by {
            if i == 0 {
            } else if i == 1 {
            } else if r.rsi is Some && i == 2 {
            } else {
                assert(gs[i] == spec_spread_guard(r.spread));
            }
        }
    }
}

/// The verdict invariant: the level is the worst guard's level, some guard
/// failed exactly when the level is Cooldown or Halt, and the verdict allows
/// a position exactly when it permits trading.
pub proof fn law_verdict_invariant(e: RiskEngine, pair: Seq<char>, now_ms: u64, r: GuardReadings)
    ensures
        ({
            let gs = e.guards_at(pair, now_ms, r);
            &&& forall|i: int| 0 <= i < gs.len() ==> #[trigger] gs[i].level.spec_rank() <= worst_level(gs).spec_rank()
            &&& exists|i: int| 0 <= i < gs.len() && #[trigger] gs[i].level == worst_level(gs)
            &&& (exists|i: int| 0 <= i < gs.len() && !#[trigger] gs[i].passed)
                <==> !worst_level(gs).spec_permits_trading()
            &&& worst_level(gs).spec_permits_trading() <==> allowance_for(gs) != Allowance::Nothing
        }),
{
    let gs = e.guards_at(pair, now_ms, r);
    law_level_is_worst_guard(gs);
    law_allowance_follows_level(gs);
    lemma_passed_iff_permits(e, pair, now_ms, r);
    assert(gs.len() > 0);
    let w = choose|i: int| 0 <= i < gs.len() && #[trigger] gs[i].level == worst_level(gs);
    if !worst_level(gs).spec_permits_trading() {
        assert(!gs[w].passed);
    }
    if exists|i: int| 0 <= i < gs.len() && !#[trigger] gs[i].passed {
        let i = choose|i: int| 0 <= i < gs.len() && !#[trigger] gs[i].passed;
        assert(gs[i].level.spec_rank() >= 2);
    }
}

/// The RSI guard flags both extremes: an overbought or an oversold RSI is a
/// passed guard at Caution level, a neutral RSI is Clear.  So readings whose
/// only flag is an extreme RSI give a Caution verdict that reduces the
/// position exactly once.
pub proof fn law_rsi_extremes_are_cautions(e: RiskEngine, pair: Seq<char>, now_ms: u64, r: GuardReadings)
    requires
        !e.in_cooldown_at(pair, now_ms),
        !(r.drawdown is Breach),
        r.rsi is Some,
    ensures
        e.guards_at(pair, now_ms, r)[2].guard == Guard::Rsi,
        e.guards_at(pair, now_ms, r)[2].passed,
        (r.rsi == Some(RsiZone::Overbought) || r.rsi == Some(RsiZone::Oversold))
            ==> e.guards_at(pair, now_ms, r)[2].level == RiskLevel::Caution,
        r.rsi == Some(RsiZone::Neutral) ==> e.guards_at(pair, now_ms, r)[2].level == RiskLevel::Clear,
        (r.drawdown == DrawdownZone::Within && r.spread == SpreadZone::Liquid && r.volatility == (
        VolatilityReading::Measured { regime: VolatilityRegime::Normal, band: MultipleBand::Below })
            && (r.rsi == Some(RsiZone::Overbought) || r.rsi == Some(RsiZone::Oversold))) ==> {
            &&& worst_level(e.guards_at(pair, now_ms, r)) == RiskLevel::Caution
            &&& allowance_for(e.guards_at(pair, now_ms, r)) == (Allowance::Reduced { caution_flags: 1 })
        },
{
    let gs = e.guards_at(pair, now_ms, r);
    if r.drawdown == DrawdownZone::Within && r.spread == SpreadZone::Liquid && r.volatility == (
    VolatilityReading::Measured { regime: VolatilityRegime::Normal, band: MultipleBand::Below })
        && (r.rsi == Some(RsiZone::Overbought) || r.rsi == Some(RsiZone::Oversold)) {
        let clear = |g: Guard| GuardOutcome { guard: g, passed: true, level: RiskLevel::Clear };
        let expected = seq![
            clear(Guard::Drawdown),
            clear(Guard::Volatility),
            GuardOutcome { guard: Guard::Rsi, passed: true, level: RiskLevel::Caution },
            clear(Guard::Spread),
        ];
        assert(gs =~= expected);
        reveal_with_fuel(worst_level, 5);
        reveal_with_fuel(count_at_level, 5);
        assert(expected.drop_last().drop_last().drop_last().drop_last() =~= Seq::<GuardOutcome>::empty());
        assert(worst_level(expected) == RiskLevel::Caution);
        assert(count_at_level(expected, RiskLevel::Caution) == 1);
    }
}

} // verus!
