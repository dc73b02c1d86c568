use risk_guard::indicators::VolatilityRegime;
use risk_guard::risk::{
    aggregate, level_badge, Allowance, DrawdownZone, Guard, GuardOutcome, GuardReadings,
    MultipleBand, RiskEngine, RiskLevel, RsiZone, SpreadZone, VolatilityReading,
};

fn readings(
    drawdown: DrawdownZone,
    volatility: VolatilityReading,
    rsi: Option<RsiZone>,
    spread: SpreadZone,
) -> GuardReadings {
    GuardReadings { drawdown, volatility, rsi, spread, halt_note: "drawdown halt 12.5%".to_string() }
}

fn calm() -> VolatilityReading {
    VolatilityReading::Measured { regime: VolatilityRegime::Normal, band: MultipleBand::Below }
}

fn guards_of(v: &risk_guard::risk::RiskVerdict) -> Vec<(Guard, bool, RiskLevel)> {
    v.guards.iter().map(|g| (g.guard, g.passed, g.level)).collect()
}

#[test]
fn all_guards_green_is_clear_with_full_allowance() {
    let mut e = RiskEngine::new(300);
    let v = e.evaluate("BTCUSD", 0, &readings(DrawdownZone::Within, calm(), Some(RsiZone::Neutral), SpreadZone::Liquid));
    assert_eq!(v.pair, "BTCUSD");
    assert_eq!(v.level, RiskLevel::Clear);
    assert_eq!(v.allowance, Allowance::Full);
    assert!(v.can_trade());
    assert_eq!(
        guards_of(&v),
        vec![
            (Guard::Drawdown, true, RiskLevel::Clear),
            (Guard::Volatility, true, RiskLevel::Clear),
            (Guard::Rsi, true, RiskLevel::Clear),
            (Guard::Spread, true, RiskLevel::Clear),
        ]
    );
    assert_eq!(v.first_failed_guard(), None);
}

#[test]
fn caution_flags_reduce_the_allowance() {
    let mut e = RiskEngine::new(300);
    let v = e.evaluate(
        "ETHUSD",
        0,
        &readings(DrawdownZone::Warning, calm(), Some(RsiZone::Overbought), SpreadZone::Wide),
    );
    assert_eq!(v.level, RiskLevel::Caution);
    assert_eq!(v.allowance, Allowance::Reduced { caution_flags: 3 });
    assert_eq!(v.caution_flags(), 3);
    assert!(v.can_trade());
}

#[test]
fn missing_atr_is_a_caution_and_missing_rsi_skips_the_guard() {
    let mut e = RiskEngine::new(300);
    let v = e.evaluate("SOLUSD", 0, &readings(DrawdownZone::Within, VolatilityReading::Unavailable, None, SpreadZone::Liquid));
    assert_eq!(
        guards_of(&v),
        vec![
            (Guard::Drawdown, true, RiskLevel::Clear),
            (Guard::Volatility, true, RiskLevel::Caution),
            (Guard::Spread, true, RiskLevel::Clear),
        ]
    );
    assert_eq!(v.allowance, Allowance::Reduced { caution_flags: 1 });
}

#[test]
fn extreme_volatility_halts() {
    let mut e = RiskEngine::new(300);
    let extreme = VolatilityReading::Measured { regime: VolatilityRegime::Extreme, band: MultipleBand::Below };
    let v = e.evaluate("BTCUSD", 0, &readings(DrawdownZone::Within, extreme, Some(RsiZone::Neutral), SpreadZone::Liquid));
    assert_eq!(v.level, RiskLevel::Halt);
    assert_eq!(v.allowance, Allowance::Nothing);
    assert!(!v.can_trade());
    assert_eq!(v.first_failed_guard(), Some(1));
    // A volatility halt does not start a cooldown.
    assert!(!e.in_cooldown("BTCUSD", 1));

    let elevated = VolatilityReading::Measured { regime: VolatilityRegime::Elevated, band: MultipleBand::Below };
    let v = e.evaluate("BTCUSD", 0, &readings(DrawdownZone::Within, elevated, None, SpreadZone::Liquid));
    assert_eq!(v.level, RiskLevel::Caution);
    let at_max = VolatilityReading::Measured { regime: VolatilityRegime::Low, band: MultipleBand::Max };
    let v = e.evaluate("BTCUSD", 0, &readings(DrawdownZone::Within, at_max, None, SpreadZone::Liquid));
    assert_eq!(v.level, RiskLevel::Halt);
}

#[test]
fn drawdown_breach_halts_then_cools_down() {
    let mut e = RiskEngine::new(300);
    let v = e.evaluate("BTCUSD", 1_000, &readings(DrawdownZone::Breach, calm(), Some(RsiZone::Neutral), SpreadZone::Liquid));
    assert_eq!(v.level, RiskLevel::Halt);
    assert_eq!(guards_of(&v), vec![(Guard::Drawdown, false, RiskLevel::Halt)]);
    assert_eq!(v.allowance, Allowance::Nothing);

    let later = e.evaluate("BTCUSD", 2_500, &readings(DrawdownZone::Within, calm(), None, SpreadZone::Liquid));
    assert_eq!(later.level, RiskLevel::Cooldown);
    assert_eq!(guards_of(&later), vec![(Guard::Cooldown, false, RiskLevel::Cooldown)]);
    assert_eq!(later.cooldown_remaining_secs, 298);
    assert_eq!(later.cooldown_reason, "drawdown halt 12.5%");
    assert!(!later.can_trade());

    // Other pairs are untouched.
    let other = e.evaluate("ETHUSD", 2_500, &readings(DrawdownZone::Within, calm(), None, SpreadZone::Liquid));
    assert_eq!(other.level, RiskLevel::Clear);

    // The last instant of the cooldown, then the first one after it.
    assert!(e.in_cooldown("BTCUSD", 300_999));
    assert!(!e.in_cooldown("BTCUSD", 301_000));
    let after = e.evaluate("BTCUSD", 301_000, &readings(DrawdownZone::Within, calm(), None, SpreadZone::Liquid));
    assert_eq!(after.level, RiskLevel::Clear);
    assert_eq!(after.cooldown_remaining_secs, 0);
    assert_eq!(after.cooldown_reason, "");
}

#[test]
fn stop_loss_cooldown_blocks_the_pair() {
    let mut e = RiskEngine::new(300);
    assert_eq!(e.cooldown_secs(), 300);
    assert!(!e.in_cooldown("BTCUSD", 0));
    e.trigger_cooldown("BTCUSD", "stop-loss triggered", 10_000);
    assert!(e.in_cooldown("BTCUSD", 10_000));
    assert_eq!(e.cooldown_remaining_secs("BTCUSD", 10_000), 300);
    assert_eq!(e.cooldown_remaining_secs("BTCUSD", 10_001), 299);
    assert_eq!(e.cooldown_remaining_secs("BTCUSD", 400_000), 0);
    let v = e.evaluate("BTCUSD", 20_000, &readings(DrawdownZone::Within, calm(), None, SpreadZone::Liquid));
    assert_eq!(v.level, RiskLevel::Cooldown);
    assert_eq!(v.cooldown_reason, "stop-loss triggered");
    assert_eq!(v.cooldown_remaining_secs, 290);
    // Re-triggering restarts the window.
    e.trigger_cooldown("BTCUSD", "again", 200_000);
    assert_eq!(e.cooldown_remaining_secs("BTCUSD", 200_000), 300);
}

#[test]
fn aggregate_takes_the_worst_level() {
    let g = |guard, passed, level| GuardOutcome { guard, passed, level };
    assert_eq!(aggregate(&vec![]), (RiskLevel::Clear, Allowance::Full));
    assert_eq!(
        aggregate(&vec![g(Guard::Drawdown, true, RiskLevel::Caution), g(Guard::Spread, true, RiskLevel::Clear)]),
        (RiskLevel::Caution, Allowance::Reduced { caution_flags: 1 })
    );
    assert_eq!(
        aggregate(&vec![g(Guard::Drawdown, true, RiskLevel::Caution), g(Guard::Volatility, false, RiskLevel::Halt)]),
        (RiskLevel::Halt, Allowance::Nothing)
    );
    assert_eq!(
        aggregate(&vec![g(Guard::Cooldown, false, RiskLevel::Cooldown)]),
        (RiskLevel::Cooldown, Allowance::Nothing)
    );
}

#[test]
fn level_names_and_badges() {
    assert_eq!(RiskLevel::Clear.label(), "CLEAR");
    assert_eq!(RiskLevel::Caution.label(), "CAUTION");
    assert_eq!(RiskLevel::Cooldown.label(), "COOLDOWN");
    assert_eq!(RiskLevel::Halt.label(), "HALT");
    assert_eq!(level_badge(&RiskLevel::Clear), "● CLEAR");
    assert_eq!(level_badge(&RiskLevel::Caution), "▲ CAUTION");
    assert_eq!(level_badge(&RiskLevel::Halt), "✖ HALT");
    assert_eq!(level_badge(&RiskLevel::Cooldown), "⏸ COOLDOWN");
    assert!(RiskLevel::Clear < RiskLevel::Caution);
    assert!(RiskLevel::Caution < RiskLevel::Cooldown);
    assert!(RiskLevel::Cooldown < RiskLevel::Halt);
    assert_eq!(RiskLevel::Halt.rank(), 3);
    assert_eq!(Guard::Volatility.name(), "volatility");
    assert_eq!(VolatilityRegime::Elevated.label(), "elevated");
}
