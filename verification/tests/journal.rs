use risk_guard::brain::Action;
use risk_guard::executor::{
    plan_execution, ExecJournal, ExecLog, ExecResult, ExecutionStep, PositionBook, SkipNote,
    EXEC_LOG_CAPACITY,
};
use risk_guard::risk::RiskLevel;
use risk_guard::social::risk_halts;

fn entry(id: u32, action: Action, result: ExecResult) -> ExecLog<u32> {
    ExecLog {
        pair: "BTCUSD".to_string(),
        action,
        reason: String::new(),
        result,
        error: String::new(),
        detail: id,
    }
}

#[test]
fn recent_trades_skip_holds_newest_first() {
    let mut j = ExecJournal::new();
    j.push(entry(1, Action::Buy, ExecResult::Succeeded));
    j.push(entry(2, Action::Hold, ExecResult::Skipped));
    j.push(entry(3, Action::Sell, ExecResult::Failed));
    j.push(entry(4, Action::Hold, ExecResult::Skipped));
    j.push(entry(5, Action::Buy, ExecResult::Skipped));
    let ids: Vec<u32> = j.recent_trades(2).iter().map(|e| e.detail).collect();
    assert_eq!(ids, vec![5, 3]);
    let ids: Vec<u32> = j.recent_trades(10).iter().map(|e| e.detail).collect();
    assert_eq!(ids, vec![5, 3, 1]);
    assert!(j.recent_trades(0).is_empty());
    assert_eq!(j.trade_counts(), (3, 1));
    assert_eq!(j.len(), 5);
}

#[test]
fn journal_drops_the_oldest_hundred_past_capacity() {
    let mut j = ExecJournal::new();
    for i in 0..500u32 {
        j.push(entry(i, Action::Buy, ExecResult::Succeeded));
    }
    assert_eq!(j.len(), 500);
    assert_eq!(j.entries()[0].detail, 0);
    j.push(entry(500, Action::Buy, ExecResult::Succeeded));
    assert_eq!(j.len(), 401);
    assert_eq!(j.entries()[0].detail, 100);
    assert_eq!(j.entries()[400].detail, 500);
    assert!(j.len() <= EXEC_LOG_CAPACITY);
}

#[test]
fn decisions_map_to_steps() {
    assert_eq!(
        plan_execution(Action::Hold, true),
        ExecutionStep::Skip { action: Action::Hold, note: SkipNote::Holding }
    );
    assert_eq!(
        plan_execution(Action::Buy, true),
        ExecutionStep::Skip { action: Action::Buy, note: SkipNote::AlreadyOpen }
    );
    assert_eq!(plan_execution(Action::Buy, false), ExecutionStep::Open);
    assert_eq!(plan_execution(Action::Sell, true), ExecutionStep::Close);
    assert_eq!(
        plan_execution(Action::Sell, false),
        ExecutionStep::Skip { action: Action::Sell, note: SkipNote::NothingToSell }
    );
    assert_eq!(ExecResult::Succeeded.label(), "ok");
    assert_eq!(ExecResult::Skipped.label(), "skipped");
    assert_eq!(ExecResult::Failed.label(), "error");
}

#[test]
fn halts_and_cooldowns_are_counted() {
    let levels = vec![RiskLevel::Clear, RiskLevel::Halt, RiskLevel::Caution, RiskLevel::Cooldown];
    assert_eq!(risk_halts(&levels), 2);
    assert_eq!(risk_halts(&vec![]), 0);
}

#[test]
fn position_book_holds_one_position_per_pair() {
    let mut book: PositionBook<u32> = PositionBook::new();
    assert!(book.is_empty());
    book.insert("BTCUSD", 1);
    book.insert("ETHUSD", 2);
    book.insert("BTCUSD", 3);
    assert_eq!(book.len(), 2);
    assert!(book.contains("BTCUSD"));
    assert_eq!(book.get("BTCUSD"), Some(&3));
    assert_eq!(plan_execution(Action::Buy, book.contains("BTCUSD")), ExecutionStep::Skip { action: Action::Buy, note: SkipNote::AlreadyOpen });
    assert_eq!(book.remove("BTCUSD"), Some(3));
    assert_eq!(book.remove("BTCUSD"), None);
    assert!(!book.contains("BTCUSD"));
    assert_eq!(book.get("SOLUSD"), None);
    assert_eq!(book.entries().len(), 1);
    assert_eq!(book.entries()[0].pair, "ETHUSD");
}
