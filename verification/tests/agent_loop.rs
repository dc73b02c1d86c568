use risk_guard::agent::{next_step, AgentLoop, LoopAction, LoopEvent};

fn step(s: &mut AgentLoop, ev: LoopEvent) -> LoopAction {
    assert!(s.accepts_event(ev));
    let (next, action) = next_step(s, ev);
    *s = next;
    action
}

#[test]
fn a_cycle_arms_first_and_trades_only_on_permitting_verdicts() {
    let mut s = AgentLoop::new(2, 10, 2);
    assert_eq!(step(&mut s, LoopEvent::Tick), LoopAction::ArmDeadMansSwitch);
    assert_eq!(s.cycle, 1);
    assert_eq!(step(&mut s, LoopEvent::Tick), LoopAction::RefreshPortfolio);
    assert_eq!(step(&mut s, LoopEvent::Tick), LoopAction::FetchPair { index: 0 });
    assert_eq!(step(&mut s, LoopEvent::Fetched), LoopAction::Evaluate { index: 0 });
    assert_eq!(step(&mut s, LoopEvent::Evaluated), LoopAction::CheckExits { index: 0 });
    assert_eq!(step(&mut s, LoopEvent::Verdict { can_trade: true }), LoopAction::DecideAndExecute { index: 0 });
    assert_eq!(step(&mut s, LoopEvent::PairDone), LoopAction::FetchPair { index: 1 });
    assert_eq!(step(&mut s, LoopEvent::Fetched), LoopAction::Evaluate { index: 1 });
    assert_eq!(step(&mut s, LoopEvent::Evaluated), LoopAction::CheckExits { index: 1 });
    // A halted pair never reaches the decision.
    assert_eq!(step(&mut s, LoopEvent::Verdict { can_trade: false }), LoopAction::RefreshPortfolio);
    assert_eq!(step(&mut s, LoopEvent::Tick), LoopAction::Summarize { save_report: false });
    assert_eq!(step(&mut s, LoopEvent::Tick), LoopAction::Render);
    assert_eq!(step(&mut s, LoopEvent::Rendered), LoopAction::Sleep { secs: 1 });
    assert_eq!(step(&mut s, LoopEvent::Tick), LoopAction::Sleep { secs: 1 });
    assert_eq!(step(&mut s, LoopEvent::Tick), LoopAction::PollInput);
    assert_eq!(step(&mut s, LoopEvent::Tick), LoopAction::ArmDeadMansSwitch);
    assert_eq!(s.cycle, 2);
    assert!(!s.accepts_event(LoopEvent::Fetched));
}

#[test]
fn failed_fetch_skips_the_pair() {
    let mut s = AgentLoop::new(2, 10, 0);
    step(&mut s, LoopEvent::Tick);
    step(&mut s, LoopEvent::Tick);
    assert_eq!(step(&mut s, LoopEvent::Tick), LoopAction::FetchPair { index: 0 });
    assert_eq!(step(&mut s, LoopEvent::FetchFailed), LoopAction::FetchPair { index: 1 });
    assert_eq!(step(&mut s, LoopEvent::FetchFailed), LoopAction::RefreshPortfolio);
    assert_eq!(s.pair, 2);
}

#[test]
fn report_every_tenth_cycle_and_quit_saves_final_report() {
    let mut s = AgentLoop::new(0, 10, 0);
    for cycle in 1..=10u64 {
        assert_eq!(step(&mut s, LoopEvent::Tick), LoopAction::ArmDeadMansSwitch);
        assert_eq!(step(&mut s, LoopEvent::Tick), LoopAction::RefreshPortfolio);
        assert_eq!(step(&mut s, LoopEvent::Tick), LoopAction::RefreshPortfolio);
        assert_eq!(step(&mut s, LoopEvent::Tick), LoopAction::Summarize { save_report: cycle == 10 });
        assert_eq!(step(&mut s, LoopEvent::Tick), LoopAction::Render);
        assert_eq!(step(&mut s, LoopEvent::Rendered), LoopAction::PollInput);
    }
    assert_eq!(step(&mut s, LoopEvent::QuitKey), LoopAction::Stop { save_final_report: true });
    assert!(s.is_stopped());
    let mut t = AgentLoop::new(3, 10, 30);
    step(&mut t, LoopEvent::Tick);
    assert_eq!(step(&mut t, LoopEvent::ShutdownSignal), LoopAction::Stop { save_final_report: true });
}
