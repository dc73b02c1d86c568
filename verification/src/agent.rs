//! The agent loop as a state machine: the program performs each action and
//! reports what happened; this module decides what comes next.
//!
//! One cycle: re-arm the dead man's switch (before anything else), refresh the
//! portfolio, then for each pair fetch its market data, evaluate it, check its
//! exits and, only when the verdict permits trading, decide and execute; then
//! refresh the portfolio again, summarize (saving the report every
//! `report_every` cycles), render, and sleep for the poll interval one second
//! at a time.  A quit key or the shutdown signal stops the loop at any point,
//! and the final report is saved.
use vstd::prelude::*;

verus! {

/// What the program reports after performing an action.
#[derive(Clone, Copy, Debug, PartialEq, Eq, Structural)]
pub enum LoopEvent {
    /// The action is done (or, while polling and sleeping, no input arrived).
    Tick,
    /// `q`, `Esc` or Ctrl-C was pressed.
    QuitKey,
    /// The process received its shutdown signal.
    ShutdownSignal,
    /// The ticker or the candles of the current pair could not be fetched.
    FetchFailed,
    /// The ticker and candles of the current pair are in.
    Fetched,
    /// The current pair has been evaluated.
    Evaluated,
    /// The exits of the current pair are checked; its verdict permits trading or not.
    Verdict { can_trade: bool },
    /// The decision for the current pair has been executed.
    PairDone,
    /// The dashboard has been drawn.
    Rendered,
}

/// What the program does next.
#[derive(Clone, Copy, Debug, PartialEq, Eq, Structural)]
pub enum LoopAction {
    /// Look for the shutdown signal and a key press, briefly.
    PollInput,
    ArmDeadMansSwitch,
    RefreshPortfolio,
    FetchPair { index: usize },
    Evaluate { index: usize },
    CheckExits { index: usize },
    DecideAndExecute { index: usize },
    /// Log the session summary, and save the Markdown report when asked.
    Summarize { save_report: bool },
    Render,
    /// Sleep, watching for the shutdown signal and a quit key.
    Sleep { secs: u64 },
    Stop { save_final_report: bool },
}

/// Where the loop stands within a cycle.
#[derive(Clone, Copy, Debug, PartialEq, Eq, Structural)]
pub enum Phase {
    CycleStart,
    Arming,
    Refreshing,
    Fetching,
    Evaluating,
    CheckingExits,
    Executing,
    Closing,
    Summarizing,
    Rendering,
    Sleeping { left: u64 },
    Stopped,
}

/// The state of the agent loop.
#[derive(Clone, Copy, Debug)]
pub struct AgentLoop {
    /// Cycles started so far.
    pub cycle: u64,
    /// The pair being worked on (`n_pairs` once all are done).
    pub pair: usize,
    pub n_pairs: usize,
    /// A report is saved every this many cycles.
    pub report_every: u64,
    /// Seconds of sleep between cycles.
    pub poll_interval_secs: u64,
    pub phase: Phase,
}

impl AgentLoop {
    /// Between two cycles: the next tick starts a cycle.
    pub open spec fn at_cycle_start(self) -> bool {
        self.phase is CycleStart
    }

    /// The loop has stopped.
    pub open spec fn stopped(self) -> bool {
        self.phase is Stopped
    }

    pub open spec fn wf(self) -> bool {
        &&& self.report_every > 0
        &&& self.pair <= self.n_pairs
        &&& (self.phase is Fetching || self.phase is Evaluating || self.phase is CheckingExits
            || self.phase is Executing) ==> self.pair < self.n_pairs
    }

    /// The events that the program can report in this state.
    pub open spec fn accepts(self, ev: LoopEvent) -> bool {
        if ev is QuitKey || ev is ShutdownSignal {
            true
        } else {
            match self.phase {
                Phase::CycleStart => ev is Tick && self.cycle < u64::MAX,
                Phase::Arming | Phase::Refreshing | Phase::Closing | Phase::Summarizing
                | Phase::Sleeping { .. } => ev is Tick,
                Phase::Fetching => ev is Fetched || ev is FetchFailed,
                Phase::Evaluating => ev is Evaluated,
                Phase::CheckingExits => ev is Verdict,
                Phase::Executing => ev is PairDone,
                Phase::Rendering => ev is Rendered,
                Phase::Stopped => false,
            }
        }
    }

    /// A loop over `n_pairs` pairs, before its first cycle.
    pub fn new(n_pairs: usize, report_every: u64, poll_interval_secs: u64) -> (s: Self)
        requires
            report_every > 0,
        ensures
            s.wf(),
            s.at_cycle_start(),
            s.cycle == 0,
            s.n_pairs == n_pairs,
            s.report_every == report_every,
            s.poll_interval_secs == poll_interval_secs,
    {
        AgentLoop { cycle: 0, pair: 0, n_pairs, report_every, poll_interval_secs, phase: Phase::CycleStart }
    }

    /// Whether the program can report `ev` now.
    pub fn accepts_event(&self, ev: LoopEvent) -> (b: bool)
        ensures
            b == self.accepts(ev),
    {
        match ev {
            LoopEvent::QuitKey | LoopEvent::ShutdownSignal => true,
            _ => match self.phase {
                Phase::CycleStart => ev == LoopEvent::Tick && self.cycle < u64::MAX,
                Phase::Arming | Phase::Refreshing | Phase::Closing | Phase::Summarizing
                | Phase::Sleeping { .. } => ev == LoopEvent::Tick,
                Phase::Fetching => ev == LoopEvent::Fetched || ev == LoopEvent::FetchFailed,
                Phase::Evaluating => ev == LoopEvent::Evaluated,
                Phase::CheckingExits => match ev {
                    LoopEvent::Verdict { .. } => true,
                    _ => false,
                },
                Phase::Executing => ev == LoopEvent::PairDone,
                Phase::Rendering => ev == LoopEvent::Rendered,
                Phase::Stopped => false,
            },
        }
    }

    /// Whether the loop has stopped.
    pub fn is_stopped(&self) -> (b: bool)
        ensures
            b == self.stopped(),
    {
        match self.phase {
            Phase::Stopped => true,
            _ => false,
        }
    }
}

/// Moving on from the current pair: the next pair's data, or, after the
/// last pair, the second portfolio refresh of the cycle.
pub open spec fn spec_advance(s: AgentLoop) -> (AgentLoop, LoopAction) {
    let next = (s.pair + 1) as usize;
    if next < s.n_pairs {
        (AgentLoop { pair: next, phase: Phase::Fetching, ..s }, LoopAction::FetchPair { index: next })
    } else {
        (AgentLoop { pair: next, phase: Phase::Closing, ..s }, LoopAction::RefreshPortfolio)
    }
}

/// The step that follows `ev` in state `s`.
pub open spec fn spec_next_step(s: AgentLoop, ev: LoopEvent) -> (AgentLoop, LoopAction) {
    if ev is QuitKey || ev is ShutdownSignal {
        (AgentLoop { phase: Phase::Stopped, ..s }, LoopAction::Stop { save_final_report: true })
    } else {
        match s.phase {
            Phase::CycleStart => (
                AgentLoop { cycle: (s.cycle + 1) as u64, pair: 0, phase: Phase::Arming, ..s },
                LoopAction::ArmDeadMansSwitch,
            ),
            Phase::Arming => (AgentLoop { phase: Phase::Refreshing, ..s }, LoopAction::RefreshPortfolio),
            Phase::Refreshing => if s.n_pairs > 0 {
                (AgentLoop { pair: 0, phase: Phase::Fetching, ..s }, LoopAction::FetchPair { index: 0 })
            } else {
                (AgentLoop { phase: Phase::Closing, ..s }, LoopAction::RefreshPortfolio)
            },
            Phase::Fetching => if ev is Fetched {
                (AgentLoop { phase: Phase::Evaluating, ..s }, LoopAction::Evaluate { index: s.pair })
            } else {
                spec_advance(s)
            },
            Phase::Evaluating => (
                AgentLoop { phase: Phase::CheckingExits, ..s },
                LoopAction::CheckExits { index: s.pair },
            ),
            Phase::CheckingExits => if ev == (LoopEvent::Verdict { can_trade: true }) {
                (AgentLoop { phase: Phase::Executing, ..s }, LoopAction::DecideAndExecute { index: s.pair })
            } else {
                spec_advance(s)
            },
            Phase::Executing => spec_advance(s),
            Phase::Closing => (
                AgentLoop { phase: Phase::Summarizing, ..s },
                LoopAction::Summarize { save_report: s.cycle % s.report_every == 0 },
            ),
            Phase::Summarizing => (AgentLoop { phase: Phase::Rendering, ..s }, LoopAction::Render),
            Phase::Rendering => if s.poll_interval_secs > 0 {
                (
                    AgentLoop { phase: Phase::Sleeping { left: (s.poll_interval_secs - 1) as u64 }, ..s },
                    LoopAction::Sleep { secs: 1 },
                )
            } else {
                (AgentLoop { phase: Phase::CycleStart, ..s }, LoopAction::PollInput)
            },
            Phase::Sleeping { left } => if left > 0 {
                (
                    AgentLoop { phase: Phase::Sleeping { left: (left - 1) as u64 }, ..s },
                    LoopAction::Sleep { secs: 1 },
                )
            } else {
                (AgentLoop { phase: Phase::CycleStart, ..s }, LoopAction::PollInput)
            },
            Phase::Stopped => (s, LoopAction::PollInput),
        }
    }
}

fn advance(s: &AgentLoop) -> (r: (AgentLoop, LoopAction))
    requires
        s.wf(),
        s.pair < s.n_pairs,
    ensures
        r.0.wf(),
        r.0.pair == s.pair + 1,
        r.0.cycle == s.cycle,
        r.0.n_pairs == s.n_pairs,
        r.0.report_every == s.report_every,
        r.0.poll_interval_secs == s.poll_interval_secs,
        r.0.pair < s.n_pairs ==> r.1 == (LoopAction::FetchPair { index: r.0.pair }),
        r.0.pair == s.n_pairs ==> r.1 is RefreshPortfolio,
        r == spec_advance(*s),
{
    let next = s.pair + 1;
    if next < s.n_pairs {
        (AgentLoop { pair: next, phase: Phase::Fetching, ..*s }, LoopAction::FetchPair { index: next })
    } else {
        (AgentLoop { pair: next, phase: Phase::Closing, ..*s }, LoopAction::RefreshPortfolio)
    }
}

/// The next state and action after the program reports `ev`.
pub fn next_step(s: &AgentLoop, ev: LoopEvent) -> (r: (AgentLoop, LoopAction))
    requires
        s.wf(),
        s.accepts(ev),
    ensures
        r == spec_next_step(*s, ev),
        r.0.wf(),
        r.0.n_pairs == s.n_pairs,
        r.0.report_every == s.report_every,
        r.0.poll_interval_secs == s.poll_interval_secs,
        // A quit key or the shutdown signal stops the loop at once, saving the final report.
        (ev is QuitKey || ev is ShutdownSignal) ==> r.1 == (LoopAction::Stop { save_final_report: true })
            && r.0.stopped(),
        r.1 is Stop ==> (ev is QuitKey || ev is ShutdownSignal),
        // Every cycle starts by re-arming the dead man's switch, and only a cycle start does.
        s.at_cycle_start() && !(ev is QuitKey || ev is ShutdownSignal) ==> r.1 is ArmDeadMansSwitch
            && r.0.cycle == s.cycle + 1 && r.0.pair == 0,
        r.1 is ArmDeadMansSwitch ==> s.at_cycle_start(),
        !(r.1 is ArmDeadMansSwitch) ==> r.0.cycle == s.cycle,
        // Only a verdict that permits trading reaches the decision and the executor.
        r.1 is DecideAndExecute ==> ev == (LoopEvent::Verdict { can_trade: true }),
        ev == (LoopEvent::Verdict { can_trade: true }) ==> r.1 == (LoopAction::DecideAndExecute {
            index: s.pair,
        }),
        // A failed fetch skips the pair.
        ev is FetchFailed ==> r.0.pair == s.pair + 1 || r.1 is Summarize,
        // The report is saved on every `report_every`-th cycle.
        r.1 matches LoopAction::Summarize { save_report } ==> save_report == (r.0.cycle
            % r.0.report_every == 0),
        // Actions on a pair name the current pair, which exists.
        r.1 matches LoopAction::FetchPair { index } ==> index == r.0.pair && index < r.0.n_pairs,
        r.1 matches LoopAction::Evaluate { index } ==> index == r.0.pair && index < r.0.n_pairs,
        r.1 matches LoopAction::CheckExits { index } ==> index == r.0.pair && index < r.0.n_pairs,
        r.1 matches LoopAction::DecideAndExecute { index } ==> index == r.0.pair && index
            < r.0.n_pairs,
        // Sleep comes one second at a time.
        r.1 matches LoopAction::Sleep { secs } ==> secs == 1,
        // Each pair is evaluated once fetched, and its exits checked once evaluated.
        s.phase is Fetching && ev is Fetched ==> r.1 == (LoopAction::Evaluate { index: s.pair }),
        s.phase is Evaluating && ev is Evaluated ==> r.1 == (LoopAction::CheckExits { index: s.pair }),
        // After arming comes the portfolio refresh; after the closing refresh, the summary.
        s.phase is Arming && ev is Tick ==> r.1 is RefreshPortfolio,
        s.phase is Closing && ev is Tick ==> r.1 is Summarize,
        s.phase is Summarizing && ev is Tick ==> r.1 is Render,
        s.phase is Rendering && ev is Rendered ==> (s.poll_interval_secs > 0 ==> r.1 is Sleep) && (
        s.poll_interval_secs == 0 ==> r.1 is PollInput && r.0.at_cycle_start()),
{
    match ev {
        LoopEvent::QuitKey | LoopEvent::ShutdownSignal => {
            return (
                AgentLoop { phase: Phase::Stopped, ..*s },
                LoopAction::Stop { save_final_report: true },
            );
        },
        _ => {},
    }
    match s.phase {
        Phase::CycleStart => (
            AgentLoop { cycle: s.cycle + 1, pair: 0, phase: Phase::Arming, ..*s },
            LoopAction::ArmDeadMansSwitch,
        ),
        Phase::Arming => (AgentLoop { phase: Phase::Refreshing, ..*s }, LoopAction::RefreshPortfolio),
        Phase::Refreshing => {
            if s.n_pairs > 0 {
                (
                    AgentLoop { pair: 0, phase: Phase::Fetching, ..*s },
                    LoopAction::FetchPair { index: 0 },
                )
            } else {
                (AgentLoop { phase: Phase::Closing, ..*s }, LoopAction::RefreshPortfolio)
            }
        },
        Phase::Fetching => {
            if ev == LoopEvent::Fetched {
                (
                    AgentLoop { phase: Phase::Evaluating, ..*s },
                    LoopAction::Evaluate { index: s.pair },
                )
            } else {
                advance(s)
            }
        },
        Phase::Evaluating => (
            AgentLoop { phase: Phase::CheckingExits, ..*s },
            LoopAction::CheckExits { index: s.pair },
        ),
        Phase::CheckingExits => {
            if ev == (LoopEvent::Verdict { can_trade: true }) {
                (
                    AgentLoop { phase: Phase::Executing, ..*s },
                    LoopAction::DecideAndExecute { index: s.pair },
                )
            } else {
                advance(s)
            }
        },
        Phase::Executing => advance(s),
        Phase::Closing => (
            AgentLoop { phase: Phase::Summarizing, ..*s },
            LoopAction::Summarize { save_report: s.cycle % s.report_every == 0 },
        ),
        Phase::Summarizing => (AgentLoop { phase: Phase::Rendering, ..*s }, LoopAction::Render),
        Phase::Rendering | Phase::Sleeping { .. } => {
            let left = match s.phase {
                Phase::Sleeping { left } => left,
                _ => s.poll_interval_secs,
            };
            if left > 0 {
                (
                    AgentLoop { phase: Phase::Sleeping { left: (left - 1) as u64 }, ..*s },
                    LoopAction::Sleep { secs: 1 },
                )
            } else {
                (AgentLoop { phase: Phase::CycleStart, ..*s }, LoopAction::PollInput)
            }
        },
        Phase::Stopped => (*s, LoopAction::PollInput),
    }
}

/// Every pair of a cycle gets its turn: whenever the work on a pair ends
/// (its fetch failed, its verdict does not permit trading, or its decision
/// was executed) the next pair is fetched, and the closing portfolio refresh
/// comes only after the last pair.
pub proof fn law_pairs_in_turn(s: AgentLoop, ev: LoopEvent)
    requires
        s.wf(),
        (s.phase is Fetching && ev is FetchFailed) || (s.phase is CheckingExits && ev == (LoopEvent::Verdict {
            can_trade: false,
        })) || (s.phase is Executing && ev is PairDone),
    ensures
        spec_next_step(s, ev).0.pair == s.pair + 1,
        spec_next_step(s, ev).0.cycle == s.cycle,
        s.pair + 1 < s.n_pairs ==> spec_next_step(s, ev).1 == (LoopAction::FetchPair {
            index: (s.pair + 1) as usize,
        }),
        s.pair + 1 == s.n_pairs ==> spec_next_step(s, ev).1 == LoopAction::RefreshPortfolio,
{
}

/// The closing refresh of a cycle is only ever chosen when no pair is left:
/// from a pair phase, `RefreshPortfolio` comes only after the last pair.
pub proof fn law_closing_refresh_after_last_pair(s: AgentLoop, ev: LoopEvent)
    requires
        s.wf(),
        s.accepts(ev),
        s.phase is Fetching || s.phase is Evaluating || s.phase is CheckingExits || s.phase is Executing,
        spec_next_step(s, ev).1 is RefreshPortfolio,
    ensures
        s.pair + 1 == s.n_pairs,
        spec_next_step(s, ev).0.pair == s.n_pairs,
{
}

} // verus!
