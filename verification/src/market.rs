//! The Kraken CLI protocol: the command lines the agent runs, how a reply is
//! judged, and what the market data is trimmed to.
use vstd::prelude::*;

use crate::text::{
    contains, contains_seq, occurs_at, decimal, decimal_string, signed_decimal, signed_decimal_string, trim_window,
    trim_ws,
};

verus! {

/// Exchange status as the CLI reports it.
#[derive(Clone, Debug)]
pub struct SystemStatus {
    pub status: String,
    pub timestamp: Option<String>,
}

/// A request to the Kraken CLI.
#[derive(Clone, Debug)]
pub enum KrakenCommand {
    Status,
    Ticker { pair: String },
    Ohlc { pair: String, interval_mins: u32 },
    /// `balance` is already formatted with two decimals.
    PaperInit { balance: String, currency: String },
    PaperStatus,
    PaperBalance,
    /// `volume` is already formatted with eight decimals.
    PaperBuy { pair: String, volume: String },
    PaperSell { pair: String, volume: String },
    PaperReset,
    PaperHistory,
    /// Arms the dead man's switch: open orders are cancelled after `seconds`.
    CancelAfter { seconds: u64 },
}

impl KrakenCommand {
    /// The words of the command, before the output-format flag.
    pub open spec fn spec_words(self) -> Seq<Seq<char>> {
        match self {
            KrakenCommand::Status => seq!["status"@],
            KrakenCommand::Ticker { pair } => seq!["ticker"@, pair@],
            KrakenCommand::Ohlc { pair, interval_mins } => seq![
                "ohlc"@,
                pair@,
                "--interval"@,
                decimal(interval_mins as nat),
            ],
            KrakenCommand::PaperInit { balance, currency } => seq![
                "paper"@,
                "init"@,
                "--balance"@,
                balance@,
                "--currency"@,
                currency@,
            ],
            KrakenCommand::PaperStatus => seq!["paper"@, "status"@],
            KrakenCommand::PaperBalance => seq!["paper"@, "balance"@],
            KrakenCommand::PaperBuy { pair, volume } => seq!["paper"@, "buy"@, pair@, volume@],
            KrakenCommand::PaperSell { pair, volume } => seq!["paper"@, "sell"@, pair@, volume@],
            KrakenCommand::PaperReset => seq!["paper"@, "reset"@],
            KrakenCommand::PaperHistory => seq!["paper"@, "history"@],
            KrakenCommand::CancelAfter { seconds } => seq![
                "order"@,
                "cancel-after"@,
                decimal(seconds as nat),
            ],
        }
    }

    /// The full argument list: the command words, then JSON output.
    pub open spec fn spec_args(self) -> Seq<Seq<char>> {
        self.spec_words() + seq!["-o"@, "json"@]
    }

    /// The argument list passed to the CLI.
    pub fn args(&self) -> (args: Vec<String>)
        ensures
            args@.map_values(|a: String| a@) == self.spec_args(),
    {
        let mut v: Vec<String> = Vec::new();
        match self {
            KrakenCommand::Status => {
                push_word(&mut v, "status");
            },
            KrakenCommand::Ticker { pair } => {
                push_word(&mut v, "ticker");
                push_word(&mut v, pair.as_str());
            },
            KrakenCommand::Ohlc { pair, interval_mins } => {
                push_word(&mut v, "ohlc");
                push_word(&mut v, pair.as_str());
                push_word(&mut v, "--interval");
                let interval = decimal_string(*interval_mins as u64);
                push_word(&mut v, interval.as_str());
            },
            KrakenCommand::PaperInit { balance, currency } => {
                push_word(&mut v, "paper");
                push_word(&mut v, "init");
                push_word(&mut v, "--balance");
                push_word(&mut v, balance.as_str());
                push_word(&mut v, "--currency");
                push_word(&mut v, currency.as_str());
            },
            KrakenCommand::PaperStatus => {
                push_word(&mut v, "paper");
                push_word(&mut v, "status");
            },
            KrakenCommand::PaperBalance => {
                push_word(&mut v, "paper");
                push_word(&mut v, "balance");
            },
            KrakenCommand::PaperBuy { pair, volume } => {
                push_word(&mut v, "paper");
                push_word(&mut v, "buy");
                push_word(&mut v, pair.as_str());
                push_word(&mut v, volume.as_str());
            },
            KrakenCommand::PaperSell { pair, volume } => {
                push_word(&mut v, "paper");
                push_word(&mut v, "sell");
                push_word(&mut v, pair.as_str());
                push_word(&mut v, volume.as_str());
            },
            KrakenCommand::PaperReset => {
                push_word(&mut v, "paper");
                push_word(&mut v, "reset");
            },
            KrakenCommand::PaperHistory => {
                push_word(&mut v, "paper");
                push_word(&mut v, "history");
            },
            KrakenCommand::CancelAfter { seconds } => {
                push_word(&mut v, "order");
                push_word(&mut v, "cancel-after");
                let secs = decimal_string(*seconds);
                push_word(&mut v, secs.as_str());
            },
        }
        push_word(&mut v, "-o");
        push_word(&mut v, "json");
        proof {
            assert(v@.map_values(|a: String| a@) =~= self.spec_args());
        }
        v
    }
}

fn push_word(v: &mut Vec<String>, w: &str)
    ensures
        final(v)@.map_values(|a: String| a@) == old(v)@.map_values(|a: String| a@).push(w@),
{
    v.push(String::from_str(w));
    proof {
        assert(final(v)@.map_values(|a: String| a@) =~= old(v)@.map_values(|a: String| a@).push(w@));
    }
}

/// The error that a CLI reply reports: "[category] message" when it carries a
/// text `error` field, with "unknown" standing for a missing text `message`.
pub open spec fn spec_reply_error(category: Option<Seq<char>>, message: Option<Seq<char>>) -> Option<Seq<char>> {
    match category {
        None => None,
        Some(c) => Some(
            "["@ + c + "] "@ + match message {
                Some(m) => m,
                None => "unknown"@,
            },
        ),
    }
}

pub fn reply_error(category: Option<&str>, message: Option<&str>) -> (e: Option<String>)
    ensures
        e matches Some(s) ==> spec_reply_error(
            match category { Some(c) => Some(c@), None => None },
            match message { Some(m) => Some(m@), None => None },
        ) == Some(s@),
        e is None <==> category is None,
{
    match category {
        None => None,
        Some(c) => {
            let mut s = String::from_str("[");
            s.append(c);
            s.append("] ");
            match message {
                Some(m) => s.append(m),
                None => s.append("unknown"),
            }
            Some(s)
        },
    }
}

/// The error for an empty reply, naming the exit code (-1 when the CLI was
/// ended by a signal).
pub open spec fn spec_empty_reply_message(exit_code: Option<i32>) -> Seq<char> {
    "Empty response from kraken CLI (exit "@ + signed_decimal(
        match exit_code {
            Some(c) => c as int,
            None => -1,
        },
    ) + ")"@
}

pub fn empty_reply_message(exit_code: Option<i32>) -> (s: String)
    ensures
        s@ == spec_empty_reply_message(exit_code),
{
    let code: i32 = match exit_code {
        Some(c) => c,
        None => -1,
    };
    let mut s = String::from_str("Empty response from kraken CLI (exit ");
    let digits = signed_decimal_string(code);
    s.append(digits.as_str());
    s.append(")");
    s
}

/// The command that re-arms the dead man's switch: open orders are cancelled
/// after `seconds` unless the switch is re-armed first.
pub fn dead_mans_switch_command(seconds: u64) -> (c: KrakenCommand)
    ensures
        c == (KrakenCommand::CancelAfter { seconds }),
{
    KrakenCommand::CancelAfter { seconds }
}

pub open spec fn opt_view(o: Option<String>) -> Option<Seq<char>> {
    match o {
        Some(s) => Some(s@),
        None => None,
    }
}

/// What `serde_json::from_str` makes of a reply text: `None` when it is not
/// JSON, otherwise the text values of its `error` and `message` fields (each
/// `None` when the field is missing or not a text).
pub uninterp spec fn reply_fields(text: Seq<char>) -> Option<(Option<Seq<char>>, Option<Seq<char>>)>;

/// Trusted: `serde_json::from_str::<serde_json::Value>` on the reply, then
/// `get` and `as_str` on its `error` and `message` fields.  The contract only
/// names the result (`reply_fields`); what counts as JSON is left unsaid.
#[verifier::external_body]
pub fn parse_reply(text: &str) -> (r: Option<(Option<String>, Option<String>)>)
    ensures
        r is None <==> reply_fields(text@) is None,
        r matches Some((e, m)) ==> reply_fields(text@) == Some((opt_view(e), opt_view(m))),
{
    match serde_json::from_str::<serde_json::Value>(text) {
        Ok(v) => Some((
            v.get("error").and_then(|x| x.as_str()).map(|x| x.to_string()),
            v.get("message").and_then(|x| x.as_str()).map(|x| x.to_string()),
        )),
        Err(_) => None,
    }
}

/// How the agent judges what the CLI printed.
#[derive(Clone, Debug)]
pub enum ReplyVerdict {
    /// Nothing but white space was printed.
    Empty { message: String },
    /// The output is not JSON.
    NotJson,
    /// The reply reports an error.
    Failed { message: String },
    /// A JSON reply without an error.
    Accepted,
}

/// Judges the standard output of the CLI (after white space is trimmed off):
/// an empty reply names the exit code, a reply that is not JSON is rejected,
/// and a JSON reply with a text `error` field is that error.
pub fn judge_reply(stdout: &str, exit_code: Option<i32>) -> (v: ReplyVerdict)
    ensures
        (v is Empty) <==> trim_ws(stdout@).len() == 0,
        v matches ReplyVerdict::Empty { message } ==> message@ == spec_empty_reply_message(exit_code),
        (v is NotJson) <==> trim_ws(stdout@).len() > 0 && reply_fields(trim_ws(stdout@)) is None,
        (v is Failed) <==> trim_ws(stdout@).len() > 0 && (reply_fields(trim_ws(stdout@)) matches Some((e, m))
            && e is Some),
        v matches ReplyVerdict::Failed { message } ==> (reply_fields(trim_ws(stdout@)) matches Some((e, m))
            && spec_reply_error(e, m) == Some(message@)),
        (v is Accepted) <==> trim_ws(stdout@).len() > 0 && (reply_fields(trim_ws(stdout@)) matches Some((e, m))
            && e is None),
{
    let n = stdout.unicode_len();
    proof {
        assert(stdout@.subrange(0, n as int) =~= stdout@);
    }
    let (lo, hi) = trim_window(stdout, 0, n);
    if lo == hi {
        return ReplyVerdict::Empty { message: empty_reply_message(exit_code) };
    }
    let text = stdout.substring_char(lo, hi);
    match parse_reply(text) {
        None => ReplyVerdict::NotJson,
        Some((e, m)) => {
            let ev = match &e {
                Some(x) => Some(x.as_str()),
                None => None,
            };
            let mv = match &m {
                Some(x) => Some(x.as_str()),
                None => None,
            };
            match reply_error(ev, mv) {
                Some(message) => ReplyVerdict::Failed { message },
                None => ReplyVerdict::Accepted,
            }
        },
    }
}

/// A JSON value of a CLI reply, carried through unread.
#[verifier::external_type_specification]
#[verifier::external_body]
pub struct ExJsonValue(serde_json::Value);

/// The shape of a `paper history` reply.
pub enum HistoryReply {
    /// The reply is a list of trades.
    List(Vec<serde_json::Value>),
    /// The reply is an object; `trades` is its `trades` field when that is a list.
    Record { trades: Option<Vec<serde_json::Value>> },
    /// Anything else.
    Other,
}

/// Trusted: tells the variants of a `serde_json::Value` apart, and for an
/// object reads its `trades` field with `get` and `as_array`.  Nothing is
/// stated of the result: the values are opaque to the library.
#[verifier::external_body]
pub fn history_reply(reply: serde_json::Value) -> HistoryReply {
    match reply {
        serde_json::Value::Array(items) => HistoryReply::List(items),
        serde_json::Value::Object(obj) => HistoryReply::Record {
            trades: obj.get("trades").and_then(|v| v.as_array()).cloned(),
        },
        _ => HistoryReply::Other,
    }
}

/// The trades of a `paper history` reply: the list itself, or the `trades`
/// list of an object, and none otherwise.
pub fn paper_history_items(reply: HistoryReply) -> (items: Vec<serde_json::Value>)
    ensures
        items@ == match reply {
            HistoryReply::List(l) => l@,
            HistoryReply::Record { trades: Some(t) } => t@,
            _ => Seq::empty(),
        },
{
    match reply {
        HistoryReply::List(l) => l,
        HistoryReply::Record { trades: Some(t) } => t,
        _ => Vec::new(),
    }
}

/// The dead man's switch is re-armed every cycle; an account without API
/// credentials cannot arm it, and that refusal (an error that mentions
/// "auth" or "Invalid key") is not an error of the agent.
pub open spec fn spec_switch_outcome(outcome: Result<(), Seq<char>>) -> Result<(), Seq<char>> {
    match outcome {
        Ok(()) => Ok(()),
        Err(m) => if contains_seq(m, "auth"@) || contains_seq(m, "Invalid key"@) {
            Ok(())
        } else {
            Err(m)
        },
    }
}

/// Judges the outcome of the cancel-after command (its error given by its message).
pub fn arm_dead_mans_switch(outcome: Result<(), String>) -> (r: Result<(), String>)
    ensures
        match r {
            Ok(()) => spec_switch_outcome(
                match outcome { Ok(()) => Ok(()), Err(m) => Err(m@) },
            ) == Ok::<(), Seq<char>>(()),
            Err(m) => spec_switch_outcome(
                match outcome { Ok(()) => Ok(()), Err(m) => Err(m@) },
            ) == Err::<(), Seq<char>>(m@),
        },
{
    match outcome {
        Ok(()) => Ok(()),
        Err(m) => {
            if contains(m.as_str(), "auth") || contains(m.as_str(), "Invalid key") {
                Ok(())
            } else {
                Err(m)
            }
        },
    }
}

/// At most the last `count` items, in their order.
pub open spec fn spec_keep_last<T>(items: Seq<T>, count: nat) -> Seq<T> {
    if items.len() > count {
        items.subrange(items.len() - count, items.len() as int)
    } else {
        items
    }
}

/// Keeps the newest `count` candles of a history.
pub fn keep_last<T>(items: Vec<T>, count: usize) -> (r: Vec<T>)
    ensures
        r@ == spec_keep_last(items@, count as nat),
{
    let mut items = items;
    if items.len() > count {
        let skip = items.len() - count;
        items.split_off(skip)
    } else {
        items
    }
}

/// Every command asks the CLI for JSON output: its last two arguments are
/// "-o" and "json", after the command words.
pub proof fn law_commands_ask_for_json(cmd: KrakenCommand)
    ensures
        cmd.spec_args().len() == cmd.spec_words().len() + 2,
        cmd.spec_args()[cmd.spec_args().len() - 2] == "-o"@,
        cmd.spec_args().last() == "json"@,
        cmd.spec_args().subrange(0, cmd.spec_words().len() as int) == cmd.spec_words(),
{
    assert(cmd.spec_args().subrange(0, cmd.spec_words().len() as int) =~= cmd.spec_words());
}

/// The trimmed history holds the newest `min(len, count)` items, in order.
pub proof fn law_keep_last<T>(items: Seq<T>, count: nat)
    ensures
        spec_keep_last(items, count).len() == if items.len() > count { count } else { items.len() },
        forall|i: int|
            0 <= i < spec_keep_last(items, count).len() ==> #[trigger] spec_keep_last(items, count)[i]
                == items[items.len() - spec_keep_last(items, count).len() + i],
{
}

/// The full command line of every request: the paper orders name their
/// side ("buy" or "sell") right after "paper", then the pair and the volume;
/// every line ends with "-o json".
pub proof fn law_command_lines(cmd: KrakenCommand)
    ensures
        cmd.spec_args() == match cmd {
            KrakenCommand::Status => seq!["status"@, "-o"@, "json"@],
            KrakenCommand::Ticker { pair } => seq!["ticker"@, pair@, "-o"@, "json"@],
            KrakenCommand::Ohlc { pair, interval_mins } => seq![
                "ohlc"@,
                pair@,
                "--interval"@,
                decimal(interval_mins as nat),
                "-o"@,
                "json"@,
            ],
            KrakenCommand::PaperInit { balance, currency } => seq![
                "paper"@,
                "init"@,
                "--balance"@,
                balance@,
                "--currency"@,
                currency@,
                "-o"@,
                "json"@,
            ],
            KrakenCommand::PaperStatus => seq!["paper"@, "status"@, "-o"@, "json"@],
            KrakenCommand::PaperBalance => seq!["paper"@, "balance"@, "-o"@, "json"@],
            KrakenCommand::PaperBuy { pair, volume } => seq![
                "paper"@,
                "buy"@,
                pair@,
                volume@,
                "-o"@,
                "json"@,
            ],
            KrakenCommand::PaperSell { pair, volume } => seq![
                "paper"@,
                "sell"@,
                pair@,
                volume@,
                "-o"@,
                "json"@,
            ],
            KrakenCommand::PaperReset => seq!["paper"@, "reset"@, "-o"@, "json"@],
            KrakenCommand::PaperHistory => seq!["paper"@, "history"@, "-o"@, "json"@],
            KrakenCommand::CancelAfter { seconds } => seq![
                "order"@,
                "cancel-after"@,
                decimal(seconds as nat),
                "-o"@,
                "json"@,
            ],
        },
{
    assert(cmd.spec_args() =~= match cmd {
        KrakenCommand::Status => seq!["status"@, "-o"@, "json"@],
        KrakenCommand::Ticker { pair } => seq!["ticker"@, pair@, "-o"@, "json"@],
        KrakenCommand::Ohlc { pair, interval_mins } => seq![
            "ohlc"@,
            pair@,
            "--interval"@,
            decimal(interval_mins as nat),
            "-o"@,
            "json"@,
        ],
        KrakenCommand::PaperInit { balance, currency } => seq![
            "paper"@,
            "init"@,
            "--balance"@,
            balance@,
            "--currency"@,
            currency@,
            "-o"@,
            "json"@,
        ],
        KrakenCommand::PaperStatus => seq!["paper"@, "status"@, "-o"@, "json"@],
        KrakenCommand::PaperBalance => seq!["paper"@, "balance"@, "-o"@, "json"@],
        KrakenCommand::PaperBuy { pair, volume } => seq!["paper"@, "buy"@, pair@, volume@, "-o"@, "json"@],
        KrakenCommand::PaperSell { pair, volume } => seq!["paper"@, "sell"@, pair@, volume@, "-o"@, "json"@],
        KrakenCommand::PaperReset => seq!["paper"@, "reset"@, "-o"@, "json"@],
        KrakenCommand::PaperHistory => seq!["paper"@, "history"@, "-o"@, "json"@],
        KrakenCommand::CancelAfter { seconds } => seq![
            "order"@,
            "cancel-after"@,
            decimal(seconds as nat),
            "-o"@,
            "json"@,
        ],
    });
}

/// A buy and a sell of the same pair and volume are different command lines:
/// they differ exactly in the side word.
pub proof fn law_buy_and_sell_differ(pair: String, volume: String)
    ensures
        (KrakenCommand::PaperBuy { pair, volume }).spec_args()[1] == "buy"@,
        (KrakenCommand::PaperSell { pair, volume }).spec_args()[1] == "sell"@,
        (KrakenCommand::PaperBuy { pair, volume }).spec_args() != (KrakenCommand::PaperSell {
            pair,
            volume,
        }).spec_args(),
{
    law_command_lines(KrakenCommand::PaperBuy { pair, volume });
    law_command_lines(KrakenCommand::PaperSell { pair, volume });
    reveal_strlit("buy");
    reveal_strlit("sell");
    assert("buy"@.len() != "sell"@.len());
    assert((KrakenCommand::PaperBuy { pair, volume }).spec_args()[1] != (KrakenCommand::PaperSell {
        pair,
        volume,
    }).spec_args()[1]);
}

/// Re-arming the switch succeeds exactly when the command went through or its
/// error mentions "auth" or "Invalid key" (an account without credentials);
/// any other error comes back unchanged.
pub proof fn law_switch_tolerates_only_credential_errors(outcome: Result<(), Seq<char>>)
    ensures
        (spec_switch_outcome(outcome) is Ok) <==> match outcome {
            Ok(()) => true,
            Err(m) => (exists|i: int|
                0 <= i && i + 4 <= m.len() && #[trigger] m.subrange(i, i + 4) == "auth"@) || (exists|i: int|
                0 <= i && i + 11 <= m.len() && #[trigger] m.subrange(i, i + 11) == "Invalid key"@),
        },
        outcome matches Err(m) ==> (spec_switch_outcome(outcome) is Err ==> spec_switch_outcome(outcome)
            == Err::<(), Seq<char>>(m)),
{
    reveal_strlit("auth");
    reveal_strlit("Invalid key");
    assert("auth"@.len() == 4);
    assert("Invalid key"@.len() == 11);
    match outcome {
        Ok(()) => {},
        Err(m) => {
            if contains_seq(m, "auth"@) {
                let i = choose|i: int| occurs_at(m, "auth"@, i);
                assert(m.subrange(i, i + 4) == "auth"@);
            }
            if contains_seq(m, "Invalid key"@) {
                let i = choose|i: int| occurs_at(m, "Invalid key"@, i);
                assert(m.subrange(i, i + 11) == "Invalid key"@);
            }
            if exists|i: int| 0 <= i && i + 4 <= m.len() && #[trigger] m.subrange(i, i + 4) == "auth"@ {
                let i = choose|i: int| 0 <= i && i + 4 <= m.len() && #[trigger] m.subrange(i, i + 4) == "auth"@;
                assert(occurs_at(m, "auth"@, i));
            }
            if exists|i: int| 0 <= i && i + 11 <= m.len() && #[trigger] m.subrange(i, i + 11) == "Invalid key"@ {
                let i = choose|i: int|
                    0 <= i && i + 11 <= m.len() && #[trigger] m.subrange(i, i + 11) == "Invalid key"@;
                assert(occurs_at(m, "Invalid key"@, i));
            }
        },
    }
}

} // verus!
