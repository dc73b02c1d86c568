//! Trade decisions: the action vocabulary and the reading of the AI reply.
use vstd::prelude::*;

use crate::text::{
    lowercase_of, same_text, strip_prefixes, strip_prefixes_window, strip_suffixes,
    strip_suffixes_window, to_lowercase, trim_window, trim_ws,
};

verus! {

/// What the agent decided to do with a pair.
#[derive(Clone, Copy, Debug, PartialEq, Eq, Structural)]
pub enum Action {
    Buy,
    Sell,
    Hold,
}

impl Action {
    pub open spec fn spec_label(self) -> Seq<char> {
        match self {
            Action::Buy => "BUY"@,
            Action::Sell => "SELL"@,
            Action::Hold => "HOLD"@,
        }
    }

    /// The upper-case name shown in logs.
    pub fn label(&self) -> (s: &'static str)
        ensures
            s@ == self.spec_label(),
    {
        match self {
            Action::Buy => "BUY",
            Action::Sell => "SELL",
            Action::Hold => "HOLD",
        }
    }

    pub open spec fn spec_log_name(self) -> Seq<char> {
        match self {
            Action::Buy => "buy"@,
            Action::Sell => "sell"@,
            Action::Hold => "hold"@,
        }
    }

    /// The lower-case name recorded in the execution log.
    pub fn log_name(&self) -> (s: &'static str)
        ensures
            s@ == self.spec_log_name(),
    {
        match self {
            Action::Buy => "buy",
            Action::Sell => "sell",
            Action::Hold => "hold",
        }
    }
}

/// The action named in the AI reply: "buy" and "sell" in any letter case,
/// anything else holds.
pub open spec fn spec_action_from_reply(text: Seq<char>) -> Action {
    let lower = lowercase_of(text);
    if lower == "buy"@ {
        Action::Buy
    } else if lower == "sell"@ {
        Action::Sell
    } else {
        Action::Hold
    }
}

/// The action named by an already lower-cased reply field.
pub fn action_from_lowercase(lower: &str) -> (a: Action)
    ensures
        a == (if lower@ == "buy"@ {
            Action::Buy
        } else if lower@ == "sell"@ {
            Action::Sell
        } else {
            Action::Hold
        }),
{
    if same_text(lower, "buy") {
        Action::Buy
    } else if same_text(lower, "sell") {
        Action::Sell
    } else {
        Action::Hold
    }
}

pub fn parse_action(text: &str) -> (a: Action)
    ensures
        a == spec_action_from_reply(text@),
{
    let lower = to_lowercase(text);
    action_from_lowercase(lower.as_str())
}

/// The AI reply with surrounding white space and Markdown code fences removed:
/// trimmed, then every leading "```json", then every leading "```", then every
/// trailing "```" stripped, then trimmed again.
pub open spec fn spec_clean_reply(raw: Seq<char>) -> Seq<char> {
    trim_ws(
        strip_suffixes(strip_prefixes(strip_prefixes(trim_ws(raw), "```json"@), "```"@), "```"@),
    )
}

pub fn clean_reply(raw: &str) -> (s: String)
    ensures
        s@ == spec_clean_reply(raw@),
{
    let fence_json = "```json";
    let fence = "```";
    proof {
        reveal_strlit("```json");
        reveal_strlit("```");
    }
    let n = raw.unicode_len();
    proof {
        assert(raw@.subrange(0, n as int) =~= raw@);
    }
    let (lo, hi) = trim_window(raw, 0, n);
    let lo = strip_prefixes_window(raw, lo, hi, fence_json);
    let lo = strip_prefixes_window(raw, lo, hi, fence);
    let hi = strip_suffixes_window(raw, lo, hi, fence);
    let (a, b) = trim_window(raw, lo, hi);
    String::from_str(raw.substring_char(a, b))
}

} // verus!
