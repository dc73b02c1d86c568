//! Settings that the agent takes from its environment.
use vstd::prelude::*;

use crate::text::{lowercase_of, same_text, to_lowercase};

verus! {

/// The AI brain is on unless `AI_ENABLED` is set to "0" or to "false" in any
/// letter case (an unset or unreadable variable leaves it on).
pub open spec fn spec_ai_enabled(setting: Option<Seq<char>>) -> bool {
    match setting {
        None => true,
        Some(v) => v != "0"@ && lowercase_of(v) != "false"@,
    }
}

/// The AI brain stays on unless the setting (`raw`, and `lower`, its
/// lower-cased form) is "0" or "false".
pub fn ai_enabled_from(raw: &str, lower: &str) -> (b: bool)
    ensures
        b == (raw@ != "0"@ && lower@ != "false"@),
{
    !same_text(raw, "0") && !same_text(lower, "false")
}

/// Reads the `AI_ENABLED` setting (`None` when the variable is unset or unreadable).
pub fn ai_enabled_setting(setting: Option<&str>) -> (b: bool)
    ensures
        b == spec_ai_enabled(
            match setting {
                Some(v) => Some(v@),
                None => None,
            },
        ),
{
    match setting {
        None => true,
        Some(v) => {
            let lower = to_lowercase(v);
            ai_enabled_from(v, lower.as_str())
        },
    }
}

/// The Kraken CLI to run: the `KRAKEN_CLI_PATH` setting, or "kraken".
pub fn kraken_cli_setting(setting: Option<String>) -> (cli: String)
    ensures
        cli@ == match setting {
            Some(v) => v@,
            None => "kraken"@,
        },
{
    match setting {
        Some(v) => v,
        None => String::from_str("kraken"),
    }
}

} // verus!
