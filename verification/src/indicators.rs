//! Market-regime vocabulary shared by the indicator code and the risk guards.
use vstd::prelude::*;

verus! {

/// Volatility regime of a pair: where the current ATR stands against its
/// recent average (`Unknown` when there is no usable average).
#[derive(Clone, Copy, Debug, PartialEq, Eq, Structural)]
pub enum VolatilityRegime {
    Low,
    Normal,
    Elevated,
    Extreme,
    Unknown,
}

impl VolatilityRegime {
    pub open spec fn spec_label(self) -> Seq<char> {
        match self {
            VolatilityRegime::Low => "low"@,
            VolatilityRegime::Normal => "normal"@,
            VolatilityRegime::Elevated => "elevated"@,
            VolatilityRegime::Extreme => "extreme"@,
            VolatilityRegime::Unknown => "unknown"@,
        }
    }

    /// The lower-case name used in guard reasons.
    pub fn label(&self) -> (s: &'static str)
        ensures
            s@ == self.spec_label(),
    {
        match self {
            VolatilityRegime::Low => "low",
            VolatilityRegime::Normal => "normal",
            VolatilityRegime::Elevated => "elevated",
            VolatilityRegime::Extreme => "extreme",
            VolatilityRegime::Unknown => "unknown",
        }
    }
}

} // verus!
