//! Session statistics for the reports.
use vstd::prelude::*;

use crate::risk::RiskLevel;

verus! {

/// Number of verdicts that stop trading outright (halts and cooldowns).
pub open spec fn count_halts(levels: Seq<RiskLevel>) -> nat
    decreases levels.len(),
{
    if levels.len() == 0 {
        0
    } else {
        count_halts(levels.drop_last()) + if levels.last() is Halt || levels.last() is Cooldown {
            1nat
        } else {
            0nat
        }
    }
}

proof fn lemma_count_halts_bounded(levels: Seq<RiskLevel>)
    ensures
        count_halts(levels) <= levels.len(),
    decreases levels.len(),
{
    if levels.len() > 0 {
        lemma_count_halts_bounded(levels.drop_last());
    }
}

/// How many of the latest verdicts (one level per pair) are halts or cooldowns.
pub fn risk_halts(levels: &Vec<RiskLevel>) -> (n: usize)
    ensures
        n == count_halts(levels@),
{
    let mut n: usize = 0;
    let mut i: usize = 0;
    while i < levels.len()
        invariant
            i <= levels.len(),
            n == count_halts(levels@.subrange(0, i as int)),
        decreases levels.len() - i,
    {
        proof {
            assert(levels@.subrange(0, i + 1).drop_last() =~= levels@.subrange(0, i as int));
            lemma_count_halts_bounded(levels@.subrange(0, i as int));
        }
        match levels[i] {
            RiskLevel::Halt | RiskLevel::Cooldown => {
                n = n + 1;
            },
            _ => {},
        }
        i = i + 1;
    }
    proof {
        assert(levels@.subrange(0, levels@.len() as int) =~= levels@);
    }
    n
}

} // verus!
