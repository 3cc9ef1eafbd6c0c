//! The activation gate and the scoring fallback rules.
//!
//! Scores travel as thousandths (milli-units) of the unit interval, so the
//! gate is exact integer arithmetic: a score of 0.59 is `590`, the activation
//! threshold of 0.6 is `600`.

use vstd::prelude::*;
use crate::text::str_eq;

verus! {

/// The activation threshold, in milli-units: artifacts scoring strictly below
/// this are discarded.
pub const ACTIVATION_THRESHOLD_MILLI: u32 = 600;

/// Lifecycle outcome of the shared activation gate.
#[derive(PartialEq, Eq, Structural, Clone, Copy, Debug)]
pub enum LifecycleAction {
    Activated,
    Discarded,
}

/// The single gate shared by ordinary and self-upgrade lifecycle handling:
/// discard exactly when the recommendation is `"discard"` or the score lies
/// strictly below the activation threshold.
pub open spec fn spec_gate_discards(recommendation: Seq<char>, score_milli: u32) -> bool {
    recommendation == "discard"@ || score_milli < ACTIVATION_THRESHOLD_MILLI
}

/// Apply the activation gate.
pub fn lifecycle_decision(recommendation: &str, score_milli: u32) -> (r: LifecycleAction)
    ensures
        (r == LifecycleAction::Discarded) == spec_gate_discards(recommendation@, score_milli),
{
    if str_eq(recommendation, "discard") || score_milli < ACTIVATION_THRESHOLD_MILLI {
        LifecycleAction::Discarded
    } else {
        LifecycleAction::Activated
    }
}

/// A scoring outcome: the recommendation and the score in thousandths.
#[derive(Debug)]
pub struct ScoringVerdict {
    pub recommendation: String,
    pub score_milli: u32,
}

} // verus!
