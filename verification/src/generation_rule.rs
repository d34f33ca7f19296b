use vstd::prelude::*;

verus! {

/// One smoothing pass of the automaton: two thresholds and a repeat count.
///
/// A cell becomes a wall when the number of walls in its near window is at
/// least `rule_1`, or the number of walls in its far window is at most
/// `rule_2`. The pass is applied `times_to_apply` times in a row.
#[derive(Clone, Copy, Debug, PartialEq, Eq, Structural)]
pub struct GenerationRule {
    pub rule_1: i32,
    pub rule_2: i32,
    pub times_to_apply: i32,
}

impl GenerationRule {
    /// Builds a rule from its three numbers, unchanged.
    pub fn new(rule_1: i32, rule_2: i32, times_to_apply: i32) -> (rule: GenerationRule)
        ensures
            rule.rule_1 == rule_1,
            rule.rule_2 == rule_2,
            rule.times_to_apply == times_to_apply,
    {
        GenerationRule { rule_1, rule_2, times_to_apply }
    }

    /// A rule can be applied only a non-negative number of times.
    pub open spec fn is_valid(&self) -> bool {
        self.times_to_apply >= 0
    }

    /// How many transitions the rule stands for.
    pub open spec fn applications(&self) -> nat {
        if self.times_to_apply >= 0 {
            self.times_to_apply as nat
        } else {
            0
        }
    }
}

} // verus!
