//! Instrumentation of agent turns: counters kept across turns.
use vstd::prelude::*;
use crate::soul::TurnResult;

verus! {

/// Counts turns and model steps across turns, and the tokens the provider
/// reported. The counters wrap around on overflow.
#[derive(Debug)]
pub struct MetricsHook {
    pub total_input_tokens: usize,
    pub total_output_tokens: usize,
    pub total_steps: usize,
    pub turn_count: usize,
}

/// `a + b`, wrapped around to a `usize`.
pub open spec fn wrapping_sum(a: usize, b: usize) -> usize {
    if a + b <= usize::MAX {
        (a + b) as usize
    } else {
        (a + b - usize::MAX - 1) as usize
    }
}

/// `a + b` wrapped around on overflow.
fn wrapping_add(a: usize, b: usize) -> (r: usize)
    ensures
        r == wrapping_sum(a, b),
{
    if a <= usize::MAX - b {
        a + b
    } else {
        b - (usize::MAX - a) - 1
    }
}

impl MetricsHook {
    /// All counters at zero.
    pub fn new() -> (r: MetricsHook)
        ensures
            r.total_input_tokens == 0,
            r.total_output_tokens == 0,
            r.total_steps == 0,
            r.turn_count == 0,
    {
        MetricsHook { total_input_tokens: 0, total_output_tokens: 0, total_steps: 0, turn_count: 0 }
    }

    /// Called after each turn: one more turn, and the turn's steps added to
    /// the step total. The token totals are left as they are.
    pub fn post_turn(&mut self, result: &TurnResult)
        ensures
            final(self).turn_count == wrapping_sum(old(self).turn_count, 1),
            final(self).total_steps == wrapping_sum(old(self).total_steps, result.steps_taken),
            final(self).total_input_tokens == old(self).total_input_tokens,
            final(self).total_output_tokens == old(self).total_output_tokens,
    {
        self.turn_count = wrapping_add(self.turn_count, 1);
        self.total_steps = wrapping_add(self.total_steps, result.steps_taken);
    }
}

} // verus!
