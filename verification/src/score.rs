//! The score of a run.

use vstd::prelude::*;

verus! {

/// Number of pieces of food eaten in the current run.
#[derive(Clone, Copy, Debug, PartialEq, Eq, Structural)]
pub struct Score(pub u32);

/// The count one above `value`, or `value` itself where the counter is full.
pub open spec fn incremented(value: u32) -> u32 {
    if value < u32::MAX {
        (value + 1) as u32
    } else {
        value
    }
}

/// Whether `best` is the score shown when a run is over: the highest of
/// `scores`, or zero if there are none.
pub open spec fn is_best(scores: Seq<Score>, best: u32) -> bool {
    &&& forall|i: int| 0 <= i < scores.len() ==> (#[trigger] scores[i]).0 <= best
    &&& best == 0 || exists|i: int| 0 <= i < scores.len() && (#[trigger] scores[i]).0 == best
}

impl Score {
    /// The score at the start of a run.
    pub fn new() -> (score: Score)
        ensures
            score.0 == 0,
    {
        Score(0)
    }

    /// The current count.
    pub fn value(&self) -> (value: u32)
        ensures
            value == self.0,
    {
        self.0
    }

    /// Counts one more piece of food. A counter that is full stays full.
    pub fn increment(&mut self)
        ensures
            final(self).0 == incremented(old(self).0),
            final(self).0 >= old(self).0,
    {
        self.0 = self.0.saturating_add(1);
    }

    /// Starts counting again from zero.
    pub fn reset(&mut self)
        ensures
            final(self).0 == 0,
    {
        self.0 = 0;
    }
}

/// The score to show when a run is over: the highest of `scores`, or zero if
/// there are none.
pub fn best_score(scores: &Vec<Score>) -> (best: u32)
    ensures
        is_best(scores@, best),
{
    let mut best: u32 = 0;
    let mut i: usize = 0;
    while i < scores.len()
        invariant
            i <= scores.len(),
            is_best(scores@.take(i as int), best),
        decreases scores.len() - i,
    {
        let ghost before = scores@.take(i as int);
        let ghost after = scores@.take(i + 1);
        let ghost previous = best;
        if scores[i].0 > best {
            best = scores[i].0;
        }
        proof {
            assert(forall|j: int| 0 <= j < i ==> after[j] == #[trigger] before[j]);
            if best != previous {
                assert(after[i as int].0 == best);
            } else if previous != 0 {
                let j = choose|j: int| 0 <= j < before.len() && (#[trigger] before[j]).0 == previous;
                assert(after[j].0 == best);
            }
            assert forall|j: int| 0 <= j < after.len() implies (#[trigger] after[j]).0 <= best by {
                if j < i {
                    assert(before[j].0 <= previous);
                }
            }
        }
        i += 1;
    }
    assert(scores@.take(scores.len() as int) =~= scores@);
    best
}

/// Only one value is the best of a given list of scores.
pub proof fn lemma_best_is_unique(scores: Seq<Score>, a: u32, b: u32)
    requires
        is_best(scores, a),
        is_best(scores, b),
    ensures
        a == b,
{
}

/// Counting never lowers the score, and raises it by exactly one unless the
/// counter is full.
pub proof fn lemma_incremented(value: u32)
    ensures
        incremented(value) >= value,
        value < u32::MAX ==> incremented(value) == value + 1,
        value == u32::MAX ==> incremented(value) == value,
{
}

} // verus!
