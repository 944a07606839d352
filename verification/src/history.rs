//! The bounded log of positions the head has left behind.
//!
//! Body segments trail the head by replaying this log: the newest entry is at
//! the front, and entry `i` is where the head stood `i + 1` steps ago.

use std::collections::VecDeque;
use vstd::prelude::*;

use crate::grid::GridPosition;

verus! {

/// Most entries the log keeps. Once it is full, recording a position drops
/// the oldest one.
pub const MAX_HISTORY: usize = 1000;

/// What a log holding `log` holds after `position` is recorded: the new
/// entry in front, and the oldest entry gone if that made it too long.
pub open spec fn recorded(log: Seq<GridPosition>, position: GridPosition) -> Seq<GridPosition> {
    let grown = seq![position] + log;
    if grown.len() > MAX_HISTORY {
        grown.drop_last()
    } else {
        grown
    }
}

/// Past head positions, newest first, never more than `MAX_HISTORY` of them.
pub struct PositionHistory(VecDeque<GridPosition>);

impl View for PositionHistory {
    type V = Seq<GridPosition>;

    closed spec fn view(&self) -> Seq<GridPosition> {
        self.0@
    }
}

impl Default for PositionHistory {
    /// An empty log.
    fn default() -> (history: PositionHistory)
        ensures
            history@ == Seq::<GridPosition>::empty(),
            history.wf(),
    {
        PositionHistory::new()
    }
}

impl PositionHistory {
    /// The log respects its capacity.
    pub open spec fn wf(&self) -> bool {
        self@.len() <= MAX_HISTORY
    }

    /// An empty log.
    pub fn new() -> (history: PositionHistory)
        ensures
            history@ == Seq::<GridPosition>::empty(),
            history.wf(),
    {
        PositionHistory(VecDeque::new())
    }

    /// Number of recorded positions.
    pub fn len(&self) -> (n: usize)
        ensures
            n == self@.len(),
    {
        self.0.len()
    }

    /// Whether nothing has been recorded.
    pub fn is_empty(&self) -> (empty: bool)
        ensures
            empty == (self@.len() == 0),
    {
        self.0.len() == 0
    }

    /// The entry `index` places behind the newest one, if the log reaches
    /// that far back.
    pub fn get(&self, index: usize) -> (entry: Option<GridPosition>)
        ensures
            entry == (if index < self@.len() {
                Some(self@[index as int])
            } else {
                None::<GridPosition>
            }),
    {
        if index < self.0.len() {
            Some(self.0[index])
        } else {
            None
        }
    }

    /// The most recently recorded position.
    pub fn front(&self) -> (entry: Option<GridPosition>)
        ensures
            entry == (if self@.len() > 0 {
                Some(self@[0])
            } else {
                None::<GridPosition>
            }),
    {
        self.get(0)
    }

    /// Puts `position` at the front and drops the oldest entry if the log
    /// has outgrown its capacity.
    pub fn record(&mut self, position: GridPosition)
        ensures
            final(self)@ == recorded(old(self)@, position),
            old(self).wf() ==> final(self).wf(),
    {
        self.0.push_front(position);
        if self.0.len() > MAX_HISTORY {
            let _ = self.0.pop_back();
        }
    }

    /// Forgets every recorded position.
    pub fn clear(&mut self)
        ensures
            final(self)@ == Seq::<GridPosition>::empty(),
            final(self).wf(),
    {
        self.0.clear();
    }
}

/// Recording puts the new position in front and moves every entry that is
/// kept one place back.
pub proof fn lemma_recorded_shifts(log: Seq<GridPosition>, position: GridPosition)
    ensures
        recorded(log, position).len() >= 1,
        recorded(log, position)[0] == position,
        forall|i: int|
            1 <= i < recorded(log, position).len() ==> #[trigger] recorded(log, position)[i]
                == log[i - 1],
{
}

/// A log within its capacity stays within it, never shrinks when a position
/// is recorded, and grows by one entry until it is full.
pub proof fn lemma_recorded_len(log: Seq<GridPosition>, position: GridPosition)
    requires
        log.len() <= MAX_HISTORY,
    ensures
        recorded(log, position).len() <= MAX_HISTORY,
        recorded(log, position).len() >= log.len(),
        log.len() < MAX_HISTORY ==> recorded(log, position).len() == log.len() + 1,
        log.len() == MAX_HISTORY ==> recorded(log, position).len() == MAX_HISTORY,
{
}

} // verus!
