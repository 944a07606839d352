//! The snake: steering, stepping along the grid, trailing body segments and
//! growth.

use vstd::prelude::*;

use crate::grid::{Direction, GridPosition};
use crate::history::{recorded, PositionHistory};
use crate::timer::{CooldownTimer, MOVE_PERIOD};

verus! {

/// The directional keys that went down since the previous frame.
#[derive(Clone, Copy, Debug, PartialEq, Eq, Structural)]
pub struct DirectionKeys {
    pub left: bool,
    pub right: bool,
    pub up: bool,
    pub down: bool,
}

/// The head of the snake: where it is, where it is going, and how long until
/// its next step.
#[derive(Clone, Copy, Debug, PartialEq, Eq, Structural)]
pub struct SnakeHead {
    pub direction: Direction,
    pub next_move_timer: CooldownTimer,
    pub position: GridPosition,
}

/// Positions of the body segments, the one closest to the head first.
#[derive(Debug)]
pub struct SnakeSegments(pub Vec<GridPosition>);

impl View for SnakeSegments {
    type V = Seq<GridPosition>;

    open spec fn view(&self) -> Seq<GridPosition> {
        self.0@
    }
}

/// The direction a head travelling in `current` takes up when `keys` went
/// down. Keys are looked at in the order left, right, up, down; the first one
/// that does not ask the head to turn around wins, and with none the head
/// keeps its course.
pub open spec fn steered(current: Direction, keys: DirectionKeys) -> Direction {
    if keys.left && current != Direction::Right {
        Direction::Left
    } else if keys.right && current != Direction::Left {
        Direction::Right
    } else if keys.up && current != Direction::Down {
        Direction::Up
    } else if keys.down && current != Direction::Up {
        Direction::Down
    } else {
        current
    }
}

/// The direction reached from `start` after the frames of `inputs`, oldest
/// first, have been applied one after the other.
pub open spec fn steered_through(start: Direction, inputs: Seq<DirectionKeys>) -> Direction
    decreases inputs.len(),
{
    if inputs.len() == 0 {
        start
    } else {
        steered(steered_through(start, inputs.drop_last()), inputs.last())
    }
}

/// The segments after they have been placed along `history`: segment `i`
/// takes entry `i`, and a segment the log does not reach stays where it is.
pub open spec fn resynced(segments: Seq<GridPosition>, history: Seq<GridPosition>) -> Seq<
    GridPosition,
> {
    Seq::new(
        segments.len(),
        |i: int|
            if i < history.len() {
                history[i]
            } else {
                segments[i]
            },
    )
}

/// The segments after one growth request: a new last segment at the newest
/// log entry that no segment occupies yet, or no change if every entry is
/// taken.
pub open spec fn grown(segments: Seq<GridPosition>, history: Seq<GridPosition>) -> Seq<
    GridPosition,
> {
    if segments.len() < history.len() {
        segments.push(history[segments.len() as int])
    } else {
        segments
    }
}

impl DirectionKeys {
    /// No key went down.
    pub fn none() -> (keys: DirectionKeys)
        ensures
            !keys.left,
            !keys.right,
            !keys.up,
            !keys.down,
    {
        DirectionKeys { left: false, right: false, up: false, down: false }
    }
}

impl SnakeHead {
    /// A head at the centre of the playfield, heading right, with a full
    /// movement period ahead of it.
    pub open spec fn spec_new() -> SnakeHead {
        SnakeHead {
            direction: Direction::Right,
            next_move_timer: CooldownTimer { period: MOVE_PERIOD, elapsed: 0 },
            position: GridPosition::spec_origin(),
        }
    }

    /// A head at the centre of the playfield, heading right, with a full
    /// movement period ahead of it.
    #[verifier::when_used_as_spec(spec_new)]
    pub fn new() -> (head: SnakeHead)
        ensures
            head == SnakeHead::spec_new(),
    {
        SnakeHead {
            direction: Direction::Right,
            next_move_timer: CooldownTimer::new(MOVE_PERIOD),
            position: GridPosition::origin(),
        }
    }

    /// Whether letting `dt` pass makes the head take a step.
    pub open spec fn steps_after(self, dt: int) -> bool {
        self.next_move_timer.fires_after(dt)
    }

    /// Whether the head can let `dt` pass: either it stays put, or the cell
    /// it steps into can be represented.
    pub open spec fn spec_can_advance(self, dt: int) -> bool {
        self.steps_after(dt) ==> self.position.spec_can_step(self.direction)
    }

    /// Tests whether the head can let `dt` pass.
    pub fn can_advance(&self, dt: u64) -> (possible: bool)
        ensures
            possible == self.spec_can_advance(dt as int),
    {
        !self.next_move_timer.will_fire(dt) || self.position.can_step(self.direction)
    }
}

impl SnakeSegments {
    /// A snake without a body.
    pub fn new() -> (segments: SnakeSegments)
        ensures
            segments@ == Seq::<GridPosition>::empty(),
    {
        SnakeSegments(Vec::new())
    }

    /// Number of segments.
    pub fn len(&self) -> (n: usize)
        ensures
            n == self@.len(),
    {
        self.0.len()
    }

    /// Position of the segment `index` places behind the head.
    pub fn get(&self, index: usize) -> (position: Option<GridPosition>)
        ensures
            position == (if index < self@.len() {
                Some(self@[index as int])
            } else {
                None::<GridPosition>
            }),
    {
        if index < self.0.len() {
            Some(self.0[index])
        } else {
            None
        }
    }
}

/// Applies the directional keys of one frame to the head. A key that asks the
/// head to turn around on the spot is ignored; an accepted change shows in
/// the next step the head takes.
pub fn player_input(keys: DirectionKeys, head: &mut SnakeHead)
    ensures
        final(head).direction == steered(old(head).direction, keys),
        final(head).direction != old(head).direction.spec_opposite(),
        final(head).next_move_timer == old(head).next_move_timer,
        final(head).position == old(head).position,
{
    if keys.left && head.direction != Direction::Right {
        head.direction = Direction::Left;
    } else if keys.right && head.direction != Direction::Left {
        head.direction = Direction::Right;
    } else if keys.up && head.direction != Direction::Down {
        head.direction = Direction::Up;
    } else if keys.down && head.direction != Direction::Up {
        head.direction = Direction::Down;
    }
}

/// Places every segment on the log entry that belongs to it.
pub fn resync_segments(segments: &mut SnakeSegments, history: &PositionHistory)
    ensures
        final(segments)@ == resynced(old(segments)@, history@),
{
    let count: usize = segments.0.len();
    let mut i: usize = 0;
    while i < count
        invariant
            i <= count,
            segments@.len() == count,
            old(segments)@.len() == count,
            forall|j: int|
                0 <= j < i ==> #[trigger] segments@[j] == resynced(old(segments)@, history@)[j],
            forall|j: int| i <= j < count ==> #[trigger] segments@[j] == old(segments)@[j],
        decreases count - i,
    {
        match history.get(i) {
            Some(position) => {
                segments.0.set(i, position);
            },
            None => {},
        }
        i += 1;
    }
    assert(segments@ =~= resynced(old(segments)@, history@));
}

/// Serves one growth request. If the log holds an entry that no segment
/// occupies yet, a new last segment is created there and its position is
/// returned; otherwise the request is dropped and nothing changes.
pub fn grow_snake(segments: &mut SnakeSegments, history: &PositionHistory) -> (added: Option<
    GridPosition,
>)
    ensures
        final(segments)@ == grown(old(segments)@, history@),
        added == (if old(segments)@.len() < history@.len() {
            Some(history@[old(segments)@.len() as int])
        } else {
            None::<GridPosition>
        }),
        added is Some ==> final(segments)@.len() == old(segments)@.len() + 1,
        added is Some ==> final(segments)@.last() == history@[old(segments)@.len() as int],
        old(segments)@.len() <= history@.len() ==> final(segments)@.len() <= history@.len(),
{
    match history.get(segments.0.len()) {
        Some(last_position) => {
            segments.0.push(last_position);
            Some(last_position)
        },
        None => None,
    }
}

/// Serves a growth request made by hand: grows the snake if the grow key
/// went down this frame.
pub fn grow_on_key(pressed: bool, segments: &mut SnakeSegments, history: &PositionHistory) -> (added:
    Option<GridPosition>)
    ensures
        final(segments)@ == (if pressed {
            grown(old(segments)@, history@)
        } else {
            old(segments)@
        }),
        added == (if pressed && old(segments)@.len() < history@.len() {
            Some(history@[old(segments)@.len() as int])
        } else {
            None::<GridPosition>
        }),
{
    if pressed {
        grow_snake(segments, history)
    } else {
        None
    }
}

/// Lets `dt` pass for the head. When its cooldown runs out the head takes one
/// step: the position it leaves is recorded, the head moves one cell in its
/// direction, every segment is placed on its log entry, and the cooldown
/// starts over. Returns whether a step was taken.
pub fn snake_movement_system(
    history: &mut PositionHistory,
    head: &mut SnakeHead,
    segments: &mut SnakeSegments,
    dt: u64,
) -> (stepped: bool)
    requires
        old(head).spec_can_advance(dt as int),
    ensures
        stepped == old(head).steps_after(dt as int),
        final(head).direction == old(head).direction,
        final(head).next_move_timer == old(head).next_move_timer.ticked(dt as int),
        stepped ==> final(history)@ == recorded(old(history)@, old(head).position),
        stepped ==> final(head).position == old(head).position.spec_step(old(head).direction),
        stepped ==> final(segments)@ == resynced(old(segments)@, final(history)@),
        !stepped ==> final(history)@ == old(history)@,
        !stepped ==> final(head).position == old(head).position,
        !stepped ==> final(segments)@ == old(segments)@,
        old(history).wf() ==> final(history).wf(),
        old(history).wf() ==> final(history)@.len() >= old(history)@.len(),
        final(segments)@.len() == old(segments)@.len(),
{
    if head.next_move_timer.tick(dt) {
        history.record(head.position);
        head.position = head.position.step(head.direction);
        resync_segments(segments, history);
        true
    } else {
        false
    }
}

/// No accepted change of direction turns the head around on the spot.
pub proof fn lemma_no_reversal(current: Direction, keys: DirectionKeys)
    ensures
        steered(current, keys) != current.spec_opposite(),
{
}

/// With no key down the head keeps its course.
pub proof fn lemma_idle_keeps_course(current: Direction, keys: DirectionKeys)
    requires
        !keys.left,
        !keys.right,
        !keys.up,
        !keys.down,
    ensures
        steered(current, keys) == current,
{
}

/// Over any run of frames, the direction after a frame is never the opposite
/// of the direction before it.
pub proof fn lemma_never_reverses(start: Direction, inputs: Seq<DirectionKeys>, frame: int)
    requires
        0 <= frame < inputs.len(),
    ensures
        steered_through(start, inputs.take(frame + 1)) == steered(
            steered_through(start, inputs.take(frame)),
            inputs[frame],
        ),
        steered_through(start, inputs.take(frame + 1)) != steered_through(
            start,
            inputs.take(frame),
        ).spec_opposite(),
{
    let upto = inputs.take(frame + 1);
    assert(upto.drop_last() =~= inputs.take(frame));
    assert(upto.last() == inputs[frame]);
}

/// A growth that succeeds adds exactly one segment, at the log entry whose
/// index is the number of segments there were, and leaves the others alone.
pub proof fn lemma_growth_adds_one(segments: Seq<GridPosition>, history: Seq<GridPosition>)
    requires
        segments.len() < history.len(),
    ensures
        grown(segments, history).len() == segments.len() + 1,
        grown(segments, history).last() == history[segments.len() as int],
        grown(segments, history).drop_last() == segments,
        grown(segments, history).len() <= history.len(),
{
    assert(grown(segments, history).drop_last() =~= segments);
}

/// A growth request made when every log entry is taken changes nothing.
pub proof fn lemma_growth_dropped(segments: Seq<GridPosition>, history: Seq<GridPosition>)
    requires
        segments.len() >= history.len(),
    ensures
        grown(segments, history) == segments,
{
}

/// After a step, a body that the log reaches lies on the log: segment `i` is
/// where the head stood `i + 1` steps ago.
pub proof fn lemma_resynced_follows_log(segments: Seq<GridPosition>, history: Seq<GridPosition>)
    requires
        segments.len() <= history.len(),
    ensures
        resynced(segments, history) == history.take(segments.len() as int),
{
    assert(resynced(segments, history) =~= history.take(segments.len() as int));
}

} // verus!
