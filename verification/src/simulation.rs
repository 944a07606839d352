//! One run of the game: the head, its trail, the body, the score and the
//! food, advanced frame by frame.
//!
//! A frame is processed in a fixed order: the resolved input is applied, the
//! head moves if its cooldown has run out, a growth request made by hand is
//! served, the head is tested against the window, and the collision events
//! are resolved. Everything a frame does is finished before the caller
//! learns, from the report, whether the run is over.

use vstd::prelude::*;

use crate::collision::{eat_count, hits_boundary, outside, CollisionEvent, HEAD_HALF_EXTENT};
use crate::food::{food_spawned, spawn_food, within_inset, Food};
use crate::grid::{Bounds, GridPosition};
use crate::history::{recorded, PositionHistory, MAX_HISTORY};
use crate::score::{incremented, Score};
use crate::snake::{grown, resynced, steered, DirectionKeys, SnakeHead, SnakeSegments};

verus! {

/// The state of a run as plain mathematical values.
pub struct Snapshot {
    /// The head, once it has been placed.
    pub head: Option<SnakeHead>,
    /// Positions the head has left, newest first.
    pub history: Seq<GridPosition>,
    /// Positions of the body segments, the one closest to the head first.
    pub segments: Seq<GridPosition>,
    /// Pieces of food eaten so far.
    pub score: Score,
    /// The piece of food on the playfield, if one has been placed.
    pub food: Option<Food>,
}

/// What the resolved input of one frame asks of the snake.
#[derive(Clone, Copy, Debug, PartialEq, Eq, Structural)]
pub struct SnakeInput {
    /// Directional keys that went down this frame.
    pub keys: DirectionKeys,
    /// Whether the key that grows the snake by hand went down this frame.
    pub grow: bool,
}

/// What resolving the collision events of one frame did.
#[derive(Clone, Copy, Debug, PartialEq, Eq, Structural)]
pub struct CollisionReport {
    /// Events in which the snake ate.
    pub eats: usize,
    /// Growth requests issued, one for each such event.
    pub growth_requests: usize,
    /// Requests for a new piece of food issued, one for each such event.
    pub respawn_requests: usize,
}

/// What one frame did to the run.
#[derive(Clone, Copy, Debug, PartialEq, Eq, Structural)]
pub struct TickReport {
    /// Whether the head took a step.
    pub stepped: bool,
    /// Whether the head, after moving, reaches past the border of the window.
    pub hit_boundary: bool,
    /// What resolving the collision events did.
    pub collisions: CollisionReport,
}

impl Snapshot {
    /// Every segment has a log entry to sit on, and the log respects its
    /// capacity.
    pub open spec fn wf(self) -> bool {
        self.segments.len() <= self.history.len() <= MAX_HISTORY
    }

    /// The run before anything has happened: no head, no trail, no body, no
    /// food, and a score of zero.
    pub open spec fn initial() -> Snapshot {
        Snapshot {
            head: None,
            history: Seq::empty(),
            segments: Seq::empty(),
            score: Score(0),
            food: None,
        }
    }

    /// The run after the directional keys of a frame have been applied.
    pub open spec fn steer(self, keys: DirectionKeys) -> Snapshot {
        match self.head {
            Some(head) => Snapshot {
                head: Some(
                    SnakeHead {
                        direction: steered(head.direction, keys),
                        next_move_timer: head.next_move_timer,
                        position: head.position,
                    },
                ),
                history: self.history,
                segments: self.segments,
                score: self.score,
                food: self.food,
            },
            None => self,
        }
    }

    /// Whether letting `dt` pass makes the head take a step.
    pub open spec fn steps_after(self, dt: int) -> bool {
        self.head matches Some(head) && head.steps_after(dt)
    }

    /// Whether `dt` can pass: there is no head, or the head stays put, or the
    /// cell it steps into can be represented.
    pub open spec fn can_advance(self, dt: int) -> bool {
        self.head matches Some(head) ==> head.spec_can_advance(dt)
    }

    /// The run after `dt` has passed. Without a head nothing changes. With
    /// one, its cooldown moves on; if that makes it fire, the position the
    /// head leaves is recorded, the head moves one cell in its direction and
    /// the segments are placed along the log.
    pub open spec fn advance(self, dt: int) -> Snapshot {
        match self.head {
            Some(head) => {
                if head.steps_after(dt) {
                    let history = recorded(self.history, head.position);
                    Snapshot {
                        head: Some(
                            SnakeHead {
                                direction: head.direction,
                                next_move_timer: head.next_move_timer.ticked(dt),
                                position: head.position.spec_step(head.direction),
                            },
                        ),
                        history,
                        segments: resynced(self.segments, history),
                        score: self.score,
                        food: self.food,
                    }
                } else {
                    Snapshot {
                        head: Some(
                            SnakeHead {
                                direction: head.direction,
                                next_move_timer: head.next_move_timer.ticked(dt),
                                position: head.position,
                            },
                        ),
                        history: self.history,
                        segments: self.segments,
                        score: self.score,
                        food: self.food,
                    }
                }
            },
            None => self,
        }
    }

    /// The run after one growth request.
    pub open spec fn grow(self) -> Snapshot {
        Snapshot {
            head: self.head,
            history: self.history,
            segments: grown(self.segments, self.history),
            score: self.score,
            food: self.food,
        }
    }

    /// The run after a growth request made by hand, if there was one.
    pub open spec fn grow_if(self, requested: bool) -> Snapshot {
        if requested {
            self.grow()
        } else {
            self
        }
    }

    /// The run after the snake has eaten once, before new food is placed:
    /// the food is gone, the score has counted it, and one growth request
    /// has been served.
    pub open spec fn eat(self) -> Snapshot {
        Snapshot {
            head: self.head,
            history: self.history,
            segments: grown(self.segments, self.history),
            score: Score(incremented(self.score.0)),
            food: None,
        }
    }

    /// The run after the snake has eaten `times` times.
    pub open spec fn eat_times(self, times: nat) -> Snapshot
        decreases times,
    {
        if times == 0 {
            self
        } else {
            self.eat_times((times - 1) as nat).eat()
        }
    }

    /// Whether the head reaches past the border of a window of size
    /// `bounds`. Without a head, or without a window to test against, it
    /// does not.
    pub open spec fn hits_boundary(self, bounds: Option<Bounds>) -> bool {
        &&& self.head matches Some(head)
        &&& bounds matches Some(window)
        &&& outside(head.position, window, HEAD_HALF_EXTENT)
    }

    /// The same run with `head` placed.
    pub open spec fn with_head(self, head: SnakeHead) -> Snapshot {
        Snapshot {
            head: Some(head),
            history: self.history,
            segments: self.segments,
            score: self.score,
            food: self.food,
        }
    }

    /// The same run with `food` on the playfield.
    pub open spec fn with_food(self, food: Option<Food>) -> Snapshot {
        Snapshot {
            head: self.head,
            history: self.history,
            segments: self.segments,
            score: self.score,
            food,
        }
    }

    /// Where the head is, if there is one.
    pub open spec fn head_position(self) -> Option<GridPosition> {
        match self.head {
            Some(head) => Some(head.position),
            None => None,
        }
    }

    /// Whether `food` is what may lie on the playfield once the events of a
    /// frame are resolved, `eats` of them with the snake eating, where `self`
    /// is the run as it stood when the head had moved. A piece that was not
    /// eaten stays. Where a piece is missing and the window is known, a new
    /// one is spawned inside it, with the distance measured from the head;
    /// where the window is not known, the place stays empty until a later
    /// frame.
    pub open spec fn food_settled(self, eats: nat, bounds: Option<Bounds>, food: Option<Food>) -> bool {
        if eats == 0 && self.food is Some {
            food == self.food
        } else {
            match bounds {
                Some(window) => {
                    &&& food matches Some(piece)
                    &&& food_spawned(window.width, window.height, self.head_position(), piece)
                    &&& within_inset(piece.position, window)
                },
                None => food is None,
            }
        }
    }
}

/// The state of one run. It is created when the run starts and dropped when
/// the run is left.
pub struct SimulationContext {
    head: Option<SnakeHead>,
    history: PositionHistory,
    segments: SnakeSegments,
    score: Score,
    food: Option<Food>,
}

impl View for SimulationContext {
    type V = Snapshot;

    closed spec fn view(&self) -> Snapshot {
        Snapshot {
            head: self.head,
            history: self.history@,
            segments: self.segments@,
            score: self.score,
            food: self.food,
        }
    }
}

impl SimulationContext {
    /// The invariant of a run: every segment has a log entry to sit on, and
    /// the log respects its capacity.
    pub open spec fn wf(&self) -> bool {
        self@.wf()
    }

    /// A run in which nothing has happened yet.
    pub fn new() -> (context: SimulationContext)
        ensures
            context@ == Snapshot::initial(),
            context.wf(),
    {
        SimulationContext {
            head: None,
            history: PositionHistory::new(),
            segments: SnakeSegments::new(),
            score: Score::new(),
            food: None,
        }
    }

    /// Places the head at the centre of the playfield, heading right, with a
    /// full movement period ahead of it. A head that is already there is
    /// replaced.
    pub fn spawn_snake(&mut self)
        ensures
            final(self)@ == old(self)@.with_head(SnakeHead::spec_new()),
            old(self).wf() ==> final(self).wf(),
    {
        self.head = Some(SnakeHead::new());
    }

    /// The head, once it has been placed.
    pub fn head(&self) -> (head: Option<SnakeHead>)
        ensures
            head == self@.head,
    {
        self.head
    }

    /// The positions the head has left, newest first.
    pub fn history(&self) -> (history: &PositionHistory)
        ensures
            history@ == self@.history,
    {
        &self.history
    }

    /// The positions of the body segments, the one closest to the head first.
    pub fn segments(&self) -> (segments: &SnakeSegments)
        ensures
            segments@ == self@.segments,
    {
        &self.segments
    }

    /// The pieces of food eaten so far.
    pub fn score(&self) -> (score: Score)
        ensures
            score == self@.score,
    {
        self.score
    }

    /// The piece of food on the playfield, if one has been placed.
    pub fn food(&self) -> (food: Option<Food>)
        ensures
            food == self@.food,
    {
        self.food
    }

    /// Applies the directional keys of one frame to the head, if there is
    /// one.
    pub fn player_input(&mut self, keys: DirectionKeys)
        ensures
            final(self)@ == old(self)@.steer(keys),
    {
        match self.head {
            Some(head) => {
                let mut head: SnakeHead = head;
                crate::snake::player_input(keys, &mut head);
                self.head = Some(head);
            },
            None => {},
        }
    }

    /// Tests whether `dt` can pass without the head stepping into a cell
    /// that cannot be represented.
    pub fn can_advance(&self, dt: u64) -> (possible: bool)
        ensures
            possible == self@.can_advance(dt as int),
    {
        match self.head {
            Some(head) => head.can_advance(dt),
            None => true,
        }
    }

    /// Lets `dt` pass for the head, if there is one, and moves the snake if
    /// the head's cooldown has run out. Returns whether a step was taken.
    pub fn snake_movement_system(&mut self, dt: u64) -> (stepped: bool)
        requires
            old(self)@.can_advance(dt as int),
        ensures
            final(self)@ == old(self)@.advance(dt as int),
            stepped == old(self)@.steps_after(dt as int),
            old(self).wf() ==> final(self).wf(),
    {
        match self.head {
            Some(head) => {
                let mut head: SnakeHead = head;
                let stepped: bool = crate::snake::snake_movement_system(
                    &mut self.history,
                    &mut head,
                    &mut self.segments,
                    dt,
                );
                self.head = Some(head);
                stepped
            },
            None => false,
        }
    }

    /// Serves one growth request. Returns the position of the new segment,
    /// or `None` if the request was dropped because every log entry already
    /// has a segment on it.
    pub fn grow_snake(&mut self) -> (added: Option<GridPosition>)
        ensures
            final(self)@ == old(self)@.grow(),
            added == (if old(self)@.segments.len() < old(self)@.history.len() {
                Some(old(self)@.history[old(self)@.segments.len() as int])
            } else {
                None::<GridPosition>
            }),
            old(self).wf() ==> final(self).wf(),
    {
        crate::snake::grow_snake(&mut self.segments, &self.history)
    }

    /// Serves a growth request made by hand, if the key for it went down.
    pub fn grow_on_key(&mut self, pressed: bool) -> (added: Option<GridPosition>)
        ensures
            final(self)@ == old(self)@.grow_if(pressed),
            added == (if pressed && old(self)@.segments.len() < old(self)@.history.len() {
                Some(old(self)@.history[old(self)@.segments.len() as int])
            } else {
                None::<GridPosition>
            }),
            old(self).wf() ==> final(self).wf(),
    {
        crate::snake::grow_on_key(pressed, &mut self.segments, &self.history)
    }

    /// Tests the head against the border of the window.
    pub fn boundary_check(&self, bounds: Option<Bounds>) -> (hit: bool)
        ensures
            hit == self@.hits_boundary(bounds),
    {
        match (self.head, bounds) {
            (Some(head), Some(window)) => hits_boundary(head.position, window, HEAD_HALF_EXTENT),
            _ => false,
        }
    }

    /// Places a piece of food if there is none and the window is known. The
    /// distance it should keep is measured from the head, or from the centre
    /// of the playfield while there is no head.
    pub fn place_food(&mut self, bounds: Option<Bounds>) -> (placed: bool)
        ensures
            final(self)@ == old(self)@.with_food(final(self)@.food),
            old(self)@.food_settled(0, bounds, final(self)@.food),
            placed == (old(self)@.food is None && bounds is Some),
            old(self).wf() ==> final(self).wf(),
    {
        match (self.food, bounds) {
            (None, Some(window)) => {
                self.food = Some(spawn_food(window.width, window.height, self.head_position()));
                true
            },
            _ => false,
        }
    }

    /// Resolves the collision events of one frame. For every event in which
    /// the snake eats, in this order: the food is taken off the playfield,
    /// the score counts it, a new piece of food is requested and, if the
    /// window is known, placed with the head where it is now, and one growth
    /// request is served. Other events are passed over.
    pub fn food_collision_system(&mut self, events: &Vec<CollisionEvent>, bounds: Option<Bounds>) -> (report:
        CollisionReport)
        ensures
            report.eats == eat_count(events@),
            report.growth_requests == report.eats,
            report.respawn_requests == report.eats,
            final(self)@ == old(self)@.eat_times(eat_count(events@)).with_food(final(self)@.food),
            report.eats == 0 ==> final(self)@.food == old(self)@.food,
            report.eats > 0 ==> old(self)@.food_settled(
                report.eats as nat,
                bounds,
                final(self)@.food,
            ),
            old(self).wf() ==> final(self).wf(),
    {
        let mut eats: usize = 0;
        let mut i: usize = 0;
        while i < events.len()
            invariant
                i <= events.len(),
                eats <= i,
                eats == eat_count(events@.take(i as int)),
                self@ == old(self)@.eat_times(eats as nat).with_food(self@.food),
                self@.head == old(self)@.head,
                eats == 0 ==> self@.food == old(self)@.food,
                eats > 0 ==> old(self)@.food_settled(eats as nat, bounds, self@.food),
                old(self).wf() ==> self.wf(),
            decreases events.len() - i,
        {
            assert(events@.take(i + 1).drop_last() =~= events@.take(i as int));
            if events[i].is_eat() {
                self.food = None;
                self.score.increment();
                match bounds {
                    Some(window) => {
                        self.food = Some(
                            spawn_food(window.width, window.height, self.head_position()),
                        );
                    },
                    None => {},
                }
                let _ = crate::snake::grow_snake(&mut self.segments, &self.history);
                eats += 1;
            }
            i += 1;
        }
        assert(events@.take(events.len() as int) =~= events@);
        CollisionReport { eats, growth_requests: eats, respawn_requests: eats }
    }

    /// Tests whether a frame with this input can be processed: the head, if
    /// it steps, steps into a cell that can be represented.
    pub fn can_tick(&self, dt: u64, input: SnakeInput) -> (possible: bool)
        ensures
            possible == self@.steer(input.keys).can_advance(dt as int),
    {
        match self.head {
            Some(head) => {
                let mut head: SnakeHead = head;
                crate::snake::player_input(input.keys, &mut head);
                head.can_advance(dt)
            },
            None => true,
        }
    }

    /// Processes one frame in which `dt` has passed. In this order: the
    /// directional keys are applied; the head moves if its cooldown has run
    /// out; a growth request made by hand is served; the head is tested
    /// against the window; the collision events are resolved; and a piece of
    /// food that is missing is placed if the window is known.
    pub fn tick(
        &mut self,
        dt: u64,
        input: SnakeInput,
        bounds: Option<Bounds>,
        events: &Vec<CollisionEvent>,
    ) -> (report: TickReport)
        requires
            old(self)@.steer(input.keys).can_advance(dt as int),
        ensures
            final(self)@ == old(self)@.steer(input.keys).advance(dt as int).grow_if(
                input.grow,
            ).eat_times(eat_count(events@)).with_food(final(self)@.food),
            old(self)@.steer(input.keys).advance(dt as int).food_settled(
                eat_count(events@),
                bounds,
                final(self)@.food,
            ),
            report.stepped == old(self)@.steer(input.keys).steps_after(dt as int),
            report.hit_boundary == old(self)@.steer(input.keys).advance(dt as int).hits_boundary(
                bounds,
            ),
            report.collisions.eats == eat_count(events@),
            report.collisions.growth_requests == eat_count(events@),
            report.collisions.respawn_requests == eat_count(events@),
            old(self).wf() ==> final(self).wf(),
    {
        self.player_input(input.keys);
        let stepped: bool = self.snake_movement_system(dt);
        let _ = self.grow_on_key(input.grow);
        let hit_boundary: bool = self.boundary_check(bounds);
        let collisions: CollisionReport = self.food_collision_system(events, bounds);
        let _ = self.place_food(bounds);
        TickReport { stepped, hit_boundary, collisions }
    }

    /// Processes one frame like `tick` if the frame can be processed, and
    /// leaves the run untouched if it cannot.
    pub fn try_tick(
        &mut self,
        dt: u64,
        input: SnakeInput,
        bounds: Option<Bounds>,
        events: &Vec<CollisionEvent>,
    ) -> (report: Option<TickReport>)
        ensures
            report is Some == old(self)@.steer(input.keys).can_advance(dt as int),
            report is None ==> final(self)@ == old(self)@,
            report matches Some(done) ==> {
                &&& final(self)@ == old(self)@.steer(input.keys).advance(dt as int).grow_if(
                    input.grow,
                ).eat_times(eat_count(events@)).with_food(final(self)@.food)
                &&& old(self)@.steer(input.keys).advance(dt as int).food_settled(
                    eat_count(events@),
                    bounds,
                    final(self)@.food,
                )
                &&& done.stepped == old(self)@.steer(input.keys).steps_after(dt as int)
                &&& done.hit_boundary == old(self)@.steer(input.keys).advance(
                    dt as int,
                ).hits_boundary(bounds)
                &&& done.collisions.eats == eat_count(events@)
                &&& done.collisions.growth_requests == eat_count(events@)
                &&& done.collisions.respawn_requests == eat_count(events@)
            },
            old(self).wf() ==> final(self).wf(),
    {
        if self.can_tick(dt, input) {
            Some(self.tick(dt, input, bounds, events))
        } else {
            None
        }
    }

    /// Where the head is, if there is one.
    fn head_position(&self) -> (position: Option<GridPosition>)
        ensures
            position == self@.head_position(),
    {
        match self.head {
            Some(head) => Some(head.position),
            None => None,
        }
    }
}

/// Steering touches nothing but the direction of the head, and never turns
/// the head around on the spot.
pub proof fn lemma_steer_changes_direction_only(run: Snapshot, keys: DirectionKeys)
    ensures
        run.steer(keys).history == run.history,
        run.steer(keys).segments == run.segments,
        run.steer(keys).score == run.score,
        run.steer(keys).food == run.food,
        run.steer(keys).wf() == run.wf(),
        run.head is None ==> run.steer(keys) == run,
        run.head matches Some(head) ==> run.steer(keys).head matches Some(turned)
            && turned.position == head.position && turned.next_move_timer == head.next_move_timer
            && turned.direction != head.direction.spec_opposite(),
{
}

/// Letting time pass keeps the invariant of a run: the log stays within its
/// capacity and never shrinks, and no segment is added or lost.
pub proof fn lemma_advance_keeps_invariant(run: Snapshot, dt: int)
    requires
        run.wf(),
        0 <= dt,
    ensures
        run.advance(dt).wf(),
        run.advance(dt).history.len() <= MAX_HISTORY,
        run.advance(dt).history.len() >= run.history.len(),
        run.advance(dt).segments.len() == run.segments.len(),
        run.advance(dt).score == run.score,
        run.advance(dt).food == run.food,
        !run.steps_after(dt) ==> run.advance(dt).history == run.history && run.advance(
            dt,
        ).segments == run.segments,
{
    if run.steps_after(dt) {
        crate::history::lemma_recorded_len(run.history, run.head.unwrap().position);
    }
}

/// A step leaves the position the head came from at the front of the log,
/// moves the head one cell in its direction, and lays the body along the
/// log: segment `i` sits where the head stood `i + 1` steps ago.
pub proof fn lemma_step_trails_head(run: Snapshot, dt: int)
    requires
        run.wf(),
        run.steps_after(dt),
    ensures
        run.advance(dt).history[0] == run.head.unwrap().position,
        run.advance(dt).head.unwrap().position == run.head.unwrap().position.spec_step(
            run.head.unwrap().direction,
        ),
        run.advance(dt).head.unwrap().next_move_timer.elapsed == 0,
        forall|i: int|
            0 <= i < run.segments.len() ==> #[trigger] run.advance(dt).segments[i] == run.advance(
                dt,
            ).history[i],
        forall|i: int|
            1 <= i < run.advance(dt).history.len() ==> #[trigger] run.advance(dt).history[i]
                == run.history[i - 1],
{
    let position = run.head.unwrap().position;
    crate::history::lemma_recorded_len(run.history, position);
    crate::history::lemma_recorded_shifts(run.history, position);
}

/// Growth keeps the invariant of a run. A request that succeeds adds exactly
/// one segment, at the log entry whose index is the number of segments there
/// were; a request made when every entry is taken changes nothing.
pub proof fn lemma_grow_keeps_invariant(run: Snapshot)
    requires
        run.wf(),
    ensures
        run.grow().wf(),
        run.grow().history == run.history,
        run.grow().head == run.head,
        run.grow().score == run.score,
        run.grow().food == run.food,
        run.segments.len() < run.history.len() ==> run.grow().segments == run.segments.push(
            run.history[run.segments.len() as int],
        ),
        run.segments.len() == run.history.len() ==> run.grow() == run,
{
}

/// Eating once takes the food away, serves one growth request, and raises
/// the score by exactly one unless the counter is full.
pub proof fn lemma_eat_once(run: Snapshot)
    ensures
        run.eat_times(1) == run.eat(),
        run.eat().food is None,
        run.eat().segments == run.grow().segments,
        run.eat().head == run.head,
        run.eat().history == run.history,
        run.score.0 < u32::MAX ==> run.eat().score.0 == run.score.0 + 1,
        run.score.0 == u32::MAX ==> run.eat().score.0 == u32::MAX,
        run.wf() ==> run.eat().wf(),
{
    reveal_with_fuel(Snapshot::eat_times, 2);
}

/// Eating any number of times keeps the invariant of a run, leaves head and
/// log alone, counts every time until the counter is full, and adds one
/// segment for each time as long as the log has an entry free.
pub proof fn lemma_eat_times(run: Snapshot, times: nat)
    requires
        run.wf(),
    ensures
        run.eat_times(times).wf(),
        run.eat_times(times).head == run.head,
        run.eat_times(times).history == run.history,
        times == 0 ==> run.eat_times(times) == run,
        times > 0 ==> run.eat_times(times).food is None,
        run.eat_times(times).score.0 == (if run.score.0 + times <= u32::MAX {
            run.score.0 + times
        } else {
            u32::MAX as int
        }),
        run.eat_times(times).segments.len() == (if run.segments.len() + times
            <= run.history.len() {
            run.segments.len() + times
        } else {
            run.history.len()
        }),
        forall|i: int|
            0 <= i < run.eat_times(times).segments.len() ==> #[trigger] run.eat_times(
                times,
            ).segments[i] == (if i < run.segments.len() {
                run.segments[i]
            } else {
                run.history[i]
            }),
    decreases times,
{
    if times > 0 {
        lemma_eat_times(run, (times - 1) as nat);
    }
}

/// Replacing the food touches nothing else.
pub proof fn lemma_with_food(run: Snapshot, food: Option<Food>)
    ensures
        run.with_food(food).wf() == run.wf(),
        run.with_food(food).food == food,
        run.with_food(run.food) == run,
{
}

} // verus!
