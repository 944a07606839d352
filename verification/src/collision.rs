//! Reading what happened to the snake: leaving the window, and touching food.
//!
//! Overlaps between entities are found elsewhere and arrive as pairs of
//! entity kinds; only the kinds are looked at here, never the geometry.

use vstd::prelude::*;

use crate::grid::{Bounds, GridPosition};

verus! {

/// Half the side of the head's square, in pixels.
pub const HEAD_HALF_EXTENT: u32 = 16;

/// What an entity named in a collision event is.
#[derive(Clone, Copy, Debug, PartialEq, Eq, Structural)]
pub enum EntityKind {
    Head,
    Segment,
    Food,
    Other,
}

/// Two entities whose shapes have begun to overlap.
#[derive(Clone, Copy, Debug, PartialEq, Eq, Structural)]
pub struct CollisionEvent {
    pub first: EntityKind,
    pub second: EntityKind,
}

/// Distance of `value` from zero.
pub open spec fn magnitude(value: int) -> int {
    if value < 0 {
        -value
    } else {
        value
    }
}

/// Whether a square of half side `half_extent` centred on `position` reaches
/// past the border of a window of size `bounds` centred on the origin, on
/// either axis. Both sides of each comparison are doubled so that a window of
/// odd size is halved without rounding.
pub open spec fn outside(position: GridPosition, bounds: Bounds, half_extent: u32) -> bool {
    ||| 2 * (magnitude(position.x as int) + half_extent) > bounds.width
    ||| 2 * (magnitude(position.y as int) + half_extent) > bounds.height
}

impl EntityKind {
    /// Whether the entity is part of the snake.
    pub open spec fn spec_is_snake(self) -> bool {
        self == EntityKind::Head || self == EntityKind::Segment
    }

    /// Tests whether the entity is part of the snake.
    #[verifier::when_used_as_spec(spec_is_snake)]
    pub fn is_snake(self) -> (snake: bool)
        ensures
            snake == self.spec_is_snake(),
    {
        match self {
            EntityKind::Head => true,
            EntityKind::Segment => true,
            EntityKind::Food => false,
            EntityKind::Other => false,
        }
    }

    /// Whether the entity is the piece of food.
    pub open spec fn spec_is_food(self) -> bool {
        self == EntityKind::Food
    }

    /// Tests whether the entity is the piece of food.
    #[verifier::when_used_as_spec(spec_is_food)]
    pub fn is_food(self) -> (food: bool)
        ensures
            food == self.spec_is_food(),
    {
        match self {
            EntityKind::Food => true,
            EntityKind::Head => false,
            EntityKind::Segment => false,
            EntityKind::Other => false,
        }
    }
}

impl CollisionEvent {
    /// Whether the event is the snake eating: one side is part of the snake
    /// and the other is the food.
    pub open spec fn spec_is_eat(self) -> bool {
        ||| self.first.spec_is_snake() && self.second.spec_is_food()
        ||| self.second.spec_is_snake() && self.first.spec_is_food()
    }

    /// Tests whether the event is the snake eating.
    #[verifier::when_used_as_spec(spec_is_eat)]
    pub fn is_eat(self) -> (eat: bool)
        ensures
            eat == self.spec_is_eat(),
    {
        (self.first.is_snake() && self.second.is_food()) || (self.second.is_snake()
            && self.first.is_food())
    }
}

/// Number of events among `events` in which the snake eats.
pub open spec fn eat_count(events: Seq<CollisionEvent>) -> nat
    decreases events.len(),
{
    if events.len() == 0 {
        0
    } else {
        eat_count(events.drop_last()) + (if events.last().spec_is_eat() {
            1nat
        } else {
            0nat
        })
    }
}

/// Tests whether the head at `position` has left a window of size `bounds`.
pub fn hits_boundary(position: GridPosition, bounds: Bounds, half_extent: u32) -> (hit: bool)
    ensures
        hit == outside(position, bounds, half_extent),
{
    let reach_x: i64 = 2 * (abs_i64(position.x as i64) + half_extent as i64);
    let reach_y: i64 = 2 * (abs_i64(position.y as i64) + half_extent as i64);
    reach_x > bounds.width as i64 || reach_y > bounds.height as i64
}

/// Distance of `value` from zero.
fn abs_i64(value: i64) -> (distance: i64)
    requires
        value > i64::MIN,
    ensures
        distance == magnitude(value as int),
{
    if value < 0 {
        -value
    } else {
        value
    }
}

/// Counts the events in which the snake eats.
pub fn count_eats(events: &Vec<CollisionEvent>) -> (count: usize)
    ensures
        count == eat_count(events@),
{
    let mut count: usize = 0;
    let mut i: usize = 0;
    while i < events.len()
        invariant
            i <= events.len(),
            count == eat_count(events@.take(i as int)),
            count <= i,
        decreases events.len() - i,
    {
        assert(events@.take(i + 1).drop_last() =~= events@.take(i as int));
        if events[i].is_eat() {
            count += 1;
        }
        i += 1;
    }
    assert(events@.take(events.len() as int) =~= events@);
    count
}

/// An event between two parts of the snake, or one that names something
/// other than snake and food, is not the snake eating; the order in which an
/// event names its two entities does not matter.
pub proof fn lemma_eat_is_symmetric(event: CollisionEvent)
    ensures
        event.spec_is_eat() == (CollisionEvent {
            first: event.second,
            second: event.first,
        }).spec_is_eat(),
        event.spec_is_eat() ==> event.first != event.second,
        event.first == EntityKind::Other || event.second == EntityKind::Other
            ==> !event.spec_is_eat(),
{
}

/// A head inside the window stays inside when the window grows, and a head
/// outside stays outside when it shrinks.
pub proof fn lemma_outside_monotonic(
    position: GridPosition,
    small: Bounds,
    large: Bounds,
    half_extent: u32,
)
    requires
        small.width <= large.width,
        small.height <= large.height,
    ensures
        outside(position, large, half_extent) ==> outside(position, small, half_extent),
{
}

/// Adding one event adds one to the count if the snake eats in it and
/// nothing otherwise; no events count as none.
pub proof fn lemma_eat_count_push(events: Seq<CollisionEvent>, event: CollisionEvent)
    ensures
        eat_count(Seq::<CollisionEvent>::empty()) == 0,
        eat_count(events.push(event)) == eat_count(events) + (if event.spec_is_eat() {
            1nat
        } else {
            0nat
        }),
        eat_count(events) <= events.len(),
    decreases events.len(),
{
    assert(events.push(event).drop_last() =~= events);
    if events.len() > 0 {
        lemma_eat_count_push(events.drop_last(), events.last());
        assert(events.drop_last().push(events.last()) =~= events);
    }
}

} // verus!
