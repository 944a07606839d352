//! The grid: cell size, positions and the four directions of travel.

use vstd::prelude::*;

verus! {

/// Side of one grid cell in pixels: the distance a single movement step covers.
pub const GRID_SIZE: i32 = 32;

/// A point of the playfield in pixels, with the origin at the centre of the
/// window, `x` growing to the right and `y` growing upwards.
#[derive(Clone, Copy, Debug, PartialEq, Eq, Structural)]
pub struct GridPosition {
    pub x: i32,
    pub y: i32,
}

/// The direction the head travels in.
#[derive(Clone, Copy, Debug, PartialEq, Eq, Structural)]
pub enum Direction {
    Right,
    Up,
    Down,
    Left,
}

/// Width and height of the window the game is played in, in pixels. The
/// playfield is centred on the origin.
#[derive(Clone, Copy, Debug, PartialEq, Eq, Structural)]
pub struct Bounds {
    pub width: u32,
    pub height: u32,
}

impl Default for Direction {
    /// A head starts out travelling to the right.
    fn default() -> (direction: Direction)
        ensures
            direction == Direction::Right,
    {
        Direction::Right
    }
}

impl Direction {
    /// The direction pointing the other way.
    pub open spec fn spec_opposite(self) -> Direction {
        match self {
            Direction::Right => Direction::Left,
            Direction::Left => Direction::Right,
            Direction::Up => Direction::Down,
            Direction::Down => Direction::Up,
        }
    }

    /// Horizontal displacement of one step in this direction.
    pub open spec fn dx(self) -> int {
        match self {
            Direction::Right => GRID_SIZE as int,
            Direction::Left => -(GRID_SIZE as int),
            Direction::Up => 0,
            Direction::Down => 0,
        }
    }

    /// Vertical displacement of one step in this direction.
    pub open spec fn dy(self) -> int {
        match self {
            Direction::Right => 0,
            Direction::Left => 0,
            Direction::Up => GRID_SIZE as int,
            Direction::Down => -(GRID_SIZE as int),
        }
    }

    /// The direction pointing the other way.
    #[verifier::when_used_as_spec(spec_opposite)]
    pub fn opposite(self) -> (other: Direction)
        ensures
            other == self.spec_opposite(),
    {
        match self {
            Direction::Right => Direction::Left,
            Direction::Left => Direction::Right,
            Direction::Up => Direction::Down,
            Direction::Down => Direction::Up,
        }
    }

    /// The displacement of one step, as `(dx, dy)`.
    pub fn delta(self) -> (d: (i32, i32))
        ensures
            d.0 == self.dx(),
            d.1 == self.dy(),
    {
        match self {
            Direction::Right => (GRID_SIZE, 0),
            Direction::Left => (-GRID_SIZE, 0),
            Direction::Up => (0, GRID_SIZE),
            Direction::Down => (0, -GRID_SIZE),
        }
    }
}

impl GridPosition {
    /// The centre of the playfield.
    pub open spec fn spec_origin() -> GridPosition {
        GridPosition { x: 0, y: 0 }
    }

    /// Whether both coordinates are whole multiples of the cell size.
    pub open spec fn on_grid(self) -> bool {
        self.x as int % GRID_SIZE as int == 0 && self.y as int % GRID_SIZE as int == 0
    }

    /// Whether the cell next to this one in `direction` can be represented.
    pub open spec fn spec_can_step(self, direction: Direction) -> bool {
        &&& i32::MIN <= self.x + direction.dx() <= i32::MAX
        &&& i32::MIN <= self.y + direction.dy() <= i32::MAX
    }

    /// The position one step away in `direction`.
    pub open spec fn spec_step(self, direction: Direction) -> GridPosition {
        GridPosition {
            x: (self.x + direction.dx()) as i32,
            y: (self.y + direction.dy()) as i32,
        }
    }

    /// The centre of the playfield.
    #[verifier::when_used_as_spec(spec_origin)]
    pub fn origin() -> (p: GridPosition)
        ensures
            p == GridPosition::spec_origin(),
    {
        GridPosition { x: 0, y: 0 }
    }

    /// The position with the given coordinates.
    pub fn new(x: i32, y: i32) -> (p: GridPosition)
        ensures
            p.x == x,
            p.y == y,
    {
        GridPosition { x, y }
    }

    /// Tests whether the cell next to this one in `direction` can be represented.
    #[verifier::when_used_as_spec(spec_can_step)]
    pub fn can_step(self, direction: Direction) -> (possible: bool)
        ensures
            possible == self.spec_can_step(direction),
    {
        let (dx, dy): (i32, i32) = direction.delta();
        self.x.checked_add(dx).is_some() && self.y.checked_add(dy).is_some()
    }

    /// Moves exactly one cell in `direction`.
    #[verifier::when_used_as_spec(spec_step)]
    pub fn step(self, direction: Direction) -> (next: GridPosition)
        requires
            self.spec_can_step(direction),
        ensures
            next == self.spec_step(direction),
            next.x == self.x + direction.dx(),
            next.y == self.y + direction.dy(),
    {
        let (dx, dy): (i32, i32) = direction.delta();
        GridPosition { x: self.x + dx, y: self.y + dy }
    }

    /// Moves one cell in `direction` where that cell can be represented.
    pub fn checked_step(self, direction: Direction) -> (next: Option<GridPosition>)
        ensures
            next == (if self.spec_can_step(direction) {
                Some(self.spec_step(direction))
            } else {
                None::<GridPosition>
            }),
    {
        if self.can_step(direction) {
            Some(self.step(direction))
        } else {
            None
        }
    }
}

/// Turning around twice faces the way one started, and no direction is its
/// own opposite.
pub proof fn lemma_opposite_involution(direction: Direction)
    ensures
        direction.spec_opposite().spec_opposite() == direction,
        direction.spec_opposite() != direction,
        direction.spec_opposite().dx() == -direction.dx(),
        direction.spec_opposite().dy() == -direction.dy(),
{
}

/// Every step moves by exactly one cell along exactly one axis.
pub proof fn lemma_step_is_one_cell(direction: Direction)
    ensures
        (direction.dx() == 0) != (direction.dy() == 0),
        direction.dx() == 0 || direction.dx() == GRID_SIZE || direction.dx() == -GRID_SIZE,
        direction.dy() == 0 || direction.dy() == GRID_SIZE || direction.dy() == -GRID_SIZE,
{
}

/// A step from a position on the grid lands on the grid.
pub proof fn lemma_step_stays_on_grid(position: GridPosition, direction: Direction)
    requires
        position.on_grid(),
        position.spec_can_step(direction),
    ensures
        position.spec_step(direction).on_grid(),
{
}

/// A step followed by a step the opposite way returns to the start.
pub proof fn lemma_step_back(position: GridPosition, direction: Direction)
    requires
        position.spec_can_step(direction),
    ensures
        position.spec_step(direction).spec_can_step(direction.spec_opposite()),
        position.spec_step(direction).spec_step(direction.spec_opposite()) == position,
{
}

} // verus!
