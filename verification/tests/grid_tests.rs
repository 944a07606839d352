use snake_core::grid::{Direction, GridPosition, GRID_SIZE};

#[test]
fn grid_size_is_thirty_two() {
    assert_eq!(GRID_SIZE, 32);
}

#[test]
fn default_direction_is_right() {
    assert_eq!(Direction::default(), Direction::Right);
}

#[test]
fn opposite_pairs_up_the_directions() {
    assert_eq!(Direction::Right.opposite(), Direction::Left);
    assert_eq!(Direction::Left.opposite(), Direction::Right);
    assert_eq!(Direction::Up.opposite(), Direction::Down);
    assert_eq!(Direction::Down.opposite(), Direction::Up);
}

#[test]
fn opposite_twice_is_identity() {
    for direction in [Direction::Right, Direction::Up, Direction::Down, Direction::Left] {
        assert_eq!(direction.opposite().opposite(), direction);
        assert_ne!(direction.opposite(), direction);
    }
}

#[test]
fn delta_is_one_cell_on_one_axis() {
    assert_eq!(Direction::Right.delta(), (32, 0));
    assert_eq!(Direction::Left.delta(), (-32, 0));
    assert_eq!(Direction::Up.delta(), (0, 32));
    assert_eq!(Direction::Down.delta(), (0, -32));
}

#[test]
fn origin_is_zero_zero() {
    assert_eq!(GridPosition::origin(), GridPosition { x: 0, y: 0 });
    assert_eq!(GridPosition::new(3, -4), GridPosition { x: 3, y: -4 });
}

#[test]
fn step_moves_exactly_one_cell() {
    let start = GridPosition::new(64, -32);
    assert_eq!(start.step(Direction::Right), GridPosition::new(96, -32));
    assert_eq!(start.step(Direction::Left), GridPosition::new(32, -32));
    assert_eq!(start.step(Direction::Up), GridPosition::new(64, 0));
    assert_eq!(start.step(Direction::Down), GridPosition::new(64, -64));
}

#[test]
fn step_and_step_back_return_to_start() {
    let start = GridPosition::new(-320, 960);
    for direction in [Direction::Right, Direction::Up, Direction::Down, Direction::Left] {
        assert_eq!(start.step(direction).step(direction.opposite()), start);
    }
}

#[test]
fn can_step_stops_at_the_edge_of_the_coordinate_range() {
    let far_right = GridPosition::new(i32::MAX - 31, 0);
    assert!(!far_right.can_step(Direction::Right));
    assert!(far_right.can_step(Direction::Left));
    assert!(far_right.can_step(Direction::Up));
    let just_fits = GridPosition::new(i32::MAX - 32, 0);
    assert!(just_fits.can_step(Direction::Right));
    assert_eq!(just_fits.step(Direction::Right), GridPosition::new(i32::MAX, 0));
    let far_down = GridPosition::new(0, i32::MIN + 31);
    assert!(!far_down.can_step(Direction::Down));
    assert!(GridPosition::new(0, i32::MIN + 32).can_step(Direction::Down));
}

#[test]
fn checked_step_is_none_exactly_where_the_cell_does_not_exist() {
    let far_left = GridPosition::new(i32::MIN, 5);
    assert_eq!(far_left.checked_step(Direction::Left), None);
    assert_eq!(
        far_left.checked_step(Direction::Right),
        Some(GridPosition::new(i32::MIN + 32, 5))
    );
    assert_eq!(
        GridPosition::origin().checked_step(Direction::Up),
        Some(GridPosition::new(0, 32))
    );
}
