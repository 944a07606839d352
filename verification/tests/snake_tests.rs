use snake_core::grid::{Direction, GridPosition};
use snake_core::history::PositionHistory;
use snake_core::snake::{
    grow_on_key, grow_snake, player_input, resync_segments, snake_movement_system, DirectionKeys,
    SnakeHead, SnakeSegments,
};
use snake_core::timer::{CooldownTimer, MOVE_PERIOD};

fn left() -> DirectionKeys {
    DirectionKeys { left: true, ..DirectionKeys::none() }
}

fn right() -> DirectionKeys {
    DirectionKeys { right: true, ..DirectionKeys::none() }
}

fn up() -> DirectionKeys {
    DirectionKeys { up: true, ..DirectionKeys::none() }
}

fn down() -> DirectionKeys {
    DirectionKeys { down: true, ..DirectionKeys::none() }
}

fn head_going(direction: Direction) -> SnakeHead {
    SnakeHead { direction, ..SnakeHead::new() }
}

#[test]
fn new_head_starts_at_the_centre_heading_right() {
    let head = SnakeHead::new();
    assert_eq!(head.direction, Direction::Right);
    assert_eq!(head.position, GridPosition::new(0, 0));
    assert_eq!(head.next_move_timer, CooldownTimer { period: MOVE_PERIOD, elapsed: 0 });
}

#[test]
fn right_then_left_is_rejected() {
    let mut head = head_going(Direction::Right);
    player_input(left(), &mut head);
    assert_eq!(head.direction, Direction::Right);
}

#[test]
fn right_then_up_then_left_is_allowed() {
    let mut head = head_going(Direction::Right);
    player_input(up(), &mut head);
    assert_eq!(head.direction, Direction::Up);
    player_input(left(), &mut head);
    assert_eq!(head.direction, Direction::Left);
}

#[test]
fn every_reversal_is_rejected() {
    let cases = [
        (Direction::Right, left()),
        (Direction::Left, right()),
        (Direction::Up, down()),
        (Direction::Down, up()),
    ];
    for (direction, keys) in cases {
        let mut head = head_going(direction);
        player_input(keys, &mut head);
        assert_eq!(head.direction, direction);
    }
}

#[test]
fn no_input_ever_reverses_the_head() {
    let directions = [Direction::Right, Direction::Up, Direction::Down, Direction::Left];
    for direction in directions {
        for bits in 0..16u8 {
            let keys = DirectionKeys {
                left: bits & 1 != 0,
                right: bits & 2 != 0,
                up: bits & 4 != 0,
                down: bits & 8 != 0,
            };
            let mut head = head_going(direction);
            player_input(keys, &mut head);
            assert_ne!(head.direction, direction.opposite());
        }
    }
}

#[test]
fn sideways_turns_are_accepted() {
    let mut head = head_going(Direction::Up);
    player_input(right(), &mut head);
    assert_eq!(head.direction, Direction::Right);
    player_input(down(), &mut head);
    assert_eq!(head.direction, Direction::Down);
    player_input(left(), &mut head);
    assert_eq!(head.direction, Direction::Left);
    player_input(up(), &mut head);
    assert_eq!(head.direction, Direction::Up);
}

#[test]
fn no_key_keeps_the_course() {
    let mut head = head_going(Direction::Down);
    player_input(DirectionKeys::none(), &mut head);
    assert_eq!(head.direction, Direction::Down);
}

#[test]
fn keys_are_tried_in_the_order_left_right_up_down() {
    let all = DirectionKeys { left: true, right: true, up: true, down: true };
    let mut head = head_going(Direction::Up);
    player_input(all, &mut head);
    assert_eq!(head.direction, Direction::Left);
    // Heading right, left is a reversal, so right is next in line.
    let mut head = head_going(Direction::Right);
    player_input(all, &mut head);
    assert_eq!(head.direction, Direction::Right);
    let up_and_down = DirectionKeys { left: false, right: false, up: true, down: true };
    let mut head = head_going(Direction::Up);
    player_input(up_and_down, &mut head);
    assert_eq!(head.direction, Direction::Up);
    let mut head = head_going(Direction::Down);
    player_input(up_and_down, &mut head);
    assert_eq!(head.direction, Direction::Down);
    // A rejected key does not block the ones after it.
    let left_and_down = DirectionKeys { left: true, right: false, up: false, down: true };
    let mut head = head_going(Direction::Right);
    player_input(left_and_down, &mut head);
    assert_eq!(head.direction, Direction::Down);
}

#[test]
fn input_touches_neither_position_nor_timer() {
    let mut head = SnakeHead {
        direction: Direction::Right,
        next_move_timer: CooldownTimer { period: MOVE_PERIOD, elapsed: 123 },
        position: GridPosition::new(96, -64),
    };
    player_input(up(), &mut head);
    assert_eq!(head.position, GridPosition::new(96, -64));
    assert_eq!(head.next_move_timer, CooldownTimer { period: MOVE_PERIOD, elapsed: 123 });
}

#[test]
fn one_tick_at_exactly_the_cooldown_moves_the_head_one_cell() {
    let mut history = PositionHistory::new();
    let mut head = SnakeHead::new();
    let mut segments = SnakeSegments::new();
    let stepped = snake_movement_system(&mut history, &mut head, &mut segments, MOVE_PERIOD);
    assert!(stepped);
    assert_eq!(head.position, GridPosition::new(32, 0));
    assert_eq!(history.front(), Some(GridPosition::new(0, 0)));
    assert_eq!(history.len(), 1);
    assert_eq!(head.next_move_timer.elapsed, 0);
    assert_eq!(head.direction, Direction::Right);
}

#[test]
fn no_step_before_the_cooldown_has_run_out() {
    let mut history = PositionHistory::new();
    let mut head = SnakeHead::new();
    let mut segments = SnakeSegments::new();
    let stepped = snake_movement_system(&mut history, &mut head, &mut segments, MOVE_PERIOD - 1);
    assert!(!stepped);
    assert_eq!(head.position, GridPosition::new(0, 0));
    assert_eq!(history.len(), 0);
    assert_eq!(head.next_move_timer.elapsed, MOVE_PERIOD - 1);
    let stepped = snake_movement_system(&mut history, &mut head, &mut segments, 1);
    assert!(stepped);
    assert_eq!(head.position, GridPosition::new(32, 0));
}

#[test]
fn each_direction_moves_along_its_axis() {
    let expected = [
        (Direction::Right, GridPosition::new(32, 0)),
        (Direction::Left, GridPosition::new(-32, 0)),
        (Direction::Up, GridPosition::new(0, 32)),
        (Direction::Down, GridPosition::new(0, -32)),
    ];
    for (direction, position) in expected {
        let mut history = PositionHistory::new();
        let mut head = head_going(direction);
        let mut segments = SnakeSegments::new();
        assert!(snake_movement_system(&mut history, &mut head, &mut segments, MOVE_PERIOD));
        assert_eq!(head.position, position);
    }
}

#[test]
fn three_ticks_with_one_segment_trail_the_head() {
    let start = GridPosition::new(0, 0);
    let first = GridPosition::new(32, 0);
    let second = GridPosition::new(64, 0);
    let third = GridPosition::new(96, 0);
    let mut history = PositionHistory::new();
    let mut head = SnakeHead::new();
    let mut segments = SnakeSegments(vec![GridPosition::new(-32, 0)]);

    assert!(snake_movement_system(&mut history, &mut head, &mut segments, MOVE_PERIOD));
    assert_eq!(history.len(), 1);
    assert_eq!(history.get(0), Some(start));
    assert_eq!(head.position, first);
    assert_eq!(segments.0, vec![start]);

    assert!(snake_movement_system(&mut history, &mut head, &mut segments, MOVE_PERIOD));
    assert_eq!(history.len(), 2);
    assert_eq!(history.get(0), Some(first));
    assert_eq!(history.get(1), Some(start));
    assert_eq!(head.position, second);
    // One behind the head: the cell the head has just left.
    assert_eq!(segments.0, vec![first]);

    assert!(snake_movement_system(&mut history, &mut head, &mut segments, MOVE_PERIOD));
    assert_eq!(history.len(), 3);
    assert_eq!(history.get(0), Some(second));
    assert_eq!(head.position, third);
    assert_eq!(segments.0, vec![second]);
}

#[test]
fn segments_follow_in_order() {
    let mut history = PositionHistory::new();
    let mut head = SnakeHead::new();
    let mut segments = SnakeSegments::new();
    for _ in 0..3 {
        assert!(snake_movement_system(&mut history, &mut head, &mut segments, MOVE_PERIOD));
        assert!(grow_snake(&mut segments, &history).is_some());
    }
    head.direction = Direction::Up;
    assert!(snake_movement_system(&mut history, &mut head, &mut segments, MOVE_PERIOD));
    assert_eq!(head.position, GridPosition::new(96, 32));
    assert_eq!(
        segments.0,
        vec![GridPosition::new(96, 0), GridPosition::new(64, 0), GridPosition::new(32, 0)]
    );
}

#[test]
fn segments_beyond_the_log_stay_where_they_are() {
    let mut history = PositionHistory::new();
    history.record(GridPosition::new(32, 0));
    let stray = GridPosition::new(-500, 700);
    let mut segments = SnakeSegments(vec![GridPosition::new(1, 1), stray, stray]);
    resync_segments(&mut segments, &history);
    assert_eq!(segments.0, vec![GridPosition::new(32, 0), stray, stray]);
}

#[test]
fn resync_places_every_segment_on_its_entry() {
    let mut history = PositionHistory::new();
    for x in [0, 32, 64, 96] {
        history.record(GridPosition::new(x, 0));
    }
    let mut segments = SnakeSegments(vec![GridPosition::new(7, 7); 3]);
    resync_segments(&mut segments, &history);
    assert_eq!(
        segments.0,
        vec![GridPosition::new(96, 0), GridPosition::new(64, 0), GridPosition::new(32, 0)]
    );
    assert_eq!(segments.len(), 3);
    assert_eq!(segments.get(1), Some(GridPosition::new(64, 0)));
    assert_eq!(segments.get(3), None);
}

#[test]
fn growth_adds_one_segment_at_the_first_free_entry() {
    let mut history = PositionHistory::new();
    for x in [0, 32, 64] {
        history.record(GridPosition::new(x, 0));
    }
    let mut segments = SnakeSegments::new();
    assert_eq!(grow_snake(&mut segments, &history), Some(GridPosition::new(64, 0)));
    assert_eq!(segments.len(), 1);
    assert_eq!(grow_snake(&mut segments, &history), Some(GridPosition::new(32, 0)));
    assert_eq!(segments.len(), 2);
    assert_eq!(grow_snake(&mut segments, &history), Some(GridPosition::new(0, 0)));
    assert_eq!(
        segments.0,
        vec![GridPosition::new(64, 0), GridPosition::new(32, 0), GridPosition::new(0, 0)]
    );
}

#[test]
fn growth_is_dropped_when_the_log_is_not_deep_enough() {
    let history = PositionHistory::new();
    let mut segments = SnakeSegments::new();
    assert_eq!(grow_snake(&mut segments, &history), None);
    assert_eq!(segments.len(), 0);

    let mut history = PositionHistory::new();
    history.record(GridPosition::new(0, 0));
    assert!(grow_snake(&mut segments, &history).is_some());
    assert_eq!(grow_snake(&mut segments, &history), None);
    assert_eq!(segments.0, vec![GridPosition::new(0, 0)]);
}

#[test]
fn dropped_growth_is_not_queued() {
    let mut history = PositionHistory::new();
    let mut head = SnakeHead::new();
    let mut segments = SnakeSegments::new();
    assert_eq!(grow_snake(&mut segments, &history), None);
    assert!(snake_movement_system(&mut history, &mut head, &mut segments, MOVE_PERIOD));
    assert_eq!(segments.len(), 0);
}

#[test]
fn grow_on_key_grows_only_when_pressed() {
    let mut history = PositionHistory::new();
    history.record(GridPosition::new(0, 0));
    history.record(GridPosition::new(32, 0));
    let mut segments = SnakeSegments::new();
    assert_eq!(grow_on_key(false, &mut segments, &history), None);
    assert_eq!(segments.len(), 0);
    assert_eq!(grow_on_key(true, &mut segments, &history), Some(GridPosition::new(32, 0)));
    assert_eq!(segments.len(), 1);
}

#[test]
fn segments_never_outnumber_the_log() {
    let mut history = PositionHistory::new();
    let mut head = SnakeHead::new();
    let mut segments = SnakeSegments::new();
    for round in 0..1500 {
        assert!(snake_movement_system(&mut history, &mut head, &mut segments, MOVE_PERIOD));
        let _ = grow_snake(&mut segments, &history);
        if round % 3 == 0 {
            let _ = grow_snake(&mut segments, &history);
        }
        assert!(segments.len() <= history.len());
        assert!(history.len() <= 1000);
    }
    assert_eq!(history.len(), 1000);
    assert_eq!(segments.len(), 1000);
    assert_eq!(head.position, GridPosition::new(1500 * 32, 0));
    assert_eq!(segments.get(0), Some(GridPosition::new(1499 * 32, 0)));
    assert_eq!(segments.get(999), Some(GridPosition::new(500 * 32, 0)));
}

#[test]
fn can_advance_guards_the_edge_of_the_coordinate_range() {
    let head = SnakeHead {
        direction: Direction::Right,
        next_move_timer: CooldownTimer { period: MOVE_PERIOD, elapsed: 0 },
        position: GridPosition::new(i32::MAX, 0),
    };
    assert!(head.can_advance(MOVE_PERIOD - 1));
    assert!(!head.can_advance(MOVE_PERIOD));
    let turned = SnakeHead { direction: Direction::Up, ..head };
    assert!(turned.can_advance(MOVE_PERIOD));
}
