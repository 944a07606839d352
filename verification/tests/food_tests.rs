use snake_core::food::{
    accepted, candidate, is_far_enough, sample_coordinate, spawn, spawn_food, spawn_from, Food,
    RawSample, Spawn, FRACTION_SCALE, MAX_SPAWN_ATTEMPTS, MIN_FOOD_DISTANCE, SPAWN_MARGIN,
};
use snake_core::grid::{Bounds, GridPosition};

const HALF: u32 = 0x8000_0000;

fn window() -> Bounds {
    Bounds { width: 600, height: 600 }
}

fn origin() -> GridPosition {
    GridPosition::new(0, 0)
}

fn inside_margin(position: GridPosition, bounds: Bounds) -> bool {
    let half_w = (bounds.width / 2) as i64;
    let half_h = (bounds.height / 2) as i64;
    let x = position.x as i64;
    let y = position.y as i64;
    32 - half_w <= x && x < half_w - 32 && 32 - half_h <= y && y < half_h - 32
}

#[test]
fn spawn_constants() {
    assert_eq!(SPAWN_MARGIN, 32);
    assert_eq!(MIN_FOOD_DISTANCE, 200);
    assert_eq!(MAX_SPAWN_ATTEMPTS, 100);
    assert_eq!(FRACTION_SCALE, 1 << 32);
}

#[test]
fn coordinate_scales_the_fraction_into_the_inset_interval() {
    // A 600 wide window leaves the interval from -268 up to, not including, 268.
    assert_eq!(sample_coordinate(0, 600), -268);
    assert_eq!(sample_coordinate(HALF, 600), 0);
    assert_eq!(sample_coordinate(HALF / 2, 600), -134);
    assert_eq!(sample_coordinate(u32::MAX, 600), 267);
    assert_eq!(sample_coordinate(1, 600), -268);
    // 4_294_967_296 / 536 rounded up is the first raw value that reaches -267.
    assert_eq!(sample_coordinate(8_012_998, 600), -268);
    assert_eq!(sample_coordinate(8_012_999, 600), -267);
}

#[test]
fn coordinate_on_an_odd_axis() {
    // Half of 601 rounds down to 300: the interval starts at -268 and is 537 long.
    assert_eq!(sample_coordinate(0, 601), -268);
    assert_eq!(sample_coordinate(u32::MAX, 601), 268);
}

#[test]
fn coordinate_on_an_axis_of_exactly_two_margins() {
    assert_eq!(sample_coordinate(0, 64), 0);
    assert_eq!(sample_coordinate(HALF, 64), 0);
    assert_eq!(sample_coordinate(u32::MAX, 64), 0);
}

#[test]
fn coordinate_on_an_axis_shorter_than_two_margins() {
    // The interval starts at 32 - 10 = 22 and runs backwards for up to 44.
    assert_eq!(sample_coordinate(0, 20), 22);
    assert_eq!(sample_coordinate(HALF, 20), 0);
    assert_eq!(sample_coordinate(u32::MAX, 20), -21);
    assert_eq!(sample_coordinate(0, 0), 32);
    assert_eq!(sample_coordinate(u32::MAX, 0), -31);
}

#[test]
fn coordinate_on_the_widest_axis() {
    assert_eq!(sample_coordinate(0, u32::MAX), 32 - 0x7fff_ffff);
    assert_eq!(sample_coordinate(u32::MAX, u32::MAX), 0x7fff_ffff - 32);
}

#[test]
fn candidate_combines_both_axes() {
    let bounds = Bounds { width: 600, height: 400 };
    assert_eq!(
        candidate(RawSample { x: 0, y: u32::MAX }, bounds),
        GridPosition::new(-268, 167)
    );
    assert_eq!(candidate(RawSample { x: HALF, y: HALF }, bounds), GridPosition::new(0, 0));
}

#[test]
fn distance_is_the_straight_line() {
    assert!(is_far_enough(GridPosition::new(200, 0), origin(), 200));
    assert!(!is_far_enough(GridPosition::new(199, 0), origin(), 200));
    assert!(is_far_enough(GridPosition::new(0, -200), origin(), 200));
    // 120, 160 and 200 are four times 30, 40 and 50.
    assert!(is_far_enough(GridPosition::new(120, 160), origin(), 200));
    assert!(!is_far_enough(GridPosition::new(120, 159), origin(), 200));
    assert!(!is_far_enough(GridPosition::new(141, 141), origin(), 200));
    assert!(is_far_enough(GridPosition::new(142, 141), origin(), 200));
    assert!(is_far_enough(GridPosition::new(100, 100), GridPosition::new(-20, -60), 200));
    assert!(!is_far_enough(GridPosition::new(100, 100), GridPosition::new(-20, -59), 200));
}

#[test]
fn distance_copes_with_extreme_values() {
    let low = GridPosition::new(i32::MIN, i32::MIN);
    let high = GridPosition::new(i32::MAX, i32::MAX);
    assert!(is_far_enough(low, high, u32::MAX));
    assert!(is_far_enough(low, low, 0));
    assert!(!is_far_enough(low, low, 1));
    assert!(!is_far_enough(GridPosition::new(i32::MIN, 0), GridPosition::new(i32::MAX - 1, 0), u32::MAX));
    assert!(is_far_enough(GridPosition::new(i32::MIN, 0), GridPosition::new(i32::MAX, 0), u32::MAX));
}

#[test]
fn a_candidate_is_accepted_when_far_enough_or_out_of_attempts() {
    let near = GridPosition::new(10, 0);
    let far = GridPosition::new(250, 0);
    assert!(accepted(far, origin(), 200, 1, 100));
    assert!(!accepted(near, origin(), 200, 1, 100));
    assert!(!accepted(near, origin(), 200, 99, 100));
    assert!(accepted(near, origin(), 200, 100, 100));
    assert!(accepted(near, origin(), 200, 1, 0));
    assert!(accepted(near, origin(), 0, 1, 100));
}

#[test]
fn search_takes_the_first_candidate_that_is_far_enough() {
    let samples = vec![
        RawSample { x: HALF, y: HALF },
        RawSample { x: HALF + 1000, y: HALF },
        RawSample { x: u32::MAX, y: HALF },
        RawSample { x: 0, y: 0 },
    ];
    let found = spawn_from(&samples, window(), origin(), 200, 100);
    assert_eq!(found, Some(Spawn { position: GridPosition::new(267, 0), attempts: 3 }));
}

#[test]
fn search_with_zero_distance_takes_the_first_candidate() {
    let samples = vec![RawSample { x: HALF, y: HALF }, RawSample { x: 0, y: 0 }];
    let found = spawn_from(&samples, window(), origin(), 0, 100);
    assert_eq!(found, Some(Spawn { position: GridPosition::new(0, 0), attempts: 1 }));
}

#[test]
fn search_falls_back_to_the_last_candidate_after_max_attempts() {
    let samples = vec![
        RawSample { x: HALF, y: HALF },
        RawSample { x: HALF, y: 0 },
        RawSample { x: 0, y: HALF },
        RawSample { x: u32::MAX, y: u32::MAX },
    ];
    // Nothing inside a 600 by 600 window is 10_000 away from its centre.
    let found = spawn_from(&samples, window(), origin(), 10_000, 3);
    assert_eq!(found, Some(Spawn { position: GridPosition::new(-268, 0), attempts: 3 }));
}

#[test]
fn fallback_accepts_a_candidate_that_is_too_close() {
    let samples = vec![RawSample { x: HALF, y: HALF }; 5];
    let found = spawn_from(&samples, window(), origin(), 200, 5);
    assert_eq!(found, Some(Spawn { position: origin(), attempts: 5 }));
    assert!(!is_far_enough(origin(), origin(), 200));
}

#[test]
fn search_draws_one_candidate_even_with_no_attempts_allowed() {
    let samples = vec![RawSample { x: HALF, y: HALF }, RawSample { x: 0, y: 0 }];
    let found = spawn_from(&samples, window(), origin(), 200, 0);
    assert_eq!(found, Some(Spawn { position: origin(), attempts: 1 }));
    let found = spawn_from(&samples, window(), origin(), 200, 1);
    assert_eq!(found, Some(Spawn { position: origin(), attempts: 1 }));
}

#[test]
fn search_without_enough_samples_finds_nothing() {
    assert_eq!(spawn_from(&Vec::new(), window(), origin(), 0, 100), None);
    let samples = vec![RawSample { x: HALF, y: HALF }; 4];
    assert_eq!(spawn_from(&samples, window(), origin(), 200, 5), None);
    assert!(spawn_from(&samples, window(), origin(), 200, 4).is_some());
}

#[test]
fn search_measures_from_the_head() {
    let samples = vec![RawSample { x: HALF, y: HALF }];
    let head = GridPosition::new(-200, 0);
    let found = spawn_from(&samples, window(), head, 200, 100);
    assert_eq!(found, Some(Spawn { position: origin(), attempts: 1 }));
    let head = GridPosition::new(-199, 0);
    assert_eq!(spawn_from(&samples, window(), head, 200, 100), None);
}

#[test]
fn spawn_with_zero_distance_returns_on_the_first_attempt() {
    for _ in 0..200 {
        let found = spawn(window(), origin(), 0, 100);
        assert_eq!(found.attempts, 1);
        assert!(inside_margin(found.position, window()));
    }
}

#[test]
fn spawn_with_unreachable_distance_uses_every_attempt() {
    for max_attempts in [1u32, 2, 7, 100] {
        let found = spawn(window(), origin(), 10_000, max_attempts);
        assert_eq!(found.attempts, max_attempts);
        assert!(inside_margin(found.position, window()));
    }
    let found = spawn(window(), origin(), 10_000, 0);
    assert_eq!(found.attempts, 1);
}

#[test]
fn spawn_keeps_the_distance_unless_attempts_ran_out() {
    for _ in 0..200 {
        let found = spawn(window(), origin(), 200, 100);
        assert!(found.attempts >= 1 && found.attempts <= 100);
        assert!(inside_margin(found.position, window()));
        if found.attempts < 100 {
            assert!(is_far_enough(found.position, origin(), 200));
        }
    }
}

#[test]
fn spawn_draws_fresh_candidates() {
    let first = spawn(Bounds { width: 100_000, height: 100_000 }, origin(), 0, 1);
    let mut differs = false;
    for _ in 0..64 {
        let next = spawn(Bounds { width: 100_000, height: 100_000 }, origin(), 0, 1);
        differs = differs || next.position != first.position;
    }
    assert!(differs);
}

#[test]
fn spawn_food_stays_inside_the_margin() {
    for _ in 0..200 {
        let food: Food = spawn_food(1024, 768, Some(GridPosition::new(64, 32)));
        assert!(inside_margin(food.position, Bounds { width: 1024, height: 768 }));
    }
    let food = spawn_food(600, 600, None);
    assert!(inside_margin(food.position, window()));
}

#[test]
fn spawn_food_in_a_tiny_window_lands_between_the_inset_edges() {
    for _ in 0..50 {
        let food = spawn_food(20, 20, None);
        assert!(-22 <= food.position.x && food.position.x <= 22);
        assert!(-22 <= food.position.y && food.position.y <= 22);
    }
}
