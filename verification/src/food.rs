//! Food and where it appears.
//!
//! A spawn draws random candidates inside the window, away from its border,
//! and takes the first one that lies far enough from the head. The distance
//! is a preference, not a promise: when the attempts run out, the last
//! candidate is taken as it is.

use vstd::prelude::*;

use crate::grid::{Bounds, GridPosition};

verus! {

/// Width of the strip along each border of the window that food keeps out of.
pub const SPAWN_MARGIN: u32 = 32;

/// Distance from the head that a fresh piece of food should keep.
pub const MIN_FOOD_DISTANCE: u32 = 200;

/// Candidates drawn for one piece of food before the distance is given up.
pub const MAX_SPAWN_ATTEMPTS: u32 = 100;

/// A raw random number `r` stands for the fraction `r / FRACTION_SCALE` of
/// the unit interval.
pub const FRACTION_SCALE: u64 = 0x1_0000_0000;

/// The piece of food on the playfield.
#[derive(Clone, Copy, Debug, PartialEq, Eq, Structural)]
pub struct Food {
    pub position: GridPosition,
}

/// Two raw random numbers, one for each axis of a candidate position.
#[derive(Clone, Copy, Debug, PartialEq, Eq, Structural)]
pub struct RawSample {
    pub x: u32,
    pub y: u32,
}

/// Where a spawn put the food and how many candidates it drew to get there.
#[derive(Clone, Copy, Debug, PartialEq, Eq, Structural)]
pub struct Spawn {
    pub position: GridPosition,
    pub attempts: u32,
}

/// The coordinate at which the inset interval of an axis of length `extent`
/// starts: the margin away from the lower border.
pub open spec fn inset_low(extent: u32) -> int {
    SPAWN_MARGIN as int - (extent as int) / 2
}

/// Length of the inset interval of an axis of length `extent`. It is negative
/// for an axis shorter than two margins.
pub open spec fn inset_span(extent: u32) -> int {
    extent as int - 2 * (SPAWN_MARGIN as int)
}

/// The fraction `raw / FRACTION_SCALE` of `span`, rounded towards zero.
pub open spec fn scaled(raw: u32, span: int) -> int {
    if span >= 0 {
        (raw as int * span) / (FRACTION_SCALE as int)
    } else {
        -((raw as int * (-span)) / (FRACTION_SCALE as int))
    }
}

/// The coordinate that the raw number `raw` selects on an axis of length
/// `extent`.
pub open spec fn sampled_coordinate(raw: u32, extent: u32) -> int {
    inset_low(extent) + scaled(raw, inset_span(extent))
}

/// Whether `c` lies in the inset interval of an axis of length `extent`. On
/// an axis shorter than two margins the interval runs backwards from its
/// start.
pub open spec fn within_inset_axis(c: int, extent: u32) -> bool {
    if inset_span(extent) > 0 {
        inset_low(extent) <= c < inset_low(extent) + inset_span(extent)
    } else {
        inset_low(extent) + inset_span(extent) <= c <= inset_low(extent)
    }
}

/// Whether `position` keeps the margin from every border of `bounds`.
pub open spec fn within_inset(position: GridPosition, bounds: Bounds) -> bool {
    &&& within_inset_axis(position.x as int, bounds.width)
    &&& within_inset_axis(position.y as int, bounds.height)
}

/// The candidate position that `sample` selects inside `bounds`.
pub open spec fn spec_candidate(sample: RawSample, bounds: Bounds) -> GridPosition {
    GridPosition {
        x: sampled_coordinate(sample.x, bounds.width) as i32,
        y: sampled_coordinate(sample.y, bounds.height) as i32,
    }
}

/// Square of the straight-line distance between two positions.
pub open spec fn distance_squared(a: GridPosition, b: GridPosition) -> int {
    (a.x - b.x) * (a.x - b.x) + (a.y - b.y) * (a.y - b.y)
}

/// Whether `candidate` lies at least `min_distance` away from `head`.
pub open spec fn far_enough(candidate: GridPosition, head: GridPosition, min_distance: u32) -> bool {
    distance_squared(candidate, head) >= min_distance as int * min_distance as int
}

/// Whether the search ends with `candidate`, the `attempts`-th one drawn: it
/// is far enough from the head, or the attempts have run out.
pub open spec fn spec_accepted(
    candidate: GridPosition,
    head: GridPosition,
    min_distance: u32,
    attempts: int,
    max_attempts: u32,
) -> bool {
    far_enough(candidate, head, min_distance) || attempts >= max_attempts
}

/// Whether no place inside `bounds` that keeps the margin lies at least
/// `min_distance` away from `head`.
pub open spec fn out_of_reach(bounds: Bounds, head: GridPosition, min_distance: u32) -> bool {
    forall|position: GridPosition| #[trigger]
        within_inset(position, bounds) ==> !far_enough(position, head, min_distance)
}

/// The outcome of a search that has turned down the candidates before index
/// `start` and draws the remaining ones of `samples` in order: the first
/// candidate that is accepted, with the number of candidates drawn up to it,
/// or `None` if the samples run out first.
pub open spec fn search_from(
    samples: Seq<RawSample>,
    start: int,
    bounds: Bounds,
    head: GridPosition,
    min_distance: u32,
    max_attempts: u32,
) -> Option<Spawn>
    decreases samples.len() - start,
{
    if start < 0 || start >= samples.len() {
        None
    } else if spec_accepted(
        spec_candidate(samples[start], bounds),
        head,
        min_distance,
        start + 1,
        max_attempts,
    ) {
        Some(Spawn { position: spec_candidate(samples[start], bounds), attempts: (start + 1) as u32 })
    } else {
        search_from(samples, start + 1, bounds, head, min_distance, max_attempts)
    }
}

/// The outcome of a search that draws its candidates from `samples` in order.
pub open spec fn searched(
    samples: Seq<RawSample>,
    bounds: Bounds,
    head: GridPosition,
    min_distance: u32,
    max_attempts: u32,
) -> Option<Spawn> {
    search_from(samples, 0, bounds, head, min_distance, max_attempts)
}

/// Whether a search that draws its candidates from `samples` ends at
/// `position`.
pub open spec fn found_at(
    samples: Seq<RawSample>,
    bounds: Bounds,
    head: GridPosition,
    min_distance: u32,
    max_attempts: u32,
    position: GridPosition,
) -> bool {
    searched(samples, bounds, head, min_distance, max_attempts) matches Some(spawn)
        && spawn.position == position
}

/// The position the distance of new food is measured from: the head, or the
/// centre of the playfield while there is no head.
pub open spec fn measured_from(player_pos: Option<GridPosition>) -> GridPosition {
    match player_pos {
        Some(position) => position,
        None => GridPosition::spec_origin(),
    }
}

/// Whether `food` is where a search with the standard distance and number of
/// attempts can end in a window of the given size: there are samples for
/// which it ends there.
pub open spec fn food_spawned(
    window_w: u32,
    window_h: u32,
    player_pos: Option<GridPosition>,
    food: Food,
) -> bool {
    exists|samples: Seq<RawSample>| #[trigger]
        found_at(
            samples,
            (Bounds { width: window_w, height: window_h }),
            measured_from(player_pos),
            MIN_FOOD_DISTANCE,
            MAX_SPAWN_ATTEMPTS,
            food.position,
        )
}

/// Scaling by a fraction of the unit interval lands inside the span.
proof fn lemma_scaled_range(raw: u32, span: int)
    ensures
        span > 0 ==> 0 <= scaled(raw, span) < span,
        span == 0 ==> scaled(raw, span) == 0,
        span < 0 ==> span < scaled(raw, span) <= 0,
        0 <= span ==> raw as int * span >= 0,
        span <= 0 ==> raw as int * (-span) >= 0,
        -0x1_0000_0000 <= span <= 0x1_0000_0000 ==> raw as int * span < 0x1_0000_0000_0000_0000
            && raw as int * (-span) < 0x1_0000_0000_0000_0000,
{
    let r = raw as int;
    let scale = FRACTION_SCALE as int;
    assert(0 <= span ==> r * span >= 0) by (nonlinear_arith)
        requires
            r >= 0,
    ;
    assert(span <= 0 ==> r * (-span) >= 0) by (nonlinear_arith)
        requires
            r >= 0,
    ;
    assert(span > 0 ==> r * span < scale * span) by (nonlinear_arith)
        requires
            0 <= r < scale,
    ;
    assert(span < 0 ==> r * (-span) < scale * (-span)) by (nonlinear_arith)
        requires
            0 <= r < scale,
    ;
    assert(-0x1_0000_0000 <= span <= 0x1_0000_0000 ==> r * span < 0x1_0000_0000_0000_0000 && r
        * (-span) < 0x1_0000_0000_0000_0000) by (nonlinear_arith)
        requires
            0 <= r < 0x1_0000_0000,
    ;
    if span > 0 {
        assert((r * span) / scale < span) by (nonlinear_arith)
            requires
                0 <= r * span < scale * span,
                scale > 0,
        ;
        assert((r * span) / scale >= 0) by (nonlinear_arith)
            requires
                0 <= r * span,
                scale > 0,
        ;
    } else if span < 0 {
        assert((r * (-span)) / scale < -span) by (nonlinear_arith)
            requires
                0 <= r * (-span) < scale * (-span),
                scale > 0,
        ;
        assert((r * (-span)) / scale >= 0) by (nonlinear_arith)
            requires
                0 <= r * (-span),
                scale > 0,
        ;
    } else {
        assert(r * span == 0) by (nonlinear_arith)
            requires
                span == 0,
        ;
    }
}

/// Every raw number selects a coordinate inside the inset interval.
pub proof fn lemma_sampled_within_inset(raw: u32, extent: u32)
    ensures
        within_inset_axis(sampled_coordinate(raw, extent), extent),
        i32::MIN <= sampled_coordinate(raw, extent) <= i32::MAX,
{
    lemma_scaled_range(raw, inset_span(extent));
}

/// Every sample selects a candidate that keeps the margin from the border.
pub proof fn lemma_candidate_within_inset(sample: RawSample, bounds: Bounds)
    ensures
        within_inset(spec_candidate(sample, bounds), bounds),
        spec_candidate(sample, bounds).x == sampled_coordinate(sample.x, bounds.width),
        spec_candidate(sample, bounds).y == sampled_coordinate(sample.y, bounds.height),
{
    lemma_sampled_within_inset(sample.x, bounds.width);
    lemma_sampled_within_inset(sample.y, bounds.height);
}

/// The coordinate that `raw` selects on an axis of length `extent`.
pub fn sample_coordinate(raw: u32, extent: u32) -> (c: i32)
    ensures
        c == sampled_coordinate(raw, extent),
        within_inset_axis(c as int, extent),
{
    let low: i64 = SPAWN_MARGIN as i64 - (extent / 2) as i64;
    let span: i64 = extent as i64 - 2 * (SPAWN_MARGIN as i64);
    proof {
        lemma_scaled_range(raw, span as int);
        lemma_sampled_within_inset(raw, extent);
    }
    let offset: i64 = if span >= 0 {
        ((raw as u64 * span as u64) / FRACTION_SCALE) as i64
    } else {
        -(((raw as u64 * (-span) as u64) / FRACTION_SCALE) as i64)
    };
    (low + offset) as i32
}

/// The candidate position that `sample` selects inside `bounds`.
#[verifier::when_used_as_spec(spec_candidate)]
pub fn candidate(sample: RawSample, bounds: Bounds) -> (position: GridPosition)
    ensures
        position == spec_candidate(sample, bounds),
        within_inset(position, bounds),
{
    proof {
        lemma_candidate_within_inset(sample, bounds);
    }
    GridPosition {
        x: sample_coordinate(sample.x, bounds.width),
        y: sample_coordinate(sample.y, bounds.height),
    }
}

/// Tests whether `candidate` lies at least `min_distance` away from `head`.
pub fn is_far_enough(candidate: GridPosition, head: GridPosition, min_distance: u32) -> (far: bool)
    ensures
        far == far_enough(candidate, head, min_distance),
{
    let dx: i128 = candidate.x as i128 - head.x as i128;
    let dy: i128 = candidate.y as i128 - head.y as i128;
    let min: i128 = min_distance as i128;
    assert(0 <= dx * dx <= 0x1_0000_0000_0000_0000) by (nonlinear_arith)
        requires
            -0x1_0000_0000 <= dx <= 0x1_0000_0000,
    ;
    assert(0 <= dy * dy <= 0x1_0000_0000_0000_0000) by (nonlinear_arith)
        requires
            -0x1_0000_0000 <= dy <= 0x1_0000_0000,
    ;
    assert(0 <= min * min <= 0x1_0000_0000_0000_0000) by (nonlinear_arith)
        requires
            0 <= min <= 0x1_0000_0000,
    ;
    dx * dx + dy * dy >= min * min
}

/// Decides whether the search ends with `candidate`, the `attempts`-th one
/// drawn.
pub fn accepted(
    candidate: GridPosition,
    head: GridPosition,
    min_distance: u32,
    attempts: u32,
    max_attempts: u32,
) -> (done: bool)
    ensures
        done == spec_accepted(candidate, head, min_distance, attempts as int, max_attempts),
{
    is_far_enough(candidate, head, min_distance) || attempts >= max_attempts
}

/// Draws a random number, every value of `u32` being as likely as any other.
///
/// Trusted: the body calls `rand::random::<u32>()`, which reads the
/// thread-local generator of the `rand` crate. Nothing is claimed of the
/// value. The generator aborts the program if the operating system cannot
/// seed it; that is outside what is proved here.
#[verifier::external_body]
fn random_fraction() -> (raw: u32) {
    rand::random::<u32>()
}

/// Finds a place for a piece of food, drawing the candidates from `samples`
/// in order. Returns `None` if the samples run out before the search ends.
pub fn spawn_from(
    samples: &Vec<RawSample>,
    bounds: Bounds,
    head_position: GridPosition,
    min_distance: u32,
    max_attempts: u32,
) -> (spawn: Option<Spawn>)
    ensures
        spawn == searched(samples@, bounds, head_position, min_distance, max_attempts),
{
    let mut i: usize = 0;
    while i < samples.len()
        invariant
            i <= samples.len(),
            i == 0 || i < max_attempts,
            searched(samples@, bounds, head_position, min_distance, max_attempts) == search_from(
                samples@,
                i as int,
                bounds,
                head_position,
                min_distance,
                max_attempts,
            ),
        decreases samples.len() - i,
    {
        let position: GridPosition = candidate(samples[i], bounds);
        let attempts: u32 = (i + 1) as u32;
        if accepted(position, head_position, min_distance, attempts, max_attempts) {
            return Some(Spawn { position, attempts });
        }
        i += 1;
    }
    None
}

/// Finds a place for a piece of food inside `bounds`. Candidates are drawn at
/// random, keeping the margin from every border; the first one at least
/// `min_distance` away from `head_position` is taken, and if `max_attempts`
/// candidates have been drawn the last of them is taken wherever it lies. At
/// least one candidate is always drawn.
pub fn spawn(bounds: Bounds, head_position: GridPosition, min_distance: u32, max_attempts: u32) -> (spawn:
    Spawn)
    ensures
        exists|samples: Seq<RawSample>| #[trigger]
            searched(samples, bounds, head_position, min_distance, max_attempts) == Some(spawn),
        within_inset(spawn.position, bounds),
        1 <= spawn.attempts,
        spawn.attempts <= max_attempts || spawn.attempts == 1,
        spawn.attempts < max_attempts ==> far_enough(spawn.position, head_position, min_distance),
        min_distance == 0 ==> spawn.attempts == 1,
        out_of_reach(bounds, head_position, min_distance) ==> spawn.attempts == (if max_attempts
            == 0 {
            1u32
        } else {
            max_attempts
        }),
{
    let ghost mut drawn: Seq<RawSample> = Seq::empty();
    let mut attempts: u32 = 0;
    let mut position: GridPosition = head_position;
    loop
        invariant_except_break
            attempts == drawn.len(),
            attempts == 0 || attempts < max_attempts,
            forall|k: int|
                0 <= k < drawn.len() ==> !spec_accepted(
                    #[trigger] spec_candidate(drawn[k], bounds),
                    head_position,
                    min_distance,
                    k + 1,
                    max_attempts,
                ),
        ensures
            1 <= attempts == drawn.len(),
            attempts <= max_attempts || attempts == 1,
            position == spec_candidate(drawn[attempts - 1], bounds),
            spec_accepted(position, head_position, min_distance, attempts as int, max_attempts),
            forall|k: int|
                0 <= k < attempts - 1 ==> !spec_accepted(
                    #[trigger] spec_candidate(drawn[k], bounds),
                    head_position,
                    min_distance,
                    k + 1,
                    max_attempts,
                ),
        decreases
                (if attempts == 0 {
                    max_attempts + 1
                } else {
                    max_attempts - attempts
                }),
    {
        let sample = RawSample { x: random_fraction(), y: random_fraction() };
        position = candidate(sample, bounds);
        attempts += 1;
        proof {
            drawn = drawn.push(sample);
        }
        if accepted(position, head_position, min_distance, attempts, max_attempts) {
            break ;
        }
    }
    proof {
        lemma_search_finds_first(
            drawn,
            attempts - 1,
            bounds,
            head_position,
            min_distance,
            max_attempts,
        );
        lemma_candidate_within_inset(drawn[attempts - 1], bounds);
        if attempts > 1 {
            lemma_zero_distance_always_far(spec_candidate(drawn[0], bounds), head_position);
        }
    }
    Spawn { position, attempts }
}

/// Finds a place for the next piece of food in a window of the given size,
/// preferring places at least `MIN_FOOD_DISTANCE` from the head and giving
/// the preference up after `MAX_SPAWN_ATTEMPTS` candidates. Without a head
/// the distance is measured from the centre of the playfield.
pub fn spawn_food(window_w: u32, window_h: u32, player_pos: Option<GridPosition>) -> (food: Food)
    ensures
        food_spawned(window_w, window_h, player_pos, food),
        within_inset(food.position, (Bounds { width: window_w, height: window_h })),
{
    let head_position: GridPosition = match player_pos {
        Some(position) => position,
        None => GridPosition::origin(),
    };
    let bounds = Bounds { width: window_w, height: window_h };
    let found: Spawn = spawn(bounds, head_position, MIN_FOOD_DISTANCE, MAX_SPAWN_ATTEMPTS);
    let food = Food { position: found.position };
    proof {
        let samples = choose|samples: Seq<RawSample>| #[trigger]
            searched(samples, bounds, head_position, MIN_FOOD_DISTANCE, MAX_SPAWN_ATTEMPTS)
                == Some(found);
        assert(found_at(
            samples,
            bounds,
            measured_from(player_pos),
            MIN_FOOD_DISTANCE,
            MAX_SPAWN_ATTEMPTS,
            food.position,
        ));
    }
    food
}

/// Food that was spawned lies where some sample puts a candidate, and so
/// keeps the margin from every border of the window.
pub proof fn lemma_food_spawned(
    window_w: u32,
    window_h: u32,
    player_pos: Option<GridPosition>,
    food: Food,
)
    requires
        food_spawned(window_w, window_h, player_pos, food),
    ensures
        within_inset(food.position, (Bounds { width: window_w, height: window_h })),
        exists|sample: RawSample|
            food.position == #[trigger] spec_candidate(
                sample,
                (Bounds { width: window_w, height: window_h }),
            ),
{
    let bounds = Bounds { width: window_w, height: window_h };
    let samples = choose|samples: Seq<RawSample>| #[trigger]
        found_at(
            samples,
            bounds,
            measured_from(player_pos),
            MIN_FOOD_DISTANCE,
            MAX_SPAWN_ATTEMPTS,
            food.position,
        );
    lemma_search_outcome(
        samples,
        bounds,
        measured_from(player_pos),
        MIN_FOOD_DISTANCE,
        MAX_SPAWN_ATTEMPTS,
    );
    let spawn = searched(
        samples,
        bounds,
        measured_from(player_pos),
        MIN_FOOD_DISTANCE,
        MAX_SPAWN_ATTEMPTS,
    ).unwrap();
    assert(food.position == spec_candidate(samples[spawn.attempts - 1], bounds));
}

/// Every position is at least a distance of zero away from every other.
pub proof fn lemma_zero_distance_always_far(candidate: GridPosition, head: GridPosition)
    ensures
        far_enough(candidate, head, 0),
{
    let dx = candidate.x - head.x;
    let dy = candidate.y - head.y;
    assert(dx * dx >= 0) by (nonlinear_arith);
    assert(dy * dy >= 0) by (nonlinear_arith);
}

/// A search whose first `rejected` candidates are all turned down and whose
/// next candidate is accepted ends with that candidate.
pub proof fn lemma_search_finds_first(
    samples: Seq<RawSample>,
    rejected: int,
    bounds: Bounds,
    head: GridPosition,
    min_distance: u32,
    max_attempts: u32,
)
    requires
        0 <= rejected < samples.len(),
        forall|k: int|
            0 <= k < rejected ==> !spec_accepted(
                #[trigger] spec_candidate(samples[k], bounds),
                head,
                min_distance,
                k + 1,
                max_attempts,
            ),
        spec_accepted(
            spec_candidate(samples[rejected], bounds),
            head,
            min_distance,
            rejected + 1,
            max_attempts,
        ),
    ensures
        rejected + 1 <= u32::MAX,
        searched(samples, bounds, head, min_distance, max_attempts) == Some(
            Spawn {
                position: spec_candidate(samples[rejected], bounds),
                attempts: (rejected + 1) as u32,
            },
        ),
{
    lemma_search_skips(samples, 0, rejected, bounds, head, min_distance, max_attempts);
    if rejected > 0 {
        let k = rejected - 1;
        assert(!spec_accepted(
            spec_candidate(samples[k], bounds),
            head,
            min_distance,
            k + 1,
            max_attempts,
        ));
    }
}

/// What the outcome of a search says about the samples it drew from. A
/// search that ends took the first candidate that was accepted, having
/// turned down every one before it, and drew no more candidates than
/// `max_attempts`, or one if that is zero. A search that does not end turned
/// down every candidate there was.
pub proof fn lemma_search_outcome(
    samples: Seq<RawSample>,
    bounds: Bounds,
    head: GridPosition,
    min_distance: u32,
    max_attempts: u32,
)
    ensures
        match searched(samples, bounds, head, min_distance, max_attempts) {
            Some(spawn) => {
                &&& 1 <= spawn.attempts <= samples.len()
                &&& spawn.attempts <= max_attempts || spawn.attempts == 1
                &&& spawn.position == spec_candidate(samples[spawn.attempts - 1], bounds)
                &&& within_inset(spawn.position, bounds)
                &&& spec_accepted(
                    spawn.position,
                    head,
                    min_distance,
                    spawn.attempts as int,
                    max_attempts,
                )
                &&& forall|k: int|
                    0 <= k < spawn.attempts - 1 ==> !spec_accepted(
                        #[trigger] spec_candidate(samples[k], bounds),
                        head,
                        min_distance,
                        k + 1,
                        max_attempts,
                    )
            },
            None => {
                &&& samples.len() == 0 || samples.len() < max_attempts
                &&& forall|k: int|
                    0 <= k < samples.len() ==> !spec_accepted(
                        #[trigger] spec_candidate(samples[k], bounds),
                        head,
                        min_distance,
                        k + 1,
                        max_attempts,
                    )
            },
        },
{
    lemma_search_from_outcome(samples, 0, bounds, head, min_distance, max_attempts);
    match searched(samples, bounds, head, min_distance, max_attempts) {
        Some(spawn) => {
            lemma_candidate_within_inset(samples[spawn.attempts - 1], bounds);
        },
        None => {
            if samples.len() > 0 {
                let last = samples.len() - 1;
                assert(!spec_accepted(
                    spec_candidate(samples[last], bounds),
                    head,
                    min_distance,
                    last + 1,
                    max_attempts,
                ));
            }
        },
    }
}

/// With a minimum distance of zero the first candidate is taken.
pub proof fn lemma_zero_distance_first_attempt(
    samples: Seq<RawSample>,
    bounds: Bounds,
    head: GridPosition,
    max_attempts: u32,
)
    requires
        samples.len() >= 1,
    ensures
        searched(samples, bounds, head, 0, max_attempts) == Some(
            Spawn { position: spec_candidate(samples[0], bounds), attempts: 1 },
        ),
{
    lemma_zero_distance_always_far(spec_candidate(samples[0], bounds), head);
}

/// With a minimum distance that no place inside the bounds can keep, a search
/// that ends has drawn exactly `max_attempts` candidates, or one if that is
/// zero, and has taken the last of them.
pub proof fn lemma_out_of_reach_uses_every_attempt(
    samples: Seq<RawSample>,
    bounds: Bounds,
    head: GridPosition,
    min_distance: u32,
    max_attempts: u32,
)
    requires
        out_of_reach(bounds, head, min_distance),
    ensures
        match searched(samples, bounds, head, min_distance, max_attempts) {
            Some(spawn) => {
                &&& spawn.attempts == (if max_attempts == 0 {
                    1u32
                } else {
                    max_attempts
                })
                &&& spawn.position == spec_candidate(samples[spawn.attempts - 1], bounds)
                &&& !far_enough(spawn.position, head, min_distance)
            },
            None => samples.len() == 0 || samples.len() < max_attempts,
        },
{
    lemma_search_outcome(samples, bounds, head, min_distance, max_attempts);
}

/// The outcome of a search that goes on at index `start`, in terms of the
/// samples from there on.
proof fn lemma_search_from_outcome(
    samples: Seq<RawSample>,
    start: int,
    bounds: Bounds,
    head: GridPosition,
    min_distance: u32,
    max_attempts: u32,
)
    requires
        0 <= start,
        start == 0 || start < max_attempts,
    ensures
        match search_from(samples, start, bounds, head, min_distance, max_attempts) {
            Some(spawn) => {
                &&& start < spawn.attempts <= samples.len()
                &&& spawn.attempts <= max_attempts || spawn.attempts == 1
                &&& spawn.position == spec_candidate(samples[spawn.attempts - 1], bounds)
                &&& spec_accepted(
                    spawn.position,
                    head,
                    min_distance,
                    spawn.attempts as int,
                    max_attempts,
                )
                &&& forall|k: int|
                    start <= k < spawn.attempts - 1 ==> !spec_accepted(
                        #[trigger] spec_candidate(samples[k], bounds),
                        head,
                        min_distance,
                        k + 1,
                        max_attempts,
                    )
            },
            None => forall|k: int|
                start <= k < samples.len() ==> !spec_accepted(
                    #[trigger] spec_candidate(samples[k], bounds),
                    head,
                    min_distance,
                    k + 1,
                    max_attempts,
                ),
        },
    decreases samples.len() - start,
{
    if start < samples.len() && !spec_accepted(
        spec_candidate(samples[start], bounds),
        head,
        min_distance,
        start + 1,
        max_attempts,
    ) {
        lemma_search_from_outcome(samples, start + 1, bounds, head, min_distance, max_attempts);
    }
}

/// A search that turns down every candidate from `start` up to `end` goes on
/// from `end` as if it had started there.
proof fn lemma_search_skips(
    samples: Seq<RawSample>,
    start: int,
    end: int,
    bounds: Bounds,
    head: GridPosition,
    min_distance: u32,
    max_attempts: u32,
)
    requires
        0 <= start <= end < samples.len(),
        forall|k: int|
            start <= k < end ==> !spec_accepted(
                #[trigger] spec_candidate(samples[k], bounds),
                head,
                min_distance,
                k + 1,
                max_attempts,
            ),
    ensures
        search_from(samples, start, bounds, head, min_distance, max_attempts) == search_from(
            samples,
            end,
            bounds,
            head,
            min_distance,
            max_attempts,
        ),
    decreases end - start,
{
    if start < end {
        assert(!spec_accepted(
            spec_candidate(samples[start], bounds),
            head,
            min_distance,
            start + 1,
            max_attempts,
        ));
        lemma_search_skips(samples, start + 1, end, bounds, head, min_distance, max_attempts);
    }
}

} // verus!
