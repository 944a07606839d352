//! The game as a whole: the state machine together with the run it owns.
//!
//! The run exists exactly while the application is in its in-game state. It
//! is created afresh whenever that state is entered and dropped whenever it
//! is left, so nothing of one run carries over into the next. The simulation
//! is advanced only while the nested state is live: a paused run and a run
//! that is over do not consume time and do not change.

use vstd::prelude::*;

use crate::collision::{eat_count, CollisionEvent};
use crate::grid::Bounds;
use crate::simulation::{SimulationContext, SnakeInput, Snapshot, TickReport};
use crate::snake::SnakeHead;
use crate::state::{AppState, GameEvent, GameState, IsPaused};
use crate::timer::{CooldownTimer, SETTLE_DELAY};

verus! {

/// The resolved input of one frame.
#[derive(Clone, Copy, Debug, PartialEq, Eq, Structural)]
pub struct FrameInput {
    /// Whether the restart key went down.
    pub restart: bool,
    /// Whether the pause key went down.
    pub pause: bool,
    /// What is asked of the snake.
    pub snake: SnakeInput,
}

/// What one frame did.
#[derive(Clone, Copy, Debug, PartialEq, Eq, Structural)]
pub struct FrameReport {
    /// What the simulation did, if it was advanced in this frame.
    pub tick: Option<TickReport>,
}

/// The game as plain mathematical values.
pub struct GameView {
    pub state: GameState,
    /// The delay between asking for a run and starting it.
    pub settle: CooldownTimer,
    /// The run, while one is on.
    pub run: Option<Snapshot>,
}

impl Snapshot {
    /// A run at its start: the head at the centre of the playfield, heading
    /// right, and nothing else.
    pub open spec fn started() -> Snapshot {
        Snapshot::initial().with_head(SnakeHead::spec_new())
    }
}

impl GameState {
    /// The state after `event` if `happened`, and the state itself otherwise.
    pub open spec fn apply_if(self, happened: bool, event: GameEvent) -> GameState {
        if happened {
            self.spec_apply(event)
        } else {
            self
        }
    }
}

impl GameView {
    /// The nested state exists exactly while a run is on, and so does the
    /// run, which keeps its own invariant.
    pub open spec fn wf(self) -> bool {
        &&& self.state.wf()
        &&& (self.run is Some) == (self.state.app == AppState::InGame)
        &&& self.run matches Some(run) ==> run.wf()
    }

    /// The game before anything has happened.
    pub open spec fn initial() -> GameView {
        GameView {
            state: GameState::spec_initial(),
            settle: CooldownTimer { period: SETTLE_DELAY, elapsed: 0 },
            run: None,
        }
    }

    /// The game after `event`. Where the event changes the top-level state,
    /// the run is dropped, a fresh one is started if a run is entered, and
    /// the settle delay starts over if loading is entered. Where it does
    /// not, only the nested state can change.
    pub open spec fn handle(self, event: GameEvent) -> GameView {
        let next = self.state.spec_apply(event);
        if next.app == self.state.app {
            GameView { state: next, settle: self.settle, run: self.run }
        } else {
            GameView {
                state: next,
                settle: if next.app == AppState::InGameLoading {
                    CooldownTimer { period: self.settle.period, elapsed: 0 }
                } else {
                    self.settle
                },
                run: if next.app == AppState::InGame {
                    Some(Snapshot::started())
                } else {
                    None
                },
            }
        }
    }

    /// Whether the simulation is advanced in a frame with this input.
    pub open spec fn simulates(self, input: FrameInput) -> bool {
        !input.restart && self.state.spec_simulating() && self.run is Some
    }

    /// Whether a frame with this input can be processed: if the simulation
    /// is advanced and the head steps, it steps into a cell that can be
    /// represented.
    pub open spec fn can_frame(self, dt: int, input: FrameInput) -> bool {
        self.simulates(input) ==> self.run.unwrap().steer(input.snake.keys).can_advance(dt)
    }

    /// Whether `after` and `report` are what a frame can leave of `self`.
    ///
    /// The restart key comes before everything else and sends the game to
    /// its restarting state. Otherwise the restarting state hands over to
    /// booting; the loading state waits for the settle delay and then enters
    /// a run; a live run is advanced by one tick, after which the run is
    /// over if the head has left the window, and then the pause key is
    /// applied; and in every other state only the pause key is applied,
    /// which means something only inside a run.
    pub open spec fn frame_outcome(
        self,
        dt: int,
        input: FrameInput,
        bounds: Option<Bounds>,
        events: Seq<CollisionEvent>,
        after: GameView,
        report: FrameReport,
    ) -> bool {
        if input.restart {
            after == self.handle(GameEvent::RestartRequested) && report.tick is None
        } else if self.state.app == AppState::Restarting {
            after == self.handle(GameEvent::RestartEntered) && report.tick is None
        } else if self.state.app == AppState::InGameLoading {
            let waited = GameView {
                state: self.state,
                settle: self.settle.ticked(dt),
                run: self.run,
            };
            &&& after == (if self.settle.fires_after(dt) {
                waited.handle(GameEvent::Settled)
            } else {
                waited
            })
            &&& report.tick is None
        } else if self.simulates(input) {
            let run = self.run.unwrap();
            let moved = run.steer(input.snake.keys).advance(dt);
            let eats = eat_count(events);
            let hit = moved.hits_boundary(bounds);
            &&& after.run matches Some(next)
            &&& next == moved.grow_if(input.snake.grow).eat_times(eats).with_food(next.food)
            &&& moved.food_settled(eats, bounds, next.food)
            &&& after.settle == self.settle
            &&& after.state == self.state.apply_if(hit, GameEvent::BoundaryHit).apply_if(
                input.pause,
                GameEvent::PauseToggled,
            )
            &&& report.tick matches Some(tick)
            &&& tick.stepped == run.steer(input.snake.keys).steps_after(dt)
            &&& tick.hit_boundary == hit
            &&& tick.collisions.eats == eats
            &&& tick.collisions.growth_requests == eats
            &&& tick.collisions.respawn_requests == eats
        } else {
            &&& after.run == self.run
            &&& after.settle == self.settle
            &&& after.state == self.state.apply_if(input.pause, GameEvent::PauseToggled)
            &&& report.tick is None
        }
    }
}

/// The game: its state, the settle delay, and the run while one is on.
pub struct Game {
    state: GameState,
    settle: CooldownTimer,
    run: Option<SimulationContext>,
}

impl View for Game {
    type V = GameView;

    closed spec fn view(&self) -> GameView {
        GameView {
            state: self.state,
            settle: self.settle,
            run: match self.run {
                Some(run) => Some(run@),
                None => None,
            },
        }
    }
}

impl Game {
    /// The invariant of the game.
    pub open spec fn wf(&self) -> bool {
        self@.wf()
    }

    /// The game before anything has happened: in its restarting state, with
    /// no run.
    pub fn new() -> (game: Game)
        ensures
            game@ == GameView::initial(),
            game.wf(),
    {
        Game { state: GameState::initial(), settle: CooldownTimer::new(SETTLE_DELAY), run: None }
    }

    /// The current state.
    pub fn state(&self) -> (state: GameState)
        ensures
            state == self@.state,
    {
        self.state
    }

    /// The run, while one is on.
    pub fn run(&self) -> (run: Option<&SimulationContext>)
        ensures
            match run {
                Some(context) => self@.run == Some(context@),
                None => self@.run is None,
            },
    {
        self.run.as_ref()
    }

    /// Applies an event that moves the game from one state to another.
    pub fn handle(&mut self, event: GameEvent)
        ensures
            final(self)@ == old(self)@.handle(event),
            old(self).wf() ==> final(self).wf(),
    {
        let next: GameState = self.state.apply(event);
        if next.app != self.state.app {
            match next.app {
                AppState::InGame => {
                    let mut context = SimulationContext::new();
                    context.spawn_snake();
                    self.run = Some(context);
                },
                _ => {
                    self.run = None;
                },
            }
            match next.app {
                AppState::InGameLoading => {
                    self.settle.reset();
                },
                _ => {},
            }
        }
        self.state = next;
    }

    /// Tests whether a frame with this input can be processed.
    pub fn can_frame(&self, dt: u64, input: FrameInput) -> (possible: bool)
        ensures
            possible == self@.can_frame(dt as int, input),
    {
        if input.restart || !self.state.simulating() {
            true
        } else {
            match &self.run {
                Some(run) => run.can_tick(dt, input.snake),
                None => true,
            }
        }
    }

    /// Processes one frame in which `dt` has passed.
    pub fn frame(
        &mut self,
        dt: u64,
        input: FrameInput,
        bounds: Option<Bounds>,
        events: &Vec<CollisionEvent>,
    ) -> (report: FrameReport)
        requires
            old(self)@.can_frame(dt as int, input),
        ensures
            old(self)@.frame_outcome(dt as int, input, bounds, events@, final(self)@, report),
            old(self).wf() ==> final(self).wf(),
    {
        if input.restart {
            self.handle(GameEvent::RestartRequested);
            return FrameReport { tick: None };
        }
        match self.state.app {
            AppState::Restarting => {
                self.handle(GameEvent::RestartEntered);
                FrameReport { tick: None }
            },
            AppState::InGameLoading => {
                if self.settle.tick(dt) {
                    self.handle(GameEvent::Settled);
                }
                FrameReport { tick: None }
            },
            _ => {
                let live: bool = self.state.simulating();
                let mut ticked: Option<TickReport> = None;
                if live {
                    match &mut self.run {
                        Some(run) => {
                            let tick: TickReport = run.tick(dt, input.snake, bounds, events);
                            if tick.hit_boundary {
                                self.state = self.state.apply(GameEvent::BoundaryHit);
                            }
                            ticked = Some(tick);
                        },
                        None => {},
                    }
                }
                if input.pause {
                    self.state = self.state.apply(GameEvent::PauseToggled);
                }
                FrameReport { tick: ticked }
            },
        }
    }

    /// Processes one frame like `frame` if the frame can be processed, and
    /// leaves the game untouched if it cannot.
    pub fn try_frame(
        &mut self,
        dt: u64,
        input: FrameInput,
        bounds: Option<Bounds>,
        events: &Vec<CollisionEvent>,
    ) -> (report: Option<FrameReport>)
        ensures
            report is Some == old(self)@.can_frame(dt as int, input),
            report is None ==> final(self)@ == old(self)@,
            report matches Some(done) ==> old(self)@.frame_outcome(
                dt as int,
                input,
                bounds,
                events@,
                final(self)@,
                done,
            ),
            old(self).wf() ==> final(self).wf(),
    {
        if self.can_frame(dt, input) {
            Some(self.frame(dt, input, bounds, events))
        } else {
            None
        }
    }
}

/// Every event keeps the invariant of the game: a run exists exactly while
/// the game is in its in-game state, and a run that is entered is a fresh
/// one, started live.
pub proof fn lemma_handle_keeps_invariant(game: GameView, event: GameEvent)
    requires
        game.wf(),
    ensures
        game.handle(event).wf(),
        game.handle(event).state == game.state.spec_apply(event),
        game.state.app != AppState::InGame && game.handle(event).state.app == AppState::InGame
            ==> game.handle(event).run == Some(Snapshot::started()) && game.handle(
            event,
        ).state.sub == Some(IsPaused::Running),
        game.state.app == AppState::InGame && game.handle(event).state.app == AppState::InGame
            ==> game.handle(event).run == game.run,
{
}

/// Every frame keeps the invariant of the game. In particular the log of a
/// run never holds more than its capacity, and never fewer entries than
/// there are segments, however long the run lasts.
pub proof fn lemma_frame_keeps_invariant(
    before: GameView,
    dt: int,
    input: FrameInput,
    bounds: Option<Bounds>,
    events: Seq<CollisionEvent>,
    after: GameView,
    report: FrameReport,
)
    requires
        before.wf(),
        0 <= dt,
        before.frame_outcome(dt, input, bounds, events, after, report),
    ensures
        after.wf(),
        after.run matches Some(run) ==> run.segments.len() <= run.history.len()
            <= crate::history::MAX_HISTORY,
{
    if !input.restart && before.state.app != AppState::Restarting && before.state.app
        != AppState::InGameLoading && before.simulates(input) {
        let run = before.run.unwrap();
        let steered = run.steer(input.snake.keys);
        crate::simulation::lemma_steer_changes_direction_only(run, input.snake.keys);
        crate::simulation::lemma_advance_keeps_invariant(steered, dt);
        let moved = steered.advance(dt);
        crate::simulation::lemma_grow_keeps_invariant(moved);
        crate::simulation::lemma_eat_times(moved.grow_if(input.snake.grow), eat_count(events));
    }
}

/// Once the head reaches past the border of the window, the run is over at
/// the end of that very frame.
pub proof fn lemma_boundary_ends_run(
    before: GameView,
    dt: int,
    input: FrameInput,
    bounds: Option<Bounds>,
    events: Seq<CollisionEvent>,
    after: GameView,
    report: FrameReport,
)
    requires
        before.simulates(input),
        before.frame_outcome(dt, input, bounds, events, after, report),
        before.run.unwrap().steer(input.snake.keys).advance(dt).hits_boundary(bounds),
    ensures
        after.state.app == AppState::InGame,
        after.state.sub == Some(IsPaused::GameOver),
        report.tick matches Some(tick) && tick.hit_boundary,
{
}

/// A run that is paused or over is frozen: a frame without the restart key
/// advances nothing, whatever time has passed and whatever events arrive. A
/// run that is over also stays over; a paused one goes live again only on
/// the pause key.
pub proof fn lemma_run_is_frozen_unless_live(
    before: GameView,
    dt: int,
    input: FrameInput,
    bounds: Option<Bounds>,
    events: Seq<CollisionEvent>,
    after: GameView,
    report: FrameReport,
)
    requires
        before.state.app == AppState::InGame,
        before.state.sub != Some(IsPaused::Running),
        !input.restart,
        before.frame_outcome(dt, input, bounds, events, after, report),
    ensures
        after.run == before.run,
        after.settle == before.settle,
        report.tick is None,
        after.state.app == AppState::InGame,
        before.state.sub == Some(IsPaused::GameOver) ==> after.state == before.state,
        before.state.sub == Some(IsPaused::Paused) ==> after.state.sub == Some(
            if input.pause {
                IsPaused::Running
            } else {
                IsPaused::Paused
            },
        ),
{
}

/// Outside a run a frame changes neither run nor score: there is none.
pub proof fn lemma_no_run_outside_game(
    before: GameView,
    dt: int,
    input: FrameInput,
    bounds: Option<Bounds>,
    events: Seq<CollisionEvent>,
    after: GameView,
    report: FrameReport,
)
    requires
        before.wf(),
        before.state.app != AppState::InGame,
        before.frame_outcome(dt, input, bounds, events, after, report),
    ensures
        report.tick is None,
        after.run is Some ==> before.state.app == AppState::InGameLoading && !input.restart
            && before.settle.fires_after(dt) && after.run == Some(Snapshot::started())
            && after.state == GameState::spec_entered(AppState::InGame),
{
}

} // verus!
