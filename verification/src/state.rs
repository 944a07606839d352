//! The states of the application and the moves between them.
//!
//! The application is in exactly one top-level state. While a run is on, a
//! nested state says whether the simulation is live, paused or over; outside
//! a run there is no nested state, and every entry into a run starts it live.

use vstd::prelude::*;

verus! {

/// Top-level state of the application.
#[derive(Clone, Copy, Debug, PartialEq, Eq, Hash, Structural)]
pub enum AppState {
    /// Passed through on the way back to booting.
    Restarting,
    /// Assets are being loaded.
    BootingApp,
    /// Loading the assets failed.
    ErrorScreen,
    MainMenu,
    /// A run has been asked for and the window is settling.
    InGameLoading,
    /// A run is on.
    InGame,
}

/// State nested inside `AppState::InGame`.
#[derive(Clone, Copy, Debug, PartialEq, Eq, Hash, Structural)]
pub enum IsPaused {
    /// The simulation is live.
    Running,
    Paused,
    GameOver,
}

/// What can move the application from one state to another.
#[derive(Clone, Copy, Debug, PartialEq, Eq, Structural)]
pub enum GameEvent {
    /// The restart key went down.
    RestartRequested,
    /// The restarting state has been entered.
    RestartEntered,
    /// Every asset has been loaded.
    AssetsLoaded,
    /// An asset could not be loaded.
    AssetsFailed,
    /// Play was chosen in the main menu.
    Play,
    /// The settle delay after asking for a run has passed.
    Settled,
    /// The pause key went down.
    PauseToggled,
    /// Resume was chosen on the pause screen.
    Resume,
    /// A new run was asked for from inside a run.
    RestartRun,
    /// The main menu was asked for from inside a run.
    ToMenu,
    /// The head has left the window.
    BoundaryHit,
}

/// The top-level state together with the nested one.
#[derive(Clone, Copy, Debug, PartialEq, Eq, Structural)]
pub struct GameState {
    pub app: AppState,
    pub sub: Option<IsPaused>,
}

impl Default for AppState {
    /// The application starts out restarting.
    fn default() -> (state: AppState)
        ensures
            state == AppState::Restarting,
    {
        AppState::Restarting
    }
}

impl Default for IsPaused {
    /// A run starts out live.
    fn default() -> (state: IsPaused)
        ensures
            state == IsPaused::Running,
    {
        IsPaused::Running
    }
}

impl IsPaused {
    /// The nested state after the pause key: live and paused swap, and a run
    /// that is over stays over.
    pub open spec fn spec_toggled(self) -> IsPaused {
        match self {
            IsPaused::Running => IsPaused::Paused,
            IsPaused::Paused => IsPaused::Running,
            IsPaused::GameOver => IsPaused::GameOver,
        }
    }

    /// The nested state after the pause key.
    #[verifier::when_used_as_spec(spec_toggled)]
    pub fn toggled(self) -> (next: IsPaused)
        ensures
            next == self.spec_toggled(),
    {
        match self {
            IsPaused::Running => IsPaused::Paused,
            IsPaused::Paused => IsPaused::Running,
            IsPaused::GameOver => IsPaused::GameOver,
        }
    }
}

impl GameState {
    /// A nested state exists exactly while a run is on.
    pub open spec fn wf(self) -> bool {
        (self.sub is Some) == (self.app == AppState::InGame)
    }

    /// The state the application starts in.
    pub open spec fn spec_initial() -> GameState {
        GameState { app: AppState::Restarting, sub: None }
    }

    /// The state `app` with the nested state it is entered with.
    pub open spec fn spec_entered(app: AppState) -> GameState {
        GameState {
            app,
            sub: if app == AppState::InGame {
                Some(IsPaused::Running)
            } else {
                None
            },
        }
    }

    /// Whether the simulation runs in this state.
    pub open spec fn spec_simulating(self) -> bool {
        self.app == AppState::InGame && self.sub == Some(IsPaused::Running)
    }

    /// The state after `event`. An event that means nothing in the current
    /// state leaves it as it is.
    pub open spec fn spec_apply(self, event: GameEvent) -> GameState {
        match event {
            GameEvent::RestartRequested => GameState::spec_entered(AppState::Restarting),
            GameEvent::RestartEntered => if self.app == AppState::Restarting {
                GameState::spec_entered(AppState::BootingApp)
            } else {
                self
            },
            GameEvent::AssetsLoaded => if self.app == AppState::BootingApp {
                GameState::spec_entered(AppState::MainMenu)
            } else {
                self
            },
            GameEvent::AssetsFailed => if self.app == AppState::BootingApp {
                GameState::spec_entered(AppState::ErrorScreen)
            } else {
                self
            },
            GameEvent::Play => if self.app == AppState::MainMenu {
                GameState::spec_entered(AppState::InGameLoading)
            } else {
                self
            },
            GameEvent::Settled => if self.app == AppState::InGameLoading {
                GameState::spec_entered(AppState::InGame)
            } else {
                self
            },
            GameEvent::RestartRun => if self.app == AppState::InGame {
                GameState::spec_entered(AppState::InGameLoading)
            } else {
                self
            },
            GameEvent::ToMenu => if self.app == AppState::InGame {
                GameState::spec_entered(AppState::MainMenu)
            } else {
                self
            },
            GameEvent::PauseToggled => match (self.app, self.sub) {
                (AppState::InGame, Some(sub)) => GameState {
                    app: self.app,
                    sub: Some(sub.spec_toggled()),
                },
                _ => self,
            },
            GameEvent::Resume => if self.app == AppState::InGame && self.sub == Some(
                IsPaused::Paused,
            ) {
                GameState { app: self.app, sub: Some(IsPaused::Running) }
            } else {
                self
            },
            GameEvent::BoundaryHit => if self.spec_simulating() {
                GameState { app: self.app, sub: Some(IsPaused::GameOver) }
            } else {
                self
            },
        }
    }

    /// The state the application starts in.
    #[verifier::when_used_as_spec(spec_initial)]
    pub fn initial() -> (state: GameState)
        ensures
            state == GameState::spec_initial(),
            state.wf(),
    {
        GameState { app: AppState::Restarting, sub: None }
    }

    /// Enters `app`. A run is entered live.
    #[verifier::when_used_as_spec(spec_entered)]
    pub fn entered(app: AppState) -> (state: GameState)
        ensures
            state == GameState::spec_entered(app),
            state.wf(),
    {
        match app {
            AppState::InGame => GameState { app, sub: Some(IsPaused::Running) },
            _ => GameState { app, sub: None },
        }
    }

    /// Whether the simulation runs in this state.
    #[verifier::when_used_as_spec(spec_simulating)]
    pub fn simulating(self) -> (live: bool)
        ensures
            live == self.spec_simulating(),
    {
        match (self.app, self.sub) {
            (AppState::InGame, Some(IsPaused::Running)) => true,
            _ => false,
        }
    }

    /// Moves to the state after `event`.
    #[verifier::when_used_as_spec(spec_apply)]
    pub fn apply(self, event: GameEvent) -> (next: GameState)
        ensures
            next == self.spec_apply(event),
            self.wf() ==> next.wf(),
    {
        match event {
            GameEvent::RestartRequested => GameState::entered(AppState::Restarting),
            GameEvent::RestartEntered => match self.app {
                AppState::Restarting => GameState::entered(AppState::BootingApp),
                _ => self,
            },
            GameEvent::AssetsLoaded => match self.app {
                AppState::BootingApp => GameState::entered(AppState::MainMenu),
                _ => self,
            },
            GameEvent::AssetsFailed => match self.app {
                AppState::BootingApp => GameState::entered(AppState::ErrorScreen),
                _ => self,
            },
            GameEvent::Play => match self.app {
                AppState::MainMenu => GameState::entered(AppState::InGameLoading),
                _ => self,
            },
            GameEvent::Settled => match self.app {
                AppState::InGameLoading => GameState::entered(AppState::InGame),
                _ => self,
            },
            GameEvent::RestartRun => match self.app {
                AppState::InGame => GameState::entered(AppState::InGameLoading),
                _ => self,
            },
            GameEvent::ToMenu => match self.app {
                AppState::InGame => GameState::entered(AppState::MainMenu),
                _ => self,
            },
            GameEvent::PauseToggled => match (self.app, self.sub) {
                (AppState::InGame, Some(sub)) => GameState { app: self.app, sub: Some(sub.toggled()) },
                _ => self,
            },
            GameEvent::Resume => match (self.app, self.sub) {
                (AppState::InGame, Some(IsPaused::Paused)) => GameState {
                    app: self.app,
                    sub: Some(IsPaused::Running),
                },
                _ => self,
            },
            GameEvent::BoundaryHit => if self.simulating() {
                GameState { app: self.app, sub: Some(IsPaused::GameOver) }
            } else {
                self
            },
        }
    }
}

/// The state the restarting state hands over to: booting.
pub fn go_to_running(state: GameState) -> (next: GameState)
    ensures
        next == state.spec_apply(GameEvent::RestartEntered),
        state.app == AppState::Restarting ==> next == GameState::spec_entered(AppState::BootingApp),
{
    state.apply(GameEvent::RestartEntered)
}

/// Sends the application to its restarting state if the restart key went
/// down, whatever state it is in.
pub fn detect_restart_key(pressed: bool, state: GameState) -> (next: GameState)
    ensures
        next == (if pressed {
            GameState::spec_entered(AppState::Restarting)
        } else {
            state
        }),
{
    if pressed {
        state.apply(GameEvent::RestartRequested)
    } else {
        state
    }
}

/// The nested state after a frame in which the pause key did or did not go
/// down.
pub fn toggle_pause(pressed: bool, current: IsPaused) -> (next: IsPaused)
    ensures
        next == (if pressed {
            current.spec_toggled()
        } else {
            current
        }),
{
    if pressed {
        current.toggled()
    } else {
        current
    }
}

/// Every move keeps the rule that a nested state exists exactly while a run
/// is on.
pub proof fn lemma_apply_keeps_wf(state: GameState, event: GameEvent)
    requires
        state.wf(),
    ensures
        state.spec_apply(event).wf(),
{
}

/// Whenever a move enters a run, the run starts live.
pub proof fn lemma_run_is_entered_live(state: GameState, event: GameEvent)
    requires
        state.wf(),
        state.app != AppState::InGame,
        state.spec_apply(event).app == AppState::InGame,
    ensures
        state.app == AppState::InGameLoading,
        event == GameEvent::Settled,
        state.spec_apply(event).sub == Some(IsPaused::Running),
{
}

/// The restart key leads to the restarting state from every state, and from
/// there the next move is to booting.
pub proof fn lemma_restart_from_anywhere(state: GameState)
    ensures
        state.spec_apply(GameEvent::RestartRequested) == GameState::spec_entered(
            AppState::Restarting,
        ),
        state.spec_apply(GameEvent::RestartRequested).spec_apply(GameEvent::RestartEntered)
            == GameState::spec_entered(AppState::BootingApp),
{
}

/// A run that is over stays over until the top-level state changes: no move
/// brings the simulation back to life inside the same run.
pub proof fn lemma_game_over_is_terminal(state: GameState, event: GameEvent)
    requires
        state.app == AppState::InGame,
        state.sub == Some(IsPaused::GameOver),
    ensures
        state.spec_apply(event) == state || state.spec_apply(event).app != AppState::InGame,
        !state.spec_apply(event).spec_simulating(),
{
}

/// The top-level state changes only along these moves: restarting to
/// booting, booting to the main menu or the error screen, the main menu to
/// loading, loading to a run, a run to the main menu or back to loading, and
/// any state to restarting.
pub proof fn lemma_top_level_moves(state: GameState, event: GameEvent)
    ensures
        ({
            let from = state.app;
            let to = state.spec_apply(event).app;
            ||| to == from
            ||| to == AppState::Restarting
            ||| from == AppState::Restarting && to == AppState::BootingApp
            ||| from == AppState::BootingApp && to == AppState::MainMenu
            ||| from == AppState::BootingApp && to == AppState::ErrorScreen
            ||| from == AppState::MainMenu && to == AppState::InGameLoading
            ||| from == AppState::InGameLoading && to == AppState::InGame
            ||| from == AppState::InGame && to == AppState::MainMenu
            ||| from == AppState::InGame && to == AppState::InGameLoading
        }),
{
}

/// Inside a run the nested state changes only along these moves: live to
/// paused and back, and live to over.
pub proof fn lemma_nested_moves(state: GameState, event: GameEvent)
    requires
        state.wf(),
        state.app == AppState::InGame,
        state.spec_apply(event).app == AppState::InGame,
    ensures
        ({
            let from = state.sub.unwrap();
            let to = state.spec_apply(event).sub.unwrap();
            ||| to == from
            ||| from == IsPaused::Running && to == IsPaused::Paused
            ||| from == IsPaused::Paused && to == IsPaused::Running
            ||| from == IsPaused::Running && to == IsPaused::GameOver
        }),
{
}

/// Pressing the pause key twice during a run leaves the nested state as it
/// was.
pub proof fn lemma_pause_twice(state: GameState)
    ensures
        state.spec_apply(GameEvent::PauseToggled).spec_apply(GameEvent::PauseToggled) == state,
{
}

} // verus!
