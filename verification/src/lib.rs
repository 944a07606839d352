//! Simulation core of a grid-based snake game.
//!
//! The crate holds the rules of the game as plain data and verified
//! functions: the grid and its directions, the movement cooldown, the bounded
//! log of past head positions that the body trails along, growth, food
//! placement, collision resolution, scoring, and the state machine that
//! decides when the simulation runs. Rendering, windowing and input devices
//! stay with the host application, which hands in resolved intents and
//! elapsed time and reads positions, score and state back.

pub mod collision;
pub mod food;
pub mod game;
pub mod grid;
pub mod history;
pub mod score;
pub mod simulation;
pub mod snake;
pub mod state;
pub mod timer;
