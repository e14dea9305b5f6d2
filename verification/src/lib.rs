//! Simulation core of a falling-block puzzle game.
//!
//! The library owns the board, the active piece and its movement and
//! rotation rules, the lock and line-clear pipeline, the 4x4 bonus-square
//! detector, and the per-tick controller.  Rendering, audio and
//! configuration live outside; they talk to the core through plain input
//! snapshots and the event record each tick returns.
//!
//! Two conventions fix behaviour the components share.  All durations
//! are integers in units of 1/300 second, which makes every timing
//! constant of the game whole.  And a detected bonus square converts
//! its sixteen cells to filler immediately, while its points are
//! awarded only later, folded into the bonus tally of the line clear
//! that removes those cells.  Holding the soft-drop key both nudges the
//! piece one cell during input handling and shortens the gravity
//! interval for that tick.

pub mod events;
pub mod game;
pub mod input;
pub mod menu;
pub mod squares;
pub mod tetromino;
