//! The core of a Minesweeper game server.
//!
//! - `board`, `grid`, `points`: cells, coordinates and sets of points.
//! - `game`, `dto`, `validate`: the game, the view that a player sees, and
//!   a check of a game against its invariant.
//! - `mines`, `flood`, `engine`: where the mines go and what a click reveals.
//! - `repository`: the storage contract and the volatile repository.
//! - `service`, `metrics`, `error`, `user`: the service over a repository
//!   and an engine, what it counts, and how it fails.
//! - `laws`: what holds of every game.
//! - `platform`: random numbers and the clock.

pub mod board;
pub mod dto;
pub mod engine;
pub mod error;
pub mod flood;
pub mod game;
pub mod grid;
pub mod laws;
pub mod metrics;
pub mod mines;
pub mod platform;
pub mod points;
pub mod repository;
pub mod service;
pub mod user;
pub mod validate;
