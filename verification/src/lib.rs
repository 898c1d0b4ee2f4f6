//! A two-player vertical-drop grid game: the board engine, the turn-keeping
//! game record, and the session protocol that keeps two peers' boards equal.
pub mod board;
pub mod grid;
pub mod play;
pub mod player;
pub mod input;
pub mod game;
pub mod session;
pub mod bot;
pub mod env;
