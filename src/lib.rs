//! A tile-based exploration game for the terminal: map construction, display buffers, the
//! dungeon's movement, camera and look rules, and the sequence of levels, each verified
//! against its contract.

pub mod map;
pub mod ui;
pub mod level;
pub mod game;
