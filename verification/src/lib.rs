//! A gravity-drop connect-four engine for any number of players: a board
//! that takes pieces column by column, and a scan that tells whether the
//! game is won, drawn or still open.

pub mod setup;
pub mod text;
pub mod player;
pub mod outcome;
pub mod grid;
pub mod lines;
pub mod game;
pub mod scan;
pub mod picture;
pub mod laws;
