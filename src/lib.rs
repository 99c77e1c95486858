//! Rules engine for a two-player column-drop game played on a six by seven
//! grid: tokens fall to the lowest open slot of a column, and four tokens of
//! one color in an unbroken line win.

pub mod board;
pub mod game;

pub use board::{Board, Color, InvalidMove, COLUMNS, ROWS};

pub use game::{App, AppView, Command, GameState, Notice, Title};
