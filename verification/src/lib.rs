pub mod bits;
pub mod board;
pub mod game;
pub mod grid;
pub mod lines;
pub mod position;
pub mod search;
pub mod solver;
pub mod sort;
pub mod table;
