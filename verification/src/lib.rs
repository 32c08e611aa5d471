//! A shogi position: the board, the two hands and the side to move, with the
//! relocation of a piece between two squares and a text diagram of the position.

pub mod diagram;
pub mod game;
pub mod input;
pub mod piece;
pub mod position;
pub mod square;
