pub mod board;
pub mod chess;
pub mod eval;
pub mod movegen;
pub mod search;
pub mod text;
pub mod uci;
