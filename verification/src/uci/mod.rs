pub mod castle_parse;
pub mod command;
