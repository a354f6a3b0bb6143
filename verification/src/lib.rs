pub mod commands;
pub mod deck;
pub mod editor;
pub mod matching;
pub mod numeral;
pub mod print;
pub mod resolver;
pub mod session;
pub mod text;
pub mod vault;
