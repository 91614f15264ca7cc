//! The bot as its users meet it: what a message asks for, and the words in
//! which results and errors are told.

pub mod command;
pub mod display;
pub mod error;
