//! The verified core of a chat console: the command grammar and the text
//! edits behind it, the conversation state and the rules by which key
//! presses, background events and streamed fragments change it.

pub mod api;
pub mod console;
pub mod edit;
pub mod find;
pub mod grammar;
pub mod laws;
pub mod number;
pub mod text;
pub mod tools;
pub mod tui;
