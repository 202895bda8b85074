//! An interactive line-editing engine for terminal applications, with zsh-like tab
//! completion against a list of keywords.
//!
//! The crate holds the logic of the editor and none of its input or output:
//!
//! - [`scanner`] turns key events into logical edit events and keeps the line typed so far;
//! - [`autocomplete`] computes which keywords match the line, what they have in common,
//!   and which of them is selected while the user cycles with Tab;
//! - [`keywords`] decides which strings may be keywords and in what order they are kept;
//! - [`layout`] lays out the suggestion panel for a terminal of a given size;
//! - [`engine`] is the line editor, the state machine that binds these together;
//! - [`terminal`] and [`theme`] describe, as plain values, what a terminal is asked to do;
//! - [`caprice`] holds the commands a host application can send to a running editor;
//! - [`text`] holds the string primitives the others share.
//!
//! A program drives the editor by handing each terminal event to
//! [`engine::Executor::poll`] and carrying out the requests it answers with.

pub mod autocomplete;
pub mod caprice;
pub mod engine;
pub mod keywords;
pub mod layout;
pub mod scanner;
pub mod terminal;
pub mod text;
pub mod theme;

pub use crate::caprice::CapriceCommand;
