//! A structured model of SMAPI log text: a line grammar, an immutable log
//! with a per-source index, filters over it, and the decisions that keep a
//! live model current.

pub mod ast;
pub mod command_input;
pub mod config;
pub mod encoding;
pub mod filters;
pub mod grammar;
pub mod log;
pub mod parse;
pub mod root;
pub mod scroll;
pub mod source;
pub mod text;
pub mod views;
