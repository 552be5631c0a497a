//! An embeddable command-line invocation engine.
//!
//! A registry of command descriptions and a raw argument list go in; a fully
//! checked invocation (positional values, flags, option values) handed to the
//! command's function, or a precise error, comes out.

pub mod alias;
pub mod app;
pub mod command;
pub mod help;
pub mod laws;
pub mod matcher;
pub mod parse;
pub mod registry;
pub mod screen;
pub mod text;
pub mod types;
