//! Turns alias definitions of the form `NAME[:SHELL,...]=VALUE` into function
//! definitions for Bash, PowerShell and Fish.
//!
//! In a value, `@` stands for all arguments of a call and `$1`, `$2`, ... for
//! single ones. [`Alias::from_str`] reads a definition from a line, and
//! [`Alias::to_script`] writes it out for a shell. [`line::action`] says what
//! to do with one line of a file of definitions.
//!
//! - `alias`: the definition, how a line is read, and what holds of it.
//! - `line`: what a line of a file asks for.
//! - `script`: the text of a function definition, shell by shell.
//! - `pattern`: the positional markers, found by a regular expression.
//! - `shell`: the shells, their names, and lists of them.
//! - `numeral`: decimal numerals.
//! - `text`: searching, splitting and trimming text.

pub mod alias;
pub mod line;
pub mod numeral;
pub mod pattern;
pub mod script;
pub mod shell;
pub mod text;

pub use alias::{Alias, ParseError};
pub use shell::SupportedShells;
