//! An embeddable interpreter for a small parenthesized, command-oriented
//! scripting language. Source text is parsed into a tree of commands, and a
//! machine walks that tree against a mutable environment of variables,
//! user-defined functions and registered native libraries.

pub mod commands;
pub mod laws;
pub mod machine;
pub mod numdec;
pub mod parser;
pub mod semantics;
pub mod strutil;
