//! The builtin commands of the machine, grouped as in the language's
//! documentation.

pub mod cast;
pub mod compare;
pub mod dylib;
pub mod fs;
pub mod function;
pub mod import;
pub mod iterate;
pub mod math;
pub mod stdio;
pub mod variable;
