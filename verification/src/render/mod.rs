//! The value model of the renderer: types, values, signatures of commands, the
//! checking of the arguments of a call, and the builtin commands.

pub mod ty;
pub mod value;
pub mod error;
pub mod command;
pub mod builtin;
pub mod object;
pub mod output;
pub mod laws;
