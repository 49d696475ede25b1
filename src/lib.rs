//! Point-free combinators that build one- and two-argument functions out of
//! others, each with a contract that states how the new function routes its
//! arguments through the operands.

pub mod combinators;
pub mod laws;

pub use combinators::{appose, atop, compose, flip, hook, monohook, reflex, revhook};
