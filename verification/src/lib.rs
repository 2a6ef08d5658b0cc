//! An interrupt-aware sleeper: a model of a process that prints a greeting,
//! installs a handler for the interrupt signal, sleeps for a fixed time and
//! prints a closing line.  The handler prints a notice and returns, so the
//! signal never ends a run early.
//!
//! The library decides what happens; printing, installing the operating
//! system's handler and sleeping are the surrounding program's work.

pub mod machine;
pub mod run;
