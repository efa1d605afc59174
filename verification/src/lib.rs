//! Core of a line-oriented command interpreter: a tokenizer for quoted,
//! escaped and variable-referencing input, a grouper that turns tokens into
//! a command structure, and the decision logic of a pipeline executor.
//!
//! Each input line flows through [`scanner`] into tokens, through [`group`]
//! into an empty command, a single invocation or a pipe-separated chain,
//! and through [`driver`] to the decision of what runs: a [`builtins`]
//! handler in-process, a single spawned program, or a pipeline whose
//! spawn-and-wait bookkeeping [`pipeline`] directs.  The environment is an
//! explicit value ([`env`]); [`rescan`] rebuilds a line from its tokens and
//! proves the rebuild scans back to the same tokens.  Reading the terminal,
//! spawning processes and touching the history file stay with the driver
//! around this crate.

pub mod builtins;
pub mod driver;
pub mod env;
pub mod group;
pub mod pipeline;
pub mod rescan;
pub mod scanner;
pub mod token;
pub mod utils;
