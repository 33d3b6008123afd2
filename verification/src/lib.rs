//! A task and artifact runner, as a library.
//!
//! A project describes its targets in one configuration file: commands to
//! run on the host or in a container, and artifacts to build, wired together
//! by what they require, what they extend and what their texts refer to.
//! This library reads such a configuration into a context, finds the target
//! a user names, expands its texts, decides whether an artifact is stale,
//! and lays out, step by step, what is to be done and in which order. It
//! runs nothing itself: the caller spawns the processes, looks at the file
//! system and reports back.
pub mod cleanup;
pub mod cmd;
pub mod commands;
pub mod config;
pub mod context;
pub mod default;
pub mod error;
pub mod graph;
pub mod job;
pub mod name;
pub mod number;
pub mod order;
pub mod outputs;
pub mod rand;
pub mod runner;
pub mod shell;
pub mod staleness;
pub mod table;
pub mod target;
pub mod targets;
pub mod text;
pub mod validate;
pub mod watch;
