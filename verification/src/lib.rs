//! Resolution logic for opening an interactive shell inside a container of an
//! orchestrated task.
//!
//! The library covers the decision core of the tool: the domain model of
//! tasks, containers and lifecycle statuses with their rendering rules; the
//! parsing of a credential-vault environment dump; and the resolution cascade
//! that picks a profile, a cluster, a task and a container, either from an
//! explicit argument or by preparing a sorted selection menu. All I/O (the
//! vault subprocess, the orchestration API, the interactive prompts) lives
//! outside the library and hands it plain values.

pub mod cli;
pub mod credentials;
pub mod errors;
pub mod resolve;
pub mod session;
pub mod strutil;
pub mod task;
