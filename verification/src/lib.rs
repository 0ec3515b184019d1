//! The logic of a desktop code editor's backend, verified.
//!
//! At its centre stands the session subsystem: the registry of remote
//! endpoints ([`registry`], [`commands::ssh`]), the one remote session that
//! may be active with its working directory, the command lines handed to
//! the secure-shell client ([`remote`], [`shell`]), and the table of
//! pseudo-terminal sessions ([`pty`]). Around it stand the readers of what
//! the system's programs print ([`ssh_config`], [`tree`], [`commands::git`])
//! and the rules of the project tree, the settings and the workspace.
//!
//! Nothing here touches a file, a process or the network: every function
//! takes plain values and gives plain values back. A caller reads and runs;
//! this crate decides. The few calls into other crates, for the clock, the
//! name of the user and base64, stand behind small functions whose contracts
//! are taken on trust; their comments say what each one claims.

pub mod bytes;
pub mod commands;
pub mod number;
pub mod order;
pub mod pty;
pub mod registry;
pub mod remote;
pub mod scan;
pub mod shell;
pub mod ssh_config;
pub mod state;
pub mod text;
pub mod tree;
pub mod watcher;
