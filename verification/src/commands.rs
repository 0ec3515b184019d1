//! The operations that the editor's front end asks for.

pub mod ai;
pub mod config;
pub mod files;
pub mod git;
pub mod pty;
pub mod ssh;
pub mod workspace;
