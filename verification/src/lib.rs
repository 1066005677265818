//! The decisions behind a read-only sandbox: which mounts are made and in what
//! order, which system calls are refused, how the identity map is written, and
//! what a run does next after each outcome.

pub mod bpf;
pub mod command;
pub mod compiler;
pub mod history;
pub mod identity;
pub mod mounts;
mod native;
pub mod path;
pub mod run;
pub mod seccomp;
pub mod text;
