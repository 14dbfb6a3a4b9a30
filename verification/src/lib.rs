//! A privileged script launcher library.
//!
//! Invoked on a script whose first line names this launcher, the launcher
//! validates that the script file is trustworthy, derives the intended
//! effective/real identity from the script's permission bits, sanitizes the
//! process environment, and hands control to the script's real interpreter
//! under the resolved identity.
//!
//! This crate holds the verified core: header parsing, path trust
//! validation, identity resolution, environment sanitizing, and the
//! privilege-transition sequencing. Reading files, the mount table and the
//! process environment, and the final process replacement, are left to the
//! surrounding program, which hands this library plain values.

pub mod environment;
pub mod error;
pub mod header;
pub mod identity;
pub mod invocation;
pub mod path_trust;
pub mod sys;
pub mod text;
