//! The launcher's error taxonomy.
//!
//! Every failure is fatal: on any anomaly the launcher refuses to hand
//! off, and each variant below names one such refusal.

use vstd::prelude::*;

verus! {

/// Why the launcher refused to run a script.
#[derive(Debug, Clone, Copy, PartialEq, Eq, Structural)]
pub enum LauncherError {
    /// The target path does not exist (or cannot be reached at all).
    NotFound,
    /// Some component of the target path, ancestor directories included,
    /// is not owned by the superuser.
    UntrustedOwnership,
    /// The mount holding the target's canonical location carries the
    /// no-suid option.
    NoSuidMount,
    /// No mount table entry matches the target's canonical location.
    MountNotFound,
    /// The script's first line is missing the `#!` marker or the `--`
    /// separator, or its launcher flags cannot be parsed.
    MalformedHeader,
    /// The header's declared launcher path differs from the path the
    /// launcher was actually invoked as.
    ExecutableMismatch,
    /// No account record exists for the resolved effective uid.
    UnknownUser,
    /// The atomic group/user identity transition failed.
    IdentityTransitionFailed,
    /// Replacing the process image with the target interpreter failed.
    HandoffFailed,
}

impl LauncherError {
    /// The single-line diagnostic text for this error.
    pub fn message(&self) -> (r: &'static str)
        ensures
            r@ == spec_message(*self),
    {
        match *self {
            LauncherError::NotFound => "No such file or directory",
            LauncherError::UntrustedOwnership => "File not hierarchically owned by root",
            LauncherError::NoSuidMount => "File is in a nosuid mount",
            LauncherError::MountNotFound => "File not in any mount",
            LauncherError::MalformedHeader => "Malformed header line",
            LauncherError::ExecutableMismatch => "Executable path does not match",
            LauncherError::UnknownUser => "No user found for the target uid",
            LauncherError::IdentityTransitionFailed => "Failed to set user and group IDs",
            LauncherError::HandoffFailed => "Failed to execute the target interpreter",
        }
    }
}

/// The diagnostic text that `message` returns for each error.
pub open spec fn spec_message(e: LauncherError) -> Seq<char> {
    match e {
        LauncherError::NotFound => "No such file or directory"@,
        LauncherError::UntrustedOwnership => "File not hierarchically owned by root"@,
        LauncherError::NoSuidMount => "File is in a nosuid mount"@,
        LauncherError::MountNotFound => "File not in any mount"@,
        LauncherError::MalformedHeader => "Malformed header line"@,
        LauncherError::ExecutableMismatch => "Executable path does not match"@,
        LauncherError::UnknownUser => "No user found for the target uid"@,
        LauncherError::IdentityTransitionFailed => "Failed to set user and group IDs"@,
        LauncherError::HandoffFailed => "Failed to execute the target interpreter"@,
    }
}

} // verus!
