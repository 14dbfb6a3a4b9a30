//! Identity resolution: deriving the new process's real and effective
//! uid/gid from the script file's permission bits, its owner, the caller's
//! real identity, and the "use real identity" invocation flag.

use vstd::prelude::*;

use crate::error::LauncherError;

verus! {

/// The set-user-id permission bit of a file mode.
pub const MODE_SET_UID: u32 = 0o4000;

/// The set-group-id permission bit of a file mode.
pub const MODE_SET_GID: u32 = 0o2000;

/// What a stat of the target script reports: its permission bits and its
/// owning uid/gid.
#[derive(Debug, Clone, Copy, PartialEq, Eq, Structural)]
pub struct FileMeta {
    pub mode: u32,
    pub uid: u32,
    pub gid: u32,
}

/// The identity the new process must adopt. Computed once from validated
/// data; never mutated afterwards.
#[derive(Debug, Clone, Copy, PartialEq, Eq, Structural)]
pub struct IdentityDecision {
    pub real_uid: u32,
    pub real_gid: u32,
    pub effective_uid: u32,
    pub effective_gid: u32,
}

/// The effective uid the script file's mode and owner call for: the owner
/// when the set-user-id bit is set, else the caller's real uid.
pub open spec fn spec_effective_uid(meta: FileMeta, caller_uid: u32) -> u32 {
    if meta.mode & MODE_SET_UID != 0 {
        meta.uid
    } else {
        caller_uid
    }
}

/// The effective gid the script file's mode and owner call for: the owning
/// group when the set-group-id bit is set, else the caller's real gid.
pub open spec fn spec_effective_gid(meta: FileMeta, caller_gid: u32) -> u32 {
    if meta.mode & MODE_SET_GID != 0 {
        meta.gid
    } else {
        caller_gid
    }
}

/// Derive the identity the new process runs as.
///
/// The effective ids follow the file's set-id bits; the real ids collapse
/// to the effective ids when `use_real` is set, and otherwise stay the
/// caller's original real identity.
pub fn resolve_identity(meta: &FileMeta, caller_uid: u32, caller_gid: u32, use_real: bool) -> (d:
    IdentityDecision)
    ensures
        d.effective_uid == spec_effective_uid(*meta, caller_uid),
        d.effective_gid == spec_effective_gid(*meta, caller_gid),
        d.real_uid == (if use_real {
            spec_effective_uid(*meta, caller_uid)
        } else {
            caller_uid
        }),
        d.real_gid == (if use_real {
            spec_effective_gid(*meta, caller_gid)
        } else {
            caller_gid
        }),
{
    let effective_uid: u32 = if meta.mode & MODE_SET_UID != 0 {
        meta.uid
    } else {
        caller_uid
    };
    let effective_gid: u32 = if meta.mode & MODE_SET_GID != 0 {
        meta.gid
    } else {
        caller_gid
    };
    let (real_uid, real_gid): (u32, u32) = if use_real {
        (effective_uid, effective_gid)
    } else {
        (caller_uid, caller_gid)
    };
    IdentityDecision { real_uid, real_gid, effective_uid, effective_gid }
}

/// Stat the target script and derive the identity it calls for, reading
/// the calling process's real uid and gid. Fails with `NotFound` when
/// the script cannot be stat'ed.
pub fn resolve_script_identity(path: &str, use_real: bool) -> (r: Result<
    IdentityDecision,
    LauncherError,
>)
    ensures
        r matches Result::Err(e) ==> e == LauncherError::NotFound,
{
    match crate::sys::stat_file_meta(path) {
        Option::None => Result::Err(LauncherError::NotFound),
        Option::Some(meta) => {
            let caller_uid = crate::sys::current_real_uid();
            let caller_gid = crate::sys::current_real_gid();
            Result::Ok(resolve_identity(&meta, caller_uid, caller_gid, use_real))
        },
    }
}

/// Adopt the identity decision: the group ids first — while the process
/// still has the privilege to change them — then the user ids, each via
/// one atomic call that leaves the saved id unchanged. When the group
/// transition fails, the user transition is not attempted: no partial
/// privilege state is left standing.
pub fn transition_identity(d: &IdentityDecision) -> (r: Result<(), LauncherError>)
    ensures
        r matches Result::Err(e) ==> e == LauncherError::IdentityTransitionFailed,
{
    match crate::sys::set_real_effective_gid(d.real_gid, d.effective_gid) {
        Result::Err(_) => Result::Err(LauncherError::IdentityTransitionFailed),
        Result::Ok(()) => match crate::sys::set_real_effective_uid(d.real_uid, d.effective_uid) {
            Result::Err(_) => Result::Err(LauncherError::IdentityTransitionFailed),
            Result::Ok(()) => Result::Ok(()),
        },
    }
}

} // verus!
