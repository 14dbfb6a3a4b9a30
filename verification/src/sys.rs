//! Trusted wrappers around the platform calls the launcher needs: file
//! metadata, the caller's identity, the identity transition, the account
//! database, and the flag parser.
//!
//! Each wrapper's body only makes the outside call and converts its
//! arguments and result; its contract is what the verified code relies
//! on. Results that depend on the live system (the filesystem, the
//! account database, the process's credentials) carry no promises: the
//! verified callers state what holds of every outcome.

use vstd::prelude::*;

use crate::environment::UserRecord;
use crate::identity::FileMeta;

verus! {

/// Relies on nix::sys::stat::lstat (a no-symlink-follow stat): on success
/// returns the file's owning uid. The result depends on the live
/// filesystem, so nothing more is promised.
#[verifier::external_body]
pub(crate) fn lstat_owner_uid(path: &str) -> (r: Option<u32>) {
    match nix::sys::stat::lstat(path) {
        Ok(st) => Some(st.st_uid),
        Err(_) => None,
    }
}

/// Relies on nix::sys::stat::stat (a symlink-following stat): on success
/// returns the file's mode bits, owning uid and owning gid; `None` when
/// the path does not resolve. The result depends on the live filesystem,
/// so nothing more is promised.
#[verifier::external_body]
pub(crate) fn stat_file_meta(path: &str) -> (r: Option<FileMeta>) {
    match nix::sys::stat::stat(path) {
        Ok(st) => Some(FileMeta { mode: st.st_mode as u32, uid: st.st_uid, gid: st.st_gid }),
        Err(_) => None,
    }
}

/// Relies on nix::unistd::getuid: the calling process's real uid.
#[verifier::external_body]
pub(crate) fn current_real_uid() -> (r: u32) {
    nix::unistd::getuid().as_raw()
}

/// Relies on nix::unistd::getgid: the calling process's real gid.
#[verifier::external_body]
pub(crate) fn current_real_gid() -> (r: u32) {
    nix::unistd::getgid().as_raw()
}

/// Relies on nix::unistd::setresgid: sets the real and effective gids,
/// passing u32::MAX — the platform's `(gid_t) -1` "no change" sentinel —
/// for the saved slot. On failure returns the errno value.
#[verifier::external_body]
pub(crate) fn set_real_effective_gid(real_id: u32, effective_id: u32) -> (r: Result<(), i32>) {
    match nix::unistd::setresgid(
        nix::unistd::Gid::from_raw(real_id),
        nix::unistd::Gid::from_raw(effective_id),
        nix::unistd::Gid::from_raw(u32::MAX),
    ) {
        Ok(()) => Ok(()),
        Err(e) => Err(e as i32),
    }
}

/// Relies on nix::unistd::setresuid: sets the real and effective uids,
/// passing u32::MAX — the platform's `(uid_t) -1` "no change" sentinel —
/// for the saved slot. On failure returns the errno value.
#[verifier::external_body]
pub(crate) fn set_real_effective_uid(real_id: u32, effective_id: u32) -> (r: Result<(), i32>) {
    match nix::unistd::setresuid(
        nix::unistd::Uid::from_raw(real_id),
        nix::unistd::Uid::from_raw(effective_id),
        nix::unistd::Uid::from_raw(u32::MAX),
    ) {
        Ok(()) => Ok(()),
        Err(e) => Err(e as i32),
    }
}

/// Relies on nix::unistd::User::from_uid: looks the uid up in the system
/// account database. `None` both when no record exists and when the
/// lookup itself fails; the home and shell paths are converted lossily.
/// The result depends on the live account database, so nothing more is
/// promised.
#[verifier::external_body]
pub(crate) fn lookup_user(uid: u32) -> (r: Option<UserRecord>) {
    match nix::unistd::User::from_uid(nix::unistd::Uid::from_raw(uid)) {
        Ok(Some(u)) => Some(
            UserRecord {
                name: u.name,
                dir: u.dir.to_string_lossy().into_owned(),
                shell: u.shell.to_string_lossy().into_owned(),
            },
        ),
        Ok(None) => None,
        Err(_) => None,
    }
}

/// What parsing a launcher argument list yields: whether the `--real`
/// flag is present and the `--environ` option's value, or nothing when
/// the arguments are rejected. The parse is a function of the argument
/// list alone.
pub uninterp spec fn launcher_flags_of(args: Seq<Seq<char>>) -> Option<(bool, Option<Seq<char>>)>;

/// Relies on getopts (Options::new, Options::optflag, Options::optopt,
/// Options::parse, Matches::opt_present, Matches::opt_str) to parse the
/// launcher's own flags: the `--real` flag and the `--environ=MODE`
/// option. `launcher_flags_of` names the result.
#[verifier::external_body]
pub(crate) fn getopts_launcher_flags(args: &Vec<String>) -> (r: Option<(bool, Option<String>)>)
    ensures
        match launcher_flags_of(args.deep_view()) {
            Option::Some(q) => r matches Option::Some(p) && p.0 == q.0 && (match p.1 {
                Option::Some(s) => q.1 == Option::Some(s@),
                Option::None => q.1 is None,
            }),
            Option::None => r is None,
        },
{
    let mut opts = getopts::Options::new();
    opts.optflag("", "real", "Set real user and group IDs");
    opts.optopt("", "environ", "Environment policy: safe (default), none, or all", "MODE");
    match opts.parse(args) {
        Ok(m) => Some((m.opt_present("real"), m.opt_str("environ"))),
        Err(_) => None,
    }
}

} // verus!
