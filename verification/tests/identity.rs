use launcher::identity::{
    resolve_identity, resolve_script_identity, transition_identity, FileMeta,
};

#[test]
fn setuid_file_elevates_effective_only() {
    let meta = FileMeta { mode: 0o4755, uid: 0, gid: 7 };
    let d = resolve_identity(&meta, 1000, 1000, false);
    assert_eq!(d.effective_uid, 0);
    assert_eq!(d.real_uid, 1000);
    assert_eq!(d.effective_gid, 1000);
    assert_eq!(d.real_gid, 1000);
}

#[test]
fn real_flag_collapses_real_onto_effective() {
    let meta = FileMeta { mode: 0o4755, uid: 0, gid: 7 };
    let d = resolve_identity(&meta, 1000, 1000, true);
    assert_eq!(d.effective_uid, 0);
    assert_eq!(d.real_uid, 0);
    assert_eq!(d.real_gid, 1000);
}

#[test]
fn setgid_bit_elevates_group() {
    let meta = FileMeta { mode: 0o2755, uid: 42, gid: 7 };
    let d = resolve_identity(&meta, 1000, 2000, false);
    assert_eq!(d.effective_uid, 1000);
    assert_eq!(d.effective_gid, 7);
    assert_eq!(d.real_gid, 2000);
}

#[test]
fn plain_file_keeps_caller_identity() {
    let meta = FileMeta { mode: 0o755, uid: 0, gid: 0 };
    let d = resolve_identity(&meta, 1000, 2000, true);
    assert_eq!(d.effective_uid, 1000);
    assert_eq!(d.effective_gid, 2000);
    assert_eq!(d.real_uid, 1000);
    assert_eq!(d.real_gid, 2000);
}

#[test]
fn script_identity_of_missing_path_is_not_found() {
    let r = resolve_script_identity("/no/such/path/at/all", false);
    assert_eq!(r.unwrap_err(), launcher::error::LauncherError::NotFound);
}

#[test]
fn transition_to_current_identity_succeeds() {
    // The root directory carries no set-id bits, so the decision is the
    // caller's own identity; adopting it again must succeed.
    let d = resolve_script_identity("/", false).unwrap();
    assert_eq!(transition_identity(&d), Ok(()));
}
