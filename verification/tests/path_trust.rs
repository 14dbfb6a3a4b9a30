use launcher::error::LauncherError;
use launcher::path_trust::{
    check_hierarchical_ownership, check_mount_suid, find_mount_options, has_nosuid,
    is_path_prefix, join_path, ownership_verdict, prefix_paths, validate_secure_path,
};

fn strings(v: &[&str]) -> Vec<String> {
    v.iter().map(|s| s.to_string()).collect()
}

#[test]
fn join_keeps_absolute_and_resolves_relative() {
    assert_eq!(join_path("/usr/bin/env", "/home/u"), "/usr/bin/env");
    assert_eq!(join_path("bin/tool", "/home/u"), "/home/u/bin/tool");
}

#[test]
fn walk_paths_cover_every_ancestor() {
    assert_eq!(
        prefix_paths("/usr/local/bin/tool"),
        strings(&["/", "/usr", "/usr/local", "/usr/local/bin", "/usr/local/bin/tool"])
    );
    assert_eq!(prefix_paths("/"), strings(&["/"]));
    assert_eq!(prefix_paths("/a"), strings(&["/", "/a"]));
}

#[test]
fn non_root_ancestor_is_untrusted() {
    // The third component is owned by uid 1000: the walk must condemn the
    // path whatever the leaf's owner is.
    let obs = vec![Some(0), Some(0), Some(1000), Some(0)];
    assert_eq!(ownership_verdict(&obs), Err(LauncherError::UntrustedOwnership));
}

#[test]
fn all_root_owned_is_trusted() {
    let obs = vec![Some(0), Some(0), Some(0)];
    assert_eq!(ownership_verdict(&obs), Ok(()));
    assert_eq!(ownership_verdict(&Vec::new()), Ok(()));
}

#[test]
fn unreachable_component_is_not_found() {
    let obs = vec![Some(0), None];
    assert_eq!(ownership_verdict(&obs), Err(LauncherError::NotFound));
}

#[test]
fn bad_owner_outweighs_missing_stat() {
    let obs = vec![None, Some(1000)];
    assert_eq!(ownership_verdict(&obs), Err(LauncherError::UntrustedOwnership));
}

#[test]
fn root_directory_walk_is_trusted() {
    assert_eq!(check_hierarchical_ownership("/", "/"), Ok(()));
}

#[test]
fn missing_leaf_fails_the_walk() {
    let r = check_hierarchical_ownership("/no/such/path/at/all", "/");
    assert!(r == Err(LauncherError::NotFound) || r == Err(LauncherError::UntrustedOwnership));
    assert_eq!(check_hierarchical_ownership("", "/"), Err(LauncherError::NotFound));
}

#[test]
fn mount_point_prefix_respects_component_boundaries() {
    assert!(is_path_prefix("/", "/usr/local"));
    assert!(is_path_prefix("/usr", "/usr/local"));
    assert!(is_path_prefix("/usr/local", "/usr/local"));
    assert!(!is_path_prefix("/usr", "/usr2/local"));
    assert!(!is_path_prefix("/usr/local", "/usr"));
}

#[test]
fn mount_table_last_match_wins() {
    let lines = strings(&[
        "/dev/sda1 / ext4 rw,relatime 0 0",
        "tmpfs /tmp tmpfs rw,nosuid,nodev 0 0",
        "/dev/sda2 /tmp ext4 rw 0 0",
    ]);
    // Both /tmp entries match; the later one shadows the earlier.
    assert_eq!(find_mount_options(&lines, "/tmp/x"), Some("rw".to_string()));
    assert_eq!(find_mount_options(&lines, "/etc/passwd"), Some("rw,relatime".to_string()));
    assert_eq!(find_mount_options(&Vec::new(), "/etc"), None);
}

#[test]
fn short_mount_lines_are_skipped() {
    let lines = strings(&["/dev/sda1 /usr ext4", "/dev/sda0 / ext4 rw 0 0"]);
    assert_eq!(find_mount_options(&lines, "/usr/bin"), Some("rw".to_string()));
}

#[test]
fn nosuid_option_is_found_among_options() {
    assert!(has_nosuid("rw,nosuid,nodev"));
    assert!(has_nosuid("nosuid"));
    assert!(!has_nosuid("rw,nodev,relatime"));
    assert!(!has_nosuid("rw,nosuidX"));
    assert!(!has_nosuid(""));
}

#[test]
fn nosuid_mount_is_rejected() {
    let lines = strings(&[
        "/dev/sda1 / ext4 rw 0 0",
        "/dev/sda2 /usr ext4 rw,nosuid 0 0",
    ]);
    assert_eq!(check_mount_suid(&lines, "/usr/local/bin/tool"), Err(LauncherError::NoSuidMount));
    assert_eq!(check_mount_suid(&lines, "/etc/passwd"), Ok(()));
    assert_eq!(check_mount_suid(&Vec::new(), "/etc"), Err(LauncherError::MountNotFound));
}

#[test]
fn validation_runs_ownership_before_mount_check() {
    // The walk over "/" passes on a live system, so the mount verdict
    // decides; with no matching mount the validation must fail closed.
    let lines = strings(&["/dev/sda1 /boot ext4 rw 0 0"]);
    assert_eq!(
        validate_secure_path("/", "/", &lines, "/"),
        Err(LauncherError::MountNotFound)
    );
    let good = strings(&["/dev/sda1 / ext4 rw 0 0"]);
    assert_eq!(validate_secure_path("/", "/", &good, "/"), Ok(()));
    assert_eq!(
        validate_secure_path("/no/such/path/at/all", "/", &good, "/"),
        Err(LauncherError::NotFound)
    );
}

#[test]
fn validation_is_repeatable() {
    let lines = strings(&["/dev/sda1 / ext4 rw 0 0"]);
    let first = validate_secure_path("/", "/", &lines, "/");
    let second = validate_secure_path("/", "/", &lines, "/");
    assert_eq!(first, second);
    let nosuid = strings(&["/dev/sda1 / ext4 rw,nosuid 0 0"]);
    let third = validate_secure_path("/", "/", &nosuid, "/");
    let fourth = validate_secure_path("/", "/", &nosuid, "/");
    assert_eq!(third, fourth);
    assert_eq!(third, Err(LauncherError::NoSuidMount));
}
