//! The whole authorization pipeline on one concrete scenario: a
//! root-owned set-uid script under /usr/local, a plain header naming the
//! launcher, and a mount table that permits set-id execution.

use launcher::environment::{build_safe_env, policy_of, EnvironmentPolicy, UserRecord};
use launcher::header::parse_header_line;
use launcher::identity::{resolve_identity, FileMeta};
use launcher::invocation::{
    assemble_interpreter_argv, check_executable_path, parse_launcher_flags,
};
use launcher::path_trust::{check_mount_suid, ownership_verdict};

#[test]
fn end_to_end_authorization_of_a_trusted_script() {
    // The script's first line.
    let header = parse_header_line("#!/usr/local/bin/launcher -- /usr/bin/python3").unwrap();
    assert_eq!(header.exec_argv, vec!["/usr/local/bin/launcher".to_string()]);
    assert_eq!(header.script_argv, vec!["/usr/bin/python3".to_string()]);

    // The invoked path matches the declared one.
    check_executable_path(&header.exec_argv[0], &"/usr/local/bin/launcher".to_string())
        .unwrap();

    // No flags follow the launcher path: defaults apply.
    let flags = parse_launcher_flags(&header.exec_argv[1..].to_vec()).unwrap();
    assert!(!flags.use_real);
    assert_eq!(policy_of(&flags.environ), EnvironmentPolicy::Safe);

    // Every component of the walk is root-owned.
    let obs = vec![Some(0), Some(0), Some(0), Some(0), Some(0)];
    assert_eq!(ownership_verdict(&obs), Ok(()));

    // The mount of /usr/local carries no nosuid option.
    let mounts = vec![
        "/dev/sda1 / ext4 rw,relatime 0 0".to_string(),
        "/dev/sda2 /usr/local ext4 rw,relatime 0 0".to_string(),
    ];
    assert_eq!(check_mount_suid(&mounts, "/usr/local/bin/tool"), Ok(()));

    // Owner root, set-uid bit on: the effective identity is the owner,
    // the real identity stays the caller's.
    let meta = FileMeta { mode: 0o4755, uid: 0, gid: 0 };
    let d = resolve_identity(&meta, 1000, 1000, flags.use_real);
    assert_eq!(d.effective_uid, 0);
    assert_eq!(d.real_uid, 1000);

    // The safe environment is built for the effective (elevated) account.
    let user = UserRecord {
        name: "root".to_string(),
        dir: "/root".to_string(),
        shell: "/bin/sh".to_string(),
    };
    let env = build_safe_env(&user, &"PATH=/usr/bin:/bin".to_string(), &Vec::new());
    assert_eq!(env[0], "PATH=/usr/bin:/bin");
    assert_eq!(env[1], "LOGNAME=root");

    // The interpreter replaces the launcher with the script and its
    // arguments appended.
    let argv = assemble_interpreter_argv(
        &header.script_argv,
        &"/usr/local/bin/tool".to_string(),
        &vec!["--verbose".to_string()],
    );
    assert_eq!(
        argv,
        vec![
            "/usr/bin/python3".to_string(),
            "/usr/local/bin/tool".to_string(),
            "--verbose".to_string(),
        ]
    );
}
