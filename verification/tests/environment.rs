use launcher::environment::{
    build_all_env, build_safe_env, build_safe_env_for, find_path_entry, lookup_env, policy_of,
    EnvVar, EnvironmentPolicy, UserRecord,
};
use launcher::error::LauncherError;

fn var(name: &str, value: &str) -> EnvVar {
    EnvVar { name: name.to_string(), value: value.to_string() }
}

#[test]
fn policy_names_select_policies() {
    assert_eq!(policy_of(&Some("none".to_string())), EnvironmentPolicy::KeepNone);
    assert_eq!(policy_of(&Some("all".to_string())), EnvironmentPolicy::KeepAll);
    assert_eq!(policy_of(&Some("safe".to_string())), EnvironmentPolicy::Safe);
    assert_eq!(policy_of(&Some("bogus".to_string())), EnvironmentPolicy::Safe);
    assert_eq!(policy_of(&None), EnvironmentPolicy::Safe);
}

#[test]
fn lookup_finds_first_binding() {
    let env = vec![var("A", "1"), var("B", "2"), var("A", "3")];
    assert_eq!(lookup_env(&env, &"A".to_string()), Some("1".to_string()));
    assert_eq!(lookup_env(&env, &"B".to_string()), Some("2".to_string()));
    assert_eq!(lookup_env(&env, &"C".to_string()), None);
}

#[test]
fn safe_env_holds_exactly_the_allow_list() {
    let user = UserRecord {
        name: "alice".to_string(),
        dir: "/home/alice".to_string(),
        shell: "/bin/zsh".to_string(),
    };
    let caller = vec![
        var("LD_PRELOAD", "evil"),
        var("TERM", "xterm"),
        var("PATH", "/tmp/evil"),
        var("LC_ALL", "C"),
        var("TZ", "UTC"),
        var("IFS", ". "),
    ];
    let out = build_safe_env(&user, &"PATH=/usr/bin:/bin".to_string(), &caller);
    assert_eq!(
        out,
        vec![
            "PATH=/usr/bin:/bin".to_string(),
            "LOGNAME=alice".to_string(),
            "USER=alice".to_string(),
            "HOME=/home/alice".to_string(),
            "SHELL=/bin/zsh".to_string(),
            "MAIL=/var/mail/alice".to_string(),
            "TERM=xterm".to_string(),
            "LANG=en_US.UTF-8".to_string(),
            "LC_ALL=C".to_string(),
            "TZ=UTC".to_string(),
        ]
    );
    assert!(!out.iter().any(|e| e.starts_with("LD_PRELOAD")));
    assert!(!out.iter().any(|e| e.starts_with("IFS")));
    // The caller's PATH never wins over the init process's PATH.
    assert!(!out.contains(&"PATH=/tmp/evil".to_string()));
}

#[test]
fn safe_env_defaults_for_term_and_lang() {
    let user = UserRecord {
        name: "r".to_string(),
        dir: "/root".to_string(),
        shell: "/bin/sh".to_string(),
    };
    let out = build_safe_env(&user, &"PATH=/bin".to_string(), &Vec::new());
    assert!(out.contains(&"TERM=unknown".to_string()));
    assert!(out.contains(&"LANG=en_US.UTF-8".to_string()));
}

#[test]
fn safe_env_copies_locale_variables_in_order() {
    let user = UserRecord {
        name: "r".to_string(),
        dir: "/root".to_string(),
        shell: "/bin/sh".to_string(),
    };
    let caller = vec![var("LS_COLORS", "x"), var("LANGUAGE", "en"), var("LC_TIME", "C")];
    let out = build_safe_env(&user, &"PATH=/bin".to_string(), &caller);
    let tail = &out[8..];
    assert_eq!(
        tail,
        &["LS_COLORS=x".to_string(), "LANGUAGE=en".to_string(), "LC_TIME=C".to_string()]
    );
}

#[test]
fn all_env_passes_everything_through() {
    let caller = vec![var("LD_PRELOAD", "evil"), var("A", "1")];
    assert_eq!(build_all_env(&caller), vec!["LD_PRELOAD=evil".to_string(), "A=1".to_string()]);
    assert_eq!(build_all_env(&Vec::new()), Vec::<String>::new());
}

#[test]
fn path_entry_is_found_among_init_entries() {
    let entries = vec![
        "TERM=linux".to_string(),
        "PATH=/usr/sbin:/usr/bin".to_string(),
        "PATH=/other".to_string(),
    ];
    assert_eq!(find_path_entry(&entries), Some("PATH=/usr/sbin:/usr/bin".to_string()));
    assert_eq!(find_path_entry(&vec!["TERM=linux".to_string()]), None);
    assert_eq!(find_path_entry(&Vec::new()), None);
}

#[test]
fn safe_env_for_superuser_account() {
    // Uid 0 exists on every live system as the superuser account.
    let out = build_safe_env_for(0, &"PATH=/bin".to_string(), &Vec::new()).unwrap();
    assert_eq!(out[0], "PATH=/bin");
    assert_eq!(out[1], "LOGNAME=root");
    assert_eq!(out[2], "USER=root");
    assert_eq!(out[5], "MAIL=/var/mail/root");
}

#[test]
fn unknown_uid_is_rejected() {
    let r = build_safe_env_for(4294967294, &"PATH=/bin".to_string(), &Vec::new());
    assert_eq!(r.unwrap_err(), LauncherError::UnknownUser);
}

#[test]
fn error_messages_are_single_lines() {
    assert_eq!(LauncherError::NotFound.message(), "No such file or directory");
    assert_eq!(
        LauncherError::UntrustedOwnership.message(),
        "File not hierarchically owned by root"
    );
    assert_eq!(LauncherError::NoSuidMount.message(), "File is in a nosuid mount");
    assert_eq!(LauncherError::MountNotFound.message(), "File not in any mount");
}
