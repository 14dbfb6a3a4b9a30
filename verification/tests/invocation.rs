use launcher::error::LauncherError;
use launcher::invocation::{
    assemble_interpreter_argv, check_executable_path, parse_launcher_flags,
};

fn strings(v: &[&str]) -> Vec<String> {
    v.iter().map(|s| s.to_string()).collect()
}

#[test]
fn flags_parse_real_and_environ() {
    let f = parse_launcher_flags(&strings(&["--real", "--environ=safe"])).unwrap();
    assert!(f.use_real);
    assert_eq!(f.environ, Some("safe".to_string()));
}

#[test]
fn flags_default_to_absent() {
    let f = parse_launcher_flags(&Vec::new()).unwrap();
    assert!(!f.use_real);
    assert_eq!(f.environ, None);
}

#[test]
fn flags_accept_separate_option_value() {
    let f = parse_launcher_flags(&strings(&["--environ", "none"])).unwrap();
    assert!(!f.use_real);
    assert_eq!(f.environ, Some("none".to_string()));
}

#[test]
fn unknown_flag_is_malformed() {
    let r = parse_launcher_flags(&strings(&["--bogus"]));
    assert_eq!(r.unwrap_err(), LauncherError::MalformedHeader);
}

#[test]
fn executable_path_must_match() {
    let declared = "/usr/local/bin/launcher".to_string();
    assert_eq!(check_executable_path(&declared, &declared.clone()), Ok(()));
    assert_eq!(
        check_executable_path(&declared, &"/tmp/launcher".to_string()),
        Err(LauncherError::ExecutableMismatch)
    );
}

#[test]
fn interpreter_argv_order() {
    let argv = assemble_interpreter_argv(
        &strings(&["/usr/bin/python3", "-E"]),
        &"/usr/local/bin/tool".to_string(),
        &strings(&["--verbose", "x"]),
    );
    assert_eq!(
        argv,
        strings(&["/usr/bin/python3", "-E", "/usr/local/bin/tool", "--verbose", "x"])
    );
    let bare = assemble_interpreter_argv(&Vec::new(), &"/s".to_string(), &Vec::new());
    assert_eq!(bare, strings(&["/s"]));
}
