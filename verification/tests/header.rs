use launcher::error::LauncherError;
use launcher::header::parse_header_line;
use launcher::text::{find_token, split_tokens, str_has_prefix};

fn strings(v: &[&str]) -> Vec<String> {
    v.iter().map(|s| s.to_string()).collect()
}

#[test]
fn header_full_invocation_line() {
    let h = parse_header_line("#!/bin/launcher --real --environ=safe -- /bin/sh -x").unwrap();
    assert_eq!(h.exec_argv, strings(&["/bin/launcher", "--real", "--environ=safe"]));
    assert_eq!(h.script_argv, strings(&["/bin/sh", "-x"]));
}

#[test]
fn header_without_separator_is_malformed() {
    let r = parse_header_line("#!/bin/launcher --real /bin/sh");
    assert_eq!(r.unwrap_err(), LauncherError::MalformedHeader);
}

#[test]
fn header_without_shebang_is_malformed() {
    let r = parse_header_line("/bin/launcher -- /bin/sh");
    assert_eq!(r.unwrap_err(), LauncherError::MalformedHeader);
    assert_eq!(parse_header_line("").unwrap_err(), LauncherError::MalformedHeader);
    assert_eq!(parse_header_line("#").unwrap_err(), LauncherError::MalformedHeader);
    assert_eq!(parse_header_line("!#/bin/sh -- x").unwrap_err(), LauncherError::MalformedHeader);
}

#[test]
fn header_with_empty_halves() {
    let h = parse_header_line("#! --").unwrap();
    assert!(h.exec_argv.is_empty());
    assert!(h.script_argv.is_empty());
}

#[test]
fn header_splits_at_first_separator_only() {
    let h = parse_header_line("#!/l -- /bin/sh -- -x").unwrap();
    assert_eq!(h.exec_argv, strings(&["/l"]));
    assert_eq!(h.script_argv, strings(&["/bin/sh", "--", "-x"]));
}

#[test]
fn header_separator_needs_own_token() {
    let r = parse_header_line("#!/l --real--x /bin/sh");
    assert_eq!(r.unwrap_err(), LauncherError::MalformedHeader);
}

#[test]
fn tokens_split_on_blanks_and_tabs() {
    let toks = split_tokens("  a\tbb \t c  ");
    assert_eq!(toks, strings(&["a", "bb", "c"]));
    assert_eq!(split_tokens(""), Vec::<String>::new());
    assert_eq!(split_tokens(" \t "), Vec::<String>::new());
    assert_eq!(split_tokens("one"), strings(&["one"]));
}

#[test]
fn find_token_first_occurrence() {
    let toks = strings(&["a", "--", "b", "--"]);
    assert_eq!(find_token(&toks, &"--".to_string()), Some(1));
    assert_eq!(find_token(&toks, &"zz".to_string()), None);
    assert_eq!(find_token(&Vec::new(), &"--".to_string()), None);
}

#[test]
fn prefix_check() {
    assert!(str_has_prefix("PATH=/usr/bin", "PATH="));
    assert!(!str_has_prefix("PATH", "PATH="));
    assert!(!str_has_prefix("XPATH=", "PATH="));
    assert!(str_has_prefix("anything", ""));
}
