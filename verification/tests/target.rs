use ui_test::tally::plan;
use ui_test::target::{get_pointer_width, ignore_file, revisions_to_run};
use ui_test::Comments;

fn comments() -> Comments {
    Comments {
        revisions: None,
        ignore: vec![],
        only: vec![],
        stderr_per_bitwidth: false,
        compile_flags: vec![],
        env_vars: vec![],
        normalize_stderr: vec![],
        error_pattern: None,
        error_matches: vec![],
    }
}

fn rules(ignore: &[&str], only: &[&str]) -> Comments {
    let mut c = comments();
    c.ignore = ignore.iter().map(|s| s.to_string()).collect();
    c.only = only.iter().map(|s| s.to_string()).collect();
    c
}

const LINUX: &str = "x86_64-unknown-linux-gnu";

#[test]
fn pointer_widths() {
    assert_eq!(get_pointer_width(LINUX), "64bit");
    assert_eq!(get_pointer_width("x86_64-unknown-linux-gnux32"), "32bit");
    assert_eq!(get_pointer_width("aarch64-unknown-linux-gnu_ilp32"), "32bit");
    assert_eq!(get_pointer_width("s390x-unknown-linux-gnu"), "64bit");
    assert_eq!(get_pointer_width("avr-unknown-gnu-atmega328"), "16bit");
    assert_eq!(get_pointer_width("i686-pc-windows-msvc"), "32bit");
    assert_eq!(get_pointer_width(""), "32bit");
}

#[test]
fn without_rules_tests_are_run() {
    assert!(!ignore_file(&comments(), LINUX));
    assert!(!ignore_file(&comments(), ""));
}

#[test]
fn tests_are_ignored_on_described_targets() {
    assert!(ignore_file(&rules(&["linux"], &[]), LINUX));
    assert!(!ignore_file(&rules(&["windows"], &[]), LINUX));
    assert!(ignore_file(&rules(&["windows", "linux"], &[]), LINUX));
    assert!(ignore_file(&rules(&["64bit"], &[]), LINUX));
    assert!(!ignore_file(&rules(&["32bit"], &[]), LINUX));
}

#[test]
fn tests_are_run_only_on_described_targets() {
    assert!(!ignore_file(&rules(&[], &["linux"]), LINUX));
    assert!(ignore_file(&rules(&[], &["windows"]), LINUX));
    assert!(ignore_file(&rules(&[], &["linux", "windows"]), LINUX));
    // The pointer width counts for `ignore` alone.
    assert!(ignore_file(&rules(&[], &["64bit"]), LINUX));
}

#[test]
fn further_rules_only_narrow() {
    assert!(ignore_file(&rules(&["linux", "avr"], &["linux"]), LINUX));
    assert!(ignore_file(&rules(&["linux"], &["linux", "gnu"]), LINUX));
    assert!(ignore_file(&rules(&["avr", "linux", "wasm"], &["gnu", "linux"]), LINUX));
    assert!(ignore_file(&rules(&[], &["linux", "windows", "gnu"]), LINUX));
}

#[test]
fn revisions_are_those_of_the_test() {
    let mut c = comments();
    assert_eq!(revisions_to_run(&c), vec![""]);
    c.revisions = Some(vec!["a".to_string(), "b".to_string()]);
    assert_eq!(revisions_to_run(&c), vec!["a", "b"]);
    c.revisions = Some(vec![]);
    assert!(revisions_to_run(&c).is_empty());
}

#[test]
fn plans_all_revisions_or_none() {
    let mut c = rules(&["linux"], &[]);
    c.revisions = Some(vec!["a".to_string()]);
    assert_eq!(plan(&c, LINUX), None);
    assert_eq!(plan(&c, "i686-pc-windows-msvc"), Some(vec!["a".to_string()]));
    assert_eq!(plan(&comments(), LINUX), Some(vec!["".to_string()]));
}
