use proc_prog_name::text::{same_str, starts_with_str, trim_end_str};
use proc_prog_name::{choose_name, get_name_from_str, resolve_name, TieBreak};

fn base(s: &str) -> Option<String> {
    get_name_from_str(s)
}

#[test]
fn plain_name_is_its_own_base_name() {
    assert_eq!(base("sshd").as_deref(), Some("sshd"));
    assert_eq!(base("a.out").as_deref(), Some("a.out"));
    assert_eq!(base(""), None);
}

#[test]
fn base_name_of_unix_path() {
    assert_eq!(base("/usr/bin/foo").as_deref(), Some("foo"));
}

#[test]
fn base_name_of_windows_path() {
    assert_eq!(base("C:\\tools\\bar.exe").as_deref(), Some("bar.exe"));
}

#[test]
fn base_name_stops_at_nul() {
    assert_eq!(base("foo\0extra-arg\0more").as_deref(), Some("foo"));
    assert_eq!(base("/bin/sh\0-c\0/x/y"), Some("sh".to_string()));
}

#[test]
fn base_name_of_empty_and_root() {
    assert_eq!(base(""), None);
    assert_eq!(base("/"), None);
    assert_eq!(base("dir/"), None);
    assert_eq!(base("\0foo"), None);
}

#[test]
fn base_name_of_mixed_separators() {
    assert_eq!(base("a/b\\c/d").as_deref(), Some("d"));
    assert_eq!(base("/proc/1234").as_deref(), Some("1234"));
}

#[test]
fn trim_end_removes_trailing_white_space() {
    assert_eq!(trim_end_str("bash\n"), "bash");
    assert_eq!(trim_end_str("kworker \t\r\n"), "kworker");
    assert_eq!(trim_end_str(" lead"), " lead");
    assert_eq!(trim_end_str("x\u{3000}"), "x");
    assert_eq!(trim_end_str(""), "");
}

#[test]
fn prefix_and_equality_of_text() {
    assert!(starts_with_str("python3.11", "python3"));
    assert!(starts_with_str("abc", ""));
    assert!(!starts_with_str("sh", "bash"));
    assert!(same_str("sshd", "sshd"));
    assert!(!same_str("sshd", "SSHD"));
    assert!(!same_str("ssh", "sshd"));
}

#[test]
fn tie_break_prefers_cmdline_on_prefix_match() {
    let r = choose_name(
        TieBreak::Cmdline,
        "python3".to_string(),
        "python3",
        "python3.11".to_string(),
    );
    assert_eq!(r, "python3.11");
}

#[test]
fn tie_break_falls_back_to_exe_on_mismatch() {
    let r = choose_name(TieBreak::Cmdline, "dash".to_string(), "bash", "sh".to_string());
    assert_eq!(r, "dash");
}

#[test]
fn tie_break_trims_comm_newline() {
    let r = choose_name(
        TieBreak::Cmdline,
        "exe-name".to_string(),
        "python3\n",
        "python3.11".to_string(),
    );
    assert_eq!(r, "python3.11");
}

#[test]
fn tie_break_by_exe_policy() {
    let r = choose_name(TieBreak::Exe, "bash".to_string(), "bash\n", "sh".to_string());
    assert_eq!(r, "bash");
    let r = choose_name(TieBreak::Exe, "python3.11".to_string(), "node\n", "node".to_string());
    assert_eq!(r, "node");
}

#[test]
fn resolve_name_from_three_texts() {
    let r = resolve_name(
        TieBreak::Cmdline,
        "/usr/bin/python3.11",
        "python3\n",
        "/usr/bin/python3.11\0script.py\0",
    );
    assert_eq!(r.as_deref(), Some("python3.11"));
    let r = resolve_name(
        TieBreak::Cmdline,
        "/usr/bin/python3.11",
        "myscript\n",
        "python3\0/home/u/myscript\0",
    );
    assert_eq!(r.as_deref(), Some("python3.11"));
}

#[test]
fn resolve_name_needs_both_base_names() {
    assert_eq!(resolve_name(TieBreak::Cmdline, "", "sh\n", "sh\0"), None);
    assert_eq!(resolve_name(TieBreak::Cmdline, "/bin/sh", "sh\n", ""), None);
    assert_eq!(resolve_name(TieBreak::Exe, "/bin/sh", "sh\n", "/"), None);
}
