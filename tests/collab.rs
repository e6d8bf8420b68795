use rust_terminal::collab::{
    command_result, get_all_branches, get_branch, get_changed_files, get_client_tty_from_file,
    get_client_tty_from_state, get_current_tmux_session, get_cwd, get_effective_client_tty,
    get_git_root, get_tmux_pane_path, get_tmux_sessions, is_git_repo, nonblank_lines,
    split_once_char, trimmed_output,
};
use rust_terminal::registry::ClientTtyRegistry;

fn ok(s: &str) -> Result<String, String> {
    Ok(s.to_string())
}

fn err() -> Result<String, String> {
    Err("failed".to_string())
}

#[test]
fn command_outcome() {
    assert_eq!(command_result(true, b"out\n", b"warn"), Ok("out\n".to_string()));
    assert_eq!(command_result(false, b"out", b"  no server running\n"), Err("no server running".to_string()));
    assert_eq!(command_result(true, b"a\xffb", b""), Ok("a\u{fffd}b".to_string()));
}

#[test]
fn branch_and_root_are_trimmed() {
    assert_eq!(get_branch(&ok("  main\n")), "main");
    assert_eq!(get_branch(&err()), "unknown");
    assert_eq!(get_git_root("/w/sub", &ok("/w\n")), "/w");
    assert_eq!(get_git_root("/w/sub", &err()), "/w/sub");
    assert!(is_git_repo(&ok(".git\n")));
    assert!(!is_git_repo(&err()));
}

#[test]
fn trimmed_output_drops_blank() {
    assert_eq!(trimmed_output(&ok(" x \n")).as_deref(), Some("x"));
    assert!(trimmed_output(&ok(" \n")).is_none());
    assert!(trimmed_output(&err()).is_none());
}

#[test]
fn pane_path_needs_session() {
    assert_eq!(get_tmux_pane_path(&ok("work\n"), &ok("/home/u/src\n")).as_deref(), Some("/home/u/src"));
    assert!(get_tmux_pane_path(&ok("\n"), &ok("/x")).is_none());
    assert!(get_tmux_pane_path(&err(), &ok("/x")).is_none());
    assert!(get_tmux_pane_path(&ok("work"), &ok("  ")).is_none());
}

#[test]
fn tmux_session_list() {
    let s = get_tmux_sessions(&ok("main:3:1\nwork:x:0\nbad\nlast:2:2:extra\n"));
    assert_eq!(s.len(), 3);
    assert_eq!(s[0].name, "main");
    assert_eq!(s[0].windows, 3);
    assert!(s[0].attached);
    assert_eq!(s[1].name, "work");
    assert_eq!(s[1].windows, 0);
    assert!(!s[1].attached);
    assert_eq!(s[2].name, "last");
    assert_eq!(s[2].windows, 2);
    assert!(s[2].attached);
    assert!(get_tmux_sessions(&err()).is_empty());
}

#[test]
fn tmux_session_counts_with_sign() {
    let s = get_tmux_sessions(&ok("a:+4:-1\nb:99999999999:+2\n"));
    assert_eq!(s[0].windows, 4);
    assert!(!s[0].attached);
    assert_eq!(s[1].windows, 0);
    assert!(s[1].attached);
}

#[test]
fn current_session_of_client() {
    let out = ok("/dev/pts/3 main\n  /dev/pts/7 work space \n/dev/pts/7 other\n");
    assert_eq!(get_current_tmux_session(Some("/dev/pts/7"), &out).as_deref(), Some("work space"));
    assert!(get_current_tmux_session(Some("/dev/pts/9"), &out).is_none());
    assert!(get_current_tmux_session(None, &out).is_none());
    assert!(get_current_tmux_session(Some("/dev/pts/3"), &err()).is_none());
}

#[test]
fn changed_files_list() {
    let files = get_changed_files(&ok("M\tsrc/a.rs\nA\tdir/b c.txt\n\nno tab here\nD\tx\ty\n"));
    assert_eq!(files.len(), 3);
    assert_eq!(files[0].status, "M");
    assert_eq!(files[0].filename, "src/a.rs");
    assert_eq!(files[1].filename, "dir/b c.txt");
    assert_eq!(files[2].status, "D");
    assert_eq!(files[2].filename, "x\ty");
    assert!(get_changed_files(&err()).is_empty());
}

#[test]
fn branches_listing() {
    let b = get_all_branches(&ok("main\n"), &ok("main\nfeature\n\n"), &ok("origin/HEAD\norigin/main\n\norigin/dev\n"));
    assert_eq!(b.current, "main");
    assert_eq!(b.local, vec!["main".to_string(), "feature".to_string()]);
    assert_eq!(b.remote, vec!["origin/main".to_string(), "origin/dev".to_string()]);
    let none = get_all_branches(&err(), &err(), &err());
    assert_eq!(none.current, "unknown");
    assert!(none.local.is_empty() && none.remote.is_empty());
}

#[test]
fn client_tty_from_probe_file() {
    let clients = ok("/dev/pts/3\n/dev/pts/7\n");
    assert_eq!(get_client_tty_from_file(Some("/dev/pts/7\n".to_string()), &clients).as_deref(), Some("/dev/pts/7"));
    // not among the clients, several clients: the file's path stands
    assert_eq!(get_client_tty_from_file(Some("/dev/pts/9".to_string()), &clients).as_deref(), Some("/dev/pts/9"));
    // a single client wins over a stale file
    assert_eq!(get_client_tty_from_file(Some("/dev/pts/9".to_string()), &ok("\n /dev/pts/4 \n")).as_deref(), Some("/dev/pts/4"));
    assert_eq!(get_client_tty_from_file(None, &ok("/dev/pts/4\n")).as_deref(), Some("/dev/pts/4"));
    assert_eq!(get_client_tty_from_file(Some("  ".to_string()), &clients), None);
    assert_eq!(get_client_tty_from_file(Some("/dev/pts/2".to_string()), &err()).as_deref(), Some("/dev/pts/2"));
}

#[test]
fn client_tty_lookup_chain() {
    let mut r = ClientTtyRegistry::new();
    assert_eq!(get_client_tty_from_state(&r, Some("/dev/pts/1".to_string())).as_deref(), Some("/dev/pts/1"));
    r.publish("/dev/pts/7");
    assert_eq!(get_client_tty_from_state(&r, Some("/dev/pts/1".to_string())).as_deref(), Some("/dev/pts/7"));
    assert_eq!(get_effective_client_tty(&r, Some("/dev/pts/2".to_string()), None).as_deref(), Some("/dev/pts/2"));
    assert_eq!(get_effective_client_tty(&r, None, None).as_deref(), Some("/dev/pts/7"));
}

#[test]
fn cwd_priority() {
    let s = |x: &str| Some(x.to_string());
    assert_eq!(get_cwd(s("/pane"), s("/file"), s("/proc"), s("/home")), "/pane");
    assert_eq!(get_cwd(None, s(" /file\n"), s("/proc"), s("/home")), "/file");
    assert_eq!(get_cwd(None, s("  \n"), s("/proc"), s("/home")), "/proc");
    assert_eq!(get_cwd(None, None, None, s("/home")), "/home");
    assert_eq!(get_cwd(None, None, None, None), "/tmp");
}

#[test]
fn lines_and_split() {
    assert_eq!(nonblank_lines(" 12\r\n\n 34 \n"), vec!["12".to_string(), "34".to_string()]);
    assert_eq!(split_once_char("a:b:c", ':'), Some(("a".to_string(), "b:c".to_string())));
    assert_eq!(split_once_char("héllo wörld", ' '), Some(("héllo".to_string(), "wörld".to_string())));
    assert_eq!(split_once_char("abc", ':'), None);
}
