use rust_terminal::script::{
    bashrc_text, join_path, shell_kind, wrapper_script, zsh_dotfile_links, zshrc_text, ShellKind,
    BASHRC_PATH, TTY_FILE, ZDOTDIR,
};

#[test]
fn shell_families() {
    assert_eq!(shell_kind("zsh"), ShellKind::Zsh);
    assert_eq!(shell_kind("/usr/bin/zsh"), ShellKind::Zsh);
    assert_eq!(shell_kind("bash"), ShellKind::Bash);
    assert_eq!(shell_kind("/bin/bash"), ShellKind::Bash);
    assert_eq!(shell_kind("sh"), ShellKind::Posix);
    assert_eq!(shell_kind("/usr/bin/fish"), ShellKind::Posix);
    assert_eq!(shell_kind("xzsh"), ShellKind::Posix);
    assert_eq!(shell_kind("zsh5"), ShellKind::Posix);
}

const PRELUDE: &str = "unset TMUX TMUX_PANE\ntty > /tmp/ttyd_client_tty 2>/dev/null\nprintf '\\033]7337;%s\\033\\\\' \"$(tty)\" 2>/dev/null\nif tmux has-session 2>/dev/null; then\n    tmux set -g window-size latest 2>/dev/null\n    tmux attach\nfi\n";

#[test]
fn posix_wrapper_text() {
    let s = wrapper_script(ShellKind::Posix, "/bin/sh", TTY_FILE, ZDOTDIR, BASHRC_PATH);
    assert_eq!(s, format!("#!/bin/sh\n{}exec /bin/sh\n", PRELUDE));
}

#[test]
fn zsh_wrapper_text() {
    let s = wrapper_script(ShellKind::Zsh, "zsh", TTY_FILE, ZDOTDIR, BASHRC_PATH);
    assert_eq!(s, format!("#!/bin/zsh\n{}ZDOTDIR=/tmp/rust_terminal_zdotdir exec zsh\n", PRELUDE));
}

#[test]
fn bash_wrapper_text() {
    let s = wrapper_script(ShellKind::Bash, "bash", TTY_FILE, ZDOTDIR, BASHRC_PATH);
    assert_eq!(s, format!("#!/bin/bash\n{}exec bash --rcfile /tmp/rust_terminal_bashrc\n", PRELUDE));
    assert!(s.contains("printf '\\033]7337;%s\\033\\\\'"));
}

#[test]
fn rc_files_install_cwd_hook() {
    assert_eq!(
        zshrc_text("/tmp/ttyd_cwd"),
        "ZDOTDIR=\"$HOME\" source \"$HOME/.zshrc\" 2>/dev/null\n__ttyd_cwd_hook() { echo $PWD > /tmp/ttyd_cwd 2>/dev/null; }\nprecmd_functions+=(__ttyd_cwd_hook)\n"
    );
    assert_eq!(
        bashrc_text("/tmp/ttyd_cwd"),
        "[ -f \"$HOME/.bashrc\" ] && source \"$HOME/.bashrc\"\n__ttyd_cwd_hook() { echo $PWD > /tmp/ttyd_cwd 2>/dev/null; }\nPROMPT_COMMAND=\"__ttyd_cwd_hook${PROMPT_COMMAND:+;$PROMPT_COMMAND}\"\n"
    );
}

#[test]
fn zsh_links() {
    let links = zsh_dotfile_links("/home/u", "/tmp/z");
    assert_eq!(links.len(), 4);
    assert_eq!(links[0], ("/home/u/.zshenv".to_string(), "/tmp/z/.zshenv".to_string()));
    assert_eq!(links[3], ("/home/u/.zlogout".to_string(), "/tmp/z/.zlogout".to_string()));
    assert_eq!(join_path("/a", "b"), "/a/b");
}
