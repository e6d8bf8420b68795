//! The wrapper script that starts the user's shell: it announces the shell's
//! TTY, installs a per-prompt hook that records the working directory, joins a
//! running multiplexer session if there is one, and then execs the shell.
use vstd::prelude::*;
use vstd::string::StringExecFns;
use crate::text::ends_with;

verus! {

/// Where the wrapper script is written.
pub const WRAPPER_PATH: &'static str = "/tmp/rust_terminal_wrapper.sh";

/// Where the shell records its TTY path.
pub const TTY_FILE: &'static str = "/tmp/ttyd_client_tty";

/// Where the prompt hook records the working directory.
pub const CWD_FILE: &'static str = "/tmp/ttyd_cwd";

/// The synthetic dot-file root for zsh.
pub const ZDOTDIR: &'static str = "/tmp/rust_terminal_zdotdir";

/// The synthetic rc file for bash.
pub const BASHRC_PATH: &'static str = "/tmp/rust_terminal_bashrc";

/// The shell families the wrapper knows.
#[derive(Clone, Copy, PartialEq, Eq, Structural, Debug)]
pub enum ShellKind {
    Zsh,
    Bash,
    Posix,
}

/// `shell` names `name` itself or a path ending in `/name`.
pub open spec fn names_shell(shell: Seq<char>, name: Seq<char>) -> bool {
    shell == name || {
        let suffix = seq!['/'] + name;
        suffix.len() <= shell.len() && shell.subrange(shell.len() - suffix.len(), shell.len() as int)
            == suffix
    }
}

pub open spec fn shell_kind_of(shell: Seq<char>) -> ShellKind {
    if names_shell(shell, "zsh"@) {
        ShellKind::Zsh
    } else if names_shell(shell, "bash"@) {
        ShellKind::Bash
    } else {
        ShellKind::Posix
    }
}

fn is_named(shell: &str, name: &str, slash_name: &str) -> (r: bool)
    requires
        slash_name@ == seq!['/'] + name@,
    ensures
        r == names_shell(shell@, name@),
{
    let same = shell.unicode_len() == name.unicode_len() && ends_with(shell, name);
    assert(shell@.subrange(0, shell@.len() as int) =~= shell@);
    same || ends_with(shell, slash_name)
}

/// Which variant of the wrapper a configured shell gets.
pub fn shell_kind(shell: &str) -> (r: ShellKind)
    ensures
        r == shell_kind_of(shell@),
{
    proof {
        reveal_strlit("zsh");
        reveal_strlit("/zsh");
        reveal_strlit("bash");
        reveal_strlit("/bash");
    }
    assert("/zsh"@ =~= seq!['/'] + "zsh"@);
    assert("/bash"@ =~= seq!['/'] + "bash"@);
    if is_named(shell, "zsh", "/zsh") {
        ShellKind::Zsh
    } else if is_named(shell, "bash", "/bash") {
        ShellKind::Bash
    } else {
        ShellKind::Posix
    }
}

/// The lines every variant shares: drop the multiplexer's variables, record
/// and announce the TTY, and join a running multiplexer session.
pub open spec fn script_prelude(tty_file: Seq<char>) -> Seq<char> {
    "unset TMUX TMUX_PANE\ntty > "@ + tty_file + (" 2>/dev/null\nprintf '\\033]7337;%s\\033\\\\' \"$(tty)\" 2>/dev/null\nif tmux has-session 2>/dev/null; then\n    tmux set -g window-size latest 2>/dev/null\n    tmux attach\nfi\n")@
}

/// The whole wrapper script for a shell family.
pub open spec fn wrapper_script_of(
    kind: ShellKind,
    shell: Seq<char>,
    tty_file: Seq<char>,
    zdotdir: Seq<char>,
    bashrc: Seq<char>,
) -> Seq<char> {
    match kind {
        ShellKind::Zsh => "#!/bin/zsh\n"@ + script_prelude(tty_file) + "ZDOTDIR="@ + zdotdir
            + " exec "@ + shell + "\n"@,
        ShellKind::Bash => "#!/bin/bash\n"@ + script_prelude(tty_file) + "exec bash --rcfile "@
            + bashrc + "\n"@,
        ShellKind::Posix => "#!/bin/sh\n"@ + script_prelude(tty_file) + "exec "@ + shell + "\n"@,
    }
}

/// The wrapper script for `shell`.
pub fn wrapper_script(kind: ShellKind, shell: &str, tty_file: &str, zdotdir: &str, bashrc: &str) -> (r:
    String)
    ensures
        r@ == wrapper_script_of(kind, shell@, tty_file@, zdotdir@, bashrc@),
{
    let mut s = match kind {
        ShellKind::Zsh => String::from_str("#!/bin/zsh\n"),
        ShellKind::Bash => String::from_str("#!/bin/bash\n"),
        ShellKind::Posix => String::from_str("#!/bin/sh\n"),
    };
    s.append("unset TMUX TMUX_PANE\ntty > ");
    s.append(tty_file);
    s.append(" 2>/dev/null\nprintf '\\033]7337;%s\\033\\\\' \"$(tty)\" 2>/dev/null\nif tmux has-session 2>/dev/null; then\n    tmux set -g window-size latest 2>/dev/null\n    tmux attach\nfi\n");
    match kind {
        ShellKind::Zsh => {
            s.append("ZDOTDIR=");
            s.append(zdotdir);
            s.append(" exec ");
            s.append(shell);
        },
        ShellKind::Bash => {
            s.append("exec bash --rcfile ");
            s.append(bashrc);
        },
        ShellKind::Posix => {
            s.append("exec ");
            s.append(shell);
        },
    }
    s.append("\n");
    assert(s@ =~= wrapper_script_of(kind, shell@, tty_file@, zdotdir@, bashrc@));
    s
}

/// The hook line that records `$PWD` in the working-directory file.
pub open spec fn cwd_hook_of(cwd_file: Seq<char>) -> Seq<char> {
    "__ttyd_cwd_hook() { echo $PWD > "@ + cwd_file + " 2>/dev/null; }\n"@
}

/// The synthetic `.zshrc`: the user's own, then the prompt hook.
pub open spec fn zshrc_of(cwd_file: Seq<char>) -> Seq<char> {
    "ZDOTDIR=\"$HOME\" source \"$HOME/.zshrc\" 2>/dev/null\n"@ + cwd_hook_of(cwd_file)
        + "precmd_functions+=(__ttyd_cwd_hook)\n"@
}

/// The synthetic bash rc file: the user's own, then the prompt hook.
pub open spec fn bashrc_of(cwd_file: Seq<char>) -> Seq<char> {
    "[ -f \"$HOME/.bashrc\" ] && source \"$HOME/.bashrc\"\n"@ + cwd_hook_of(cwd_file)
        + "PROMPT_COMMAND=\"__ttyd_cwd_hook${PROMPT_COMMAND:+;$PROMPT_COMMAND}\"\n"@
}

pub fn zshrc_text(cwd_file: &str) -> (r: String)
    ensures
        r@ == zshrc_of(cwd_file@),
{
    let mut s = String::from_str("ZDOTDIR=\"$HOME\" source \"$HOME/.zshrc\" 2>/dev/null\n");
    s.append("__ttyd_cwd_hook() { echo $PWD > ");
    s.append(cwd_file);
    s.append(" 2>/dev/null; }\n");
    s.append("precmd_functions+=(__ttyd_cwd_hook)\n");
    assert(s@ =~= zshrc_of(cwd_file@));
    s
}

pub fn bashrc_text(cwd_file: &str) -> (r: String)
    ensures
        r@ == bashrc_of(cwd_file@),
{
    let mut s = String::from_str("[ -f \"$HOME/.bashrc\" ] && source \"$HOME/.bashrc\"\n");
    s.append("__ttyd_cwd_hook() { echo $PWD > ");
    s.append(cwd_file);
    s.append(" 2>/dev/null; }\n");
    s.append("PROMPT_COMMAND=\"__ttyd_cwd_hook${PROMPT_COMMAND:+;$PROMPT_COMMAND}\"\n");
    assert(s@ =~= bashrc_of(cwd_file@));
    s
}

/// `dir/name`.
pub fn join_path(dir: &str, name: &str) -> (r: String)
    ensures
        r@ == dir@ + "/"@ + name@,
{
    let mut s = String::from_str(dir);
    s.append("/");
    s.append(name);
    s
}

/// The user's zsh dot files that the synthetic root links to, each as the
/// pair (file under `home`, link under `zdotdir`).
pub fn zsh_dotfile_links(home: &str, zdotdir: &str) -> (r: Vec<(String, String)>)
    ensures
        r@.len() == 4,
        r@[0].0@ == home@ + "/"@ + ".zshenv"@ && r@[0].1@ == zdotdir@ + "/"@ + ".zshenv"@,
        r@[1].0@ == home@ + "/"@ + ".zprofile"@ && r@[1].1@ == zdotdir@ + "/"@ + ".zprofile"@,
        r@[2].0@ == home@ + "/"@ + ".zlogin"@ && r@[2].1@ == zdotdir@ + "/"@ + ".zlogin"@,
        r@[3].0@ == home@ + "/"@ + ".zlogout"@ && r@[3].1@ == zdotdir@ + "/"@ + ".zlogout"@,
{
    let mut r: Vec<(String, String)> = Vec::new();
    r.push((join_path(home, ".zshenv"), join_path(zdotdir, ".zshenv")));
    r.push((join_path(home, ".zprofile"), join_path(zdotdir, ".zprofile")));
    r.push((join_path(home, ".zlogin"), join_path(zdotdir, ".zlogin")));
    r.push((join_path(home, ".zlogout"), join_path(zdotdir, ".zlogout")));
    r
}

} // verus!
