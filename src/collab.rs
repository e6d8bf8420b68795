//! What the HTTP collaborators read from the helper commands' output: the
//! client TTY, the working directory, git's repository, branches and changed
//! files, and the multiplexer's sessions. The commands themselves are run by
//! the caller, which hands their outcome over as `Ok(stdout)` or
//! `Err(message)`.
use vstd::prelude::*;
use vstd::string::StringExecFns;
use crate::registry::{copy_observation, opt_chars, ClientTtyRegistry};
use crate::text::{contains, contains_chars, decimal_i32, ends_with, lines, lines_of, lossy_of, lossy_text, parse_i32, trim, trim_of};

verus! {

/// The characters of each string, in order.
pub open spec fn chars_of_all(v: Seq<String>) -> Seq<Seq<char>> {
    v.map_values(|x: String| x@)
}

/// The first index at or after `i` where `c` stands in `s`.
pub open spec fn char_index_from(s: Seq<char>, c: char, i: int) -> Option<int>
    decreases s.len() - i,
{
    if i < 0 || i >= s.len() {
        None
    } else if s[i] == c {
        Some(i)
    } else {
        char_index_from(s, c, i + 1)
    }
}

/// `s` cut at the first `c`: what stands before it and what after it.
pub open spec fn split_at_first(s: Seq<char>, c: char) -> Option<(Seq<char>, Seq<char>)> {
    match char_index_from(s, c, 0) {
        Some(i) => Some((s.subrange(0, i), s.subrange(i + 1, s.len() as int))),
        None => None,
    }
}

proof fn lemma_char_index_sound(s: Seq<char>, c: char, i: int)
    ensures
        char_index_from(s, c, i) matches Some(j) ==> i <= j < s.len() && s[j] == c,
    decreases s.len() - i,
{
    if 0 <= i < s.len() && s[i] != c {
        lemma_char_index_sound(s, c, i + 1);
    }
}

/// Cuts `s` at the first `c`.
pub fn split_once_char(s: &str, c: char) -> (r: Option<(String, String)>)
    ensures
        match r {
            Some(p) => split_at_first(s@, c) == Some((p.0@, p.1@)),
            None => split_at_first(s@, c) is None,
        },
{
    let n = s.unicode_len();
    let mut i: usize = 0;
    while i < n
        invariant
            n == s@.len(),
            i <= n,
            char_index_from(s@, c, 0) == char_index_from(s@, c, i as int),
        decreases n - i,
    {
        if s.get_char(i) == c {
            let before = s.substring_char(0, i).to_owned();
            let after = s.substring_char(i + 1, n).to_owned();
            return Some((before, after));
        }
        i = i + 1;
    }
    None
}

/// The text before the first `c`, or all of it.
pub open spec fn field_before(s: Seq<char>, c: char) -> Seq<char> {
    match split_at_first(s, c) {
        Some(p) => p.0,
        None => s,
    }
}

/// A command's output with surrounding white space removed, when something
/// is left.
pub open spec fn nonblank_output(o: Result<String, String>) -> Option<Seq<char>> {
    match o {
        Ok(s) => if trim_of(s@).len() > 0 {
            Some(trim_of(s@))
        } else {
            None
        },
        Err(_) => None,
    }
}

/// A finished command's outcome: its output when it exited with success,
/// else its error output, trimmed.
pub fn command_result(success: bool, stdout: &[u8], stderr: &[u8]) -> (r: Result<String, String>)
    ensures
        match r {
            Ok(s) => success && s@ == lossy_of(stdout@),
            Err(e) => !success && e@ == trim_of(lossy_of(stderr@)),
        },
{
    if success {
        Ok(lossy_text(stdout))
    } else {
        let text = lossy_text(stderr);
        Err(trim(text.as_str()).to_owned())
    }
}

/// A successful command's output, trimmed, unless it is blank.
pub fn trimmed_output(output: &Result<String, String>) -> (r: Option<String>)
    ensures
        opt_chars(r) == nonblank_output(*output),
{
    match output {
        Ok(s) => {
            let t = trim(s.as_str());
            if t.is_empty() {
                None
            } else {
                Some(t.to_owned())
            }
        },
        Err(_) => None,
    }
}

/// The trimmed lines that are not blank, in order.
pub open spec fn nonblank_trimmed(ls: Seq<Seq<char>>) -> Seq<Seq<char>>
    decreases ls.len(),
{
    if ls.len() == 0 {
        Seq::empty()
    } else {
        let prev = nonblank_trimmed(ls.drop_last());
        let t = trim_of(ls.last());
        if t.len() > 0 {
            prev.push(t)
        } else {
            prev
        }
    }
}

/// The lines of `s`, trimmed, without the blank ones: a list of client TTYs,
/// or of process ids.
pub fn nonblank_lines(s: &str) -> (r: Vec<String>)
    ensures
        chars_of_all(r@) == nonblank_trimmed(lines_of(s@)),
{
    let ls = lines(s);
    let ghost all = lines_of(s@);
    let mut out: Vec<String> = Vec::new();
    let mut i: usize = 0;
    while i < ls.len()
        invariant
            i <= ls@.len(),
            ls@.len() == all.len(),
            forall|j: int| 0 <= j < ls@.len() ==> #[trigger] ls@[j]@ == all[j],
            chars_of_all(out@) == nonblank_trimmed(all.subrange(0, i as int)),
        decreases ls.len() - i,
    {
        let t = trim(ls[i]);
        let ghost before = out@;
        if !t.is_empty() {
            out.push(t.to_owned());
            assert(chars_of_all(out@) =~= chars_of_all(before).push(t@));
        }
        assert(all.subrange(0, i + 1).drop_last() =~= all.subrange(0, i as int));
        i = i + 1;
    }
    assert(all.subrange(0, ls@.len() as int) =~= all);
    out
}

/// Whether `v` holds `x`.
fn holds(v: &Vec<String>, x: &String) -> (r: bool)
    ensures
        r == chars_of_all(v@).contains(x@),
{
    let mut i: usize = 0;
    while i < v.len()
        invariant
            i <= v@.len(),
            forall|j: int| 0 <= j < i ==> v@[j]@ != x@,
        decreases v.len() - i,
    {
        if v[i].eq(x) {
            assert(chars_of_all(v@)[i as int] == x@);
            return true;
        }
        i = i + 1;
    }
    assert(!chars_of_all(v@).contains(x@)) by {
        if chars_of_all(v@).contains(x@) {
            let j = choose|j: int| 0 <= j < chars_of_all(v@).len() && chars_of_all(v@)[j] == x@;
            assert(v@[j]@ == x@);
        }
    }
    false
}

/// The TTY path in the probe file's content, when it is not blank.
pub open spec fn file_tty(content: Option<String>) -> Option<Seq<char>> {
    match content {
        Some(c) => if trim_of(c@).len() > 0 {
            Some(trim_of(c@))
        } else {
            None
        },
        None => None,
    }
}

/// The client TTY from the probe file, checked against the multiplexer's
/// client list: the file's path when a client has it, else the only client,
/// else the file's path.
pub open spec fn resolved_tty(content: Option<String>, clients: Result<String, String>) -> Option<
    Seq<char>,
> {
    match clients {
        Err(_) => file_tty(content),
        Ok(out) => {
            let cs = nonblank_trimmed(lines_of(out@));
            if file_tty(content) is Some && cs.contains(file_tty(content)->0) {
                file_tty(content)
            } else if cs.len() == 1 {
                Some(cs[0])
            } else {
                file_tty(content)
            }
        },
    }
}

/// The client TTY as the probe file and the multiplexer's client list
/// (`tmux list-clients -F '#{client_tty}'`) give it.
pub fn get_client_tty_from_file(content: Option<String>, clients_output: &Result<String, String>) -> (r:
    Option<String>)
    ensures
        opt_chars(r) == resolved_tty(content, *clients_output),
{
    let from_file: Option<String> = match &content {
        Some(c) => {
            let t = trim(c.as_str());
            if t.is_empty() {
                None
            } else {
                Some(t.to_owned())
            }
        },
        None => None,
    };
    match clients_output {
        Ok(out) => {
            let clients = nonblank_lines(out.as_str());
            if let Some(t) = &from_file {
                if holds(&clients, t) {
                    return copy_observation(&from_file);
                }
            }
            if clients.len() == 1 {
                return Some(clients[0].clone());
            }
            from_file
        },
        Err(_) => from_file,
    }
}

/// The client TTY that the registry holds, else the fallback (what the probe
/// file and the client list give).
pub fn get_client_tty_from_state(registry: &ClientTtyRegistry, fallback: Option<String>) -> (r:
    Option<String>)
    ensures
        opt_chars(r) == if registry@ is Some {
            registry@
        } else {
            opt_chars(fallback)
        },
{
    match registry.get() {
        Some(t) => Some(t),
        None => fallback,
    }
}

/// The client TTY a request names, else the one of the session state.
pub fn get_effective_client_tty(
    registry: &ClientTtyRegistry,
    explicit: Option<String>,
    fallback: Option<String>,
) -> (r: Option<String>)
    ensures
        opt_chars(r) == if explicit is Some {
            opt_chars(explicit)
        } else if registry@ is Some {
            registry@
        } else {
            opt_chars(fallback)
        },
{
    match explicit {
        Some(t) => Some(t),
        None => get_client_tty_from_state(registry, fallback),
    }
}

/// The working directory, by priority: the multiplexer pane's path, the
/// prompt hook's file, the shell process's directory, `$HOME`, `/tmp`.
pub open spec fn cwd_of(
    pane_path: Option<String>,
    cwd_file: Option<String>,
    child_cwd: Option<String>,
    home: Option<String>,
) -> Seq<char> {
    if pane_path is Some {
        pane_path->0@
    } else if file_tty(cwd_file) is Some {
        file_tty(cwd_file)->0
    } else if child_cwd is Some {
        child_cwd->0@
    } else if home is Some {
        home->0@
    } else {
        "/tmp"@
    }
}

pub fn get_cwd(
    pane_path: Option<String>,
    cwd_file: Option<String>,
    child_cwd: Option<String>,
    home: Option<String>,
) -> (r: String)
    ensures
        r@ == cwd_of(pane_path, cwd_file, child_cwd, home),
{
    if let Some(p) = pane_path {
        return p;
    }
    if let Some(c) = &cwd_file {
        let t = trim(c.as_str());
        if !t.is_empty() {
            return t.to_owned();
        }
    }
    if let Some(c) = child_cwd {
        return c;
    }
    match home {
        Some(h) => h,
        None => String::from_str("/tmp"),
    }
}

/// The path of the pane that a client's session shows: from the session
/// query (`display-message -c <tty> -p '#{client_session}'`) and the path
/// query on that session (`display-message -t <session> -p
/// '#{pane_current_path}'`).
pub fn get_tmux_pane_path(session_output: &Result<String, String>, path_output: &Result<String, String>) -> (r:
    Option<String>)
    ensures
        opt_chars(r) == if nonblank_output(*session_output) is None {
            None
        } else {
            nonblank_output(*path_output)
        },
{
    if trimmed_output(session_output).is_none() {
        return None;
    }
    trimmed_output(path_output)
}

/// Whether the multiplexer's client list (`tmux list-clients -F
/// '#{client_tty}'`) names `tty`. When the list cannot be had, nothing is
/// held against the client.
pub fn client_listed(clients_output: &Result<String, String>, tty: &str) -> (r: bool)
    ensures
        r == match clients_output {
            Ok(o) => contains_chars(o@, tty@),
            Err(_) => true,
        },
{
    match clients_output {
        Ok(o) => contains(o.as_str(), tty),
        Err(_) => true,
    }
}

/// `git rev-parse --git-dir` succeeded.
pub fn is_git_repo(output: &Result<String, String>) -> (r: bool)
    ensures
        r == output is Ok,
{
    output.is_ok()
}

/// The repository root from `git rev-parse --show-toplevel`, or `path`.
pub fn get_git_root(path: &str, output: &Result<String, String>) -> (r: String)
    ensures
        r@ == match output {
            Ok(s) => trim_of(s@),
            Err(_) => path@,
        },
{
    match output {
        Ok(s) => trim(s.as_str()).to_owned(),
        Err(_) => path.to_owned(),
    }
}

/// The branch from `git rev-parse --abbrev-ref HEAD`, or `unknown`.
pub fn get_branch(output: &Result<String, String>) -> (r: String)
    ensures
        r@ == match output {
            Ok(s) => trim_of(s@),
            Err(_) => "unknown"@,
        },
{
    match output {
        Ok(s) => trim(s.as_str()).to_owned(),
        Err(_) => String::from_str("unknown"),
    }
}


/// The session of the client `tty` in the lines of `tmux list-clients -F
/// '#{client_tty} #{client_session}'`: the first line whose text before the
/// first space is `tty`.
pub open spec fn session_for(ls: Seq<Seq<char>>, tty: Seq<char>) -> Option<Seq<char>>
    decreases ls.len(),
{
    if ls.len() == 0 {
        None
    } else {
        match split_at_first(trim_of(ls[0]), ' ') {
            Some(p) => if p.0 == tty {
                Some(p.1)
            } else {
                session_for(ls.drop_first(), tty)
            },
            None => session_for(ls.drop_first(), tty),
        }
    }
}

/// The multiplexer session that the client `client_tty` shows.
pub fn get_current_tmux_session(client_tty: Option<&str>, output: &Result<String, String>) -> (r:
    Option<String>)
    ensures
        opt_chars(r) == match client_tty {
            None => None,
            Some(t) => match output {
                Ok(o) => session_for(lines_of(o@), t@),
                Err(_) => None,
            },
        },
{
    let tty: String = match client_tty {
        Some(t) => t.to_owned(),
        None => return None,
    };
    assert(tty@ == client_tty->0@);
    let out = match output {
        Ok(o) => o,
        Err(_) => return None,
    };
    let ls = lines(out.as_str());
    let ghost all = lines_of(out@);
    assert(all.subrange(0, all.len() as int) =~= all);
    let mut i: usize = 0;
    while i < ls.len()
        invariant
            i <= ls@.len(),
            ls@.len() == all.len(),
            forall|j: int| 0 <= j < ls@.len() ==> #[trigger] ls@[j]@ == all[j],
            session_for(all, tty@) == session_for(all.subrange(i as int, all.len() as int), tty@),
            client_tty is Some && tty@ == client_tty->0@,
            output is Ok && all == lines_of(output->Ok_0@),
        decreases ls.len() - i,
    {
        let ghost rest = all.subrange(i as int, all.len() as int);
        assert(rest[0] == all[i as int]);
        assert(rest.drop_first() =~= all.subrange(i + 1, all.len() as int));
        let line = trim(ls[i]);
        assert(line@ == trim_of(rest[0]));
        if let Some((name, session)) = split_once_char(line, ' ') {
            if name.eq(&tty) {
                assert(session_for(rest, tty@) == Some(session@));
                return Some(session);
            }
        }
        i = i + 1;
    }
    None
}

/// A multiplexer session as `tmux ls` lists it.
pub struct TmuxSession {
    pub name: String,
    pub windows: i32,
    pub attached: bool,
}

pub struct TmuxSessionView {
    pub name: Seq<char>,
    pub windows: i32,
    pub attached: bool,
}

pub open spec fn tmux_session_view(t: TmuxSession) -> TmuxSessionView {
    TmuxSessionView { name: t.name@, windows: t.windows, attached: t.attached }
}

/// A line `name:windows:attached`: at least three fields split at `:`, a
/// window count that does not parse counts as zero, and a session is
/// attached when its count parses and is positive.
pub open spec fn tmux_session_of_line(l: Seq<char>) -> Option<TmuxSessionView> {
    match split_at_first(l, ':') {
        None => None,
        Some(p) => match split_at_first(p.1, ':') {
            None => None,
            Some(q) => Some(
                TmuxSessionView {
                    name: p.0,
                    windows: match decimal_i32(q.0) {
                        Some(v) => v,
                        None => 0,
                    },
                    attached: match decimal_i32(field_before(q.1, ':')) {
                        Some(v) => v > 0,
                        None => false,
                    },
                },
            ),
        },
    }
}

/// The sessions of the lines that hold one, in order.
pub open spec fn sessions_of(ls: Seq<Seq<char>>) -> Seq<TmuxSessionView>
    decreases ls.len(),
{
    if ls.len() == 0 {
        Seq::empty()
    } else {
        let prev = sessions_of(ls.drop_last());
        match tmux_session_of_line(ls.last()) {
            Some(v) => prev.push(v),
            None => prev,
        }
    }
}

fn session_of_line(l: &str) -> (r: Option<TmuxSession>)
    ensures
        match r {
            Some(t) => tmux_session_of_line(l@) == Some(tmux_session_view(t)),
            None => tmux_session_of_line(l@) is None,
        },
{
    let (name, rest) = match split_once_char(l, ':') {
        Some(p) => p,
        None => return None,
    };
    let (windows, rest2) = match split_once_char(rest.as_str(), ':') {
        Some(p) => p,
        None => return None,
    };
    let attached_field: String = match split_once_char(rest2.as_str(), ':') {
        Some(p) => p.0,
        None => rest2,
    };
    let windows: i32 = match parse_i32(windows.as_str()) {
        Some(v) => v,
        None => 0,
    };
    let attached: bool = match parse_i32(attached_field.as_str()) {
        Some(v) => v > 0,
        None => false,
    };
    Some(TmuxSession { name, windows, attached })
}

/// The sessions that `tmux ls -F '#{session_name}:#{session_windows}:#{session_attached}'`
/// lists; none when it failed.
pub fn get_tmux_sessions(output: &Result<String, String>) -> (r: Vec<TmuxSession>)
    ensures
        r@.map_values(|t: TmuxSession| tmux_session_view(t)) == match output {
            Ok(o) => sessions_of(lines_of(o@)),
            Err(_) => Seq::empty(),
        },
{
    let mut out: Vec<TmuxSession> = Vec::new();
    let text = match output {
        Ok(o) => o,
        Err(_) => {
            assert(out@.map_values(|t: TmuxSession| tmux_session_view(t)) =~= Seq::<
                TmuxSessionView,
            >::empty());
            return out;
        },
    };
    let ls = lines(text.as_str());
    let ghost all = lines_of(text@);
    let mut i: usize = 0;
    while i < ls.len()
        invariant
            i <= ls@.len(),
            ls@.len() == all.len(),
            forall|j: int| 0 <= j < ls@.len() ==> #[trigger] ls@[j]@ == all[j],
            out@.map_values(|t: TmuxSession| tmux_session_view(t)) == sessions_of(
                all.subrange(0, i as int),
            ),
        decreases ls.len() - i,
    {
        let ghost before = out@;
        if let Some(t) = session_of_line(ls[i]) {
            out.push(t);
            assert(out@.map_values(|t: TmuxSession| tmux_session_view(t)) =~= before.map_values(
                |t: TmuxSession| tmux_session_view(t),
            ).push(tmux_session_view(out@.last())));
        }
        assert(all.subrange(0, i + 1).drop_last() =~= all.subrange(0, i as int));
        i = i + 1;
    }
    assert(all.subrange(0, ls@.len() as int) =~= all);
    out
}

/// A changed file as `git diff --name-status` lists it.
pub struct ChangedFile {
    pub status: String,
    pub filename: String,
}

/// The (status, file name) pairs of the lines that hold a tab, cut at the
/// first tab, in order.
pub open spec fn changed_of(ls: Seq<Seq<char>>) -> Seq<(Seq<char>, Seq<char>)>
    decreases ls.len(),
{
    if ls.len() == 0 {
        Seq::empty()
    } else {
        let prev = changed_of(ls.drop_last());
        match split_at_first(ls.last(), '\t') {
            Some(p) => prev.push(p),
            None => prev,
        }
    }
}

pub open spec fn changed_view(c: ChangedFile) -> (Seq<char>, Seq<char>) {
    (c.status@, c.filename@)
}

/// The files that `git diff --name-status` lists; none when it failed.
pub fn get_changed_files(output: &Result<String, String>) -> (r: Vec<ChangedFile>)
    ensures
        r@.map_values(|c: ChangedFile| changed_view(c)) == match output {
            Ok(o) => changed_of(lines_of(o@)),
            Err(_) => Seq::empty(),
        },
{
    let mut out: Vec<ChangedFile> = Vec::new();
    let text = match output {
        Ok(o) => o,
        Err(_) => {
            assert(out@.map_values(|c: ChangedFile| changed_view(c)) =~= Seq::<
                (Seq<char>, Seq<char>),
            >::empty());
            return out;
        },
    };
    let ls = lines(text.as_str());
    let ghost all = lines_of(text@);
    let mut i: usize = 0;
    while i < ls.len()
        invariant
            i <= ls@.len(),
            ls@.len() == all.len(),
            forall|j: int| 0 <= j < ls@.len() ==> #[trigger] ls@[j]@ == all[j],
            out@.map_values(|c: ChangedFile| changed_view(c)) == changed_of(
                all.subrange(0, i as int),
            ),
        decreases ls.len() - i,
    {
        let ghost before = out@;
        if let Some((status, filename)) = split_once_char(ls[i], '\t') {
            out.push(ChangedFile { status, filename });
            assert(out@.map_values(|c: ChangedFile| changed_view(c)) =~= before.map_values(
                |c: ChangedFile| changed_view(c),
            ).push(changed_view(out@.last())));
        }
        assert(all.subrange(0, i + 1).drop_last() =~= all.subrange(0, i as int));
        i = i + 1;
    }
    assert(all.subrange(0, ls@.len() as int) =~= all);
    out
}

/// The lines that `git branch` lists, in order: the non-empty ones, and for
/// remote branches not the `…/HEAD` alias.
pub open spec fn branch_lines(ls: Seq<Seq<char>>, remote: bool) -> Seq<Seq<char>>
    decreases ls.len(),
{
    if ls.len() == 0 {
        Seq::empty()
    } else {
        let prev = branch_lines(ls.drop_last(), remote);
        let l = ls.last();
        let head_alias = l.len() >= 5 && l.subrange(l.len() - 5, l.len() as int) == "/HEAD"@;
        if l.len() > 0 && !(remote && head_alias) {
            prev.push(l)
        } else {
            prev
        }
    }
}

fn branch_list(output: &Result<String, String>, remote: bool) -> (r: Vec<String>)
    ensures
        chars_of_all(r@) == match output {
            Ok(o) => branch_lines(lines_of(o@), remote),
            Err(_) => Seq::empty(),
        },
{
    let mut out: Vec<String> = Vec::new();
    let text = match output {
        Ok(o) => o,
        Err(_) => {
            assert(chars_of_all(out@) =~= Seq::<Seq<char>>::empty());
            return out;
        },
    };
    proof {
        reveal_strlit("/HEAD");
    }
    let ls = lines(text.as_str());
    let ghost all = lines_of(text@);
    let mut i: usize = 0;
    while i < ls.len()
        invariant
            i <= ls@.len(),
            ls@.len() == all.len(),
            forall|j: int| 0 <= j < ls@.len() ==> #[trigger] ls@[j]@ == all[j],
            chars_of_all(out@) == branch_lines(all.subrange(0, i as int), remote),
            "/HEAD"@.len() == 5,
        decreases ls.len() - i,
    {
        let l: &str = ls[i];
        let ghost before = out@;
        if !l.is_empty() && !(remote && ends_with(l, "/HEAD")) {
            out.push(l.to_owned());
            assert(chars_of_all(out@) =~= chars_of_all(before).push(l@));
        }
        assert(all.subrange(0, i + 1).drop_last() =~= all.subrange(0, i as int));
        i = i + 1;
    }
    assert(all.subrange(0, ls@.len() as int) =~= all);
    out
}

/// The branches of a repository.
pub struct BranchesResponse {
    pub local: Vec<String>,
    pub remote: Vec<String>,
    pub current: String,
}

/// The branches from `git rev-parse --abbrev-ref HEAD`, `git branch
/// --format=%(refname:short)` and `git branch -r --format=%(refname:short)`.
pub fn get_all_branches(
    current_output: &Result<String, String>,
    local_output: &Result<String, String>,
    remote_output: &Result<String, String>,
) -> (r: BranchesResponse)
    ensures
        r.current@ == match current_output {
            Ok(s) => trim_of(s@),
            Err(_) => "unknown"@,
        },
        chars_of_all(r.local@) == match local_output {
            Ok(o) => branch_lines(lines_of(o@), false),
            Err(_) => Seq::empty(),
        },
        chars_of_all(r.remote@) == match remote_output {
            Ok(o) => branch_lines(lines_of(o@), true),
            Err(_) => Seq::empty(),
        },
{
    let current = get_branch(current_output);
    let local = branch_list(local_output, false);
    let remote = branch_list(remote_output, true);
    BranchesResponse { local, remote, current }
}

} // verus!
