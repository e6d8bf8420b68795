//! Scanning the terminal stream for the shell's TTY announce sequence
//! `ESC ] 7337 ; <path> ESC \`.
use vstd::prelude::*;
use vstd::utf8::{decode_utf8, valid_utf8};
use crate::registry::{copy_observation, opt_chars};
use crate::text::decode_text;

verus! {

/// The bytes `]7337;` that open the announce payload.
pub open spec fn announce_mark() -> Seq<u8> {
    seq![0x5du8, 0x37u8, 0x33u8, 0x33u8, 0x37u8, 0x3bu8]
}

/// The bytes `/dev/pts/` that an announced path must start with.
pub open spec fn pts_prefix() -> Seq<u8> {
    seq![0x2fu8, 0x64u8, 0x65u8, 0x76u8, 0x2fu8, 0x70u8, 0x74u8, 0x73u8, 0x2fu8]
}

/// The backslash that ends the payload.
pub const BACKSLASH: u8 = 0x5c;

/// The escape byte.
pub const ESC: u8 = 0x1b;

/// `pat` occurs in `s` at index `i`.
pub open spec fn occurs_at(s: Seq<u8>, pat: Seq<u8>, i: int) -> bool {
    0 <= i && i + pat.len() <= s.len() && s.subrange(i, i + pat.len()) == pat
}

/// The first index at or after `i` where `pat` occurs in `s`.
pub open spec fn find_from(s: Seq<u8>, pat: Seq<u8>, i: int) -> Option<int>
    decreases s.len() + 1 - i,
{
    if i < 0 || i + pat.len() > s.len() {
        None
    } else if occurs_at(s, pat, i) {
        Some(i)
    } else {
        find_from(s, pat, i + 1)
    }
}

/// `s` with every trailing escape byte removed.
pub open spec fn trim_end_esc(s: Seq<u8>) -> Seq<u8>
    decreases s.len(),
{
    if s.len() > 0 && s.last() == ESC {
        trim_end_esc(s.drop_last())
    } else {
        s
    }
}

pub open spec fn starts_with(s: Seq<u8>, p: Seq<u8>) -> bool {
    p.len() <= s.len() && s.subrange(0, p.len() as int) == p
}

/// The path bytes that a chunk announces: the text after the first `]7337;`
/// up to the next backslash, without trailing escapes, when it starts with
/// `/dev/pts/`.
pub open spec fn announced_bytes(chunk: Seq<u8>) -> Option<Seq<u8>> {
    match find_from(chunk, announce_mark(), 0) {
        None => None,
        Some(p) => match find_from(chunk, seq![BACKSLASH], p + 6) {
            None => None,
            Some(e) => {
                let t = trim_end_esc(chunk.subrange(p + 6, e));
                if starts_with(t, pts_prefix()) {
                    Some(t)
                } else {
                    None
                }
            },
        },
    }
}

/// The path that a chunk announces. Only a chunk that is well-formed UTF-8
/// as a whole is scanned.
pub open spec fn announced_path(chunk: Seq<u8>) -> Option<Seq<char>> {
    if !valid_utf8(chunk) {
        None
    } else {
        match announced_bytes(chunk) {
            Some(t) => if valid_utf8(t) {
                Some(decode_utf8(t))
            } else {
                None
            },
            None => None,
        }
    }
}

/// Whether the announce mark occurs at index `i`.
fn mark_at(s: &[u8], i: usize) -> (r: bool)
    ensures
        r == occurs_at(s@, announce_mark(), i as int),
{
    if i > s.len() || s.len() - i < 6 {
        return false;
    }
    let r = s[i] == 0x5d && s[i + 1] == 0x37 && s[i + 2] == 0x33 && s[i + 3] == 0x33 && s[i + 4]
        == 0x37 && s[i + 5] == 0x3b;
    assert(r == (s@.subrange(i as int, i + 6) =~= announce_mark()));
    r
}

/// Whether `/dev/pts/` occurs at index `i`.
fn pts_at(s: &[u8], i: usize) -> (r: bool)
    ensures
        r == occurs_at(s@, pts_prefix(), i as int),
{
    if i > s.len() || s.len() - i < 9 {
        return false;
    }
    let r = s[i] == 0x2f && s[i + 1] == 0x64 && s[i + 2] == 0x65 && s[i + 3] == 0x76 && s[i + 4]
        == 0x2f && s[i + 5] == 0x70 && s[i + 6] == 0x74 && s[i + 7] == 0x73 && s[i + 8] == 0x2f;
    assert(r == (s@.subrange(i as int, i + 9) =~= pts_prefix()));
    r
}

proof fn lemma_find_skip(s: Seq<u8>, pat: Seq<u8>, i: int)
    requires
        0 <= i,
        i + pat.len() <= s.len(),
        !occurs_at(s, pat, i),
    ensures
        find_from(s, pat, i) == find_from(s, pat, i + 1),
{
}

proof fn lemma_find_sound(s: Seq<u8>, pat: Seq<u8>, i: int)
    ensures
        find_from(s, pat, i) matches Some(j) ==> i <= j && occurs_at(s, pat, j),
    decreases s.len() + 1 - i,
{
    if !(i < 0 || i + pat.len() > s.len()) && !occurs_at(s, pat, i) {
        lemma_find_sound(s, pat, i + 1);
    }
}

/// The first announce mark in `s`.
fn find_mark(s: &[u8]) -> (r: Option<usize>)
    ensures
        match r {
            Some(i) => find_from(s@, announce_mark(), 0) == Some(i as int),
            None => find_from(s@, announce_mark(), 0) is None,
        },
{
    let mut i: usize = 0;
    while i < s.len() && s.len() - i >= 6
        invariant
            i <= s.len(),
            find_from(s@, announce_mark(), 0) == find_from(s@, announce_mark(), i as int),
        decreases s.len() - i,
    {
        if mark_at(s, i) {
            return Some(i);
        }
        proof {
            lemma_find_skip(s@, announce_mark(), i as int);
        }
        i = i + 1;
    }
    None
}

/// The first backslash in `s` at or after `from`.
fn find_backslash(s: &[u8], from: usize) -> (r: Option<usize>)
    ensures
        match r {
            Some(i) => find_from(s@, seq![BACKSLASH], from as int) == Some(i as int),
            None => find_from(s@, seq![BACKSLASH], from as int) is None,
        },
{
    let mut i: usize = from;
    while i < s.len()
        invariant
            from <= i,
            find_from(s@, seq![BACKSLASH], from as int) == find_from(
                s@,
                seq![BACKSLASH],
                i as int,
            ),
        decreases s.len() - i,
    {
        assert(s@.subrange(i as int, i + 1) =~= seq![s@[i as int]]);
        if s[i] == BACKSLASH {
            return Some(i);
        }
        proof {
            if s@.subrange(i as int, i + 1) == seq![BACKSLASH] {
                assert(s@.subrange(i as int, i + 1)[0] == BACKSLASH);
            }
            lemma_find_skip(s@, seq![BACKSLASH], i as int);
        }
        i = i + 1;
    }
    None
}

/// Scans one chunk of terminal output for an announced TTY path.
pub fn scan_announce(chunk: &[u8]) -> (r: Option<String>)
    ensures
        opt_chars(r) == announced_path(chunk@),
{
    if decode_text(chunk).is_none() {
        return None;
    }
    let p = match find_mark(chunk) {
        Some(p) => p,
        None => return None,
    };
    proof {
        lemma_find_sound(chunk@, announce_mark(), 0);
        assert(announce_mark().len() == 6);
        assert(pts_prefix().len() == 9);
    }
    let len: usize = chunk.len();
    assert(occurs_at(chunk@, announce_mark(), p as int));
    let start = p + 6;
    proof {
        lemma_find_sound(chunk@, seq![BACKSLASH], start as int);
    }
    let e = match find_backslash(chunk, start) {
        Some(e) => e,
        None => return None,
    };
    let mut k: usize = e;
    while k > start && chunk[k - 1] == ESC
        invariant
            start <= k <= e <= len == chunk@.len(),
            trim_end_esc(chunk@.subrange(start as int, e as int)) == trim_end_esc(
                chunk@.subrange(start as int, k as int),
            ),
        decreases k,
    {
        assert(chunk@.subrange(start as int, k as int).drop_last() =~= chunk@.subrange(
            start as int,
            k - 1,
        ));
        k = k - 1;
    }
    let ghost t = chunk@.subrange(start as int, k as int);
    assert(t.len() > 0 ==> t.last() != ESC);
    assert(trim_end_esc(t) == t);
    if k - start < 9 {
        return None;
    }
    assert(t.subrange(0, 9) =~= chunk@.subrange(start as int, start + 9));
    if !pts_at(chunk, start) {
        return None;
    }
    let path = &chunk[start..k];
    match decode_text(path) {
        Some(text) => Some(text.to_owned()),
        None => None,
    }
}

/// The per-connection TTY observation. The first announced path is kept for
/// the rest of the session.
pub struct TtyWatch {
    detected: bool,
    observation: Option<String>,
}

/// What a watch has seen: whether a path was detected, and which.
pub struct WatchView {
    pub detected: bool,
    pub observation: Option<Seq<char>>,
}

/// The watch after one chunk.
pub open spec fn watch_step(w: WatchView, chunk: Seq<u8>) -> WatchView {
    if w.detected {
        w
    } else {
        match announced_path(chunk) {
            Some(p) => WatchView { detected: true, observation: Some(p) },
            None => w,
        }
    }
}

/// The watch after a run of chunks, in order.
pub open spec fn watch_run(w: WatchView, chunks: Seq<Seq<u8>>) -> WatchView
    decreases chunks.len(),
{
    if chunks.len() == 0 {
        w
    } else {
        watch_run(watch_step(w, chunks[0]), chunks.drop_first())
    }
}

impl View for TtyWatch {
    type V = WatchView;

    closed spec fn view(&self) -> WatchView {
        WatchView { detected: self.detected, observation: opt_chars(self.observation) }
    }
}

impl TtyWatch {
    pub fn new() -> (r: Self)
        ensures
            r@ == (WatchView { detected: false, observation: None }),
    {
        TtyWatch { detected: false, observation: None }
    }

    pub fn is_detected(&self) -> (r: bool)
        ensures
            r == self@.detected,
    {
        self.detected
    }

    /// The path this connection observed, if any.
    pub fn observation(&self) -> (r: Option<String>)
        ensures
            opt_chars(r) == self@.observation,
    {
        copy_observation(&self.observation)
    }

    /// Looks at one chunk of output. The chunk itself is not touched. Returns
    /// the path when this chunk is the first to announce one.
    pub fn observe(&mut self, chunk: &[u8]) -> (newly: Option<String>)
        ensures
            final(self)@ == watch_step(old(self)@, chunk@),
            opt_chars(newly) == if old(self)@.detected {
                None
            } else {
                announced_path(chunk@)
            },
    {
        if self.detected {
            return None;
        }
        match scan_announce(chunk) {
            Some(path) => {
                let published = path.clone();
                self.observation = Some(path);
                self.detected = true;
                Some(published)
            },
            None => None,
        }
    }
}

/// Once a path has been detected, no later chunk changes the observation:
/// the first announce wins.
pub proof fn lemma_first_observation_wins(w: WatchView, chunks: Seq<Seq<u8>>)
    requires
        w.detected,
    ensures
        watch_run(w, chunks) == w,
    decreases chunks.len(),
{
    if chunks.len() > 0 {
        lemma_first_observation_wins(watch_step(w, chunks[0]), chunks.drop_first());
    }
}

} // verus!
