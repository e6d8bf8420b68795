//! Reading `git diff` output: per-file hunks with numbered lines, and the
//! added and deleted line counts.
use vstd::prelude::*;
use vstd::string::StringExecFns;
use crate::collab::{changed_of, changed_view, field_before, get_changed_files, split_once_char, ChangedFile};
use crate::text::{
    decimal_i64, lines, lines_of, parse_i64, starts_with, strip_leading, trim_start_char, words,
    words_of,
};

verus! {

/// How a diff line reads.
#[derive(Clone, Copy, PartialEq, Eq, Structural, Debug)]
pub enum LineKind {
    Add,
    Del,
    Ctx,
}

pub struct DiffLine {
    pub kind: LineKind,
    pub old_num: Option<i64>,
    pub new_num: Option<i64>,
    pub content: String,
}

pub struct DiffHunk {
    pub header: String,
    pub lines: Vec<DiffLine>,
}

pub struct DiffFile {
    pub filename: String,
    pub status: String,
    pub binary: bool,
    pub additions: i64,
    pub deletions: i64,
    pub hunks: Vec<DiffHunk>,
}

pub struct DiffSummary {
    pub total_files: i64,
    pub total_additions: i64,
    pub total_deletions: i64,
}

pub struct DiffResult {
    pub files: Vec<DiffFile>,
    pub summary: DiffSummary,
}

pub struct LineView {
    pub kind: LineKind,
    pub old_num: Option<i64>,
    pub new_num: Option<i64>,
    pub content: Seq<char>,
}

pub struct HunkView {
    pub header: Seq<char>,
    pub lines: Seq<LineView>,
}

pub struct FileView {
    pub filename: Seq<char>,
    pub status: Seq<char>,
    pub binary: bool,
    pub additions: i64,
    pub deletions: i64,
    pub hunks: Seq<HunkView>,
}

pub open spec fn line_view(l: DiffLine) -> LineView {
    LineView { kind: l.kind, old_num: l.old_num, new_num: l.new_num, content: l.content@ }
}

pub open spec fn lines_view(v: Seq<DiffLine>) -> Seq<LineView> {
    v.map_values(|l: DiffLine| line_view(l))
}

pub open spec fn hunk_view(h: DiffHunk) -> HunkView {
    HunkView { header: h.header@, lines: lines_view(h.lines@) }
}

pub open spec fn hunks_view(v: Seq<DiffHunk>) -> Seq<HunkView> {
    v.map_values(|h: DiffHunk| hunk_view(h))
}

pub open spec fn file_view(f: DiffFile) -> FileView {
    FileView {
        filename: f.filename@,
        status: f.status@,
        binary: f.binary,
        additions: f.additions,
        deletions: f.deletions,
        hunks: hunks_view(f.hunks@),
    }
}

pub open spec fn files_view(v: Seq<DiffFile>) -> Seq<FileView> {
    v.map_values(|f: DiffFile| file_view(f))
}

/// Where the reader stands between two lines of a diff.
pub struct ParseView {
    pub files: Seq<FileView>,
    pub total_additions: i64,
    pub total_deletions: i64,
    pub filename: Seq<char>,
    pub hunks: Seq<HunkView>,
    pub lines: Seq<LineView>,
    pub header: Seq<char>,
    pub additions: i64,
    pub deletions: i64,
    pub old_line: i64,
    pub new_line: i64,
    pub binary: bool,
}

pub open spec fn initial_parse() -> ParseView {
    ParseView {
        files: Seq::empty(),
        total_additions: 0,
        total_deletions: 0,
        filename: Seq::empty(),
        hunks: Seq::empty(),
        lines: Seq::empty(),
        header: Seq::empty(),
        additions: 0,
        deletions: 0,
        old_line: 0,
        new_line: 0,
        binary: false,
    }
}

/// The status `git diff --name-status` gave a file: the first entry for it,
/// or `M`.
pub open spec fn status_in(changed: Seq<(Seq<char>, Seq<char>)>, filename: Seq<char>) -> Seq<char>
    decreases changed.len(),
{
    if changed.len() == 0 {
        "M"@
    } else if changed[0].1 == filename {
        changed[0].0
    } else {
        status_in(changed.drop_first(), filename)
    }
}

/// The hunks with the open one closed, when it has lines.
pub open spec fn closed_hunks(st: ParseView) -> Seq<HunkView> {
    if st.lines.len() > 0 {
        st.hunks.push(HunkView { header: st.header, lines: st.lines })
    } else {
        st.hunks
    }
}

/// The state once the current file is done: it is recorded when it has a
/// name, its counts go into the totals, and the per-file state starts over.
pub open spec fn flushed(st: ParseView, changed: Seq<(Seq<char>, Seq<char>)>) -> ParseView {
    ParseView {
        files: if st.filename.len() > 0 {
            st.files.push(
                FileView {
                    filename: st.filename,
                    status: status_in(changed, st.filename),
                    binary: st.binary,
                    additions: st.additions,
                    deletions: st.deletions,
                    hunks: closed_hunks(st),
                },
            )
        } else {
            st.files
        },
        total_additions: st.total_additions.wrapping_add(st.additions),
        total_deletions: st.total_deletions.wrapping_add(st.deletions),
        filename: Seq::empty(),
        hunks: Seq::empty(),
        lines: Seq::empty(),
        header: Seq::empty(),
        additions: 0,
        deletions: 0,
        binary: false,
        ..st
    }
}

/// The start line of a hunk range such as `-12,5`: the number before the
/// comma once the leading `sign`s are gone, or 1.
pub open spec fn range_start(part: Seq<char>, sign: char) -> i64 {
    match decimal_i64(field_before(strip_leading(part, sign), ',')) {
        Some(v) => v,
        None => 1,
    }
}

pub open spec fn has_prefix(s: Seq<char>, p: Seq<char>) -> bool {
    p.len() <= s.len() && s.subrange(0, p.len() as int) == p
}

/// The state after one line of the diff.
pub open spec fn diff_step(st: ParseView, line: Seq<char>, changed: Seq<(Seq<char>, Seq<char>)>) -> ParseView {
    if has_prefix(line, "+++ b/"@) {
        if st.filename.len() == 0 {
            ParseView { filename: line.subrange(6, line.len() as int), ..st }
        } else {
            st
        }
    } else if has_prefix(line, "--- a/"@) {
        ParseView { filename: line.subrange(6, line.len() as int), ..flushed(st, changed) }
    } else if has_prefix(line, "--- /dev/null"@) {
        flushed(st, changed)
    } else if has_prefix(line, "diff --git"@) || has_prefix(line, "index "@) || has_prefix(
        line,
        "new file"@,
    ) || has_prefix(line, "deleted file"@) {
        st
    } else if has_prefix(line, "Binary files"@) {
        ParseView { binary: true, ..st }
    } else if has_prefix(line, "@@ "@) {
        let parts = words_of(line);
        ParseView {
            hunks: closed_hunks(st),
            lines: Seq::empty(),
            header: line,
            old_line: if parts.len() >= 3 {
                range_start(parts[1], '-')
            } else {
                st.old_line
            },
            new_line: if parts.len() >= 3 {
                range_start(parts[2], '+')
            } else {
                st.new_line
            },
            ..st
        }
    } else if has_prefix(line, "+"@) {
        ParseView {
            additions: st.additions.wrapping_add(1),
            lines: st.lines.push(
                LineView {
                    kind: LineKind::Add,
                    old_num: None,
                    new_num: Some(st.new_line),
                    content: line.drop_first(),
                },
            ),
            new_line: st.new_line.wrapping_add(1),
            ..st
        }
    } else if has_prefix(line, "-"@) {
        ParseView {
            deletions: st.deletions.wrapping_add(1),
            lines: st.lines.push(
                LineView {
                    kind: LineKind::Del,
                    old_num: Some(st.old_line),
                    new_num: None,
                    content: line.drop_first(),
                },
            ),
            old_line: st.old_line.wrapping_add(1),
            ..st
        }
    } else {
        ParseView {
            lines: st.lines.push(
                LineView {
                    kind: LineKind::Ctx,
                    old_num: Some(st.old_line),
                    new_num: Some(st.new_line),
                    content: if has_prefix(line, " "@) {
                        line.drop_first()
                    } else {
                        line
                    },
                },
            ),
            old_line: st.old_line.wrapping_add(1),
            new_line: st.new_line.wrapping_add(1),
            ..st
        }
    }
}

/// The state after a run of lines.
pub open spec fn diff_run(ls: Seq<Seq<char>>, changed: Seq<(Seq<char>, Seq<char>)>) -> ParseView
    decreases ls.len(),
{
    if ls.len() == 0 {
        initial_parse()
    } else {
        diff_step(diff_run(ls.drop_last(), changed), ls.last(), changed)
    }
}

/// What `git diff --name-status` listed, as (status, file name) pairs.
pub open spec fn changed_pairs(changed: Seq<ChangedFile>) -> Seq<(Seq<char>, Seq<char>)> {
    changed.map_values(|c: ChangedFile| changed_view(c))
}

/// The reader's state once the whole diff is read and the last file is done.
pub open spec fn parsed_diff(raw: Seq<char>, changed: Seq<(Seq<char>, Seq<char>)>) -> ParseView {
    flushed(diff_run(lines_of(raw), changed), changed)
}

struct DiffParser {
    files: Vec<DiffFile>,
    total_additions: i64,
    total_deletions: i64,
    filename: String,
    hunks: Vec<DiffHunk>,
    lines: Vec<DiffLine>,
    header: String,
    additions: i64,
    deletions: i64,
    old_line: i64,
    new_line: i64,
    binary: bool,
}

fn status_for(changed: &[ChangedFile], filename: &String) -> (r: String)
    ensures
        r@ == status_in(changed_pairs(changed@), filename@),
{
    let ghost all = changed_pairs(changed@);
    assert(all.subrange(0, all.len() as int) =~= all);
    let mut i: usize = 0;
    while i < changed.len()
        invariant
            i <= changed@.len(),
            all == changed_pairs(changed@),
            status_in(all, filename@) == status_in(all.subrange(i as int, all.len() as int), filename@),
        decreases changed.len() - i,
    {
        let ghost rest = all.subrange(i as int, all.len() as int);
        assert(rest[0] == changed_view(changed@[i as int]));
        assert(rest.drop_first() =~= all.subrange(i + 1, all.len() as int));
        if changed[i].filename.eq(filename) {
            return changed[i].status.clone();
        }
        i = i + 1;
    }
    proof {
        reveal_strlit("M");
    }
    assert(all.subrange(i as int, all.len() as int) =~= Seq::<(Seq<char>, Seq<char>)>::empty());
    String::from_str("M")
}

fn range_start_of(part: &str, sign: char) -> (r: i64)
    ensures
        r == range_start(part@, sign),
{
    let t = trim_start_char(part, sign);
    let field: String = match split_once_char(t, ',') {
        Some(p) => p.0,
        None => t.to_owned(),
    };
    match parse_i64(field.as_str()) {
        Some(v) => v,
        None => 1,
    }
}

impl DiffParser {
    spec fn pv(&self) -> ParseView {
        ParseView {
            files: files_view(self.files@),
            total_additions: self.total_additions,
            total_deletions: self.total_deletions,
            filename: self.filename@,
            hunks: hunks_view(self.hunks@),
            lines: lines_view(self.lines@),
            header: self.header@,
            additions: self.additions,
            deletions: self.deletions,
            old_line: self.old_line,
            new_line: self.new_line,
            binary: self.binary,
        }
    }

    fn new() -> (r: Self)
        ensures
            r.pv() == initial_parse(),
    {
        let r = DiffParser {
            files: Vec::new(),
            total_additions: 0,
            total_deletions: 0,
            filename: String::new(),
            hunks: Vec::new(),
            lines: Vec::new(),
            header: String::new(),
            additions: 0,
            deletions: 0,
            old_line: 0,
            new_line: 0,
            binary: false,
        };
        assert(files_view(r.files@) =~= Seq::<FileView>::empty());
        assert(hunks_view(r.hunks@) =~= Seq::<HunkView>::empty());
        assert(lines_view(r.lines@) =~= Seq::<LineView>::empty());
        assert(r.pv() == initial_parse());
        r
    }

    /// Closes the open hunk, when it has lines.
    fn close_hunk(&mut self)
        ensures
            final(self).pv() == (ParseView {
                hunks: closed_hunks(old(self).pv()),
                lines: Seq::empty(),
                ..old(self).pv()
            }),
    {
        if self.lines.len() > 0 {
            let mut taken: Vec<DiffLine> = Vec::new();
            core::mem::swap(&mut taken, &mut self.lines);
            let ghost before = self.hunks@;
            self.hunks.push(DiffHunk { header: self.header.clone(), lines: taken });
            assert(hunks_view(self.hunks@) =~= hunks_view(before).push(
                hunk_view(self.hunks@.last()),
            ));
        }
        assert(lines_view(self.lines@) =~= Seq::<LineView>::empty());
    }

    fn flush(&mut self, changed: &[ChangedFile])
        ensures
            final(self).pv() == flushed(old(self).pv(), changed_pairs(changed@)),
    {
        let ghost st = self.pv();
        self.close_hunk();
        if !self.filename.as_str().is_empty() {
            let status = status_for(changed, &self.filename);
            let mut hunks: Vec<DiffHunk> = Vec::new();
            core::mem::swap(&mut hunks, &mut self.hunks);
            let mut name = String::new();
            core::mem::swap(&mut name, &mut self.filename);
            let ghost before = self.files@;
            self.files.push(
                DiffFile {
                    filename: name,
                    status,
                    binary: self.binary,
                    additions: self.additions,
                    deletions: self.deletions,
                    hunks,
                },
            );
            assert(files_view(self.files@) =~= files_view(before).push(
                file_view(self.files@.last()),
            ));
        }
        self.total_additions = self.total_additions.wrapping_add(self.additions);
        self.total_deletions = self.total_deletions.wrapping_add(self.deletions);
        self.filename = String::new();
        self.hunks = Vec::new();
        self.header = String::new();
        self.additions = 0;
        self.deletions = 0;
        self.binary = false;
        assert(hunks_view(self.hunks@) =~= Seq::<HunkView>::empty());
        assert(self.pv() =~= flushed(st, changed_pairs(changed@)));
    }

    fn step(&mut self, line: &str, changed: &[ChangedFile])
        ensures
            final(self).pv() == diff_step(old(self).pv(), line@, changed_pairs(changed@)),
    {
        proof {
            reveal_strlit("+++ b/");
            reveal_strlit("--- a/");
            reveal_strlit("+");
            reveal_strlit("-");
            reveal_strlit(" ");
        }
        let ghost st = self.pv();
        let n = line.unicode_len();
        if starts_with(line, "+++ b/") {
            if self.filename.as_str().is_empty() {
                self.filename = line.substring_char(6, n).to_owned();
            }
        } else if starts_with(line, "--- a/") {
            self.flush(changed);
            self.filename = line.substring_char(6, n).to_owned();
        } else if starts_with(line, "--- /dev/null") {
            self.flush(changed);
        } else if starts_with(line, "diff --git") || starts_with(line, "index ") || starts_with(
            line,
            "new file",
        ) || starts_with(line, "deleted file") {
        } else if starts_with(line, "Binary files") {
            self.binary = true;
        } else if starts_with(line, "@@ ") {
            self.close_hunk();
            self.header = line.to_owned();
            let parts = words(line);
            if parts.len() >= 3 {
                self.old_line = range_start_of(parts[1], '-');
                self.new_line = range_start_of(parts[2], '+');
            }
        } else if starts_with(line, "+") {
            self.additions = self.additions.wrapping_add(1);
            let ghost before = self.lines@;
            self.lines.push(
                DiffLine {
                    kind: LineKind::Add,
                    old_num: None,
                    new_num: Some(self.new_line),
                    content: line.substring_char(1, n).to_owned(),
                },
            );
            assert(lines_view(self.lines@) =~= lines_view(before).push(
                line_view(self.lines@.last()),
            ));
            self.new_line = self.new_line.wrapping_add(1);
        } else if starts_with(line, "-") {
            self.deletions = self.deletions.wrapping_add(1);
            let ghost before = self.lines@;
            self.lines.push(
                DiffLine {
                    kind: LineKind::Del,
                    old_num: Some(self.old_line),
                    new_num: None,
                    content: line.substring_char(1, n).to_owned(),
                },
            );
            assert(lines_view(self.lines@) =~= lines_view(before).push(
                line_view(self.lines@.last()),
            ));
            self.old_line = self.old_line.wrapping_add(1);
        } else {
            let content: String = if starts_with(line, " ") {
                line.substring_char(1, n).to_owned()
            } else {
                line.to_owned()
            };
            let ghost before = self.lines@;
            self.lines.push(
                DiffLine {
                    kind: LineKind::Ctx,
                    old_num: Some(self.old_line),
                    new_num: Some(self.new_line),
                    content,
                },
            );
            assert(lines_view(self.lines@) =~= lines_view(before).push(
                line_view(self.lines@.last()),
            ));
            self.old_line = self.old_line.wrapping_add(1);
            self.new_line = self.new_line.wrapping_add(1);
        }
        assert(self.pv() =~= diff_step(st, line@, changed_pairs(changed@)));
    }
}

/// Reads `git diff` output; each file's status comes from
/// `changed_files`.
pub fn parse_unified_diff(raw: &str, changed_files: &[ChangedFile]) -> (r: DiffResult)
    ensures
        files_view(r.files@) == parsed_diff(raw@, changed_pairs(changed_files@)).files,
        r.summary.total_files == r.files@.len() as i64,
        r.summary.total_additions == parsed_diff(raw@, changed_pairs(changed_files@)).total_additions,
        r.summary.total_deletions == parsed_diff(raw@, changed_pairs(changed_files@)).total_deletions,
{
    let ghost cv = changed_pairs(changed_files@);
    let ls = lines(raw);
    let ghost all = lines_of(raw@);
    let mut p = DiffParser::new();
    let mut i: usize = 0;
    while i < ls.len()
        invariant
            i <= ls@.len(),
            ls@.len() == all.len(),
            forall|j: int| 0 <= j < ls@.len() ==> #[trigger] ls@[j]@ == all[j],
            p.pv() == diff_run(all.subrange(0, i as int), cv),
            cv == changed_pairs(changed_files@),
        decreases ls.len() - i,
    {
        assert(all.subrange(0, i + 1).drop_last() =~= all.subrange(0, i as int));
        assert(all.subrange(0, i + 1).last() == all[i as int]);
        p.step(ls[i], changed_files);
        i = i + 1;
    }
    assert(all.subrange(0, ls@.len() as int) =~= all);
    p.flush(changed_files);
    let total_files = p.files.len() as i64;
    DiffResult {
        files: p.files,
        summary: DiffSummary {
            total_files,
            total_additions: p.total_additions,
            total_deletions: p.total_deletions,
        },
    }
}

/// The diff of a repository from the output of `git diff -U3` and of `git
/// diff --name-status`; an empty one when the diff failed.
pub fn get_files_diff(diff_output: &Result<String, String>, name_status_output: &Result<String, String>) -> (r:
    DiffResult)
    ensures
        match diff_output {
            Ok(raw) => {
                let changed = match name_status_output {
                    Ok(o) => changed_of(lines_of(o@)),
                    Err(_) => Seq::empty(),
                };
                &&& files_view(r.files@) == parsed_diff(raw@, changed).files
                &&& r.summary.total_additions == parsed_diff(raw@, changed).total_additions
                &&& r.summary.total_deletions == parsed_diff(raw@, changed).total_deletions
            },
            Err(_) => r.files@.len() == 0 && r.summary.total_additions == 0
                && r.summary.total_deletions == 0,
        },
        r.summary.total_files == r.files@.len() as i64,
{
    match diff_output {
        Ok(raw) => {
            let changed = get_changed_files(name_status_output);
            parse_unified_diff(raw.as_str(), changed.as_slice())
        },
        Err(_) => DiffResult {
            files: Vec::new(),
            summary: DiffSummary { total_files: 0, total_additions: 0, total_deletions: 0 },
        },
    }
}

} // verus!
