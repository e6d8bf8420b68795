use rust_terminal::diff::{get_files_diff, parse_unified_diff, LineKind};
use rust_terminal::collab::get_changed_files;

const RAW: &str = "diff --git a/src/a.rs b/src/a.rs
index 123..456 100644
--- a/src/a.rs
+++ b/src/a.rs
@@ -10,3 +10,4 @@ fn main
 ctx1
-old
+new
+added
 ctx2
diff --git a/new.txt b/new.txt
new file mode 100644
--- /dev/null
+++ b/new.txt
@@ -0,0 +1 @@
+hello
";

#[test]
fn two_file_diff() {
    let changed = get_changed_files(&Ok("M\tsrc/a.rs\nA\tnew.txt\n".to_string()));
    let d = parse_unified_diff(RAW, &changed);
    assert_eq!(d.summary.total_files, 2);
    assert_eq!(d.summary.total_additions, 3);
    assert_eq!(d.summary.total_deletions, 1);
    let a = &d.files[0];
    assert_eq!(a.filename, "src/a.rs");
    assert_eq!(a.status, "M");
    assert!(!a.binary);
    assert_eq!((a.additions, a.deletions), (2, 1));
    assert_eq!(a.hunks.len(), 1);
    assert_eq!(a.hunks[0].header, "@@ -10,3 +10,4 @@ fn main");
    let l = &a.hunks[0].lines;
    assert_eq!(l.len(), 5);
    assert_eq!((l[0].kind, l[0].old_num, l[0].new_num, l[0].content.as_str()), (LineKind::Ctx, Some(10), Some(10), "ctx1"));
    assert_eq!((l[1].kind, l[1].old_num, l[1].new_num, l[1].content.as_str()), (LineKind::Del, Some(11), None, "old"));
    assert_eq!((l[2].kind, l[2].old_num, l[2].new_num, l[2].content.as_str()), (LineKind::Add, None, Some(11), "new"));
    assert_eq!((l[3].kind, l[3].new_num), (LineKind::Add, Some(12)));
    assert_eq!((l[4].kind, l[4].old_num, l[4].new_num, l[4].content.as_str()), (LineKind::Ctx, Some(12), Some(13), "ctx2"));
    let b = &d.files[1];
    assert_eq!(b.filename, "new.txt");
    assert_eq!(b.status, "A");
    assert_eq!(b.hunks[0].lines[0].new_num, Some(1));
    assert_eq!(b.hunks[0].lines[0].content, "hello");
}

#[test]
fn several_hunks_and_unknown_status() {
    let raw = "--- a/f\n+++ b/f\n@@ -1,2 +1,2 @@\n-a\n+b\n@@ -20 +20 @@\nplain\n";
    let d = parse_unified_diff(raw, &[]);
    assert_eq!(d.files.len(), 1);
    let f = &d.files[0];
    assert_eq!(f.status, "M");
    assert_eq!(f.hunks.len(), 2);
    assert_eq!(f.hunks[1].header, "@@ -20 +20 @@");
    let ctx = &f.hunks[1].lines[0];
    assert_eq!((ctx.kind, ctx.old_num, ctx.new_num, ctx.content.as_str()), (LineKind::Ctx, Some(20), Some(20), "plain"));
}

#[test]
fn binary_file_is_marked() {
    let raw = "--- a/img.png\nBinary files a/img.png and b/img.png differ\n";
    let d = parse_unified_diff(raw, &[]);
    assert_eq!(d.files.len(), 1);
    assert!(d.files[0].binary);
    assert!(d.files[0].hunks.is_empty());
}

#[test]
fn bad_hunk_numbers_start_at_one() {
    let raw = "--- a/f\n@@ -x,1 +y @@\n ctx\n";
    let d = parse_unified_diff(raw, &[]);
    let l = &d.files[0].hunks[0].lines[0];
    assert_eq!((l.old_num, l.new_num), (Some(1), Some(1)));
}

#[test]
fn empty_and_failed_diffs() {
    let d = parse_unified_diff("", &[]);
    assert!(d.files.is_empty());
    assert_eq!(d.summary.total_files, 0);
    let e = get_files_diff(&Err("not a repo".to_string()), &Ok("M\tx\n".to_string()));
    assert!(e.files.is_empty());
    assert_eq!((e.summary.total_files, e.summary.total_additions, e.summary.total_deletions), (0, 0, 0));
    let ok = get_files_diff(&Ok(RAW.to_string()), &Ok("D\tsrc/a.rs\n".to_string()));
    assert_eq!(ok.files[0].status, "D");
    assert_eq!(ok.files[1].status, "M");
}
