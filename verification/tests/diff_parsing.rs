use the_diff::git::{FileKind, LineKind};
use the_diff::load::{untracked_file, untracked_paths};
use the_diff::parse::{extract_b_path, parse_diff, parse_hunk_range};
use the_diff::text::{chars_of, split_lines, trimmed};

const SAMPLE: &str = "diff --git a/src/a.rs b/src/a.rs
index 1234567..89abcde 100644
--- a/src/a.rs
+++ b/src/a.rs
@@ -1,3 +1,4 @@ fn main() {
 line1
-old
+new
+added
\\ No newline at end of file
@@ -10 +11,2 @@
 ctx
+x
diff --git a/new.txt b/new.txt
new file mode 100644
index 0000000..e69de29
--- /dev/null
+++ b/new.txt
@@ -0,0 +1 @@
+hello
";

fn cv(s: &str) -> Vec<char> {
    s.chars().collect()
}

#[test]
fn parse_diff_reads_files_hunks_and_lines() {
    let files = parse_diff(SAMPLE);
    assert_eq!(files.len(), 2);
    let a = &files[0];
    assert_eq!(a.path, "src/a.rs");
    assert_eq!(
        a.header,
        "diff --git a/src/a.rs b/src/a.rs\nindex 1234567..89abcde 100644\n--- a/src/a.rs\n+++ b/src/a.rs"
    );
    assert_eq!(a.kind, FileKind::Modified);
    assert_eq!(a.hunks.len(), 2);
    let h = &a.hunks[0];
    assert_eq!(h.header, "@@ -1,3 +1,4 @@ fn main() {");
    assert_eq!((h.old_start, h.new_start), (1, 1));
    let kinds: Vec<LineKind> = h.lines.iter().map(|l| l.kind).collect();
    assert_eq!(
        kinds,
        vec![LineKind::Context, LineKind::Removed, LineKind::Added, LineKind::Added, LineKind::NoNewline]
    );
    assert_eq!(h.lines[1].content, "-old");
    assert_eq!((a.hunks[1].old_start, a.hunks[1].new_start), (10, 11));
    assert_eq!(a.hunks[1].lines.len(), 2);
    let b = &files[1];
    assert_eq!(b.path, "new.txt");
    assert_eq!(b.hunks.len(), 1);
    assert_eq!((b.hunks[0].old_start, b.hunks[0].new_start), (0, 1));
    assert_eq!(b.hunks[0].lines[0].content, "+hello");
}

#[test]
fn parse_diff_of_nothing_is_empty() {
    assert!(parse_diff("").is_empty());
}

#[test]
fn hunk_lines_before_any_file_are_dropped() {
    assert!(parse_diff("@@ -1 +1 @@\n+x\n").is_empty());
}

#[test]
fn crlf_line_endings_are_stripped() {
    let files = parse_diff("diff --git a/x b/x\r\n--- a/x\r\n+++ b/x\r\n@@ -2 +3 @@\r\n-y\r\n");
    assert_eq!(files.len(), 1);
    assert_eq!(files[0].path, "x");
    assert_eq!(files[0].header, "diff --git a/x b/x\n--- a/x\n+++ b/x");
    assert_eq!(files[0].hunks[0].lines[0].content, "-y");
    assert_eq!((files[0].hunks[0].old_start, files[0].hunks[0].new_start), (2, 3));
}

#[test]
fn a_removed_line_that_looks_like_a_header_is_taken_as_one() {
    // "--- x" inside a hunk matches the header rule first, as git's own
    // line prefixes are read in a fixed order.
    let files = parse_diff("diff --git a/x b/x\n+++ b/x\n@@ -1 +1 @@\n--- x\n+y\n");
    assert_eq!(files[0].hunks[0].lines.len(), 1);
    assert_eq!(files[0].hunks[0].lines[0].kind, LineKind::Added);
}

#[test]
fn hunk_ranges_default_to_one() {
    assert_eq!(parse_hunk_range(&cv("@@ -12,5 +14,6 @@ fn x")), (12, 14));
    assert_eq!(parse_hunk_range(&cv("@@ -7 +9 @@")), (7, 9));
    assert_eq!(parse_hunk_range(&cv("@@")), (1, 1));
    assert_eq!(parse_hunk_range(&cv("@@ -abc +5 @@")), (1, 5));
    assert_eq!(parse_hunk_range(&cv("@@ -99999999999,1 +2 @@")), (1, 2));
    assert_eq!(parse_hunk_range(&cv("@@ -4294967295 +0 @@")), (4294967295, 0));
    assert_eq!(parse_hunk_range(&cv("@@ --3 ++4 @@")), (3, 4));
    assert_eq!(parse_hunk_range(&cv("@@\t-3\u{3000}+4")), (3, 4));
    assert_eq!(parse_hunk_range(&cv("@@ -,3 +4")), (1, 4));
}

#[test]
fn b_paths() {
    assert_eq!(extract_b_path(&cv("+++ b/src/foo.rs")), "src/foo.rs");
    assert_eq!(extract_b_path(&cv("+++ /dev/null")), "/dev/null");
    assert_eq!(extract_b_path(&cv("something")), "something");
}

#[test]
fn lines_follow_str_lines() {
    for s in ["", "a", "a\n", "a\nb", "a\r\nb\r\n", "\n\n", "x\r", "a\rb\n"] {
        let got: Vec<String> = split_lines(&cv(s)).into_iter().map(|l| l.into_iter().collect()).collect();
        let want: Vec<String> = s.lines().map(String::from).collect();
        assert_eq!(got, want, "for {s:?}");
    }
}

#[test]
fn chars_and_trim() {
    assert_eq!(chars_of("héllo"), vec!['h', 'é', 'l', 'l', 'o']);
    assert_eq!(trimmed("  error: x \n"), "error: x");
    assert_eq!(trimmed("\u{3000}a b\t"), "a b");
    assert_eq!(trimmed("   "), "");
}

#[test]
fn untracked_listing_skips_empty_lines() {
    assert_eq!(untracked_paths("a.txt\n\nb/c.rs\n"), vec!["a.txt", "b/c.rs"]);
    assert!(untracked_paths("").is_empty());
}

#[test]
fn untracked_files_take_all_hunks_of_their_diff() {
    let text = "diff --git a/dev/null b/n.txt\nnew file mode 100644\n--- /dev/null\n+++ b/n.txt\n@@ -0,0 +1,2 @@\n+a\n+b\n";
    let f = untracked_file("n.txt", Some(text));
    assert_eq!(f.kind, FileKind::Untracked);
    assert_eq!(f.path, "n.txt");
    assert_eq!(
        f.header,
        "diff --git a/dev/null b/n.txt\nnew file mode 100644\n--- /dev/null\n+++ b/n.txt"
    );
    assert_eq!(f.hunks.len(), 1);
    assert_eq!(f.hunks[0].lines.len(), 2);
    let g = untracked_file("m.txt", None);
    assert!(g.hunks.is_empty());
    assert_eq!(g.kind, FileKind::Untracked);
}
