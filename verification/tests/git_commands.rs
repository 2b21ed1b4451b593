use the_diff::git::{
    build_patch, command_failure, delete_failure, diff_command, discard_file, discard_hunk,
    stage_file, stage_hunk, staged_diff_command, unstage_file, unstage_hunk,
    untracked_diff_command, untracked_list_command, ChangedFile, FileKind, Hunk, HunkLine,
    LineKind,
};

fn file() -> ChangedFile {
    ChangedFile {
        path: "a.rs".into(),
        header: "diff --git a/a.rs b/a.rs\n--- a/a.rs\n+++ b/a.rs".into(),
        hunks: vec![
            Hunk {
                header: "@@ -1 +1 @@".into(),
                lines: vec![
                    HunkLine { content: "-x".into(), kind: LineKind::Removed },
                    HunkLine { content: "+y".into(), kind: LineKind::Added },
                ],
                old_start: 1,
                new_start: 1,
            },
            Hunk {
                header: "@@ -9 +9 @@".into(),
                lines: vec![HunkLine { content: " z".into(), kind: LineKind::Context }],
                old_start: 9,
                new_start: 9,
            },
        ],
        kind: FileKind::Modified,
    }
}

#[test]
fn a_patch_holds_one_hunk() {
    assert_eq!(
        build_patch(&file(), 0),
        "diff --git a/a.rs b/a.rs\n--- a/a.rs\n+++ b/a.rs\n@@ -1 +1 @@\n-x\n+y\n"
    );
    assert_eq!(
        build_patch(&file(), 1),
        "diff --git a/a.rs b/a.rs\n--- a/a.rs\n+++ b/a.rs\n@@ -9 +9 @@\n z\n"
    );
}

#[test]
fn hunk_commands_pipe_the_patch_to_git_apply() {
    let f = file();
    let s = stage_hunk(&f, 1);
    assert_eq!(s.args, vec!["apply", "--cached"]);
    assert_eq!(s.input.as_deref(), Some(build_patch(&f, 1).as_str()));
    assert_eq!(unstage_hunk(&f, 0).args, vec!["apply", "--cached", "--reverse"]);
    assert_eq!(discard_hunk(&f, 0).args, vec!["apply", "--reverse"]);
    assert_eq!(discard_hunk(&f, 0).input.unwrap(), build_patch(&f, 0));
}

#[test]
fn file_commands_name_the_path() {
    assert_eq!(stage_file("x y").args, vec!["add", "--", "x y"]);
    assert_eq!(unstage_file("p").args, vec!["reset", "HEAD", "--", "p"]);
    assert_eq!(discard_file("p").args, vec!["checkout", "HEAD", "--", "p"]);
    assert!(stage_file("p").input.is_none());
}

#[test]
fn listing_commands() {
    assert_eq!(diff_command().args, vec!["diff"]);
    assert_eq!(staged_diff_command().args, vec!["diff", "--cached"]);
    assert_eq!(untracked_list_command().args, vec!["ls-files", "--others", "--exclude-standard"]);
    assert_eq!(
        untracked_diff_command("n.txt").args,
        vec!["diff", "--no-index", "--", "/dev/null", "n.txt"]
    );
}

#[test]
fn failure_texts() {
    assert_eq!(command_failure(&stage_file("p"), "  fatal: nope\n"), "git add failed: fatal: nope");
    assert_eq!(command_failure(&stage_hunk(&file(), 0), ""), "git apply failed: ");
    assert_eq!(delete_failure("n.txt"), "Failed to delete n.txt");
}

#[test]
fn a_patch_reads_back_as_its_hunk() {
    let f = file();
    let back = the_diff::parse::parse_diff(&build_patch(&f, 1));
    assert_eq!(back.len(), 1);
    assert_eq!(back[0].path, "a.rs");
    assert_eq!(back[0].header, f.header);
    assert_eq!(back[0].hunks.len(), 1);
    assert_eq!(back[0].hunks[0].header, "@@ -9 +9 @@");
    assert_eq!((back[0].hunks[0].old_start, back[0].hunks[0].new_start), (9, 9));
    assert_eq!(back[0].hunks[0].lines[0].content, " z");
    assert_eq!(back[0].hunks[0].lines[0].kind, LineKind::Context);
}
