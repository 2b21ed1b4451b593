use std::path::PathBuf;

use the_diff::app::{App, DiffSource, Focus, PendingAction};
use the_diff::git::{ChangedFile, FileKind, Hunk, HunkLine, LineKind};

fn hunk(n: usize) -> Hunk {
    Hunk {
        header: format!("@@ -{n},1 +{n},1 @@"),
        lines: vec![HunkLine {
            content: String::from("+x"),
            kind: LineKind::Added,
        }],
        old_start: n as u32,
        new_start: n as u32,
    }
}

fn changed(path: &str, kind: FileKind, hunks: usize) -> ChangedFile {
    ChangedFile {
        path: String::from(path),
        header: format!("diff --git a/{path} b/{path}"),
        hunks: (0..hunks).map(hunk).collect(),
        kind,
    }
}

/// An App pointed at a path that does not exist. These tests cover the
/// confirmation state machine, not the git calls behind it.
fn app(unstaged: Vec<ChangedFile>) -> App {
    App {
        staged_files: Vec::new(),
        unstaged_files: unstaged,
        staged_sel: 0,
        unstaged_sel: 0,
        selected_hunk: 0,
        diff_scroll: 0,
        focus: Focus::Unstaged,
        diff_source: DiffSource::Unstaged,
        status: String::new(),
        should_quit: false,
        pending: None,
        repo_path: PathBuf::from("/nonexistent-the-diff-test"),
    }
}

#[test]
fn discarding_a_file_asks_first() {
    let mut a = app(vec![changed("src/git.rs", FileKind::Modified, 2)]);
    a.discard_action();
    let p = a.pending.as_ref().expect("expected a confirmation");
    assert_eq!(p.action, PendingAction::DiscardFile);
    assert!(p.lines.iter().any(|l| l == "src/git.rs"));
    assert!(p.lines.iter().any(|l| l.contains("Discard all changes in")));
}

#[test]
fn discarding_a_hunk_names_which_hunk() {
    let mut a = app(vec![changed("src/ui.rs", FileKind::Modified, 3)]);
    a.focus = Focus::Diff;
    a.selected_hunk = 1;
    a.discard_action();
    let p = a.pending.as_ref().expect("expected a confirmation");
    assert_eq!(p.action, PendingAction::DiscardHunk);
    assert!(p.lines.iter().any(|l| l == "Discard hunk 2 of 3 in"));
}

#[test]
fn an_untracked_file_is_described_as_a_delete() {
    let mut a = app(vec![changed("notes.txt", FileKind::Untracked, 1)]);
    a.discard_action();
    let p = a.pending.as_ref().expect("expected a confirmation");
    assert_eq!(p.title.trim(), "Confirm delete");
    assert!(p.lines.iter().any(|l| l.contains("Delete untracked file")));
}

#[test]
fn cancelling_clears_the_pending_action() {
    let mut a = app(vec![changed("a.rs", FileKind::Modified, 1)]);
    a.discard_action();
    assert!(a.pending.is_some());
    a.cancel();
    assert!(a.pending.is_none());
    assert_eq!(a.status, "Cancelled");
}

#[test]
fn confirming_with_nothing_pending_does_nothing() {
    let mut a = app(Vec::new());
    a.confirm();
    assert!(a.pending.is_none());
}

#[test]
fn discard_is_unavailable_in_the_staged_panel() {
    let mut a = app(vec![changed("a.rs", FileKind::Modified, 1)]);
    a.focus = Focus::Staged;
    a.discard_action();
    assert!(a.pending.is_none());
}

#[test]
fn a_hunk_index_past_the_end_asks_nothing() {
    let mut a = app(vec![changed("a.rs", FileKind::Modified, 1)]);
    a.focus = Focus::Diff;
    a.selected_hunk = 5;
    a.discard_action();
    assert!(a.pending.is_none());
}

#[test]
fn discard_with_no_files_asks_nothing() {
    let mut a = app(Vec::new());
    a.discard_action();
    assert!(a.pending.is_none());
}

#[test]
fn staging_is_never_gated_behind_a_confirmation() {
    // Only irreversible actions confirm; s/S/u/U must stay immediate.
    let mut a = app(vec![changed("a.rs", FileKind::Modified, 1)]);
    a.focus = Focus::Diff;
    a.stage_action();
    assert!(a.pending.is_none());
}
