use std::path::PathBuf;

use the_diff::app::{App, DiffSource, Effect, Focus, Key, PendingAction, Step};
use the_diff::git::{build_patch, ChangedFile, FileKind, Hunk, HunkLine, LineKind};

fn hunk(n: usize, lines: usize) -> Hunk {
    Hunk {
        header: format!("@@ -{n} +{n} @@"),
        lines: (0..lines)
            .map(|_| HunkLine { content: String::from("+x"), kind: LineKind::Added })
            .collect(),
        old_start: n as u32,
        new_start: n as u32,
    }
}

fn changed(path: &str, kind: FileKind, hunks: &[usize]) -> ChangedFile {
    ChangedFile {
        path: String::from(path),
        header: format!("diff --git a/{path} b/{path}"),
        hunks: hunks.iter().enumerate().map(|(i, &l)| hunk(i + 1, l)).collect(),
        kind,
    }
}

fn app(staged: Vec<ChangedFile>, unstaged: Vec<ChangedFile>) -> App {
    App::new(PathBuf::from("/nonexistent-the-diff-test"), staged, unstaged)
}

#[test]
fn a_new_app_focuses_the_unstaged_list() {
    let a = app(Vec::new(), Vec::new());
    assert_eq!(a.focus, Focus::Unstaged);
    assert_eq!(a.diff_source, DiffSource::Unstaged);
    assert_eq!(a.status, "Tab: cycle panels  q: quit");
    assert!(a.pending.is_none());
    assert!(!a.should_quit);
}

#[test]
fn tab_cycles_through_three_panels() {
    let mut a = app(Vec::new(), Vec::new());
    a.cycle_focus();
    assert_eq!(a.focus, Focus::Diff);
    a.cycle_focus();
    assert_eq!(a.focus, Focus::Staged);
    a.cycle_focus();
    assert_eq!(a.focus, Focus::Unstaged);
}

#[test]
fn enter_then_esc_returns_to_the_list() {
    let mut a = app(vec![changed("s.rs", FileKind::Modified, &[1])], Vec::new());
    a.focus = Focus::Staged;
    a.selected_hunk = 3;
    a.diff_scroll = 7;
    a.enter_diff();
    assert_eq!((a.focus, a.diff_source, a.selected_hunk, a.diff_scroll), (Focus::Diff, DiffSource::Staged, 0, 0));
    a.exit_diff();
    assert_eq!(a.focus, Focus::Staged);
}

#[test]
fn file_navigation_stops_at_the_ends() {
    let files = vec![
        changed("a", FileKind::Modified, &[1]),
        changed("b", FileKind::Modified, &[1]),
    ];
    let mut a = app(Vec::new(), files);
    a.file_up();
    assert_eq!(a.unstaged_sel, 0);
    a.file_down();
    assert_eq!(a.unstaged_sel, 1);
    a.file_down();
    assert_eq!(a.unstaged_sel, 1);
    a.file_up();
    assert_eq!(a.unstaged_sel, 0);
    assert_eq!(a.current_file().unwrap().path, "a");
}

#[test]
fn hunk_navigation_scrolls_to_the_hunk_header() {
    let mut a = app(Vec::new(), vec![changed("a", FileKind::Modified, &[2, 3, 1])]);
    a.focus = Focus::Diff;
    assert_eq!(a.total_diff_lines(), 3 + 4 + 2);
    a.hunk_down();
    assert_eq!((a.selected_hunk, a.diff_scroll), (1, 3));
    a.hunk_down();
    assert_eq!((a.selected_hunk, a.diff_scroll), (2, 7));
    a.hunk_down();
    assert_eq!((a.selected_hunk, a.diff_scroll), (2, 7));
    a.hunk_up();
    assert_eq!((a.selected_hunk, a.diff_scroll), (1, 3));
    a.hunk_up();
    a.hunk_up();
    assert_eq!((a.selected_hunk, a.diff_scroll), (0, 0));
}

#[test]
fn scrolling_stops_at_the_last_page() {
    let mut a = app(Vec::new(), vec![changed("a", FileKind::Modified, &[4])]);
    // 5 rows, 3 visible: the scroll may reach 2
    for _ in 0..5 {
        a.scroll_down(3);
    }
    assert_eq!(a.diff_scroll, 2);
    a.scroll_up();
    assert_eq!(a.diff_scroll, 1);
    a.scroll_up();
    a.scroll_up();
    assert_eq!(a.diff_scroll, 0);
    a.scroll_down(10);
    assert_eq!(a.diff_scroll, 0);
}

#[test]
fn reload_pulls_selections_back() {
    let mut a = app(
        vec![changed("a", FileKind::Modified, &[1]), changed("b", FileKind::Modified, &[1])],
        vec![changed("c", FileKind::Modified, &[1])],
    );
    a.staged_sel = 1;
    a.selected_hunk = 0;
    a.diff_scroll = 1;
    a.reload(vec![changed("a", FileKind::Modified, &[1])], Vec::new());
    assert_eq!((a.staged_sel, a.unstaged_sel, a.selected_hunk, a.diff_scroll), (0, 0, 0, 0));
    assert_eq!(a.staged_files.len(), 1);
    assert!(a.unstaged_files.is_empty());
}

#[test]
fn stage_requests_name_the_command_and_status() {
    let f = changed("a.rs", FileKind::Modified, &[1, 2]);
    let mut a = app(Vec::new(), vec![f.clone()]);
    let r = a.stage_action().expect("a request");
    match &r.effect {
        Effect::Git(c) => assert_eq!(c.args, vec!["add", "--", "a.rs"]),
        Effect::RemoveFile(_) => panic!("staging removes nothing"),
    }
    assert_eq!(r.success_status, "Staged a.rs");
    assert_eq!(r.failure_prefix, "Stage failed: ");
    a.focus = Focus::Diff;
    a.selected_hunk = 1;
    let r = a.stage_action().expect("a request");
    match &r.effect {
        Effect::Git(c) => {
            assert_eq!(c.args, vec!["apply", "--cached"]);
            assert_eq!(c.input.clone().unwrap(), build_patch(&f, 1));
        }
        Effect::RemoveFile(_) => panic!("staging removes nothing"),
    }
    assert_eq!(r.success_status, "Staged hunk 2/2 in a.rs");
    assert!(a.unstage_action().is_none());
    assert!(a.stage_file_action().is_some());
    assert!(a.unstage_file_action().is_none());
}

#[test]
fn unstage_requests() {
    let mut a = app(vec![changed("s.rs", FileKind::Modified, &[1])], Vec::new());
    a.focus = Focus::Staged;
    let r = a.unstage_action().unwrap();
    assert_eq!(r.success_status, "Unstaged s.rs");
    assert_eq!(r.failure_prefix, "Unstage failed: ");
    a.enter_diff();
    let r = a.unstage_action().unwrap();
    assert_eq!(r.success_status, "Unstaged hunk 1/1 in s.rs");
    assert!(a.stage_action().is_none());
    assert_eq!(a.unstage_file_action().unwrap().success_status, "Unstaged s.rs");
}

#[test]
fn confirming_runs_the_discard_that_was_asked() {
    let mut a = app(Vec::new(), vec![changed("u.rs", FileKind::Modified, &[1, 1, 1])]);
    a.focus = Focus::Diff;
    a.selected_hunk = 2;
    a.discard_action();
    assert_eq!(a.pending.as_ref().unwrap().action, PendingAction::DiscardHunk);
    let r = a.confirm().expect("a request");
    assert!(a.pending.is_none());
    assert_eq!(r.success_status, "Discarded hunk 3/3 in u.rs");
    assert_eq!(r.failure_prefix, "Discard failed: ");
    match r.effect {
        Effect::Git(c) => assert_eq!(c.args, vec!["apply", "--reverse"]),
        Effect::RemoveFile(_) => panic!("a hunk is not a file"),
    }
}

#[test]
fn confirming_a_file_discard_restores_or_deletes() {
    let mut a = app(Vec::new(), vec![changed("m.rs", FileKind::Modified, &[1]), changed("n.txt", FileKind::Untracked, &[1])]);
    a.discard_file_action();
    let r = a.confirm().unwrap();
    assert_eq!(r.success_status, "Discarded all changes in m.rs");
    match r.effect {
        Effect::Git(c) => assert_eq!(c.args, vec!["checkout", "HEAD", "--", "m.rs"]),
        Effect::RemoveFile(_) => panic!("tracked files are restored"),
    }
    a.file_down();
    a.discard_file_action();
    assert_eq!(a.pending.as_ref().unwrap().title, " Confirm delete ");
    let r = a.confirm().unwrap();
    assert_eq!(r.success_status, "Deleted n.txt");
    match r.effect {
        Effect::RemoveFile(p) => assert_eq!(p, "n.txt"),
        Effect::Git(_) => panic!("untracked files are deleted"),
    }
}

#[test]
fn finish_reports_success_and_failure() {
    let mut a = app(Vec::new(), vec![changed("a.rs", FileKind::Modified, &[1])]);
    let r = a.stage_action().unwrap();
    assert!(a.finish(&r, Ok(())));
    assert_eq!(a.status, "Staged a.rs");
    assert!(!a.finish(&r, Err(String::from("git add failed: boom"))));
    assert_eq!(a.status, "Stage failed: git add failed: boom");
}

#[test]
fn while_a_dialog_is_open_keys_confirm_or_cancel() {
    let mut a = app(Vec::new(), vec![changed("a.rs", FileKind::Modified, &[1])]);
    assert!(matches!(a.handle_key(Key::Char('d'), false, 20), Step::Idle));
    assert!(a.pending.is_some());
    // q does not quit while the dialog is open: it dismisses it
    assert!(matches!(a.handle_key(Key::Char('q'), false, 20), Step::Idle));
    assert!(a.pending.is_none());
    assert!(!a.should_quit);
    assert_eq!(a.status, "Cancelled");
    a.handle_key(Key::Char('D'), false, 20);
    match a.handle_key(Key::Char('y'), false, 20) {
        Step::Perform(r) => assert_eq!(r.success_status, "Discarded all changes in a.rs"),
        _ => panic!("y runs the pending action"),
    }
    assert!(a.pending.is_none());
}

#[test]
fn keys_map_to_actions() {
    let mut a = app(Vec::new(), vec![changed("a.rs", FileKind::Modified, &[3, 3])]);
    assert!(matches!(a.handle_key(Key::Char('r'), false, 20), Step::Reload));
    assert!(matches!(a.handle_key(Key::Char('s'), false, 20), Step::Perform(_)));
    assert!(matches!(a.handle_key(Key::Char('u'), false, 20), Step::Idle));
    a.handle_key(Key::Enter, false, 20);
    assert_eq!(a.focus, Focus::Diff);
    a.handle_key(Key::Char(']'), false, 20);
    assert_eq!((a.selected_hunk, a.diff_scroll), (1, 4));
    a.handle_key(Key::Char('['), false, 20);
    assert_eq!((a.selected_hunk, a.diff_scroll), (0, 0));
    a.handle_key(Key::Down, false, 2);
    assert_eq!(a.diff_scroll, 1);
    a.handle_key(Key::Char('k'), false, 2);
    assert_eq!(a.diff_scroll, 0);
    a.handle_key(Key::PageDown, false, 4);
    assert_eq!(a.diff_scroll, 2);
    a.handle_key(Key::PageDown, false, 4);
    assert_eq!(a.diff_scroll, 4);
    a.handle_key(Key::PageUp, false, 6);
    assert_eq!(a.diff_scroll, 1);
    a.handle_key(Key::Esc, false, 20);
    assert_eq!(a.focus, Focus::Unstaged);
    a.handle_key(Key::Tab, false, 20);
    assert_eq!(a.focus, Focus::Diff);
    a.handle_key(Key::Char('c'), false, 20);
    assert!(!a.should_quit);
    a.handle_key(Key::Char('c'), true, 20);
    assert!(a.should_quit);
}

#[test]
fn a_hunk_past_the_end_is_refused_for_moving_up() {
    let mut a = app(Vec::new(), vec![changed("a.rs", FileKind::Modified, &[1, 1])]);
    a.focus = Focus::Diff;
    assert!(a.can_take(Key::Char('[')));
    a.selected_hunk = 5;
    assert!(!a.can_take(Key::Char('[')));
    assert!(a.can_take(Key::Char(']')));
    assert!(a.can_take(Key::Down));
    a.focus = Focus::Unstaged;
    assert!(a.can_take(Key::Char('[')));
}
