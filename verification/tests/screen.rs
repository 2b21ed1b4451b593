use ratatui::layout::{Constraint, Layout, Rect};
use the_diff::app::{DiffSource, Focus};
use the_diff::git::{ChangedFile, FileKind, Hunk, HunkLine, LineKind};
use the_diff::ui::{
    confirm_dialog_size, count_lines, counts_fit, diff_height, diff_rows, diff_title,
    empty_diff_texts, file_numbering_fits, help_text, hunks_label, inner_height, kind_badge,
    line_numbers, line_sign, line_text, list_index, numbering_fits, panel_heading, panel_rows,
    screen_layout, signed_count, status_tone, untracked_start, visible_window, Area, DiffRow,
    PanelRow, Tone,
};

fn line(c: &str, kind: LineKind) -> HunkLine {
    HunkLine { content: c.into(), kind }
}

fn mixed_hunk() -> Hunk {
    Hunk {
        header: "@@ -10,3 +20,3 @@".into(),
        lines: vec![
            line(" a", LineKind::Context),
            line("-b", LineKind::Removed),
            line("+c", LineKind::Added),
            line("\\ No newline at end of file", LineKind::NoNewline),
            line(" d", LineKind::Context),
        ],
        old_start: 10,
        new_start: 20,
    }
}

fn file(path: &str, kind: FileKind, hunks: Vec<Hunk>) -> ChangedFile {
    ChangedFile { path: path.into(), header: String::new(), hunks, kind }
}

#[test]
fn line_numbers_advance_by_kind() {
    let h = mixed_hunk();
    assert!(numbering_fits(&h));
    assert_eq!(
        line_numbers(&h),
        vec![
            (Some(10), Some(20)),
            (Some(11), None),
            (None, Some(21)),
            (None, None),
            (Some(12), Some(22)),
        ]
    );
}

#[test]
fn numbering_that_would_overflow_is_detected() {
    let mut h = mixed_hunk();
    h.old_start = u32::MAX;
    assert!(!numbering_fits(&h));
    h.lines = vec![line("+x", LineKind::Added)];
    assert!(numbering_fits(&h));
}

#[test]
fn line_text_drops_the_sign() {
    assert_eq!(line_text("+added"), "added");
    assert_eq!(line_text(""), "");
    assert_eq!(line_text("é"), "é");
    assert_eq!(line_sign(LineKind::Added), "+");
    assert_eq!(line_sign(LineKind::Removed), "-");
    assert_eq!(line_sign(LineKind::Context), " ");
    assert_eq!(line_sign(LineKind::NoNewline), " ");
}

#[test]
fn diff_titles() {
    let f = file("src/a.rs", FileKind::Modified, vec![mixed_hunk(), mixed_hunk()]);
    assert_eq!(diff_title(&f, DiffSource::Staged, 1), " src/a.rs [staged]  hunk 2/2 ");
    let e = file("e", FileKind::Modified, Vec::new());
    assert_eq!(diff_title(&e, DiffSource::Unstaged, 0), " e [unstaged]  hunk 0/0 ");
    let (t, m) = empty_diff_texts(DiffSource::Unstaged);
    assert_eq!(t, " Diff (unstaged) ");
    assert_eq!(m, "  No unstaged changes.");
}

#[test]
fn heights_and_windows() {
    assert_eq!(diff_height(Some(24)), 20);
    assert_eq!(diff_height(Some(3)), 0);
    assert_eq!(diff_height(None), 20);
    assert_eq!(inner_height(10), 8);
    assert_eq!(inner_height(1), 0);
    assert_eq!(visible_window(0, 10, 4), (0, 4));
    assert_eq!(visible_window(8, 10, 4), (8, 10));
    assert_eq!(visible_window(50, 10, 4), (9, 10));
    assert_eq!(visible_window(3, 0, 4), (0, 0));
}

#[test]
fn file_panel_rows() {
    let files = vec![
        file("a", FileKind::Modified, vec![mixed_hunk()]),
        file("b", FileKind::Untracked, Vec::new()),
        file("c", FileKind::Untracked, Vec::new()),
    ];
    assert_eq!(untracked_start(&files, true), Some(1));
    assert_eq!(untracked_start(&files, false), None);
    assert_eq!(untracked_start(&files[..1].to_vec(), true), None);
    assert_eq!(list_index(3, Some(1), 0), Some(0));
    assert_eq!(list_index(3, Some(1), 2), Some(3));
    assert_eq!(list_index(0, Some(1), 2), None);
    assert_eq!(hunks_label(1), "1 hunk");
    assert_eq!(hunks_label(0), "0 hunks");
    assert_eq!(hunks_label(12), "12 hunks");
    assert_eq!(kind_badge(FileKind::Modified), " M ");
    assert_eq!(kind_badge(FileKind::Untracked), " ? ");
    assert!(counts_fit(&files));
    assert_eq!(count_lines(&files, LineKind::Added), 1);
    assert_eq!(count_lines(&files, LineKind::Removed), 1);
    assert_eq!(count_lines(&files, LineKind::Context), 2);
    assert_eq!(panel_heading(" Unstaged ", 3), " Unstaged (3)  ");
    assert_eq!(signed_count('+', 42), "+42");
    assert_eq!(signed_count('-', 0), "-0");
}

#[test]
fn status_tones() {
    assert_eq!(status_tone("Stage failed: x"), Tone::Error);
    assert_eq!(status_tone("Staged a.rs"), Tone::Success);
    assert_eq!(status_tone("Unstaged hunk 1/1 in a"), Tone::Success);
    assert_eq!(status_tone("Discarded all changes in a"), Tone::Success);
    assert_eq!(status_tone("Deleted a"), Tone::Success);
    assert_eq!(status_tone("Staged but Error"), Tone::Error);
    assert_eq!(status_tone("Cancelled"), Tone::Neutral);
    assert_eq!(status_tone(""), Tone::Neutral);
}

#[test]
fn dialog_size_fits_the_message() {
    let lines = vec![String::from("short"), String::new()];
    assert_eq!(confirm_dialog_size(&lines), (40, 6));
    let long = vec!["x".repeat(50), "é".repeat(20)];
    assert_eq!(confirm_dialog_size(&long), (56, 6));
}

#[test]
fn help_follows_the_focus() {
    assert!(help_text(Focus::Unstaged, DiffSource::Unstaged).contains("s:stage file"));
    assert!(help_text(Focus::Staged, DiffSource::Unstaged).contains("u:unstage file"));
    assert!(help_text(Focus::Diff, DiffSource::Staged).contains("u:unstage hunk"));
    assert!(help_text(Focus::Diff, DiffSource::Unstaged).contains("d:discard hunk"));
}

#[test]
fn the_screen_is_laid_out_as_ratatui_splits_it() {
    let area = Rect { x: 0, y: 0, width: 80, height: 24 };
    let outer = Layout::vertical([Constraint::Min(0), Constraint::Length(2)]).split(area);
    let main = Layout::horizontal([Constraint::Percentage(28), Constraint::Percentage(72)]).split(outer[0]);
    let left = Layout::vertical([Constraint::Percentage(60), Constraint::Percentage(40)]).split(main[0]);
    let footer = Layout::vertical([Constraint::Length(1), Constraint::Length(1)]).split(outer[1]);
    let a = |r: Rect| Area { x: r.x, y: r.y, width: r.width, height: r.height };
    let s = screen_layout(Area { x: 0, y: 0, width: 80, height: 24 });
    assert_eq!(s.unstaged, a(left[0]));
    assert_eq!(s.staged, a(left[1]));
    assert_eq!(s.diff, a(main[1]));
    assert_eq!(s.status, a(footer[0]));
    assert_eq!(s.help, a(footer[1]));
    assert_eq!(s.status, Area { x: 0, y: 22, width: 80, height: 1 });
    assert_eq!(s.help, Area { x: 0, y: 23, width: 80, height: 1 });
    assert_eq!(s.diff.height, 22);
}

#[test]
fn diff_rows_are_headers_then_numbered_lines() {
    let mut second = mixed_hunk();
    second.header = "@@ -40 +50 @@".into();
    second.old_start = 40;
    second.new_start = 50;
    second.lines.truncate(1);
    let f = file("a.rs", FileKind::Modified, vec![mixed_hunk(), second]);
    assert!(file_numbering_fits(&f));
    let rows = diff_rows(&f, 1);
    assert_eq!(rows.len(), 1 + 5 + 1 + 1);
    assert!(matches!(&rows[0], DiffRow::Header { text, selected: false } if text == "@@ -10,3 +20,3 @@"));
    assert!(matches!(&rows[1],
        DiffRow::Line { old: Some(10), new: Some(20), kind: LineKind::Context, text, selected: false } if text == "a"));
    assert!(matches!(&rows[2],
        DiffRow::Line { old: Some(11), new: None, kind: LineKind::Removed, text, .. } if text == "b"));
    assert!(matches!(&rows[3],
        DiffRow::Line { old: None, new: Some(21), kind: LineKind::Added, text, .. } if text == "c"));
    assert!(matches!(&rows[4],
        DiffRow::Line { old: None, new: None, kind: LineKind::NoNewline, text, .. }
            if text == " No newline at end of file"));
    assert!(matches!(&rows[5], DiffRow::Line { old: Some(12), new: Some(22), .. }));
    // The selected hunk's header stands where hunk navigation scrolls: row 6
    assert!(matches!(&rows[6], DiffRow::Header { text, selected: true } if text == "@@ -40 +50 @@"));
    assert!(matches!(&rows[7],
        DiffRow::Line { old: Some(40), new: Some(50), selected: true, .. }));
    let mut big = mixed_hunk();
    big.new_start = u32::MAX;
    assert!(!file_numbering_fits(&file("b", FileKind::Modified, vec![big])));
    assert!(diff_rows(&file("e", FileKind::Modified, Vec::new()), 0).is_empty());
}

#[test]
fn panel_rows_put_the_separator_before_the_first_untracked_file() {
    let files = vec![
        file("a", FileKind::Modified, vec![mixed_hunk(), mixed_hunk()]),
        file("b", FileKind::Untracked, Vec::new()),
        file("c", FileKind::Untracked, vec![mixed_hunk()]),
    ];
    let sep = untracked_start(&files, true);
    let rows = panel_rows(&files, sep);
    assert_eq!(rows.len(), 4);
    assert!(matches!(&rows[0], PanelRow::File { kind: FileKind::Modified, path, hunks: 2 } if path == "a"));
    assert!(matches!(&rows[1], PanelRow::Separator));
    assert!(matches!(&rows[2], PanelRow::File { kind: FileKind::Untracked, path, hunks: 0 } if path == "b"));
    assert!(matches!(&rows[3], PanelRow::File { path, hunks: 1, .. } if path == "c"));
    // The highlighted row is the selected file's own row
    assert!(matches!(&rows[list_index(3, sep, 1).unwrap()], PanelRow::File { path, .. } if path == "b"));
    assert!(matches!(&rows[list_index(3, sep, 0).unwrap()], PanelRow::File { path, .. } if path == "a"));
    let plain = panel_rows(&files, None);
    assert_eq!(plain.len(), 3);
    assert!(matches!(&plain[1], PanelRow::File { path, .. } if path == "b"));
}
