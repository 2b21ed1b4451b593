//! Properties of the library as a whole: what navigation undoes, what every
//! state keeps, what a key may run, and what the diff reader yields.

use vstd::prelude::*;

use crate::app::{
    clamp, opt_pending, req_step, App, DiffSource, EffectView, Focus, Key, PendingAction, RequestView,
    StepView,
};
use crate::git::{
    apply_spec, body_text, patch_text, CommandView, LineView, file_rows, lemma_rows_at_least_hunks, lemma_rows_before_monotone, path_spec,
    rows_before, FileKind, FileView, HunkView,
};
use crate::parse::{
    b_path, finished, flushed, hunk_range, initial, is_extended_header, line_kind, parsed, push_some,
    read_lines, step, ParserView,
};
use crate::ui::{
    centered, centered_fits, diff_row_views, file_row, hunk_row_views, list_row, panel_row_views, Area,
    DiffRowView, PanelRowView,
};
use crate::text::{dec, find_char, join, lemma_find_char, lines, starts_with, strip_cr};

verus! {

// ───────────────────────── navigation ─────────────────────────

/// Tab three times brings focus back to where it was.
pub proof fn law_focus_cycle_has_period_three(a: App)
    ensures
        a.after_cycle_focus().after_cycle_focus().after_cycle_focus() == a,
{
}

/// Enter on a file list, then Esc, returns focus to that list, and the diff
/// panel then shows that list.
pub proof fn law_exit_diff_undoes_enter_diff(a: App)
    requires
        a.focus != Focus::Diff,
    ensures
        a.after_enter_diff().after_exit_diff().focus == a.focus,
        a.after_enter_diff().diff_source == (if a.focus == Focus::Staged {
            DiffSource::Staged
        } else {
            DiffSource::Unstaged
        }),
{
}

/// Moving down a file list and then up again returns to the same file.
pub proof fn law_file_up_undoes_file_down(a: App)
    requires
        a.staged_files@.len() <= usize::MAX,
        a.unstaged_files@.len() <= usize::MAX,
        a.after_file_down() != a,
    ensures
        a.after_file_down().after_file_up().staged_sel == a.staged_sel,
        a.after_file_down().after_file_up().unstaged_sel == a.unstaged_sel,
        a.after_file_down().after_file_up().focus == a.focus,
{
}

/// Moving up a file list from a file in the list and then down again
/// returns to the same file.
pub proof fn law_file_down_undoes_file_up(a: App)
    requires
        a.after_file_up() != a,
        a.focus == Focus::Staged ==> a.staged_sel < a.staged_files@.len(),
        a.focus == Focus::Unstaged ==> a.unstaged_sel < a.unstaged_files@.len(),
    ensures
        a.after_file_up().after_file_down().staged_sel == a.staged_sel,
        a.after_file_up().after_file_down().unstaged_sel == a.unstaged_sel,
{
}

/// Selecting the next hunk and then the previous one returns to the same
/// hunk, scrolled to its header.
pub proof fn law_hunk_up_undoes_hunk_down(a: App)
    requires
        a.wf(),
        a.after_hunk_down() != a,
    ensures
        a.after_hunk_down().after_hunk_up() == a.with_hunk(a.selected_hunk),
{
    lemma_shown_fits(a);
}

/// Scrolling down one row and back up one row restores the scroll.
pub proof fn law_scroll_up_undoes_scroll_down(a: App, h: usize)
    requires
        a.wf(),
        a.after_scroll_down(h) != a,
    ensures
        a.after_scroll_down(h).after_scroll_up() == a,
{
    if a.shown() is Some {
        lemma_shown_fits(a);
    }
}

/// Where every diff's rows can be counted, the shown diff's rows, and so its hunks, can be
/// counted in `usize`.
pub proof fn lemma_shown_fits(a: App)
    requires
        a.rows_ok(),
    ensures
        a.total_rows() <= usize::MAX,
        a.shown_hunks() <= usize::MAX,
{
    match a.shown() {
        Some(f) => {
            if a.diff_source == DiffSource::Staged {
                assert(f == a.staged_files@[a.staged_sel as int]);
            } else {
                assert(f == a.unstaged_files@[a.unstaged_sel as int]);
            }
            assert(file_rows(f@) <= usize::MAX);
            lemma_rows_at_least_hunks(f@.hunks, f@.hunks.len() as int);
        },
        None => {},
    }
}

/// Scrolling never lifts the last row above the bottom of the panel: if
/// the window ended within the diff, it still does after any scroll.
pub proof fn law_scroll_keeps_window_in_diff(a: App, h: usize, k: usize)
    requires
        a.diff_scroll + h <= a.total_rows(),
    ensures
        a.after_scroll_down(h).diff_scroll + h <= a.total_rows(),
        a.after_page_down(h, k).diff_scroll + h <= a.total_rows(),
        a.after_scroll_up().diff_scroll + h <= a.total_rows(),
        a.after_page_up(k).diff_scroll + h <= a.total_rows(),
{
}

/// Hunk navigation keeps the selection on a hunk of the shown file, and
/// scrolls to a row of the diff: the selected hunk's header.
pub proof fn law_hunk_navigation_stays_on_a_hunk(a: App)
    requires
        a.wf(),
        a.selected_hunk < a.shown_hunks(),
    ensures
        a.after_hunk_down().selected_hunk < a.shown_hunks(),
        a.after_hunk_up().selected_hunk < a.shown_hunks(),
        a.after_hunk_down() != a ==> a.after_hunk_down().diff_scroll < a.total_rows(),
        a.after_hunk_up() != a ==> a.after_hunk_up().diff_scroll < a.total_rows(),
{
    lemma_shown_fits(a);
    let f = a.shown().unwrap()@;
    let n = f.hunks.len() as int;
    if a.selected_hunk + 1 < n {
        lemma_row_of_hunk(f, a.selected_hunk + 1);
    }
    if a.selected_hunk > 0 {
        lemma_row_of_hunk(f, a.selected_hunk - 1);
    }
}

/// The header row of hunk `i` lies within the file's rows.
pub proof fn lemma_row_of_hunk(f: FileView, i: int)
    requires
        0 <= i < f.hunks.len(),
    ensures
        rows_before(f.hunks, i) < file_rows(f),
{
    lemma_rows_before_monotone(f.hunks, i + 1, f.hunks.len() as int);
}

/// A reload keeps each selection where it was when it is still in its
/// list, and otherwise moves it onto the last entry (or 0 for an empty list).
pub proof fn law_reload_selection_in_list(sel: usize, len: nat)
    ensures
        len > 0 ==> clamp(sel, len) < len,
        len == 0 ==> clamp(sel, len) == 0,
        sel < len ==> clamp(sel, len) == sel,
{
}

/// The confirmation box never leaves the screen: centred in `area`, it
/// lies within it and is no larger than asked, whatever size is asked for.
pub proof fn law_centered_box_stays_inside(width: u16, height: u16, area: Area)
    requires
        centered_fits(width, height, area),
    ensures
        centered(width, height, area).x >= area.x,
        centered(width, height, area).y >= area.y,
        centered(width, height, area).x + centered(width, height, area).width <= area.x
            + area.width,
        centered(width, height, area).y + centered(width, height, area).height <= area.y
            + area.height,
        centered(width, height, area).width <= width,
        centered(width, height, area).height <= height,
{
}

// ───────────────────────── what keys may run ─────────────────────────

/// The effect only changes the index: `git add`, `git reset`, or
/// `git apply --cached`.
pub open spec fn index_only(e: EffectView) -> bool {
    match e {
        EffectView::Git(c) => c.args.len() > 0 && (c.args[0] == "add"@ || c.args[0] == "reset"@ || (
        c.args[0] == "apply"@ && c.args.contains("--cached"@))),
        EffectView::RemoveFile(_) => false,
    }
}

/// The effect changes the work tree: deleting a file, `git checkout`, or
/// `git apply` without `--cached`.
pub open spec fn touches_work_tree(e: EffectView) -> bool {
    match e {
        EffectView::Git(c) => c.args.len() > 0 && (c.args[0] == "checkout"@ || (c.args[0]
            == "apply"@ && !c.args.contains("--cached"@))),
        EffectView::RemoveFile(_) => true,
    }
}

proof fn lemma_words_differ()
    ensures
        "add"@ != "checkout"@,
        "add"@ != "apply"@,
        "reset"@ != "checkout"@,
        "reset"@ != "apply"@,
        "apply"@ != "checkout"@,
        "--cached"@ != "--reverse"@,
        "--cached"@ != "apply"@,
{
    reveal_strlit("add");
    reveal_strlit("checkout");
    reveal_strlit("apply");
    reveal_strlit("reset");
    reveal_strlit("--cached");
    reveal_strlit("--reverse");
    assert("add"@.len() != "checkout"@.len());
    assert("add"@[1] != "apply"@[1]);
    assert("reset"@.len() != "checkout"@.len());
    assert("reset"@[0] != "apply"@[0]);
    assert("apply"@[0] != "checkout"@[0]);
    assert("--cached"@.len() != "--reverse"@.len());
    assert("--cached"@[0] != "apply"@[0]);
}

/// The arguments of a `git apply`: the subcommand first, and `--cached`
/// among them exactly when the index is the target.
proof fn lemma_apply_args(patch: Seq<char>, cached: bool, reverse: bool)
    ensures
        apply_spec(patch, cached, reverse).args.len() > 0,
        apply_spec(patch, cached, reverse).args[0] == "apply"@,
        apply_spec(patch, cached, reverse).args.contains("--cached"@) == cached,
{
    lemma_words_differ();
    let a = apply_spec(patch, cached, reverse).args;
    if cached {
        assert(a[1] == "--cached"@);
    } else {
        assert forall|j: int| 0 <= j < a.len() implies a[j] != "--cached"@ by {
            if j > 0 {
                assert(a[j] == "--reverse"@);
            }
        }
    }
}

/// The arguments of a command on a path start with its lead.
proof fn lemma_path_args(lead: Seq<Seq<char>>, path: Seq<char>)
    requires
        lead.len() > 0,
    ensures
        path_spec(lead, path).args.len() > 0,
        path_spec(lead, path).args[0] == lead[0],
{
}

/// `s`, `S`, `u` and `U` only ever change the index: they never discard
/// work.
pub proof fn law_staging_only_changes_the_index(a: App)
    ensures
        a.stage_action_req() matches Some(r) ==> index_only(r.effect) && !touches_work_tree(
            r.effect,
        ),
        a.stage_file_action_req() matches Some(r) ==> index_only(r.effect) && !touches_work_tree(
            r.effect,
        ),
        a.unstage_action_req() matches Some(r) ==> index_only(r.effect) && !touches_work_tree(
            r.effect,
        ),
        a.unstage_file_action_req() matches Some(r) ==> index_only(r.effect)
            && !touches_work_tree(r.effect),
{
    lemma_words_differ();
    lemma_path_args(seq!["add"@], Seq::empty());
    lemma_path_args(seq!["reset"@, "HEAD"@], Seq::empty());
    if let Some(f) = a.unstaged_pick() {
        lemma_path_args(seq!["add"@], f.path@);
        if a.selected_hunk < f@.hunks.len() {
            lemma_apply_args(crate::git::patch_text(f@, a.selected_hunk as int), true, false);
        }
    }
    if let Some(f) = a.staged_pick() {
        lemma_path_args(seq!["reset"@, "HEAD"@], f.path@);
        if a.selected_hunk < f@.hunks.len() {
            lemma_apply_args(crate::git::patch_text(f@, a.selected_hunk as int), true, true);
        }
    }
}

/// What a confirmation runs changes the work tree.
pub proof fn law_confirmed_actions_change_the_work_tree(a: App)
    ensures
        a.confirm_req() matches Some(r) ==> touches_work_tree(r.effect) && !index_only(r.effect),
{
    lemma_words_differ();
    if let Some(f) = a.unstaged_pick() {
        lemma_path_args(seq!["checkout"@, "HEAD"@], f.path@);
        if a.selected_hunk < f@.hunks.len() {
            lemma_apply_args(crate::git::patch_text(f@, a.selected_hunk as int), false, true);
        }
    }
}

/// No key changes the work tree unless an action is pending and the key is
/// `y`: with nothing pending, a key runs at most a change to the index.
pub proof fn law_work_tree_changes_only_after_yes(a: App, key: Key, ctrl: bool)
    ensures
        a.key_step(key, ctrl) matches StepView::Perform(r) && touches_work_tree(r.effect) ==> (
        a.pending is Some && key == Key::Char('y')),
        a.pending is None ==> (a.key_step(key, ctrl) matches StepView::Perform(r) ==> index_only(
            r.effect,
        )),
{
    law_staging_only_changes_the_index(a);
}

/// Confirming runs exactly what the dialog asked about: after `d` raised a
/// dialog, `y` runs the discard of the file and hunk that it named.
pub proof fn law_confirm_runs_what_was_asked(a: App, b: App)
    requires
        a.pending is None,
        a.discard_action_prompt() is Some,
        a.asked(a.discard_action_prompt(), b),
    ensures
        b.confirm_req() is Some,
        b.confirm_req() == (match a.discard_action_prompt().unwrap().action {
            PendingAction::DiscardHunk => a.discard_hunk_req(),
            PendingAction::DiscardFile => a.discard_file_req(),
        }),
{
}

/// `s`, `S`, `u` and `U` are never gated behind a confirmation: with
/// nothing pending they raise no dialog, leave the state as it is, and hand
/// out their request at once.
pub proof fn law_staging_is_never_gated(a: App, c: char, ctrl: bool, h: usize, b: App)
    requires
        a.pending is None,
        c == 's' || c == 'S' || c == 'u' || c == 'U',
        a.key_moves(Key::Char(c), ctrl, h, b),
    ensures
        b == a,
        b.pending is None,
        a.key_step(Key::Char(c), ctrl) == req_step(
            if c == 's' {
                a.stage_action_req()
            } else if c == 'S' {
                a.stage_file_action_req()
            } else if c == 'u' {
                a.unstage_action_req()
            } else {
                a.unstage_file_action_req()
            },
        ),
{
}

/// Any key but `y` answers a pending action by dismissing it: nothing runs
/// and the files, selections and scroll stay as they were.
pub proof fn law_other_keys_dismiss(a: App, key: Key, ctrl: bool, h: usize, b: App)
    requires
        a.pending is Some,
        key != Key::Char('y'),
        a.key_moves(key, ctrl, h, b),
    ensures
        a.key_step(key, ctrl) == StepView::Idle,
        b.pending is None,
        b.staged_files == a.staged_files && b.unstaged_files == a.unstaged_files,
        b.staged_sel == a.staged_sel && b.unstaged_sel == a.unstaged_sel,
        b.selected_hunk == a.selected_hunk && b.diff_scroll == a.diff_scroll,
        b.status@ == "Cancelled"@,
{
}

// ───────────────────────── the diff reader ─────────────────────────

/// A hunk as the reader builds it: its header is an `@@ ` line and each
/// line's kind is read from its first character.
pub open spec fn hunk_well_read(h: HunkView) -> bool {
    &&& starts_with(h.header, "@@ "@)
    &&& forall|k: int| 0 <= k < h.lines.len() ==> (#[trigger] h.lines[k]).kind == line_kind(
        h.lines[k].content,
    )
}

/// A file as the reader builds it: a modified file whose hunks are well
/// read.
pub open spec fn file_well_read(f: FileView) -> bool {
    &&& f.kind == FileKind::Modified
    &&& forall|j: int| 0 <= j < f.hunks.len() ==> hunk_well_read(#[trigger] f.hunks[j])
}

/// Every file, open file and open hunk of the reader is well read.
pub open spec fn reader_well_read(st: ParserView) -> bool {
    &&& forall|i: int| 0 <= i < st.files.len() ==> file_well_read(#[trigger] st.files[i])
    &&& (st.file matches Some(f) ==> file_well_read(f))
    &&& (st.hunk matches Some(h) ==> hunk_well_read(h))
}

proof fn lemma_flushed_well_read(file: Option<FileView>, hunk: Option<HunkView>)
    requires
        file matches Some(f) ==> file_well_read(f),
        hunk matches Some(h) ==> hunk_well_read(h),
    ensures
        flushed(file, hunk) matches Some(f) ==> file_well_read(f),
{
    if let (Some(f), Some(h)) = (file, hunk) {
        let g = flushed(file, hunk).unwrap();
        assert forall|j: int| 0 <= j < g.hunks.len() implies hunk_well_read(#[trigger] g.hunks[j]) by {
            if j < f.hunks.len() {
                assert(g.hunks[j] == f.hunks[j]);
            }
        }
    }
}

proof fn lemma_push_some_well_read(files: Seq<FileView>, f: Option<FileView>)
    requires
        forall|i: int| 0 <= i < files.len() ==> file_well_read(#[trigger] files[i]),
        f matches Some(g) ==> file_well_read(g),
    ensures
        forall|i: int| 0 <= i < push_some(files, f).len() ==> file_well_read(
            #[trigger] push_some(files, f)[i],
        ),
{
    if let Some(g) = f {
        assert forall|i: int| 0 <= i < push_some(files, f).len() implies file_well_read(
            #[trigger] push_some(files, f)[i],
        ) by {
            if i < files.len() {
                assert(push_some(files, f)[i] == files[i]);
            }
        }
    }
}

proof fn lemma_step_well_read(st: ParserView, l: Seq<char>)
    requires
        reader_well_read(st),
    ensures
        reader_well_read(step(st, l)),
{
    lemma_flushed_well_read(st.file, st.hunk);
    lemma_push_some_well_read(st.files, flushed(st.file, st.hunk));
    let next = step(st, l);
    if !starts_with(l, "diff --git "@) && !(crate::parse::is_extended_header(l) || starts_with(
        l,
        "--- "@,
    )) && !starts_with(l, "+++ "@) && !starts_with(l, "@@ "@) {
        if let Some(h) = st.hunk {
            let g = next.hunk.unwrap();
            assert forall|k: int| 0 <= k < g.lines.len() implies (#[trigger] g.lines[k]).kind
                == line_kind(g.lines[k].content) by {
                if k < h.lines.len() {
                    assert(g.lines[k] == h.lines[k]);
                }
            }
        }
    }
}

proof fn lemma_read_lines_well_read(ls: Seq<Seq<char>>)
    ensures
        reader_well_read(read_lines(ls)),
    decreases ls.len(),
{
    if ls.len() > 0 {
        lemma_read_lines_well_read(ls.drop_last());
        lemma_step_well_read(read_lines(ls.drop_last()), ls.last());
    }
}

/// Every file read from a diff is a modified file whose hunks start at an
/// `@@ ` line and whose lines have the kind their first character gives:
/// `+` added, `-` removed, `\` the no-newline marker, anything else context.
pub proof fn law_parsed_lines_have_their_kind(text: Seq<char>)
    ensures
        forall|i: int| 0 <= i < parsed(text).len() ==> file_well_read(#[trigger] parsed(text)[i]),
{
    let st = read_lines(lines(text));
    lemma_read_lines_well_read(lines(text));
    lemma_flushed_well_read(st.file, st.hunk);
    lemma_push_some_well_read(st.files, flushed(st.file, st.hunk));
}

/// The path of a `+++ b/<path>` line is `<path>`.
pub proof fn law_b_path_of_b_line(p: Seq<char>)
    ensures
        b_path("+++ b/"@ + p) == p,
{
    assert(("+++ b/"@ + p).take("+++ b/"@.len() as int) =~= "+++ b/"@);
    assert(("+++ b/"@ + p).skip("+++ b/"@.len() as int) =~= p);
}


// ───────────────────────── patches read back ─────────────────────────

/// The lines `ls`, each followed by a newline.
pub open spec fn terminated(ls: Seq<Seq<char>>) -> Seq<char>
    decreases ls.len(),
{
    if ls.len() == 0 {
        seq![]
    } else {
        ls[0].push('\n') + terminated(ls.drop_first())
    }
}

/// A line that `str::lines` gives back as it is: no newline in it, and no
/// carriage return at its end.
pub open spec fn single_line(l: Seq<char>) -> bool {
    !l.contains('\n') && !(l.len() > 0 && l.last() == '\r')
}

/// A line that the reader takes as a line of the open hunk.
pub open spec fn is_body_line(l: Seq<char>) -> bool {
    &&& !starts_with(l, "diff --git "@)
    &&& !is_extended_header(l)
    &&& !starts_with(l, "--- "@)
    &&& !starts_with(l, "+++ "@)
    &&& !starts_with(l, "@@ "@)
}

/// The header lines of a file's diff: `diff --git` first, `+++` last, and
/// extended header or `---` lines between.
pub open spec fn header_shape(hl: Seq<Seq<char>>) -> bool {
    &&& hl.len() >= 2
    &&& starts_with(hl[0], "diff --git "@)
    &&& starts_with(hl.last(), "+++ "@)
    &&& forall|k: int| 1 <= k < hl.len() - 1 ==> is_extended_header(#[trigger] hl[k])
        || starts_with(hl[k], "--- "@)
}

/// A hunk as the reader would build it from its own lines.
pub open spec fn hunk_shape(h: HunkView) -> bool {
    &&& starts_with(h.header, "@@ "@)
    &&& (h.old_start, h.new_start) == hunk_range(h.header)
    &&& forall|k: int| 0 <= k < h.lines.len() ==> is_body_line(#[trigger] h.lines[k].content)
        && h.lines[k].kind == line_kind(h.lines[k].content)
}

/// The contents of a hunk's lines.
pub open spec fn contents(ls: Seq<LineView>) -> Seq<Seq<char>> {
    ls.map_values(|l: LineView| l.content)
}

proof fn lemma_prefixes_exclusive(l: Seq<char>, p: Seq<char>, q: Seq<char>, k: int)
    requires
        starts_with(l, p),
        0 <= k < p.len(),
        k < q.len(),
        p[k] != q[k],
    ensures
        !starts_with(l, q),
{
    assert(l.take(p.len() as int)[k] == p[k]);
    if starts_with(l, q) {
        assert(l.take(q.len() as int)[k] == q[k]);
    }
}

/// What the first characters of the reader's prefixes are.
proof fn lemma_prefix_chars()
    ensures
        "diff --git "@.len() > 1 && "diff --git "@[0] == 'd' && "diff --git "@[1] == 'i',
        "index "@.len() > 0 && "index "@[0] == 'i',
        "new file"@.len() > 0 && "new file"@[0] == 'n',
        "deleted file"@.len() > 1 && "deleted file"@[0] == 'd' && "deleted file"@[1] == 'e',
        "old mode"@.len() > 0 && "old mode"@[0] == 'o',
        "new mode"@.len() > 0 && "new mode"@[0] == 'n',
        "similarity"@.len() > 0 && "similarity"@[0] == 's',
        "rename"@.len() > 0 && "rename"@[0] == 'r',
        "--- "@.len() > 0 && "--- "@[0] == '-',
        "+++ "@.len() > 0 && "+++ "@[0] == '+',
        "@@ "@.len() > 0 && "@@ "@[0] == '@',
{
    reveal_strlit("diff --git ");
    reveal_strlit("index ");
    reveal_strlit("new file");
    reveal_strlit("deleted file");
    reveal_strlit("old mode");
    reveal_strlit("new mode");
    reveal_strlit("similarity");
    reveal_strlit("rename");
    reveal_strlit("--- ");
    reveal_strlit("+++ ");
    reveal_strlit("@@ ");
}

/// A line with a known first character fails every prefix that starts with
/// another one.
proof fn lemma_first_char_excludes(l: Seq<char>, p: Seq<char>)
    requires
        starts_with(l, p),
        p.len() > 0,
    ensures
        p[0] != 'd' ==> !starts_with(l, "diff --git "@),
        p[0] != 'i' ==> !starts_with(l, "index "@),
        p[0] != 'n' ==> !starts_with(l, "new file"@) && !starts_with(l, "new mode"@),
        p[0] != 'd' ==> !starts_with(l, "deleted file"@),
        p[0] != 'o' ==> !starts_with(l, "old mode"@),
        p[0] != 's' ==> !starts_with(l, "similarity"@),
        p[0] != 'r' ==> !starts_with(l, "rename"@),
        p[0] != '-' ==> !starts_with(l, "--- "@),
        p[0] != '+' ==> !starts_with(l, "+++ "@),
        p[0] != '@' ==> !starts_with(l, "@@ "@),
{
    lemma_prefix_chars();
    if p[0] != 'd' {
        lemma_prefixes_exclusive(l, p, "diff --git "@, 0);
        lemma_prefixes_exclusive(l, p, "deleted file"@, 0);
    }
    if p[0] != 'i' {
        lemma_prefixes_exclusive(l, p, "index "@, 0);
    }
    if p[0] != 'n' {
        lemma_prefixes_exclusive(l, p, "new file"@, 0);
        lemma_prefixes_exclusive(l, p, "new mode"@, 0);
    }
    if p[0] != 'o' {
        lemma_prefixes_exclusive(l, p, "old mode"@, 0);
    }
    if p[0] != 's' {
        lemma_prefixes_exclusive(l, p, "similarity"@, 0);
    }
    if p[0] != 'r' {
        lemma_prefixes_exclusive(l, p, "rename"@, 0);
    }
    if p[0] != '-' {
        lemma_prefixes_exclusive(l, p, "--- "@, 0);
    }
    if p[0] != '+' {
        lemma_prefixes_exclusive(l, p, "+++ "@, 0);
    }
    if p[0] != '@' {
        lemma_prefixes_exclusive(l, p, "@@ "@, 0);
    }
}

proof fn lemma_terminated_one(x: Seq<char>)
    ensures
        terminated(seq![x]) == x.push('\n'),
{
    reveal_with_fuel(terminated, 2);
    assert(seq![x].drop_first() =~= Seq::<Seq<char>>::empty());
    assert(terminated(seq![x]) =~= x.push('\n'));
}

proof fn lemma_read_more_one(st: ParserView, x: Seq<char>)
    ensures
        read_more(st, seq![x]) == step(st, x),
{
    reveal_with_fuel(read_more, 2);
    assert(seq![x].drop_last() =~= Seq::<Seq<char>>::empty());
}

proof fn lemma_terminated_push(ls: Seq<Seq<char>>, x: Seq<char>)
    ensures
        terminated(ls.push(x)) == terminated(ls) + x.push('\n'),
    decreases ls.len(),
{
    if ls.len() == 0 {
        lemma_terminated_one(x);
        assert(ls.push(x) =~= seq![x]);
        assert(terminated(ls) =~= Seq::<char>::empty());
    } else {
        assert(ls.push(x).drop_first() =~= ls.drop_first().push(x));
        lemma_terminated_push(ls.drop_first(), x);
        assert(terminated(ls.push(x)) =~= terminated(ls) + x.push('\n'));
    }
}

proof fn lemma_terminated_concat(a: Seq<Seq<char>>, b: Seq<Seq<char>>)
    ensures
        terminated(a + b) == terminated(a) + terminated(b),
    decreases a.len(),
{
    if a.len() == 0 {
        assert(a + b =~= b);
        assert(terminated(a) + terminated(b) =~= terminated(b));
    } else {
        assert((a + b).drop_first() =~= a.drop_first() + b);
        lemma_terminated_concat(a.drop_first(), b);
        assert(terminated(a + b) =~= terminated(a) + terminated(b));
    }
}

proof fn lemma_join_terminated(hl: Seq<Seq<char>>)
    requires
        hl.len() >= 1,
    ensures
        join(hl, seq!['\n']).push('\n') == terminated(hl),
    decreases hl.len(),
{
    if hl.len() == 1 {
        lemma_terminated_one(hl[0]);
        assert(hl =~= seq![hl[0]]);
    } else {
        lemma_join_terminated(hl.drop_last());
        lemma_terminated_push(hl.drop_last(), hl.last());
        assert(hl.drop_last().push(hl.last()) =~= hl);
        assert(join(hl, seq!['\n']).push('\n') =~= join(hl.drop_last(), seq!['\n']).push('\n')
            + hl.last().push('\n'));
    }
}

proof fn lemma_body_terminated(ls: Seq<LineView>)
    ensures
        body_text(ls) == terminated(contents(ls)),
    decreases ls.len(),
{
    if ls.len() > 0 {
        lemma_body_terminated(ls.drop_last());
        assert(contents(ls) =~= contents(ls.drop_last()).push(ls.last().content));
        lemma_terminated_push(contents(ls.drop_last()), ls.last().content);
    } else {
        assert(contents(ls) =~= Seq::<Seq<char>>::empty());
    }
}

/// Reading terminated single lines gives back those lines.
proof fn lemma_lines_of_terminated(ls: Seq<Seq<char>>)
    requires
        forall|k: int| 0 <= k < ls.len() ==> single_line(#[trigger] ls[k]),
    ensures
        lines(terminated(ls)) == ls,
    decreases ls.len(),
{
    if ls.len() == 0 {
        assert(terminated(ls) =~= Seq::<char>::empty());
    } else {
        let l = ls[0];
        let t = terminated(ls);
        let rest = ls.drop_first();
        assert(single_line(l));
        assert(t =~= l.push('\n') + terminated(rest));
        assert forall|j: int| 0 <= j < l.len() implies t[j] != '\n' by {
            assert(t[j] == l[j]);
            if l[j] == '\n' {
                assert(l.contains('\n'));
            }
        }
        lemma_find_char(t, '\n', l.len());
        assert(t.take(l.len() as int) =~= l);
        assert(t.skip(l.len() + 1int) =~= terminated(rest));
        assert forall|k: int| 0 <= k < rest.len() implies single_line(#[trigger] rest[k]) by {
            assert(rest[k] == ls[k + 1]);
        }
        lemma_lines_of_terminated(rest);
        assert(seq![l] + rest =~= ls);
    }
}

/// The reader after the header lines `hl.take(k)`, for `1 <= k < hl.len()`.
proof fn lemma_read_header(hl: Seq<Seq<char>>, k: int)
    requires
        header_shape(hl),
        1 <= k < hl.len(),
    ensures
        read_lines(hl.take(k)) == (ParserView {
            files: seq![],
            header_buf: hl.take(k),
            file: None,
            hunk: None,
        }),
    decreases k,
{
    lemma_prefix_chars();
    let ls = hl.take(k);
    assert(ls.drop_last() =~= hl.take(k - 1));
    assert(ls.last() == hl[k - 1]);
    if k == 1 {
        assert(hl.take(0) =~= Seq::<Seq<char>>::empty());
        assert(seq![hl[0]] =~= hl.take(1));
    } else {
        lemma_read_header(hl, k - 1);
        let l = hl[k - 1];
        assert(is_extended_header(l) || starts_with(l, "--- "@));
        if starts_with(l, "--- "@) {
            lemma_first_char_excludes(l, "--- "@);
        } else if starts_with(l, "index "@) {
            lemma_first_char_excludes(l, "index "@);
        } else if starts_with(l, "new file"@) {
            lemma_first_char_excludes(l, "new file"@);
        } else if starts_with(l, "deleted file"@) {
            lemma_prefixes_exclusive(l, "deleted file"@, "diff --git "@, 1);
        } else if starts_with(l, "old mode"@) {
            lemma_first_char_excludes(l, "old mode"@);
        } else if starts_with(l, "new mode"@) {
            lemma_first_char_excludes(l, "new mode"@);
        } else if starts_with(l, "similarity"@) {
            lemma_first_char_excludes(l, "similarity"@);
        } else {
            lemma_first_char_excludes(l, "rename"@);
        }
        assert(hl.take(k - 1).push(l) =~= hl.take(k));
    }
}

/// The reader after a run of hunk lines, from a state with an open hunk.
proof fn lemma_read_body(st: ParserView, ls: Seq<Seq<char>>, n: int)
    requires
        st.hunk is Some,
        0 <= n <= ls.len(),
        forall|k: int| 0 <= k < ls.len() ==> is_body_line(#[trigger] ls[k]),
    ensures
        read_more(st, ls.take(n)) == (ParserView {
            hunk: Some(
                HunkView {
                    lines: st.hunk.unwrap().lines + ls.take(n).map_values(
                        |c: Seq<char>| LineView { content: c, kind: line_kind(c) },
                    ),
                    ..st.hunk.unwrap()
                },
            ),
            ..st
        }),
    decreases n,
{
    let f = |c: Seq<char>| LineView { content: c, kind: line_kind(c) };
    if n == 0 {
        assert(ls.take(0) =~= Seq::<Seq<char>>::empty());
        assert(st.hunk.unwrap().lines + ls.take(0).map_values(f) =~= st.hunk.unwrap().lines);
    } else {
        lemma_read_body(st, ls, n - 1);
        assert(ls.take(n).drop_last() =~= ls.take(n - 1));
        assert(ls.take(n).last() == ls[n - 1]);
        assert(is_body_line(ls[n - 1]));
        assert(st.hunk.unwrap().lines + ls.take(n).map_values(f) =~= (st.hunk.unwrap().lines
            + ls.take(n - 1).map_values(f)).push(f(ls[n - 1])));
    }
}

/// The reader run from state `st` over the lines `ls`, in order.
pub open spec fn read_more(st: ParserView, ls: Seq<Seq<char>>) -> ParserView
    decreases ls.len(),
{
    if ls.len() == 0 {
        st
    } else {
        step(read_more(st, ls.drop_last()), ls.last())
    }
}

proof fn lemma_read_more_concat(a: Seq<Seq<char>>, b: Seq<Seq<char>>)
    ensures
        read_lines(a + b) == read_more(read_lines(a), b),
    decreases b.len(),
{
    if b.len() == 0 {
        assert(a + b =~= a);
    } else {
        lemma_read_more_concat(a, b.drop_last());
        assert((a + b).drop_last() =~= a + b.drop_last());
        assert((a + b).last() == b.last());
    }
}

/// The patch built for hunk `i` of a file, read back as a diff, is that
/// file with that hunk alone — provided the file's header has the shape git
/// writes, the hunk is as the reader builds hunks, and no line holds a
/// newline or ends in a carriage return.
pub proof fn law_patch_reads_back_as_its_hunk(f: FileView, i: int, hl: Seq<Seq<char>>)
    requires
        0 <= i < f.hunks.len(),
        header_shape(hl),
        f.header == join(hl, seq!['\n']),
        hunk_shape(f.hunks[i]),
        forall|k: int| 0 <= k < hl.len() ==> single_line(#[trigger] hl[k]),
        single_line(f.hunks[i].header),
        forall|k: int| 0 <= k < f.hunks[i].lines.len() ==> single_line(
            #[trigger] f.hunks[i].lines[k].content,
        ),
    ensures
        parsed(patch_text(f, i)) == seq![
            FileView {
                path: b_path(hl.last()),
                header: f.header,
                hunks: seq![f.hunks[i]],
                kind: FileKind::Modified,
            },
        ],
{
    lemma_prefix_chars();
    let h = f.hunks[i];
    let body = contents(h.lines);
    let all = hl + seq![h.header] + body;
    // the patch is its lines, each terminated
    lemma_join_terminated(hl);
    lemma_body_terminated(h.lines);
    lemma_terminated_concat(hl, seq![h.header]);
    lemma_terminated_concat(hl + seq![h.header], body);
    lemma_terminated_one(h.header);
    assert(patch_text(f, i) =~= terminated(all));
    assert forall|k: int| 0 <= k < all.len() implies single_line(#[trigger] all[k]) by {
        if k < hl.len() {
            assert(all[k] == hl[k]);
        } else if k == hl.len() {
            assert(all[k] == h.header);
        } else {
            assert(all[k] == h.lines[k - hl.len() - 1].content);
        }
    }
    lemma_lines_of_terminated(all);
    // the header lines
    let n = hl.len() as int;
    lemma_read_header(hl, n - 1);
    let last = hl.last();
    lemma_first_char_excludes(last, "+++ "@);
    assert(!is_extended_header(last));
    assert(hl.take(n - 1).push(last) =~= hl);
    let after_header = read_lines(hl);
    assert(after_header == step(read_lines(hl.take(n - 1)), last)) by {
        assert(hl.drop_last() =~= hl.take(n - 1));
    }
    assert(after_header.file == Some(
        FileView { path: b_path(last), header: join(hl, seq!['\n']), hunks: seq![], kind: FileKind::Modified },
    ));
    // the hunk header
    lemma_first_char_excludes(h.header, "@@ "@);
    assert(!is_extended_header(h.header));
    lemma_read_more_concat(hl, seq![h.header]);
    lemma_read_more_one(after_header, h.header);
    let after_hh = read_lines(hl + seq![h.header]);
    assert(after_hh.hunk == Some(HunkView { header: h.header, lines: seq![], old_start: h.old_start, new_start: h.new_start }));
    // the hunk lines
    assert forall|k: int| 0 <= k < body.len() implies is_body_line(#[trigger] body[k]) by {
        assert(body[k] == h.lines[k].content);
    }
    lemma_read_body(after_hh, body, body.len() as int);
    lemma_read_more_concat(hl + seq![h.header], body);
    assert(body.take(body.len() as int) =~= body);
    let fin = read_lines(all);
    let lf = |c: Seq<char>| LineView { content: c, kind: line_kind(c) };
    assert(seq![].add(body.map_values(lf)) =~= h.lines) by {
        assert forall|k: int| 0 <= k < h.lines.len() implies (#[trigger] body.map_values(lf)[k])
            == h.lines[k] by {
            assert(body[k] == h.lines[k].content);
        }
    }
    assert(fin.hunk == Some(h));
    assert(fin.files =~= Seq::<FileView>::empty());
    assert(parsed(patch_text(f, i)) =~= seq![
        FileView { path: b_path(last), header: f.header, hunks: seq![h], kind: FileKind::Modified },
    ]);
}


// ───────────────────────── rows of the panels ─────────────────────────

/// The header row of hunk `h`, highlighted or not.
pub open spec fn header_row(h: HunkView, selected: bool) -> DiffRowView {
    DiffRowView::Header { text: h.header, selected }
}

/// How many separator rows stand above file row `i`: one past the separator.
pub open spec fn shift(sep: Option<usize>, i: int) -> int {
    if sep matches Some(s) && s <= i {
        1
    } else {
        0
    }
}

/// The diff panel shows as many rows as the scroll model counts, and hunk
/// `j`'s header stands at row `rows_before(hs, j)`, the row that hunk
/// navigation scrolls to; that header is highlighted exactly when `j` is
/// the selected hunk.
pub proof fn law_diff_rows_follow_the_scroll_model(hs: Seq<HunkView>, sel: nat, n: int)
    requires
        0 <= n <= hs.len(),
    ensures
        diff_row_views(hs, sel, n).len() == rows_before(hs, n),
        forall|j: int|
            0 <= j < n ==> #[trigger] diff_row_views(hs, sel, n)[rows_before(hs, j) as int]
                == header_row(hs[j], j == sel),
    decreases n,
{
    if n > 0 {
        law_diff_rows_follow_the_scroll_model(hs, sel, n - 1);
        let prev = diff_row_views(hs, sel, n - 1);
        let last = hunk_row_views(hs[n - 1], n - 1 == sel);
        assert(diff_row_views(hs, sel, n) == prev + last);
        assert forall|j: int| 0 <= j < n implies #[trigger] diff_row_views(hs, sel, n)[rows_before(
            hs,
            j,
        ) as int] == header_row(hs[j], j == sel) by {
            if j < n - 1 {
                lemma_rows_before_monotone(hs, j + 1, n - 1);
                assert(prev[rows_before(hs, j) as int] == header_row(hs[j], j == sel));
            } else {
                assert(last[0] == header_row(hs[j], j == sel));
            }
        }
    }
}

/// The rows of the first `n` files: one per file, and the separator before
/// file `s` when `s` is among them; file `i` stands one row lower past it.
pub proof fn lemma_panel_rows_prefix(fs: Seq<FileView>, sep: Option<usize>, n: int)
    requires
        0 <= n <= fs.len(),
    ensures
        panel_row_views(fs, sep, n).len() == n + shift(sep, n - 1),
        forall|i: int|
            0 <= i < n ==> #[trigger] panel_row_views(fs, sep, n)[i + shift(sep, i)] == file_row(
                fs[i],
            ),
        sep matches Some(s) ==> (s < n ==> panel_row_views(fs, sep, n)[s as int]
            == PanelRowView::Separator),
    decreases n,
{
    if n > 0 {
        lemma_panel_rows_prefix(fs, sep, n - 1);
        let prev = panel_row_views(fs, sep, n - 1);
        let mid: Seq<PanelRowView> = if sep matches Some(s) && s == n - 1 {
            seq![PanelRowView::Separator]
        } else {
            seq![]
        };
        assert(panel_row_views(fs, sep, n) == prev + mid + seq![file_row(fs[n - 1])]);
        assert forall|i: int| 0 <= i < n implies #[trigger] panel_row_views(fs, sep, n)[i + shift(
            sep,
            i,
        )] == file_row(fs[i]) by {
            if i < n - 1 {
                assert(prev[i + shift(sep, i)] == file_row(fs[i]));
            }
        }
    }
}

/// The highlighted row of a file list is the selected file's own row,
/// whether or not the untracked separator stands above it, and the list
/// has one row per file besides that separator.
pub proof fn law_highlight_is_on_the_selected_file(fs: Seq<FileView>, sep: Option<usize>, sel: usize)
    requires
        sel < fs.len(),
    ensures
        panel_row_views(fs, sep, fs.len() as int).len() == fs.len() + shift(sep, fs.len() - 1),
        list_row(fs.len(), sep, sel) == Some(sel + shift(sep, sel as int)),
        panel_row_views(fs, sep, fs.len() as int)[sel + shift(sep, sel as int)] == file_row(
            fs[sel as int],
        ),
{
    lemma_panel_rows_prefix(fs, sep, fs.len() as int);
    assert(panel_row_views(fs, sep, fs.len() as int)[sel + shift(sep, sel as int)] == file_row(
        fs[sel as int],
    ));
}


// ───────────────────────── files read independently ─────────────────────────

/// `find_char` stops at the first occurrence, and at the end when there is none.
pub proof fn lemma_find_char_first(s: Seq<char>, c: char)
    ensures
        find_char(s, c) <= s.len(),
        forall|j: int| 0 <= j < find_char(s, c) ==> s[j] != c,
        find_char(s, c) < s.len() ==> s[find_char(s, c) as int] == c,
    decreases s.len(),
{
    if s.len() > 0 && s[0] != c {
        lemma_find_char_first(s.drop_first(), c);
        assert forall|j: int| 0 <= j < find_char(s, c) implies s[j] != c by {
            if j > 0 {
                assert(s[j] == s.drop_first()[j - 1]);
            }
        }
    }
}

/// Text that ends at a line break is cut into lines independently of what
/// follows it.
pub proof fn lemma_lines_append(t1: Seq<char>, t2: Seq<char>)
    requires
        t1.len() == 0 || t1.last() == '\n',
    ensures
        lines(t1 + t2) == lines(t1) + lines(t2),
    decreases t1.len(),
{
    if t1.len() == 0 {
        assert(t1 + t2 =~= t2);
        assert(lines(t1) + lines(t2) =~= lines(t2));
    } else {
        let t = t1 + t2;
        let k = find_char(t1, '\n');
        lemma_find_char_first(t1, '\n');
        if k == t1.len() {
            assert(t1[t1.len() - 1] != '\n');
        }
        assert(k < t1.len());
        assert forall|j: int| 0 <= j < k implies t[j] != '\n' by {
            assert(t[j] == t1[j]);
        }
        lemma_find_char(t, '\n', k);
        let rest = t1.skip(k + 1int);
        assert(t.take(k as int) =~= t1.take(k as int));
        assert(t.skip(k + 1int) =~= rest + t2);
        if rest.len() > 0 {
            assert(rest.last() == t1.last());
        }
        lemma_lines_append(rest, t2);
        assert(lines(t) == seq![strip_cr(t1.take(k as int))] + lines(rest + t2));
        assert(lines(t1) == seq![strip_cr(t1.take(k as int))] + lines(rest));
        assert(lines(t) =~= lines(t1) + lines(t2));
    }
}

/// The reader's state with the files `p` finished before it.
pub open spec fn after_files(p: Seq<FileView>, st: ParserView) -> ParserView {
    ParserView { files: p + st.files, ..st }
}

/// Files finished earlier play no part in how a line is read.
pub proof fn lemma_step_after_files(p: Seq<FileView>, st: ParserView, l: Seq<char>)
    ensures
        step(after_files(p, st), l) == after_files(p, step(st, l)),
{
    let f = flushed(st.file, st.hunk);
    assert(push_some(p + st.files, f) =~= p + push_some(st.files, f));
    assert(step(after_files(p, st), l).files =~= after_files(p, step(st, l)).files);
}

/// Lines that open with a `diff --git ` line are read after `ls1` as they
/// are read alone, behind the files of `ls1`.
pub proof fn lemma_read_after(ls1: Seq<Seq<char>>, ls2: Seq<Seq<char>>, k: int)
    requires
        1 <= k <= ls2.len(),
        starts_with(ls2[0], "diff --git "@),
    ensures
        read_lines(ls1 + ls2.take(k)) == after_files(finished(read_lines(ls1)), read_lines(ls2.take(k))),
    decreases k,
{
    let all = ls1 + ls2.take(k);
    assert(all.drop_last() =~= ls1 + ls2.take(k - 1));
    assert(all.last() == ls2[k - 1]);
    assert(ls2.take(k).drop_last() =~= ls2.take(k - 1));
    if k == 1 {
        assert(ls1 + ls2.take(0) =~= ls1);
        assert(ls2.take(0) =~= Seq::<Seq<char>>::empty());
        let s1 = read_lines(ls1);
        assert(read_lines(ls2.take(1)) == step(initial(), ls2[0]));
        assert(read_lines(all).files =~= after_files(finished(s1), read_lines(ls2.take(1))).files);
    } else {
        lemma_read_after(ls1, ls2, k - 1);
        lemma_step_after_files(finished(read_lines(ls1)), read_lines(ls2.take(k - 1)), ls2[k - 1]);
    }
}

/// Parsing is compositional over files: text that ends at a line break,
/// followed by text whose first line is a `diff --git ` line, yields the
/// files of the first text, then those of the second, each as it would be
/// read alone. In particular no file carries the header lines of another.
pub proof fn law_parsing_composes_over_files(t1: Seq<char>, t2: Seq<char>)
    requires
        t1.len() == 0 || t1.last() == '\n',
        lines(t2).len() > 0,
        starts_with(lines(t2)[0], "diff --git "@),
    ensures
        parsed(t1 + t2) == parsed(t1) + parsed(t2),
{
    lemma_lines_append(t1, t2);
    let l1 = lines(t1);
    let l2 = lines(t2);
    assert(l2.take(l2.len() as int) =~= l2);
    lemma_read_after(l1, l2, l2.len() as int);
    let st = read_lines(l2);
    let f = flushed(st.file, st.hunk);
    assert(push_some(parsed(t1) + st.files, f) =~= parsed(t1) + push_some(st.files, f));
}

/// A line that opens a file is none of the lines that continue one.
pub proof fn lemma_header_lines_differ(l: Seq<char>)
    ensures
        starts_with(l, "diff --git "@) ==> !is_extended_header(l) && !starts_with(l, "--- "@)
            && !starts_with(l, "+++ "@),
        starts_with(l, "+++ "@) ==> !is_extended_header(l) && !starts_with(l, "--- "@),
        starts_with(l, "--- "@) ==> !starts_with(l, "diff --git "@),
        is_extended_header(l) ==> !starts_with(l, "diff --git "@),
{
    reveal_strlit("diff --git ");
    reveal_strlit("--- ");
    reveal_strlit("+++ ");
    reveal_strlit("index ");
    reveal_strlit("new file");
    reveal_strlit("deleted file");
    reveal_strlit("old mode");
    reveal_strlit("new mode");
    reveal_strlit("similarity");
    reveal_strlit("rename");
    let pre = seq!["diff --git "@, "+++ "@, "--- "@, "index "@, "new file"@, "deleted file"@,
        "old mode"@, "new mode"@, "similarity"@, "rename"@];
    assert forall|i: int| 0 <= i < pre.len() && #[trigger] starts_with(l, pre[i]) implies l[0]
        == pre[i][0] && l[1] == pre[i][1] by {
        assert(l.take(pre[i].len() as int)[0] == l[0]);
        assert(l.take(pre[i].len() as int)[1] == l[1]);
    }
    assert(starts_with(l, "diff --git "@) == starts_with(l, pre[0]));
    assert(starts_with(l, "+++ "@) == starts_with(l, pre[1]));
    assert(starts_with(l, "--- "@) == starts_with(l, pre[2]));
    assert(starts_with(l, "index "@) == starts_with(l, pre[3]));
    assert(starts_with(l, "new file"@) == starts_with(l, pre[4]));
    assert(starts_with(l, "deleted file"@) == starts_with(l, pre[5]));
    assert(starts_with(l, "old mode"@) == starts_with(l, pre[6]));
    assert(starts_with(l, "new mode"@) == starts_with(l, pre[7]));
    assert(starts_with(l, "similarity"@) == starts_with(l, pre[8]));
    assert(starts_with(l, "rename"@) == starts_with(l, pre[9]));
}

/// The header lines of a file read so far: its `diff --git` line and the
/// first `k` lines after it.
proof fn lemma_header_buffer(ls0: Seq<Seq<char>>, d: Seq<char>, hs: Seq<Seq<char>>, k: int)
    requires
        0 <= k <= hs.len(),
        starts_with(d, "diff --git "@),
        forall|i: int| 0 <= i < hs.len() ==> is_extended_header(#[trigger] hs[i]) || starts_with(hs[i], "--- "@),
    ensures
        read_lines(ls0 + seq![d] + hs.take(k)).header_buf == seq![d] + hs.take(k),
        read_lines(ls0 + seq![d] + hs.take(k)).file is None,
    decreases k,
{
    let all = ls0 + seq![d] + hs.take(k);
    if k == 0 {
        assert(all.drop_last() =~= ls0);
        assert(all.last() == d);
        assert(seq![d] + hs.take(0) =~= seq![d]);
    } else {
        lemma_header_buffer(ls0, d, hs, k - 1);
        assert(all.drop_last() =~= ls0 + seq![d] + hs.take(k - 1));
        assert(all.last() == hs[k - 1]);
        lemma_header_lines_differ(hs[k - 1]);
        assert(seq![d] + hs.take(k) =~= (seq![d] + hs.take(k - 1)).push(hs[k - 1]));
    }
}

/// A file's header is its own `diff --git` line, the extended header and
/// `---` lines after it, and its `+++` line, joined by newlines, whatever
/// was read before; its path is the one the `+++` line names.
pub proof fn law_file_header_is_its_own_lines(
    ls0: Seq<Seq<char>>,
    d: Seq<char>,
    hs: Seq<Seq<char>>,
    p: Seq<char>,
)
    requires
        starts_with(d, "diff --git "@),
        forall|i: int| 0 <= i < hs.len() ==> is_extended_header(#[trigger] hs[i]) || starts_with(hs[i], "--- "@),
        starts_with(p, "+++ "@),
    ensures
        read_lines(ls0 + seq![d] + hs + seq![p]).file == Some(
            FileView {
                path: b_path(p),
                header: join(seq![d] + hs + seq![p], seq!['\n']),
                hunks: seq![],
                kind: FileKind::Modified,
            },
        ),
{
    lemma_header_buffer(ls0, d, hs, hs.len() as int);
    assert(hs.take(hs.len() as int) =~= hs);
    let all = ls0 + seq![d] + hs + seq![p];
    assert(all.drop_last() =~= ls0 + seq![d] + hs);
    lemma_header_lines_differ(p);
    assert((seq![d] + hs).push(p) =~= seq![d] + hs + seq![p]);
}


// ───────────────────────── what each action key asks git to do ─────────────────────────

/// `git <args>`, with `input` on its standard input.
pub open spec fn git(args: Seq<Seq<char>>, input: Option<Seq<char>>) -> EffectView {
    EffectView::Git(CommandView { args, input })
}

/// The status after a hunk operation: `<verb> hunk <i+1>/<n> in <path>`.
pub open spec fn hunk_said(verb: Seq<char>, i: nat, n: nat, path: Seq<char>) -> Seq<char> {
    verb + " hunk "@ + dec(i + 1) + "/"@ + dec(n) + " in "@ + path
}

proof fn lemma_apply_flags(p: Seq<char>)
    ensures
        apply_spec(p, true, false) == (CommandView { args: seq!["apply"@, "--cached"@], input: Some(p) }),
        apply_spec(p, true, true) == (CommandView {
            args: seq!["apply"@, "--cached"@, "--reverse"@],
            input: Some(p),
        }),
        apply_spec(p, false, true) == (CommandView { args: seq!["apply"@, "--reverse"@], input: Some(p) }),
{
    assert(apply_spec(p, true, false).args =~= seq!["apply"@, "--cached"@]);
    assert(apply_spec(p, true, true).args =~= seq!["apply"@, "--cached"@, "--reverse"@]);
    assert(apply_spec(p, false, true).args =~= seq!["apply"@, "--reverse"@]);
}

proof fn lemma_path_flags(path: Seq<char>)
    ensures
        path_spec(seq!["add"@], path) == (CommandView { args: seq!["add"@, "--"@, path], input: None }),
        path_spec(seq!["reset"@, "HEAD"@], path) == (CommandView {
            args: seq!["reset"@, "HEAD"@, "--"@, path],
            input: None,
        }),
{
    assert(path_spec(seq!["add"@], path).args =~= seq!["add"@, "--"@, path]);
    assert(path_spec(seq!["reset"@, "HEAD"@], path).args =~= seq!["reset"@, "HEAD"@, "--"@, path]);
}

/// Every hunk request pipes the patch of the selected hunk of the selected
/// file, and its status names that hunk: staging feeds it to
/// `git apply --cached`, unstaging to `git apply --cached --reverse`,
/// discarding to `git apply --reverse`. There is such a request exactly when
/// a file is selected and the selected hunk is one of its hunks.
pub proof fn law_hunk_requests_carry_the_selected_hunk(a: App)
    ensures
        a.stage_hunk_req() matches Some(r) ==> (a.unstaged_pick() matches Some(f)
            && a.selected_hunk < f@.hunks.len() && r.effect == git(
            seq!["apply"@, "--cached"@],
            Some(patch_text(f@, a.selected_hunk as int)),
        ) && r.success_status == hunk_said("Staged"@, a.selected_hunk as nat, f@.hunks.len(), f.path@)),
        a.unstage_hunk_req() matches Some(r) ==> (a.staged_pick() matches Some(f)
            && a.selected_hunk < f@.hunks.len() && r.effect == git(
            seq!["apply"@, "--cached"@, "--reverse"@],
            Some(patch_text(f@, a.selected_hunk as int)),
        ) && r.success_status == hunk_said("Unstaged"@, a.selected_hunk as nat, f@.hunks.len(), f.path@)),
        a.discard_hunk_req() matches Some(r) ==> (a.unstaged_pick() matches Some(f)
            && a.selected_hunk < f@.hunks.len() && r.effect == git(
            seq!["apply"@, "--reverse"@],
            Some(patch_text(f@, a.selected_hunk as int)),
        ) && r.success_status == hunk_said("Discarded"@, a.selected_hunk as nat, f@.hunks.len(), f.path@)),
        (a.unstaged_pick() matches Some(f) && a.selected_hunk < f@.hunks.len()) ==> (
        a.stage_hunk_req() is Some && a.discard_hunk_req() is Some),
        (a.staged_pick() matches Some(f) && a.selected_hunk < f@.hunks.len()) ==> a.unstage_hunk_req() is Some,
{
    if let Some(f) = a.unstaged_pick() {
        lemma_apply_flags(patch_text(f@, a.selected_hunk as int));
    }
    if let Some(f) = a.staged_pick() {
        lemma_apply_flags(patch_text(f@, a.selected_hunk as int));
    }
}

/// The hunk dialog and its confirmation agree: when `d` in the diff panel
/// raises the dialog, it names hunk `i+1` of `n` of the selected file, and
/// `y` then pipes the patch of that same hunk to `git apply --reverse`.
pub proof fn law_confirmed_discard_removes_the_named_hunk(
    a: App,
    ctrl: bool,
    h: usize,
    b: App,
    yes_ctrl: bool,
)
    requires
        a.pending is None,
        a.focus == Focus::Diff,
        a.diff_source == DiffSource::Unstaged,
        a.key_moves(Key::Char('d'), ctrl, h, b),
        b.pending is Some,
    ensures
        a.unstaged_pick() matches Some(f) && a.selected_hunk < f@.hunks.len() && (opt_pending(
            b.pending,
        ) matches Some(p) && p.action == PendingAction::DiscardHunk && p.lines[0] == "Discard hunk "@
            + dec((a.selected_hunk + 1) as nat) + " of "@ + dec(f@.hunks.len()) + " in"@ && p.lines[1]
            == f.path@) && b.key_step(Key::Char('y'), yes_ctrl) == StepView::Perform(
            RequestView {
                effect: git(seq!["apply"@, "--reverse"@], Some(patch_text(f@, a.selected_hunk as int))),
                success_status: hunk_said(
                    "Discarded"@,
                    a.selected_hunk as nat,
                    f@.hunks.len(),
                    f.path@,
                ),
                failure_prefix: "Discard failed: "@,
            },
        ),
{
    law_hunk_requests_carry_the_selected_hunk(b);
}

/// `s` stages the selected file from the unstaged list and the selected
/// hunk from the unstaged diff; elsewhere it asks for nothing.
pub proof fn law_s_stages_the_hunk_or_the_file(a: App)
    ensures
        a.focus == Focus::Unstaged ==> (a.stage_action_req() matches Some(r) ==> (
        a.unstaged_pick() matches Some(f) && r.effect == git(seq!["add"@, "--"@, f.path@], None))),
        a.focus == Focus::Diff && a.diff_source == DiffSource::Unstaged ==> (
        a.stage_action_req() matches Some(r) ==> (a.unstaged_pick() matches Some(f) && r.effect
            == git(seq!["apply"@, "--cached"@], Some(patch_text(f@, a.selected_hunk as int))))),
        a.stage_action_req() is Some <==> (a.unstaged_pick() matches Some(f) && (a.focus
            == Focus::Unstaged || (a.focus == Focus::Diff && a.diff_source == DiffSource::Unstaged
            && a.selected_hunk < f@.hunks.len()))),
{
    law_hunk_requests_carry_the_selected_hunk(a);
    if let Some(f) = a.unstaged_pick() {
        lemma_path_flags(f.path@);
    }
}

/// `S` stages the whole selected unstaged file, with `git add -- <path>`,
/// from the unstaged list and from the unstaged diff alike, whatever hunk
/// is selected; elsewhere it asks for nothing.
pub proof fn law_shift_s_stages_the_whole_file(a: App)
    ensures
        a.stage_file_action_req() matches Some(r) ==> (a.unstaged_pick() matches Some(f)
            && r.effect == git(seq!["add"@, "--"@, f.path@], None) && r.success_status == "Staged "@
            + f.path@),
        a.stage_file_action_req() is Some <==> (a.unstaged_pick() is Some && (a.focus
            == Focus::Unstaged || (a.focus == Focus::Diff && a.diff_source == DiffSource::Unstaged))),
{
    if let Some(f) = a.unstaged_pick() {
        lemma_path_flags(f.path@);
    }
}

/// `u` unstages the selected file from the staged list and the selected
/// hunk from the staged diff; elsewhere it asks for nothing.
pub proof fn law_u_unstages_the_hunk_or_the_file(a: App)
    ensures
        a.focus == Focus::Staged ==> (a.unstage_action_req() matches Some(r) ==> (
        a.staged_pick() matches Some(f) && r.effect == git(
            seq!["reset"@, "HEAD"@, "--"@, f.path@],
            None,
        ))),
        a.focus == Focus::Diff && a.diff_source == DiffSource::Staged ==> (
        a.unstage_action_req() matches Some(r) ==> (a.staged_pick() matches Some(f) && r.effect
            == git(
            seq!["apply"@, "--cached"@, "--reverse"@],
            Some(patch_text(f@, a.selected_hunk as int)),
        ))),
        a.unstage_action_req() is Some <==> (a.staged_pick() matches Some(f) && (a.focus
            == Focus::Staged || (a.focus == Focus::Diff && a.diff_source == DiffSource::Staged
            && a.selected_hunk < f@.hunks.len()))),
{
    law_hunk_requests_carry_the_selected_hunk(a);
    if let Some(f) = a.staged_pick() {
        lemma_path_flags(f.path@);
    }
}

/// `U` unstages the whole selected staged file, with
/// `git reset HEAD -- <path>`, from the staged list and the staged diff
/// alike; elsewhere it asks for nothing.
pub proof fn law_shift_u_unstages_the_whole_file(a: App)
    ensures
        a.unstage_file_action_req() matches Some(r) ==> (a.staged_pick() matches Some(f)
            && r.effect == git(seq!["reset"@, "HEAD"@, "--"@, f.path@], None) && r.success_status
            == "Unstaged "@ + f.path@),
        a.unstage_file_action_req() is Some <==> (a.staged_pick() is Some && (a.focus
            == Focus::Staged || (a.focus == Focus::Diff && a.diff_source == DiffSource::Staged))),
{
    if let Some(f) = a.staged_pick() {
        lemma_path_flags(f.path@);
    }
}

// ───────────────────────── the movement keys ─────────────────────────

/// `j` is the Down key and `k` the Up key: in every state they move the
/// state alike and ask for the same work.
pub proof fn law_j_and_k_are_down_and_up(a: App, ctrl: bool, h: usize, b: App)
    ensures
        a.key_moves(Key::Char('j'), ctrl, h, b) <==> a.key_moves(Key::Down, ctrl, h, b),
        a.key_moves(Key::Char('k'), ctrl, h, b) <==> a.key_moves(Key::Up, ctrl, h, b),
        a.key_step(Key::Char('j'), ctrl) == a.key_step(Key::Down, ctrl),
        a.key_step(Key::Char('k'), ctrl) == a.key_step(Key::Up, ctrl),
{
}

/// Down (or `j`) selects the next file of the focused list, showing its
/// diff from the top, and in the diff panel scrolls one row down while the
/// last row is below the panel; it never moves a selection or the scroll
/// backwards.
pub proof fn law_down_moves_forward(a: App, key: Key, ctrl: bool, h: usize, b: App)
    requires
        a.pending is None,
        a.rows_ok(),
        key == Key::Down || key == Key::Char('j'),
        a.key_moves(key, ctrl, h, b),
    ensures
        a.focus == Focus::Unstaged && a.unstaged_sel + 1 < a.unstaged_files@.len() ==> b.unstaged_sel
            == a.unstaged_sel + 1 && b.diff_source == DiffSource::Unstaged && b.selected_hunk == 0
            && b.diff_scroll == 0,
        a.focus == Focus::Staged && a.staged_sel + 1 < a.staged_files@.len() ==> b.staged_sel
            == a.staged_sel + 1 && b.diff_source == DiffSource::Staged && b.selected_hunk == 0
            && b.diff_scroll == 0,
        a.focus == Focus::Diff && a.diff_scroll + h < a.total_rows() ==> b.diff_scroll
            == a.diff_scroll + 1 && b.selected_hunk == a.selected_hunk,
        b.focus == a.focus,
        b.unstaged_sel >= a.unstaged_sel,
        b.staged_sel >= a.staged_sel,
        a.focus == Focus::Diff ==> b.diff_scroll >= a.diff_scroll,
{
    assert(a.unstaged_files@.len() == a.unstaged_files.len());
    assert(a.staged_files@.len() == a.staged_files.len());
    lemma_shown_fits(a);
}

/// Up (or `k`) selects the previous file of the focused list, showing its
/// diff from the top, and in the diff panel scrolls one row up while not at
/// the top; it never moves a selection or the scroll forwards.
pub proof fn law_up_moves_back(a: App, key: Key, ctrl: bool, h: usize, b: App)
    requires
        a.pending is None,
        key == Key::Up || key == Key::Char('k'),
        a.key_moves(key, ctrl, h, b),
    ensures
        a.focus == Focus::Unstaged && a.unstaged_sel > 0 ==> b.unstaged_sel == a.unstaged_sel - 1
            && b.diff_source == DiffSource::Unstaged && b.selected_hunk == 0 && b.diff_scroll == 0,
        a.focus == Focus::Staged && a.staged_sel > 0 ==> b.staged_sel == a.staged_sel - 1
            && b.diff_source == DiffSource::Staged && b.selected_hunk == 0 && b.diff_scroll == 0,
        a.focus == Focus::Diff && a.diff_scroll > 0 ==> b.diff_scroll == a.diff_scroll - 1
            && b.selected_hunk == a.selected_hunk,
        b.focus == a.focus,
        b.unstaged_sel <= a.unstaged_sel,
        b.staged_sel <= a.staged_sel,
        a.focus == Focus::Diff ==> b.diff_scroll <= a.diff_scroll,
{
}

} // verus!
