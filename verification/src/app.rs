//! The state machine behind the panels: focus, selection, scrolling, and the
//! confirmation that guards irreversible actions.
//!
//! Operations that touch the repository do not run here: they yield a
//! [`Request`], which the caller carries out and reports back through
//! [`App::finish`]; after a success the caller reloads the file lists and
//! hands them to [`App::reload`].

use std::path::PathBuf;

use vstd::prelude::*;

use crate::git::{
    discard_file, discard_file_spec, discard_hunk, discard_hunk_spec, file_rows, lemma_rows_before_monotone,
    rows_before, stage_file, stage_file_spec, stage_hunk, stage_hunk_spec, unstage_file,
    unstage_file_spec, unstage_hunk, unstage_hunk_spec, ChangedFile, CommandView, FileKind,
    GitCommand,
};
use crate::text::{append_str, dec, owned, push_decimal};

verus! {

/// A filesystem path, carried through unchanged.
#[verifier::external_type_specification]
#[verifier::external_body]
pub struct ExPathBuf(PathBuf);

/// Which UI panel has keyboard focus.
#[derive(Debug, Clone, Copy, PartialEq, Eq, Structural)]
pub enum Focus {
    Staged,
    Unstaged,
    Diff,
}

/// Which file list is feeding the diff panel on the right.
#[derive(Debug, Clone, Copy, PartialEq, Eq, Structural)]
pub enum DiffSource {
    Staged,
    Unstaged,
}

/// An irreversible action waiting on the user to confirm it.
#[derive(Debug, Clone, Copy, PartialEq, Eq, Structural)]
pub enum PendingAction {
    DiscardHunk,
    DiscardFile,
}

/// A queued destructive action, plus the text to show in the confirm dialog.
#[derive(Debug, Clone)]
pub struct Pending {
    pub action: PendingAction,
    /// Dialog border title, e.g. " Confirm discard "
    pub title: String,
    /// Message body, one entry per rendered line
    pub lines: Vec<String>,
}

/// Model of a [`Pending`].
pub struct PendingView {
    pub action: PendingAction,
    pub title: Seq<char>,
    pub lines: Seq<Seq<char>>,
}

impl View for Pending {
    type V = PendingView;

    open spec fn view(&self) -> PendingView {
        PendingView {
            action: self.action,
            title: self.title@,
            lines: self.lines@.map_values(|l: String| l@),
        }
    }
}

/// Model of an optional [`Pending`].
pub open spec fn opt_pending(p: Option<Pending>) -> Option<PendingView> {
    match p {
        Some(p) => Some(p@),
        None => None,
    }
}

/// Work on the repository that the caller carries out.
#[derive(Debug, Clone)]
pub enum Effect {
    /// Run git in the repository.
    Git(GitCommand),
    /// Delete the file at this path, relative to the repository root.
    RemoveFile(String),
}

/// Model of an [`Effect`].
pub enum EffectView {
    Git(CommandView),
    RemoveFile(Seq<char>),
}

/// An effect, and the status line to show once it has succeeded or failed.
#[derive(Debug, Clone)]
pub struct Request {
    pub effect: Effect,
    /// Status after success
    pub success_status: String,
    /// Status after failure, before the error text
    pub failure_prefix: String,
}

/// Model of a [`Request`].
pub struct RequestView {
    pub effect: EffectView,
    pub success_status: Seq<char>,
    pub failure_prefix: Seq<char>,
}

impl View for Request {
    type V = RequestView;

    open spec fn view(&self) -> RequestView {
        RequestView {
            effect: match self.effect {
                Effect::Git(c) => EffectView::Git(c@),
                Effect::RemoveFile(p) => EffectView::RemoveFile(p@),
            },
            success_status: self.success_status@,
            failure_prefix: self.failure_prefix@,
        }
    }
}

/// Model of an optional [`Request`].
pub open spec fn opt_request(r: Option<Request>) -> Option<RequestView> {
    match r {
        Some(r) => Some(r@),
        None => None,
    }
}

/// A step that performs the request, if there is one.
pub open spec fn req_step(r: Option<RequestView>) -> StepView {
    match r {
        Some(r) => StepView::Perform(r),
        None => StepView::Idle,
    }
}

/// What the caller does after a key has been handled.
#[derive(Debug, Clone)]
pub enum Step {
    /// Nothing more.
    Idle,
    /// Reload the file lists and hand them to [`App::reload`].
    Reload,
    /// Carry out the request and report with [`App::finish`].
    Perform(Request),
}

/// Model of a [`Step`].
pub enum StepView {
    Idle,
    Reload,
    Perform(RequestView),
}

impl View for Step {
    type V = StepView;

    open spec fn view(&self) -> StepView {
        match self {
            Step::Idle => StepView::Idle,
            Step::Reload => StepView::Reload,
            Step::Perform(r) => StepView::Perform(r@),
        }
    }
}

/// A key press, as far as the panels tell keys apart.
#[derive(Debug, Clone, Copy, PartialEq, Eq, Structural)]
pub enum Key {
    Char(char),
    Tab,
    Enter,
    Esc,
    Up,
    Down,
    PageUp,
    PageDown,
    Other,
}

/// Every file's diff fits in `usize` rows.
pub open spec fn rows_fit(files: Seq<ChangedFile>) -> bool {
    forall|i: int| 0 <= i < files.len() ==> file_rows(#[trigger] files[i]@) <= usize::MAX
}

/// `sel` pulled back into a list of `len` entries (0 for an empty list).
pub open spec fn clamp(sel: usize, len: nat) -> usize {
    if len == 0 {
        0
    } else if sel < len {
        sel
    } else {
        (len - 1) as usize
    }
}

/// The focus that Tab moves to.
pub open spec fn next_focus(f: Focus) -> Focus {
    match f {
        Focus::Staged => Focus::Unstaged,
        Focus::Unstaged => Focus::Diff,
        Focus::Diff => Focus::Staged,
    }
}

/// `verb hunk i/n in path`, the status after a hunk operation.
pub open spec fn hunk_status(verb: Seq<char>, idx: nat, n: nat, path: Seq<char>) -> Seq<char> {
    verb + " hunk "@ + dec(idx + 1) + "/"@ + dec(n) + " in "@ + path
}

/// The last line of every confirmation dialog.
pub open spec fn warning() -> Seq<char> {
    "This cannot be undone."@
}

/// The application state.
pub struct App {
    pub staged_files: Vec<ChangedFile>,
    /// modified tracked + untracked
    pub unstaged_files: Vec<ChangedFile>,
    pub staged_sel: usize,
    pub unstaged_sel: usize,
    pub selected_hunk: usize,
    pub diff_scroll: usize,
    pub focus: Focus,
    /// Which file list the diff panel is currently showing.
    pub diff_source: DiffSource,
    pub status: String,
    pub should_quit: bool,
    /// Set while a destructive action awaits confirmation. While this is
    /// `Some`, every key is routed to confirm/cancel, so the indices
    /// captured here stay valid.
    pub pending: Option<Pending>,
    pub repo_path: PathBuf,
}

impl App {
    // ───────────────────────── model ─────────────────────────

    /// The selected staged file, if the selection is within the list.
    pub open spec fn staged_pick(self) -> Option<ChangedFile> {
        if self.staged_sel < self.staged_files@.len() {
            Some(self.staged_files@[self.staged_sel as int])
        } else {
            None
        }
    }

    /// The selected unstaged file, if the selection is within the list.
    pub open spec fn unstaged_pick(self) -> Option<ChangedFile> {
        if self.unstaged_sel < self.unstaged_files@.len() {
            Some(self.unstaged_files@[self.unstaged_sel as int])
        } else {
            None
        }
    }

    /// The file whose diff the right panel shows.
    pub open spec fn shown(self) -> Option<ChangedFile> {
        match self.diff_source {
            DiffSource::Staged => self.staged_pick(),
            DiffSource::Unstaged => self.unstaged_pick(),
        }
    }

    /// Rows of the shown diff: one per hunk header and one per hunk line.
    pub open spec fn total_rows(self) -> nat {
        match self.shown() {
            Some(f) => file_rows(f@),
            None => 0,
        }
    }

    /// Number of hunks of the shown file (0 when none is shown).
    pub open spec fn shown_hunks(self) -> nat {
        match self.shown() {
            Some(f) => f@.hunks.len(),
            None => 0,
        }
    }

    /// Each diff's row count fits in `usize`.
    pub open spec fn rows_ok(self) -> bool {
        rows_fit(self.staged_files@) && rows_fit(self.unstaged_files@)
    }

    /// The selected hunk is at most the number of hunks shown.
    pub open spec fn hunk_in_range(self) -> bool {
        self.shown() is Some ==> self.selected_hunk <= self.shown_hunks()
    }

    /// Selecting the previous hunk can scroll to it: the hunks before it
    /// are hunks of the shown file.
    pub open spec fn hunk_up_ok(self) -> bool {
        (self.shown() is Some && self.selected_hunk > 0) ==> self.selected_hunk - 1
            <= self.shown_hunks()
    }

    /// What every operation keeps: each diff's row count fits in `usize`,
    /// and the selected hunk is at most the number of hunks shown.
    pub open spec fn wf(self) -> bool {
        self.rows_ok() && self.hunk_in_range()
    }

    /// The state can take `key`: row counts fit, and `[` in the diff panel
    /// can scroll to the previous hunk.
    pub open spec fn takes_key(self, key: Key) -> bool {
        &&& self.rows_ok()
        &&& (self.pending is None && key == Key::Char('[') && self.focus == Focus::Diff)
            ==> self.hunk_up_ok()
    }

    /// The state after Tab.
    pub open spec fn after_cycle_focus(self) -> App {
        App { focus: next_focus(self.focus), ..self }
    }

    /// The state after Enter.
    pub open spec fn after_enter_diff(self) -> App {
        match self.focus {
            Focus::Staged => App {
                diff_source: DiffSource::Staged,
                selected_hunk: 0,
                diff_scroll: 0,
                focus: Focus::Diff,
                ..self
            },
            Focus::Unstaged => App {
                diff_source: DiffSource::Unstaged,
                selected_hunk: 0,
                diff_scroll: 0,
                focus: Focus::Diff,
                ..self
            },
            Focus::Diff => self,
        }
    }

    /// The state after Esc.
    pub open spec fn after_exit_diff(self) -> App {
        if self.focus == Focus::Diff {
            App {
                focus: match self.diff_source {
                    DiffSource::Staged => Focus::Staged,
                    DiffSource::Unstaged => Focus::Unstaged,
                },
                ..self
            }
        } else {
            self
        }
    }

    /// The state after moving the selection of the focused list up.
    pub open spec fn after_file_up(self) -> App {
        match self.focus {
            Focus::Staged => if self.staged_sel > 0 {
                App {
                    staged_sel: (self.staged_sel - 1) as usize,
                    diff_source: DiffSource::Staged,
                    selected_hunk: 0,
                    diff_scroll: 0,
                    ..self
                }
            } else {
                self
            },
            Focus::Unstaged => if self.unstaged_sel > 0 {
                App {
                    unstaged_sel: (self.unstaged_sel - 1) as usize,
                    diff_source: DiffSource::Unstaged,
                    selected_hunk: 0,
                    diff_scroll: 0,
                    ..self
                }
            } else {
                self
            },
            Focus::Diff => self,
        }
    }

    /// The state after moving the selection of the focused list down.
    pub open spec fn after_file_down(self) -> App {
        match self.focus {
            Focus::Staged => if self.staged_sel + 1 < self.staged_files@.len() {
                App {
                    staged_sel: (self.staged_sel + 1) as usize,
                    diff_source: DiffSource::Staged,
                    selected_hunk: 0,
                    diff_scroll: 0,
                    ..self
                }
            } else {
                self
            },
            Focus::Unstaged => if self.unstaged_sel + 1 < self.unstaged_files@.len() {
                App {
                    unstaged_sel: (self.unstaged_sel + 1) as usize,
                    diff_source: DiffSource::Unstaged,
                    selected_hunk: 0,
                    diff_scroll: 0,
                    ..self
                }
            } else {
                self
            },
            Focus::Diff => self,
        }
    }

    /// `self` with hunk `h` selected and scrolled to its header row.
    pub open spec fn with_hunk(self, h: usize) -> App {
        App {
            selected_hunk: h,
            diff_scroll: match self.shown() {
                Some(f) => rows_before(f@.hunks, h as int) as usize,
                None => self.diff_scroll,
            },
            ..self
        }
    }

    /// The state after selecting the previous hunk.
    pub open spec fn after_hunk_up(self) -> App {
        if self.selected_hunk > 0 {
            self.with_hunk((self.selected_hunk - 1) as usize)
        } else {
            self
        }
    }

    /// The state after selecting the next hunk.
    pub open spec fn after_hunk_down(self) -> App {
        if self.selected_hunk + 1 < self.shown_hunks() {
            self.with_hunk((self.selected_hunk + 1) as usize)
        } else {
            self
        }
    }

    /// The state after scrolling up one row.
    pub open spec fn after_scroll_up(self) -> App {
        App {
            diff_scroll: if self.diff_scroll > 0 {
                (self.diff_scroll - 1) as usize
            } else {
                0
            },
            ..self
        }
    }

    /// The state after scrolling down one row with `h` rows visible: the
    /// last row may not scroll above the bottom of the panel.
    pub open spec fn after_scroll_down(self, h: usize) -> App {
        if self.total_rows() > h && self.diff_scroll + h < self.total_rows() {
            App { diff_scroll: (self.diff_scroll + 1) as usize, ..self }
        } else {
            self
        }
    }

    /// The state after scrolling up `k` rows, stopping at the top.
    pub open spec fn after_page_up(self, k: usize) -> App {
        App {
            diff_scroll: if self.diff_scroll > k {
                (self.diff_scroll - k) as usize
            } else {
                0
            },
            ..self
        }
    }

    /// The state after scrolling down `k` rows with `h` rows visible.
    pub open spec fn after_page_down(self, h: usize, k: usize) -> App {
        if self.total_rows() > h && self.diff_scroll + h < self.total_rows() {
            App {
                diff_scroll: if self.diff_scroll + k < self.total_rows() - h {
                    (self.diff_scroll + k) as usize
                } else {
                    (self.total_rows() - h) as usize
                },
                ..self
            }
        } else {
            self
        }
    }

    // ───────────────────────── requests ─────────────────────────

    /// Staging the selected unstaged file.
    pub open spec fn stage_file_req(self) -> Option<RequestView> {
        match self.unstaged_pick() {
            Some(f) => Some(
                RequestView {
                    effect: EffectView::Git(stage_file_spec(f.path@)),
                    success_status: "Staged "@ + f.path@,
                    failure_prefix: "Stage failed: "@,
                },
            ),
            None => None,
        }
    }

    /// Unstaging the selected staged file.
    pub open spec fn unstage_file_req(self) -> Option<RequestView> {
        match self.staged_pick() {
            Some(f) => Some(
                RequestView {
                    effect: EffectView::Git(unstage_file_spec(f.path@)),
                    success_status: "Unstaged "@ + f.path@,
                    failure_prefix: "Unstage failed: "@,
                },
            ),
            None => None,
        }
    }

    /// Staging the selected hunk of the selected unstaged file.
    pub open spec fn stage_hunk_req(self) -> Option<RequestView> {
        match self.unstaged_pick() {
            Some(f) => if self.selected_hunk < f@.hunks.len() {
                Some(
                    RequestView {
                        effect: EffectView::Git(stage_hunk_spec(f@, self.selected_hunk as int)),
                        success_status: hunk_status(
                            "Staged"@,
                            self.selected_hunk as nat,
                            f@.hunks.len(),
                            f.path@,
                        ),
                        failure_prefix: "Stage failed: "@,
                    },
                )
            } else {
                None
            },
            None => None,
        }
    }

    /// Unstaging the selected hunk of the selected staged file.
    pub open spec fn unstage_hunk_req(self) -> Option<RequestView> {
        match self.staged_pick() {
            Some(f) => if self.selected_hunk < f@.hunks.len() {
                Some(
                    RequestView {
                        effect: EffectView::Git(unstage_hunk_spec(f@, self.selected_hunk as int)),
                        success_status: hunk_status(
                            "Unstaged"@,
                            self.selected_hunk as nat,
                            f@.hunks.len(),
                            f.path@,
                        ),
                        failure_prefix: "Unstage failed: "@,
                    },
                )
            } else {
                None
            },
            None => None,
        }
    }

    /// Discarding the selected hunk of the selected unstaged file.
    pub open spec fn discard_hunk_req(self) -> Option<RequestView> {
        match self.unstaged_pick() {
            Some(f) => if self.selected_hunk < f@.hunks.len() {
                Some(
                    RequestView {
                        effect: EffectView::Git(discard_hunk_spec(f@, self.selected_hunk as int)),
                        success_status: hunk_status(
                            "Discarded"@,
                            self.selected_hunk as nat,
                            f@.hunks.len(),
                            f.path@,
                        ),
                        failure_prefix: "Discard failed: "@,
                    },
                )
            } else {
                None
            },
            None => None,
        }
    }

    /// Discarding the selected unstaged file: deleting it when untracked,
    /// restoring it from HEAD otherwise.
    pub open spec fn discard_file_req(self) -> Option<RequestView> {
        match self.unstaged_pick() {
            Some(f) => Some(
                if f.kind == FileKind::Untracked {
                    RequestView {
                        effect: EffectView::RemoveFile(f.path@),
                        success_status: "Deleted "@ + f.path@,
                        failure_prefix: "Discard failed: "@,
                    }
                } else {
                    RequestView {
                        effect: EffectView::Git(discard_file_spec(f.path@)),
                        success_status: "Discarded all changes in "@ + f.path@,
                        failure_prefix: "Discard failed: "@,
                    }
                },
            ),
            None => None,
        }
    }

    /// What `s` asks for.
    pub open spec fn stage_action_req(self) -> Option<RequestView> {
        match self.focus {
            Focus::Unstaged => self.stage_file_req(),
            Focus::Diff => if self.diff_source == DiffSource::Unstaged {
                self.stage_hunk_req()
            } else {
                None
            },
            Focus::Staged => None,
        }
    }

    /// What `S` asks for.
    pub open spec fn stage_file_action_req(self) -> Option<RequestView> {
        match self.focus {
            Focus::Unstaged => self.stage_file_req(),
            Focus::Diff => if self.diff_source == DiffSource::Unstaged {
                self.stage_file_req()
            } else {
                None
            },
            Focus::Staged => None,
        }
    }

    /// What `u` asks for.
    pub open spec fn unstage_action_req(self) -> Option<RequestView> {
        match self.focus {
            Focus::Staged => self.unstage_file_req(),
            Focus::Diff => if self.diff_source == DiffSource::Staged {
                self.unstage_hunk_req()
            } else {
                None
            },
            Focus::Unstaged => None,
        }
    }

    /// What `U` asks for.
    pub open spec fn unstage_file_action_req(self) -> Option<RequestView> {
        match self.focus {
            Focus::Staged => self.unstage_file_req(),
            Focus::Diff => if self.diff_source == DiffSource::Staged {
                self.unstage_file_req()
            } else {
                None
            },
            Focus::Unstaged => None,
        }
    }

    /// What confirming the pending action runs.
    pub open spec fn confirm_req(self) -> Option<RequestView> {
        match self.pending {
            Some(p) => match p.action {
                PendingAction::DiscardHunk => self.discard_hunk_req(),
                PendingAction::DiscardFile => self.discard_file_req(),
            },
            None => None,
        }
    }

    // ───────────────────────── prompts ─────────────────────────

    /// The dialog that asks before discarding the selected hunk.
    pub open spec fn discard_hunk_prompt(self) -> Option<PendingView> {
        match self.unstaged_pick() {
            Some(f) => if self.selected_hunk < f@.hunks.len() {
                Some(
                    PendingView {
                        action: PendingAction::DiscardHunk,
                        title: " Confirm discard "@,
                        lines: seq![
                            "Discard hunk "@ + dec((self.selected_hunk + 1) as nat) + " of "@ + dec(
                                f@.hunks.len(),
                            ) + " in"@,
                            f.path@,
                            seq![],
                            warning(),
                        ],
                    },
                )
            } else {
                None
            },
            None => None,
        }
    }

    /// The dialog that asks before discarding (or deleting) the selected file.
    pub open spec fn discard_file_prompt(self) -> Option<PendingView> {
        match self.unstaged_pick() {
            Some(f) => Some(
                PendingView {
                    action: PendingAction::DiscardFile,
                    title: if f.kind == FileKind::Untracked {
                        " Confirm delete "@
                    } else {
                        " Confirm discard "@
                    },
                    lines: seq![
                        if f.kind == FileKind::Untracked {
                            "Delete untracked file"@
                        } else {
                            "Discard all changes in"@
                        },
                        f.path@,
                        seq![],
                        warning(),
                    ],
                },
            ),
            None => None,
        }
    }

    /// The dialog that `d` raises.
    pub open spec fn discard_action_prompt(self) -> Option<PendingView> {
        match self.focus {
            Focus::Unstaged => self.discard_file_prompt(),
            Focus::Diff => if self.diff_source == DiffSource::Unstaged {
                self.discard_hunk_prompt()
            } else {
                None
            },
            Focus::Staged => None,
        }
    }

    /// The dialog that `D` raises.
    pub open spec fn discard_file_action_prompt(self) -> Option<PendingView> {
        match self.focus {
            Focus::Unstaged => self.discard_file_prompt(),
            Focus::Diff => if self.diff_source == DiffSource::Unstaged {
                self.discard_file_prompt()
            } else {
                None
            },
            Focus::Staged => None,
        }
    }

    /// `next` is `self` with `prompt` raised, or `self` itself when there is
    /// no prompt.
    pub open spec fn asked(self, prompt: Option<PendingView>, next: App) -> bool {
        match prompt {
            Some(p) => next == (App { pending: next.pending, ..self }) && opt_pending(next.pending)
                == Some(p),
            None => next == self,
        }
    }

    /// `next` is `self` with the pending action dismissed and the status
    /// saying so.
    pub open spec fn cancelled(self, next: App) -> bool {
        next == (App { pending: None, status: next.status, ..self }) && next.status@
            == "Cancelled"@
    }

    // ───────────────────────── keys ─────────────────────────

    /// Up or `k`: the previous file of the focused list, or one row up in
    /// the diff panel.
    pub open spec fn after_up(self) -> App {
        if self.focus == Focus::Diff {
            self.after_scroll_up()
        } else {
            self.after_file_up()
        }
    }

    /// Down or `j`: the next file of the focused list, or one row down in
    /// the diff panel with `h` rows visible.
    pub open spec fn after_down(self, h: usize) -> App {
        if self.focus == Focus::Diff {
            self.after_scroll_down(h)
        } else {
            self.after_file_down()
        }
    }

    /// Whether a key quits.
    pub open spec fn quits(key: Key, ctrl: bool) -> bool {
        key == Key::Char('q') || key == Key::Char('Q') || (key == Key::Char('c') && ctrl)
    }

    /// How the state moves from `self` to `next` on a key, with `h` rows of
    /// the diff panel visible. While an action is pending, `y` confirms it
    /// and every other key dismisses it.
    pub open spec fn key_moves(self, key: Key, ctrl: bool, h: usize, next: App) -> bool {
        if self.pending is Some {
            if key == Key::Char('y') {
                next == (App { pending: None, ..self })
            } else {
                self.cancelled(next)
            }
        } else if App::quits(key, ctrl) {
            next == (App { should_quit: true, ..self })
        } else {
            match key {
                Key::Tab => next == self.after_cycle_focus(),
                Key::Enter => next == self.after_enter_diff(),
                Key::Esc => next == self.after_exit_diff(),
                Key::Up => next == self.after_up(),
                Key::Down => next == self.after_down(h),
                Key::PageUp => next == self.after_page_up(h / 2),
                Key::PageDown => next == self.after_page_down(h, h / 2),
                Key::Char(c) => if c == 'k' {
                    next == self.after_up()
                } else if c == 'j' {
                    next == self.after_down(h)
                } else if c == '[' && self.focus == Focus::Diff {
                    next == self.after_hunk_up()
                } else if c == ']' && self.focus == Focus::Diff {
                    next == self.after_hunk_down()
                } else if c == 'd' {
                    self.asked(self.discard_action_prompt(), next)
                } else if c == 'D' {
                    self.asked(self.discard_file_action_prompt(), next)
                } else {
                    next == self
                },
                Key::Other => next == self,
            }
        }
    }

    /// What the caller is asked to do after a key.
    pub open spec fn key_step(self, key: Key, ctrl: bool) -> StepView {
        if self.pending is Some {
            if key == Key::Char('y') {
                req_step(self.confirm_req())
            } else {
                StepView::Idle
            }
        } else if App::quits(key, ctrl) {
            StepView::Idle
        } else if key == Key::Char('r') {
            StepView::Reload
        } else if key == Key::Char('s') {
            req_step(self.stage_action_req())
        } else if key == Key::Char('S') {
            req_step(self.stage_file_action_req())
        } else if key == Key::Char('u') {
            req_step(self.unstage_action_req())
        } else if key == Key::Char('U') {
            req_step(self.unstage_file_action_req())
        } else {
            StepView::Idle
        }
    }
}


/// `verb hunk i/n in path` (see [`hunk_status`]).
fn hunk_status_text(verb: &str, idx: usize, n: usize, path: &str) -> (s: String)
    requires
        idx < n,
    ensures
        s@ == hunk_status(verb@, idx as nat, n as nat, path@),
{
    let mut s = owned(verb);
    append_str(&mut s, " hunk ");
    push_decimal(&mut s, idx + 1);
    append_str(&mut s, "/");
    push_decimal(&mut s, n);
    append_str(&mut s, " in ");
    append_str(&mut s, path);
    s
}

fn file_status_text(lead: &str, path: &str) -> (s: String)
    ensures
        s@ == lead@ + path@,
{
    let mut s = owned(lead);
    append_str(&mut s, path);
    s
}

fn git_request(cmd: GitCommand, success_status: String, failure_prefix: &str) -> (r: Request)
    ensures
        r@ == (RequestView {
            effect: EffectView::Git(cmd@),
            success_status: success_status@,
            failure_prefix: failure_prefix@,
        }),
{
    Request { effect: Effect::Git(cmd), success_status, failure_prefix: owned(failure_prefix) }
}

/// Whether the rows of `file`'s diff can be counted in `usize`.
fn file_rows_fit(file: &ChangedFile) -> (b: bool)
    ensures
        b == (file_rows(file@) <= usize::MAX),
{
    let ghost hs = file@.hunks;
    let mut sum: u128 = 0;
    let mut i: usize = 0;
    while i < file.hunks.len()
        invariant
            hs == file@.hunks,
            i <= hs.len(),
            sum == rows_before(hs, i as int),
            sum <= usize::MAX,
        decreases file.hunks.len() - i,
    {
        assert(hs[i as int] == file.hunks@[i as int]@);
        sum = sum + 1 + file.hunks[i].lines.len() as u128;
        i += 1;
        if sum > usize::MAX as u128 {
            proof {
                lemma_rows_before_monotone(hs, i as int, hs.len() as int);
            }
            return false;
        }
    }
    true
}

/// Whether every file's diff rows can be counted in `usize` (see
/// [`rows_fit`]).
pub fn rows_fit_all(files: &Vec<ChangedFile>) -> (b: bool)
    ensures
        b == rows_fit(files@),
{
    let mut i: usize = 0;
    while i < files.len()
        invariant
            i <= files@.len(),
            forall|j: int| 0 <= j < i ==> file_rows(#[trigger] files@[j]@) <= usize::MAX,
        decreases files.len() - i,
    {
        if !file_rows_fit(&files[i]) {
            return false;
        }
        i += 1;
    }
    true
}

impl App {
    /// A fresh state over the given file lists: unstaged list focused and
    /// shown, first entries selected.
    pub fn new(repo_path: PathBuf, staged_files: Vec<ChangedFile>, unstaged_files: Vec<ChangedFile>) -> (a: App)
        ensures
            a == (App {
                staged_files,
                unstaged_files,
                staged_sel: 0,
                unstaged_sel: 0,
                selected_hunk: 0,
                diff_scroll: 0,
                focus: Focus::Unstaged,
                diff_source: DiffSource::Unstaged,
                status: a.status,
                should_quit: false,
                pending: None,
                repo_path,
            }),
            a.status@ == "Tab: cycle panels  q: quit"@,
            a.wf() == (rows_fit(staged_files@) && rows_fit(unstaged_files@)),
    {
        App {
            staged_files,
            unstaged_files,
            staged_sel: 0,
            unstaged_sel: 0,
            selected_hunk: 0,
            diff_scroll: 0,
            focus: Focus::Unstaged,
            diff_source: DiffSource::Unstaged,
            status: owned("Tab: cycle panels  q: quit"),
            should_quit: false,
            pending: None,
            repo_path,
        }
    }

    /// Replaces both file lists, pulls the selections back into them and
    /// returns to the first hunk, scrolled to the top.
    pub fn reload(&mut self, staged: Vec<ChangedFile>, unstaged: Vec<ChangedFile>)
        ensures
            *final(self) == (App {
                staged_sel: clamp(old(self).staged_sel, staged@.len()),
                unstaged_sel: clamp(old(self).unstaged_sel, unstaged@.len()),
                selected_hunk: 0,
                diff_scroll: 0,
                staged_files: staged,
                unstaged_files: unstaged,
                ..*old(self)
            }),
            final(self).wf() == (rows_fit(staged@) && rows_fit(unstaged@)),
    {
        self.staged_files = staged;
        self.unstaged_files = unstaged;
        let sl = self.staged_files.len();
        let ul = self.unstaged_files.len();
        self.staged_sel = if sl == 0 { 0 } else if self.staged_sel < sl { self.staged_sel } else { sl - 1 };
        self.unstaged_sel = if ul == 0 { 0 } else if self.unstaged_sel < ul { self.unstaged_sel } else { ul - 1 };
        self.selected_hunk = 0;
        self.diff_scroll = 0;
    }

    /// Whether the state can take `key` (see [`App::takes_key`]).
    pub fn can_take(&self, key: Key) -> (b: bool)
        ensures
            b == self.takes_key(key),
    {
        let hunk_ok = match self.current_file() {
            Some(f) => self.selected_hunk == 0 || self.selected_hunk - 1 <= f.hunks.len(),
            None => true,
        };
        let gated = self.pending.is_none() && key == Key::Char('[') && self.focus == Focus::Diff;
        rows_fit_all(&self.staged_files) && rows_fit_all(&self.unstaged_files) && (!gated
            || hunk_ok)
    }

    /// The file whose diff is currently shown in the right panel.
    pub fn current_file(&self) -> (r: Option<&ChangedFile>)
        ensures
            match r {
                Some(f) => self.shown() == Some(*f),
                None => self.shown() is None,
            },
    {
        match self.diff_source {
            DiffSource::Staged => if self.staged_sel < self.staged_files.len() {
                Some(&self.staged_files[self.staged_sel])
            } else {
                None
            },
            DiffSource::Unstaged => if self.unstaged_sel < self.unstaged_files.len() {
                Some(&self.unstaged_files[self.unstaged_sel])
            } else {
                None
            },
        }
    }

    // ── Focus / panel cycling ───────────────────────────────────────────

    /// Tab: staged list, unstaged list, diff panel, and round again.
    pub fn cycle_focus(&mut self)
        ensures
            *final(self) == old(self).after_cycle_focus(),
            old(self).wf() ==> final(self).wf(),
    {
        self.focus = match self.focus {
            Focus::Staged => Focus::Unstaged,
            Focus::Unstaged => Focus::Diff,
            Focus::Diff => Focus::Staged,
        };
    }

    /// Enter: show the focused list's file in the diff panel and focus it.
    pub fn enter_diff(&mut self)
        ensures
            *final(self) == old(self).after_enter_diff(),
            old(self).wf() ==> final(self).wf(),
    {
        match self.focus {
            Focus::Staged => {
                self.diff_source = DiffSource::Staged;
                self.selected_hunk = 0;
                self.diff_scroll = 0;
                self.focus = Focus::Diff;
            },
            Focus::Unstaged => {
                self.diff_source = DiffSource::Unstaged;
                self.selected_hunk = 0;
                self.diff_scroll = 0;
                self.focus = Focus::Diff;
            },
            Focus::Diff => {},
        }
    }

    /// Esc: from the diff panel back to the list it shows.
    pub fn exit_diff(&mut self)
        ensures
            *final(self) == old(self).after_exit_diff(),
            old(self).wf() ==> final(self).wf(),
    {
        if self.focus == Focus::Diff {
            self.focus = match self.diff_source {
                DiffSource::Staged => Focus::Staged,
                DiffSource::Unstaged => Focus::Unstaged,
            };
        }
    }

    // ── File-list navigation ────────────────────────────────────────────

    /// Select the previous file of the focused list and show it.
    pub fn file_up(&mut self)
        ensures
            *final(self) == old(self).after_file_up(),
            old(self).wf() ==> final(self).wf(),
    {
        match self.focus {
            Focus::Staged => {
                if self.staged_sel > 0 {
                    self.staged_sel -= 1;
                    self.diff_source = DiffSource::Staged;
                    self.selected_hunk = 0;
                    self.diff_scroll = 0;
                }
            },
            Focus::Unstaged => {
                if self.unstaged_sel > 0 {
                    self.unstaged_sel -= 1;
                    self.diff_source = DiffSource::Unstaged;
                    self.selected_hunk = 0;
                    self.diff_scroll = 0;
                }
            },
            Focus::Diff => {},
        }
    }

    /// Select the next file of the focused list and show it.
    pub fn file_down(&mut self)
        ensures
            *final(self) == old(self).after_file_down(),
            old(self).wf() ==> final(self).wf(),
    {
        match self.focus {
            Focus::Staged => {
                if self.staged_files.len() > 0 && self.staged_sel < self.staged_files.len() - 1 {
                    self.staged_sel += 1;
                    self.diff_source = DiffSource::Staged;
                    self.selected_hunk = 0;
                    self.diff_scroll = 0;
                }
            },
            Focus::Unstaged => {
                if self.unstaged_files.len() > 0 && self.unstaged_sel < self.unstaged_files.len()
                    - 1 {
                    self.unstaged_sel += 1;
                    self.diff_source = DiffSource::Unstaged;
                    self.selected_hunk = 0;
                    self.diff_scroll = 0;
                }
            },
            Focus::Diff => {},
        }
    }

    // ── Hunk / scroll navigation ────────────────────────────────────────

    /// Rows taken by the first `n` hunks of `file`.
    fn rows_of_first(file: &ChangedFile, n: usize) -> (r: usize)
        requires
            n <= file@.hunks.len(),
            file_rows(file@) <= usize::MAX,
        ensures
            r == rows_before(file@.hunks, n as int),
    {
        let ghost hs = file@.hunks;
        let mut sum: usize = 0;
        let mut i: usize = 0;
        while i < n
            invariant
                n <= hs.len(),
                hs == file@.hunks,
                file_rows(file@) <= usize::MAX,
                i <= n,
                sum == rows_before(hs, i as int),
            decreases n - i,
        {
            proof {
                lemma_rows_before_monotone(hs, i + 1, hs.len() as int);
            }
            assert(hs[i as int] == file.hunks@[i as int]@);
            sum = sum + 1 + file.hunks[i].lines.len();
            i += 1;
        }
        sum
    }

    /// Rows of the diff panel's content: a header row and one row per line
    /// for every hunk of the shown file.
    pub fn total_diff_lines(&self) -> (n: usize)
        requires
            self.rows_ok(),
        ensures
            n == self.total_rows(),
    {
        match self.current_file() {
            Some(f) => Self::rows_of_first(f, f.hunks.len()),
            None => 0,
        }
    }

    fn scroll_to_selected_hunk(&mut self)
        requires
            old(self).rows_ok(),
            old(self).hunk_in_range(),
        ensures
            *final(self) == old(self).with_hunk(old(self).selected_hunk),
    {
        let offset = match self.current_file() {
            Some(file) => Some(Self::rows_of_first(file, self.selected_hunk)),
            None => None,
        };
        match offset {
            Some(o) => {
                self.diff_scroll = o;
            },
            None => {},
        }
    }

    /// Select the previous hunk and scroll to it.
    pub fn hunk_up(&mut self)
        requires
            old(self).rows_ok(),
            old(self).hunk_up_ok(),
        ensures
            *final(self) == old(self).after_hunk_up(),
            final(self).wf(),
    {
        if self.selected_hunk > 0 {
            self.selected_hunk -= 1;
            self.scroll_to_selected_hunk();
        }
    }

    /// Select the next hunk and scroll to it.
    pub fn hunk_down(&mut self)
        requires
            old(self).rows_ok(),
        ensures
            *final(self) == old(self).after_hunk_down(),
            final(self).rows_ok(),
            old(self).wf() ==> final(self).wf(),
    {
        let max = match self.current_file() {
            Some(f) => f.hunks.len(),
            None => 0,
        };
        if max > 0 && self.selected_hunk < max - 1 {
            self.selected_hunk += 1;
            self.scroll_to_selected_hunk();
        }
    }

    /// Scroll the diff panel up one row.
    pub fn scroll_up(&mut self)
        ensures
            *final(self) == old(self).after_scroll_up(),
            old(self).wf() ==> final(self).wf(),
    {
        self.diff_scroll = if self.diff_scroll > 0 { self.diff_scroll - 1 } else { 0 };
    }

    /// Scroll the diff panel down one row, with `visible_height` rows shown.
    pub fn scroll_down(&mut self, visible_height: usize)
        requires
            old(self).rows_ok(),
        ensures
            *final(self) == old(self).after_scroll_down(visible_height),
            final(self).rows_ok(),
            old(self).wf() ==> final(self).wf(),
    {
        let total = self.total_diff_lines();
        if total > visible_height && self.diff_scroll < total - visible_height {
            self.diff_scroll += 1;
        }
    }

    // ── Actions ─────────────────────────────────────────────────────────

    fn stage_file_request(&self) -> (r: Option<Request>)
        ensures
            opt_request(r) == self.stage_file_req(),
    {
        if self.unstaged_sel < self.unstaged_files.len() {
            let f = &self.unstaged_files[self.unstaged_sel];
            let status = file_status_text("Staged ", f.path.as_str());
            Some(git_request(stage_file(f.path.as_str()), status, "Stage failed: "))
        } else {
            None
        }
    }

    fn unstage_file_request(&self) -> (r: Option<Request>)
        ensures
            opt_request(r) == self.unstage_file_req(),
    {
        if self.staged_sel < self.staged_files.len() {
            let f = &self.staged_files[self.staged_sel];
            let status = file_status_text("Unstaged ", f.path.as_str());
            Some(git_request(unstage_file(f.path.as_str()), status, "Unstage failed: "))
        } else {
            None
        }
    }

    fn stage_hunk_request(&self) -> (r: Option<Request>)
        ensures
            opt_request(r) == self.stage_hunk_req(),
    {
        if self.unstaged_sel < self.unstaged_files.len() {
            let f = &self.unstaged_files[self.unstaged_sel];
            let idx = self.selected_hunk;
            if idx < f.hunks.len() {
                let status = hunk_status_text("Staged", idx, f.hunks.len(), f.path.as_str());
                return Some(git_request(stage_hunk(f, idx), status, "Stage failed: "));
            }
        }
        None
    }

    fn unstage_hunk_request(&self) -> (r: Option<Request>)
        ensures
            opt_request(r) == self.unstage_hunk_req(),
    {
        if self.staged_sel < self.staged_files.len() {
            let f = &self.staged_files[self.staged_sel];
            let idx = self.selected_hunk;
            if idx < f.hunks.len() {
                let status = hunk_status_text("Unstaged", idx, f.hunks.len(), f.path.as_str());
                return Some(git_request(unstage_hunk(f, idx), status, "Unstage failed: "));
            }
        }
        None
    }

    fn discard_hunk_request(&self) -> (r: Option<Request>)
        ensures
            opt_request(r) == self.discard_hunk_req(),
    {
        if self.unstaged_sel < self.unstaged_files.len() {
            let f = &self.unstaged_files[self.unstaged_sel];
            let idx = self.selected_hunk;
            if idx < f.hunks.len() {
                let status = hunk_status_text("Discarded", idx, f.hunks.len(), f.path.as_str());
                return Some(git_request(discard_hunk(f, idx), status, "Discard failed: "));
            }
        }
        None
    }

    fn discard_file_request(&self) -> (r: Option<Request>)
        ensures
            opt_request(r) == self.discard_file_req(),
    {
        if self.unstaged_sel < self.unstaged_files.len() {
            let f = &self.unstaged_files[self.unstaged_sel];
            if f.kind == FileKind::Untracked {
                let status = file_status_text("Deleted ", f.path.as_str());
                Some(
                    Request {
                        effect: Effect::RemoveFile(owned(f.path.as_str())),
                        success_status: status,
                        failure_prefix: owned("Discard failed: "),
                    },
                )
            } else {
                let status = file_status_text("Discarded all changes in ", f.path.as_str());
                Some(git_request(discard_file(f.path.as_str()), status, "Discard failed: "))
            }
        } else {
            None
        }
    }

    /// `s`: stage the selected hunk (diff panel showing unstaged changes) or
    /// the selected file (unstaged list). Runs at once: never asks first.
    pub fn stage_action(&self) -> (r: Option<Request>)
        ensures
            opt_request(r) == self.stage_action_req(),
    {
        match self.focus {
            Focus::Unstaged => self.stage_file_request(),
            Focus::Diff => if self.diff_source == DiffSource::Unstaged {
                self.stage_hunk_request()
            } else {
                None
            },
            Focus::Staged => None,
        }
    }

    /// `S`: stage the entire selected file (unstaged context only).
    pub fn stage_file_action(&self) -> (r: Option<Request>)
        ensures
            opt_request(r) == self.stage_file_action_req(),
    {
        match self.focus {
            Focus::Unstaged => self.stage_file_request(),
            Focus::Diff => if self.diff_source == DiffSource::Unstaged {
                self.stage_file_request()
            } else {
                None
            },
            Focus::Staged => None,
        }
    }

    /// `u`: unstage the selected hunk (diff panel showing staged changes) or
    /// the selected file (staged list).
    pub fn unstage_action(&self) -> (r: Option<Request>)
        ensures
            opt_request(r) == self.unstage_action_req(),
    {
        match self.focus {
            Focus::Staged => self.unstage_file_request(),
            Focus::Diff => if self.diff_source == DiffSource::Staged {
                self.unstage_hunk_request()
            } else {
                None
            },
            Focus::Unstaged => None,
        }
    }

    /// `U`: unstage the entire selected file (staged context only).
    pub fn unstage_file_action(&self) -> (r: Option<Request>)
        ensures
            opt_request(r) == self.unstage_file_action_req(),
    {
        match self.focus {
            Focus::Staged => self.unstage_file_request(),
            Focus::Diff => if self.diff_source == DiffSource::Staged {
                self.unstage_file_request()
            } else {
                None
            },
            Focus::Unstaged => None,
        }
    }

    // ── Confirmation of destructive actions ─────────────────────────────

    fn request_discard_hunk(&mut self)
        ensures
            old(self).asked(old(self).discard_hunk_prompt(), *final(self)),
    {
        if self.unstaged_sel < self.unstaged_files.len() {
            let f = &self.unstaged_files[self.unstaged_sel];
            let n = f.hunks.len();
            if self.selected_hunk < n {
                let mut first = owned("Discard hunk ");
                push_decimal(&mut first, self.selected_hunk + 1);
                append_str(&mut first, " of ");
                push_decimal(&mut first, n);
                append_str(&mut first, " in");
                let mut lines: Vec<String> = Vec::new();
                lines.push(first);
                lines.push(owned(f.path.as_str()));
                lines.push(String::new());
                lines.push(owned("This cannot be undone."));
                let p = Pending { action: PendingAction::DiscardHunk, title: owned(" Confirm discard "), lines };
                assert(p@.lines =~= self.discard_hunk_prompt().unwrap().lines);
                self.pending = Some(p);
            }
        }
    }

    fn request_discard_file(&mut self)
        ensures
            old(self).asked(old(self).discard_file_prompt(), *final(self)),
    {
        if self.unstaged_sel < self.unstaged_files.len() {
            let f = &self.unstaged_files[self.unstaged_sel];
            let untracked = f.kind == FileKind::Untracked;
            let title = owned(if untracked { " Confirm delete " } else { " Confirm discard " });
            let mut lines: Vec<String> = Vec::new();
            lines.push(owned(if untracked { "Delete untracked file" } else { "Discard all changes in" }));
            lines.push(owned(f.path.as_str()));
            lines.push(String::new());
            lines.push(owned("This cannot be undone."));
            let p = Pending { action: PendingAction::DiscardFile, title, lines };
            assert(p@.lines =~= self.discard_file_prompt().unwrap().lines);
            self.pending = Some(p);
        }
    }

    /// `d`: ask before discarding the selected hunk (diff panel showing
    /// unstaged changes) or the selected file (unstaged list).
    pub fn discard_action(&mut self)
        ensures
            old(self).asked(old(self).discard_action_prompt(), *final(self)),
            old(self).wf() ==> final(self).wf(),
    {
        match self.focus {
            Focus::Unstaged => self.request_discard_file(),
            Focus::Diff => if self.diff_source == DiffSource::Unstaged {
                self.request_discard_hunk()
            },
            Focus::Staged => {},
        }
    }

    /// `D`: ask before discarding the entire selected file (unstaged context
    /// only).
    pub fn discard_file_action(&mut self)
        ensures
            old(self).asked(old(self).discard_file_action_prompt(), *final(self)),
            old(self).wf() ==> final(self).wf(),
    {
        match self.focus {
            Focus::Unstaged => self.request_discard_file(),
            Focus::Diff => if self.diff_source == DiffSource::Unstaged {
                self.request_discard_file()
            },
            Focus::Staged => {},
        }
    }

    /// `y`: take the pending action and hand out the request that runs it.
    pub fn confirm(&mut self) -> (r: Option<Request>)
        ensures
            *final(self) == (App { pending: None, ..*old(self) }),
            opt_request(r) == old(self).confirm_req(),
            old(self).wf() ==> final(self).wf(),
    {
        let r = match &self.pending {
            Some(p) => match p.action {
                PendingAction::DiscardHunk => self.discard_hunk_request(),
                PendingAction::DiscardFile => self.discard_file_request(),
            },
            None => None,
        };
        self.pending = None;
        r
    }

    /// Any other key: dismiss the pending action without running it.
    pub fn cancel(&mut self)
        ensures
            old(self).pending is Some ==> old(self).cancelled(*final(self)),
            old(self).pending is None ==> *final(self) == *old(self),
            old(self).wf() ==> final(self).wf(),
    {
        if self.pending.is_some() {
            self.pending = None;
            self.status = owned("Cancelled");
        }
    }

    /// Reports how a request went: the status line says so, and the result
    /// tells whether the file lists must be reloaded (after a success).
    pub fn finish(&mut self, req: &Request, outcome: Result<(), String>) -> (reload: bool)
        ensures
            *final(self) == (App { status: final(self).status, ..*old(self) }),
            reload == outcome is Ok,
            match outcome {
                Ok(()) => final(self).status@ == req@.success_status,
                Err(e) => final(self).status@ == req@.failure_prefix + e@,
            },
            old(self).wf() ==> final(self).wf(),
    {
        match outcome {
            Ok(()) => {
                self.status = req.success_status.clone();
                true
            },
            Err(e) => {
                let mut s = req.failure_prefix.clone();
                append_str(&mut s, e.as_str());
                self.status = s;
                false
            },
        }
    }

    /// Scroll up `k` rows, stopping at the top.
    fn page_up(&mut self, k: usize)
        ensures
            *final(self) == old(self).after_page_up(k),
    {
        let mut i: usize = 0;
        while i < k
            invariant
                i <= k,
                *self == old(self).after_page_up(i),
            decreases k - i,
        {
            self.scroll_up();
            i += 1;
        }
    }

    /// Scroll down `k` rows with `h` rows visible.
    fn page_down(&mut self, h: usize, k: usize)
        requires
            old(self).rows_ok(),
        ensures
            *final(self) == old(self).after_page_down(h, k),
    {
        let mut i: usize = 0;
        assert(old(self).after_page_down(h, 0) == *old(self));
        while i < k
            invariant
                i <= k,
                *self == old(self).after_page_down(h, i),
                self.rows_ok(),
                self.total_rows() == old(self).total_rows(),
            decreases k - i,
        {
            self.scroll_down(h);
            i += 1;
        }
    }

    /// Handles one key press with `diff_height` rows of the diff panel
    /// visible (see [`App::key_moves`] and [`App::key_step`]).
    pub fn handle_key(&mut self, key: Key, ctrl: bool, diff_height: usize) -> (step: Step)
        requires
            old(self).takes_key(key),
        ensures
            old(self).key_moves(key, ctrl, diff_height, *final(self)),
            step@ == old(self).key_step(key, ctrl),
            final(self).rows_ok(),
            old(self).wf() ==> final(self).wf(),
    {
        if self.pending.is_some() {
            if key == Key::Char('y') {
                return match self.confirm() {
                    Some(r) => Step::Perform(r),
                    None => Step::Idle,
                };
            } else {
                self.cancel();
                return Step::Idle;
            }
        }
        if key == Key::Char('q') || key == Key::Char('Q') || (key == Key::Char('c') && ctrl) {
            self.should_quit = true;
            return Step::Idle;
        }
        let up = key == Key::Up || key == Key::Char('k');
        let down = key == Key::Down || key == Key::Char('j');
        let in_diff = self.focus == Focus::Diff;
        if key == Key::Tab {
            self.cycle_focus();
        } else if key == Key::Enter {
            self.enter_diff();
        } else if key == Key::Esc {
            self.exit_diff();
        } else if up {
            if in_diff {
                self.scroll_up();
            } else {
                self.file_up();
            }
        } else if down {
            if in_diff {
                self.scroll_down(diff_height);
            } else {
                self.file_down();
            }
        } else if key == Key::PageUp {
            self.page_up(diff_height / 2);
        } else if key == Key::PageDown {
            self.page_down(diff_height, diff_height / 2);
        } else if key == Key::Char('[') && in_diff {
            self.hunk_up();
        } else if key == Key::Char(']') && in_diff {
            self.hunk_down();
        } else if key == Key::Char('d') {
            self.discard_action();
        } else if key == Key::Char('D') {
            self.discard_file_action();
        } else if key == Key::Char('r') {
            return Step::Reload;
        } else {
            let r = if key == Key::Char('s') {
                self.stage_action()
            } else if key == Key::Char('S') {
                self.stage_file_action()
            } else if key == Key::Char('u') {
                self.unstage_action()
            } else if key == Key::Char('U') {
                self.unstage_file_action()
            } else {
                None
            };
            return match r {
                Some(r) => Step::Perform(r),
                None => Step::Idle,
            };
        }
        Step::Idle
    }
}

} // verus!
