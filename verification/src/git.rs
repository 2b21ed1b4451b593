//! The changes a repository holds, as parsed from `git diff`, and the git
//! invocations that stage, unstage and discard them.
//!
//! Running git is the caller's business: each operation here yields a
//! [`GitCommand`] (arguments and, for `git apply`, the patch to pipe in).

use vstd::prelude::*;

use crate::text::{append_str, owned, push_char, trim, trimmed};

verus! {

/// How a changed file relates to the index.
#[derive(Debug, Clone, Copy, PartialEq, Eq, Structural)]
pub enum FileKind {
    /// Tracked file with unstaged modifications
    Modified,
    /// New file not yet in the index
    Untracked,
}

/// What one line of a hunk does.
#[derive(Debug, Clone, Copy, PartialEq, Eq, Structural)]
pub enum LineKind {
    Added,
    Removed,
    Context,
    /// The "\ No newline at end of file" marker
    NoNewline,
}

/// One file of a diff.
#[derive(Debug, Clone)]
pub struct ChangedFile {
    pub path: String,
    /// The diff --git ... +++ b/path header lines, joined with \n
    pub header: String,
    pub hunks: Vec<Hunk>,
    pub kind: FileKind,
}

/// One `@@` section of a file's diff.
#[derive(Debug, Clone)]
pub struct Hunk {
    /// The @@ -x,y +a,b @@ ... line
    pub header: String,
    pub lines: Vec<HunkLine>,
    /// First line number in the old file for this hunk
    pub old_start: u32,
    /// First line number in the new file for this hunk
    pub new_start: u32,
}

/// One line of a hunk.
#[derive(Debug, Clone)]
pub struct HunkLine {
    /// Raw line content including the leading +/-/space character
    pub content: String,
    pub kind: LineKind,
}

/// Model of a [`HunkLine`].
pub struct LineView {
    pub content: Seq<char>,
    pub kind: LineKind,
}

/// Model of a [`Hunk`].
pub struct HunkView {
    pub header: Seq<char>,
    pub lines: Seq<LineView>,
    pub old_start: u32,
    pub new_start: u32,
}

/// Model of a [`ChangedFile`].
pub struct FileView {
    pub path: Seq<char>,
    pub header: Seq<char>,
    pub hunks: Seq<HunkView>,
    pub kind: FileKind,
}

impl View for HunkLine {
    type V = LineView;

    open spec fn view(&self) -> LineView {
        LineView { content: self.content@, kind: self.kind }
    }
}

impl View for Hunk {
    type V = HunkView;

    open spec fn view(&self) -> HunkView {
        HunkView {
            header: self.header@,
            lines: self.lines@.map_values(|l: HunkLine| l@),
            old_start: self.old_start,
            new_start: self.new_start,
        }
    }
}

impl View for ChangedFile {
    type V = FileView;

    open spec fn view(&self) -> FileView {
        FileView {
            path: self.path@,
            header: self.header@,
            hunks: self.hunks@.map_values(|h: Hunk| h@),
            kind: self.kind,
        }
    }
}

/// Models of a sequence of files.
pub open spec fn file_views(v: Seq<ChangedFile>) -> Seq<FileView> {
    v.map_values(|f: ChangedFile| f@)
}

/// Number of rows a hunk takes in the diff panel: its header and its lines.
pub open spec fn hunk_rows(h: HunkView) -> nat {
    1 + h.lines.len()
}

/// Rows taken by the first `n` hunks of `hs`.
pub open spec fn rows_before(hs: Seq<HunkView>, n: int) -> nat
    decreases n,
{
    if n <= 0 || hs.len() == 0 {
        0
    } else if n > hs.len() {
        rows_before(hs, hs.len() as int)
    } else {
        rows_before(hs, n - 1) + hunk_rows(hs[n - 1])
    }
}

/// Rows taken by every hunk of a file.
pub open spec fn file_rows(f: FileView) -> nat {
    rows_before(f.hunks, f.hunks.len() as int)
}

/// `rows_before` grows with `n`.
pub proof fn lemma_rows_before_monotone(hs: Seq<HunkView>, a: int, b: int)
    requires
        0 <= a <= b <= hs.len(),
    ensures
        rows_before(hs, a) <= rows_before(hs, b),
    decreases b,
{
    if a < b {
        lemma_rows_before_monotone(hs, a, b - 1);
    }
}

/// A diff takes at least one row per hunk.
pub proof fn lemma_rows_at_least_hunks(hs: Seq<HunkView>, n: int)
    requires
        0 <= n <= hs.len(),
    ensures
        rows_before(hs, n) >= n,
    decreases n,
{
    if n > 0 {
        lemma_rows_at_least_hunks(hs, n - 1);
    }
}

// ───────────────────────── patches ─────────────────────────

/// The lines of a hunk, each followed by a newline.
pub open spec fn body_text(ls: Seq<LineView>) -> Seq<char>
    decreases ls.len(),
{
    if ls.len() == 0 {
        seq![]
    } else {
        body_text(ls.drop_last()) + ls.last().content.push('\n')
    }
}

/// The patch that holds hunk `i` of `f` alone: the file header, the hunk
/// header and the hunk's lines, each followed by a newline.
pub open spec fn patch_text(f: FileView, i: int) -> Seq<char> {
    f.header.push('\n') + f.hunks[i].header.push('\n') + body_text(f.hunks[i].lines)
}

/// Builds the patch for hunk `hunk_idx` of `file` alone.
pub fn build_patch(file: &ChangedFile, hunk_idx: usize) -> (out: String)
    requires
        hunk_idx < file.hunks@.len(),
    ensures
        out@ == patch_text(file@, hunk_idx as int),
{
    let hunk = &file.hunks[hunk_idx];
    let mut out = String::new();
    append_str(&mut out, file.header.as_str());
    push_char(&mut out, '\n');
    append_str(&mut out, hunk.header.as_str());
    push_char(&mut out, '\n');
    let ghost pre = out@;
    let ghost ls = hunk@.lines;
    let mut i: usize = 0;
    while i < hunk.lines.len()
        invariant
            i <= hunk.lines@.len(),
            ls == hunk.lines@.map_values(|l: HunkLine| l@),
            out@ == pre + body_text(ls.take(i as int)),
        decreases hunk.lines.len() - i,
    {
        append_str(&mut out, hunk.lines[i].content.as_str());
        push_char(&mut out, '\n');
        i += 1;
        assert(ls.take(i as int).drop_last() =~= ls.take(i - 1));
        assert(out@ =~= pre + body_text(ls.take(i as int)));
    }
    assert(ls.take(hunk.lines.len() as int) =~= ls);
    assert(file@.hunks[hunk_idx as int] == hunk@);
    assert(pre =~= file.header@.push('\n') + hunk.header@.push('\n'));
    out
}

// ───────────────────────── commands ─────────────────────────

/// A git invocation: `git <args>` in the repository, with `input` piped to
/// its standard input when there is one.
#[derive(Debug, Clone)]
pub struct GitCommand {
    pub args: Vec<String>,
    pub input: Option<String>,
}

/// Model of a [`GitCommand`].
pub struct CommandView {
    pub args: Seq<Seq<char>>,
    pub input: Option<Seq<char>>,
}

impl View for GitCommand {
    type V = CommandView;

    open spec fn view(&self) -> CommandView {
        CommandView {
            args: self.args@.map_values(|a: String| a@),
            input: match self.input {
                Some(s) => Some(s@),
                None => None,
            },
        }
    }
}

fn command(args: Vec<String>, input: Option<String>) -> (c: GitCommand)
    ensures
        c.args == args,
        c.input == input,
{
    GitCommand { args, input }
}

/// `git apply` with the given options, reading `patch` from standard input.
fn apply_command(patch: String, cached: bool, reverse: bool) -> (c: GitCommand)
    ensures
        c@ == apply_spec(patch@, cached, reverse),
{
    let mut args: Vec<String> = Vec::new();
    args.push(owned("apply"));
    if cached {
        args.push(owned("--cached"));
    }
    if reverse {
        args.push(owned("--reverse"));
    }
    let c = command(args, Some(patch));
    assert(c@.args =~= seq!["apply"@] + (if cached { seq!["--cached"@] } else { seq![] }) + (
    if reverse {
        seq!["--reverse"@]
    } else {
        seq![]
    }));
    c
}

/// `git apply` with `--cached` and/or `--reverse`, reading `patch`.
pub open spec fn apply_spec(patch: Seq<char>, cached: bool, reverse: bool) -> CommandView {
    CommandView {
        args: seq!["apply"@] + (if cached {
            seq!["--cached"@]
        } else {
            seq![]
        }) + (if reverse {
            seq!["--reverse"@]
        } else {
            seq![]
        }),
        input: Some(patch),
    }
}

/// `git <lead...> -- <path>`, with nothing on standard input.
pub open spec fn path_spec(lead: Seq<Seq<char>>, path: Seq<char>) -> CommandView {
    CommandView { args: lead + seq!["--"@, path], input: None }
}

/// The command that stages hunk `i` of `f`.
pub open spec fn stage_hunk_spec(f: FileView, i: int) -> CommandView {
    apply_spec(patch_text(f, i), true, false)
}

/// The command that unstages hunk `i` of `f`.
pub open spec fn unstage_hunk_spec(f: FileView, i: int) -> CommandView {
    apply_spec(patch_text(f, i), true, true)
}

/// The command that discards hunk `i` of `f` from the work tree.
pub open spec fn discard_hunk_spec(f: FileView, i: int) -> CommandView {
    apply_spec(patch_text(f, i), false, true)
}

/// The command that stages the file at `path`.
pub open spec fn stage_file_spec(path: Seq<char>) -> CommandView {
    path_spec(seq!["add"@], path)
}

/// The command that unstages the file at `path`.
pub open spec fn unstage_file_spec(path: Seq<char>) -> CommandView {
    path_spec(seq!["reset"@, "HEAD"@], path)
}

/// The command that restores the file at `path` from HEAD.
pub open spec fn discard_file_spec(path: Seq<char>) -> CommandView {
    path_spec(seq!["checkout"@, "HEAD"@], path)
}

/// Stage a single hunk: pipe its patch to `git apply --cached`.
pub fn stage_hunk(file: &ChangedFile, hunk_idx: usize) -> (c: GitCommand)
    requires
        hunk_idx < file.hunks@.len(),
    ensures
        c@ == stage_hunk_spec(file@, hunk_idx as int),
{
    apply_command(build_patch(file, hunk_idx), true, false)
}

/// Unstage a single hunk: reverse it in the index with
/// `git apply --cached --reverse`.
pub fn unstage_hunk(file: &ChangedFile, hunk_idx: usize) -> (c: GitCommand)
    requires
        hunk_idx < file.hunks@.len(),
    ensures
        c@ == unstage_hunk_spec(file@, hunk_idx as int),
{
    apply_command(build_patch(file, hunk_idx), true, true)
}

/// Discard a single hunk from the work tree: `git apply --reverse`.
pub fn discard_hunk(file: &ChangedFile, hunk_idx: usize) -> (c: GitCommand)
    requires
        hunk_idx < file.hunks@.len(),
    ensures
        c@ == discard_hunk_spec(file@, hunk_idx as int),
{
    apply_command(build_patch(file, hunk_idx), false, true)
}

/// A command that takes the path as its last argument, after `--`.
fn path_command(lead: Vec<String>, path: &str) -> (c: GitCommand)
    ensures
        c@ == path_spec(lead@.map_values(|a: String| a@), path@),
{
    let mut args = lead;
    let ghost l = args@.map_values(|a: String| a@);
    args.push(owned("--"));
    args.push(owned(path));
    let c = command(args, None);
    assert(c@.args =~= l + seq!["--"@, path@]);
    c
}

/// Stage an entire file: `git add -- <path>`.
pub fn stage_file(path: &str) -> (c: GitCommand)
    ensures
        c@ == stage_file_spec(path@),
{
    let mut lead: Vec<String> = Vec::new();
    lead.push(owned("add"));
    assert(lead@.map_values(|a: String| a@) =~= seq!["add"@]);
    path_command(lead, path)
}

/// Unstage an entire file: `git reset HEAD -- <path>`.
pub fn unstage_file(path: &str) -> (c: GitCommand)
    ensures
        c@ == unstage_file_spec(path@),
{
    let mut lead: Vec<String> = Vec::new();
    lead.push(owned("reset"));
    lead.push(owned("HEAD"));
    assert(lead@.map_values(|a: String| a@) =~= seq!["reset"@, "HEAD"@]);
    path_command(lead, path)
}

/// Discard all changes to a file, restoring it from HEAD:
/// `git checkout HEAD -- <path>`.
pub fn discard_file(path: &str) -> (c: GitCommand)
    ensures
        c@ == discard_file_spec(path@),
{
    let mut lead: Vec<String> = Vec::new();
    lead.push(owned("checkout"));
    lead.push(owned("HEAD"));
    assert(lead@.map_values(|a: String| a@) =~= seq!["checkout"@, "HEAD"@]);
    path_command(lead, path)
}

/// The unstaged changes of tracked files: `git diff`.
pub fn diff_command() -> (c: GitCommand)
    ensures
        c@ == (CommandView { args: seq!["diff"@], input: None }),
{
    let mut args: Vec<String> = Vec::new();
    args.push(owned("diff"));
    let c = command(args, None);
    assert(c@.args =~= seq!["diff"@]);
    c
}

/// The staged changes (index against HEAD): `git diff --cached`.
pub fn staged_diff_command() -> (c: GitCommand)
    ensures
        c@ == (CommandView { args: seq!["diff"@, "--cached"@], input: None }),
{
    let mut args: Vec<String> = Vec::new();
    args.push(owned("diff"));
    args.push(owned("--cached"));
    let c = command(args, None);
    assert(c@.args =~= seq!["diff"@, "--cached"@]);
    c
}

/// The untracked files, one path per line:
/// `git ls-files --others --exclude-standard`.
pub fn untracked_list_command() -> (c: GitCommand)
    ensures
        c@ == (CommandView {
            args: seq!["ls-files"@, "--others"@, "--exclude-standard"@],
            input: None,
        }),
{
    let mut args: Vec<String> = Vec::new();
    args.push(owned("ls-files"));
    args.push(owned("--others"));
    args.push(owned("--exclude-standard"));
    let c = command(args, None);
    assert(c@.args =~= seq!["ls-files"@, "--others"@, "--exclude-standard"@]);
    c
}

/// The whole content of an untracked file as additions:
/// `git diff --no-index -- /dev/null <path>`.
pub fn untracked_diff_command(path: &str) -> (c: GitCommand)
    ensures
        c@ == (CommandView {
            args: seq!["diff"@, "--no-index"@, "--"@, "/dev/null"@, path@],
            input: None,
        }),
{
    let mut args: Vec<String> = Vec::new();
    args.push(owned("diff"));
    args.push(owned("--no-index"));
    args.push(owned("--"));
    args.push(owned("/dev/null"));
    args.push(owned(path));
    let c = command(args, None);
    assert(c@.args =~= seq!["diff"@, "--no-index"@, "--"@, "/dev/null"@, path@]);
    c
}

/// The error text of a git command that exited with failure:
/// `git <subcommand> failed: <standard error, trimmed>`.
pub open spec fn failure_text(sub: Seq<char>, stderr: Seq<char>) -> Seq<char> {
    "git "@ + sub + " failed: "@ + trim(stderr)
}

/// The error text for a command that exited with failure (see [`failure_text`]).
pub fn command_failure(cmd: &GitCommand, stderr: &str) -> (msg: String)
    requires
        cmd.args@.len() > 0,
    ensures
        msg@ == failure_text(cmd@.args[0], stderr@),
{
    let mut msg = owned("git ");
    append_str(&mut msg, cmd.args[0].as_str());
    append_str(&mut msg, " failed: ");
    let t = trimmed(stderr);
    append_str(&mut msg, t.as_str());
    msg
}

/// The error text when an untracked file cannot be removed.
pub fn delete_failure(path: &str) -> (msg: String)
    ensures
        msg@ == "Failed to delete "@ + path@,
{
    let mut msg = owned("Failed to delete ");
    append_str(&mut msg, path);
    msg
}

} // verus!
