//! What the screen shows, computed from the state: dialog geometry, titles,
//! labels, line numbers, the visible window of the diff and the help line.
//! Drawing it is the caller's business.

use ratatui::layout::{Constraint, Layout, Rect};
use vstd::prelude::*;
use vstd::utf8::encode_utf8;

use crate::app::{DiffSource, Focus};
use crate::git::{ChangedFile, FileKind, FileView, HunkView, LineKind, LineView, Hunk};
use crate::text::{
    append_str, chars_of, dec, owned, push_char, push_decimal, starts_with, string_from_chars,
};

verus! {

/// A rectangle of terminal cells.
#[derive(Debug, Clone, Copy, PartialEq, Eq, Structural)]
pub struct Area {
    pub x: u16,
    pub y: u16,
    pub width: u16,
    pub height: u16,
}

/// How much room one part of a split asks for.
#[derive(Debug, Clone, Copy, PartialEq, Eq, Structural)]
pub enum Extent {
    /// At least this many cells
    Min(u16),
    /// Exactly this many cells
    Length(u16),
    /// This share of the whole, in percent
    Percentage(u16),
}

/// `inner` lies within `outer` on both axes.
pub open spec fn within(inner: Area, outer: Area) -> bool {
    &&& outer.x <= inner.x
    &&& inner.x + inner.width <= outer.x + outer.width
    &&& outer.y <= inner.y
    &&& inner.y + inner.height <= outer.y + outer.height
}

/// What holds of every way the layout solver may cut `area`: one part per
/// extent, each inside `area`, and each spanning `area` across the split
/// (its whole width for a vertical split, its whole height otherwise).
pub open spec fn split_holds(vertical: bool, n: nat, area: Area, parts: Seq<Area>) -> bool {
    &&& parts.len() == n
    &&& forall|k: int| 0 <= k < parts.len() ==> within(#[trigger] parts[k], area)
    &&& forall|k: int| 0 <= k < parts.len() ==> if vertical {
            (#[trigger] parts[k]).x == area.x && parts[k].width == area.width
        } else {
            (#[trigger] parts[k]).y == area.y && parts[k].height == area.height
        }
}

/// Splits `area` with ratatui's `Layout::split` (default margin, spacing
/// and flex). The contract claims what the layout source shows of every
/// outcome: one part per constraint; across the split each part takes the
/// area's position and size; along it each part's start and end are
/// solver variables held inside the area by required constraints. Where
/// along the split each part lies, and in which order, is left unsaid: the
/// solver's optimum need not be unique, and which one it returns can follow
/// the iteration order of its hash maps.
#[verifier::external_body]
fn layout_split(vertical: bool, extents: &[Extent], area: Area) -> (parts: Vec<Area>)
    ensures
        split_holds(vertical, extents@.len(), area, parts@),
{
    let mut constraints: Vec<Constraint> = Vec::new();
    for e in extents {
        constraints.push(match *e {
            Extent::Min(n) => Constraint::Min(n),
            Extent::Length(n) => Constraint::Length(n),
            Extent::Percentage(n) => Constraint::Percentage(n),
        });
    }
    let rect = Rect { x: area.x, y: area.y, width: area.width, height: area.height };
    let layout = if vertical { Layout::vertical(constraints) } else { Layout::horizontal(constraints) };
    layout.split(rect).iter().map(|r| Area { x: r.x, y: r.y, width: r.width, height: r.height }).collect()
}

/// Where each part of the screen goes.
#[derive(Debug, Clone, Copy, PartialEq, Eq, Structural)]
pub struct Screen {
    pub unstaged: Area,
    pub staged: Area,
    pub diff: Area,
    pub status: Area,
    pub help: Area,
}

/// What holds of the screen's parts however the solver places them: every
/// part lies on the screen; the status and help rows span its width; the
/// two file lists share a column; and the file lists lie within the rows of
/// the diff panel.
pub open spec fn screen_holds(area: Area, s: Screen) -> bool {
    &&& within(s.unstaged, area)
    &&& within(s.staged, area)
    &&& within(s.diff, area)
    &&& within(s.status, area)
    &&& within(s.help, area)
    &&& s.status.x == area.x && s.status.width == area.width
    &&& s.help.x == area.x && s.help.width == area.width
    &&& s.unstaged.x == s.staged.x && s.unstaged.width == s.staged.width
    &&& s.diff.y <= s.unstaged.y && s.unstaged.y + s.unstaged.height <= s.diff.y + s.diff.height
    &&& s.diff.y <= s.staged.y && s.staged.y + s.staged.height <= s.diff.y + s.diff.height
}

/// Lays out the screen: a two-row footer (status, then help) under the
/// panels; the panels split 28/72 between the file lists and the diff; the
/// file lists split 60/40 between unstaged (top) and staged.
pub fn screen_layout(area: Area) -> (s: Screen)
    ensures
        screen_holds(area, s),
{
    let outer = layout_split(true, &[Extent::Min(0), Extent::Length(2)], area);
    let main = layout_split(false, &[Extent::Percentage(28), Extent::Percentage(72)], outer[0]);
    let left = layout_split(true, &[Extent::Percentage(60), Extent::Percentage(40)], main[0]);
    let footer = layout_split(true, &[Extent::Length(1), Extent::Length(1)], outer[1]);
    assert(within(outer@[0], area) && within(outer@[1], area));
    assert(within(main@[0], outer@[0]) && within(main@[1], outer@[0]));
    assert(within(left@[0], main@[0]) && within(left@[1], main@[0]));
    assert(within(footer@[0], outer@[1]) && within(footer@[1], outer@[1]));
    Screen { unstaged: left[0], staged: left[1], diff: main[1], status: footer[0], help: footer[1] }
}

/// The smaller of two numbers.
pub open spec fn min_u16(a: u16, b: u16) -> u16 {
    if a < b {
        a
    } else {
        b
    }
}

/// A `width` x `height` box centred in `area`, shrunk to fit it.
pub open spec fn centered(width: u16, height: u16, area: Area) -> Area {
    let w = min_u16(width, area.width);
    let h = min_u16(height, area.height);
    Area {
        x: (area.x + (area.width - w) / 2) as u16,
        y: (area.y + (area.height - h) / 2) as u16,
        width: w,
        height: h,
    }
}

/// The centred box's corner lies on the screen's coordinate range.
pub open spec fn centered_fits(width: u16, height: u16, area: Area) -> bool {
    &&& area.x + (area.width - min_u16(width, area.width)) / 2 <= u16::MAX
    &&& area.y + (area.height - min_u16(height, area.height)) / 2 <= u16::MAX
}

/// Centre a `width` x `height` box inside `area`, shrinking to fit if needed.
pub fn centered_rect(width: u16, height: u16, area: Area) -> (r: Area)
    requires
        centered_fits(width, height, area),
    ensures
        r == centered(width, height, area),
{
    let w = if width < area.width { width } else { area.width };
    let h = if height < area.height { height } else { area.height };
    Area { x: area.x + (area.width - w) / 2, y: area.y + (area.height - h) / 2, width: w, height: h }
}

/// Byte length of the UTF-8 encoding of `s` (`str::len`).
pub open spec fn byte_len(s: Seq<char>) -> nat {
    encode_utf8(s).len()
}

/// The largest byte length among `ls`, 0 for none.
pub open spec fn widest(ls: Seq<Seq<char>>) -> nat
    decreases ls.len(),
{
    if ls.len() == 0 {
        0
    } else {
        let w = widest(ls.drop_last());
        if byte_len(ls.last()) > w {
            byte_len(ls.last())
        } else {
            w
        }
    }
}

/// Width and height of the confirmation dialog for message `lines`: the
/// widest line (at least 34) plus borders and padding, and the lines plus a
/// blank line, the key hints and the borders; each taken modulo 2^16 as a
/// cell count.
pub open spec fn dialog_size(ls: Seq<Seq<char>>) -> (u16, u16) {
    let w = if widest(ls) > 34 {
        widest(ls)
    } else {
        34
    };
    ((w + 6) as u16, (ls.len() + 4) as u16)
}

/// The dialog dimensions can be counted in `usize`.
pub open spec fn dialog_fits(ls: Seq<Seq<char>>) -> bool {
    widest(ls) + 6 <= usize::MAX && ls.len() + 4 <= usize::MAX
}

/// Size of the confirmation dialog (see [`dialog_size`]).
pub fn confirm_dialog_size(lines: &Vec<String>) -> (r: (u16, u16))
    requires
        dialog_fits(lines@.map_values(|l: String| l@)),
    ensures
        r == dialog_size(lines@.map_values(|l: String| l@)),
{
    let ghost ls = lines@.map_values(|l: String| l@);
    let mut widest_len: usize = 0;
    let mut i: usize = 0;
    assert(ls.take(0) =~= Seq::<Seq<char>>::empty());
    while i < lines.len()
        invariant
            i <= lines@.len(),
            ls == lines@.map_values(|l: String| l@),
            dialog_fits(ls),
            widest_len == widest(ls.take(i as int)),
        decreases lines.len() - i,
    {
        assert(ls.take(i + 1).drop_last() =~= ls.take(i as int));
        proof {
            lemma_widest_prefix(ls, i + 1);
        }
        let n = lines[i].as_str().len();
        if n > widest_len {
            widest_len = n;
        }
        i += 1;
    }
    assert(ls.take(lines.len() as int) =~= ls);
    let w = if widest_len > 34 { widest_len } else { 34 };
    ((w + 6) as u16, (lines.len() + 4) as u16)
}

/// The widest of a prefix is at most the widest of the whole.
proof fn lemma_widest_prefix(ls: Seq<Seq<char>>, k: int)
    requires
        0 <= k <= ls.len(),
    ensures
        widest(ls.take(k)) <= widest(ls),
    decreases ls.len(),
{
    if k < ls.len() {
        lemma_widest_prefix(ls.drop_last(), k);
        assert(ls.drop_last().take(k) =~= ls.take(k));
    } else {
        assert(ls.take(k) =~= ls);
    }
}

// ───────────────────────── diff panel ─────────────────────────

/// The old and new line counters before line `k` of `h`: they start at the
/// hunk's start lines, removed lines advance the old counter, added lines
/// the new one, context lines both.
pub open spec fn counters(h: HunkView, k: int) -> (int, int)
    decreases k,
{
    if k <= 0 {
        (h.old_start as int, h.new_start as int)
    } else {
        let c = counters(h, k - 1);
        match h.lines[k - 1].kind {
            LineKind::Added => (c.0, c.1 + 1),
            LineKind::Removed => (c.0 + 1, c.1),
            LineKind::Context => (c.0 + 1, c.1 + 1),
            LineKind::NoNewline => c,
        }
    }
}

/// The old and new line numbers shown beside line `k` of `h`.
pub open spec fn line_number(h: HunkView, k: int) -> (Option<u32>, Option<u32>) {
    let c = counters(h, k);
    match h.lines[k].kind {
        LineKind::Added => (None, Some(c.1 as u32)),
        LineKind::Removed => (Some(c.0 as u32), None),
        LineKind::Context => (Some(c.0 as u32), Some(c.1 as u32)),
        LineKind::NoNewline => (None, None),
    }
}

/// Both counters stay within `u32` to the end of the hunk.
pub open spec fn numbers_fit(h: HunkView) -> bool {
    counters(h, h.lines.len() as int).0 <= u32::MAX && counters(h, h.lines.len() as int).1
        <= u32::MAX
}

proof fn lemma_counters_monotone(h: HunkView, k: int, m: int)
    requires
        0 <= k <= m <= h.lines.len(),
    ensures
        counters(h, k).0 <= counters(h, m).0,
        counters(h, k).1 <= counters(h, m).1,
    decreases m,
{
    if k < m {
        lemma_counters_monotone(h, k, m - 1);
    }
}

/// Whether the line numbers of `h` fit in `u32` (see [`numbers_fit`]).
pub fn numbering_fits(h: &Hunk) -> (b: bool)
    ensures
        b == numbers_fit(h@),
{
    let ghost hv = h@;
    let mut o: u64 = h.old_start as u64;
    let mut n: u64 = h.new_start as u64;
    let mut i: usize = 0;
    while i < h.lines.len()
        invariant
            hv == h@,
            i <= hv.lines.len(),
            o == counters(hv, i as int).0,
            n == counters(hv, i as int).1,
            o <= u32::MAX,
            n <= u32::MAX,
        decreases h.lines.len() - i,
    {
        assert(hv.lines[i as int] == h.lines@[i as int]@);
        match h.lines[i].kind {
            LineKind::Added => {
                n = n + 1;
            },
            LineKind::Removed => {
                o = o + 1;
            },
            LineKind::Context => {
                o = o + 1;
                n = n + 1;
            },
            LineKind::NoNewline => {},
        }
        i += 1;
        if o > 0xffff_ffff || n > 0xffff_ffff {
            proof {
                lemma_counters_monotone(hv, i as int, hv.lines.len() as int);
            }
            return false;
        }
    }
    true
}

/// The old and new line numbers beside each line of `h`.
pub fn line_numbers(h: &Hunk) -> (r: Vec<(Option<u32>, Option<u32>)>)
    requires
        numbers_fit(h@),
    ensures
        r@.len() == h@.lines.len(),
        forall|k: int| 0 <= k < r@.len() ==> #[trigger] r@[k] == line_number(h@, k),
{
    let ghost hv = h@;
    let mut r: Vec<(Option<u32>, Option<u32>)> = Vec::new();
    let mut o: u32 = h.old_start;
    let mut n: u32 = h.new_start;
    let mut i: usize = 0;
    while i < h.lines.len()
        invariant
            hv == h@,
            numbers_fit(hv),
            i <= hv.lines.len(),
            o == counters(hv, i as int).0,
            n == counters(hv, i as int).1,
            r@.len() == i,
            forall|k: int| 0 <= k < i ==> #[trigger] r@[k] == line_number(hv, k),
        decreases h.lines.len() - i,
    {
        proof {
            lemma_counters_monotone(hv, i + 1, hv.lines.len() as int);
        }
        assert(hv.lines[i as int] == h.lines@[i as int]@);
        let pair = match h.lines[i].kind {
            LineKind::Added => {
                let v = n;
                n = n + 1;
                (None, Some(v))
            },
            LineKind::Removed => {
                let v = o;
                o = o + 1;
                (Some(v), None)
            },
            LineKind::Context => {
                let (a, b) = (o, n);
                o = o + 1;
                n = n + 1;
                (Some(a), Some(b))
            },
            LineKind::NoNewline => (None, None),
        };
        r.push(pair);
        i += 1;
    }
    r
}

/// A hunk line without its leading `+`, `-` or space: the text from its
/// second byte on when the first character is one byte long, the whole line
/// otherwise (`str::get(1..)` or the line itself).
pub open spec fn shown_text(c: Seq<char>) -> Seq<char> {
    if c.len() > 0 && (c[0] as u32) < 0x80 {
        c.drop_first()
    } else {
        c
    }
}

/// The text of a hunk line as the diff panel shows it (see [`shown_text`]).
pub fn line_text(content: &str) -> (t: String)
    ensures
        t@ == shown_text(content@),
{
    let cs = chars_of(content);
    if cs.len() > 0 && (cs[0] as u32) < 0x80 {
        string_from_chars(&cs.as_slice()[1..cs.len()])
    } else {
        string_from_chars(cs.as_slice())
    }
}

/// The sign shown before a hunk line.
pub fn line_sign(kind: LineKind) -> (s: &'static str)
    ensures
        s@ == match kind {
            LineKind::Added => "+"@,
            LineKind::Removed => "-"@,
            _ => " "@,
        },
{
    match kind {
        LineKind::Added => "+",
        LineKind::Removed => "-",
        _ => " ",
    }
}

// ───────────────────────── rows of the panels ─────────────────────────

/// One row of the diff panel.
#[derive(Debug, Clone)]
pub enum DiffRow {
    /// A hunk's `@@` header, and whether that hunk is the selected one.
    Header { text: String, selected: bool },
    /// A line of a hunk: its old and new line numbers, kind, text without
    /// the sign, and whether its hunk is the selected one.
    Line {
        old: Option<u32>,
        new: Option<u32>,
        kind: LineKind,
        text: String,
        selected: bool,
    },
}

/// Model of a [`DiffRow`].
pub enum DiffRowView {
    Header { text: Seq<char>, selected: bool },
    Line { old: Option<u32>, new: Option<u32>, kind: LineKind, text: Seq<char>, selected: bool },
}

impl View for DiffRow {
    type V = DiffRowView;

    open spec fn view(&self) -> DiffRowView {
        match self {
            DiffRow::Header { text, selected } => DiffRowView::Header {
                text: text@,
                selected: *selected,
            },
            DiffRow::Line { old, new, kind, text, selected } => DiffRowView::Line {
                old: *old,
                new: *new,
                kind: *kind,
                text: text@,
                selected: *selected,
            },
        }
    }
}

/// The rows of one hunk: its header, then one row per line.
pub open spec fn hunk_row_views(h: HunkView, selected: bool) -> Seq<DiffRowView> {
    seq![DiffRowView::Header { text: h.header, selected }] + Seq::new(
        h.lines.len(),
        |k: int|
            DiffRowView::Line {
                old: line_number(h, k).0,
                new: line_number(h, k).1,
                kind: h.lines[k].kind,
                text: shown_text(h.lines[k].content),
                selected,
            },
    )
}

/// The rows of the first `n` hunks of `hs`, with hunk `sel` selected.
pub open spec fn diff_row_views(hs: Seq<HunkView>, sel: nat, n: int) -> Seq<DiffRowView>
    decreases n,
{
    if n <= 0 || hs.len() == 0 {
        seq![]
    } else if n > hs.len() {
        diff_row_views(hs, sel, hs.len() as int)
    } else {
        diff_row_views(hs, sel, n - 1) + hunk_row_views(hs[n - 1], n - 1 == sel)
    }
}

/// Every hunk of `f` numbers its lines within `u32`.
pub open spec fn all_numbers_fit(f: FileView) -> bool {
    forall|j: int| 0 <= j < f.hunks.len() ==> numbers_fit(#[trigger] f.hunks[j])
}

/// Whether every hunk of `file` numbers its lines within `u32`.
pub fn file_numbering_fits(file: &ChangedFile) -> (b: bool)
    ensures
        b == all_numbers_fit(file@),
{
    let mut j: usize = 0;
    while j < file.hunks.len()
        invariant
            j <= file@.hunks.len(),
            forall|i: int| 0 <= i < j ==> numbers_fit(#[trigger] file@.hunks[i]),
        decreases file.hunks.len() - j,
    {
        assert(file@.hunks[j as int] == file.hunks@[j as int]@);
        if !numbering_fits(&file.hunks[j]) {
            return false;
        }
        j += 1;
    }
    true
}

/// The rows the diff panel shows for `file` with hunk `selected_hunk`
/// selected (see [`diff_row_views`]).
pub fn diff_rows(file: &ChangedFile, selected_hunk: usize) -> (rows: Vec<DiffRow>)
    requires
        all_numbers_fit(file@),
    ensures
        rows@.map_values(|r: DiffRow| r@) == diff_row_views(
            file@.hunks,
            selected_hunk as nat,
            file@.hunks.len() as int,
        ),
{
    let ghost hs = file@.hunks;
    let mut rows: Vec<DiffRow> = Vec::new();
    let mut j: usize = 0;
    assert(rows@.map_values(|r: DiffRow| r@) =~= Seq::<DiffRowView>::empty());
    while j < file.hunks.len()
        invariant
            hs == file@.hunks,
            all_numbers_fit(file@),
            j <= hs.len(),
            rows@.map_values(|r: DiffRow| r@) == diff_row_views(hs, selected_hunk as nat, j as int),
        decreases file.hunks.len() - j,
    {
        let h = &file.hunks[j];
        assert(hs[j as int] == h@);
        let selected = j == selected_hunk;
        let ghost start = rows@.map_values(|r: DiffRow| r@);
        rows.push(DiffRow::Header { text: h.header.clone(), selected });
        assert(rows@.map_values(|r: DiffRow| r@) =~= start.push(
            DiffRowView::Header { text: h@.header, selected },
        ));
        assert(numbers_fit(hs[j as int]));
        let numbers = line_numbers(h);
        let ghost want = hunk_row_views(h@, selected);
        let mut k: usize = 0;
        while k < h.lines.len()
            invariant
                k <= h@.lines.len(),
                numbers@.len() == h@.lines.len(),
                forall|m: int| 0 <= m < numbers@.len() ==> #[trigger] numbers@[m] == line_number(h@, m),
                want == hunk_row_views(h@, selected),
                rows@.map_values(|r: DiffRow| r@) == start + want.take(k + 1),
            decreases h.lines.len() - k,
        {
            let ghost before = rows@.map_values(|r: DiffRow| r@);
            let (old, new) = numbers[k];
            assert(h@.lines[k as int] == h.lines@[k as int]@);
            let row = DiffRow::Line {
                old,
                new,
                kind: h.lines[k].kind,
                text: line_text(h.lines[k].content.as_str()),
                selected,
            };
            rows.push(row);
            assert(want[k + 1] == row@);
            assert(start + want.take(k + 2) =~= (start + want.take(k + 1)).push(want[k + 1]));
            assert(rows@.map_values(|r: DiffRow| r@) =~= before.push(row@));
            k += 1;
        }
        assert(want.take(h@.lines.len() + 1int) =~= want);
        j += 1;
    }
    rows
}

/// One row of a file list.
#[derive(Debug, Clone)]
pub enum PanelRow {
    /// The row that opens the untracked files.
    Separator,
    /// A file: its kind, path and number of hunks.
    File { kind: FileKind, path: String, hunks: usize },
}

/// Model of a [`PanelRow`].
pub enum PanelRowView {
    Separator,
    File { kind: FileKind, path: Seq<char>, hunks: nat },
}

impl View for PanelRow {
    type V = PanelRowView;

    open spec fn view(&self) -> PanelRowView {
        match self {
            PanelRow::Separator => PanelRowView::Separator,
            PanelRow::File { kind, path, hunks } => PanelRowView::File {
                kind: *kind,
                path: path@,
                hunks: *hunks as nat,
            },
        }
    }
}

/// The row of file `f`.
pub open spec fn file_row(f: FileView) -> PanelRowView {
    PanelRowView::File { kind: f.kind, path: f.path, hunks: f.hunks.len() }
}

/// The rows of the first `n` files of `fs`, with the separator before file
/// `sep` when there is one.
pub open spec fn panel_row_views(fs: Seq<FileView>, sep: Option<usize>, n: int) -> Seq<PanelRowView>
    decreases n,
{
    if n <= 0 || fs.len() == 0 {
        seq![]
    } else if n > fs.len() {
        panel_row_views(fs, sep, fs.len() as int)
    } else {
        panel_row_views(fs, sep, n - 1) + (if sep matches Some(s) && s == n - 1 {
            seq![PanelRowView::Separator]
        } else {
            seq![]
        }) + seq![file_row(fs[n - 1])]
    }
}

/// The rows of a file list, with the separator before file `separator`
/// (see [`panel_row_views`]).
pub fn panel_rows(files: &Vec<ChangedFile>, separator: Option<usize>) -> (rows: Vec<PanelRow>)
    ensures
        rows@.map_values(|r: PanelRow| r@) == panel_row_views(
            files@.map_values(|f: ChangedFile| f@),
            separator,
            files@.len() as int,
        ),
{
    let ghost fv = files@.map_values(|f: ChangedFile| f@);
    let mut rows: Vec<PanelRow> = Vec::new();
    let mut i: usize = 0;
    assert(rows@.map_values(|r: PanelRow| r@) =~= Seq::<PanelRowView>::empty());
    while i < files.len()
        invariant
            fv == files@.map_values(|f: ChangedFile| f@),
            i <= fv.len(),
            rows@.map_values(|r: PanelRow| r@) == panel_row_views(fv, separator, i as int),
        decreases files.len() - i,
    {
        let ghost before = rows@.map_values(|r: PanelRow| r@);
        let f = &files[i];
        assert(fv[i as int] == f@);
        if separator == Some(i) {
            rows.push(PanelRow::Separator);
        }
        let ghost mid = rows@.map_values(|r: PanelRow| r@);
        let row = PanelRow::File { kind: f.kind, path: f.path.clone(), hunks: f.hunks.len() };
        rows.push(row);
        assert(rows@.map_values(|r: PanelRow| r@) =~= mid.push(row@));
        assert(rows@.map_values(|r: PanelRow| r@) =~= before + (if separator == Some(i) {
            seq![PanelRowView::Separator]
        } else {
            seq![]
        }) + seq![file_row(fv[i as int])]);
        i += 1;
    }
    rows
}

/// The name of a diff source.
pub open spec fn source_name(s: DiffSource) -> Seq<char> {
    match s {
        DiffSource::Staged => "staged"@,
        DiffSource::Unstaged => "unstaged"@,
    }
}

/// The name of a diff source (see [`source_name`]).
pub fn source_label(s: DiffSource) -> (l: &'static str)
    ensures
        l@ == source_name(s),
{
    match s {
        DiffSource::Staged => "staged",
        DiffSource::Unstaged => "unstaged",
    }
}

/// Title of the diff panel for a shown file:
/// ` path [source]  hunk i/n `, where `i` is the selected hunk counted
/// from 1, or 0 when the file has no hunks.
pub open spec fn diff_title_text(f: FileView, s: DiffSource, selected: nat) -> Seq<char> {
    " "@ + f.path + " ["@ + source_name(s) + "]  hunk "@ + dec(
        if f.hunks.len() == 0 {
            0
        } else {
            selected + 1
        },
    ) + "/"@ + dec(f.hunks.len()) + " "@
}

/// Title of the diff panel for a shown file (see [`diff_title_text`]).
pub fn diff_title(file: &ChangedFile, source: DiffSource, selected_hunk: usize) -> (t: String)
    requires
        file@.hunks.len() == 0 || selected_hunk < usize::MAX,
    ensures
        t@ == diff_title_text(file@, source, selected_hunk as nat),
{
    let mut t = owned(" ");
    append_str(&mut t, file.path.as_str());
    append_str(&mut t, " [");
    append_str(&mut t, source_label(source));
    append_str(&mut t, "]  hunk ");
    let n = file.hunks.len();
    push_decimal(&mut t, if n == 0 { 0 } else { selected_hunk + 1 });
    append_str(&mut t, "/");
    push_decimal(&mut t, n);
    append_str(&mut t, " ");
    t
}

/// Title and message of the diff panel when no file is shown.
pub fn empty_diff_texts(source: DiffSource) -> (r: (String, String))
    ensures
        r.0@ == " Diff ("@ + source_name(source) + ") "@,
        r.1@ == "  No "@ + source_name(source) + " changes."@,
{
    let mut title = owned(" Diff (");
    append_str(&mut title, source_label(source));
    append_str(&mut title, ") ");
    let mut msg = owned("  No ");
    append_str(&mut msg, source_label(source));
    append_str(&mut msg, " changes.");
    (title, msg)
}

/// Rows inside a bordered panel of the given height.
pub fn inner_height(height: u16) -> (h: usize)
    ensures
        h == if height >= 2 {
            height - 2
        } else {
            0
        },
{
    (if height >= 2 { height - 2 } else { 0 }) as usize
}

/// Rows of the diff panel for a terminal of the given height (20 when the
/// height is unknown): the terminal less the footer and the borders.
pub fn diff_height(term_height: Option<u16>) -> (h: usize)
    ensures
        h == match term_height {
            Some(t) => if t >= 4 {
                t - 4
            } else {
                0
            },
            None => 20,
        },
{
    match term_height {
        Some(t) => (if t >= 4 { t - 4 } else { 0 }) as usize,
        None => 20,
    }
}

/// The rows `[start, end)` of a `total`-row diff that a panel of `height`
/// rows shows when scrolled by `scroll`: the scroll is held to the last
/// row, and the window ends at the panel's bottom or the last row.
pub open spec fn window(scroll: nat, total: nat, height: nat) -> (nat, nat) {
    let start = if total == 0 {
        0
    } else if scroll < total {
        scroll
    } else {
        (total - 1) as nat
    };
    (start, if start + height < total {
        start + height
    } else {
        total
    })
}

/// The visible rows of the diff (see [`window`]).
pub fn visible_window(scroll: usize, total: usize, height: usize) -> (r: (usize, usize))
    ensures
        r.0 == window(scroll as nat, total as nat, height as nat).0,
        r.1 == window(scroll as nat, total as nat, height as nat).1,
{
    let start = if total == 0 {
        0
    } else if scroll < total {
        scroll
    } else {
        total - 1
    };
    let end = if height < total - start { start + height } else { total };
    (start, end)
}

// ───────────────────────── file panels ─────────────────────────

/// Index of the first untracked file, if any.
pub open spec fn first_untracked(files: Seq<FileView>) -> Option<nat>
    decreases files.len(),
{
    if files.len() == 0 {
        None
    } else if files[0].kind == FileKind::Untracked {
        Some(0)
    } else {
        match first_untracked(files.drop_first()) {
            Some(i) => Some(i + 1),
            None => None,
        }
    }
}

/// Where the "Untracked" separator row goes: before the first untracked
/// file, in a panel that shows the separator.
pub fn untracked_start(files: &Vec<ChangedFile>, show_separator: bool) -> (r: Option<usize>)
    ensures
        r == (if show_separator {
            match first_untracked(files@.map_values(|f: ChangedFile| f@)) {
                Some(u) => Some(u as usize),
                None => None,
            }
        } else {
            None
        }),
{
    if !show_separator {
        return None;
    }
    let ghost fv = files@.map_values(|f: ChangedFile| f@);
    let mut i: usize = 0;
    assert(fv.skip(0) =~= fv);
    while i < files.len()
        invariant
            show_separator,
            i <= fv.len(),
            fv == files@.map_values(|f: ChangedFile| f@),
            first_untracked(fv) == match first_untracked(fv.skip(i as int)) {
                Some(j) => Some((j + i) as nat),
                None => None,
            },
        decreases files.len() - i,
    {
        assert(fv[i as int] == files@[i as int]@);
        if files[i].kind == FileKind::Untracked {
            assert(fv.skip(i as int)[0] == fv[i as int]);
            assert(first_untracked(fv.skip(i as int)) == Some(0nat));
            assert(first_untracked(fv) == Some(i as nat));
            return Some(i);
        }
        assert(fv.skip(i as int).drop_first() =~= fv.skip(i + 1));
        i += 1;
    }
    assert(fv.skip(i as int) =~= Seq::<FileView>::empty());
    None
}

/// The list row that is highlighted: the selected file's row, one lower
/// past the separator; none for an empty list.
pub open spec fn list_row(len: nat, separator: Option<usize>, selected: usize) -> Option<int> {
    if len == 0 {
        None
    } else {
        match separator {
            Some(s) => if selected >= s {
                Some(selected + 1)
            } else {
                Some(selected as int)
            },
            None => Some(selected as int),
        }
    }
}

/// The highlighted list row (see [`list_row`]).
pub fn list_index(len: usize, separator: Option<usize>, selected: usize) -> (r: Option<usize>)
    requires
        separator matches Some(s) && selected >= s && len > 0 ==> selected < usize::MAX,
    ensures
        match r {
            Some(v) => list_row(len as nat, separator, selected) == Some(v as int),
            None => list_row(len as nat, separator, selected) is None,
        },
{
    if len == 0 {
        None
    } else {
        match separator {
            Some(s) => if selected >= s {
                Some(selected + 1)
            } else {
                Some(selected)
            },
            None => Some(selected),
        }
    }
}

/// `1 hunk`, or `n hunks` for any other count.
pub fn hunks_label(n: usize) -> (l: String)
    ensures
        l@ == if n == 1 {
            "1 hunk"@
        } else {
            dec(n as nat) + " hunks"@
        },
{
    if n == 1 {
        owned("1 hunk")
    } else {
        let mut l = String::new();
        push_decimal(&mut l, n);
        append_str(&mut l, " hunks");
        l
    }
}

/// The badge before a file's path.
pub fn kind_badge(kind: FileKind) -> (b: &'static str)
    ensures
        b@ == match kind {
            FileKind::Modified => " M "@,
            FileKind::Untracked => " ? "@,
        },
{
    match kind {
        FileKind::Modified => " M ",
        FileKind::Untracked => " ? ",
    }
}

/// How many lines of kind `k` the files hold.
pub open spec fn count_kind(files: Seq<FileView>, k: LineKind) -> nat
    decreases files.len(),
{
    if files.len() == 0 {
        0
    } else {
        count_kind(files.drop_last(), k) + count_in_hunks(files.last().hunks, k)
    }
}

/// How many lines of kind `k` the hunks hold.
pub open spec fn count_in_hunks(hs: Seq<HunkView>, k: LineKind) -> nat
    decreases hs.len(),
{
    if hs.len() == 0 {
        0
    } else {
        count_in_hunks(hs.drop_last(), k) + count_in_lines(hs.last().lines, k)
    }
}

/// How many of `ls` are of kind `k`.
pub open spec fn count_in_lines(ls: Seq<LineView>, k: LineKind) -> nat
    decreases ls.len(),
{
    if ls.len() == 0 {
        0
    } else {
        count_in_lines(ls.drop_last(), k) + if ls.last().kind == k {
            1nat
        } else {
            0
        }
    }
}

/// Added and removed line counts of a panel's files.
pub open spec fn change_counts(files: Seq<FileView>) -> (nat, nat) {
    (count_kind(files, LineKind::Added), count_kind(files, LineKind::Removed))
}

proof fn lemma_count_lines_prefix(ls: Seq<LineView>, k: LineKind, i: int)
    requires
        0 <= i <= ls.len(),
    ensures
        count_in_lines(ls.take(i), k) <= count_in_lines(ls, k),
    decreases ls.len(),
{
    if i < ls.len() {
        lemma_count_lines_prefix(ls.drop_last(), k, i);
        assert(ls.drop_last().take(i) =~= ls.take(i));
    } else {
        assert(ls.take(i) =~= ls);
    }
}

proof fn lemma_count_hunks_prefix(hs: Seq<HunkView>, k: LineKind, i: int)
    requires
        0 <= i <= hs.len(),
    ensures
        count_in_hunks(hs.take(i), k) <= count_in_hunks(hs, k),
    decreases hs.len(),
{
    if i < hs.len() {
        lemma_count_hunks_prefix(hs.drop_last(), k, i);
        assert(hs.drop_last().take(i) =~= hs.take(i));
    } else {
        assert(hs.take(i) =~= hs);
    }
}

proof fn lemma_count_files_prefix(fs: Seq<FileView>, k: LineKind, i: int)
    requires
        0 <= i <= fs.len(),
    ensures
        count_kind(fs.take(i), k) <= count_kind(fs, k),
    decreases fs.len(),
{
    if i < fs.len() {
        lemma_count_files_prefix(fs.drop_last(), k, i);
        assert(fs.drop_last().take(i) =~= fs.take(i));
    } else {
        assert(fs.take(i) =~= fs);
    }
}

/// Lines of kind `k` in `h`.
fn count_hunk(h: &Hunk, k: LineKind) -> (n: usize)
    requires
        count_in_lines(h@.lines, k) <= usize::MAX,
    ensures
        n == count_in_lines(h@.lines, k),
{
    let ghost ls = h@.lines;
    let mut n: usize = 0;
    let mut i: usize = 0;
    while i < h.lines.len()
        invariant
            ls == h@.lines,
            i <= ls.len(),
            count_in_lines(ls, k) <= usize::MAX,
            n == count_in_lines(ls.take(i as int), k),
        decreases h.lines.len() - i,
    {
        proof {
            lemma_count_lines_prefix(ls, k, i + 1);
        }
        assert(ls.take(i + 1).drop_last() =~= ls.take(i as int));
        assert(ls[i as int] == h.lines@[i as int]@);
        if h.lines[i].kind == k {
            n = n + 1;
        }
        i += 1;
    }
    assert(ls.take(ls.len() as int) =~= ls);
    n
}

/// Lines of kind `k` in all `files`.
pub fn count_lines(files: &Vec<ChangedFile>, k: LineKind) -> (n: usize)
    requires
        count_kind(files@.map_values(|f: ChangedFile| f@), k) <= usize::MAX,
    ensures
        n == count_kind(files@.map_values(|f: ChangedFile| f@), k),
{
    let ghost fv = files@.map_values(|f: ChangedFile| f@);
    let mut n: usize = 0;
    let mut i: usize = 0;
    assert(fv.take(0) =~= Seq::<FileView>::empty());
    while i < files.len()
        invariant
            fv == files@.map_values(|f: ChangedFile| f@),
            i <= fv.len(),
            count_kind(fv, k) <= usize::MAX,
            n == count_kind(fv.take(i as int), k),
        decreases files.len() - i,
    {
        proof {
            lemma_count_files_prefix(fv, k, i + 1);
        }
        assert(fv.take(i + 1).drop_last() =~= fv.take(i as int));
        let f = &files[i];
        assert(fv[i as int] == f@);
        let ghost hs = f@.hunks;
        let mut j: usize = 0;
        let ghost base = n;
        assert(hs.take(0) =~= Seq::<HunkView>::empty());
        while j < f.hunks.len()
            invariant
                hs == f@.hunks,
                j <= hs.len(),
                base + count_in_hunks(hs, k) <= usize::MAX,
                n == base + count_in_hunks(hs.take(j as int), k),
            decreases f.hunks.len() - j,
        {
            proof {
                lemma_count_hunks_prefix(hs, k, j + 1);
            }
            assert(hs.take(j + 1).drop_last() =~= hs.take(j as int));
            assert(hs[j as int] == f.hunks@[j as int]@);
            let c = count_hunk(&f.hunks[j], k);
            n = n + c;
            j += 1;
        }
        assert(hs.take(hs.len() as int) =~= hs);
        i += 1;
    }
    assert(fv.take(fv.len() as int) =~= fv);
    n
}

/// Whether the added and removed counts of `files` can be counted in
/// `usize`.
pub fn counts_fit(files: &Vec<ChangedFile>) -> (b: bool)
    ensures
        b == (change_counts(files@.map_values(|f: ChangedFile| f@)).0 <= usize::MAX
            && change_counts(files@.map_values(|f: ChangedFile| f@)).1 <= usize::MAX),
{
    fits_kind(files, LineKind::Added) && fits_kind(files, LineKind::Removed)
}

fn fits_kind(files: &Vec<ChangedFile>, k: LineKind) -> (b: bool)
    ensures
        b == (count_kind(files@.map_values(|f: ChangedFile| f@), k) <= usize::MAX),
{
    let ghost fv = files@.map_values(|f: ChangedFile| f@);
    let mut n: u128 = 0;
    let mut i: usize = 0;
    assert(fv.take(0) =~= Seq::<FileView>::empty());
    while i < files.len()
        invariant
            fv == files@.map_values(|f: ChangedFile| f@),
            i <= fv.len(),
            n == count_kind(fv.take(i as int), k),
            n <= usize::MAX,
        decreases files.len() - i,
    {
        assert(fv.take(i + 1).drop_last() =~= fv.take(i as int));
        let f = &files[i];
        assert(fv[i as int] == f@);
        let ghost hs = f@.hunks;
        let ghost base = n as nat;
        let mut j: usize = 0;
        assert(hs.take(0) =~= Seq::<HunkView>::empty());
        while j < f.hunks.len()
            invariant
                fv == files@.map_values(|f: ChangedFile| f@),
                i < fv.len(),
                hs == fv[i as int].hunks,
                hs == f@.hunks,
                base == count_kind(fv.take(i as int), k),
                j <= hs.len(),
                n == base + count_in_hunks(hs.take(j as int), k),
                n <= usize::MAX,
            decreases f.hunks.len() - j,
        {
            assert(hs.take(j + 1).drop_last() =~= hs.take(j as int));
            let h = &f.hunks[j];
            assert(hs[j as int] == h@);
            let ghost ls = h@.lines;
            let ghost hb = n as nat;
            let mut m: usize = 0;
            assert(ls.take(0) =~= Seq::<LineView>::empty());
            while m < h.lines.len()
                invariant
                    fv == files@.map_values(|f: ChangedFile| f@),
                    i < fv.len(),
                    hs == fv[i as int].hunks,
                    base == count_kind(fv.take(i as int), k),
                    j < hs.len(),
                    ls == hs[j as int].lines,
                    ls == h@.lines,
                    hb == base + count_in_hunks(hs.take(j as int), k),
                    m <= ls.len(),
                    n == hb + count_in_lines(ls.take(m as int), k),
                    n <= usize::MAX,
                decreases h.lines.len() - m,
            {
                assert(ls.take(m + 1).drop_last() =~= ls.take(m as int));
                assert(ls[m as int] == h.lines@[m as int]@);
                if h.lines[m].kind == k {
                    n = n + 1;
                    if n > usize::MAX as u128 {
                        proof {
                            lemma_count_lines_prefix(ls, k, m + 1);
                            lemma_count_hunks_prefix(hs, k, j + 1);
                            lemma_count_files_prefix(fv, k, i + 1);
                            assert(hs.take(j + 1).drop_last() =~= hs.take(j as int));
                            assert(fv.take(i + 1).drop_last() =~= fv.take(i as int));
                        }
                        return false;
                    }
                }
                m += 1;
            }
            assert(ls.take(ls.len() as int) =~= ls);
            j += 1;
        }
        assert(hs.take(hs.len() as int) =~= hs);
        i += 1;
    }
    assert(fv.take(fv.len() as int) =~= fv);
    true
}

/// The head of a file panel's title: `<title>(<count>)  `.
pub fn panel_heading(title: &str, count: usize) -> (h: String)
    ensures
        h@ == title@ + "("@ + dec(count as nat) + ")  "@,
{
    let mut h = owned(title);
    append_str(&mut h, "(");
    push_decimal(&mut h, count);
    append_str(&mut h, ")  ");
    h
}

/// A count with its sign before it, such as `+12`.
pub fn signed_count(sign: char, n: usize) -> (s: String)
    ensures
        s@ == seq![sign] + dec(n as nat),
{
    let mut s = String::new();
    push_char(&mut s, sign);
    push_decimal(&mut s, n);
    s
}

// ───────────────────────── footer ─────────────────────────

/// `p` occurs in `s`.
pub open spec fn contains(s: Seq<char>, p: Seq<char>) -> bool {
    exists|i: int| 0 <= i && i + p.len() <= s.len() && #[trigger] s.subrange(i, i + p.len()) == p
}

/// How the status line reads.
#[derive(Debug, Clone, Copy, PartialEq, Eq, Structural)]
pub enum Tone {
    /// Something failed.
    Error,
    /// A change was made.
    Success,
    /// Anything else.
    Neutral,
}

/// The tone of a status line: failures first, then the statuses that
/// report a change.
pub open spec fn tone_of(s: Seq<char>) -> Tone {
    if contains(s, "failed"@) || contains(s, "Error"@) {
        Tone::Error
    } else if starts_with(s, "Staged"@) || starts_with(s, "Unstaged"@) || starts_with(
        s,
        "Discarded"@,
    ) || starts_with(s, "Deleted"@) {
        Tone::Success
    } else {
        Tone::Neutral
    }
}

fn occurs(s: &[char], p: &str) -> (b: bool)
    ensures
        b == contains(s@, p@),
{
    let pc = chars_of(p);
    let m = pc.len();
    if m > s.len() {
        proof {
            assert forall|i: int| 0 <= i && i + m <= s@.len() implies #[trigger] s@.subrange(i, i + m) != p@ by {}
        }
        return false;
    }
    let mut i: usize = 0;
    while i <= s.len() - m
        invariant
            m == p@.len(),
            pc@ == p@,
            m <= s@.len(),
            i <= s@.len() - m + 1,
            forall|k: int| 0 <= k < i ==> #[trigger] s@.subrange(k, k + m) != p@,
        decreases s.len() - i,
    {
        let mut j: usize = 0;
        let mut same = true;
        while j < m && same
            invariant
                j <= m,
                s.len() == s@.len(),
                i + m <= s@.len(),
                pc@ == p@,
                m == p@.len(),
                same ==> forall|t: int| 0 <= t < j ==> s@[i + t] == pc@[t],
                !same ==> j > 0 && s@[i + j - 1] != pc@[j - 1],
            decreases m - j,
        {
            if s[i + j] != pc[j] {
                same = false;
            }
            j += 1;
        }
        if same {
            assert(s@.subrange(i as int, i + m) =~= p@);
            return true;
        }
        assert(s@.subrange(i as int, i + m)[j - 1] != p@[j - 1]);
        i += 1;
    }
    proof {
        assert forall|k: int| 0 <= k && k + m <= s@.len() implies #[trigger] s@.subrange(k, k + m) != p@ by {
            assert(k < i);
        }
    }
    false
}

/// The tone of a status line (see [`tone_of`]).
pub fn status_tone(status: &str) -> (t: Tone)
    ensures
        t == tone_of(status@),
{
    let cs = chars_of(status);
    let s = cs.as_slice();
    if occurs(s, "failed") || occurs(s, "Error") {
        Tone::Error
    } else if crate::text::has_prefix(s, "Staged") || crate::text::has_prefix(s, "Unstaged")
        || crate::text::has_prefix(s, "Discarded") || crate::text::has_prefix(s, "Deleted") {
        Tone::Success
    } else {
        Tone::Neutral
    }
}

/// The help line for the focused panel.
pub open spec fn help_for(focus: Focus, source: DiffSource) -> Seq<char> {
    match focus {
        Focus::Unstaged => " Tab:cycle  ↑↓/jk:nav  s:stage file  d:discard  Enter:diff  r:reload  q:quit"@,
        Focus::Staged => " Tab:cycle  ↑↓/jk:nav  u:unstage file  Enter:diff  r:reload  q:quit"@,
        Focus::Diff => if source == DiffSource::Staged {
            " Tab:panel  ↑↓/jk:scroll  []:hunk  u:unstage hunk  U:unstage file  r:reload  q:quit"@
        } else {
            " Tab:panel  ↑↓/jk:scroll  []:hunk  s:stage hunk  S:stage file  d:discard hunk  D:discard file  r:reload  q:quit"@
        },
    }
}

/// The help line for the focused panel (see [`help_for`]).
pub fn help_text(focus: Focus, source: DiffSource) -> (h: &'static str)
    ensures
        h@ == help_for(focus, source),
{
    match focus {
        Focus::Unstaged => " Tab:cycle  ↑↓/jk:nav  s:stage file  d:discard  Enter:diff  r:reload  q:quit",
        Focus::Staged => " Tab:cycle  ↑↓/jk:nav  u:unstage file  Enter:diff  r:reload  q:quit",
        Focus::Diff => if source == DiffSource::Staged {
            " Tab:panel  ↑↓/jk:scroll  []:hunk  u:unstage hunk  U:unstage file  r:reload  q:quit"
        } else {
            " Tab:panel  ↑↓/jk:scroll  []:hunk  s:stage hunk  S:stage file  d:discard hunk  D:discard file  r:reload  q:quit"
        },
    }
}

} // verus!
