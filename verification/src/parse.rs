//! Parsing of `git diff` output into files, hunks and lines.
//!
//! The text is cut into lines ([`lines`]) and read one line at a time by
//! [`step`], a function from the reader's state and one line to the next
//! state; [`parsed`] is the files that remain once every line is read.

use vstd::prelude::*;

use crate::git::{
    file_views, ChangedFile, FileKind, FileView, Hunk, HunkLine, HunkView, LineKind, LineView,
};
use crate::text::{
    char_rows, chars_of, find_char, has_prefix, is_whitespace, is_ws, join, join_strings,
    lemma_find_char, lemma_word_end, lines, split_lines, starts_with, string_from_chars, words,
};

verus! {

// ───────────────────────── numbers in hunk headers ─────────────────────────

/// An ASCII decimal digit.
pub open spec fn is_digit(c: char) -> bool {
    '0' <= c <= '9'
}

/// Value of a digit string read in base ten.
pub open spec fn digits_value(s: Seq<char>) -> nat
    decreases s.len(),
{
    if s.len() == 0 {
        0
    } else {
        digits_value(s.drop_last()) * 10 + ((s.last() as int - 48) as nat)
    }
}

/// `u32::from_str` on a string without sign: a non-empty run of ASCII digits
/// whose value fits in a `u32`.
pub open spec fn parse_u32(s: Seq<char>) -> Option<u32> {
    if s.len() > 0 && (forall|j: int| 0 <= j < s.len() ==> is_digit(#[trigger] s[j]))
        && digits_value(s) <= u32::MAX {
        Some(digits_value(s) as u32)
    } else {
        None
    }
}

/// Leading `'-'` and `'+'` characters removed.
pub open spec fn trim_signs(s: Seq<char>) -> Seq<char>
    decreases s.len(),
{
    if s.len() > 0 && (s[0] == '-' || s[0] == '+') {
        trim_signs(s.drop_first())
    } else {
        s
    }
}

/// The start line that one range of a hunk header names (`-12,5` gives 12),
/// or 1 where none can be read.
pub open spec fn range_start(w: Seq<char>) -> u32 {
    let t = trim_signs(w);
    match parse_u32(t.take(find_char(t, ',') as int)) {
        Some(v) => v,
        None => 1,
    }
}

/// `(old_start, new_start)` of a hunk header `@@ -a[,b] +c[,d] @@`: the
/// second and third whitespace-separated words, each 1 where it is missing
/// or cannot be read.
pub open spec fn hunk_range(l: Seq<char>) -> (u32, u32) {
    let w = words(l);
    (
        if w.len() > 1 {
            range_start(w[1])
        } else {
            1
        },
        if w.len() > 2 {
            range_start(w[2])
        } else {
            1
        },
    )
}

// ───────────────────────── line classification ─────────────────────────

/// Extended header lines that git writes between `diff --git` and `---`.
pub open spec fn is_extended_header(l: Seq<char>) -> bool {
    ||| starts_with(l, "index "@)
    ||| starts_with(l, "new file"@)
    ||| starts_with(l, "deleted file"@)
    ||| starts_with(l, "old mode"@)
    ||| starts_with(l, "new mode"@)
    ||| starts_with(l, "similarity"@)
    ||| starts_with(l, "rename"@)
}

/// The kind of a hunk line, read from its first character.
pub open spec fn line_kind(l: Seq<char>) -> LineKind {
    if l.len() > 0 && l[0] == '+' {
        LineKind::Added
    } else if l.len() > 0 && l[0] == '-' {
        LineKind::Removed
    } else if l.len() > 0 && l[0] == '\\' {
        LineKind::NoNewline
    } else {
        LineKind::Context
    }
}

/// The path of a `+++` line: what follows `"+++ b/"`, else what follows
/// `"+++ "`, else the whole line.
pub open spec fn b_path(l: Seq<char>) -> Seq<char> {
    if starts_with(l, "+++ b/"@) {
        l.skip("+++ b/"@.len() as int)
    } else if starts_with(l, "+++ "@) {
        l.skip("+++ "@.len() as int)
    } else {
        l
    }
}

// ───────────────────────── the reader ─────────────────────────

/// What the reader holds between two lines.
pub struct ParserView {
    /// Files that are complete
    pub files: Seq<FileView>,
    /// Header lines of the file being read
    pub header_buf: Seq<Seq<char>>,
    /// The file being read, once its `+++` line was seen
    pub file: Option<FileView>,
    /// The hunk being read
    pub hunk: Option<HunkView>,
}

/// The reader before the first line.
pub open spec fn initial() -> ParserView {
    ParserView { files: seq![], header_buf: seq![], file: None, hunk: None }
}

/// The open file with the open hunk appended, where both are open.
pub open spec fn flushed(file: Option<FileView>, hunk: Option<HunkView>) -> Option<FileView> {
    match (file, hunk) {
        (Some(f), Some(h)) => Some(FileView { hunks: f.hunks.push(h), ..f }),
        _ => file,
    }
}

/// `files` with `f` appended when there is one.
pub open spec fn push_some(files: Seq<FileView>, f: Option<FileView>) -> Seq<FileView> {
    match f {
        Some(f) => files.push(f),
        None => files,
    }
}

/// One line read.
pub open spec fn step(st: ParserView, l: Seq<char>) -> ParserView {
    if starts_with(l, "diff --git "@) {
        ParserView {
            files: push_some(st.files, flushed(st.file, st.hunk)),
            header_buf: seq![l],
            file: None,
            hunk: None,
        }
    } else if is_extended_header(l) || starts_with(l, "--- "@) {
        ParserView { header_buf: st.header_buf.push(l), ..st }
    } else if starts_with(l, "+++ "@) {
        let hb = st.header_buf.push(l);
        ParserView {
            header_buf: hb,
            file: Some(
                FileView {
                    path: b_path(l),
                    header: join(hb, seq!['\n']),
                    hunks: seq![],
                    kind: FileKind::Modified,
                },
            ),
            ..st
        }
    } else if starts_with(l, "@@ "@) {
        let r = hunk_range(l);
        ParserView {
            file: flushed(st.file, st.hunk),
            hunk: Some(HunkView { header: l, lines: seq![], old_start: r.0, new_start: r.1 }),
            ..st
        }
    } else {
        match st.hunk {
            Some(h) => ParserView {
                hunk: Some(
                    HunkView {
                        lines: h.lines.push(LineView { content: l, kind: line_kind(l) }),
                        ..h
                    },
                ),
                ..st
            },
            None => st,
        }
    }
}

/// The reader after the lines `ls`, read in order.
pub open spec fn read_lines(ls: Seq<Seq<char>>) -> ParserView
    decreases ls.len(),
{
    if ls.len() == 0 {
        initial()
    } else {
        step(read_lines(ls.drop_last()), ls.last())
    }
}

/// The files a reader in state `st` yields when the text ends.
pub open spec fn finished(st: ParserView) -> Seq<FileView> {
    push_some(st.files, flushed(st.file, st.hunk))
}

/// The files that `git diff` output `text` describes.
pub open spec fn parsed(text: Seq<char>) -> Seq<FileView> {
    finished(read_lines(lines(text)))
}

// ───────────────────────── executable reader ─────────────────────────

/// The reader's state.
struct Parser {
    files: Vec<ChangedFile>,
    header_buf: Vec<String>,
    file: Option<ChangedFile>,
    hunk: Option<Hunk>,
}

/// Model of an optional file.
pub open spec fn opt_file(f: Option<ChangedFile>) -> Option<FileView> {
    match f {
        Some(f) => Some(f@),
        None => None,
    }
}

/// Model of an optional hunk.
pub open spec fn opt_hunk(h: Option<Hunk>) -> Option<HunkView> {
    match h {
        Some(h) => Some(h@),
        None => None,
    }
}

impl View for Parser {
    type V = ParserView;

    closed spec fn view(&self) -> ParserView {
        ParserView {
            files: file_views(self.files@),
            header_buf: self.header_buf@.map_values(|s: String| s@),
            file: opt_file(self.file),
            hunk: opt_hunk(self.hunk),
        }
    }
}

/// Appends the open hunk to the open file; the hunk is closed either way.
pub fn flush_hunk(file: &mut Option<ChangedFile>, hunk: &mut Option<Hunk>)
    ensures
        opt_file(*final(file)) == flushed(opt_file(*old(file)), opt_hunk(*old(hunk))),
        *final(hunk) is None,
{
    match hunk.take() {
        Some(h) => {
            match file.take() {
                Some(mut f) => {
                    let ghost before = f@.hunks;
                    f.hunks.push(h);
                    assert(f@.hunks =~= before.push(h@));
                    *file = Some(f);
                },
                None => {},
            }
        },
        None => {},
    }
}

/// Reads the next whitespace-separated word of `s` at or after `from`:
/// its start and end, or `(s.len(), s.len())` when there is none.
fn next_word(s: &[char], from: usize) -> (r: (usize, usize))
    requires
        from <= s@.len(),
    ensures
        r.0 <= r.1 <= s@.len(),
        r.0 == s@.len() ==> words(s@.skip(from as int)) == Seq::<Seq<char>>::empty() && r.1
            == s@.len(),
        r.0 < s@.len() ==> words(s@.skip(from as int)) == seq![s@.subrange(r.0 as int, r.1 as int)]
            + words(s@.skip(r.1 as int)),
{
    let n = s.len();
    let mut i = from;
    while i < n && is_whitespace(s[i])
        invariant
            from <= i <= n,
            n == s@.len(),
            words(s@.skip(from as int)) == words(s@.skip(i as int)),
        decreases n - i,
    {
        assert(s@.skip(i as int).drop_first() =~= s@.skip(i + 1));
        i += 1;
    }
    if i == n {
        assert(s@.skip(i as int) =~= Seq::<char>::empty());
        return (n, n);
    }
    let mut j = i;
    while j < n && !is_whitespace(s[j])
        invariant
            i <= j <= n,
            n == s@.len(),
            forall|k: int| i <= k < j ==> !is_ws(#[trigger] s@[k]),
        decreases n - j,
    {
        j += 1;
    }
    let ghost t = s@.skip(i as int);
    proof {
        assert forall|k: int| 0 <= k < j - i implies !is_ws(#[trigger] t[k]) by {
            assert(t[k] == s@[i + k]);
        }
        lemma_word_end(t, (j - i) as nat);
        assert(t.take(j - i) =~= s@.subrange(i as int, j as int));
        assert(t.skip(j - i) =~= s@.skip(j as int));
    }
    (i, j)
}

/// `digits_value` of a prefix is at most that of the whole, for digit strings.
proof fn lemma_digits_prefix(s: Seq<char>, k: int)
    requires
        0 <= k <= s.len(),
        forall|j: int| 0 <= j < s.len() ==> is_digit(#[trigger] s[j]),
    ensures
        digits_value(s.take(k)) <= digits_value(s),
    decreases s.len(),
{
    if k < s.len() {
        let p = s.drop_last();
        assert forall|j: int| 0 <= j < p.len() implies is_digit(#[trigger] p[j]) by {
            assert(p[j] == s[j]);
        }
        lemma_digits_prefix(p, k);
        assert(p.take(k) =~= s.take(k));
    } else {
        assert(s.take(k) =~= s);
    }
}

/// `u32::from_str` on `s` (see [`parse_u32`]).
fn parse_number(s: &[char]) -> (r: Option<u32>)
    ensures
        r == parse_u32(s@),
{
    let n = s.len();
    if n == 0 {
        return None;
    }
    let mut v: u64 = 0;
    let mut i: usize = 0;
    while i < n
        invariant
            i <= n,
            n == s@.len(),
            v == digits_value(s@.take(i as int)),
            v <= u32::MAX,
            forall|j: int| 0 <= j < i ==> is_digit(#[trigger] s@[j]),
        decreases n - i,
    {
        let c = s[i];
        if !('0' <= c && c <= '9') {
            assert(!is_digit(s@[i as int]));
            return None;
        }
        let d = (c as u32 - '0' as u32) as u64;
        assert(s@.take(i + 1).drop_last() =~= s@.take(i as int));
        v = v * 10 + d;
        i += 1;
        if v > 0xffff_ffff {
            proof {
                if forall|j: int| 0 <= j < s@.len() ==> is_digit(#[trigger] s@[j]) {
                    lemma_digits_prefix(s@, i as int);
                }
            }
            return None;
        }
    }
    assert(s@.take(n as int) =~= s@);
    Some(v as u32)
}

/// The start line one range of a hunk header names (see [`range_start`]).
fn range_start_of(w: &[char]) -> (v: u32)
    ensures
        v == range_start(w@),
{
    let n = w.len();
    let mut i: usize = 0;
    assert(w@.skip(0) =~= w@);
    while i < n && (w[i] == '-' || w[i] == '+')
        invariant
            i <= n,
            n == w@.len(),
            trim_signs(w@) == trim_signs(w@.skip(i as int)),
        decreases n - i,
    {
        assert(w@.skip(i as int).drop_first() =~= w@.skip(i + 1));
        i += 1;
    }
    let ghost t = w@.skip(i as int);
    assert(trim_signs(t) == t);
    let mut e = i;
    while e < n && w[e] != ','
        invariant
            i <= e <= n,
            n == w@.len(),
            forall|k: int| i <= k < e ==> w@[k] != ',',
        decreases n - e,
    {
        e += 1;
    }
    proof {
        lemma_find_char(t, ',', (e - i) as nat);
        assert(t.take(e - i) =~= w@.subrange(i as int, e as int));
    }
    match parse_number(&w[i..e]) {
        Some(v) => v,
        None => 1,
    }
}

/// `(old_start, new_start)` of a hunk header line (see [`hunk_range`]).
pub fn parse_hunk_range(header: &[char]) -> (r: (u32, u32))
    ensures
        r == hunk_range(header@),
{
    let n = header.len();
    assert(header@.skip(0) =~= header@);
    let (a0, b0) = next_word(header, 0);
    let (a1, b1) = next_word(header, b0);
    let (a2, b2) = next_word(header, b1);
    let ghost w = words(header@);
    let old = if a1 < n {
        range_start_of(&header[a1..b1])
    } else {
        1
    };
    let new = if a2 < n {
        range_start_of(&header[a2..b2])
    } else {
        1
    };
    proof {
        if a0 < n {
            assert(w == seq![header@.subrange(a0 as int, b0 as int)] + words(header@.skip(b0 as int)));
            if a1 < n {
                let w1 = words(header@.skip(b1 as int));
                assert(w[1] == header@.subrange(a1 as int, b1 as int));
                if a2 < n {
                    assert(w[2] == header@.subrange(a2 as int, b2 as int));
                } else {
                    assert(w.len() == 2);
                }
            } else {
                assert(w.len() == 1);
            }
        } else {
            assert(w.len() == 0);
        }
    }
    (old, new)
}

/// The path named by a `+++` line (see [`b_path`]).
pub fn extract_b_path(line: &[char]) -> (p: String)
    ensures
        p@ == b_path(line@),
{
    let long = "+++ b/";
    let short = "+++ ";
    if has_prefix(line, long) {
        let k = long.unicode_len();
        string_from_chars(&line[k..line.len()])
    } else if has_prefix(line, short) {
        let k = short.unicode_len();
        string_from_chars(&line[k..line.len()])
    } else {
        string_from_chars(line)
    }
}

/// The kind of a hunk line (see [`line_kind`]).
fn kind_of(line: &[char]) -> (k: LineKind)
    ensures
        k == line_kind(line@),
{
    if line.len() > 0 && line[0] == '+' {
        LineKind::Added
    } else if line.len() > 0 && line[0] == '-' {
        LineKind::Removed
    } else if line.len() > 0 && line[0] == '\\' {
        LineKind::NoNewline
    } else {
        LineKind::Context
    }
}

fn extended_header(line: &[char]) -> (b: bool)
    ensures
        b == is_extended_header(line@),
{
    has_prefix(line, "index ") || has_prefix(line, "new file") || has_prefix(line, "deleted file")
        || has_prefix(line, "old mode") || has_prefix(line, "new mode") || has_prefix(
        line,
        "similarity",
    ) || has_prefix(line, "rename")
}

impl Parser {
    fn new() -> (p: Parser)
        ensures
            p@ == initial(),
    {
        let p = Parser { files: Vec::new(), header_buf: Vec::new(), file: None, hunk: None };
        assert(p@.files =~= Seq::<FileView>::empty());
        assert(p@.header_buf =~= Seq::<Seq<char>>::empty());
        p
    }

    /// Moves the open file, with its open hunk, to the finished files.
    fn close_file(&mut self)
        ensures
            final(self)@.files == push_some(old(self)@.files, flushed(old(self)@.file, old(self)@.hunk)),
            final(self)@.header_buf == old(self)@.header_buf,
            final(self)@.file is None,
            final(self)@.hunk is None,
    {
        flush_hunk(&mut self.file, &mut self.hunk);
        match self.file.take() {
            Some(f) => {
                let ghost before = file_views(self.files@);
                let ghost fv = f@;
                self.files.push(f);
                assert(file_views(self.files@) =~= before.push(fv));
            },
            None => {},
        }
    }

    fn push_header(&mut self, line: &[char])
        ensures
            final(self)@ == (ParserView { header_buf: old(self)@.header_buf.push(line@), ..old(self)@ }),
    {
        let ghost before = self@.header_buf;
        self.header_buf.push(string_from_chars(line));
        assert(self@.header_buf =~= before.push(line@));
    }

    /// Reads one line (see [`step`]).
    fn step(&mut self, line: &[char])
        ensures
            final(self)@ == step(old(self)@, line@),
    {
        if has_prefix(line, "diff --git ") {
            self.close_file();
            self.header_buf = Vec::new();
            self.push_header(line);
            assert(self@.header_buf =~= seq![line@]);
        } else if extended_header(line) || has_prefix(line, "--- ") {
            self.push_header(line);
        } else if has_prefix(line, "+++ ") {
            self.push_header(line);
            let path = extract_b_path(line);
            let header = join_strings(&self.header_buf, "\n");
            proof {
                reveal_strlit("\n");
            }
            assert("\n"@ =~= seq!['\n']);
            let f = ChangedFile { path, header, hunks: Vec::new(), kind: FileKind::Modified };
            assert(f@.hunks =~= Seq::<HunkView>::empty());
            self.file = Some(f);
        } else if has_prefix(line, "@@ ") {
            flush_hunk(&mut self.file, &mut self.hunk);
            let (old_start, new_start) = parse_hunk_range(line);
            let h = Hunk { header: string_from_chars(line), lines: Vec::new(), old_start, new_start };
            assert(h@.lines =~= Seq::<LineView>::empty());
            self.hunk = Some(h);
        } else {
            match self.hunk.take() {
                Some(mut h) => {
                    let ghost before = h@.lines;
                    let hl = HunkLine { content: string_from_chars(line), kind: kind_of(line) };
                    h.lines.push(hl);
                    assert(h@.lines =~= before.push(hl@));
                    self.hunk = Some(h);
                },
                None => {},
            }
        }
    }
}

/// Parses `git diff` output into its files (see [`parsed`]).
pub fn parse_diff(input: &str) -> (out: Vec<ChangedFile>)
    ensures
        file_views(out@) == parsed(input@),
{
    let cs = chars_of(input);
    let ls = split_lines(cs.as_slice());
    let ghost all = char_rows(ls@);
    let mut p = Parser::new();
    let mut i: usize = 0;
    assert(all.take(0) =~= Seq::<Seq<char>>::empty());
    while i < ls.len()
        invariant
            i <= ls@.len(),
            all == char_rows(ls@),
            all == lines(input@),
            p@ == read_lines(all.take(i as int)),
        decreases ls.len() - i,
    {
        p.step(ls[i].as_slice());
        assert(all.take(i + 1).drop_last() =~= all.take(i as int));
        i += 1;
    }
    assert(all.take(ls.len() as int) =~= all);
    p.close_file();
    p.files
}

} // verus!
