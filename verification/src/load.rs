//! What becomes of the output of the git commands that list changes.

use vstd::prelude::*;

use crate::git::{ChangedFile, FileKind, FileView, Hunk, HunkView};
use crate::parse::{parse_diff, parsed};
use crate::text::{append_str, char_rows, chars_of, lines, owned, split_lines, string_from_chars};

verus! {

/// The non-empty lines of `ls`, in order.
pub open spec fn nonempty(ls: Seq<Seq<char>>) -> Seq<Seq<char>>
    decreases ls.len(),
{
    if ls.len() == 0 {
        seq![]
    } else if ls.last().len() > 0 {
        nonempty(ls.drop_last()).push(ls.last())
    } else {
        nonempty(ls.drop_last())
    }
}

/// The paths an untracked-file listing names: its non-empty lines.
pub fn untracked_paths(listing: &str) -> (paths: Vec<String>)
    ensures
        paths@.map_values(|p: String| p@) == nonempty(lines(listing@)),
{
    let cs = chars_of(listing);
    let ls = split_lines(cs.as_slice());
    let ghost all = char_rows(ls@);
    let mut paths: Vec<String> = Vec::new();
    let mut i: usize = 0;
    assert(all.take(0) =~= Seq::<Seq<char>>::empty());
    assert(paths@.map_values(|p: String| p@) =~= Seq::<Seq<char>>::empty());
    while i < ls.len()
        invariant
            i <= ls@.len(),
            all == char_rows(ls@),
            paths@.map_values(|p: String| p@) == nonempty(all.take(i as int)),
        decreases ls.len() - i,
    {
        assert(all.take(i + 1).drop_last() =~= all.take(i as int));
        if ls[i].len() > 0 {
            let ghost before = paths@.map_values(|p: String| p@);
            let p = string_from_chars(ls[i].as_slice());
            paths.push(p);
            assert(paths@.map_values(|p: String| p@) =~= before.push(ls@[i as int]@));
        }
        i += 1;
    }
    assert(all.take(ls.len() as int) =~= all);
    paths
}

/// The hunks of all `files`, file after file.
pub open spec fn all_hunks(files: Seq<FileView>) -> Seq<HunkView>
    decreases files.len(),
{
    if files.len() == 0 {
        seq![]
    } else {
        all_hunks(files.drop_last()) + files.last().hunks
    }
}

/// The informational header given to an untracked file.
pub open spec fn untracked_header(path: Seq<char>) -> Seq<char> {
    "diff --git a/dev/null b/"@ + path + "\nnew file mode 100644\n--- /dev/null\n+++ b/"@ + path
}

/// The untracked file at `path`, whose hunks are those of `diff_output`
/// (the output of `git diff --no-index -- /dev/null <path>`), or none when
/// that output could not be had.
pub fn untracked_file(path: &str, diff_output: Option<&str>) -> (f: ChangedFile)
    ensures
        f@ == (FileView {
            path: path@,
            header: untracked_header(path@),
            hunks: match diff_output {
                Some(t) => all_hunks(parsed(t@)),
                None => seq![],
            },
            kind: FileKind::Untracked,
        }),
{
    let mut hunks: Vec<Hunk> = Vec::new();
    match diff_output {
        Some(text) => {
            let files = parse_diff(text);
            let ghost fs = files@;
            let ghost fv = files@.map_values(|f: ChangedFile| f@);
            assert(fv.take(0) =~= Seq::<FileView>::empty());
            assert(hunks@.map_values(|h: Hunk| h@) =~= Seq::<HunkView>::empty());
            for f in it: files
                invariant
                    it.seq() == fs,
                    fv == fs.map_values(|f: ChangedFile| f@),
                    hunks@.map_values(|h: Hunk| h@) == all_hunks(fv.take(it.index() as int)),
            {
                let ghost i = it.index();
                let ghost before = hunks@.map_values(|h: Hunk| h@);
                let mut hs = f.hunks;
                let ghost added = hs@.map_values(|h: Hunk| h@);
                hunks.append(&mut hs);
                assert(hunks@.map_values(|h: Hunk| h@) =~= before + added);
                assert(fv.take(i + 1).drop_last() =~= fv.take(i as int));
            }
            assert(fv.take(fs.len() as int) =~= fv);
        },
        None => {
            assert(hunks@.map_values(|h: Hunk| h@) =~= Seq::<HunkView>::empty());
        },
    }
    let mut header = owned("diff --git a/dev/null b/");
    append_str(&mut header, path);
    append_str(&mut header, "\nnew file mode 100644\n--- /dev/null\n+++ b/");
    append_str(&mut header, path);
    ChangedFile { path: owned(path), header, hunks, kind: FileKind::Untracked }
}

} // verus!
