//! Opening a file and browsing its folder: which entries of a folder listing are media, where
//! the opened file stands among them, and whether opening changes anything.

use vstd::prelude::*;

use crate::loader::{paths_equal, spec_paths_equal};
use crate::media::{classify, classify_extension, MediaKind};
use crate::text::string_views;

verus! {

/// The entries of a listing that are media files, in order.
pub open spec fn media_only(names: Seq<Seq<char>>) -> Seq<Seq<char>>
    decreases names.len(),
{
    if names.len() == 0 {
        Seq::empty()
    } else {
        let rest = media_only(names.drop_last());
        if classify(names.last()) is Some {
            rest.push(names.last())
        } else {
            rest
        }
    }
}

/// The names of a folder listing that are media files, in order.
pub fn media_entries(names: &[String]) -> (r: Vec<String>)
    ensures
        string_views(r@) == media_only(string_views(names@)),
{
    let mut out: Vec<String> = Vec::new();
    let mut i: usize = 0;
    while i < names.len()
        invariant
            i <= names@.len(),
            string_views(out@) == media_only(string_views(names@.take(i as int))),
        decreases names@.len() - i,
    {
        assert(string_views(names@.take(i + 1)).drop_last() =~= string_views(names@.take(i as int)));
        assert(string_views(names@.take(i + 1)).last() == names@[i as int]@);
        if classify_extension(names[i].as_str()).is_some() {
            let ghost before = out@;
            out.push(names[i].clone());
            assert(string_views(out@) =~= string_views(before).push(names@[i as int]@));
        }
        i += 1;
    }
    assert(names@.take(names@.len() as int) =~= names@);
    out
}

/// The least index of `folder` whose entry names the same file as `path`, if any.
pub open spec fn first_match(folder: Seq<Seq<char>>, path: Seq<char>, windows: bool) -> Option<
    nat,
>
    decreases folder.len(),
{
    if folder.len() == 0 {
        None
    } else {
        match first_match(folder.drop_last(), path, windows) {
            Some(i) => Some(i),
            None => if spec_paths_equal(folder.last(), path, windows) {
                Some((folder.len() - 1) as nat)
            } else {
                None
            },
        }
    }
}

/// What opening a path does.
#[derive(Debug, Clone, Copy, PartialEq, Eq, Structural)]
pub enum OpenStep {
    /// The path is the file already open: nothing changes.
    Unchanged,
    /// Open the file: its place in the folder listing, and its media kind.
    Open { index: usize, kind: Option<MediaKind> },
}

/// The step for opening `path` while `current` is open, in a folder listing `folder`: nothing
/// when it names the open file, else its first place in the listing (0 when it is not
/// listed) and its kind.
pub fn open_step(current: Option<&str>, path: &str, folder: &[String], windows: bool) -> (r: OpenStep)
    ensures
        (r is Unchanged) <==> (current matches Some(c) && spec_paths_equal(c@, path@, windows)),
        r matches OpenStep::Open { index, kind } ==> {
            &&& kind == classify(path@)
            &&& index == match first_match(string_views(folder@), path@, windows) {
                Some(i) => i as int,
                None => 0,
            }
        },
{
    match current {
        Some(c) => {
            if paths_equal(c, path, windows) {
                return OpenStep::Unchanged;
            }
        },
        None => {},
    }
    let mut i: usize = 0;
    let mut index: usize = 0;
    while i < folder.len()
        invariant
            i <= folder@.len(),
            index == 0,
            !(current matches Some(c) && spec_paths_equal(c@, path@, windows)),
            first_match(string_views(folder@.take(i as int)), path@, windows) is None,
        decreases folder@.len() - i,
    {
        assert(string_views(folder@.take(i + 1)).drop_last() =~= string_views(
            folder@.take(i as int),
        ));
        assert(string_views(folder@.take(i + 1)).last() == folder@[i as int]@);
        if paths_equal(folder[i].as_str(), path, windows) {
            proof {
                assert(string_views(folder@).take(i as int) =~= string_views(folder@.take(i as int)));
                lemma_first_match_extends(string_views(folder@), path@, windows, i as int);
            }
            index = i;
            return OpenStep::Open { index, kind: classify_extension(path) };
        }
        i += 1;
    }
    assert(folder@.take(folder@.len() as int) =~= folder@);
    OpenStep::Open { index, kind: classify_extension(path) }
}

/// Once an entry matches, later entries do not change the first match.
proof fn lemma_first_match_extends(folder: Seq<Seq<char>>, path: Seq<char>, windows: bool, i: int)
    requires
        0 <= i < folder.len(),
        first_match(folder.take(i), path, windows) is None,
        spec_paths_equal(folder[i], path, windows),
    ensures
        first_match(folder, path, windows) == Some(i as nat),
    decreases folder.len(),
{
    assert(folder.take(i + 1).drop_last() =~= folder.take(i));
    if folder.len() == i + 1 {
        assert(folder.drop_last() =~= folder.take(i));
    } else {
        let k = folder.len() - 1;
        assert(folder.take(k).take(i) =~= folder.take(i));
        lemma_first_match_extends(folder.take(k), path, windows, i);
        assert(folder.drop_last() =~= folder.take(k));
    }
}

} // verus!
