//! Media kinds, file-extension classification, and persisted settings types.

use vstd::prelude::*;

use crate::text::{chars_eq_str, chars_of, lower, lower_chars};

verus! {

broadcast use vstd::string::group_string_axioms;

/// High-level media category inferred from a file extension.
#[derive(Debug, Clone, Copy, PartialEq, Eq, Structural, Hash)]
pub enum MediaKind {
    Image,
    Video,
    Model,
    Unknown,
}

// ---------------------------------------------------------------------------
// Path model: the last normal component of a `/`-separated path, and its extension.
// ---------------------------------------------------------------------------

/// Index just after the last `/` of `s`, or 0 when `s` holds none.
pub open spec fn seg_start(s: Seq<char>) -> int
    decreases s.len(),
{
    if s.len() == 0 {
        0
    } else if s.last() == '/' {
        s.len() as int
    } else {
        seg_start(s.drop_last())
    }
}

pub proof fn lemma_seg_start_bounds(s: Seq<char>)
    ensures
        0 <= seg_start(s) <= s.len(),
        s.len() > 0 && s.last() != '/' ==> seg_start(s) < s.len(),
        forall|i: int| seg_start(s) <= i < s.len() ==> s[i] != '/',
        seg_start(s) > 0 ==> s[seg_start(s) - 1] == '/',
    decreases s.len(),
{
    if s.len() > 0 && s.last() != '/' {
        lemma_seg_start_bounds(s.drop_last());
        assert forall|i: int| seg_start(s) <= i < s.len() implies s[i] != '/' by {
            if i < s.len() - 1 {
                assert(s[i] == s.drop_last()[i]);
            }
        }
    }
}

/// The file name of a path: its last component, when that component is a normal one.
/// Trailing separators and `.` components are skipped; a final `..` has no file name.
pub open spec fn file_name(s: Seq<char>) -> Option<Seq<char>>
    decreases s.len(),
{
    if s.len() == 0 {
        None
    } else if s.last() == '/' {
        file_name(s.drop_last())
    } else {
        let k = seg_start(s);
        let seg = s.subrange(k, s.len() as int);
        proof {
            lemma_seg_start_bounds(s);
        }
        if seg == "."@ {
            file_name(s.subrange(0, k))
        } else if seg == ".."@ {
            None
        } else {
            Some(seg)
        }
    }
}

/// Where the file name of a path lies: the bounds of the component that [`file_name`] gives.
pub open spec fn file_name_range(s: Seq<char>) -> Option<(int, int)>
    decreases s.len(),
{
    if s.len() == 0 {
        None
    } else if s.last() == '/' {
        file_name_range(s.drop_last())
    } else {
        let k = seg_start(s);
        let seg = s.subrange(k, s.len() as int);
        proof {
            lemma_seg_start_bounds(s);
        }
        if seg == "."@ {
            file_name_range(s.subrange(0, k))
        } else if seg == ".."@ {
            None
        } else {
            Some((k, s.len() as int))
        }
    }
}

/// The file name lies where [`file_name_range`] says.
pub proof fn lemma_file_name_range(s: Seq<char>)
    ensures
        match file_name_range(s) {
            Some((a, b)) => 0 <= a <= b <= s.len() && file_name(s) == Some(s.subrange(a, b)),
            None => file_name(s) is None,
        },
    decreases s.len(),
{
    if s.len() > 0 {
        if s.last() == '/' {
            lemma_file_name_range(s.drop_last());
            match file_name_range(s.drop_last()) {
                Some((a, b)) => {
                    assert(s.drop_last().subrange(a, b) =~= s.subrange(a, b));
                },
                None => {},
            }
        } else {
            lemma_seg_start_bounds(s);
            let k = seg_start(s);
            let seg = s.subrange(k, s.len() as int);
            if seg == "."@ {
                lemma_file_name_range(s.subrange(0, k));
                match file_name_range(s.subrange(0, k)) {
                    Some((a, b)) => {
                        assert(s.subrange(0, k).subrange(a, b) =~= s.subrange(a, b));
                    },
                    None => {},
                }
            }
        }
    }
}

/// Index of the last `.` of `s`, or -1 when `s` holds none.
pub open spec fn last_dot(s: Seq<char>) -> int
    decreases s.len(),
{
    if s.len() == 0 {
        -1
    } else if s.last() == '.' {
        s.len() - 1
    } else {
        last_dot(s.drop_last())
    }
}

/// The extension of a file name: the text after its last `.`, when that dot is not the first
/// character of the name.
pub open spec fn name_extension(name: Seq<char>) -> Option<Seq<char>> {
    let d = last_dot(name);
    if d <= 0 {
        None
    } else {
        Some(name.subrange(d + 1, name.len() as int))
    }
}

/// The extension of a path, as `Path::extension` gives it for `/`-separated paths.
pub open spec fn path_extension(s: Seq<char>) -> Option<Seq<char>> {
    match file_name(s) {
        Some(name) => name_extension(name),
        None => None,
    }
}

proof fn lemma_file_name_slash(s: Seq<char>, end: int)
    requires
        0 < end <= s.len(),
        s[end - 1] == '/',
    ensures
        file_name(s.subrange(0, end)) == file_name(s.subrange(0, end - 1)),
{
    assert(s.subrange(0, end).drop_last() =~= s.subrange(0, end - 1));
}

proof fn lemma_seg_start_step(s: Seq<char>, j: int)
    requires
        0 < j <= s.len(),
        s[j - 1] != '/',
    ensures
        seg_start(s.subrange(0, j)) == seg_start(s.subrange(0, j - 1)),
{
    assert(s.subrange(0, j).drop_last() =~= s.subrange(0, j - 1));
}

proof fn lemma_seg_start_at_slash(s: Seq<char>, j: int)
    requires
        0 < j <= s.len(),
        s[j - 1] == '/',
    ensures
        seg_start(s.subrange(0, j)) == j,
{
}

/// `seg_start` of a path that ends with a text holding no `/`, after a prefix that is empty or
/// ends with `/`, is the length of that prefix.
proof fn lemma_seg_start_after(d: Seq<char>, t: Seq<char>)
    requires
        d.len() == 0 || d.last() == '/',
        forall|i: int| 0 <= i < t.len() ==> t[i] != '/',
    ensures
        seg_start(d + t) == d.len(),
    decreases t.len(),
{
    if t.len() == 0 {
        assert(d + t =~= d);
    } else {
        assert((d + t).drop_last() =~= d + t.drop_last());
        lemma_seg_start_after(d, t.drop_last());
    }
}

/// The last `.` of `stem.e`, where `e` holds no `.`, is the one after `stem`.
proof fn lemma_last_dot_before(stem: Seq<char>, e: Seq<char>)
    requires
        forall|i: int| 0 <= i < e.len() ==> e[i] != '.',
    ensures
        last_dot(stem + seq!['.'] + e) == stem.len(),
    decreases e.len(),
{
    if e.len() > 0 {
        assert((stem + seq!['.'] + e).drop_last() =~= stem + seq!['.'] + e.drop_last());
        lemma_last_dot_before(stem, e.drop_last());
    }
}

/// The extension of `dir` + `stem.e` is `e`, when `dir` is empty or ends with `/`, the stem is
/// not empty and holds no `/`, and `e` is not empty and holds neither `/` nor `.`.
pub proof fn lemma_path_extension_of(dir: Seq<char>, stem: Seq<char>, e: Seq<char>)
    requires
        dir.len() == 0 || dir.last() == '/',
        stem.len() > 0,
        e.len() > 0,
        forall|i: int| 0 <= i < stem.len() ==> stem[i] != '/',
        forall|i: int| 0 <= i < e.len() ==> e[i] != '/' && e[i] != '.',
    ensures
        path_extension(dir + stem + seq!['.'] + e) == Some(e),
{
    let name = stem + seq!['.'] + e;
    let path = dir + name;
    assert(path =~= dir + stem + seq!['.'] + e);
    assert forall|i: int| 0 <= i < name.len() implies name[i] != '/' by {
        if i < stem.len() {
            assert(name[i] == stem[i]);
        } else if i > stem.len() {
            assert(name[i] == e[i - stem.len() - 1]);
        }
    }
    lemma_seg_start_after(dir, name);
    lemma_seg_start_bounds(path);
    assert(path.last() == e.last());
    assert(path.subrange(dir.len() as int, path.len() as int) =~= name);
    reveal_strlit(".");
    reveal_strlit("..");
    assert(name.len() >= 3);
    assert(name != "."@ && name != ".."@) by {
        assert("."@.len() == 1 && ".."@.len() == 2);
    }
    assert(file_name(path) == Some(name));
    lemma_last_dot_before(stem, e);
    assert(name.subrange(stem.len() + 1int, name.len() as int) =~= e);
}

/// Bounds of the file name of the path held in `v`, as in [`file_name_range`].
pub(crate) fn file_name_bounds(v: &[char]) -> (r: Option<(usize, usize)>)
    ensures
        match r {
            None => file_name(v@) is None && file_name_range(v@) is None,
            Some((a, b)) => a <= b <= v@.len() && file_name(v@) == Some(v@.subrange(a as int, b as int))
                && file_name_range(v@) == Some((a as int, b as int)),
        },
{
    let mut end: usize = v.len();
    assert(v@.subrange(0, end as int) =~= v@);
    loop
        invariant
            end <= v@.len(),
            file_name(v@) == file_name(v@.subrange(0, end as int)),
            file_name_range(v@) == file_name_range(v@.subrange(0, end as int)),
        decreases end,
    {
        if end == 0 {
            return None;
        }
        if v[end - 1] == '/' {
            proof {
                lemma_file_name_slash(v@, end as int);
                assert(v@.subrange(0, end as int).drop_last() =~= v@.subrange(0, end - 1));
            }
            end = end - 1;
            continue;
        }
        let ghost s = v@.subrange(0, end as int);
        let mut k: usize = end - 1;
        proof {
            lemma_seg_start_step(v@, end as int);
        }
        while k > 0 && v[k - 1] != '/'
            invariant
                k < end <= v@.len(),
                seg_start(s) == seg_start(v@.subrange(0, k as int)),
            decreases k,
        {
            proof {
                lemma_seg_start_step(v@, k as int);
            }
            k = k - 1;
        }
        proof {
            if k > 0 {
                lemma_seg_start_at_slash(v@, k as int);
            }
            assert(s.subrange(0, k as int) =~= v@.subrange(0, k as int));
            assert(s.subrange(k as int, s.len() as int) =~= v@.subrange(k as int, end as int));
            reveal_strlit(".");
            reveal_strlit("..");
        }
        let len = end - k;
        if len == 1 && v[k] == '.' {
            assert(v@.subrange(k as int, end as int) =~= "."@);
            end = k;
            continue;
        }
        if len == 2 && v[k] == '.' && v[k + 1] == '.' {
            assert(v@.subrange(k as int, end as int) =~= ".."@);
            return None;
        }
        proof {
            let seg = v@.subrange(k as int, end as int);
            assert(seg.len() == len);
            if len == 1 {
                assert(seg[0] != "."@[0]);
            }
            if len == 2 {
                assert(seg[0] != ".."@[0] || seg[1] != ".."@[1]);
            }
            assert(seg != "."@);
            assert(seg != ".."@);
            assert(s.len() > 0 && s.last() != '/');
        }
        return Some((k, end));
    }
}

proof fn lemma_last_dot_step(s: Seq<char>, j: int)
    requires
        0 < j <= s.len(),
        s[j - 1] != '.',
    ensures
        last_dot(s.subrange(0, j)) == last_dot(s.subrange(0, j - 1)),
{
    assert(s.subrange(0, j).drop_last() =~= s.subrange(0, j - 1));
}

/// The extension of the path held in `path`, as in [`path_extension`].
pub fn extension_of(path: &[char]) -> (r: Option<Vec<char>>)
    ensures
        match r {
            None => path_extension(path@) is None,
            Some(e) => path_extension(path@) == Some(e@),
        },
{
    match file_name_bounds(path) {
        None => None,
        Some((a, b)) => {
            let ghost name = path@.subrange(a as int, b as int);
            // scan back for the last dot of the name
            let mut j: usize = b;
            assert(name.subrange(0, (j - a) as int) =~= name);
            while j > a && path[j - 1] != '.'
                invariant
                    a <= j <= b <= path@.len(),
                    name == path@.subrange(a as int, b as int),
                    last_dot(name) == last_dot(name.subrange(0, (j - a) as int)),
                decreases j,
            {
                proof {
                    assert(name[(j - a) - 1] == path@[j - 1]);
                    lemma_last_dot_step(name, (j - a) as int);
                }
                j = j - 1;
            }
            if j == a {
                assert(name.subrange(0, 0) =~= Seq::<char>::empty());
                return None;
            }
            proof {
                let t = name.subrange(0, (j - a) as int);
                assert(t.last() == path@[j - 1]);
            }
            if j - 1 == a {
                return None;
            }
            let mut e: Vec<char> = Vec::new();
            let mut i: usize = j;
            while i < b
                invariant
                    j <= i <= b <= path@.len(),
                    e@ == path@.subrange(j as int, i as int),
                decreases b - i,
            {
                e.push(path[i]);
                assert(path@.subrange(j as int, i + 1) =~= path@.subrange(j as int, i as int).push(path@[i as int]));
                i += 1;
            }
            assert(name.subrange(j - a, name.len() as int) =~= path@.subrange(j as int, b as int));
            Some(e)
        },
    }
}

/// Extensions (lower case) recognised as images.
pub open spec fn image_extensions() -> Seq<Seq<char>> {
    seq![
        "jpg"@, "jpeg"@, "png"@, "gif"@, "webp"@, "bmp"@, "tif"@, "tiff"@, "ico"@, "avif"@,
        "cr2"@, "cr3"@, "nef"@, "arw"@, "dng"@, "orf"@, "rw2"@, "raf"@, "pef"@, "srw"@,
    ]
}

/// Extensions (lower case) recognised as videos.
pub open spec fn video_extensions() -> Seq<Seq<char>> {
    seq!["mp4"@, "m4v"@, "mov"@, "mkv"@, "webm"@, "avi"@, "wmv"@, "flv"@, "mpg"@, "mpeg"@]
}

/// Extensions (lower case) recognised as 3D models.
pub open spec fn model_extensions() -> Seq<Seq<char>> {
    seq!["glb"@, "gltf"@, "obj"@, "stl"@, "fbx"@, "ply"@, "dae"@, "3mf"@, "max"@]
}

/// The extensions listed for a kind.
pub open spec fn kind_extensions(kind: MediaKind) -> Seq<Seq<char>> {
    match kind {
        MediaKind::Image => image_extensions(),
        MediaKind::Video => video_extensions(),
        MediaKind::Model => model_extensions(),
        MediaKind::Unknown => Seq::empty(),
    }
}

pub open spec fn views(list: Seq<&'static str>) -> Seq<Seq<char>> {
    list.map_values(|e: &'static str| e@)
}

/// Classification of an already lower-cased extension.
pub open spec fn kind_of_extension(ext: Seq<char>) -> Option<MediaKind> {
    if image_extensions().contains(ext) {
        Some(MediaKind::Image)
    } else if video_extensions().contains(ext) {
        Some(MediaKind::Video)
    } else if model_extensions().contains(ext) {
        Some(MediaKind::Model)
    } else {
        None
    }
}

/// Classification of a path by its (ASCII-case-insensitive) extension.
pub open spec fn classify(path: Seq<char>) -> Option<MediaKind> {
    match path_extension(path) {
        Some(e) => kind_of_extension(lower(e)),
        None => None,
    }
}

/// List supported extensions for a media kind.
pub fn extensions_for(kind: MediaKind) -> (r: &'static [&'static str])
    ensures
        views(r@) == kind_extensions(kind),
{
    let r: &'static [&'static str] = match kind {
        MediaKind::Image => &[
            "jpg", "jpeg", "png", "gif", "webp", "bmp", "tif", "tiff", "ico", "avif",
            "cr2", "cr3", "nef", "arw", "dng", "orf", "rw2", "raf", "pef", "srw",
        ],
        MediaKind::Video => &["mp4", "m4v", "mov", "mkv", "webm", "avi", "wmv", "flv", "mpg", "mpeg"],
        MediaKind::Model => &["glb", "gltf", "obj", "stl", "fbx", "ply", "dae", "3mf", "max"],
        MediaKind::Unknown => &[],
    };
    assert(views(r@) =~= kind_extensions(kind));
    r
}

/// Whether `e` is one of the listed extensions.
fn listed(e: &[char], list: &[&'static str]) -> (r: bool)
    ensures
        r == views(list@).contains(e@),
{
    let mut i: usize = 0;
    while i < list.len()
        invariant
            i <= list@.len(),
            forall|k: int| 0 <= k < i ==> list@[k]@ != e@,
        decreases list@.len() - i,
    {
        if chars_eq_str(e, list[i]) {
            assert(views(list@)[i as int] == e@);
            return true;
        }
        i += 1;
    }
    assert forall|k: int| 0 <= k < views(list@).len() implies views(list@)[k] != e@ by {
        assert(views(list@)[k] == list@[k]@);
    }
    false
}

/// Classify a file path by extension.
pub fn classify_extension(path: &str) -> (r: Option<MediaKind>)
    ensures
        r == classify(path@),
{
    let chars = chars_of(path);
    let ext = match extension_of(chars.as_slice()) {
        Some(e) => e,
        None => return None,
    };
    let lowered = lower_chars(ext.as_slice());
    if listed(lowered.as_slice(), extensions_for(MediaKind::Image)) {
        return Some(MediaKind::Image);
    }
    if listed(lowered.as_slice(), extensions_for(MediaKind::Video)) {
        return Some(MediaKind::Video);
    }
    if listed(lowered.as_slice(), extensions_for(MediaKind::Model)) {
        return Some(MediaKind::Model);
    }
    None
}

impl MediaKind {
    /// The kind of a path; `Unknown` when its extension is not recognised.
    pub fn from_path(path: &str) -> (r: MediaKind)
        ensures
            r == match classify(path@) {
                Some(k) => k,
                None => MediaKind::Unknown,
            },
    {
        match classify_extension(path) {
            Some(k) => k,
            None => MediaKind::Unknown,
        }
    }

    /// Lower-case label of the kind.
    pub fn label(self) -> (s: &'static str)
        ensures
            s@ == self.spec_label(),
    {
        match self {
            MediaKind::Image => "image",
            MediaKind::Video => "video",
            MediaKind::Model => "model",
            MediaKind::Unknown => "unknown",
        }
    }

    pub open spec fn spec_label(self) -> Seq<char> {
        match self {
            MediaKind::Image => "image"@,
            MediaKind::Video => "video"@,
            MediaKind::Model => "model"@,
            MediaKind::Unknown => "unknown"@,
        }
    }
}

/// Title and extension list of a file-dialog filter accepting every supported type.
pub fn all_supported_filter() -> (r: (&'static str, Vec<&'static str>))
    ensures
        r.0@ == "Supported files"@,
        views(r.1@) == image_extensions() + video_extensions() + model_extensions(),
{
    let mut exts: Vec<&'static str> = Vec::new();
    let a = extensions_for(MediaKind::Image);
    let b = extensions_for(MediaKind::Video);
    let c = extensions_for(MediaKind::Model);
    exts.extend_from_slice(a);
    exts.extend_from_slice(b);
    exts.extend_from_slice(c);
    proof {
        assert(exts@ =~= a@ + b@ + c@);
        assert(views(a@ + b@ + c@) =~= views(a@) + views(b@) + views(c@));
    }
    ("Supported files", exts)
}

} // verus!
