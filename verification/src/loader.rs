//! Load bookkeeping: generation numbers of load requests and path comparison.

use vstd::prelude::*;

use crate::text::{chars_eq, chars_of, lower, lower_chars};

verus! {

broadcast use vstd::string::group_string_axioms;

/// Source of generation numbers tagging load requests; each call hands out a new one.
pub struct GenerationCounter {
    next: u64,
}

impl GenerationCounter {
    /// The number the next request gets.
    pub closed spec fn peek(&self) -> u64 {
        self.next
    }

    /// Counter whose first generation is 1.
    pub fn new() -> (r: Self)
        ensures
            r.peek() == 1,
    {
        GenerationCounter { next: 1 }
    }
}

/// The generation after `g`, wrapping at `u64::MAX`.
pub open spec fn advanced(g: u64) -> u64 {
    if g == u64::MAX {
        0
    } else {
        (g + 1) as u64
    }
}

/// The generation `n` calls after `g`.
pub open spec fn advanced_by(g: u64, n: nat) -> u64
    decreases n,
{
    if n == 0 {
        g
    } else {
        advanced(advanced_by(g, (n - 1) as nat))
    }
}

/// Hands out the current generation number and advances the counter (wrapping at `u64::MAX`).
pub fn next_generation(counter: &mut GenerationCounter) -> (g: u64)
    ensures
        g == old(counter).peek(),
        final(counter).peek() == advanced(old(counter).peek()),
{
    let g = counter.next;
    counter.next = counter.next.wrapping_add(1);
    g
}

proof fn lemma_advanced_by(g: u64, n: nat)
    requires
        g + n <= u64::MAX,
    ensures
        advanced_by(g, n) == g + n,
    decreases n,
{
    if n > 0 {
        lemma_advanced_by(g, (n - 1) as nat);
    }
}

/// Law: successive calls hand out successive numbers, so a later call returns a larger one
/// until the counter reaches `u64::MAX`; from a new counter no call returns 0.
pub proof fn law_generations_increase(g: u64, j: nat, k: nat)
    requires
        j < k,
        g + k <= u64::MAX,
    ensures
        advanced_by(g, k) == g + k,
        advanced_by(g, j) < advanced_by(g, k),
        g >= 1 ==> advanced_by(g, j) >= 1,
{
    lemma_advanced_by(g, j);
    lemma_advanced_by(g, k);
}

/// Whether `c` separates path components (`/`, and also `\` for Windows paths).
pub open spec fn is_sep(c: char, windows: bool) -> bool {
    c == '/' || (windows && c == '\\')
}

/// A finished piece between separators is kept unless it is empty or `.`.
pub open spec fn keep_part(parts: Seq<Seq<char>>, piece: Seq<char>) -> Seq<Seq<char>> {
    if piece.len() > 0 && piece != "."@ {
        parts.push(piece)
    } else {
        parts
    }
}

/// Pieces finished so far, and the piece being read, after reading `s`.
pub open spec fn parts_scan(s: Seq<char>, windows: bool) -> (Seq<Seq<char>>, Seq<char>)
    decreases s.len(),
{
    if s.len() == 0 {
        (Seq::empty(), Seq::empty())
    } else {
        let prev = parts_scan(s.drop_last(), windows);
        if is_sep(s.last(), windows) {
            (keep_part(prev.0, prev.1), Seq::empty())
        } else {
            (prev.0, prev.1.push(s.last()))
        }
    }
}

/// The named components of a path: the non-empty pieces between separators, without `.`.
pub open spec fn named_parts(s: Seq<char>, windows: bool) -> Seq<Seq<char>> {
    let r = parts_scan(s, windows);
    keep_part(r.0, r.1)
}

/// Whether a path starts at the root.
pub open spec fn rooted(s: Seq<char>, windows: bool) -> bool {
    s.len() > 0 && is_sep(s[0], windows)
}

/// Whether a relative path starts with a `.` component.
pub open spec fn starts_at_cur_dir(s: Seq<char>, windows: bool) -> bool {
    s.len() > 0 && s[0] == '.' && (s.len() == 1 || is_sep(s[1], windows))
}

/// What path comparison looks at: rootedness, a leading `.`, and the named components.
pub open spec fn path_shape(s: Seq<char>, windows: bool) -> (bool, bool, Seq<Seq<char>>) {
    (rooted(s, windows), starts_at_cur_dir(s, windows), named_parts(s, windows))
}

/// Whether two paths name the same file: equal components, or (on Windows) the same text
/// up to ASCII case.
pub open spec fn spec_paths_equal(a: Seq<char>, b: Seq<char>, windows: bool) -> bool {
    path_shape(a, windows) == path_shape(b, windows) || (windows && lower(a) == lower(b))
}

fn is_dot(piece: &Vec<char>) -> (r: bool)
    ensures
        r == (piece@ == "."@),
{
    proof {
        reveal_strlit(".");
    }
    if piece.len() == 1 && piece[0] == '.' {
        assert(piece@ =~= "."@);
        true
    } else {
        proof {
            if piece@ == "."@ {
                assert(piece@[0] == "."@[0]);
            }
        }
        false
    }
}

/// The named components of the path held in `v`.
fn named_parts_of(v: &Vec<char>, windows: bool) -> (r: Vec<Vec<char>>)
    ensures
        r@.map_values(|p: Vec<char>| p@) == named_parts(v@, windows),
{
    let mut parts: Vec<Vec<char>> = Vec::new();
    let mut cur: Vec<char> = Vec::new();
    let mut i: usize = 0;
    while i < v.len()
        invariant
            i <= v@.len(),
            parts@.map_values(|p: Vec<char>| p@) == parts_scan(v@.take(i as int), windows).0,
            cur@ == parts_scan(v@.take(i as int), windows).1,
        decreases v@.len() - i,
    {
        let c = v[i];
        assert(v@.take(i + 1).drop_last() =~= v@.take(i as int));
        if c == '/' || (windows && c == '\\') {
            if cur.len() > 0 && !is_dot(&cur) {
                let ghost before = parts@;
                parts.push(cur);
                assert(parts@.map_values(|p: Vec<char>| p@) =~= before.map_values(|p: Vec<char>| p@).push(cur@));
            }
            cur = Vec::new();
            assert(cur@ =~= Seq::<char>::empty());
        } else {
            cur.push(c);
        }
        i += 1;
    }
    assert(v@.take(v@.len() as int) =~= v@);
    if cur.len() > 0 && !is_dot(&cur) {
        let ghost before = parts@;
        parts.push(cur);
        assert(parts@.map_values(|p: Vec<char>| p@) =~= before.map_values(|p: Vec<char>| p@).push(cur@));
    }
    parts
}

fn same_parts(a: &Vec<Vec<char>>, b: &Vec<Vec<char>>) -> (r: bool)
    ensures
        r == (a@.map_values(|p: Vec<char>| p@) == b@.map_values(|p: Vec<char>| p@)),
{
    let ghost av = a@.map_values(|p: Vec<char>| p@);
    let ghost bv = b@.map_values(|p: Vec<char>| p@);
    if a.len() != b.len() {
        assert(av.len() != bv.len());
        return false;
    }
    let mut i: usize = 0;
    while i < a.len()
        invariant
            a@.len() == b@.len(),
            av == a@.map_values(|p: Vec<char>| p@),
            bv == b@.map_values(|p: Vec<char>| p@),
            i <= a@.len(),
            forall|k: int| 0 <= k < i ==> av[k] == bv[k],
        decreases a@.len() - i,
    {
        if !chars_eq(a[i].as_slice(), b[i].as_slice()) {
            assert(av[i as int] != bv[i as int]);
            return false;
        }
        i += 1;
    }
    assert(av =~= bv);
    true
}

fn shape_flags(v: &Vec<char>, windows: bool) -> (r: (bool, bool))
    ensures
        r == (rooted(v@, windows), starts_at_cur_dir(v@, windows)),
{
    let n = v.len();
    let root = n > 0 && (v[0] == '/' || (windows && v[0] == '\\'));
    let cur = n > 0 && v[0] == '.' && (n == 1 || v[1] == '/' || (windows && v[1] == '\\'));
    (root, cur)
}

/// Whether two paths name the same file (see [`spec_paths_equal`]); `windows` selects
/// Windows separators and ASCII-case-insensitive comparison.
pub fn paths_equal(a: &str, b: &str, windows: bool) -> (r: bool)
    ensures
        r == spec_paths_equal(a@, b@, windows),
{
    let av = chars_of(a);
    let bv = chars_of(b);
    let fa = shape_flags(&av, windows);
    let fb = shape_flags(&bv, windows);
    let pa = named_parts_of(&av, windows);
    let pb = named_parts_of(&bv, windows);
    if fa.0 == fb.0 && fa.1 == fb.1 && same_parts(&pa, &pb) {
        return true;
    }
    if windows {
        let la = lower_chars(av.as_slice());
        let lb = lower_chars(bv.as_slice());
        return chars_eq(la.as_slice(), lb.as_slice());
    }
    false
}


/// Every path names the same file as itself.
pub proof fn law_paths_equal_reflexive(a: Seq<char>, windows: bool)
    ensures
        spec_paths_equal(a, a, windows),
{
}

/// Whether two paths name the same file does not depend on their order.
pub proof fn law_paths_equal_symmetric(a: Seq<char>, b: Seq<char>, windows: bool)
    ensures
        spec_paths_equal(a, b, windows) == spec_paths_equal(b, a, windows),
{
}


// ---------------------------------------------------------------------------
// Handling finished loads.
// ---------------------------------------------------------------------------

/// Generation carried by prefetch results, which belong to no request of the viewer.
pub const PREFETCH_GENERATION: u64 = u64::MAX;

/// What the viewer does with a finished load.
#[derive(Debug, Clone, Copy, PartialEq, Eq, Structural)]
pub enum ReadyDisposition {
    /// Drop it.
    Ignore,
    /// Keep the decoded image in the cache only.
    Cache,
    /// Show it (or its error) as the current media.
    Apply,
}

/// The disposition of a finished load tagged `msg_generation`, for the viewer's current
/// request `current_generation`: results of older requests are dropped, prefetches and
/// results for another file only feed the cache (when they are images), the rest is shown.
pub open spec fn ready_disposition_spec(
    msg_generation: u64,
    current_generation: u64,
    is_current_path: bool,
    is_decoded_image: bool,
) -> ReadyDisposition {
    if msg_generation != PREFETCH_GENERATION && msg_generation != current_generation {
        ReadyDisposition::Ignore
    } else if msg_generation == PREFETCH_GENERATION || !is_current_path {
        if is_decoded_image {
            ReadyDisposition::Cache
        } else {
            ReadyDisposition::Ignore
        }
    } else {
        ReadyDisposition::Apply
    }
}

/// What to do with a finished load.
pub fn ready_disposition(
    msg_generation: u64,
    current_generation: u64,
    is_current_path: bool,
    is_decoded_image: bool,
) -> (r: ReadyDisposition)
    ensures
        r == ready_disposition_spec(
            msg_generation,
            current_generation,
            is_current_path,
            is_decoded_image,
        ),
{
    if msg_generation != PREFETCH_GENERATION && msg_generation != current_generation {
        ReadyDisposition::Ignore
    } else if msg_generation == PREFETCH_GENERATION || !is_current_path {
        if is_decoded_image {
            ReadyDisposition::Cache
        } else {
            ReadyDisposition::Ignore
        }
    } else {
        ReadyDisposition::Apply
    }
}

/// Whether a quick preview is shown: it belongs to the current request and file, and no
/// image is shown yet.
pub fn preview_applies(
    msg_generation: u64,
    current_generation: u64,
    is_current_path: bool,
    showing_image: bool,
) -> (r: bool)
    ensures
        r == (msg_generation == current_generation && is_current_path && !showing_image),
{
    msg_generation == current_generation && is_current_path && !showing_image
}

/// A result of an older request is never shown, and never cached.
pub proof fn law_stale_results_are_dropped(
    msg_generation: u64,
    current_generation: u64,
    is_current_path: bool,
    is_decoded_image: bool,
)
    requires
        msg_generation != current_generation,
        msg_generation != PREFETCH_GENERATION,
    ensures
        ready_disposition_spec(msg_generation, current_generation, is_current_path, is_decoded_image)
            == ReadyDisposition::Ignore,
{
}

/// Only the current request's result for the current file is shown.
pub proof fn law_only_current_results_are_shown(
    msg_generation: u64,
    current_generation: u64,
    is_current_path: bool,
    is_decoded_image: bool,
)
    requires
        ready_disposition_spec(msg_generation, current_generation, is_current_path, is_decoded_image)
            == ReadyDisposition::Apply,
    ensures
        msg_generation == current_generation,
        msg_generation != PREFETCH_GENERATION,
        is_current_path,
{
}

} // verus!
