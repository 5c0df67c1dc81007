//! Character-level helpers shared by the text-processing modules.

use vstd::prelude::*;

verus! {

broadcast use vstd::string::group_string_axioms;

/// ASCII lower-casing of one character; other characters are unchanged.
pub open spec fn lower_char(c: char) -> char {
    if 'A' <= c && c <= 'Z' {
        ((c as u8) + 32) as char
    } else {
        c
    }
}

/// ASCII upper-casing of one character; other characters are unchanged.
pub open spec fn upper_char(c: char) -> char {
    if 'a' <= c && c <= 'z' {
        ((c as u8) - 32) as char
    } else {
        c
    }
}

pub open spec fn lower(s: Seq<char>) -> Seq<char> {
    s.map_values(|c: char| lower_char(c))
}

pub open spec fn upper(s: Seq<char>) -> Seq<char> {
    s.map_values(|c: char| upper_char(c))
}

/// The characters of a string slice, in order.
pub fn chars_of(s: &str) -> (v: Vec<char>)
    ensures
        v@ == s@,
{
    let mut v: Vec<char> = Vec::new();
    for c in it: s.chars()
        invariant
            it.seq() == s@,
            v@ == it.seq().take(it.index() as int),
    {
        v.push(c);
    }
    v
}

/// ASCII lower-casing of one character.
pub fn to_lower_char(c: char) -> (r: char)
    ensures
        r == lower_char(c),
{
    if 'A' <= c && c <= 'Z' {
        ((c as u8) + 32) as char
    } else {
        c
    }
}

/// ASCII upper-casing of one character.
pub fn to_upper_char(c: char) -> (r: char)
    ensures
        r == upper_char(c),
{
    if 'a' <= c && c <= 'z' {
        ((c as u8) - 32) as char
    } else {
        c
    }
}

/// Appends one character to a string (`String::push`).
#[verifier::external_body]
pub(crate) fn push_char(s: &mut String, c: char)
    ensures
        final(s)@ == old(s)@.push(c),
{
    s.push(c);
}

/// Whether two string slices hold the same characters.
pub(crate) fn str_eq(a: &str, b: &str) -> (r: bool)
    ensures
        r == (a@ == b@),
{
    let av = chars_of(a);
    let bv = chars_of(b);
    chars_eq(av.as_slice(), bv.as_slice())
}

/// A string holding exactly the given characters.
pub fn string_from_chars(v: &[char]) -> (s: String)
    ensures
        s@ == v@,
{
    let mut s = String::new();
    let mut i: usize = 0;
    while i < v.len()
        invariant
            i <= v@.len(),
            s@ == v@.take(i as int),
        decreases v@.len() - i,
    {
        push_char(&mut s, v[i]);
        assert(v@.take(i + 1) == v@.take(i as int).push(v@[i as int]));
        i += 1;
    }
    assert(v@.take(v@.len() as int) == v@);
    s
}

/// ASCII lower-case copy of a character sequence.
pub fn lower_chars(v: &[char]) -> (r: Vec<char>)
    ensures
        r@ == lower(v@),
{
    let mut r: Vec<char> = Vec::new();
    let mut i: usize = 0;
    while i < v.len()
        invariant
            i <= v@.len(),
            r@ == lower(v@.take(i as int)),
        decreases v@.len() - i,
    {
        r.push(to_lower_char(v[i]));
        assert(lower(v@.take(i + 1)) == lower(v@.take(i as int)).push(lower_char(v@[i as int])));
        i += 1;
    }
    assert(v@.take(v@.len() as int) == v@);
    r
}

/// ASCII upper-case copy of a character sequence.
pub fn upper_chars(v: &[char]) -> (r: Vec<char>)
    ensures
        r@ == upper(v@),
{
    let mut r: Vec<char> = Vec::new();
    let mut i: usize = 0;
    while i < v.len()
        invariant
            i <= v@.len(),
            r@ == upper(v@.take(i as int)),
        decreases v@.len() - i,
    {
        r.push(to_upper_char(v[i]));
        assert(upper(v@.take(i + 1)) == upper(v@.take(i as int)).push(upper_char(v@[i as int])));
        i += 1;
    }
    assert(v@.take(v@.len() as int) == v@);
    r
}

/// Whether two character sequences are equal.
pub fn chars_eq(a: &[char], b: &[char]) -> (r: bool)
    ensures
        r == (a@ == b@),
{
    if a.len() != b.len() {
        return false;
    }
    let mut i: usize = 0;
    while i < a.len()
        invariant
            a@.len() == b@.len(),
            i <= a@.len(),
            forall|k: int| 0 <= k < i ==> a@[k] == b@[k],
        decreases a@.len() - i,
    {
        if a[i] != b[i] {
            return false;
        }
        i += 1;
    }
    assert(a@ =~= b@);
    true
}

/// Whether a character sequence equals the characters of a string slice.
pub fn chars_eq_str(a: &[char], b: &str) -> (r: bool)
    ensures
        r == (a@ == b@),
{
    let bc = chars_of(b);
    chars_eq(a, bc.as_slice())
}


// ---------------------------------------------------------------------------
// Unicode white space and trimming (`char::is_whitespace`, `str::trim`).
// ---------------------------------------------------------------------------

/// The characters with the Unicode `White_Space` property.
pub open spec fn is_white_space(c: char) -> bool {
    ||| c == '\t'
    ||| c == '\n'
    ||| c == '\u{0B}'
    ||| c == '\u{0C}'
    ||| c == '\r'
    ||| c == ' '
    ||| c == '\u{85}'
    ||| c == '\u{A0}'
    ||| c == '\u{1680}'
    ||| ('\u{2000}' <= c && c <= '\u{200A}')
    ||| c == '\u{2028}'
    ||| c == '\u{2029}'
    ||| c == '\u{202F}'
    ||| c == '\u{205F}'
    ||| c == '\u{3000}'
}

/// `s` without its leading white space.
pub open spec fn trim_start(s: Seq<char>) -> Seq<char>
    decreases s.len(),
{
    if s.len() > 0 && is_white_space(s[0]) {
        trim_start(s.skip(1))
    } else {
        s
    }
}

/// `s` without its trailing white space.
pub open spec fn trim_end(s: Seq<char>) -> Seq<char>
    decreases s.len(),
{
    if s.len() > 0 && is_white_space(s.last()) {
        trim_end(s.drop_last())
    } else {
        s
    }
}

/// `s` without leading and trailing white space.
pub open spec fn trim(s: Seq<char>) -> Seq<char> {
    trim_end(trim_start(s))
}

/// Whether `c` has the Unicode `White_Space` property.
pub fn is_white_space_char(c: char) -> (r: bool)
    ensures
        r == is_white_space(c),
{
    c == '\t' || c == '\n' || c == '\u{0B}' || c == '\u{0C}' || c == '\r' || c == ' ' || c
        == '\u{85}' || c == '\u{A0}' || c == '\u{1680}' || ('\u{2000}' <= c && c <= '\u{200A}')
        || c == '\u{2028}' || c == '\u{2029}' || c == '\u{202F}' || c == '\u{205F}' || c
        == '\u{3000}'
}

/// The characters of `s` from index `a` up to `b`.
pub fn copy_range(s: &[char], a: usize, b: usize) -> (r: Vec<char>)
    requires
        a <= b <= s@.len(),
    ensures
        r@ == s@.subrange(a as int, b as int),
{
    let mut r: Vec<char> = Vec::new();
    let mut i: usize = a;
    while i < b
        invariant
            a <= i <= b <= s@.len(),
            r@ == s@.subrange(a as int, i as int),
        decreases b - i,
    {
        r.push(s[i]);
        assert(s@.subrange(a as int, i + 1) =~= s@.subrange(a as int, i as int).push(s@[i as int]));
        i += 1;
    }
    r
}

/// `s` without leading and trailing white space.
pub fn trim_chars(s: &[char]) -> (r: Vec<char>)
    ensures
        r@ == trim(s@),
{
    let mut a: usize = 0;
    assert(s@.skip(0) =~= s@);
    while a < s.len() && is_white_space_char(s[a])
        invariant
            a <= s@.len(),
            trim_start(s@.skip(a as int)) == trim_start(s@),
        decreases s@.len() - a,
    {
        assert(s@.skip(a as int).skip(1) =~= s@.skip(a + 1));
        a += 1;
    }
    assert(trim_start(s@) == s@.skip(a as int));
    let mut b: usize = s.len();
    assert(s@.subrange(a as int, b as int) =~= s@.skip(a as int));
    while b > a && is_white_space_char(s[b - 1])
        invariant
            a <= b <= s@.len(),
            trim_end(s@.subrange(a as int, b as int)) == trim(s@),
        decreases b,
    {
        assert(s@.subrange(a as int, b as int).drop_last() =~= s@.subrange(a as int, b - 1));
        b -= 1;
    }
    copy_range(s, a, b)
}

// ---------------------------------------------------------------------------
// Splitting, joining and searching.
// ---------------------------------------------------------------------------

/// Whether `s` ends with the nonempty pattern `pat`.
pub open spec fn ends_with(s: Seq<char>, pat: Seq<char>) -> bool {
    pat.len() <= s.len() && s.subrange(s.len() - pat.len(), s.len() as int) == pat
}

/// Whether `s` starts with `pat`.
pub open spec fn starts_with(s: Seq<char>, pat: Seq<char>) -> bool {
    pat.len() <= s.len() && s.take(pat.len() as int) == pat
}

/// Whether `pat` occurs in `s`.
pub open spec fn contains(s: Seq<char>, pat: Seq<char>) -> bool {
    exists|i: int| 0 <= i && i + pat.len() <= s.len() && #[trigger] s.subrange(i, i + pat.len()) == pat
}

/// Pieces of `s` between the occurrences of the nonempty pattern `pat`, found from the left
/// without overlap; with `limit` `Some(n)`, at most `n` pieces are made and the last one holds
/// the rest (`str::splitn`, for `n >= 1`), with `None` every occurrence splits (`str::split`).
pub open spec fn split_pieces(s: Seq<char>, pat: Seq<char>, limit: Option<nat>) -> Seq<Seq<char>>
    decreases s.len(),
{
    if s.len() == 0 {
        seq![Seq::<char>::empty()]
    } else {
        let p = split_pieces(s.drop_last(), pat, limit);
        let cur = p.last().push(s.last());
        if ends_with(cur, pat) && (limit is None || p.len() < limit->0) {
            p.update(p.len() - 1, cur.subrange(0, cur.len() - pat.len())).push(Seq::<char>::empty())
        } else {
            p.update(p.len() - 1, cur)
        }
    }
}

pub proof fn lemma_split_pieces_nonempty(s: Seq<char>, pat: Seq<char>, limit: Option<nat>)
    ensures
        split_pieces(s, pat, limit).len() >= 1,
    decreases s.len(),
{
    if s.len() > 0 {
        lemma_split_pieces_nonempty(s.drop_last(), pat, limit);
    }
}

/// Whether the character `c` does not occur in `t`.
pub open spec fn free_of(t: Seq<char>, c: char) -> bool {
    forall|i: int| 0 <= i < t.len() ==> t[i] != c
}

/// Splitting text free of the one-character separator gives the text itself.
pub proof fn lemma_split_free(t: Seq<char>, c: char)
    requires
        free_of(t, c),
    ensures
        split_pieces(t, seq![c], None) == seq![t],
    decreases t.len(),
{
    if t.len() > 0 {
        lemma_split_free(t.drop_last(), c);
        let cur = t.drop_last().push(t.last());
        assert(cur =~= t);
        assert(!ends_with(cur, seq![c])) by {
            if ends_with(cur, seq![c]) {
                assert(cur.subrange(cur.len() - 1, cur.len() as int)[0] == cur[cur.len() - 1]);
            }
        }
        assert(seq![t.drop_last()].update(0, cur) =~= seq![t]);
    } else {
        assert(t =~= Seq::<char>::empty());
    }
}

/// Splitting `s`, the separator `c` and then text free of it gives the pieces of `s` and that
/// text as one more piece.
pub proof fn lemma_split_then(s: Seq<char>, t: Seq<char>, c: char)
    requires
        free_of(t, c),
    ensures
        split_pieces(s + seq![c] + t, seq![c], None) == split_pieces(s, seq![c], None).push(t),
    decreases t.len(),
{
    lemma_split_pieces_nonempty(s, seq![c], None);
    let p = split_pieces(s, seq![c], None);
    if t.len() == 0 {
        let x = s + seq![c];
        assert(s + seq![c] + t =~= x);
        assert(x.drop_last() =~= s);
        let cur = p.last().push(c);
        assert(ends_with(cur, seq![c])) by {
            assert(cur.subrange(cur.len() - 1, cur.len() as int) =~= seq![c]);
        }
        assert(cur.subrange(0, cur.len() - 1) =~= p.last());
        assert(p.update(p.len() - 1, p.last()) =~= p);
        assert(t =~= Seq::<char>::empty());
    } else {
        lemma_split_then(s, t.drop_last(), c);
        let x = s + seq![c] + t;
        assert(x.drop_last() =~= s + seq![c] + t.drop_last());
        let q = p.push(t.drop_last());
        let cur = q.last().push(x.last());
        assert(cur =~= t);
        assert(!ends_with(cur, seq![c])) by {
            if ends_with(cur, seq![c]) {
                assert(cur.subrange(cur.len() - 1, cur.len() as int)[0] == cur[cur.len() - 1]);
            }
        }
        assert(q.update(q.len() - 1, cur) =~= p.push(t));
    }
}

/// Splitting text free of the pattern's first character gives the text itself.
pub proof fn lemma_split_free_of_pat(t: Seq<char>, pat: Seq<char>)
    requires
        pat.len() > 0,
        free_of(t, pat[0]),
    ensures
        split_pieces(t, pat, None) == seq![t],
    decreases t.len(),
{
    if t.len() > 0 {
        lemma_split_free_of_pat(t.drop_last(), pat);
        let cur = t.drop_last().push(t.last());
        assert(cur =~= t);
        if ends_with(cur, pat) {
            let st = cur.len() - pat.len();
            assert(cur.subrange(st, cur.len() as int)[0] == cur[st]);
        }
        assert(seq![t.drop_last()].update(0, cur) =~= seq![t]);
    } else {
        assert(t =~= Seq::<char>::empty());
    }
}

/// Splitting `a`, then part of the pattern, gives `a` with that part as one piece.
proof fn lemma_split_pat_prefix(a: Seq<char>, pat: Seq<char>, k: int)
    requires
        pat.len() > 0,
        free_of(a, pat[0]),
        0 <= k < pat.len(),
    ensures
        split_pieces(a + pat.take(k), pat, None) == seq![a + pat.take(k)],
    decreases k,
{
    if k == 0 {
        assert(a + pat.take(0) =~= a);
        lemma_split_free_of_pat(a, pat);
    } else {
        lemma_split_pat_prefix(a, pat, k - 1);
        let x = a + pat.take(k);
        assert(x.drop_last() =~= a + pat.take(k - 1));
        let cur = (a + pat.take(k - 1)).push(x.last());
        assert(cur =~= x);
        if ends_with(cur, pat) {
            let st = cur.len() - pat.len();
            assert(st < a.len());
            assert(cur.subrange(st, cur.len() as int)[0] == cur[st]);
            assert(cur[st] == a[st]);
            assert(false);
        }
        assert(seq![a + pat.take(k - 1)].update(0, cur) =~= seq![x]);
    }
}

/// Splitting `a`, the pattern and part of `t` gives `a` and that part of `t`.
proof fn lemma_split_pat_rest(a: Seq<char>, pat: Seq<char>, t: Seq<char>, j: int)
    requires
        pat.len() > 0,
        free_of(a, pat[0]),
        free_of(t, pat[0]),
        0 <= j <= t.len(),
    ensures
        split_pieces(a + pat + t.take(j), pat, None) == seq![a, t.take(j)],
    decreases j,
{
    if j == 0 {
        let k = pat.len() - 1;
        lemma_split_pat_prefix(a, pat, k);
        let x = a + pat;
        assert(a + pat + t.take(0) =~= x);
        assert(x.drop_last() =~= a + pat.take(k));
        let cur = (a + pat.take(k)).push(x.last());
        assert(cur =~= x);
        assert(ends_with(cur, pat)) by {
            assert(cur.subrange(cur.len() - pat.len(), cur.len() as int) =~= pat);
        }
        assert(cur.subrange(0, cur.len() - pat.len()) =~= a);
        assert(t.take(0) =~= Seq::<char>::empty());
        assert(seq![a + pat.take(k)].update(0, a).push(Seq::<char>::empty()) =~= seq![a, t.take(0)]);
    } else {
        lemma_split_pat_rest(a, pat, t, j - 1);
        let x = a + pat + t.take(j);
        assert(x.drop_last() =~= a + pat + t.take(j - 1));
        let cur = t.take(j - 1).push(x.last());
        assert(cur =~= t.take(j));
        if ends_with(cur, pat) {
            let st = cur.len() - pat.len();
            assert(cur.subrange(st, cur.len() as int)[0] == cur[st]);
            assert(cur[st] == t[st]);
            assert(false);
        }
        assert(seq![a, t.take(j - 1)].update(1, cur) =~= seq![a, t.take(j)]);
    }
}

/// Splitting `a`, the pattern and `t`, neither holding the pattern's first character, gives
/// the two pieces `a` and `t`.
pub proof fn lemma_split_two(a: Seq<char>, pat: Seq<char>, t: Seq<char>)
    requires
        pat.len() > 0,
        free_of(a, pat[0]),
        free_of(t, pat[0]),
    ensures
        split_pieces(a + pat + t, pat, None) == seq![a, t],
{
    lemma_split_pat_rest(a, pat, t, t.len() as int);
    assert(t.take(t.len() as int) =~= t);
}

/// The views of a sequence of strings.
pub open spec fn string_views(v: Seq<String>) -> Seq<Seq<char>> {
    v.map_values(|x: String| x@)
}

/// Whether the characters of `s` up to `end` end with `pat`.
fn ends_with_at(s: &[char], end: usize, pat: &[char]) -> (r: bool)
    requires
        end <= s@.len(),
    ensures
        r == ends_with(s@.subrange(0, end as int), pat@),
{
    if pat.len() > end {
        return false;
    }
    let start = end - pat.len();
    let mut k: usize = 0;
    while k < pat.len()
        invariant
            start + pat@.len() == end <= s@.len(),
            k <= pat@.len(),
            forall|j: int| 0 <= j < k ==> s@[start + j] == pat@[j],
        decreases pat@.len() - k,
    {
        if s[start + k] != pat[k] {
            assert(s@.subrange(0, end as int).subrange(start as int, end as int)[k as int] != pat@[k as int]);
            return false;
        }
        k += 1;
    }
    assert(s@.subrange(0, end as int).subrange(start as int, end as int) =~= pat@);
    true
}

/// Pieces of `s` split at the nonempty pattern `pat`, as in [`split_pieces`].
pub fn split_chars(s: &[char], pat: &[char], limit: Option<usize>) -> (r: Vec<String>)
    requires
        pat@.len() > 0,
    ensures
        string_views(r@) == split_pieces(
            s@,
            pat@,
            match limit {
                Some(n) => Some(n as nat),
                None => None,
            },
        ),
{
    let ghost lim: Option<nat> = match limit {
        Some(n) => Some(n as nat),
        None => None,
    };
    let mut pieces: Vec<String> = Vec::new();
    let mut cur: Vec<char> = Vec::new();
    let mut i: usize = 0;
    assert(s@.take(0) =~= Seq::<char>::empty());
    assert(string_views(pieces@).push(cur@) =~= seq![Seq::<char>::empty()]);
    while i < s.len()
        invariant
            i <= s@.len(),
            pat@.len() > 0,
            lim == match limit {
                Some(n) => Some(n as nat),
                None => None,
            },
            string_views(pieces@).push(cur@) == split_pieces(s@.take(i as int), pat@, lim),
        decreases s@.len() - i,
    {
        let ghost t = s@.take(i + 1);
        let ghost p = split_pieces(s@.take(i as int), pat@, lim);
        assert(t.drop_last() =~= s@.take(i as int));
        proof {
            lemma_split_pieces_nonempty(s@.take(i as int), pat@, lim);
        }
        cur.push(s[i]);
        assert(p.last().push(t.last()) =~= cur@);
        let cut_allowed = match limit {
            Some(n) => n > 0 && pieces.len() < n - 1,
            None => true,
        };
        assert(string_views(pieces@).len() == pieces@.len());
        if cut_allowed && ends_with_at(cur.as_slice(), cur.len(), pat) {
            assert(cur@.subrange(0, cur@.len() as int) =~= cur@);
            let keep = cur.len() - pat.len();
            let piece = copy_range(cur.as_slice(), 0, keep);
            let s_piece = string_from_chars(piece.as_slice());
            pieces.push(s_piece);
            cur = Vec::new();
            assert(string_views(pieces@).push(cur@) =~= p.update(
                p.len() - 1,
                p.last().push(t.last()).subrange(0, p.last().push(t.last()).len() - pat@.len()),
            ).push(Seq::<char>::empty()));
        } else {
            proof {
                if cut_allowed {
                    assert(cur@.subrange(0, cur@.len() as int) =~= cur@);
                }
            }
            assert(string_views(pieces@).push(cur@) =~= p.update(p.len() - 1, p.last().push(t.last())));
        }
        i += 1;
    }
    assert(s@.take(s@.len() as int) =~= s@);
    let last = string_from_chars(cur.as_slice());
    pieces.push(last);
    assert(string_views(pieces@) =~= split_pieces(s@, pat@, lim));
    pieces
}

/// The pieces joined, with `sep` between consecutive pieces.
pub open spec fn join(pieces: Seq<Seq<char>>, sep: Seq<char>) -> Seq<char>
    decreases pieces.len(),
{
    if pieces.len() == 0 {
        Seq::empty()
    } else if pieces.len() == 1 {
        pieces[0]
    } else {
        join(pieces.drop_last(), sep) + sep + pieces.last()
    }
}

/// Appends the characters of `t` to `v`.
pub fn append_chars(v: &mut Vec<char>, t: &[char])
    ensures
        final(v)@ == old(v)@ + t@,
{
    let mut i: usize = 0;
    while i < t.len()
        invariant
            i <= t@.len(),
            v@ == old(v)@ + t@.take(i as int),
        decreases t@.len() - i,
    {
        v.push(t[i]);
        assert(old(v)@ + t@.take(i + 1) =~= (old(v)@ + t@.take(i as int)).push(t@[i as int]));
        i += 1;
    }
    assert(t@.take(t@.len() as int) =~= t@);
}

/// Whether `pat` starts at index `i` of `s`.
pub fn matches_at(s: &[char], i: usize, pat: &[char]) -> (r: bool)
    requires
        i <= s@.len(),
    ensures
        r == (i + pat@.len() <= s@.len() && s@.subrange(i as int, i + pat@.len()) == pat@),
{
    if pat.len() > s.len() - i {
        return false;
    }
    let mut k: usize = 0;
    while k < pat.len()
        invariant
            i + pat@.len() <= s@.len(),
            s@.len() == s.len(),
            k <= pat@.len(),
            forall|j: int| 0 <= j < k ==> s@[i + j] == pat@[j],
        decreases pat@.len() - k,
    {
        if s[i + k] != pat[k] {
            assert(s@.subrange(i as int, i + pat@.len())[k as int] != pat@[k as int]);
            return false;
        }
        k += 1;
    }
    assert(s@.subrange(i as int, i + pat@.len()) =~= pat@);
    true
}

/// Whether `s` starts with `pat`.
pub fn starts_with_chars(s: &[char], pat: &[char]) -> (r: bool)
    ensures
        r == starts_with(s@, pat@),
{
    let r = matches_at(s, 0, pat);
    proof {
        if pat@.len() <= s@.len() {
            assert(s@.subrange(0, pat@.len() as int) =~= s@.take(pat@.len() as int));
        }
    }
    r
}

/// Whether `pat` occurs in `s`.
pub fn contains_chars(s: &[char], pat: &[char]) -> (r: bool)
    ensures
        r == contains(s@, pat@),
{
    let mut i: usize = 0;
    while i < s.len()
        invariant
            i <= s@.len(),
            forall|j: int| 0 <= j < i && j + pat@.len() <= s@.len() ==> #[trigger] s@.subrange(j, j + pat@.len()) != pat@,
        decreases s@.len() - i,
    {
        if matches_at(s, i, pat) {
            return true;
        }
        i += 1;
    }
    if matches_at(s, s.len(), pat) {
        return true;
    }
    assert forall|j: int| 0 <= j && j + pat@.len() <= s@.len() implies #[trigger] s@.subrange(
        j,
        j + pat@.len(),
    ) != pat@ by {}
    false
}


// ---------------------------------------------------------------------------
// Decimal numerals.
// ---------------------------------------------------------------------------

/// The ASCII digit of `d < 10`.
pub open spec fn digit_char(d: nat) -> char {
    (('0' as u32) + d) as char
}

/// The decimal numeral of `n`, without leading zeros (`"0"` for zero).
pub open spec fn decimal(n: nat) -> Seq<char>
    decreases n,
{
    if n < 10 {
        seq![digit_char(n)]
    } else {
        decimal(n / 10).push(digit_char(n % 10))
    }
}

fn digit(d: u64) -> (c: char)
    requires
        d < 10,
    ensures
        c == digit_char(d as nat),
{
    if d == 0 {
        '0'
    } else if d == 1 {
        '1'
    } else if d == 2 {
        '2'
    } else if d == 3 {
        '3'
    } else if d == 4 {
        '4'
    } else if d == 5 {
        '5'
    } else if d == 6 {
        '6'
    } else if d == 7 {
        '7'
    } else if d == 8 {
        '8'
    } else {
        '9'
    }
}

/// The decimal numeral of `n` (`n.to_string()`).
pub fn decimal_chars(n: u64) -> (r: Vec<char>)
    ensures
        r@ == decimal(n as nat),
{
    if n < 10 {
        let mut v: Vec<char> = Vec::new();
        v.push(digit(n));
        return v;
    }
    // digits from the least significant one
    let mut rev: Vec<char> = Vec::new();
    let mut m: u64 = n;
    while m >= 10
        invariant
            m <= n,
            decimal(n as nat) == decimal(m as nat) + rev@.reverse(),
        decreases m,
    {
        let d = digit(m % 10);
        assert(decimal(m as nat) == decimal((m / 10) as nat).push(d));
        let ghost old_rev = rev@;
        rev.push(d);
        assert(rev@.reverse() =~= seq![d] + old_rev.reverse());
        assert(decimal(m as nat) + old_rev.reverse() =~= decimal((m / 10) as nat) + rev@.reverse());
        m = m / 10;
    }
    let mut out: Vec<char> = Vec::new();
    out.push(digit(m));
    assert(decimal(m as nat) =~= seq![digit_char(m as nat)]);
    let mut k: usize = rev.len();
    while k > 0
        invariant
            k <= rev@.len(),
            out@ + rev@.take(k as int).reverse() == decimal(n as nat),
        decreases k,
    {
        assert(rev@.take(k as int).reverse() =~= seq![rev@[k - 1]] + rev@.take(k - 1).reverse());
        out.push(rev[k - 1]);
        assert(out@ + rev@.take(k - 1).reverse() =~= decimal(n as nat));
        k -= 1;
    }
    assert(rev@.take(0).reverse() =~= Seq::<char>::empty());
    assert(out@ =~= decimal(n as nat));
    out
}


} // verus!
