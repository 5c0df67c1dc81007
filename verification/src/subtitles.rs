//! Subtitle text processing: SRT and ASS/SSA cue extraction, override-tag stripping and
//! WebVTT payload cleanup.
//!
//! Cue times are produced as the text of their hour, minute and second fields; turning
//! them into seconds is left to the caller, which owns the floating-point arithmetic.

use vstd::prelude::*;

use crate::text::{
    append_chars, chars_of, copy_range, contains, contains_chars, join, lower, lower_chars, matches_at,
    split_chars, split_pieces, starts_with, starts_with_chars, string_from_chars,
    string_views, trim, trim_chars, free_of, lemma_split_free, lemma_split_then, lemma_split_two,
    trim_start, trim_end, is_white_space,
};

verus! {

broadcast use vstd::string::group_string_axioms;

// ---------------------------------------------------------------------------
// Override tags.
// ---------------------------------------------------------------------------

/// Scanning state after the characters of `s`: the text kept so far, and whether the scan is
/// inside a `{...}` override block.
pub open spec fn strip_tags_state(s: Seq<char>) -> (Seq<char>, bool)
    decreases s.len(),
{
    if s.len() == 0 {
        (Seq::empty(), false)
    } else {
        let (out, inside) = strip_tags_state(s.drop_last());
        let c = s.last();
        if inside {
            (out, c != '}')
        } else if c == '{' {
            (out, true)
        } else {
            (out.push(c), false)
        }
    }
}

/// The text outside `{...}` override blocks, in order; an unclosed block runs to the end.
pub open spec fn strip_tags(s: Seq<char>) -> Seq<char> {
    strip_tags_state(s).0
}

fn strip_tags_chars(text: &[char]) -> (r: Vec<char>)
    ensures
        r@ == strip_tags(text@),
{
    let mut out: Vec<char> = Vec::new();
    let mut inside = false;
    let mut i: usize = 0;
    assert(text@.take(0) =~= Seq::<char>::empty());
    while i < text.len()
        invariant
            i <= text@.len(),
            (out@, inside) == strip_tags_state(text@.take(i as int)),
        decreases text@.len() - i,
    {
        assert(text@.take(i + 1).drop_last() =~= text@.take(i as int));
        let c = text[i];
        if inside {
            inside = c != '}';
        } else if c == '{' {
            inside = true;
        } else {
            out.push(c);
        }
        i += 1;
    }
    assert(text@.take(text@.len() as int) =~= text@);
    out
}

/// Remove `{...}` override blocks from ASS dialogue text.
pub fn strip_ass_tags(text: &str) -> (r: String)
    ensures
        r@ == strip_tags(text@),
{
    let chars = chars_of(text);
    let out = strip_tags_chars(chars.as_slice());
    string_from_chars(out.as_slice())
}

// ---------------------------------------------------------------------------
// Replacing, joining, finding.
// ---------------------------------------------------------------------------

/// `s` with every occurrence of the nonempty pattern `pat`, found from the left without
/// overlap, replaced by `with` (`str::replace`).
pub open spec fn replace(s: Seq<char>, pat: Seq<char>, with: Seq<char>) -> Seq<char> {
    join(split_pieces(s, pat, None), with)
}

/// The pieces joined with `sep` between them.
fn join_strings(pieces: &Vec<String>, sep: &[char]) -> (r: Vec<char>)
    ensures
        r@ == join(string_views(pieces@), sep@),
{
    let mut out: Vec<char> = Vec::new();
    let mut i: usize = 0;
    while i < pieces.len()
        invariant
            i <= pieces@.len(),
            out@ == join(string_views(pieces@).take(i as int), sep@),
        decreases pieces@.len() - i,
    {
        let ghost v = string_views(pieces@);
        assert(v.take(i + 1).drop_last() =~= v.take(i as int));
        if i > 0 {
            append_chars(&mut out, sep);
        }
        let piece = chars_of(pieces[i].as_str());
        append_chars(&mut out, piece.as_slice());
        proof {
            if i == 0 {
                assert(v.take(1) =~= seq![v[0]]);
                assert(out@ =~= v[0]);
            } else {
                assert(out@ =~= join(v.take(i as int), sep@) + sep@ + v.take(i + 1).last());
            }
        }
        i += 1;
    }
    assert(string_views(pieces@).take(pieces@.len() as int) =~= string_views(pieces@));
    out
}

/// `s` with the nonempty pattern `pat` replaced by `with`, as in [`replace`].
pub(crate) fn replace_chars(s: &[char], pat: &[char], with: &[char]) -> (r: Vec<char>)
    requires
        pat@.len() > 0,
    ensures
        r@ == replace(s@, pat@, with@),
{
    let pieces = split_chars(s, pat, None);
    join_strings(&pieces, with)
}

/// The last start index of `pat` in `s` that is at most `top`, or -1.
pub open spec fn rfind_from(s: Seq<char>, pat: Seq<char>, top: int) -> int
    decreases top + 1,
{
    if top < 0 {
        -1
    } else if top + pat.len() <= s.len() && s.subrange(top, top + pat.len()) == pat {
        top
    } else {
        rfind_from(s, pat, top - 1)
    }
}

/// The last start index of `pat` in `s`, or -1 (`str::rfind`).
pub open spec fn rfind(s: Seq<char>, pat: Seq<char>) -> int {
    rfind_from(s, pat, s.len() as int)
}

pub proof fn lemma_rfind_from(s: Seq<char>, pat: Seq<char>, top: int)
    requires
        top >= -1,
    ensures
        -1 <= rfind_from(s, pat, top) <= top,
        rfind_from(s, pat, top) >= 0 ==> rfind_from(s, pat, top) + pat.len() <= s.len()
            && s.subrange(rfind_from(s, pat, top), rfind_from(s, pat, top) + pat.len()) == pat,
    decreases top + 1,
{
    if top >= 0 {
        lemma_rfind_from(s, pat, top - 1);
    }
}

fn rfind_chars(s: &[char], pat: &[char]) -> (r: Option<usize>)
    ensures
        match r {
            Some(i) => rfind(s@, pat@) == i,
            None => rfind(s@, pat@) == -1,
        },
{
    let mut j: usize = s.len();
    loop
        invariant
            j <= s@.len(),
            rfind_from(s@, pat@, j as int) == rfind(s@, pat@),
        decreases j,
    {
        if matches_at(s, j, pat) {
            return Some(j);
        }
        if j == 0 {
            assert(rfind_from(s@, pat@, -1) == -1);
            return None;
        }
        j -= 1;
    }
}

// ---------------------------------------------------------------------------
// Fields and lines.
// ---------------------------------------------------------------------------

pub open spec fn larger(a: nat, b: nat) -> nat {
    if a >= b {
        a
    } else {
        b
    }
}

/// The dialogue fields of an ASS event: at most `max(expected, 10)` comma-separated pieces,
/// the last holding the rest (the text may contain commas), each trimmed.
pub open spec fn ass_fields(rest: Seq<char>, expected: nat) -> Seq<Seq<char>> {
    split_pieces(rest, ","@, Some(larger(expected, 10))).map_values(|f: Seq<char>| trim(f))
}

/// Trims every string of `v`.
fn trim_all(v: &Vec<String>) -> (r: Vec<String>)
    ensures
        string_views(r@) == string_views(v@).map_values(|f: Seq<char>| trim(f)),
{
    let mut out: Vec<String> = Vec::new();
    let mut i: usize = 0;
    while i < v.len()
        invariant
            i <= v@.len(),
            string_views(out@) == string_views(v@).take(i as int).map_values(
                |f: Seq<char>| trim(f),
            ),
        decreases v@.len() - i,
    {
        let c = chars_of(v[i].as_str());
        let t = trim_chars(c.as_slice());
        let ghost prev = string_views(out@);
        let ghost w = string_views(v@);
        out.push(string_from_chars(t.as_slice()));
        assert(string_views(out@) =~= prev.push(t@));
        assert(w.take(i + 1) =~= w.take(i as int).push(w[i as int]));
        assert(w.take(i + 1).map_values(|f: Seq<char>| trim(f)) =~= w.take(i as int).map_values(
            |f: Seq<char>| trim(f),
        ).push(trim(w[i as int])));
        i += 1;
    }
    assert(string_views(v@).take(v@.len() as int) =~= string_views(v@));
    out
}

/// Split the part of an ASS event line after `Dialogue:` into its trimmed fields.
pub fn split_ass_fields(rest: &str, expected: usize) -> (r: Vec<String>)
    ensures
        string_views(r@) == ass_fields(rest@, expected as nat),
{
    let n = if expected >= 10 {
        expected
    } else {
        10
    };
    let chars = chars_of(rest);
    let comma = chars_of(",");
    proof {
        reveal_strlit(",");
    }
    let pieces = split_chars(chars.as_slice(), comma.as_slice(), Some(n));
    trim_all(&pieces)
}

/// Whether every character of `s` is an ASCII digit.
pub open spec fn all_ascii_digits(s: Seq<char>) -> bool {
    forall|i: int| 0 <= i < s.len() ==> '0' <= #[trigger] s[i] && s[i] <= '9'
}

fn all_ascii_digits_chars(s: &[char]) -> (r: bool)
    ensures
        r == all_ascii_digits(s@),
{
    let mut i: usize = 0;
    while i < s.len()
        invariant
            i <= s@.len(),
            forall|k: int| 0 <= k < i ==> '0' <= #[trigger] s@[k] && s@[k] <= '9',
        decreases s@.len() - i,
    {
        if !('0' <= s[i] && s[i] <= '9') {
            return false;
        }
        i += 1;
    }
    true
}

/// The trimmed lines of `s` (split at `\n`).
pub open spec fn trimmed_lines(s: Seq<char>) -> Seq<Seq<char>> {
    split_pieces(s, "\n"@, None).map_values(|l: Seq<char>| trim(l))
}

fn trimmed_lines_of(s: &[char]) -> (r: Vec<String>)
    ensures
        string_views(r@) == trimmed_lines(s@),
{
    let nl = chars_of("\n");
    proof {
        reveal_strlit("\n");
    }
    let pieces = split_chars(s, nl.as_slice(), None);
    trim_all(&pieces)
}

// ---------------------------------------------------------------------------
// WebVTT payloads.
// ---------------------------------------------------------------------------

/// Whether a trimmed WebVTT payload line is cue text (not a header, timing, index, note or
/// style line).
pub open spec fn is_vtt_text_line(l: Seq<char>) -> bool {
    &&& l.len() > 0
    &&& !starts_with(l, "WEBVTT"@)
    &&& !contains(l, "-->"@)
    &&& !all_ascii_digits(l)
    &&& !starts_with(l, "NOTE"@)
    &&& !starts_with(l, "STYLE"@)
}

/// The lines that pass [`is_vtt_text_line`], in order.
pub open spec fn vtt_text_lines(lines: Seq<Seq<char>>) -> Seq<Seq<char>>
    decreases lines.len(),
{
    if lines.len() == 0 {
        Seq::empty()
    } else {
        let p = vtt_text_lines(lines.drop_last());
        if is_vtt_text_line(lines.last()) {
            p.push(lines.last())
        } else {
            p
        }
    }
}

/// The cue text of a WebVTT payload: its text lines, trimmed, joined by `\n`.
pub open spec fn strip_vtt(input: Seq<char>) -> Seq<char> {
    join(vtt_text_lines(trimmed_lines(input)), "\n"@)
}

fn vtt_line_kept(l: &[char]) -> (r: bool)
    ensures
        r == is_vtt_text_line(l@),
{
    if l.len() == 0 {
        return false;
    }
    let webvtt = chars_of("WEBVTT");
    let arrow = chars_of("-->");
    let note = chars_of("NOTE");
    let style = chars_of("STYLE");
    !starts_with_chars(l, webvtt.as_slice()) && !contains_chars(l, arrow.as_slice())
        && !all_ascii_digits_chars(l) && !starts_with_chars(l, note.as_slice())
        && !starts_with_chars(l, style.as_slice())
}

fn strip_webvtt_chars(input: &[char]) -> (r: Vec<char>)
    ensures
        r@ == strip_vtt(input@),
{
    let lines = trimmed_lines_of(input);
    let mut kept: Vec<String> = Vec::new();
    let mut i: usize = 0;
    while i < lines.len()
        invariant
            i <= lines@.len(),
            string_views(kept@) == vtt_text_lines(string_views(lines@).take(i as int)),
        decreases lines@.len() - i,
    {
        let ghost v = string_views(lines@);
        assert(v.take(i + 1).drop_last() =~= v.take(i as int));
        let l = chars_of(lines[i].as_str());
        if vtt_line_kept(l.as_slice()) {
            kept.push(string_from_chars(l.as_slice()));
            assert(string_views(kept@) =~= vtt_text_lines(v.take(i as int)).push(v[i as int]));
        }
        i += 1;
    }
    assert(string_views(lines@).take(lines@.len() as int) =~= string_views(lines@));
    let nl = chars_of("\n");
    join_strings(&kept, nl.as_slice())
}

/// Keep only the cue text of a WebVTT payload.
pub fn strip_webvtt(input: &str) -> (r: String)
    ensures
        r@ == strip_vtt(input@),
{
    let chars = chars_of(input);
    let out = strip_webvtt_chars(chars.as_slice());
    string_from_chars(out.as_slice())
}

/// The declared format of an embedded subtitle track.
#[derive(Debug, Clone, Copy, PartialEq, Eq, Structural)]
pub enum SubtitleSubtype {
    WebVtt,
    Ssa,
    /// Any other format, or none declared.
    Other,
}

/// `\N` and `\n` escapes of ASS text turned into line breaks.
pub open spec fn unescape_breaks(s: Seq<char>) -> Seq<char> {
    replace(replace(s, "\\N"@, "\n"@), "\\n"@, "\n"@)
}

/// The plain text of an embedded subtitle sample.
pub open spec fn payload_text(raw: Seq<char>, subtype: SubtitleSubtype) -> Seq<char> {
    let t = trim(raw);
    if t.len() == 0 {
        Seq::empty()
    } else if subtype == SubtitleSubtype::WebVtt || starts_with(t, "WEBVTT"@) {
        strip_vtt(t)
    } else if (subtype == SubtitleSubtype::Ssa || contains(t, "Dialogue:"@)) && rfind(t, ",,"@)
        >= 0 {
        strip_tags(t.skip(rfind(t, ",,"@) + 2))
    } else {
        trim(unescape_breaks(strip_tags(t)))
    }
}

fn unescape_breaks_chars(s: &[char]) -> (r: Vec<char>)
    ensures
        r@ == unescape_breaks(s@),
{
    let big = chars_of("\\N");
    let small = chars_of("\\n");
    let nl = chars_of("\n");
    proof {
        reveal_strlit("\\N");
        reveal_strlit("\\n");
    }
    let a = replace_chars(s, big.as_slice(), nl.as_slice());
    replace_chars(a.as_slice(), small.as_slice(), nl.as_slice())
}

/// Turn an embedded subtitle sample into display text.
pub fn normalize_subtitle_payload(raw: &str, subtype: SubtitleSubtype) -> (r: String)
    ensures
        r@ == payload_text(raw@, subtype),
{
    let chars = chars_of(raw);
    let t = trim_chars(chars.as_slice());
    if t.len() == 0 {
        return String::new();
    }
    let webvtt = chars_of("WEBVTT");
    if subtype == SubtitleSubtype::WebVtt || starts_with_chars(t.as_slice(), webvtt.as_slice()) {
        let out = strip_webvtt_chars(t.as_slice());
        return string_from_chars(out.as_slice());
    }
    let dialogue = chars_of("Dialogue:");
    if subtype == SubtitleSubtype::Ssa || contains_chars(t.as_slice(), dialogue.as_slice()) {
        let commas = chars_of(",,");
        if let Some(pos) = rfind_chars(t.as_slice(), commas.as_slice()) {
            proof {
                reveal_strlit(",,");
                lemma_rfind_from(t@, commas@, t@.len() as int);
            }
            let tail = copy_range(t.as_slice(), pos + 2, t.len());
            assert(tail@ =~= t@.skip(pos + 2));
            let out = strip_tags_chars(tail.as_slice());
            return string_from_chars(out.as_slice());
        }
    }
    let stripped = strip_tags_chars(t.as_slice());
    let unescaped = unescape_breaks_chars(stripped.as_slice());
    let out = trim_chars(unescaped.as_slice());
    string_from_chars(out.as_slice())
}


// ---------------------------------------------------------------------------
// Cues.
// ---------------------------------------------------------------------------

/// Hour, minute and second fields of a cue time, as text.
pub type TimeText = (Seq<char>, Seq<char>, Seq<char>);

/// Start time, end time and display text of a cue.
pub type CueText = (TimeText, TimeText, Seq<char>);

/// The hour, minute and second fields of a cue time, as text.
#[derive(Debug, Clone)]
pub struct TimeFields {
    pub hours: String,
    pub minutes: String,
    pub seconds: String,
}

impl View for TimeFields {
    type V = TimeText;

    open spec fn view(&self) -> TimeText {
        (self.hours@, self.minutes@, self.seconds@)
    }
}

/// A cue with its display text and the text of its time fields.
#[derive(Debug, Clone)]
pub struct CueFields {
    pub start: TimeFields,
    pub end: TimeFields,
    pub text: String,
}

impl View for CueFields {
    type V = CueText;

    open spec fn view(&self) -> CueText {
        (self.start@, self.end@, self.text@)
    }
}

pub open spec fn cue_views(v: Seq<CueFields>) -> Seq<CueText> {
    v.map_values(|c: CueFields| c@)
}

/// The nonempty lines, in order.
pub open spec fn nonempty(lines: Seq<Seq<char>>) -> Seq<Seq<char>>
    decreases lines.len(),
{
    if lines.len() == 0 {
        Seq::empty()
    } else {
        let p = nonempty(lines.drop_last());
        if lines.last().len() > 0 {
            p.push(lines.last())
        } else {
            p
        }
    }
}

fn keep_nonempty(v: &Vec<String>) -> (r: Vec<String>)
    ensures
        string_views(r@) == nonempty(string_views(v@)),
{
    let mut out: Vec<String> = Vec::new();
    let mut i: usize = 0;
    while i < v.len()
        invariant
            i <= v@.len(),
            string_views(out@) == nonempty(string_views(v@).take(i as int)),
        decreases v@.len() - i,
    {
        let ghost w = string_views(v@);
        assert(w.take(i + 1).drop_last() =~= w.take(i as int));
        let c = chars_of(v[i].as_str());
        if c.len() > 0 {
            let ghost prev = string_views(out@);
            out.push(string_from_chars(c.as_slice()));
            assert(string_views(out@) =~= prev.push(w[i as int]));
        }
        i += 1;
    }
    assert(string_views(v@).take(v@.len() as int) =~= string_views(v@));
    out
}

/// Copies of the strings of `v` from index `from` on.
fn strings_from(v: &Vec<String>, from: usize) -> (r: Vec<String>)
    requires
        from <= v@.len(),
    ensures
        string_views(r@) == string_views(v@).skip(from as int),
{
    let mut out: Vec<String> = Vec::new();
    let mut i: usize = from;
    while i < v.len()
        invariant
            from <= i <= v@.len(),
            string_views(out@) == string_views(v@).subrange(from as int, i as int),
        decreases v@.len() - i,
    {
        let ghost prev = string_views(out@);
        let c = chars_of(v[i].as_str());
        out.push(string_from_chars(c.as_slice()));
        assert(string_views(out@) =~= prev.push(string_views(v@)[i as int]));
        assert(string_views(v@).subrange(from as int, i + 1) =~= string_views(v@).subrange(
            from as int,
            i as int,
        ).push(string_views(v@)[i as int]));
        i += 1;
    }
    assert(string_views(v@).subrange(from as int, v@.len() as int) =~= string_views(v@).skip(
        from as int,
    ));
    out
}

/// Time fields built from three pieces.
fn time_fields(h: &[char], m: &[char], s: &[char]) -> (r: TimeFields)
    ensures
        r@ == (h@, m@, s@),
{
    TimeFields {
        hours: string_from_chars(h),
        minutes: string_from_chars(m),
        seconds: string_from_chars(s),
    }
}

/// The fields of an SRT timestamp `H:MM:SS,mmm`: the decimal comma made a point, then exactly
/// three `:`-separated pieces.
pub open spec fn srt_time_fields(ts: Seq<char>) -> Option<TimeText> {
    let parts = split_pieces(replace(ts, ","@, "."@), ":"@, None);
    if parts.len() == 3 {
        Some((parts[0], parts[1], parts[2]))
    } else {
        None
    }
}

/// Law: an SRT timestamp `H:M:S,F` gives the hours `H`, the minutes `M` and the seconds
/// `S.F`, in that order, for pieces holding neither `:` nor `,`.
pub proof fn law_srt_time_fields_in_order(h: Seq<char>, m: Seq<char>, sec: Seq<char>, frac: Seq<char>)
    requires
        free_of(h, ':') && free_of(h, ','),
        free_of(m, ':') && free_of(m, ','),
        free_of(sec, ':') && free_of(sec, ','),
        free_of(frac, ':') && free_of(frac, ','),
    ensures
        srt_time_fields(h + ":"@ + m + ":"@ + sec + ","@ + frac) == Some((h, m, sec + "."@ + frac)),
{
    reveal_strlit(":");
    reveal_strlit(",");
    reveal_strlit(".");
    assert(":"@ =~= seq![':']);
    assert(","@ =~= seq![',']);
    assert("."@ =~= seq!['.']);
    let hm = h + seq![':'] + m;
    let a = hm + seq![':'] + sec;
    let ts = h + ":"@ + m + ":"@ + sec + ","@ + frac;
    assert(ts =~= a + seq![','] + frac);
    assert(free_of(a, ',')) by {
        assert forall|i: int| 0 <= i < a.len() implies a[i] != ',' by {
            if i < h.len() {
                assert(a[i] == h[i]);
            } else if h.len() < i < h.len() + 1 + m.len() {
                assert(a[i] == m[i - h.len() - 1]);
            } else if i > h.len() + 1 + m.len() {
                assert(a[i] == sec[i - h.len() - 2 - m.len()]);
            }
        }
    }
    lemma_split_free(a, ',');
    lemma_split_then(a, frac, ',');
    assert(seq![a].push(frac) =~= seq![a, frac]);
    assert(replace(ts, ","@, "."@) == join(seq![a, frac], seq!['.']));
    assert(seq![a, frac].drop_last() =~= seq![a]);
    assert(join(seq![a], seq!['.']) == a);
    assert(join(seq![a, frac], seq!['.']) == a + seq!['.'] + frac);
    let tail = sec + seq!['.'] + frac;
    assert(a + seq!['.'] + frac =~= hm + seq![':'] + tail);
    assert(replace(ts, ","@, "."@) == hm + seq![':'] + tail);
    assert(free_of(tail, ':')) by {
        assert forall|i: int| 0 <= i < tail.len() implies tail[i] != ':' by {
            if i < sec.len() {
                assert(tail[i] == sec[i]);
            } else if i > sec.len() {
                assert(tail[i] == frac[i - sec.len() - 1]);
            }
        }
    }
    lemma_split_free(h, ':');
    lemma_split_then(h, m, ':');
    lemma_split_then(hm, tail, ':');
    assert(seq![h].push(m).push(tail) =~= seq![h, m, tail]);
    assert(sec + "."@ + frac =~= tail);
}

/// Law: an SRT timestamp `H:M:S` without a fraction gives the hours `H`, the minutes `M` and
/// the seconds `S`, in that order, for pieces holding neither `:` nor `,`.
pub proof fn law_srt_time_fields_whole_seconds(h: Seq<char>, m: Seq<char>, sec: Seq<char>)
    requires
        free_of(h, ':') && free_of(h, ','),
        free_of(m, ':') && free_of(m, ','),
        free_of(sec, ':') && free_of(sec, ','),
    ensures
        srt_time_fields(h + ":"@ + m + ":"@ + sec) == Some((h, m, sec)),
{
    reveal_strlit(":");
    reveal_strlit(",");
    assert(":"@ =~= seq![':']);
    assert(","@ =~= seq![',']);
    let hm = h + seq![':'] + m;
    let a = hm + seq![':'] + sec;
    assert(h + ":"@ + m + ":"@ + sec =~= a);
    assert(free_of(a, ',')) by {
        assert forall|i: int| 0 <= i < a.len() implies a[i] != ',' by {
            if i < h.len() {
                assert(a[i] == h[i]);
            } else if h.len() < i < h.len() + 1 + m.len() {
                assert(a[i] == m[i - h.len() - 1]);
            } else if i > h.len() + 1 + m.len() {
                assert(a[i] == sec[i - h.len() - 2 - m.len()]);
            }
        }
    }
    lemma_split_free(a, ',');
    assert(replace(a, ","@, "."@) == a);
    lemma_split_free(h, ':');
    lemma_split_then(h, m, ':');
    lemma_split_then(hm, sec, ':');
    assert(seq![h].push(m).push(sec) =~= seq![h, m, sec]);
}

/// Whether `t` is not empty and neither starts nor ends with white space.
pub open spec fn edge_trimmed(t: Seq<char>) -> bool {
    t.len() > 0 && !is_white_space(t[0]) && !is_white_space(t.last())
}

proof fn lemma_trim_padded(t: Seq<char>)
    requires
        edge_trimmed(t),
    ensures
        trim(t + seq![' ']) == t,
        trim(seq![' '] + t) == t,
{
    let r = t + seq![' '];
    assert(trim_start(r) == r);
    assert(r.drop_last() =~= t);
    assert(trim_end(t) == t);
    let l = seq![' '] + t;
    assert(l.skip(1) =~= t);
    assert(trim_start(t) == t);
    assert(trim_end(t) == t);
}

/// Law: in an SRT timing line `A --> B` the start is read from `A` and the end from `B`.
pub proof fn law_srt_timing_line_order(a: Seq<char>, b: Seq<char>)
    requires
        edge_trimmed(a) && free_of(a, '-'),
        edge_trimmed(b) && free_of(b, '-'),
    ensures
        srt_times(a + " --> "@ + b) == match (srt_time_fields(a), srt_time_fields(b)) {
            (Some(x), Some(y)) => Some((x, y)),
            _ => None::<(TimeText, TimeText)>,
        },
{
    reveal_strlit(" --> ");
    reveal_strlit("-->");
    let pat = "-->"@;
    assert(pat =~= seq!['-', '-', '>']);
    let left = a + seq![' '];
    let right = seq![' '] + b;
    assert(a + " --> "@ + b =~= left + pat + right);
    assert(free_of(left, '-')) by {
        assert forall|i: int| 0 <= i < left.len() implies left[i] != '-' by {
            if i < a.len() {
                assert(left[i] == a[i]);
            }
        }
    }
    assert(free_of(right, '-')) by {
        assert forall|i: int| 0 <= i < right.len() implies right[i] != '-' by {
            if i > 0 {
                assert(right[i] == b[i - 1]);
            }
        }
    }
    lemma_split_two(left, pat, right);
    lemma_trim_padded(a);
    lemma_trim_padded(b);
    let parts = split_pieces(a + " --> "@ + b, pat, None).map_values(|p: Seq<char>| trim(p));
    assert(parts =~= seq![a, b]);
}

/// The start and end fields of an SRT timing line `start --> end`.
pub open spec fn srt_times(line: Seq<char>) -> Option<(TimeText, TimeText)> {
    let parts = split_pieces(line, "-->"@, None).map_values(|p: Seq<char>| trim(p));
    if parts.len() != 2 {
        None
    } else {
        match (srt_time_fields(parts[0]), srt_time_fields(parts[1])) {
            (Some(a), Some(b)) => Some((a, b)),
            _ => None,
        }
    }
}

/// The cue of one SRT block: its nonempty trimmed lines are an optional numeric index, the
/// timing line, then at least one text line.
pub open spec fn srt_block_cue(block: Seq<char>) -> Option<CueText> {
    let lines = nonempty(trimmed_lines(block));
    if lines.len() < 2 {
        None
    } else if all_ascii_digits(lines[0]) && lines.len() < 3 {
        None
    } else {
        let numbered = all_ascii_digits(lines[0]);
        let time_line = if numbered {
            lines[1]
        } else {
            lines[0]
        };
        let text_lines = if numbered {
            lines.skip(2)
        } else {
            lines.skip(1)
        };
        match srt_times(time_line) {
            Some((a, b)) => {
                let text = join(text_lines, "\n"@);
                if text.len() == 0 {
                    None
                } else {
                    Some((a, b, text))
                }
            },
            None => None,
        }
    }
}

/// The cues of the blocks, in order.
pub open spec fn srt_cues_of(blocks: Seq<Seq<char>>) -> Seq<CueText>
    decreases blocks.len(),
{
    if blocks.len() == 0 {
        Seq::empty()
    } else {
        let p = srt_cues_of(blocks.drop_last());
        match srt_block_cue(blocks.last()) {
            Some(c) => p.push(c),
            None => p,
        }
    }
}

/// SRT text with `\r\n` and lone `\r` line ends made `\n`.
pub open spec fn srt_normalize(input: Seq<char>) -> Seq<char> {
    replace(replace(input, "\r\n"@, "\n"@), "\r"@, "\n"@)
}

/// The cues of an SRT document: its blocks are separated by blank lines.
pub open spec fn srt_cues(input: Seq<char>) -> Seq<CueText> {
    srt_cues_of(split_pieces(srt_normalize(input), "\n\n"@, None))
}

fn srt_time_fields_of(ts: &[char]) -> (r: Option<TimeFields>)
    ensures
        match r {
            Some(f) => srt_time_fields(ts@) == Some(f@),
            None => srt_time_fields(ts@) is None,
        },
{
    let comma = chars_of(",");
    let point = chars_of(".");
    let colon = chars_of(":");
    proof {
        reveal_strlit(",");
        reveal_strlit(".");
        reveal_strlit(":");
    }
    let t = replace_chars(ts, comma.as_slice(), point.as_slice());
    let parts = split_chars(t.as_slice(), colon.as_slice(), None);
    if parts.len() != 3 {
        return None;
    }
    let h = chars_of(parts[0].as_str());
    let m = chars_of(parts[1].as_str());
    let s = chars_of(parts[2].as_str());
    Some(time_fields(h.as_slice(), m.as_slice(), s.as_slice()))
}

fn srt_times_of(line: &[char]) -> (r: Option<(TimeFields, TimeFields)>)
    ensures
        match r {
            Some((a, b)) => srt_times(line@) == Some((a@, b@)),
            None => srt_times(line@) is None,
        },
{
    let arrow = chars_of("-->");
    proof {
        reveal_strlit("-->");
    }
    let raw = split_chars(line, arrow.as_slice(), None);
    let parts = trim_all(&raw);
    if parts.len() != 2 {
        return None;
    }
    let p0 = chars_of(parts[0].as_str());
    let p1 = chars_of(parts[1].as_str());
    let a = match srt_time_fields_of(p0.as_slice()) {
        Some(a) => a,
        None => return None,
    };
    let b = match srt_time_fields_of(p1.as_slice()) {
        Some(b) => b,
        None => return None,
    };
    Some((a, b))
}

fn srt_block(block: &[char]) -> (r: Option<CueFields>)
    ensures
        match r {
            Some(c) => srt_block_cue(block@) == Some(c@),
            None => srt_block_cue(block@) is None,
        },
{
    let all = trimmed_lines_of(block);
    let lines = keep_nonempty(&all);
    if lines.len() < 2 {
        return None;
    }
    let first = chars_of(lines[0].as_str());
    let numbered = all_ascii_digits_chars(first.as_slice());
    if numbered && lines.len() < 3 {
        return None;
    }
    let (ti, from): (usize, usize) = if numbered {
        (1, 2)
    } else {
        (0, 1)
    };
    let time_line = chars_of(lines[ti].as_str());
    let (a, b) = match srt_times_of(time_line.as_slice()) {
        Some(t) => t,
        None => return None,
    };
    let text_lines = strings_from(&lines, from);
    let nl = chars_of("\n");
    let text = join_strings(&text_lines, nl.as_slice());
    if text.len() == 0 {
        return None;
    }
    Some(CueFields { start: a, end: b, text: string_from_chars(text.as_slice()) })
}

/// The cues of an SRT document, with their time fields as text.
pub fn srt_cue_fields(input: &str) -> (r: Vec<CueFields>)
    ensures
        cue_views(r@) == srt_cues(input@),
{
    let chars = chars_of(input);
    let crlf = chars_of("\r\n");
    let cr = chars_of("\r");
    let nl = chars_of("\n");
    let blank = chars_of("\n\n");
    proof {
        reveal_strlit("\r\n");
        reveal_strlit("\r");
        reveal_strlit("\n\n");
    }
    let a = replace_chars(chars.as_slice(), crlf.as_slice(), nl.as_slice());
    let normalized = replace_chars(a.as_slice(), cr.as_slice(), nl.as_slice());
    let blocks = split_chars(normalized.as_slice(), blank.as_slice(), None);
    let mut cues: Vec<CueFields> = Vec::new();
    let mut i: usize = 0;
    while i < blocks.len()
        invariant
            i <= blocks@.len(),
            cue_views(cues@) == srt_cues_of(string_views(blocks@).take(i as int)),
        decreases blocks@.len() - i,
    {
        let ghost w = string_views(blocks@);
        assert(w.take(i + 1).drop_last() =~= w.take(i as int));
        let block = chars_of(blocks[i].as_str());
        match srt_block(block.as_slice()) {
            Some(c) => {
                let ghost prev = cue_views(cues@);
                cues.push(c);
                assert(cue_views(cues@) =~= prev.push(c@));
            },
            None => {},
        }
        i += 1;
    }
    assert(string_views(blocks@).take(blocks@.len() as int) =~= string_views(blocks@));
    cues
}


/// The fields of an ASS time `H:MM:SS.cc`: the trimmed text's first three `:`-separated
/// pieces, the decimal comma of the seconds made a point.
pub open spec fn ass_time_fields(ts: Seq<char>) -> Option<TimeText> {
    let parts = split_pieces(trim(ts), ":"@, None);
    if parts.len() < 3 {
        None
    } else {
        Some((parts[0], parts[1], replace(parts[2], ","@, "."@)))
    }
}

/// Law: an ASS timestamp `H:M:S` gives the hours `H`, the minutes `M` and the seconds `S`, in
/// that order, for pieces holding neither `:` nor `,`, with no white space at either end.
pub proof fn law_ass_time_fields_in_order(h: Seq<char>, m: Seq<char>, sec: Seq<char>)
    requires
        free_of(h, ':') && free_of(h, ','),
        free_of(m, ':') && free_of(m, ','),
        free_of(sec, ':') && free_of(sec, ','),
        h.len() > 0 && !is_white_space(h[0]),
        sec.len() > 0 && !is_white_space(sec.last()),
    ensures
        ass_time_fields(h + ":"@ + m + ":"@ + sec) == Some((h, m, sec)),
{
    reveal_strlit(":");
    reveal_strlit(",");
    assert(":"@ =~= seq![':']);
    assert(","@ =~= seq![',']);
    let hm = h + seq![':'] + m;
    let ts = hm + seq![':'] + sec;
    assert(h + ":"@ + m + ":"@ + sec =~= ts);
    assert(ts[0] == h[0]);
    assert(ts.last() == sec.last());
    assert(trim_start(ts) == ts);
    assert(trim_end(ts) == ts);
    lemma_split_free(h, ':');
    lemma_split_then(h, m, ':');
    lemma_split_then(hm, sec, ':');
    assert(seq![h].push(m).push(sec) =~= seq![h, m, sec]);
    lemma_split_free(sec, ',');
    assert(replace(sec, ","@, "."@) == sec);
}

/// The first index of `name` in `cols`.
pub open spec fn first_index_of(cols: Seq<Seq<char>>, name: Seq<char>) -> Option<nat>
    decreases cols.len(),
{
    if cols.len() == 0 {
        None
    } else {
        match first_index_of(cols.drop_last(), name) {
            Some(i) => Some(i),
            None => if cols.last() == name {
                Some((cols.len() - 1) as nat)
            } else {
                None
            },
        }
    }
}

/// The column of `name`, or `default` when the format does not name it.
pub open spec fn column_or(cols: Seq<Seq<char>>, name: Seq<char>, default: nat) -> nat {
    match first_index_of(cols, name) {
        Some(i) => i,
        None => default,
    }
}

/// The cue of an ASS `Dialogue:` event (`rest` follows the prefix), with the columns named by
/// the section's `Format:` line (lower case), or the standard layout when there was none.
pub open spec fn ass_dialogue(rest: Seq<char>, cols: Seq<Seq<char>>) -> Option<CueText> {
    let fields = ass_fields(rest, cols.len());
    let last: nat = if fields.len() == 0 {
        0
    } else {
        (fields.len() - 1) as nat
    };
    let si = if cols.len() == 0 {
        1
    } else {
        column_or(cols, "start"@, 1)
    };
    let ei = if cols.len() == 0 {
        2
    } else {
        column_or(cols, "end"@, 2)
    };
    let ti = if cols.len() == 0 {
        last
    } else {
        column_or(cols, "text"@, last)
    };
    if si >= fields.len() || ei >= fields.len() {
        None
    } else {
        match (ass_time_fields(fields[si as int]), ass_time_fields(fields[ei as int])) {
            (Some(a), Some(b)) => {
                let raw = if ti < fields.len() {
                    fields[ti as int]
                } else {
                    Seq::empty()
                };
                let text = trim(unescape_breaks(strip_tags(raw)));
                if text.len() == 0 {
                    None
                } else {
                    Some((a, b, text))
                }
            },
            _ => None,
        }
    }
}

/// Scanning state of an ASS document: inside `[Events]`, the current format columns, and the
/// cues found so far.
pub type AssScan = (bool, Seq<Seq<char>>, Seq<CueText>);

/// The state after one more line.
pub open spec fn ass_step(st: AssScan, raw: Seq<char>) -> AssScan {
    let line = trim(raw);
    if line.len() == 0 {
        st
    } else if line[0] == '[' {
        (lower(line) == "[events]"@, st.1, st.2)
    } else if !st.0 {
        st
    } else if starts_with(line, "Format:"@) {
        (
            st.0,
            split_pieces(line.skip(7), ","@, None).map_values(|c: Seq<char>| lower(trim(c))),
            st.2,
        )
    } else if starts_with(line, "Dialogue:"@) {
        match ass_dialogue(line.skip(9), st.1) {
            Some(c) => (st.0, st.1, st.2.push(c)),
            None => st,
        }
    } else {
        st
    }
}

/// The state after the lines, from outside any section with no format.
pub open spec fn ass_scan(lines: Seq<Seq<char>>) -> AssScan
    decreases lines.len(),
{
    if lines.len() == 0 {
        (false, Seq::empty(), Seq::empty())
    } else {
        ass_step(ass_scan(lines.drop_last()), lines.last())
    }
}

/// The cues of an ASS/SSA document.
pub open spec fn ass_cues(input: Seq<char>) -> Seq<CueText> {
    ass_scan(split_pieces(input, "\n"@, None)).2
}

fn ass_time_fields_of(ts: &[char]) -> (r: Option<TimeFields>)
    ensures
        match r {
            Some(f) => ass_time_fields(ts@) == Some(f@),
            None => ass_time_fields(ts@) is None,
        },
{
    let colon = chars_of(":");
    let comma = chars_of(",");
    let point = chars_of(".");
    proof {
        reveal_strlit(",");
        reveal_strlit(".");
        reveal_strlit(":");
    }
    let t = trim_chars(ts);
    let parts = split_chars(t.as_slice(), colon.as_slice(), None);
    if parts.len() < 3 {
        return None;
    }
    let h = chars_of(parts[0].as_str());
    let m = chars_of(parts[1].as_str());
    let s0 = chars_of(parts[2].as_str());
    let s = replace_chars(s0.as_slice(), comma.as_slice(), point.as_slice());
    Some(time_fields(h.as_slice(), m.as_slice(), s.as_slice()))
}

fn first_index(cols: &Vec<String>, name: &str) -> (r: Option<usize>)
    ensures
        match r {
            Some(i) => first_index_of(string_views(cols@), name@) == Some(i as nat),
            None => first_index_of(string_views(cols@), name@) is None,
        },
{
    let mut i: usize = 0;
    while i < cols.len()
        invariant
            i <= cols@.len(),
            first_index_of(string_views(cols@).take(i as int), name@) is None,
        decreases cols@.len() - i,
    {
        let ghost w = string_views(cols@);
        assert(w.take(i + 1).drop_last() =~= w.take(i as int));
        let c = chars_of(cols[i].as_str());
        if crate::text::chars_eq_str(c.as_slice(), name) {
            proof {
                lemma_first_index_prefix(w, name@, i + 1);
            }
            return Some(i);
        }
        i += 1;
    }
    assert(string_views(cols@).take(cols@.len() as int) =~= string_views(cols@));
    None
}

/// A first index found in a prefix is the first index of the whole sequence.
proof fn lemma_first_index_prefix(cols: Seq<Seq<char>>, name: Seq<char>, k: int)
    requires
        0 <= k <= cols.len(),
        first_index_of(cols.take(k), name) is Some,
    ensures
        first_index_of(cols, name) == first_index_of(cols.take(k), name),
    decreases cols.len() - k,
{
    if k < cols.len() {
        assert(cols.take(k + 1).drop_last() =~= cols.take(k));
        lemma_first_index_prefix(cols, name, k + 1);
    } else {
        assert(cols.take(k) =~= cols);
    }
}

fn column_or_default(cols: &Vec<String>, name: &str, default: usize) -> (r: usize)
    ensures
        r == column_or(string_views(cols@), name@, default as nat),
{
    match first_index(cols, name) {
        Some(i) => i,
        None => default,
    }
}

fn ass_dialogue_of(rest: &[char], cols: &Vec<String>) -> (r: Option<CueFields>)
    ensures
        match r {
            Some(c) => ass_dialogue(rest@, string_views(cols@)) == Some(c@),
            None => ass_dialogue(rest@, string_views(cols@)) is None,
        },
{
    let rest_s = string_from_chars(rest);
    let fields = split_ass_fields(rest_s.as_str(), cols.len());
    proof {
        reveal_strlit("start");
        reveal_strlit("end");
        reveal_strlit("text");
    }
    let last: usize = if fields.len() == 0 {
        0
    } else {
        fields.len() - 1
    };
    let (si, ei, ti) = if cols.len() == 0 {
        (1, 2, last)
    } else {
        (
            column_or_default(cols, "start", 1),
            column_or_default(cols, "end", 2),
            column_or_default(cols, "text", last),
        )
    };
    if si >= fields.len() || ei >= fields.len() {
        return None;
    }
    let fs = chars_of(fields[si].as_str());
    let fe = chars_of(fields[ei].as_str());
    let a = match ass_time_fields_of(fs.as_slice()) {
        Some(a) => a,
        None => return None,
    };
    let b = match ass_time_fields_of(fe.as_slice()) {
        Some(b) => b,
        None => return None,
    };
    let raw: Vec<char> = if ti < fields.len() {
        chars_of(fields[ti].as_str())
    } else {
        Vec::new()
    };
    let stripped = strip_tags_chars(raw.as_slice());
    let unescaped = unescape_breaks_chars(stripped.as_slice());
    let text = trim_chars(unescaped.as_slice());
    if text.len() == 0 {
        return None;
    }
    Some(CueFields { start: a, end: b, text: string_from_chars(text.as_slice()) })
}

/// Lower-cased, trimmed columns of a `Format:` line's remainder.
fn format_columns(rest: &[char]) -> (r: Vec<String>)
    ensures
        string_views(r@) == split_pieces(rest@, ","@, None).map_values(
            |c: Seq<char>| lower(trim(c)),
        ),
{
    let comma = chars_of(",");
    proof {
        reveal_strlit(",");
    }
    let pieces = split_chars(rest, comma.as_slice(), None);
    let mut out: Vec<String> = Vec::new();
    let mut i: usize = 0;
    while i < pieces.len()
        invariant
            i <= pieces@.len(),
            string_views(out@) == string_views(pieces@).take(i as int).map_values(
                |c: Seq<char>| lower(trim(c)),
            ),
        decreases pieces@.len() - i,
    {
        let ghost w = string_views(pieces@);
        let ghost prev = string_views(out@);
        let c = chars_of(pieces[i].as_str());
        let t = trim_chars(c.as_slice());
        let l = lower_chars(t.as_slice());
        out.push(string_from_chars(l.as_slice()));
        assert(string_views(out@) =~= prev.push(l@));
        assert(w.take(i + 1) =~= w.take(i as int).push(w[i as int]));
        assert(w.take(i + 1).map_values(|c: Seq<char>| lower(trim(c))) =~= w.take(
            i as int,
        ).map_values(|c: Seq<char>| lower(trim(c))).push(lower(trim(w[i as int]))));
        i += 1;
    }
    assert(string_views(pieces@).take(pieces@.len() as int) =~= string_views(pieces@));
    out
}

/// The cues of an ASS/SSA document, with their time fields as text.
pub fn ass_cue_fields(input: &str) -> (r: Vec<CueFields>)
    ensures
        cue_views(r@) == ass_cues(input@),
{
    let chars = chars_of(input);
    let nl = chars_of("\n");
    let events = chars_of("[events]");
    let format = chars_of("Format:");
    let dialogue = chars_of("Dialogue:");
    proof {
        reveal_strlit("\n");
        reveal_strlit("Format:");
        reveal_strlit("Dialogue:");
    }
    let lines = split_chars(chars.as_slice(), nl.as_slice(), None);
    let mut in_events = false;
    let mut cols: Vec<String> = Vec::new();
    let mut cues: Vec<CueFields> = Vec::new();
    let mut i: usize = 0;
    while i < lines.len()
        invariant
            i <= lines@.len(),
            format@ == "Format:"@,
            dialogue@ == "Dialogue:"@,
            events@ == "[events]"@,
            format@.len() == 7,
            dialogue@.len() == 9,
            (in_events, string_views(cols@), cue_views(cues@)) == ass_scan(
                string_views(lines@).take(i as int),
            ),
        decreases lines@.len() - i,
    {
        let ghost w = string_views(lines@);
        assert(w.take(i + 1).drop_last() =~= w.take(i as int));
        let raw = chars_of(lines[i].as_str());
        let line = trim_chars(raw.as_slice());
        if line.len() == 0 {
        } else if line[0] == '[' {
            let l = lower_chars(line.as_slice());
            in_events = crate::text::chars_eq(l.as_slice(), events.as_slice());
        } else if !in_events {
        } else if starts_with_chars(line.as_slice(), format.as_slice()) {
            let rest = copy_range(line.as_slice(), 7, line.len());
            assert(rest@ =~= line@.skip(7));
            cols = format_columns(rest.as_slice());
        } else if starts_with_chars(line.as_slice(), dialogue.as_slice()) {
            let rest = copy_range(line.as_slice(), 9, line.len());
            assert(rest@ =~= line@.skip(9));
            match ass_dialogue_of(rest.as_slice(), &cols) {
                Some(c) => {
                    let ghost prev = cue_views(cues@);
                    cues.push(c);
                    assert(cue_views(cues@) =~= prev.push(c@));
                },
                None => {},
            }
        }
        i += 1;
    }
    assert(string_views(lines@).take(lines@.len() as int) =~= string_views(lines@));
    cues
}


proof fn lemma_strip_state_no_brace(s: Seq<char>)
    ensures
        forall|i: int| 0 <= i < strip_tags_state(s).0.len() ==> strip_tags_state(s).0[i] != '{',
    decreases s.len(),
{
    if s.len() > 0 {
        lemma_strip_state_no_brace(s.drop_last());
        let prev = strip_tags_state(s.drop_last());
        let cur = strip_tags_state(s);
        assert forall|i: int| 0 <= i < cur.0.len() implies cur.0[i] != '{' by {
            if i < prev.0.len() {
                assert(cur.0[i] == prev.0[i]);
            }
        }
    }
}

/// Text with its override tags stripped holds no `{`.
pub proof fn law_stripped_text_has_no_open_brace(s: Seq<char>)
    ensures
        forall|i: int| 0 <= i < strip_tags(s).len() ==> strip_tags(s)[i] != '{',
{
    lemma_strip_state_no_brace(s);
}


proof fn lemma_srt_cues_nonempty(blocks: Seq<Seq<char>>)
    ensures
        forall|i: int| 0 <= i < srt_cues_of(blocks).len() ==> srt_cues_of(blocks)[i].2.len() > 0,
    decreases blocks.len(),
{
    if blocks.len() > 0 {
        lemma_srt_cues_nonempty(blocks.drop_last());
        let p = srt_cues_of(blocks.drop_last());
        let all = srt_cues_of(blocks);
        assert forall|i: int| 0 <= i < all.len() implies all[i].2.len() > 0 by {
            if i < p.len() {
                assert(all[i] == p[i]);
            }
        }
    }
}

/// Every SRT cue has display text.
pub proof fn law_srt_cue_texts_nonempty(input: Seq<char>)
    ensures
        forall|i: int| 0 <= i < srt_cues(input).len() ==> srt_cues(input)[i].2.len() > 0,
{
    lemma_srt_cues_nonempty(split_pieces(srt_normalize(input), "\n\n"@, None));
}

proof fn lemma_ass_cues_nonempty(lines: Seq<Seq<char>>)
    ensures
        forall|i: int| 0 <= i < ass_scan(lines).2.len() ==> ass_scan(lines).2[i].2.len() > 0,
    decreases lines.len(),
{
    if lines.len() > 0 {
        lemma_ass_cues_nonempty(lines.drop_last());
        let p = ass_scan(lines.drop_last()).2;
        let all = ass_scan(lines).2;
        assert forall|i: int| 0 <= i < all.len() implies all[i].2.len() > 0 by {
            if i < p.len() {
                assert(all[i] == p[i]);
            }
        }
    }
}

/// Every ASS cue has display text.
pub proof fn law_ass_cue_texts_nonempty(input: Seq<char>)
    ensures
        forall|i: int| 0 <= i < ass_cues(input).len() ==> ass_cues(input)[i].2.len() > 0,
{
    lemma_ass_cues_nonempty(split_pieces(input, "\n"@, None));
}


// ---------------------------------------------------------------------------
// Sidecar files.
// ---------------------------------------------------------------------------

/// Length of the stem of a file name: up to its last dot, unless that dot starts the name.
pub open spec fn stem_len(name: Seq<char>) -> int {
    if crate::media::last_dot(name) <= 0 {
        name.len() as int
    } else {
        crate::media::last_dot(name)
    }
}

/// `path` with its file name's extension set to `ext` (`Path::with_extension`): the path up
/// to the end of the file stem, a dot and `ext`; unchanged when the path has no file name.
pub open spec fn with_extension(path: Seq<char>, ext: Seq<char>) -> Seq<char> {
    match crate::media::file_name_range(path) {
        Some((a, b)) => path.take(a + stem_len(path.subrange(a, b))) + "."@ + ext,
        None => path,
    }
}

/// The subtitle files looked for next to a video, in order of preference.
pub open spec fn sidecar_candidates(video: Seq<char>) -> Seq<Seq<char>> {
    seq![with_extension(video, "srt"@), with_extension(video, "ass"@), with_extension(video, "ssa"@)]
}

fn with_extension_chars(path: &[char], ext: &str) -> (r: String)
    ensures
        r@ == with_extension(path@, ext@),
{
    match crate::media::file_name_bounds(path) {
        None => string_from_chars(path),
        Some((a, b)) => {
            let mut j: usize = b;
            let ghost name = path@.subrange(a as int, b as int);
            assert(name.take((j - a) as int) =~= name);
            while j > a && path[j - 1] != '.'
                invariant
                    a <= j <= b <= path@.len(),
                    name == path@.subrange(a as int, b as int),
                    crate::media::last_dot(name) == crate::media::last_dot(name.take((j - a) as int)),
                decreases j,
            {
                assert(name.take((j - a) as int).drop_last() =~= name.take(j - a - 1));
                j -= 1;
            }
            let end: usize = if j - a <= 1 {
                proof {
                    if j == a + 1 {
                        assert(name.take(1).last() == '.');
                    } else {
                        assert(name.take(0) =~= Seq::<char>::empty());
                    }
                }
                b
            } else {
                assert(name.take((j - a) as int).last() == '.');
                j - 1
            };
            let mut out = copy_range(path, 0, end);
            out.push('.');
            let e = chars_of(ext);
            append_chars(&mut out, e.as_slice());
            proof {
                reveal_strlit(".");
            }
            assert(out@ =~= with_extension(path@, ext@));
            string_from_chars(out.as_slice())
        },
    }
}

/// Paths of the sidecar subtitle files of a video, in order of preference.
pub fn sidecar_paths(video: &str) -> (r: Vec<String>)
    ensures
        string_views(r@) == sidecar_candidates(video@),
{
    let chars = chars_of(video);
    let mut out: Vec<String> = Vec::new();
    out.push(with_extension_chars(chars.as_slice(), "srt"));
    out.push(with_extension_chars(chars.as_slice(), "ass"));
    out.push(with_extension_chars(chars.as_slice(), "ssa"));
    assert(string_views(out@) =~= sidecar_candidates(video@));
    out
}

/// Formats of subtitle files.
#[derive(Debug, Clone, Copy, PartialEq, Eq, Structural)]
pub enum SubtitleFormat {
    Srt,
    Ass,
}

/// The format of a subtitle file: ASS for `.ass` and `.ssa` (any ASCII case), SRT otherwise.
pub fn subtitle_format(path: &str) -> (r: SubtitleFormat)
    ensures
        r == match crate::media::path_extension(path@) {
            Some(e) => if lower(e) == "ass"@ || lower(e) == "ssa"@ {
                SubtitleFormat::Ass
            } else {
                SubtitleFormat::Srt
            },
            None => SubtitleFormat::Srt,
        },
{
    let chars = chars_of(path);
    match crate::media::extension_of(chars.as_slice()) {
        Some(e) => {
            let l = lower_chars(e.as_slice());
            if crate::text::chars_eq_str(l.as_slice(), "ass") || crate::text::chars_eq_str(
                l.as_slice(),
                "ssa",
            ) {
                SubtitleFormat::Ass
            } else {
                SubtitleFormat::Srt
            }
        },
        None => SubtitleFormat::Srt,
    }
}

} // verus!
