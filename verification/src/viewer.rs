//! Viewer decisions: recovery actions, folder navigation, track cycling and labels.

use vstd::prelude::*;

use crate::i18n::{translate, I18n};
use crate::media::{extension_of, file_name, file_name_bounds, last_dot, path_extension};
use crate::subtitles::{replace, replace_chars};
use crate::text::{append_chars, chars_of, copy_range, decimal, decimal_chars, string_from_chars, trim};

verus! {

broadcast use vstd::string::group_string_axioms;

/// Recovery actions offered with an error.
#[derive(Debug, Clone, Copy, PartialEq, Eq, Structural)]
pub enum ErrorAction {
    OpenExternally,
    Dismiss,
}

/// The index `delta` places away from `current` in a list of `len` entries, wrapping around
/// at both ends.
pub open spec fn wrapped(current: int, delta: int, len: int) -> int {
    (current + delta) % len
}

/// The folder index reached by moving `delta` files from `current`, wrapping around.
pub fn wrap_index(current: usize, delta: isize, len: usize) -> (r: usize)
    requires
        0 < len <= isize::MAX,
        current <= isize::MAX,
        isize::MIN <= current + delta <= isize::MAX,
    ensures
        r == wrapped(current as int, delta as int, len as int),
        r < len,
{
    let sum: isize = current as isize + delta;
    if sum >= 0 {
        let m = (sum as usize) % len;
        m
    } else {
        let neg: usize = ((-(sum + 1)) as usize) + 1;
        let a = neg % len;
        proof {
            let s = sum as int;
            let l = len as int;
            let q = (-s) / l;
            assert(neg == -s);
            assert((-s) == q * l + a) by {
                vstd::arithmetic::div_mod::lemma_fundamental_div_mod(-s, l);
            }
            if a == 0 {
                assert(s == (-q) * l) by (nonlinear_arith)
                    requires
                        -s == q * l + a,
                        a == 0,
                ;
                vstd::arithmetic::div_mod::lemma_mod_multiples_basic(-q, l);
            } else {
                assert(s == (-q - 1) * l + (l - a)) by (nonlinear_arith)
                    requires
                        -s == q * l + a,
                ;
                vstd::arithmetic::div_mod::lemma_mod_multiples_vanish(-q - 1, l - a, l);
                vstd::arithmetic::div_mod::lemma_small_mod((l - a) as nat, l as nat);
            }
        }
        if a == 0 {
            0
        } else {
            len - a
        }
    }
}

/// Moving `delta` files and then `-delta` files comes back to the file one started from.
pub proof fn law_navigate_round_trip(current: int, delta: int, len: int)
    requires
        0 <= current < len,
    ensures
        wrapped(wrapped(current, delta, len), -delta, len) == current,
{
    vstd::arithmetic::div_mod::lemma_add_mod_noop(current + delta, -delta, len);
    vstd::arithmetic::div_mod::lemma_mod_twice(current + delta, len);
    vstd::arithmetic::div_mod::lemma_add_mod_noop((current + delta) % len, -delta, len);
    vstd::arithmetic::div_mod::lemma_small_mod(current as nat, len as nat);
}

/// The audio track after `index` when cycling through `count` tracks; with fewer than two
/// tracks the selection stays.
pub open spec fn next_track(index: nat, count: nat) -> nat {
    if count < 2 {
        index
    } else {
        (index + 1) % count
    }
}

/// The audio track selected after a cycle request.
pub fn next_audio_track(index: usize, count: usize) -> (r: usize)
    requires
        index < usize::MAX,
    ensures
        r == next_track(index as nat, count as nat),
{
    if count < 2 {
        index
    } else {
        (index + 1) % count
    }
}

/// The "n of total" label of the current file: the translated `counter` template with
/// `{current}` made the 1-based position and `{total}` the file count; empty for no files.
pub open spec fn counter_text(template: Seq<char>, current_index: nat, total: nat) -> Seq<char> {
    if total == 0 {
        Seq::empty()
    } else {
        replace(
            replace(template, "{current}"@, decimal(current_index + 1)),
            "{total}"@,
            decimal(total),
        )
    }
}

/// The position label of the current file in its folder.
pub fn counter_label(i18n: &I18n, current_index: usize, total: usize) -> (r: String)
    requires
        current_index < usize::MAX,
    ensures
        r@ == counter_text(translate(i18n.table(), "counter"@), current_index as nat, total as nat),
{
    if total == 0 {
        return String::new();
    }
    let template = chars_of(i18n.t("counter"));
    let cur_pat = chars_of("{current}");
    let tot_pat = chars_of("{total}");
    proof {
        reveal_strlit("{current}");
        reveal_strlit("{total}");
    }
    let cur = decimal_chars((current_index + 1) as u64);
    let tot = decimal_chars(total as u64);
    let a = replace_chars(template.as_slice(), cur_pat.as_slice(), cur.as_slice());
    let b = replace_chars(a.as_slice(), tot_pat.as_slice(), tot.as_slice());
    string_from_chars(b.as_slice())
}

/// The file name shown for a path: its last normal component, empty when it has none.
pub fn display_file_name(path: &str) -> (r: String)
    ensures
        r@ == match file_name(path@) {
            Some(n) => n,
            None => Seq::empty(),
        },
{
    let chars = chars_of(path);
    match file_name_bounds(chars.as_slice()) {
        Some((a, b)) => {
            let n = copy_range(chars.as_slice(), a, b);
            string_from_chars(n.as_slice())
        },
        None => String::new(),
    }
}


// ---------------------------------------------------------------------------
// Batch renaming.
// ---------------------------------------------------------------------------

/// Whether a rename pattern has any text besides white space.
pub fn rename_pattern_usable(pattern: &str) -> (r: bool)
    ensures
        r == (trim(pattern@).len() > 0),
{
    let chars = chars_of(pattern);
    let t = crate::text::trim_chars(chars.as_slice());
    t.len() > 0
}

/// The stem of a path's file name: the name without its extension (`Path::file_stem`),
/// `file` when the path has no file name.
pub open spec fn stem_or_default(path: Seq<char>) -> Seq<char> {
    match file_name(path) {
        Some(n) => if last_dot(n) <= 0 {
            n
        } else {
            n.take(last_dot(n))
        },
        None => "file"@,
    }
}

/// The extension of a path with its dot, empty when it has none.
pub open spec fn dotted_extension(path: Seq<char>) -> Seq<char> {
    match path_extension(path) {
        Some(e) => "."@ + e,
        None => Seq::empty(),
    }
}

/// `s` padded with leading zeros to three characters (`{:03}`).
pub open spec fn pad3(s: Seq<char>) -> Seq<char> {
    if s.len() >= 3 {
        s
    } else {
        Seq::new((3 - s.len()) as nat, |k: int| '0') + s
    }
}

/// The new file name of the `index`-th file (from 0): the pattern with `{n}` made the 1-based
/// position, `{name}` the old stem and `{i}` the 0-based position in three digits, then the
/// old extension.
pub open spec fn renamed(pattern: Seq<char>, index: nat, path: Seq<char>) -> Seq<char> {
    replace(
        replace(replace(pattern, "{n}"@, decimal(index + 1)), "{name}"@, stem_or_default(path)),
        "{i}"@,
        pad3(decimal(index)),
    ) + dotted_extension(path)
}

fn stem_chars(path: &[char]) -> (r: Vec<char>)
    ensures
        r@ == stem_or_default(path@),
{
    match file_name_bounds(path) {
        None => {
            proof {
                reveal_strlit("file");
            }
            chars_of("file")
        },
        Some((a, b)) => {
            let name = copy_range(path, a, b);
            let mut j: usize = name.len();
            assert(name@.take(j as int) =~= name@);
            while j > 0 && name[j - 1] != '.'
                invariant
                    j <= name@.len(),
                    last_dot(name@) == last_dot(name@.take(j as int)),
                decreases j,
            {
                assert(name@.take(j as int).drop_last() =~= name@.take(j - 1));
                j -= 1;
            }
            if j <= 1 {
                proof {
                    if j == 1 {
                        assert(name@.take(1).last() == '.');
                    } else {
                        assert(name@.take(0) =~= Seq::<char>::empty());
                    }
                }
                name
            } else {
                assert(name@.take(j as int).last() == '.');
                copy_range(name.as_slice(), 0, j - 1)
            }
        },
    }
}

/// The new file name of the `index`-th file of a batch rename.
pub fn renamed_file_name(pattern: &str, index: usize, path: &str) -> (r: String)
    requires
        index < usize::MAX,
    ensures
        r@ == renamed(pattern@, index as nat, path@),
{
    let p = chars_of(pattern);
    let n_pat = chars_of("{n}");
    let name_pat = chars_of("{name}");
    let i_pat = chars_of("{i}");
    proof {
        reveal_strlit("{n}");
        reveal_strlit("{name}");
        reveal_strlit("{i}");
    }
    let path_chars = chars_of(path);
    let pos = decimal_chars((index + 1) as u64);
    let stem = stem_chars(path_chars.as_slice());
    let digits = decimal_chars(index as u64);
    let mut padded: Vec<char> = Vec::new();
    let mut k: usize = digits.len();
    while k < 3
        invariant
            digits.len() <= k <= 3 || (digits.len() >= 3 && k == digits.len()),
            padded@ == Seq::new((k - digits.len()) as nat, |j: int| '0'),
        decreases 3 - k,
    {
        padded.push('0');
        assert(padded@ =~= Seq::new((k + 1 - digits.len()) as nat, |j: int| '0'));
        k += 1;
    }
    append_chars(&mut padded, digits.as_slice());
    assert(padded@ =~= pad3(decimal(index as nat)));
    let a = replace_chars(p.as_slice(), n_pat.as_slice(), pos.as_slice());
    let b = replace_chars(a.as_slice(), name_pat.as_slice(), stem.as_slice());
    let mut c = replace_chars(b.as_slice(), i_pat.as_slice(), padded.as_slice());
    match extension_of(path_chars.as_slice()) {
        Some(e) => {
            c.push('.');
            append_chars(&mut c, e.as_slice());
            assert(c@ =~= renamed(pattern@, index as nat, path@)) by {
                reveal_strlit(".");
            }
        },
        None => {
            assert(c@ =~= renamed(pattern@, index as nat, path@));
        },
    }
    string_from_chars(c.as_slice())
}

/// The report after a batch rename.
pub fn rename_summary(renamed_count: usize, errors: usize) -> (r: String)
    ensures
        r@ == "Renamed "@ + decimal(renamed_count as nat) + ", errors "@ + decimal(errors as nat),
{
    let mut v = chars_of("Renamed ");
    let a = decimal_chars(renamed_count as u64);
    let b = chars_of(", errors ");
    let c = decimal_chars(errors as u64);
    append_chars(&mut v, a.as_slice());
    append_chars(&mut v, b.as_slice());
    append_chars(&mut v, c.as_slice());
    string_from_chars(v.as_slice())
}

/// Folder indices of the neighbours to prefetch around `current`: next, previous, second
/// next and second previous, wrapping around.
pub fn neighbor_indices(current: usize, len: usize) -> (r: [usize; 4])
    requires
        0 < len <= isize::MAX,
        current < len,
        current + 2 <= isize::MAX,
    ensures
        r@ == seq![
            wrapped(current as int, 1, len as int) as usize,
            wrapped(current as int, -1, len as int) as usize,
            wrapped(current as int, 2, len as int) as usize,
            wrapped(current as int, -2, len as int) as usize,
        ],
{
    let r = [
        wrap_index(current, 1, len),
        wrap_index(current, -1, len),
        wrap_index(current, 2, len),
        wrap_index(current, -2, len),
    ];
    assert(r@ =~= seq![
        wrapped(current as int, 1, len as int) as usize,
        wrapped(current as int, -1, len as int) as usize,
        wrapped(current as int, 2, len as int) as usize,
        wrapped(current as int, -2, len as int) as usize,
    ]);
    r
}


// ---------------------------------------------------------------------------
// Playback clock.
// ---------------------------------------------------------------------------

/// `n` in at least two digits (`{:02}`).
pub open spec fn two_digits(n: nat) -> Seq<char> {
    if n < 10 {
        seq!['0'] + decimal(n)
    } else {
        decimal(n)
    }
}

/// A playback time of `total` whole seconds: `h:mm:ss` from one hour on, `m:ss` below.
pub open spec fn clock(total: nat) -> Seq<char> {
    let h = total / 3600;
    let m = (total % 3600) / 60;
    let s = total % 60;
    if h > 0 {
        decimal(h) + ":"@ + two_digits(m) + ":"@ + two_digits(s)
    } else {
        decimal(m) + ":"@ + two_digits(s)
    }
}

fn push_two_digits(out: &mut Vec<char>, n: u64)
    ensures
        final(out)@ == old(out)@ + two_digits(n as nat),
{
    if n < 10 {
        out.push('0');
    }
    let d = decimal_chars(n);
    append_chars(out, d.as_slice());
}

/// The clock text of a playback time in whole seconds.
pub fn clock_label(total_secs: u32) -> (r: String)
    ensures
        r@ == clock(total_secs as nat),
{
    let h = total_secs / 3600;
    let m = (total_secs % 3600) / 60;
    let s = total_secs % 60;
    let mut out: Vec<char> = Vec::new();
    if h > 0 {
        out = decimal_chars(h as u64);
        out.push(':');
        push_two_digits(&mut out, m as u64);
    } else {
        out = decimal_chars(m as u64);
    }
    out.push(':');
    push_two_digits(&mut out, s as u64);
    proof {
        reveal_strlit(":");
    }
    assert(out@ =~= clock(total_secs as nat));
    string_from_chars(out.as_slice())
}


/// Law: a time of `h` hours, `m` minutes and `s` seconds (`m`, `s` below 60) shows as
/// `h:mm:ss` from one hour on, and as `m:ss` below.
pub proof fn law_clock_fields(h: nat, m: nat, s: nat)
    requires
        m < 60,
        s < 60,
    ensures
        h > 0 ==> clock(h * 3600 + m * 60 + s) == decimal(h) + ":"@ + two_digits(m) + ":"@ + two_digits(s),
        h == 0 ==> clock(m * 60 + s) == decimal(m) + ":"@ + two_digits(s),
{
    let t = h * 3600 + m * 60 + s;
    vstd::arithmetic::div_mod::lemma_fundamental_div_mod_converse(t as int, 3600, h as int, (m * 60 + s) as int);
    vstd::arithmetic::div_mod::lemma_fundamental_div_mod_converse((m * 60 + s) as int, 60, m as int, s as int);
    vstd::arithmetic::div_mod::lemma_fundamental_div_mod_converse(t as int, 60, (h * 60 + m) as int, s as int);
}


/// Law: one step forward from a file gives the next one, and from the last file the first;
/// one step back gives the previous one, and from the first file the last.
pub proof fn law_navigate_neighbours(current: int, len: int)
    requires
        0 <= current < len,
    ensures
        wrapped(current, 1, len) == if current + 1 < len { current + 1 } else { 0 },
        wrapped(current, -1, len) == if current > 0 { current - 1 } else { len - 1 },
{
    if current + 1 < len {
        vstd::arithmetic::div_mod::lemma_fundamental_div_mod_converse(current + 1, len, 0, current + 1);
    } else {
        vstd::arithmetic::div_mod::lemma_fundamental_div_mod_converse(current + 1, len, 1, 0);
    }
    if current > 0 {
        vstd::arithmetic::div_mod::lemma_fundamental_div_mod_converse(current - 1, len, 0, current - 1);
    } else {
        vstd::arithmetic::div_mod::lemma_fundamental_div_mod_converse(-1, len, -1, len - 1);
    }
}

} // verus!
