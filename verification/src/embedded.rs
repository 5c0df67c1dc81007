//! Soft subtitle tracks inside a video container: which track to read, and how the bytes of
//! one of its samples become text.

use vstd::prelude::*;

use crate::subtitles::SubtitleSubtype;
use crate::text::{chars_of, trim, trim_chars};

verus! {

// ---------------------------------------------------------------------------
// Track selection.
// ---------------------------------------------------------------------------

/// The major type a container declares for a stream.
#[derive(Debug, Clone, Copy, PartialEq, Eq, Structural)]
pub enum MajorType {
    Subtitle,
    Sami,
    Html,
    /// A generic data stream, text only when its subtype says so.
    Stream,
    Other,
}

/// The subtype a container declares for a subtitle stream.
#[derive(Debug, Clone, Copy, PartialEq, Eq, Structural)]
pub enum TrackSubtype {
    Srt,
    Ssa,
    WebVtt,
    Ttml,
    Xml,
    /// Bitmap subtitles (Blu-ray).
    Pgs,
    /// Bitmap subtitles (DVD).
    VobSub,
    Other,
}

/// What could be read of one stream's declared type: its major type and, when declared, its
/// subtype. A stream whose type cannot be read is `None`.
pub type StreamType = Option<(MajorType, Option<TrackSubtype>)>;

/// Streams beyond this index are not examined.
pub const MAX_STREAMS: usize = 64;

/// Whether the subtype is one of the bitmap formats, which carry no text.
pub open spec fn is_bitmap(sub: Option<TrackSubtype>) -> bool {
    sub == Some(TrackSubtype::Pgs) || sub == Some(TrackSubtype::VobSub)
}

/// Whether a stream of this type carries text subtitles.
pub open spec fn is_text_track(major: MajorType, sub: Option<TrackSubtype>) -> bool {
    ||| major == MajorType::Subtitle
    ||| major == MajorType::Sami
    ||| major == MajorType::Html
    ||| (major == MajorType::Stream && (sub == Some(TrackSubtype::Srt) || sub == Some(
        TrackSubtype::Ssa,
    ) || sub == Some(TrackSubtype::WebVtt) || sub == Some(TrackSubtype::Ttml) || sub == Some(
        TrackSubtype::Xml,
    )))
}

/// Whether the stream can be read as a text subtitle track.
pub open spec fn usable(st: StreamType) -> bool {
    match st {
        Some((major, sub)) => !is_bitmap(sub) && is_text_track(major, sub),
        None => false,
    }
}

/// The number of streams examined.
pub open spec fn examined(n: nat) -> nat {
    if n < MAX_STREAMS {
        n
    } else {
        MAX_STREAMS as nat
    }
}

/// The first usable text track among the examined streams, with its subtype.
pub fn select_text_track(streams: &[StreamType]) -> (r: Option<(usize, Option<TrackSubtype>)>)
    ensures
        match r {
            Some((i, sub)) => {
                &&& i < examined(streams@.len())
                &&& usable(streams@[i as int])
                &&& streams@[i as int] matches Some((_, s)) && s == sub
                &&& forall|j: int| 0 <= j < i ==> !usable(#[trigger] streams@[j])
            },
            None => forall|j: int| 0 <= j < examined(streams@.len()) ==> !usable(#[trigger] streams@[j]),
        },
{
    let n = if streams.len() < MAX_STREAMS {
        streams.len()
    } else {
        MAX_STREAMS
    };
    let mut i: usize = 0;
    while i < n
        invariant
            i <= n,
            n == examined(streams@.len()),
            n <= streams@.len(),
            forall|j: int| 0 <= j < i ==> !usable(#[trigger] streams@[j]),
        decreases n - i,
    {
        match streams[i] {
            Some((major, sub)) => {
                let bitmap = match sub {
                    Some(TrackSubtype::Pgs) | Some(TrackSubtype::VobSub) => true,
                    _ => false,
                };
                let text = match major {
                    MajorType::Subtitle | MajorType::Sami | MajorType::Html => true,
                    MajorType::Stream => match sub {
                        Some(TrackSubtype::Srt) | Some(TrackSubtype::Ssa) | Some(
                            TrackSubtype::WebVtt,
                        ) | Some(TrackSubtype::Ttml) | Some(TrackSubtype::Xml) => true,
                        _ => false,
                    },
                    MajorType::Other => false,
                };
                if !bitmap && text {
                    return Some((i, sub));
                }
            },
            None => {},
        }
        i += 1;
    }
    None
}

/// Law: a stream declared as subtitles, SAMI or HTML is a text track whatever its subtype, as
/// long as that subtype is not a bitmap format.
pub proof fn law_text_major_types_are_usable(major: MajorType, sub: Option<TrackSubtype>)
    requires
        major == MajorType::Subtitle || major == MajorType::Sami || major == MajorType::Html,
        sub != Some(TrackSubtype::Pgs) && sub != Some(TrackSubtype::VobSub),
    ensures
        usable(Some((major, sub))),
{
}

/// Law: bitmap subtitle streams, streams of another major type, and streams whose type cannot
/// be read are never text tracks.
pub proof fn law_unusable_streams(major: MajorType, sub: Option<TrackSubtype>)
    ensures
        !usable(Some((major, Some(TrackSubtype::Pgs)))),
        !usable(Some((major, Some(TrackSubtype::VobSub)))),
        !usable(Some((MajorType::Other, sub))),
        !usable(None),
        !usable(Some((MajorType::Stream, None))),
        !usable(Some((MajorType::Stream, Some(TrackSubtype::Other)))),
{
}

/// Law: when the first stream is a text track, it is the one chosen, with its subtype.
pub proof fn law_first_text_stream_is_chosen(
    streams: Seq<StreamType>,
    r: Option<(usize, Option<TrackSubtype>)>,
    major: MajorType,
    sub: Option<TrackSubtype>,
)
    requires
        streams.len() > 0,
        streams[0] == Some((major, sub)),
        major == MajorType::Subtitle || major == MajorType::Sami || major == MajorType::Html,
        sub != Some(TrackSubtype::Pgs) && sub != Some(TrackSubtype::VobSub),
        match r {
            Some((i, s)) => {
                &&& i < examined(streams.len())
                &&& usable(streams[i as int])
                &&& streams[i as int] matches Some((_, t)) && t == s
                &&& forall|j: int| 0 <= j < i ==> !usable(#[trigger] streams[j])
            },
            None => forall|j: int| 0 <= j < examined(streams.len()) ==> !usable(#[trigger] streams[j]),
        },
    ensures
        r == Some((0usize, sub)),
{
    law_text_major_types_are_usable(major, sub);
    assert(usable(streams[0]));
}

/// How a track's subtype bears on the cleanup of its payloads.
pub open spec fn payload_kind(sub: Option<TrackSubtype>) -> SubtitleSubtype {
    match sub {
        Some(TrackSubtype::WebVtt) => SubtitleSubtype::WebVtt,
        Some(TrackSubtype::Ssa) => SubtitleSubtype::Ssa,
        _ => SubtitleSubtype::Other,
    }
}

/// The payload format of a track with this subtype.
pub fn payload_subtype(sub: Option<TrackSubtype>) -> (r: SubtitleSubtype)
    ensures
        r == payload_kind(sub),
{
    match sub {
        Some(TrackSubtype::WebVtt) => SubtitleSubtype::WebVtt,
        Some(TrackSubtype::Ssa) => SubtitleSubtype::Ssa,
        _ => SubtitleSubtype::Other,
    }
}

// ---------------------------------------------------------------------------
// Sample text.
// ---------------------------------------------------------------------------

/// The text of `bytes` read as UTF-8, each invalid sequence replaced by U+FFFD.
pub uninterp spec fn utf8_lossy_text(bytes: Seq<u8>) -> Seq<char>;

/// The text of UTF-16 code units, each unpaired surrogate replaced by U+FFFD.
pub uninterp spec fn utf16_lossy_text(units: Seq<u16>) -> Seq<char>;

/// `std::str::from_utf8`: the decoded text when `bytes` are well-formed UTF-8, `None`
/// otherwise.
#[verifier::external_body]
fn utf8_str(bytes: &[u8]) -> (r: Option<String>)
    ensures
        r is Some <==> vstd::utf8::valid_utf8(bytes@),
        r matches Some(s) ==> s@ == vstd::utf8::decode_utf8(bytes@),
{
    match std::str::from_utf8(bytes) {
        Ok(s) => Some(s.to_string()),
        Err(_) => None,
    }
}

/// `String::from_utf8_lossy`, made an owned string.
#[verifier::external_body]
fn utf8_lossy(bytes: &[u8]) -> (r: String)
    ensures
        r@ == utf8_lossy_text(bytes@),
{
    String::from_utf8_lossy(bytes).to_string()
}

/// `String::from_utf16_lossy`.
#[verifier::external_body]
fn utf16_lossy(units: &[u16]) -> (r: String)
    ensures
        r@ == utf16_lossy_text(units@),
{
    String::from_utf16_lossy(units)
}

/// How the bytes of a subtitle sample are read.
#[derive(Debug, Clone, Copy, PartialEq, Eq, Structural)]
pub enum SampleEncoding {
    Utf8,
    /// UTF-16, little endian, after a byte-order mark.
    Utf16Le,
    /// UTF-8 with invalid sequences replaced.
    Lossy,
}

/// Whether the bytes start with the UTF-16 little-endian byte-order mark.
pub open spec fn has_utf16le_bom(bytes: Seq<u8>) -> bool {
    bytes.len() >= 2 && bytes[0] == 0xFFu8 && bytes[1] == 0xFEu8
}

/// The encoding of a sample: UTF-8 when the bytes are valid UTF-8, else UTF-16 LE when they
/// start with its byte-order mark, else lossy UTF-8.
pub open spec fn encoding_of(valid_utf8: bool, bytes: Seq<u8>) -> SampleEncoding {
    if valid_utf8 {
        SampleEncoding::Utf8
    } else if has_utf16le_bom(bytes) {
        SampleEncoding::Utf16Le
    } else {
        SampleEncoding::Lossy
    }
}

/// The encoding to read a sample with, given whether it is valid UTF-8.
pub fn sample_encoding(valid_utf8: bool, bytes: &[u8]) -> (r: SampleEncoding)
    ensures
        r == encoding_of(valid_utf8, bytes@),
{
    if valid_utf8 {
        SampleEncoding::Utf8
    } else if bytes.len() >= 2 && bytes[0] == 0xFF && bytes[1] == 0xFE {
        SampleEncoding::Utf16Le
    } else {
        SampleEncoding::Lossy
    }
}

/// Little-endian code units of `bytes` taken in pairs; an odd last byte is dropped.
pub open spec fn le_units(bytes: Seq<u8>) -> Seq<u16> {
    Seq::new(bytes.len() / 2, |i: int| (bytes[2 * i] + 256 * bytes[2 * i + 1]) as u16)
}

/// The code units of UTF-16 LE text in `bytes`.
pub fn utf16_le_units(bytes: &[u8]) -> (r: Vec<u16>)
    ensures
        r@ == le_units(bytes@),
{
    let len = bytes.len();
    let n = len / 2;
    let mut out: Vec<u16> = Vec::new();
    let mut i: usize = 0;
    while i < n
        invariant
            i <= n,
            len == bytes@.len(),
            n == len / 2,
            2 * n <= len,
            out@ =~= le_units(bytes@).take(i as int),
        decreases n - i,
    {
        assert(2 * i + 1 < len);
        let lo = bytes[2 * i] as u16;
        let hi = bytes[2 * i + 1] as u16;
        out.push(lo + 256 * hi);
        i += 1;
    }
    out
}

fn bytes_from(bytes: &[u8], start: usize) -> (r: Vec<u8>)
    requires
        start <= bytes@.len(),
    ensures
        r@ == bytes@.skip(start as int),
{
    let mut out: Vec<u8> = Vec::new();
    let mut i: usize = start;
    while i < bytes.len()
        invariant
            start <= i <= bytes@.len(),
            out@ =~= bytes@.subrange(start as int, i as int),
        decreases bytes.len() - i,
    {
        out.push(bytes[i]);
        i += 1;
    }
    out
}

/// The text of a subtitle sample's bytes.
pub open spec fn sample_text_of(bytes: Seq<u8>) -> Seq<char> {
    if vstd::utf8::valid_utf8(bytes) {
        vstd::utf8::decode_utf8(bytes)
    } else if has_utf16le_bom(bytes) {
        utf16_lossy_text(le_units(bytes.skip(2)))
    } else {
        utf8_lossy_text(bytes)
    }
}

/// The text of a subtitle sample's bytes: UTF-8 when valid, else UTF-16 LE after its
/// byte-order mark, else UTF-8 with invalid sequences replaced.
pub fn decode_sample_text(bytes: &[u8]) -> (r: String)
    ensures
        r@ == sample_text_of(bytes@),
{
    let utf8 = utf8_str(bytes);
    let valid = utf8.is_some();
    match sample_encoding(valid, bytes) {
        SampleEncoding::Utf8 => match utf8 {
            Some(s) => s,
            None => utf8_lossy(bytes),
        },
        SampleEncoding::Utf16Le => {
            let rest = bytes_from(bytes, 2);
            let units = utf16_le_units(rest.as_slice());
            utf16_lossy(units.as_slice())
        },
        SampleEncoding::Lossy => utf8_lossy(bytes),
    }
}


// ---------------------------------------------------------------------------
// Cues from samples.
// ---------------------------------------------------------------------------

/// How long a cue shows when its sample carries no duration: 2 s, in 100 ns units.
pub const DEFAULT_CUE_TICKS: u64 = 20_000_000;

/// The shortest time a cue shows: 0.2 s, in 100 ns units.
pub const MIN_CUE_TICKS: u64 = 2_000_000;

/// Start and end, in 100 ns units, of the cue of a sample with this timestamp and duration
/// (`None` when the sample has none): a negative timestamp counts as 0, a missing or
/// non-positive duration as the default, and the cue lasts at least the minimum.
pub open spec fn cue_span(timestamp: i64, duration: Option<i64>) -> (int, int) {
    let start: int = if timestamp > 0 {
        timestamp as int
    } else {
        0
    };
    let d: int = match duration {
        Some(d) => if d > 0 {
            d as int
        } else {
            DEFAULT_CUE_TICKS as int
        },
        None => DEFAULT_CUE_TICKS as int,
    };
    (start, start + if d > MIN_CUE_TICKS { d } else { MIN_CUE_TICKS as int })
}

/// The cue of a sample whose cleaned text is `text`: none when the text is blank, else its
/// start and end in 100 ns units.
pub fn sample_cue(text: &str, timestamp: i64, duration: Option<i64>) -> (r: Option<(u64, u64)>)
    ensures
        r is None <==> trim(text@).len() == 0,
        r matches Some((start, end)) ==> (start as int, end as int) == cue_span(timestamp, duration),
{
    let chars = chars_of(text);
    let trimmed = trim_chars(chars.as_slice());
    if trimmed.len() == 0 {
        return None;
    }
    let start: u64 = if timestamp > 0 {
        timestamp as u64
    } else {
        0
    };
    let d: u64 = match duration {
        Some(d) => if d > 0 {
            d as u64
        } else {
            DEFAULT_CUE_TICKS
        },
        None => DEFAULT_CUE_TICKS,
    };
    let shown: u64 = if d > MIN_CUE_TICKS {
        d
    } else {
        MIN_CUE_TICKS
    };
    Some((start, start + shown))
}

} // verus!
