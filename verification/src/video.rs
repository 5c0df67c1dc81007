//! Video file metadata, playback errors and frames, media URLs, and the audio track
//! decisions of the Media Foundation decoder.

use vstd::prelude::*;

use crate::media::{classify, classify_extension, extension_of, path_extension, MediaKind};
use crate::subtitles::replace;
use crate::text::{
    append_chars, chars_eq_str, chars_of, decimal, decimal_chars, starts_with, starts_with_chars,
    string_from_chars, upper, upper_chars,
};

verus! {

broadcast use vstd::string::group_string_axioms;

/// Why playback failed.
#[derive(Debug)]
pub enum PlayerError {
    UnsupportedPlatform,
    Message(String),
}

/// Why video metadata could not be read.
#[derive(Debug)]
pub enum VideoError {
    UnsupportedFormat,
    Io(std::io::Error),
    Player(PlayerError),
}

/// One decoded RGBA video frame.
#[derive(Clone)]
pub struct VideoFrame {
    pub width: u32,
    pub height: u32,
    pub rgba: Vec<u8>,
}

// ---------------------------------------------------------------------------
// Format information.
// ---------------------------------------------------------------------------

/// Container formats (upper case) that play in the app.
pub open spec fn playable_formats() -> Seq<Seq<char>> {
    seq!["MP4"@, "M4V"@, "WEBM"@, "MOV"@, "MKV"@, "AVI"@, "WMV"@]
}

pub open spec fn playable_note() -> Seq<char> {
    "Press Play for in-app playback."@
}

pub open spec fn codec_note() -> Seq<char> {
    "Format may require external codecs."@
}

/// What the extension of a video file tells: its format label, whether it plays in the app,
/// and a note for the user.
#[derive(Debug, Clone)]
pub struct VideoFormatInfo {
    pub format: String,
    pub playable_in_app: bool,
    pub notes: String,
}

/// Format label, playability and note of the video file at `path`.
pub fn video_format_info(path: &str) -> (r: Result<VideoFormatInfo, VideoError>)
    ensures
        r matches Err(VideoError::UnsupportedFormat) <==> classify(path@) != Some(MediaKind::Video),
        r is Ok <==> classify(path@) == Some(MediaKind::Video),
        r matches Ok(info) ==> {
            &&& info.format@ == upper(path_extension(path@)->0)
            &&& info.playable_in_app == playable_formats().contains(info.format@)
            &&& info.notes@ == if info.playable_in_app {
                playable_note()
            } else {
                codec_note()
            }
        },
{
    if classify_extension(path) != Some(MediaKind::Video) {
        return Err(VideoError::UnsupportedFormat);
    }
    let chars = chars_of(path);
    let ext = match extension_of(chars.as_slice()) {
        Some(e) => e,
        None => return Err(VideoError::UnsupportedFormat),
    };
    let up = upper_chars(ext.as_slice());
    let list: [&'static str; 7] = ["MP4", "M4V", "WEBM", "MOV", "MKV", "AVI", "WMV"];
    let mut playable = false;
    let mut i: usize = 0;
    while i < 7
        invariant
            i <= 7,
            list@.len() == 7,
            forall|k: int| 0 <= k < 7 ==> (#[trigger] list@[k])@ == playable_formats()[k],
            playable == exists|k: int| 0 <= k < i && playable_formats()[k] == up@,
        decreases 7 - i,
    {
        if chars_eq_str(up.as_slice(), list[i]) {
            playable = true;
        }
        i += 1;
    }
    let notes = if playable {
        String::from_str("Press Play for in-app playback.")
    } else {
        String::from_str("Format may require external codecs.")
    };
    Ok(VideoFormatInfo { format: string_from_chars(up.as_slice()), playable_in_app: playable, notes })
}


/// The format information assumed for a video whose metadata could not be read: the
/// upper-cased extension (`VIDEO` without one), playable in the app, and no note.
pub fn fallback_video_format(path: &str) -> (r: VideoFormatInfo)
    ensures
        r.format@ == match path_extension(path@) {
            Some(e) => upper(e),
            None => "VIDEO"@,
        },
        r.playable_in_app,
        r.notes@.len() == 0,
{
    let chars = chars_of(path);
    let format = match extension_of(chars.as_slice()) {
        Some(e) => {
            let up = upper_chars(e.as_slice());
            string_from_chars(up.as_slice())
        },
        None => String::from_str("VIDEO"),
    };
    VideoFormatInfo { format, playable_in_app: true, notes: String::new() }
}

// ---------------------------------------------------------------------------
// Media URLs.
// ---------------------------------------------------------------------------

/// The `file:` URL of a canonical path text: a verbatim `\\?\` prefix is dropped, a UNC
/// path (`//server/...`) gets `file:`, any other gets `file:///` with `\` made `/`.
pub open spec fn file_url(text: Seq<char>) -> Seq<char> {
    let t = if starts_with(text, "\\\\?\\"@) {
        text.skip(4)
    } else {
        text
    };
    if starts_with(t, "//"@) {
        "file:"@ + t
    } else {
        "file:///"@ + replace(t, "\\"@, "/"@)
    }
}

/// The UTF-16 code units of one character.
pub open spec fn utf16_units(c: char) -> Seq<u16> {
    let v = c as u32;
    if v < 0x10000 {
        seq![v as u16]
    } else {
        let w = (v - 0x10000) as u32;
        seq![(0xD800 + w / 0x400) as u16, (0xDC00 + w % 0x400) as u16]
    }
}

/// The UTF-16 encoding of `s` (`str::encode_utf16`).
pub open spec fn utf16(s: Seq<char>) -> Seq<u16>
    decreases s.len(),
{
    if s.len() == 0 {
        Seq::empty()
    } else {
        utf16(s.drop_last()) + utf16_units(s.last())
    }
}

fn push_utf16(out: &mut Vec<u16>, c: char)
    ensures
        final(out)@ == old(out)@ + utf16_units(c),
{
    let v = c as u32;
    if v < 0x10000 {
        out.push(v as u16);
    } else {
        let w = v - 0x10000;
        assert(w < 0x100000) by {
            assert(v <= 0x10FFFF);
        }
        out.push((0xD800 + w / 0x400) as u16);
        out.push((0xDC00 + w % 0x400) as u16);
    }
    assert(final(out)@ =~= old(out)@ + utf16_units(c));
}

/// The NUL-terminated UTF-16 `file:` URL of a canonical path text, for Media Foundation.
pub fn path_to_file_url(path_text: &str) -> (r: Vec<u16>)
    ensures
        r@ == utf16(file_url(path_text@)).push(0u16),
{
    let text = chars_of(path_text);
    let verbatim = chars_of("\\\\?\\");
    let unc = chars_of("//");
    let backslash = chars_of("\\");
    let slash = chars_of("/");
    proof {
        reveal_strlit("\\\\?\\");
        reveal_strlit("\\");
    }
    let t: Vec<char> = if starts_with_chars(text.as_slice(), verbatim.as_slice()) {
        let v = crate::text::copy_range(text.as_slice(), 4, text.len());
        assert(v@ =~= text@.skip(4));
        v
    } else {
        text
    };
    let mut url: Vec<char> = Vec::new();
    if starts_with_chars(t.as_slice(), unc.as_slice()) {
        let prefix = chars_of("file:");
        append_chars(&mut url, prefix.as_slice());
        append_chars(&mut url, t.as_slice());
    } else {
        let prefix = chars_of("file:///");
        append_chars(&mut url, prefix.as_slice());
        let rest = crate::subtitles::replace_chars(t.as_slice(), backslash.as_slice(), slash.as_slice());
        append_chars(&mut url, rest.as_slice());
    }
    let mut out: Vec<u16> = Vec::new();
    let mut i: usize = 0;
    while i < url.len()
        invariant
            i <= url@.len(),
            out@ == utf16(url@.take(i as int)),
        decreases url@.len() - i,
    {
        assert(url@.take(i + 1).drop_last() =~= url@.take(i as int));
        push_utf16(&mut out, url[i]);
        i += 1;
    }
    assert(url@.take(url@.len() as int) =~= url@);
    out.push(0);
    out
}

// ---------------------------------------------------------------------------
// Audio.
// ---------------------------------------------------------------------------

/// Why audio could not be decoded.
#[derive(Debug)]
pub enum AudioError {
    UnsupportedPlatform,
    NoAudio,
    Message(String),
}

/// Sample rate and channel count of decoded PCM.
#[derive(Debug, Clone, Copy, PartialEq, Eq, Structural)]
pub struct AudioFormat {
    pub sample_rate: u32,
    pub channels: u16,
}

/// One audio stream of a media file.
#[derive(Debug, Clone)]
pub struct AudioTrackInfo {
    pub index: u32,
    pub sample_rate: u32,
    pub channels: u16,
    pub label: String,
}

/// The state of a Media Foundation audio reader: its stream, output format and whether the
/// stream has ended.
pub struct MfAudio {
    stream: u32,
    format: AudioFormat,
    ended: bool,
}

impl MfAudio {
    pub closed spec fn spec_stream(&self) -> u32 {
        self.stream
    }

    pub closed spec fn spec_format(&self) -> AudioFormat {
        self.format
    }

    pub closed spec fn spec_ended(&self) -> bool {
        self.ended
    }

    /// A reader positioned at the start of `stream`, producing `format`.
    pub fn new(stream: u32, format: AudioFormat) -> (r: Self)
        ensures
            r.spec_stream() == stream,
            r.spec_format() == format,
            !r.spec_ended(),
    {
        MfAudio { stream, format, ended: false }
    }

    pub fn format(&self) -> (r: AudioFormat)
        ensures
            r == self.spec_format(),
    {
        self.format
    }

    pub fn stream(&self) -> (r: u32)
        ensures
            r == self.spec_stream(),
    {
        self.stream
    }
}

/// Sidecar audio reader (separate from the video source reader).
pub struct AudioDecoder {
    inner: Option<MfAudio>,
}

impl AudioDecoder {
    /// The wrapped reader, `None` when there is no audio.
    pub closed spec fn spec_reader(&self) -> Option<MfAudio> {
        self.inner
    }

    /// The format of the opened stream, `None` when there is no audio.
    pub closed spec fn spec_format(&self) -> Option<AudioFormat> {
        match self.inner {
            Some(a) => Some(a.spec_format()),
            None => None,
        }
    }

    /// Open the first audio track of the file.
    pub fn open(path: &str) -> (r: Result<Self, AudioError>)
        ensures
            r matches Ok(d) && d.spec_format() is None,
    {
        Self::open_track(path, 0)
    }

    /// Open an audio track of the file. Media Foundation decoding exists on Windows only;
    /// on this platform the decoder opens without audio.
    pub fn open_track(_path: &str, _track_index: usize) -> (r: Result<Self, AudioError>)
        ensures
            r matches Ok(d) && d.spec_format() is None,
    {
        AudioDecoder { inner: None }.into_ok()
    }

    fn into_ok(self) -> (r: Result<Self, AudioError>)
        ensures
            r matches Ok(d) && d == self,
    {
        Ok(self)
    }

    /// The decoder for the outcome of opening a Media Foundation reader: a file without
    /// audio gives a decoder without audio, other errors are passed on.
    pub fn from_opened(opened: Result<MfAudio, AudioError>) -> (r: Result<Self, AudioError>)
        ensures
            match opened {
                Ok(a) => (r matches Ok(d) && d.spec_format() == Some(a.spec_format())
                    && d.spec_reader() == Some(a)),
                Err(AudioError::NoAudio) => (r matches Ok(d) && d.spec_format() is None
                    && d.spec_reader() is None),
                Err(AudioError::UnsupportedPlatform) => r matches Err(
                    AudioError::UnsupportedPlatform,
                ),
                Err(AudioError::Message(m)) => (r matches Err(AudioError::Message(n)) && n@ == m@),
            },
    {
        match opened {
            Ok(inner) => Ok(AudioDecoder { inner: Some(inner) }),
            Err(AudioError::NoAudio) => Ok(AudioDecoder { inner: None }),
            Err(e) => Err(e),
        }
    }

    /// The audio tracks of the file. Media Foundation enumerates them on Windows only; on
    /// this platform there are none.
    pub fn list_tracks(_path: &str) -> (r: Vec<AudioTrackInfo>)
        ensures
            r@.len() == 0,
    {
        Vec::new()
    }

    pub fn format(&self) -> (r: Option<AudioFormat>)
        ensures
            r == self.spec_format(),
    {
        match &self.inner {
            Some(a) => Some(a.format()),
            None => None,
        }
    }

    pub fn has_audio(&self) -> (r: bool)
        ensures
            r == self.spec_format() is Some,
    {
        self.format().is_some()
    }
}

/// The stream to decode: the requested track among the audio streams, the last one when the
/// request is past the end.
pub fn select_audio_stream(tracks: &[u32], track_index: usize) -> (r: Result<u32, AudioError>)
    ensures
        tracks@.len() == 0 ==> r matches Err(AudioError::NoAudio),
        tracks@.len() > 0 ==> (r matches Ok(s) && s == tracks@[if track_index < tracks@.len() {
            track_index as int
        } else {
            tracks@.len() - 1
        }]),
{
    if tracks.len() == 0 {
        return Err(AudioError::NoAudio);
    }
    let i = if track_index < tracks.len() - 1 {
        track_index
    } else {
        tracks.len() - 1
    };
    Ok(tracks[i])
}

/// Output layout of interleaved 32-bit float PCM.
#[derive(Debug, Clone, Copy, PartialEq, Eq, Structural)]
pub struct PcmFloatLayout {
    pub format: AudioFormat,
    /// Bytes per frame: four per channel.
    pub block_align: u32,
    pub avg_bytes_per_sec: u32,
}

/// Channel count of the float output: the native count (2 when unknown) clamped to 1..=2.
pub open spec fn output_channels(native_channels: Option<u32>) -> u16 {
    let c = match native_channels {
        Some(c) => c,
        None => 2,
    };
    if c < 1 {
        1
    } else if c > 2 {
        2
    } else {
        c as u16
    }
}

/// Sample rate of the float output: the native rate (48 kHz when unknown), at least 8 kHz.
pub open spec fn output_rate(native_rate: Option<u32>) -> u32 {
    let r = match native_rate {
        Some(r) => r,
        None => 48_000,
    };
    if r < 8_000 {
        8_000
    } else {
        r
    }
}

/// Law: the float output keeps a mono or stereo stream's channel count and mixes more
/// channels down to stereo; it keeps any rate of at least 8 kHz; unknown streams get stereo at
/// 48 kHz.
pub proof fn law_output_format_bounds(c: u32, rate: u32)
    ensures
        1 <= output_channels(Some(c)) <= 2,
        1 <= c <= 2 ==> output_channels(Some(c)) == c,
        c > 2 ==> output_channels(Some(c)) == 2,
        output_channels(None) == 2,
        output_rate(Some(rate)) >= 8_000,
        rate >= 8_000 ==> output_rate(Some(rate)) == rate,
        output_rate(None) == 48_000,
{
}

/// The float PCM layout requested from the decoder for a stream with the given native
/// channel count and sample rate.
pub fn pcm_float_layout(native_channels: Option<u32>, native_rate: Option<u32>) -> (r:
    PcmFloatLayout)
    requires
        output_rate(native_rate) * (output_channels(native_channels) * 4) <= u32::MAX,
    ensures
        r.format.channels == output_channels(native_channels),
        r.format.sample_rate == output_rate(native_rate),
        r.block_align == r.format.channels * 4,
        r.avg_bytes_per_sec == r.format.sample_rate * r.block_align,
{
    let c = match native_channels {
        Some(c) => c,
        None => 2,
    };
    let channels: u16 = if c < 1 {
        1
    } else if c > 2 {
        2
    } else {
        c as u16
    };
    let rate0 = match native_rate {
        Some(r) => r,
        None => 48_000,
    };
    let sample_rate = if rate0 < 8_000 {
        8_000
    } else {
        rate0
    };
    let block = channels as u32 * 4;
    PcmFloatLayout {
        format: AudioFormat { sample_rate, channels },
        block_align: block,
        avg_bytes_per_sec: sample_rate * block,
    }
}

/// The label of the `n`-th listed audio track.
pub open spec fn track_label(n: nat, channels: nat, sample_rate: nat) -> Seq<char> {
    "Track "@ + decimal(n) + " ("@ + decimal(channels) + "ch "@ + decimal(sample_rate) + "Hz)"@
}

/// The listing entry of an audio stream found as the `n`-th audio track: channel count (2
/// when unknown, truncated to 16 bits) and sample rate (48 kHz when unknown).
pub fn audio_track_info(n: u64, index: u32, channels: Option<u32>, sample_rate: Option<u32>) -> (r:
    AudioTrackInfo)
    ensures
        r.index == index,
        r.channels == (match channels {
            Some(c) => c,
            None => 2,
        }) % 65536,
        r.sample_rate == match sample_rate {
            Some(s) => s,
            None => 48_000,
        },
        r.label@ == track_label(n as nat, r.channels as nat, r.sample_rate as nat),
{
    let c32 = match channels {
        Some(c) => c,
        None => 2,
    };
    let ch = (c32 % 65536) as u16;
    let rate = match sample_rate {
        Some(s) => s,
        None => 48_000,
    };
    let mut label: Vec<char> = Vec::new();
    let p1 = chars_of("Track ");
    let p2 = chars_of(" (");
    let p3 = chars_of("ch ");
    let p4 = chars_of("Hz)");
    let dn = decimal_chars(n);
    let dc = decimal_chars(ch as u64);
    let dr = decimal_chars(rate as u64);
    append_chars(&mut label, p1.as_slice());
    append_chars(&mut label, dn.as_slice());
    append_chars(&mut label, p2.as_slice());
    append_chars(&mut label, dc.as_slice());
    append_chars(&mut label, p3.as_slice());
    append_chars(&mut label, dr.as_slice());
    append_chars(&mut label, p4.as_slice());
    AudioTrackInfo { index, sample_rate: rate, channels: ch, label: string_from_chars(label.as_slice()) }
}

} // verus!
