use look_everyting::embedded::{
    decode_sample_text, payload_subtype, sample_cue, sample_encoding, select_text_track, utf16_le_units,
    MajorType, SampleEncoding, StreamType, TrackSubtype,
};
use look_everyting::subtitles::SubtitleSubtype;

#[test]
fn picks_first_text_track_skipping_bitmaps() {
    let streams: Vec<StreamType> = vec![
        None,
        Some((MajorType::Other, None)),
        Some((MajorType::Subtitle, Some(TrackSubtype::Pgs))),
        Some((MajorType::Stream, Some(TrackSubtype::Other))),
        Some((MajorType::Stream, Some(TrackSubtype::WebVtt))),
        Some((MajorType::Subtitle, None)),
    ];
    assert_eq!(select_text_track(&streams), Some((4, Some(TrackSubtype::WebVtt))));
}

#[test]
fn no_text_track_among_bitmaps() {
    let streams: Vec<StreamType> = vec![
        Some((MajorType::Subtitle, Some(TrackSubtype::VobSub))),
        Some((MajorType::Stream, None)),
    ];
    assert_eq!(select_text_track(&streams), None);
    assert_eq!(select_text_track(&[]), None);
}

#[test]
fn only_the_first_sixty_four_streams_are_examined() {
    let mut streams: Vec<StreamType> = vec![Some((MajorType::Other, None)); 64];
    streams.push(Some((MajorType::Sami, None)));
    assert_eq!(select_text_track(&streams), None);
    streams[63] = Some((MajorType::Html, None));
    assert_eq!(select_text_track(&streams), Some((63, None)));
}

#[test]
fn payload_subtype_follows_the_track() {
    assert_eq!(payload_subtype(Some(TrackSubtype::WebVtt)), SubtitleSubtype::WebVtt);
    assert_eq!(payload_subtype(Some(TrackSubtype::Ssa)), SubtitleSubtype::Ssa);
    assert_eq!(payload_subtype(Some(TrackSubtype::Srt)), SubtitleSubtype::Other);
    assert_eq!(payload_subtype(None), SubtitleSubtype::Other);
}

#[test]
fn sample_encoding_choice() {
    assert_eq!(sample_encoding(true, &[0xFF, 0xFE]), SampleEncoding::Utf8);
    assert_eq!(sample_encoding(false, &[0xFF, 0xFE, 0x41, 0x00]), SampleEncoding::Utf16Le);
    assert_eq!(sample_encoding(false, &[0xFF]), SampleEncoding::Lossy);
    assert_eq!(sample_encoding(false, &[0xFE, 0xFF]), SampleEncoding::Lossy);
}

#[test]
fn utf16_units_are_little_endian_pairs() {
    assert_eq!(utf16_le_units(&[0x68, 0x00, 0x69, 0x00, 0x7F]), vec![0x68, 0x69]);
    assert_eq!(utf16_le_units(&[0x34, 0x12]), vec![0x1234]);
    assert!(utf16_le_units(&[0x01]).is_empty());
}

#[test]
fn decodes_sample_bytes() {
    assert_eq!(decode_sample_text("hé".as_bytes()), "hé");
    assert_eq!(decode_sample_text(&[0xFF, 0xFE, 0x68, 0x00, 0x69, 0x00]), "hi");
    assert_eq!(decode_sample_text(&[0xFF, 0x41]), "\u{FFFD}A");
    assert_eq!(decode_sample_text(&[]), "");
}

#[test]
fn sample_cues_skip_blank_text_and_default_their_timing() {
    assert_eq!(sample_cue("  \n ", 10, Some(5)), None);
    assert_eq!(sample_cue("Hi", 10_000_000, Some(15_000_000)), Some((10_000_000, 25_000_000)));
    assert_eq!(sample_cue("Hi", 10_000_000, None), Some((10_000_000, 30_000_000)));
    assert_eq!(sample_cue("Hi", 10_000_000, Some(0)), Some((10_000_000, 30_000_000)));
    assert_eq!(sample_cue("Hi", -5, Some(1_000)), Some((0, 2_000_000)));
    assert_eq!(sample_cue("Hi", i64::MAX, Some(i64::MAX)), Some((i64::MAX as u64, 2 * (i64::MAX as u64))));
}
