use look_everyting::subtitles::{
    ass_cue_fields, normalize_subtitle_payload, split_ass_fields, srt_cue_fields, strip_ass_tags,
    strip_webvtt, sidecar_paths, subtitle_format, CueFields, SubtitleFormat, SubtitleSubtype,
    TimeFields,
};

fn seconds(t: &TimeFields) -> Option<f32> {
    let h: f32 = t.hours.parse().ok()?;
    let m: f32 = t.minutes.parse().ok()?;
    let s: f32 = t.seconds.parse().ok()?;
    Some(h * 3600.0 + m * 60.0 + s)
}

fn timed(cues: Vec<CueFields>) -> Vec<(f32, f32, String)> {
    cues.into_iter()
        .filter_map(|c| Some((seconds(&c.start)?, seconds(&c.end)?, c.text)))
        .collect()
}

fn active_at(cues: &[(f32, f32, String)], secs: f32) -> Option<&str> {
    cues.iter()
        .find(|c| secs >= c.0 && secs <= c.1)
        .map(|c| c.2.as_str())
}

#[test]
fn parses_basic_srt() {
    let srt = "1\n00:00:01,000 --> 00:00:03,500\nHello\nWorld\n\n2\n00:00:04,000 --> 00:00:05,000\nBye\n";
    let subs = timed(srt_cue_fields(srt));
    assert_eq!(subs.len(), 2);
    assert_eq!(active_at(&subs, 2.0), Some("Hello\nWorld"));
    assert_eq!(active_at(&subs, 4.5), Some("Bye"));
    assert!(active_at(&subs, 10.0).is_none());
}

#[test]
fn parses_basic_ass() {
    let ass = "[Events]\nFormat: Layer, Start, End, Style, Name, MarginL, MarginR, MarginV, Effect, Text\nDialogue: 0,0:00:01.00,0:00:02.50,Default,,0,0,0,,{\\i1}Hi{\\i0} there\\NLine2\n";
    let subs = timed(ass_cue_fields(ass));
    assert_eq!(subs.len(), 1);
    assert_eq!(active_at(&subs, 1.5), Some("Hi there\nLine2"));
}

#[test]
fn srt_time_fields_and_line_ends() {
    let srt = "00:00:01,250 --> 00:00:02,000\r\n  Only text  \r\n\r\n3\r\nbad timing\r\nText\r\n\r\n7\r\n00:01:00,000 --> 00:01:02,000\r\n";
    let cues = srt_cue_fields(srt);
    assert_eq!(cues.len(), 1);
    assert_eq!(cues[0].start.hours, "00");
    assert_eq!(cues[0].start.seconds, "01.250");
    assert_eq!(cues[0].end.minutes, "00");
    assert_eq!(cues[0].text, "Only text");
}

#[test]
fn ass_without_format_and_outside_events() {
    let ass = "Dialogue: 0,0:00:00.00,0:00:01.00,X,,0,0,0,,ignored\n[Script Info]\nTitle: x\n[EVENTS]\nComment: 0,0:00:00.00,0:00:01.00,X,,0,0,0,,note\nDialogue: 0,0:00:03.00,0:00:04,5,Default,,0,0,0,,a, b\\nc\nDialogue: 0,0:00:05.00,0:00:06.00,Default,,0,0,0,,{\\b1}\n";
    let cues = ass_cue_fields(ass);
    assert_eq!(cues.len(), 1);
    assert_eq!(cues[0].start.seconds, "03.00");
    assert_eq!(cues[0].end.hours, "0");
    assert_eq!(cues[0].end.seconds, "04");
    assert_eq!(cues[0].text, ",a, b\nc");
}

#[test]
fn ass_fields_keep_commas_in_text() {
    let f = split_ass_fields(" 0, 0:00:01.00 ,x,,0,0,0,,, Hello, world ", 3);
    assert_eq!(f.len(), 10);
    assert_eq!(f[1], "0:00:01.00");
    assert_eq!(f[9], "Hello, world");
    assert_eq!(split_ass_fields("a,b", 0), vec!["a".to_string(), "b".to_string()]);
}

#[test]
fn strips_override_tags() {
    assert_eq!(strip_ass_tags("{\\i1}Hi{\\i0} there"), "Hi there");
    assert_eq!(strip_ass_tags("a{unclosed"), "a");
    assert_eq!(strip_ass_tags("}{x}}"), "}}");
    assert!(!strip_ass_tags("{a}{b}c{").contains('{'));
}

#[test]
fn webvtt_and_payloads() {
    let vtt = "WEBVTT\n\n1\n00:00:01.000 --> 00:00:02.000\n Hello \nNOTE x\nSTYLE y\nWorld\n";
    assert_eq!(strip_webvtt(vtt), "Hello\nWorld");
    assert_eq!(normalize_subtitle_payload("  ", SubtitleSubtype::Other), "");
    assert_eq!(normalize_subtitle_payload("WEBVTT\nHi", SubtitleSubtype::Other), "Hi");
    assert_eq!(normalize_subtitle_payload("x\n12\ny", SubtitleSubtype::WebVtt), "x\ny");
    assert_eq!(
        normalize_subtitle_payload("Dialogue: 0,a,b,,{\\i1}Hey", SubtitleSubtype::Other),
        "Hey"
    );
    assert_eq!(normalize_subtitle_payload("1,,2,,{x}tail\\N", SubtitleSubtype::Ssa), "tail\\N");
    assert_eq!(normalize_subtitle_payload(" {\\b1}One\\NTwo ", SubtitleSubtype::Other), "One\nTwo");
}

#[test]
fn sidecar_paths_replace_the_extension() {
    assert_eq!(sidecar_paths("/v/a.mp4"), vec!["/v/a.srt", "/v/a.ass", "/v/a.ssa"]);
    assert_eq!(sidecar_paths("clip.tar.mkv")[0], "clip.tar.srt");
}

#[test]
fn sidecar_paths_of_names_without_extension() {
    assert_eq!(sidecar_paths("/v/.hidden")[0], "/v/.hidden.srt");
    assert_eq!(sidecar_paths("/v/movie")[1], "/v/movie.ass");
    assert_eq!(sidecar_paths("/")[2], "/");
}

#[test]
fn subtitle_format_by_extension() {
    assert_eq!(subtitle_format("x.SSA"), SubtitleFormat::Ass);
    assert_eq!(subtitle_format("x.ass"), SubtitleFormat::Ass);
    assert_eq!(subtitle_format("x.srt"), SubtitleFormat::Srt);
    assert_eq!(subtitle_format("x"), SubtitleFormat::Srt);
}
