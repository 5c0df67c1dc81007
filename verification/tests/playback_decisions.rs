use look_everyting::playback::{
    choose_output_format, command_reports, next_playing, previous_frame_position, read_decision,
    read_frame_end, route_command, CommandRoute, FrameSize, OutputFormat, ReadDecision, ReadEnd,
    ReadResult, ReportKind, VideoCommandKind, MAX_READ_ATTEMPTS,
};

fn read(end: bool, changed: Option<Option<FrameSize>>, sample: bool, ts: i64) -> ReadResult {
    ReadResult {
        end_of_stream: end,
        type_changed: changed.is_some(),
        new_size: changed.flatten(),
        has_sample: sample,
        timestamp: ts,
    }
}

fn size(width: u32, height: u32) -> FrameSize {
    FrameSize { width, height }
}

#[test]
fn commands_need_an_open_player() {
    assert_eq!(route_command(false, VideoCommandKind::Play), CommandRoute::Ignore);
    assert_eq!(route_command(true, VideoCommandKind::Play), CommandRoute::Apply);
    assert_eq!(route_command(false, VideoCommandKind::Open), CommandRoute::Reopen);
    assert_eq!(route_command(true, VideoCommandKind::Open), CommandRoute::Reopen);
    assert_eq!(route_command(true, VideoCommandKind::Shutdown), CommandRoute::Stop);
    assert_eq!(route_command(false, VideoCommandKind::Shutdown), CommandRoute::Stop);
}

#[test]
fn reports_after_commands() {
    assert_eq!(command_reports(VideoCommandKind::Open, true, false), vec![ReportKind::Opened, ReportKind::Position]);
    assert_eq!(command_reports(VideoCommandKind::Open, false, false), vec![ReportKind::Failed]);
    assert_eq!(command_reports(VideoCommandKind::Play, false, true), vec![ReportKind::Playing(true)]);
    assert_eq!(command_reports(VideoCommandKind::Pause, false, false), vec![ReportKind::Playing(false)]);
    assert_eq!(command_reports(VideoCommandKind::Toggle, false, true), vec![ReportKind::Playing(true)]);
    assert_eq!(command_reports(VideoCommandKind::Tick, true, true), vec![ReportKind::Frame, ReportKind::Position]);
    assert!(command_reports(VideoCommandKind::Tick, false, true).is_empty());
    assert_eq!(
        command_reports(VideoCommandKind::Seek, true, false),
        vec![ReportKind::Frame, ReportKind::Position, ReportKind::Playing(false)]
    );
    assert_eq!(command_reports(VideoCommandKind::StepBackward, false, false), vec![ReportKind::Playing(false)]);
    assert!(command_reports(VideoCommandKind::Shutdown, true, true).is_empty());
}

#[test]
fn playing_state_after_commands() {
    assert!(next_playing(VideoCommandKind::Play, false, true));
    assert!(!next_playing(VideoCommandKind::Pause, true, true));
    assert!(next_playing(VideoCommandKind::Toggle, false, true));
    assert!(!next_playing(VideoCommandKind::Toggle, true, true));
    assert!(!next_playing(VideoCommandKind::StepForward, true, true));
    assert!(next_playing(VideoCommandKind::SeekRelative, true, false));
    assert!(next_playing(VideoCommandKind::Tick, true, true));
}

#[test]
fn read_decisions() {
    assert_eq!(read_decision(read(true, None, true, 5)), ReadDecision::EndOfStream);
    assert_eq!(
        read_decision(read(false, Some(Some(size(640, 480))), false, 0)),
        ReadDecision::Resize(Some(size(640, 480)))
    );
    assert_eq!(read_decision(read(false, Some(Some(size(0, 480))), false, 0)), ReadDecision::Resize(None));
    assert_eq!(read_decision(read(false, None, false, 0)), ReadDecision::ReadAgain);
    assert_eq!(read_decision(read(false, None, true, 40)), ReadDecision::Decode(Some(40)));
    assert_eq!(read_decision(read(false, None, true, -1)), ReadDecision::Decode(None));
}

#[test]
fn reading_a_frame_adopts_new_sizes_until_a_sample() {
    let reads = vec![
        read(false, None, false, 0),
        read(false, Some(Some(size(1920, 1080))), false, 0),
        read(false, Some(None), false, 0),
        read(false, None, true, 100),
        read(true, None, false, 0),
    ];
    assert_eq!(read_frame_end(size(1280, 720), &reads), (ReadEnd::Decode(3), size(1920, 1080)));
    let ended = vec![read(false, None, false, 0), read(true, None, true, 0)];
    assert_eq!(read_frame_end(size(2, 2), &ended), (ReadEnd::EndOfStream(1), size(2, 2)));
}

#[test]
fn reading_gives_up_after_the_attempts() {
    let mut reads = vec![read(false, None, false, 0); MAX_READ_ATTEMPTS as usize];
    reads.push(read(false, None, true, 9));
    assert_eq!(read_frame_end(size(4, 4), &reads), (ReadEnd::NoFrame, size(4, 4)));
    reads.remove(0);
    assert_eq!(read_frame_end(size(4, 4), &reads).0, ReadEnd::Decode(31));
    assert_eq!(read_frame_end(size(4, 4), &[]).0, ReadEnd::NoFrame);
}

#[test]
fn output_format_is_the_first_accepted() {
    assert_eq!(choose_output_format(&[true, true, true, true]), Some(OutputFormat::Rgb32));
    assert_eq!(choose_output_format(&[false, true]), Some(OutputFormat::Nv12));
    assert_eq!(choose_output_format(&[false, false, true]), Some(OutputFormat::Yuy2));
    assert_eq!(choose_output_format(&[false, false, false, true]), Some(OutputFormat::Nv12));
    assert_eq!(choose_output_format(&[false, false, false, false, true]), None);
    assert_eq!(choose_output_format(&[]), None);
}

#[test]
fn stepping_back_stops_at_the_start() {
    assert_eq!(previous_frame_position(1_000_000, 333_667), 666_333);
    assert_eq!(previous_frame_position(100, 333_667), 0);
    assert_eq!(previous_frame_position(i64::MIN, 1), 0);
}

#[test]
fn toggling_twice_restores_playback() {
    for playing in [false, true] {
        let once = next_playing(VideoCommandKind::Toggle, playing, true);
        assert_eq!(next_playing(VideoCommandKind::Toggle, once, true), playing);
    }
}

#[test]
fn reported_state_follows_the_player() {
    for cmd in [
        VideoCommandKind::Play,
        VideoCommandKind::Pause,
        VideoCommandKind::Toggle,
        VideoCommandKind::StepForward,
        VideoCommandKind::Seek,
    ] {
        for playing in [false, true] {
            let after = next_playing(cmd, playing, true);
            let reports = command_reports(cmd, true, after);
            assert_eq!(reports.last(), Some(&ReportKind::Playing(after)));
        }
    }
}
