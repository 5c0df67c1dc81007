//! Decisions of in-app video playback: what the decode thread does with each command and
//! what it reports back, how the frame reader treats each read, which output format the
//! decoder settles on, and where a step back lands.

use vstd::prelude::*;

verus! {

// ---------------------------------------------------------------------------
// The decode thread.
// ---------------------------------------------------------------------------

/// Commands sent to the decode thread.
#[derive(Debug, Clone, Copy, PartialEq, Eq, Structural)]
pub enum VideoCommandKind {
    Open,
    Play,
    Pause,
    Toggle,
    Tick,
    StepForward,
    StepBackward,
    Seek,
    SeekRelative,
    Shutdown,
}

/// What the decode thread does with a command.
#[derive(Debug, Clone, Copy, PartialEq, Eq, Structural)]
pub enum CommandRoute {
    /// Drop the open player, if any, and open the requested file.
    Reopen,
    /// Apply the command to the open player.
    Apply,
    /// Nothing is open: the command has no effect and nothing is reported.
    Ignore,
    /// Leave the loop.
    Stop,
}

/// The route of a command, given whether a player is open.
pub open spec fn route_of(has_player: bool, cmd: VideoCommandKind) -> CommandRoute {
    match cmd {
        VideoCommandKind::Open => CommandRoute::Reopen,
        VideoCommandKind::Shutdown => CommandRoute::Stop,
        _ => if has_player {
            CommandRoute::Apply
        } else {
            CommandRoute::Ignore
        },
    }
}

/// Where a command goes.
pub fn route_command(has_player: bool, cmd: VideoCommandKind) -> (r: CommandRoute)
    ensures
        r == route_of(has_player, cmd),
{
    match cmd {
        VideoCommandKind::Open => CommandRoute::Reopen,
        VideoCommandKind::Shutdown => CommandRoute::Stop,
        _ => if has_player {
            CommandRoute::Apply
        } else {
            CommandRoute::Ignore
        },
    }
}

/// Whether the command moves the playhead and pauses playback.
pub open spec fn is_repositioning(cmd: VideoCommandKind) -> bool {
    cmd == VideoCommandKind::StepForward || cmd == VideoCommandKind::StepBackward || cmd
        == VideoCommandKind::Seek || cmd == VideoCommandKind::SeekRelative
}

/// Events the decode thread reports.
#[derive(Debug, Clone, Copy, PartialEq, Eq, Structural)]
pub enum ReportKind {
    /// The file opened: its information and first frame.
    Opened,
    /// Opening failed: the error.
    Failed,
    /// A new frame.
    Frame,
    /// The playhead position.
    Position,
    /// Whether playback runs.
    Playing(bool),
}

/// The reports after a command was applied (or, for `Open`, attempted). `succeeded` is whether
/// the file opened, for `Open`, and whether a frame came back, for the commands that produce
/// one; `playing` is whether the player plays after the command.
pub open spec fn reports_of(cmd: VideoCommandKind, succeeded: bool, playing: bool) -> Seq<
    ReportKind,
> {
    let frame: Seq<ReportKind> = if succeeded {
        seq![ReportKind::Frame, ReportKind::Position]
    } else {
        Seq::empty()
    };
    match cmd {
        VideoCommandKind::Open => if succeeded {
            seq![ReportKind::Opened, ReportKind::Position]
        } else {
            seq![ReportKind::Failed]
        },
        VideoCommandKind::Play => seq![ReportKind::Playing(true)],
        VideoCommandKind::Pause => seq![ReportKind::Playing(false)],
        VideoCommandKind::Toggle => seq![ReportKind::Playing(playing)],
        VideoCommandKind::Tick => frame,
        VideoCommandKind::Shutdown => Seq::empty(),
        _ => frame.push(ReportKind::Playing(false)),
    }
}

/// The events to report after a command.
pub fn command_reports(cmd: VideoCommandKind, succeeded: bool, playing: bool) -> (r: Vec<
    ReportKind,
>)
    ensures
        r@ == reports_of(cmd, succeeded, playing),
{
    let mut out: Vec<ReportKind> = Vec::new();
    match cmd {
        VideoCommandKind::Open => {
            if succeeded {
                out.push(ReportKind::Opened);
                out.push(ReportKind::Position);
            } else {
                out.push(ReportKind::Failed);
            }
        },
        VideoCommandKind::Play => out.push(ReportKind::Playing(true)),
        VideoCommandKind::Pause => out.push(ReportKind::Playing(false)),
        VideoCommandKind::Toggle => out.push(ReportKind::Playing(playing)),
        VideoCommandKind::Shutdown => {},
        _ => {
            if succeeded {
                out.push(ReportKind::Frame);
                out.push(ReportKind::Position);
            }
            if cmd != VideoCommandKind::Tick {
                out.push(ReportKind::Playing(false));
            }
        },
    }
    assert(out@ =~= reports_of(cmd, succeeded, playing));
    out
}

/// Whether the player plays after a command applied to it: `Play` starts, `Pause` stops,
/// `Toggle` flips, and a step or seek that reaches the decoder pauses. `reached_decoder` is
/// false only for a relative seek in a file of unknown duration, which changes nothing.
pub open spec fn playing_after(cmd: VideoCommandKind, playing: bool, reached_decoder: bool) -> bool {
    match cmd {
        VideoCommandKind::Play => true,
        VideoCommandKind::Pause => false,
        VideoCommandKind::Toggle => !playing,
        _ => if is_repositioning(cmd) && reached_decoder {
            false
        } else {
            playing
        },
    }
}

/// The playing state after a command.
pub fn next_playing(cmd: VideoCommandKind, playing: bool, reached_decoder: bool) -> (r: bool)
    ensures
        r == playing_after(cmd, playing, reached_decoder),
{
    match cmd {
        VideoCommandKind::Play => true,
        VideoCommandKind::Pause => false,
        VideoCommandKind::Toggle => !playing,
        VideoCommandKind::StepForward | VideoCommandKind::StepBackward | VideoCommandKind::Seek
        | VideoCommandKind::SeekRelative => if reached_decoder {
            false
        } else {
            playing
        },
        _ => playing,
    }
}

/// Toggling twice restores the playing state.
pub proof fn law_toggle_twice(playing: bool, reached: bool)
    ensures
        playing_after(
            VideoCommandKind::Toggle,
            playing_after(VideoCommandKind::Toggle, playing, reached),
            reached,
        ) == playing,
{
}

/// After a command that sets whether playback runs (play, pause, toggle, or a step or seek
/// that reaches the decoder), the last report is the player's new playing state.
pub proof fn law_reported_state_matches_player(cmd: VideoCommandKind, playing: bool, succeeded: bool)
    requires
        cmd == VideoCommandKind::Play || cmd == VideoCommandKind::Pause || cmd
            == VideoCommandKind::Toggle || is_repositioning(cmd),
    ensures
        reports_of(cmd, succeeded, playing_after(cmd, playing, true)).len() > 0,
        reports_of(cmd, succeeded, playing_after(cmd, playing, true)).last() == ReportKind::Playing(
            playing_after(cmd, playing, true),
        ),
{
}

// ---------------------------------------------------------------------------
// Reading frames.
// ---------------------------------------------------------------------------

/// Reads tried for one frame before giving up.
pub const MAX_READ_ATTEMPTS: u32 = 32;

/// Width and height of decoded frames.
#[derive(Debug, Clone, Copy, PartialEq, Eq, Structural)]
pub struct FrameSize {
    pub width: u32,
    pub height: u32,
}

/// What one read from the decoder brought.
#[derive(Debug, Clone, Copy, PartialEq, Eq, Structural)]
pub struct ReadResult {
    pub end_of_stream: bool,
    /// The decoder's output type changed; the new frame size, when it could be read.
    pub type_changed: bool,
    pub new_size: Option<FrameSize>,
    pub has_sample: bool,
    pub timestamp: i64,
}

/// What the frame reader does after a read.
#[derive(Debug, Clone, Copy, PartialEq, Eq, Structural)]
pub enum ReadDecision {
    /// Stop: the stream ended.
    EndOfStream,
    /// Read again, first adopting this frame size when there is one.
    Resize(Option<FrameSize>),
    /// Read again.
    ReadAgain,
    /// Decode the sample; the position becomes its timestamp unless that is negative.
    Decode(Option<i64>),
}

/// The decision after a read: the end of the stream stops, a changed output type is adopted
/// when its size has no zero side, a read without a sample is repeated.
pub open spec fn read_decision_of(r: ReadResult) -> ReadDecision {
    if r.end_of_stream {
        ReadDecision::EndOfStream
    } else if r.type_changed {
        ReadDecision::Resize(
            match r.new_size {
                Some(sz) => if sz.width > 0 && sz.height > 0 {
                    Some(sz)
                } else {
                    None
                },
                None => None,
            },
        )
    } else if !r.has_sample {
        ReadDecision::ReadAgain
    } else {
        ReadDecision::Decode(
            if r.timestamp >= 0 {
                Some(r.timestamp)
            } else {
                None
            },
        )
    }
}

/// Law: the end of the stream always stops the reader; otherwise a changed output type is
/// adopted before anything is decoded, and a sample is decoded at its timestamp, or at the
/// current position when the timestamp is negative.
pub proof fn law_read_decisions(r: ReadResult)
    ensures
        r.end_of_stream ==> read_decision_of(r) == ReadDecision::EndOfStream,
        !r.end_of_stream && r.type_changed ==> read_decision_of(r) is Resize,
        !r.end_of_stream && !r.type_changed && r.has_sample && r.timestamp >= 0 ==> read_decision_of(r)
            == ReadDecision::Decode(Some(r.timestamp)),
        !r.end_of_stream && !r.type_changed && r.has_sample && r.timestamp < 0 ==> read_decision_of(r)
            == ReadDecision::Decode(None),
        !r.end_of_stream && !r.type_changed && !r.has_sample ==> read_decision_of(r)
            == ReadDecision::ReadAgain,
{
}

/// What to do after a read.
pub fn read_decision(r: ReadResult) -> (d: ReadDecision)
    ensures
        d == read_decision_of(r),
{
    if r.end_of_stream {
        ReadDecision::EndOfStream
    } else if r.type_changed {
        let size = match r.new_size {
            Some(sz) => if sz.width > 0 && sz.height > 0 {
                Some(sz)
            } else {
                None
            },
            None => None,
        };
        ReadDecision::Resize(size)
    } else if !r.has_sample {
        ReadDecision::ReadAgain
    } else if r.timestamp >= 0 {
        ReadDecision::Decode(Some(r.timestamp))
    } else {
        ReadDecision::Decode(None)
    }
}

/// How reading one frame ended.
#[derive(Debug, Clone, Copy, PartialEq, Eq, Structural)]
pub enum ReadEnd {
    /// Decode the sample of the read at this index.
    Decode(usize),
    /// The read at this index ended the stream.
    EndOfStream(usize),
    /// Every attempt passed without a sample.
    NoFrame,
}

/// The first read among the attempts that stops the reader.
pub open spec fn stops(r: ReadResult) -> bool {
    read_decision_of(r) is EndOfStream || read_decision_of(r) is Decode
}

/// How a sequence of reads for one frame ends: at the first read, within the attempts, that
/// ends the stream or brings a sample; with no frame when there is none.
pub open spec fn read_end_of(reads: Seq<ReadResult>) -> ReadEnd
    decreases reads.len(),
{
    if reads.len() == 0 {
        ReadEnd::NoFrame
    } else {
        let k = reads.len() - 1;
        match read_end_of(reads.take(k)) {
            ReadEnd::NoFrame => if k >= MAX_READ_ATTEMPTS {
                ReadEnd::NoFrame
            } else if read_decision_of(reads[k]) is EndOfStream {
                ReadEnd::EndOfStream(k as usize)
            } else if read_decision_of(reads[k]) is Decode {
                ReadEnd::Decode(k as usize)
            } else {
                ReadEnd::NoFrame
            },
            e => e,
        }
    }
}

/// The frame size in force after the reads before index `upto`: each changed output type with
/// a usable size replaces it.
pub open spec fn size_after(size: FrameSize, reads: Seq<ReadResult>) -> FrameSize
    decreases reads.len(),
{
    if reads.len() == 0 {
        size
    } else {
        let prev = size_after(size, reads.drop_last());
        match read_decision_of(reads.last()) {
            ReadDecision::Resize(Some(s)) => s,
            _ => prev,
        }
    }
}

/// How reading a frame ends over the given reads, and the frame size it leaves.
pub fn read_frame_end(size: FrameSize, reads: &[ReadResult]) -> (r: (ReadEnd, FrameSize))
    ensures
        r.0 == read_end_of(reads@),
        r.1 == match r.0 {
            ReadEnd::Decode(k) => size_after(size, reads@.take(k as int)),
            ReadEnd::EndOfStream(k) => size_after(size, reads@.take(k as int)),
            ReadEnd::NoFrame => size_after(
                size,
                reads@.take(
                    if reads@.len() < MAX_READ_ATTEMPTS {
                        reads@.len() as int
                    } else {
                        MAX_READ_ATTEMPTS as int
                    },
                ),
            ),
        },
{
    let mut current = size;
    let mut i: usize = 0;
    while i < reads.len() && i < MAX_READ_ATTEMPTS as usize
        invariant
            i <= reads@.len(),
            i <= MAX_READ_ATTEMPTS,
            read_end_of(reads@.take(i as int)) == ReadEnd::NoFrame,
            current == size_after(size, reads@.take(i as int)),
        decreases reads@.len() - i,
    {
        assert(reads@.take(i + 1).take(i as int) =~= reads@.take(i as int));
        assert(reads@.take(i + 1).drop_last() =~= reads@.take(i as int));
        match read_decision(reads[i]) {
            ReadDecision::EndOfStream => {
                proof {
                    lemma_read_end_extends(reads@, i as int);
                }
                return (ReadEnd::EndOfStream(i), current);
            },
            ReadDecision::Decode(_) => {
                proof {
                    lemma_read_end_extends(reads@, i as int);
                }
                return (ReadEnd::Decode(i), current);
            },
            ReadDecision::Resize(Some(s)) => {
                current = s;
            },
            _ => {},
        }
        i += 1;
    }
    proof {
        lemma_read_end_capped(reads@, i as int);
    }
    (ReadEnd::NoFrame, current)
}

/// Once the reads up to `i` have not stopped, reads after a stop at `i` do not change the end.
proof fn lemma_read_end_extends(reads: Seq<ReadResult>, i: int)
    requires
        0 <= i < reads.len(),
        i < MAX_READ_ATTEMPTS,
        read_end_of(reads.take(i)) == ReadEnd::NoFrame,
        stops(reads[i]),
    ensures
        read_end_of(reads) == read_end_of(reads.take(i + 1)),
        read_end_of(reads.take(i + 1)) != ReadEnd::NoFrame,
    decreases reads.len(),
{
    assert(reads.take(i + 1).take(i) =~= reads.take(i));
    if reads.len() == i + 1 {
        assert(reads.take(i + 1) =~= reads);
    } else {
        let k = reads.len() - 1;
        assert(reads.take(k).take(i) =~= reads.take(i));
        assert(reads.take(k).take(i + 1) =~= reads.take(i + 1));
        lemma_read_end_extends(reads.take(k), i);
    }
}

/// Reads past the attempts, or past the end of the reads, leave the end as it was.
proof fn lemma_read_end_capped(reads: Seq<ReadResult>, i: int)
    requires
        0 <= i <= reads.len(),
        i == reads.len() || i == MAX_READ_ATTEMPTS,
        read_end_of(reads.take(i)) == ReadEnd::NoFrame,
    ensures
        read_end_of(reads) == ReadEnd::NoFrame,
    decreases reads.len(),
{
    if reads.len() == i {
        assert(reads.take(i) =~= reads);
    } else {
        let k = reads.len() - 1;
        assert(reads.take(k).take(i) =~= reads.take(i));
        lemma_read_end_capped(reads.take(k), i);
    }
}

// ---------------------------------------------------------------------------
// Output format and stepping back.
// ---------------------------------------------------------------------------

/// Pixel layouts the decoder can be asked for.
#[derive(Debug, Clone, Copy, PartialEq, Eq, Structural)]
pub enum OutputFormat {
    Rgb32,
    Nv12,
    Yuy2,
}

/// The layouts requested in turn; a planar 4:2:0 request (I420) is read as NV12.
pub open spec fn output_candidates() -> Seq<OutputFormat> {
    seq![OutputFormat::Rgb32, OutputFormat::Nv12, OutputFormat::Yuy2, OutputFormat::Nv12]
}

/// The first accepted candidate, given which of the candidates the decoder accepts, in order.
pub open spec fn first_accepted(accepted: Seq<bool>) -> Option<OutputFormat>
    decreases accepted.len(),
{
    if accepted.len() == 0 {
        None
    } else {
        match first_accepted(accepted.drop_last()) {
            Some(f) => Some(f),
            None => if accepted.len() <= output_candidates().len() && accepted.last() {
                Some(output_candidates()[accepted.len() - 1])
            } else {
                None
            },
        }
    }
}

/// The output format the decoder settles on; `None` when it accepts none of the candidates.
pub fn choose_output_format(accepted: &[bool]) -> (r: Option<OutputFormat>)
    ensures
        r == first_accepted(accepted@.take(
            if accepted@.len() < 4 {
                accepted@.len() as int
            } else {
                4
            },
        )),
{
    let candidates = [OutputFormat::Rgb32, OutputFormat::Nv12, OutputFormat::Yuy2, OutputFormat::Nv12];
    assert(candidates@ =~= output_candidates());
    let n: usize = if accepted.len() < 4 {
        accepted.len()
    } else {
        4
    };
    let mut i: usize = 0;
    while i < n
        invariant
            i <= n <= 4,
            n <= accepted@.len(),
            n == (if accepted@.len() < 4 {
                accepted@.len() as int
            } else {
                4
            }),
            candidates@ == output_candidates(),
            first_accepted(accepted@.take(i as int)) is None,
        decreases n - i,
    {
        assert(accepted@.take(i + 1).drop_last() =~= accepted@.take(i as int));
        if accepted[i] {
            proof {
                assert(accepted@.take(i + 1).last() == accepted@[i as int]);
                assert(first_accepted(accepted@.take(i + 1)) == Some(candidates@[i as int]));
                assert(accepted@.take(n as int).take(i + 1) =~= accepted@.take(i + 1));
                lemma_first_accepted_extends(accepted@.take(n as int), i as int);
            }
            return Some(candidates[i]);
        }
        i += 1;
    }
    None
}

/// A candidate accepted after none before it settles the choice, whatever follows.
proof fn lemma_first_accepted_extends(accepted: Seq<bool>, i: int)
    requires
        0 <= i < accepted.len(),
        first_accepted(accepted.take(i + 1)) is Some,
    ensures
        first_accepted(accepted) == first_accepted(accepted.take(i + 1)),
    decreases accepted.len(),
{
    if accepted.len() == i + 1 {
        assert(accepted.take(i + 1) =~= accepted);
    } else {
        let k = accepted.len() - 1;
        assert(accepted.take(k).take(i + 1) =~= accepted.take(i + 1));
        lemma_first_accepted_extends(accepted.take(k), i);
        assert(accepted.drop_last() =~= accepted.take(k));
    }
}

/// The position one frame before `position`, not before the start (100 ns units).
pub fn previous_frame_position(position: i64, frame_duration: i64) -> (r: i64)
    requires
        frame_duration >= 0,
    ensures
        r == if position - frame_duration > 0 {
            position - frame_duration
        } else {
            0
        },
{
    if position <= i64::MIN + frame_duration {
        0
    } else {
        let t = position - frame_duration;
        if t > 0 {
            t
        } else {
            0
        }
    }
}

} // verus!
