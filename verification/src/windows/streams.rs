//! The loops of the capture stream and of the render streams, one call into the
//! audio session interface at a time.

use vstd::prelude::*;
use crate::text::{append_all, decimal, decimal_string, flat};
use crate::windows::engine::{filled_frames, Fill};

verus! {

/// What a wait says when its event came.
pub const WAIT_SIGNALED: u32 = 0;

/// What a wait says when its time was over.
pub const WAIT_TIMED_OUT: u32 = 258;

/// Milliseconds that the capture waits for an event. It looks for packets after
/// that time too, since the event may never come while nothing plays.
pub const CAPTURE_WAIT_MS: u32 = 10;

/// Milliseconds that a render stream waits for an event.
pub const RENDER_WAIT_MS: u32 = 100;

/// A call of a stream.
#[derive(Debug, Clone, Copy, PartialEq, Eq, Structural)]
pub enum StreamAction {
    /// Are the streams to end?
    AskStop,
    /// Wait for the event of the stream, at most the milliseconds given.
    Wait(u32),
    /// How many frames has the next capture packet?
    AskPacketSize,
    /// Get the next capture packet.
    GetPacket,
    /// Add the packet to every ring.
    Feed,
    /// Give a capture packet of so many frames back.
    ReleasePacket(u32),
    /// How many frames of the device buffer are still to be played?
    AskPadding,
    /// Choose what to write, with so many frames still to be played.
    Plan(u32),
    /// Get room for so many frames in the device buffer.
    GetBuffer(u32),
    /// Write into that room.
    Write(Fill),
    /// Give so many frames to be played.
    ReleaseBuffer(u32),
    /// Stop the stream.
    StopStream,
}

/// What a call of a stream came to.
#[derive(Debug)]
pub enum StreamEvent<T> {
    /// Whether the streams are to end.
    Stopping(bool),
    /// What the wait said.
    Woke(u32),
    /// Frames of the next capture packet.
    PacketSize(u32),
    /// A capture packet of so many frames.
    Packet(u32),
    /// Frames still to be played.
    Padding(u32),
    /// What is to be written.
    Planned(Fill),
    /// Whether there is room in the device buffer.
    Buffer(bool),
    /// It is done.
    Done,
    /// It failed.
    Failed(T),
}

impl DeepView for StreamEvent<String> {
    type V = StreamEvent<Seq<char>>;

    open spec fn deep_view(&self) -> StreamEvent<Seq<char>> {
        match *self {
            StreamEvent::Stopping(stop) => StreamEvent::Stopping(stop),
            StreamEvent::Woke(wait) => StreamEvent::Woke(wait),
            StreamEvent::PacketSize(frames) => StreamEvent::PacketSize(frames),
            StreamEvent::Packet(frames) => StreamEvent::Packet(frames),
            StreamEvent::Padding(frames) => StreamEvent::Padding(frames),
            StreamEvent::Planned(fill) => StreamEvent::Planned(fill),
            StreamEvent::Buffer(room) => StreamEvent::Buffer(room),
            StreamEvent::Done => StreamEvent::Done,
            StreamEvent::Failed(why) => StreamEvent::Failed(why@),
        }
    }
}

/// `event` is of the kind that `action` has. Only the end of a stream cannot
/// fail, nor can what the engine does itself.
pub open spec fn suits(action: StreamAction, event: StreamEvent<Seq<char>>) -> bool {
    match action {
        StreamAction::AskStop => event is Stopping,
        StreamAction::Wait(_) => event is Woke,
        StreamAction::AskPacketSize => event is PacketSize || event is Failed,
        StreamAction::GetPacket => event is Packet || event is Failed,
        StreamAction::Feed => event is Done,
        StreamAction::ReleasePacket(_) => event is Done || event is Failed,
        StreamAction::AskPadding => event is Padding || event is Failed,
        StreamAction::Plan(_) => event is Planned,
        StreamAction::GetBuffer(_) => event is Buffer || event is Failed,
        StreamAction::Write(_) => event is Done,
        StreamAction::ReleaseBuffer(_) => event is Done || event is Failed,
        StreamAction::StopStream => event is Done,
    }
}

/// Where a stream is in its loop.
#[derive(Debug)]
pub enum StreamPhase<T> {
    /// It does `action` next.
    Doing(StreamAction),
    /// It writes into room for this, then gives it to be played.
    Getting(Fill),
    /// A packet of so many frames is added to the rings.
    Feeding(u32),
    /// It has ended.
    Ended,
    /// It failed.
    Failed(T),
}

impl DeepView for StreamPhase<String> {
    type V = StreamPhase<Seq<char>>;

    open spec fn deep_view(&self) -> StreamPhase<Seq<char>> {
        match *self {
            StreamPhase::Doing(action) => StreamPhase::Doing(action),
            StreamPhase::Getting(fill) => StreamPhase::Getting(fill),
            StreamPhase::Feeding(frames) => StreamPhase::Feeding(frames),
            StreamPhase::Ended => StreamPhase::Ended,
            StreamPhase::Failed(why) => StreamPhase::Failed(why@),
        }
    }
}

/// The stream goes on.
pub open spec fn goes_on(phase: StreamPhase<Seq<char>>) -> bool {
    !(phase is Ended) && !(phase is Failed)
}

/// The next call of a stream.
pub open spec fn stream_action(phase: StreamPhase<Seq<char>>) -> StreamAction
    recommends
        goes_on(phase),
{
    match phase {
        StreamPhase::Doing(action) => action,
        StreamPhase::Getting(fill) => StreamAction::GetBuffer(filled_frames(fill) as u32),
        StreamPhase::Feeding(_) => StreamAction::Feed,
        _ => arbitrary(),
    }
}

/// What is said of a wait that failed.
pub open spec fn wait_trouble(what: Seq<char>, wait: u32) -> Seq<char> {
    flat(
        seq!["wait on "@, what, " event failed: WAIT_EVENT("@, decimal(wait as nat), ")"@],
    )
}

/// The wait ended in order: its event came, or its time was over.
pub open spec fn awake(wait: u32) -> bool {
    wait == WAIT_SIGNALED || wait == WAIT_TIMED_OUT
}

/// The loop of the capture: wait, then take every packet that is there, feed it
/// to the rings and give it back.
pub open spec fn next_capture(
    phase: StreamPhase<Seq<char>>,
    event: StreamEvent<Seq<char>>,
) -> StreamPhase<Seq<char>> {
    match event {
        StreamEvent::Failed(why) => StreamPhase::Failed(why),
        StreamEvent::Stopping(stop) => StreamPhase::Doing(
            if stop {
                StreamAction::StopStream
            } else {
                StreamAction::Wait(CAPTURE_WAIT_MS)
            },
        ),
        StreamEvent::Woke(wait) => if awake(wait) {
            StreamPhase::Doing(StreamAction::AskPacketSize)
        } else {
            StreamPhase::Failed(wait_trouble("capture"@, wait))
        },
        StreamEvent::PacketSize(frames) => StreamPhase::Doing(
            if frames == 0 {
                StreamAction::AskStop
            } else {
                StreamAction::GetPacket
            },
        ),
        StreamEvent::Packet(frames) => StreamPhase::Feeding(frames),
        StreamEvent::Done => match phase {
            StreamPhase::Feeding(frames) => StreamPhase::Doing(StreamAction::ReleasePacket(frames)),
            StreamPhase::Doing(StreamAction::StopStream) => StreamPhase::Ended,
            _ => StreamPhase::Doing(StreamAction::AskPacketSize),
        },
        _ => arbitrary(),
    }
}

/// The loop of a render stream: wait, see how much is still to be played, and
/// write what is chosen.
pub open spec fn next_render(
    phase: StreamPhase<Seq<char>>,
    event: StreamEvent<Seq<char>>,
) -> StreamPhase<Seq<char>> {
    match event {
        StreamEvent::Failed(why) => StreamPhase::Failed(why),
        StreamEvent::Stopping(stop) => StreamPhase::Doing(
            if stop {
                StreamAction::StopStream
            } else {
                StreamAction::Wait(RENDER_WAIT_MS)
            },
        ),
        StreamEvent::Woke(wait) => if awake(wait) {
            StreamPhase::Doing(StreamAction::AskPadding)
        } else {
            StreamPhase::Failed(wait_trouble("render"@, wait))
        },
        StreamEvent::Padding(padding) => StreamPhase::Doing(StreamAction::Plan(padding)),
        StreamEvent::Planned(fill) => if fill is Nothing {
            StreamPhase::Doing(StreamAction::AskStop)
        } else {
            StreamPhase::Getting(fill)
        },
        StreamEvent::Buffer(room) => if room {
            StreamPhase::Doing(StreamAction::Write(phase->Getting_0))
        } else {
            StreamPhase::Failed("render GetBuffer returned null"@)
        },
        StreamEvent::Done => match phase {
            StreamPhase::Doing(StreamAction::Write(fill)) => StreamPhase::Doing(
                StreamAction::ReleaseBuffer(filled_frames(fill) as u32),
            ),
            StreamPhase::Doing(StreamAction::StopStream) => StreamPhase::Ended,
            _ => StreamPhase::Doing(StreamAction::AskStop),
        },
        _ => arbitrary(),
    }
}

/// The capture is in its own loop.
pub open spec fn captures(phase: StreamPhase<Seq<char>>) -> bool {
    match phase {
        StreamPhase::Doing(action) => match action {
            StreamAction::AskStop | StreamAction::Wait(_) | StreamAction::AskPacketSize
            | StreamAction::GetPacket | StreamAction::ReleasePacket(_)
            | StreamAction::StopStream => true,
            _ => false,
        },
        StreamPhase::Getting(_) => false,
        _ => true,
    }
}

/// A render stream is in its own loop.
pub open spec fn renders(phase: StreamPhase<Seq<char>>) -> bool {
    match phase {
        StreamPhase::Doing(action) => match action {
            StreamAction::AskStop | StreamAction::Wait(_) | StreamAction::AskPadding
            | StreamAction::Plan(_) | StreamAction::Write(_) | StreamAction::ReleaseBuffer(_)
            | StreamAction::StopStream => true,
            _ => false,
        },
        StreamPhase::Feeding(_) => false,
        _ => true,
    }
}

fn frames_of(fill: Fill) -> (r: u32)
    ensures
        r == filled_frames(fill),
{
    match fill {
        Fill::Nothing => 0,
        Fill::Sound(frames) => frames,
        Fill::Silence(frames) => frames,
    }
}

fn wait_failure(what: &str, wait: u32) -> (r: String)
    ensures
        r@ == wait_trouble(what@, wait),
{
    let number = decimal_string(wait as u64);
    let parts = ["wait on ", what, " event failed: WAIT_EVENT(", number.as_str(), ")"];
    assert(parts.deep_view() =~= seq![
        "wait on "@,
        what@,
        " event failed: WAIT_EVENT("@,
        number@,
        ")"@,
    ]);
    append_all(&parts)
}

impl StreamPhase<String> {
    /// Where a stream begins, once its device is set up.
    pub fn begin() -> (r: StreamPhase<String>)
        ensures
            r.deep_view() == StreamPhase::<Seq<char>>::Doing(StreamAction::AskStop),
            captures(r.deep_view()),
            renders(r.deep_view()),
    {
        StreamPhase::Doing(StreamAction::AskStop)
    }

    /// The next call; none when the stream has ended or failed.
    pub fn action(&self) -> (r: Option<StreamAction>)
        ensures
            goes_on(self.deep_view()) <==> r is Some,
            r matches Some(action) ==> action == stream_action(self.deep_view()),
    {
        match self {
            StreamPhase::Doing(action) => Some(*action),
            StreamPhase::Getting(fill) => Some(StreamAction::GetBuffer(frames_of(*fill))),
            StreamPhase::Feeding(_) => Some(StreamAction::Feed),
            StreamPhase::Ended => None,
            StreamPhase::Failed(_) => None,
        }
    }

    /// The capture goes on.
    pub fn run_capture(self, event: StreamEvent<String>) -> (r: StreamPhase<String>)
        requires
            captures(self.deep_view()),
            goes_on(self.deep_view()),
            suits(stream_action(self.deep_view()), event.deep_view()),
        ensures
            r.deep_view() == next_capture(self.deep_view(), event.deep_view()),
            captures(r.deep_view()),
    {
        match event {
            StreamEvent::Failed(why) => StreamPhase::Failed(why),
            StreamEvent::Stopping(stop) => if stop {
                StreamPhase::Doing(StreamAction::StopStream)
            } else {
                StreamPhase::Doing(StreamAction::Wait(CAPTURE_WAIT_MS))
            },
            StreamEvent::Woke(wait) => if wait == WAIT_SIGNALED || wait == WAIT_TIMED_OUT {
                StreamPhase::Doing(StreamAction::AskPacketSize)
            } else {
                StreamPhase::Failed(wait_failure("capture", wait))
            },
            StreamEvent::PacketSize(frames) => if frames == 0 {
                StreamPhase::Doing(StreamAction::AskStop)
            } else {
                StreamPhase::Doing(StreamAction::GetPacket)
            },
            StreamEvent::Packet(frames) => StreamPhase::Feeding(frames),
            _ => match self {
                StreamPhase::Feeding(frames) => StreamPhase::Doing(
                    StreamAction::ReleasePacket(frames),
                ),
                StreamPhase::Doing(StreamAction::StopStream) => StreamPhase::Ended,
                _ => StreamPhase::Doing(StreamAction::AskPacketSize),
            },
        }
    }

    /// The render stream goes on.
    pub fn run_render(self, event: StreamEvent<String>) -> (r: StreamPhase<String>)
        requires
            renders(self.deep_view()),
            goes_on(self.deep_view()),
            suits(stream_action(self.deep_view()), event.deep_view()),
        ensures
            r.deep_view() == next_render(self.deep_view(), event.deep_view()),
            renders(r.deep_view()),
    {
        match event {
            StreamEvent::Failed(why) => StreamPhase::Failed(why),
            StreamEvent::Stopping(stop) => if stop {
                StreamPhase::Doing(StreamAction::StopStream)
            } else {
                StreamPhase::Doing(StreamAction::Wait(RENDER_WAIT_MS))
            },
            StreamEvent::Woke(wait) => if wait == WAIT_SIGNALED || wait == WAIT_TIMED_OUT {
                StreamPhase::Doing(StreamAction::AskPadding)
            } else {
                StreamPhase::Failed(wait_failure("render", wait))
            },
            StreamEvent::Padding(padding) => StreamPhase::Doing(StreamAction::Plan(padding)),
            StreamEvent::Planned(fill) => match fill {
                Fill::Nothing => StreamPhase::Doing(StreamAction::AskStop),
                _ => StreamPhase::Getting(fill),
            },
            StreamEvent::Buffer(room) => match self {
                StreamPhase::Getting(fill) => if room {
                    StreamPhase::Doing(StreamAction::Write(fill))
                } else {
                    StreamPhase::Failed("render GetBuffer returned null".to_owned())
                },
                other => other,
            },
            _ => match self {
                StreamPhase::Doing(StreamAction::Write(fill)) => StreamPhase::Doing(
                    StreamAction::ReleaseBuffer(frames_of(fill)),
                ),
                StreamPhase::Doing(StreamAction::StopStream) => StreamPhase::Ended,
                _ => StreamPhase::Doing(StreamAction::AskStop),
            },
        }
    }
}

/// A capture packet that was got is fed to the rings and given back before
/// anything else happens, with the frames that it had.
pub proof fn lemma_packets_are_fed_and_returned(frames: u32)
    ensures
        ({
            let got = next_capture(
                StreamPhase::Doing(StreamAction::GetPacket),
                StreamEvent::Packet(frames),
            );
            let fed = next_capture(got, StreamEvent::Done);
            let back = next_capture(fed, StreamEvent::Done);
            &&& stream_action(got) == StreamAction::Feed
            &&& stream_action(fed) == StreamAction::ReleasePacket(frames)
            &&& stream_action(back) == StreamAction::AskPacketSize
        }),
{
}

/// What a render stream chose to write is written in room of just its size, and
/// given to be played in the same size.
pub proof fn lemma_fills_are_written_and_played(padding: u32, fill: Fill)
    requires
        !(fill is Nothing),
    ensures
        ({
            let chosen = next_render(
                StreamPhase::Doing(StreamAction::Plan(padding)),
                StreamEvent::Planned(fill),
            );
            let room = next_render(chosen, StreamEvent::Buffer(true));
            let written = next_render(room, StreamEvent::Done);
            &&& stream_action(chosen) == StreamAction::GetBuffer(filled_frames(fill) as u32)
            &&& stream_action(room) == StreamAction::Write(fill)
            &&& stream_action(written) == StreamAction::ReleaseBuffer(filled_frames(fill) as u32)
        }),
{
}

} // verus!
