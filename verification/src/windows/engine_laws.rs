//! What the engine and its streams do, in numbers.

use vstd::prelude::*;
use crate::fanout::FrameLayout;
use crate::text::{decimal, flat};
use crate::text_laws::{
    lemma_four_texts, lemma_texts_follow_each_other, lemma_three_texts, lemma_two_texts,
};
use crate::windows::engine::{
    bufferable, fill, filled_frames, layout_of, level_frames, packet_bytes, stream_trouble,
    streams, zeros, Fill, MixFormatError,
};
use crate::windows::streams::{
    next_capture, next_render, stream_action, wait_trouble, StreamAction, StreamEvent,
    StreamPhase,
};

verus! {

// ---------------------------------------------------------------------------
// Formats and buffers
// ---------------------------------------------------------------------------

/// Where a mix format has its numbers: four bytes per second from byte 8 on, two
/// of frame size from byte 12 on, the least significant first. A frame size of
/// zero is refused, and with another one a rate of zero is.
pub proof fn lemma_where_a_format_has_its_numbers(bytes: Seq<u8>)
    requires
        bytes.len() >= 18,
    ensures
        ({
            let frame = bytes[12] + 256 * bytes[13];
            let rate = bytes[8] + 256 * bytes[9] + 65536 * bytes[10] + 16777216 * bytes[11];
            &&& frame == 0 <==> layout_of(bytes) == Err::<FrameLayout, MixFormatError>(
                MixFormatError::ZeroBlockAlign,
            )
            &&& frame != 0 && rate == 0 <==> layout_of(bytes) == Err::<
                FrameLayout,
                MixFormatError,
            >(MixFormatError::ZeroByteRate)
            &&& frame != 0 && rate != 0 ==> (layout_of(bytes) matches Ok(layout)
                && layout.block_align == frame && layout.avg_bytes_per_sec == rate)
        }),
{
}

/// A ring can be counted in bytes if its ceiling of 120 milliseconds, and a frame
/// more, can.
pub proof fn lemma_what_can_be_buffered(layout: FrameLayout)
    ensures
        bufferable(layout) <==> layout.block_align > 0 && layout.avg_bytes_per_sec * 120
            <= usize::MAX && layout.bytes_in(120) + layout.block_align <= isize::MAX,
{
}

/// Silence is as long as asked for, and every byte of it is zero.
pub proof fn lemma_silence_is_zeros(n: nat, i: int)
    requires
        0 <= i < n,
    ensures
        zeros(n).len() == n,
        zeros(n)[i] == 0,
{
}

/// What a capture packet adds to a ring: silence of its length if it is marked as
/// silent, and else its data as they are; nothing without data or length.
pub proof fn lemma_what_a_packet_adds(flags: u32, len: nat, data: Seq<u8>)
    ensures
        flags & 2 != 0 ==> packet_bytes(flags, len, Some(data)) == Some(zeros(len))
            && packet_bytes(flags, len, None) == Some(zeros(len)),
        flags & 2 == 0 && len > 0 ==> packet_bytes(flags, len, Some(data)) == Some(data),
        flags & 2 == 0 ==> packet_bytes(flags, len, None) is None,
        flags & 2 == 0 && len == 0 ==> packet_bytes(flags, len, Some(data)) is None,
{
}

// ---------------------------------------------------------------------------
// Rendering
// ---------------------------------------------------------------------------

/// A level is the frames of its time, and no more than the device buffer holds.
pub proof fn lemma_a_level_fits_the_buffer(layout: FrameLayout, ms: nat, buffer_frames: nat)
    ensures
        level_frames(layout, ms, buffer_frames) <= layout.frames_in(ms),
        level_frames(layout, ms, buffer_frames) <= buffer_frames,
        level_frames(layout, ms, buffer_frames) == layout.frames_in(ms) || level_frames(
            layout,
            ms,
            buffer_frames,
        ) == buffer_frames,
{
}

/// What is written next, exactly. The device buffer is filled up to 60
/// milliseconds with all that the ring has, as far as there is room; with an empty
/// ring and less than 20 milliseconds left it is filled up with silence.
pub proof fn lemma_how_much_is_written(
    layout: FrameLayout,
    buffered_frames: nat,
    buffer_frames: u32,
    padding: u32,
)
    ensures
        ({
            let target = level_frames(layout, 60, buffer_frames as nat);
            let low = level_frames(layout, 20, buffer_frames as nat);
            let chosen = fill(layout, buffered_frames, buffer_frames, padding);
            &&& padding >= target ==> chosen is Nothing
            &&& padding < target && buffered_frames > 0 ==> (chosen matches Fill::Sound(frames)
                && frames <= buffered_frames && padding + frames <= target && (frames
                == buffered_frames || padding + frames == target))
            &&& padding < target && buffered_frames == 0 && padding < low ==> (chosen matches
                Fill::Silence(frames) && padding + frames == target)
            &&& padding < target && buffered_frames == 0 && padding >= low ==> chosen is Nothing
        }),
{
}

/// A fill is as many frames as it says.
pub proof fn lemma_a_fill_has_its_frames(frames: u32)
    ensures
        filled_frames(Fill::Nothing) == 0,
        filled_frames(Fill::Sound(frames)) == frames,
        filled_frames(Fill::Silence(frames)) == frames,
{
}

// ---------------------------------------------------------------------------
// Streams
// ---------------------------------------------------------------------------

/// The streams of an engine: one for each secondary endpoint, numbered from zero,
/// and the capture of the primary at last.
pub proof fn lemma_which_streams_are_started(
    primary: Seq<char>,
    secondaries: Seq<Seq<char>>,
    n: int,
)
    requires
        0 <= n < secondaries.len(),
    ensures
        ({
            let plan = streams(primary, secondaries);
            &&& plan.len() == secondaries.len() + 1
            &&& plan[n].name == "smx-render-"@ + decimal(n as nat)
            &&& plan[n].id == secondaries[n]
            &&& !plan[n].fatal
            &&& plan.last().name == "smx-capture"@
            &&& plan.last().id == primary
            &&& plan.last().fatal
        }),
{
    lemma_two_texts("smx-render-"@, decimal(n as nat));
}

/// What is said of a stream that failed: that its device is gone, or what failed
/// on which device and why.
pub proof fn lemma_what_is_said_of_a_stream(
    what: Seq<char>,
    id: Seq<char>,
    headline: Seq<char>,
    wait: u32,
)
    ensures
        stream_trouble(what, id, true, headline) == "Audio device disappeared during playback ("@
            + id + ")"@,
        stream_trouble(what, id, false, headline) == what + " failed on "@ + id + ": "@ + headline,
        wait_trouble(what, wait) == "wait on "@ + what + " event failed: WAIT_EVENT("@ + decimal(
            wait as nat,
        ) + ")"@,
{
    lemma_three_texts("Audio device disappeared during playback ("@, id, ")"@);
    lemma_five_texts(what, " failed on "@, id, ": "@, headline);
    lemma_five_texts(
        "wait on "@,
        what,
        " event failed: WAIT_EVENT("@,
        decimal(wait as nat),
        ")"@,
    );
}

proof fn lemma_five_texts(
    a: Seq<char>,
    b: Seq<char>,
    c: Seq<char>,
    d: Seq<char>,
    e: Seq<char>,
)
    ensures
        flat(seq![a, b, c, d, e]) == a + b + c + d + e,
{
    lemma_four_texts(a, b, c, d);
    lemma_texts_follow_each_other(seq![a, b, c, d], e);
    assert(seq![a, b, c, d].push(e) =~= seq![a, b, c, d, e]);
}

/// The loop of the capture. It waits ten milliseconds unless it is to end, and
/// looks for packets whether its event came or not; a wait that failed ends it.
/// Every packet that is there is got, and without one the loop begins anew. Only
/// after it was told to end does it stop its stream.
pub proof fn lemma_the_capture_goes_round(
    phase: StreamPhase<Seq<char>>,
    wait: u32,
    frames: u32,
    why: Seq<char>,
)
    ensures
        next_capture(phase, StreamEvent::Stopping(true)) == StreamPhase::<Seq<char>>::Doing(
            StreamAction::StopStream,
        ),
        next_capture(
            StreamPhase::Doing(StreamAction::StopStream),
            StreamEvent::Done,
        ) is Ended,
        next_capture(phase, StreamEvent::Stopping(false)) == StreamPhase::<Seq<char>>::Doing(
            StreamAction::Wait(10),
        ),
        wait == 0 || wait == 258 ==> next_capture(phase, StreamEvent::Woke(wait))
            == StreamPhase::<Seq<char>>::Doing(StreamAction::AskPacketSize),
        wait != 0 && wait != 258 ==> next_capture(phase, StreamEvent::Woke(wait))
            == StreamPhase::Failed(wait_trouble("capture"@, wait)),
        frames > 0 ==> next_capture(phase, StreamEvent::PacketSize(frames)) == StreamPhase::<
            Seq<char>,
        >::Doing(StreamAction::GetPacket),
        next_capture(phase, StreamEvent::PacketSize(0)) == StreamPhase::<Seq<char>>::Doing(
            StreamAction::AskStop,
        ),
        next_capture(phase, StreamEvent::Failed(why)) == StreamPhase::Failed(why),
{
}

/// The loop of a render stream. It waits a tenth of a second unless it is to end,
/// and looks at the device buffer whether its event came or not; a wait that
/// failed ends it. What is chosen for the frames that are still to be played is
/// written, and then, as when nothing is chosen, the loop begins anew. Only after
/// it was told to end does it stop its stream.
pub proof fn lemma_a_render_stream_goes_round(
    phase: StreamPhase<Seq<char>>,
    wait: u32,
    padding: u32,
    frames: u32,
    chosen: Fill,
    why: Seq<char>,
)
    ensures
        next_render(phase, StreamEvent::Stopping(true)) == StreamPhase::<Seq<char>>::Doing(
            StreamAction::StopStream,
        ),
        next_render(
            StreamPhase::Doing(StreamAction::StopStream),
            StreamEvent::Done,
        ) is Ended,
        next_render(phase, StreamEvent::Stopping(false)) == StreamPhase::<Seq<char>>::Doing(
            StreamAction::Wait(100),
        ),
        wait == 0 || wait == 258 ==> next_render(phase, StreamEvent::Woke(wait)) == StreamPhase::<
            Seq<char>,
        >::Doing(StreamAction::AskPadding),
        wait != 0 && wait != 258 ==> next_render(phase, StreamEvent::Woke(wait))
            == StreamPhase::Failed(wait_trouble("render"@, wait)),
        next_render(phase, StreamEvent::Padding(padding)) == StreamPhase::<Seq<char>>::Doing(
            StreamAction::Plan(padding),
        ),
        next_render(phase, StreamEvent::Planned(Fill::Nothing)) == StreamPhase::<Seq<char>>::Doing(
            StreamAction::AskStop,
        ),
        next_render(StreamPhase::Getting(chosen), StreamEvent::Buffer(false))
            == StreamPhase::Failed("render GetBuffer returned null"@),
        next_render(
            StreamPhase::Doing(StreamAction::ReleaseBuffer(frames)),
            StreamEvent::Done,
        ) == StreamPhase::<Seq<char>>::Doing(StreamAction::AskStop),
        next_render(phase, StreamEvent::Failed(why)) == StreamPhase::Failed(why),
        frames > 0 ==> stream_action(StreamPhase::Getting(Fill::Sound(frames)))
            == StreamAction::GetBuffer(frames),
        stream_action(StreamPhase::Getting(Fill::Silence(frames))) == StreamAction::GetBuffer(
            frames,
        ),
{
}

} // verus!
