//! The fan-out engine: one stream captures what the primary endpoint plays, and
//! one stream per secondary endpoint plays it again.
//!
//! All buffers carry raw bytes in the format of the capture, frames are never
//! split, and the operating system converts to the format of each device.

use vstd::prelude::*;
use crate::device::{BackendEvent, EventView};
use crate::fanout::{lemma_whole, whole, FrameLayout, Ring, RingView};
use crate::text::{append_all, decimal, decimal_string, flat};

verus! {

/// Milliseconds of sound that a ring settles at.
pub const RING_TARGET_MS: usize = 60;

/// Milliseconds of sound above which a ring drops its oldest frames.
pub const RING_MAX_MS: usize = 120;

/// Milliseconds of sound that a render stream keeps in its device buffer.
pub const FILL_TARGET_MS: usize = 60;

/// Milliseconds of sound below which an idle render stream is topped up with
/// silence.
pub const FILL_LOW_WATER_MS: usize = 20;

// ---------------------------------------------------------------------------
// Mix format
// ---------------------------------------------------------------------------

/// Bytes of the fixed part of a mix format.
pub const HEADER_BYTES: usize = 18;

/// The two bytes at `at`, least significant first.
pub open spec fn le16(bytes: Seq<u8>, at: int) -> nat {
    bytes[at] as nat + 256 * bytes[at + 1] as nat
}

/// The four bytes at `at`, least significant first.
pub open spec fn le32(bytes: Seq<u8>, at: int) -> nat {
    le16(bytes, at) + 65536 * le16(bytes, at + 2)
}

fn read16(bytes: &[u8], at: usize) -> (n: u32)
    requires
        at + 2 <= bytes@.len(),
    ensures
        n == le16(bytes@, at as int),
        n < 65536,
{
    bytes[at] as u32 + 256 * (bytes[at + 1] as u32)
}

/// Bytes of a whole mix format, the part that follows the header included.
pub fn mix_format_len(header: &[u8]) -> (len: usize)
    requires
        header@.len() >= HEADER_BYTES,
    ensures
        len == HEADER_BYTES + le16(header@, 16),
        len == 18 + header@[16] + 256 * header@[17],
{
    HEADER_BYTES + read16(header, 16) as usize
}

/// What is wrong with a mix format.
#[derive(Debug, Clone, Copy, PartialEq, Eq, Structural)]
pub enum MixFormatError {
    /// Its frames have no bytes.
    ZeroBlockAlign,
    /// Its second has no bytes.
    ZeroByteRate,
}

impl MixFormatError {
    /// What is said of it.
    pub fn message(&self) -> (r: &'static str)
        ensures
            r@ == (match *self {
                MixFormatError::ZeroBlockAlign => "mix format has zero block align"@,
                MixFormatError::ZeroByteRate => "mix format has zero byte rate"@,
            }),
    {
        match self {
            MixFormatError::ZeroBlockAlign => "mix format has zero block align",
            MixFormatError::ZeroByteRate => "mix format has zero byte rate",
        }
    }
}

/// The mix format of the primary endpoint.
#[derive(Debug)]
pub struct MixFormat {
    /// The format as the system gave it.
    pub bytes: Vec<u8>,
    pub layout: FrameLayout,
}

/// What the bytes of a mix format say of its frames: bytes per second at
/// offset 8, bytes per frame at offset 12.
pub open spec fn layout_of(bytes: Seq<u8>) -> Result<FrameLayout, MixFormatError> {
    if le16(bytes, 12) == 0 {
        Err(MixFormatError::ZeroBlockAlign)
    } else if le32(bytes, 8) == 0 {
        Err(MixFormatError::ZeroByteRate)
    } else {
        Ok(
            FrameLayout {
                block_align: le16(bytes, 12) as usize,
                avg_bytes_per_sec: le32(bytes, 8) as usize,
            },
        )
    }
}

impl MixFormat {
    /// The format that some bytes describe.
    pub fn from_bytes(bytes: Vec<u8>) -> (r: Result<MixFormat, MixFormatError>)
        requires
            bytes.len() >= HEADER_BYTES,
        ensures
            match r {
                Ok(format) => format.bytes@ == bytes@ && layout_of(bytes@) == Ok::<
                    FrameLayout,
                    MixFormatError,
                >(format.layout),
                Err(e) => layout_of(bytes@) == Err::<FrameLayout, MixFormatError>(e),
            },
            r matches Ok(format) ==> format.layout.block_align > 0
                && format.layout.avg_bytes_per_sec > 0,
    {
        let block_align: u32 = read16(bytes.as_slice(), 12);
        let low: u32 = read16(bytes.as_slice(), 8);
        let high: u32 = read16(bytes.as_slice(), 10);
        let rate: u32 = low + 65536 * high;
        if block_align == 0 {
            return Err(MixFormatError::ZeroBlockAlign);
        }
        if rate == 0 {
            return Err(MixFormatError::ZeroByteRate);
        }
        let layout = FrameLayout {
            block_align: block_align as usize,
            avg_bytes_per_sec: rate as usize,
        };
        Ok(MixFormat { bytes, layout })
    }
}

/// A ring for this format can be counted in bytes on this machine.
pub open spec fn bufferable(layout: FrameLayout) -> bool {
    &&& layout.can_count(RING_MAX_MS as nat)
    &&& layout.bytes_in(RING_MAX_MS as nat) + layout.block_align <= isize::MAX
}

/// Whether a ring for this format can be counted in bytes on this machine.
pub fn is_bufferable(layout: &FrameLayout) -> (r: bool)
    ensures
        r == bufferable(*layout),
{
    if layout.block_align == 0 {
        return false;
    }
    if layout.avg_bytes_per_sec > usize::MAX / RING_MAX_MS {
        return false;
    }
    let bytes = layout.bytes_for_ms(RING_MAX_MS);
    let most = isize::MAX as usize;
    bytes <= most && layout.block_align <= most - bytes
}

/// The ring between the capture and one secondary endpoint.
pub fn new_ring(layout: &FrameLayout) -> (ring: Ring)
    requires
        bufferable(*layout),
    ensures
        ring.wf(),
        ring@ == (RingView {
            queue: Seq::empty(),
            target: layout.bytes_in(RING_TARGET_MS as nat),
            max: layout.bytes_in(RING_MAX_MS as nat),
            frame: layout.block_align as nat,
        }),
        ring@.target == layout.bytes_in(60),
        ring@.max == layout.bytes_in(120),
{
    Ring::new(layout, RING_TARGET_MS, RING_MAX_MS)
}

// ---------------------------------------------------------------------------
// Engine
// ---------------------------------------------------------------------------

/// What the streams of an engine share.
#[derive(Debug)]
pub struct Engine {
    primary: String,
    secondaries: Vec<String>,
    /// All streams are to end.
    stop: bool,
    /// Some stream died.
    failed: bool,
}

/// What an [`Engine`] says, in terms of text.
pub struct EngineView {
    pub primary: Seq<char>,
    pub secondaries: Seq<Seq<char>>,
    pub stop: bool,
    pub failed: bool,
}

impl DeepView for Engine {
    type V = EngineView;

    closed spec fn deep_view(&self) -> EngineView {
        EngineView {
            primary: self.primary@,
            secondaries: self.secondaries.deep_view(),
            stop: self.stop,
            failed: self.failed,
        }
    }
}

/// A stream of an engine.
#[derive(Debug)]
pub struct Stream<T> {
    /// The name of its thread.
    pub name: T,
    /// The id of its endpoint.
    pub id: T,
    /// Its failure stops the whole engine.
    pub fatal: bool,
}

impl DeepView for Stream<String> {
    type V = Stream<Seq<char>>;

    open spec fn deep_view(&self) -> Stream<Seq<char>> {
        Stream { name: self.name@, id: self.id@, fatal: self.fatal }
    }
}

/// The stream that plays on the secondary endpoint at position `n`. Its failure
/// takes down nothing else.
pub open spec fn render_stream(secondaries: Seq<Seq<char>>, n: int) -> Stream<Seq<char>> {
    Stream {
        name: flat(seq!["smx-render-"@, decimal(n as nat)]),
        id: secondaries[n],
        fatal: false,
    }
}

/// The stream that captures the primary endpoint. Without it all others are
/// pointless.
pub open spec fn capture_stream(primary: Seq<char>) -> Stream<Seq<char>> {
    Stream { name: "smx-capture"@, id: primary, fatal: true }
}

/// The streams of an engine in the order in which they start: the one that
/// feeds comes after those that are fed.
pub open spec fn streams(primary: Seq<char>, secondaries: Seq<Seq<char>>) -> Seq<
    Stream<Seq<char>>,
> {
    Seq::new(secondaries.len(), |n: int| render_stream(secondaries, n)).push(
        capture_stream(primary),
    )
}

impl EngineView {
    /// No stream died, and none is to end.
    pub open spec fn running(self) -> bool {
        !self.stop && !self.failed
    }
}

impl Engine {
    /// An engine, and the streams to start for it, in order.
    pub fn start(primary: String, secondaries: Vec<String>) -> (r: (Engine, Vec<Stream<String>>))
        ensures
            r.0.deep_view() == (EngineView {
                primary: primary@,
                secondaries: secondaries.deep_view(),
                stop: false,
                failed: false,
            }),
            r.1.deep_view() == streams(primary@, secondaries.deep_view()),
    {
        let ghost ids = secondaries.deep_view();
        let mut plan: Vec<Stream<String>> = Vec::new();
        let mut n: usize = 0;
        while n < secondaries.len()
            invariant
                n <= secondaries.len(),
                ids == secondaries.deep_view(),
                plan.len() == n,
                forall|j: int|
                    0 <= j < n ==> (#[trigger] plan[j]).deep_view() == render_stream(ids, j),
            decreases secondaries.len() - n,
        {
            let number = decimal_string(n as u64);
            let parts = ["smx-render-", number.as_str()];
            assert(parts.deep_view() =~= seq!["smx-render-"@, number@]);
            let stream = Stream {
                name: append_all(&parts),
                id: secondaries[n].clone(),
                fatal: false,
            };
            assert(ids[n as int] == secondaries[n as int]@);
            assert(stream.deep_view() == render_stream(ids, n as int));
            plan.push(stream);
            n += 1;
        }
        plan.push(Stream { name: "smx-capture".to_owned(), id: primary.clone(), fatal: true });
        assert(plan.deep_view() =~= streams(primary@, ids));
        (Engine { primary, secondaries, stop: false, failed: false }, plan)
    }

    /// The id of the endpoint that is captured.
    pub fn primary(&self) -> (r: &str)
        ensures
            r@ == self.deep_view().primary,
    {
        self.primary.as_str()
    }

    /// The ids of the endpoints that are fed.
    pub fn secondaries(&self) -> (r: &[String])
        ensures
            r.deep_view() == self.deep_view().secondaries,
    {
        let r = self.secondaries.as_slice();
        assert(r.deep_view() =~= self.secondaries.deep_view());
        r
    }

    /// Whether no stream died, and none is to end.
    pub fn is_running(&self) -> (r: bool)
        ensures
            r == self.deep_view().running(),
    {
        !self.stop && !self.failed
    }

    /// Whether the streams are to end.
    pub fn is_stopping(&self) -> (r: bool)
        ensures
            r == self.deep_view().stop,
    {
        self.stop
    }

    /// Lets all streams end.
    pub fn request_stop(&mut self)
        ensures
            final(self).deep_view() == (EngineView { stop: true, ..old(self).deep_view() }),
    {
        self.stop = true;
    }
}

/// What is said of a stream that failed.
pub open spec fn stream_trouble(
    what: Seq<char>,
    id: Seq<char>,
    invalidated: bool,
    headline: Seq<char>,
) -> Seq<char> {
    if invalidated {
        flat(seq!["Audio device disappeared during playback ("@, id, ")"@])
    } else {
        flat(seq![what, " failed on "@, id, ": "@, headline])
    }
}

impl Engine {
    /// A stream failed. A failing render stream takes down only itself, a
    /// failing capture stops the whole engine; either way the engine counts as
    /// failed and two events tell of it, the second of which has the devices
    /// listed again. Failures of an engine that is stopping anyway tell nothing.
    pub fn fail_stream(
        &mut self,
        fatal: bool,
        what: &str,
        id: &str,
        invalidated: bool,
        headline: &str,
    ) -> (events: Vec<BackendEvent>)
        ensures
            final(self).deep_view() == (EngineView {
                stop: old(self).deep_view().stop || fatal,
                failed: old(self).deep_view().failed || !old(self).deep_view().stop,
                ..old(self).deep_view()
            }),
            events.deep_view() == if old(self).deep_view().stop {
                Seq::empty()
            } else {
                seq![
                    EventView::Error(stream_trouble(what@, id@, invalidated, headline@)),
                    EventView::DevicesChanged,
                ]
            },
    {
        let mut events: Vec<BackendEvent> = Vec::new();
        let shutting_down = self.stop;
        if fatal {
            self.stop = true;
        }
        if shutting_down {
            assert(events.deep_view() =~= Seq::empty());
            return events;
        }
        self.failed = true;
        let message = if invalidated {
            let parts = ["Audio device disappeared during playback (", id, ")"];
            assert(parts.deep_view() =~= seq![
                "Audio device disappeared during playback ("@,
                id@,
                ")"@,
            ]);
            append_all(&parts)
        } else {
            let parts = [what, " failed on ", id, ": ", headline];
            assert(parts.deep_view() =~= seq![what@, " failed on "@, id@, ": "@, headline@]);
            append_all(&parts)
        };
        let ghost told = message@;
        events.push(BackendEvent::Error(message));
        events.push(BackendEvent::DevicesChanged);
        assert(events.deep_view() =~= seq![EventView::Error(told), EventView::DevicesChanged]);
        events
    }
}

// ---------------------------------------------------------------------------
// Capture
// ---------------------------------------------------------------------------

/// The flag of a capture packet that is silent.
pub const SILENT_FLAG: u32 = 2;

/// `n` bytes of silence.
pub open spec fn zeros(n: nat) -> Seq<u8> {
    Seq::new(n, |i: int| 0u8)
}

/// The bytes that a capture packet adds to each ring: silence is data too, so
/// that the secondary endpoints stay in step. A packet without data, or of no
/// length, adds nothing.
pub open spec fn packet_bytes(flags: u32, len: nat, data: Option<Seq<u8>>) -> Option<Seq<u8>> {
    if flags & SILENT_FLAG != 0 {
        Some(zeros(len))
    } else if data is Some && len > 0 {
        data
    } else {
        None
    }
}

/// Adds a capture packet of `len` bytes to a ring.
pub fn feed(ring: &mut Ring, flags: u32, len: usize, data: Option<&[u8]>)
    requires
        old(ring).wf(),
        old(ring)@.accepts(len as nat),
        data matches Some(bytes) ==> bytes@.len() == len,
    ensures
        final(ring).wf(),
        final(ring)@ == (match packet_bytes(
            flags,
            len as nat,
            match data {
                Some(bytes) => Some(bytes@),
                None => None,
            },
        ) {
            Some(bytes) => old(ring)@.pushed(bytes),
            None => old(ring)@,
        }),
{
    if flags & SILENT_FLAG != 0 {
        let mut silence: Vec<u8> = Vec::new();
        while silence.len() < len
            invariant
                silence.len() <= len,
                forall|i: int| 0 <= i < silence.len() ==> silence[i] == 0,
            decreases len - silence.len(),
        {
            silence.push(0);
        }
        assert(silence@ =~= zeros(len as nat));
        ring.push(silence.as_slice());
    } else if let Some(bytes) = data {
        if len > 0 {
            ring.push(bytes);
        }
    }
}

// ---------------------------------------------------------------------------
// Render
// ---------------------------------------------------------------------------

/// Frames in some milliseconds, as far as the device buffer holds them.
pub open spec fn level_frames(layout: FrameLayout, ms: nat, buffer_frames: nat) -> nat {
    if layout.frames_in(ms) <= buffer_frames {
        layout.frames_in(ms)
    } else {
        buffer_frames
    }
}

/// What a render stream writes next.
#[derive(Debug, Clone, Copy, PartialEq, Eq, Structural)]
pub enum Fill {
    /// Nothing.
    Nothing,
    /// That many frames from the ring.
    Sound(u32),
    /// That many frames of silence.
    Silence(u32),
}

/// The device buffer is kept filled up to the target level, and no further,
/// with what the ring can supply. Only when it sags below the low level with an
/// empty ring is it filled up with silence, all at once. The buffer itself is
/// the cushion: a capture packet that comes late lowers it and splices no gap
/// into the sound.
pub open spec fn fill(
    layout: FrameLayout,
    buffered_frames: nat,
    buffer_frames: u32,
    padding: u32,
) -> Fill {
    let target = level_frames(layout, FILL_TARGET_MS as nat, buffer_frames as nat);
    let low = level_frames(layout, FILL_LOW_WATER_MS as nat, buffer_frames as nat);
    if padding >= target {
        Fill::Nothing
    } else if buffered_frames > 0 {
        Fill::Sound(
            if buffered_frames <= target - padding {
                buffered_frames as u32
            } else {
                (target - padding) as u32
            },
        )
    } else if padding < low {
        Fill::Silence((target - padding) as u32)
    } else {
        Fill::Nothing
    }
}

fn level(layout: &FrameLayout, ms: usize, buffer_frames: u32) -> (r: u32)
    requires
        layout.can_count(ms as nat),
    ensures
        r == level_frames(*layout, ms as nat, buffer_frames as nat),
{
    let bytes = layout.bytes_for_ms(ms);
    let frames = bytes / layout.block_align;
    proof {
        vstd::arithmetic::div_mod::lemma_div_multiples_vanish(
            layout.frames_in(ms as nat) as int,
            layout.block_align as int,
        );
        vstd::arithmetic::mul::lemma_mul_is_commutative(
            layout.frames_in(ms as nat) as int,
            layout.block_align as int,
        );
    }
    if frames <= buffer_frames as usize {
        frames as u32
    } else {
        buffer_frames
    }
}

/// Frames of silence that a render stream starts with.
pub fn prefill(layout: &FrameLayout, buffer_frames: u32) -> (frames: u32)
    requires
        layout.can_count(FILL_TARGET_MS as nat),
    ensures
        frames == level_frames(*layout, FILL_TARGET_MS as nat, buffer_frames as nat),
        frames == level_frames(*layout, 60, buffer_frames as nat),
{
    level(layout, FILL_TARGET_MS, buffer_frames)
}

/// What a render stream writes next, given how many frames its buffer holds in
/// all and how many of them are still to be played.
pub fn plan_fill(layout: &FrameLayout, ring: &Ring, buffer_frames: u32, padding: u32) -> (r: Fill)
    requires
        layout.can_count(FILL_TARGET_MS as nat),
        ring.wf(),
        ring@.frame == layout.block_align,
    ensures
        r == fill(
            *layout,
            ring@.queue.len() / ring@.frame,
            buffer_frames,
            padding,
        ),
{
    let target = level(layout, FILL_TARGET_MS, buffer_frames);
    if padding >= target {
        return Fill::Nothing;
    }
    let buffered = ring.queue().len() / layout.block_align;
    if buffered > 0 {
        let room: u32 = target - padding;
        if buffered <= room as usize {
            Fill::Sound(buffered as u32)
        } else {
            Fill::Sound(room)
        }
    } else {
        assert(layout.can_count(FILL_LOW_WATER_MS as nat)) by (nonlinear_arith)
            requires
                layout.can_count(FILL_TARGET_MS as nat),
        ;
        let low = level(layout, FILL_LOW_WATER_MS, buffer_frames);
        if padding < low {
            Fill::Silence(target - padding)
        } else {
            Fill::Nothing
        }
    }
}

/// Frames that a fill writes.
pub open spec fn filled_frames(fill: Fill) -> nat {
    match fill {
        Fill::Nothing => 0,
        Fill::Sound(frames) => frames as nat,
        Fill::Silence(frames) => frames as nat,
    }
}

/// Writes a fill: sound from the ring, or silence. Should the ring have less
/// than was chosen, the rest is silence.
pub fn write_fill(ring: &mut Ring, fill: Fill, out: &mut [u8])
    requires
        old(ring).wf(),
    ensures
        final(ring).wf(),
        match fill {
            Fill::Sound(_) => {
                let n = old(ring)@.poppable(old(out)@.len());
                &&& final(out)@ == old(ring)@.queue.take(n as int) + zeros(
                    (old(out)@.len() - n) as nat,
                )
                &&& final(ring)@ == old(ring)@.popped(old(out)@.len())
            },
            _ => final(out)@ == zeros(old(out)@.len()) && final(ring)@ == old(ring)@,
        },
{
    let ghost queue = ring@.queue;
    let mut i: usize = match fill {
        Fill::Sound(_) => ring.pop_into(out),
        _ => 0,
    };
    let ghost start = i as int;
    proof {
        lemma_whole(queue.len(), ring@.frame);
        lemma_whole(old(out)@.len(), ring@.frame);
    }
    while i < out.len()
        invariant
            0 <= start <= i <= out@.len(),
            out@.len() == old(out)@.len(),
            start <= queue.len(),
            forall|j: int| 0 <= j < start ==> out@[j] == queue[j],
            forall|j: int| start <= j < i ==> out@[j] == 0,
        decreases out@.len() - i,
    {
        out[i] = 0;
        i += 1;
    }
    assert(out@ =~= queue.take(start) + zeros((old(out)@.len() - start) as nat));
    assert(queue.take(0) + zeros(old(out)@.len()) =~= zeros(old(out)@.len()));
}

// ---------------------------------------------------------------------------
// Laws
// ---------------------------------------------------------------------------

/// Room for `n` of the buffered frames takes exactly those.
pub proof fn lemma_whole_frames_pop(ring: RingView, n: nat)
    requires
        ring.frame > 0,
        n <= ring.queue.len() / ring.frame,
    ensures
        ring.poppable(n * ring.frame) == n * ring.frame,
        n * ring.frame <= ring.queue.len(),
{
    let frame = ring.frame;
    let buffered = ring.queue.len() / frame;
    vstd::arithmetic::div_mod::lemma_div_multiples_vanish(n as int, frame as int);
    vstd::arithmetic::mul::lemma_mul_is_commutative(n as int, frame as int);
    assert(whole(n * frame, frame) == n * frame);
    lemma_whole(ring.queue.len(), frame);
    vstd::arithmetic::mul::lemma_mul_inequality(n as int, buffered as int, frame as int);
}

/// A fill never lifts the device buffer above the target level, which it holds;
/// sound is written only as far as the ring has it, and silence only when the
/// ring has no frame and the buffer is below the low level, and then up to the
/// target at once.
pub proof fn lemma_the_cushion_is_kept(
    layout: FrameLayout,
    buffered_frames: nat,
    buffer_frames: u32,
    padding: u32,
)
    ensures
        ({
            let target = level_frames(layout, FILL_TARGET_MS as nat, buffer_frames as nat);
            let low = level_frames(layout, FILL_LOW_WATER_MS as nat, buffer_frames as nat);
            let chosen = fill(layout, buffered_frames, buffer_frames, padding);
            &&& target <= buffer_frames
            &&& chosen is Nothing || padding + filled_frames(chosen) <= target
            &&& chosen matches Fill::Sound(frames) ==> 0 < frames <= buffered_frames
            &&& chosen matches Fill::Silence(frames) ==> buffered_frames == 0 && padding < low
                && padding + frames == target
            &&& chosen is Nothing <==> padding >= target || buffered_frames == 0 && padding >= low
        }),
{
}

/// Every secondary endpoint has a stream of its own, and of all streams only
/// the capture, which starts last, stops the whole engine when it fails.
pub proof fn lemma_only_the_capture_is_fatal(primary: Seq<char>, secondaries: Seq<Seq<char>>)
    ensures
        ({
            let plan = streams(primary, secondaries);
            &&& plan.len() == secondaries.len() + 1
            &&& plan.last() == capture_stream(primary)
            &&& forall|n: int|
                0 <= n < plan.len() ==> ((#[trigger] plan[n]).fatal <==> n == plan.len() - 1)
            &&& forall|n: int| 0 <= n < secondaries.len() ==> (#[trigger] plan[n]).id
                == secondaries[n]
        }),
{
}

} // verus!
