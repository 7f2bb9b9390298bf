//! Platform-neutral pieces of the multi-device fan-out: format arithmetic and
//! the byte queue between one capture stream and one render stream.

use std::collections::VecDeque;
use vstd::prelude::*;

verus! {

// ---------------------------------------------------------------------------
// Format arithmetic
// ---------------------------------------------------------------------------

/// The two facts about a PCM byte stream that all byte and frame arithmetic
/// needs.
#[derive(Debug, Clone, Copy)]
pub struct FrameLayout {
    /// Bytes per frame; frames are never split.
    pub block_align: usize,
    /// Bytes per second of audio.
    pub avg_bytes_per_sec: usize,
}

/// `n` rounded down to a multiple of `frame`.
pub open spec fn whole(n: nat, frame: nat) -> nat {
    n / frame * frame
}

impl FrameLayout {
    /// Frames in `ms` milliseconds of audio, at least one.
    pub open spec fn frames_in(self, ms: nat) -> nat {
        let frames = self.avg_bytes_per_sec as nat * ms / 1000 / self.block_align as nat;
        if frames < 1 {
            1
        } else {
            frames
        }
    }

    /// Bytes in `ms` milliseconds of audio: whole frames, at least one.
    pub open spec fn bytes_in(self, ms: nat) -> nat {
        self.frames_in(ms) * self.block_align as nat
    }

    /// `ms` milliseconds of audio can be counted in bytes.
    pub open spec fn can_count(self, ms: nat) -> bool {
        self.block_align > 0 && self.avg_bytes_per_sec as nat * ms <= usize::MAX
    }

    /// Byte count of `ms` milliseconds of audio, rounded down to whole frames
    /// (at least one frame).
    pub fn bytes_for_ms(&self, ms: usize) -> (bytes: usize)
        requires
            self.can_count(ms as nat),
        ensures
            bytes == self.bytes_in(ms as nat),
            bytes > 0,
            bytes % self.block_align == 0,
    {
        let fitting: usize = self.avg_bytes_per_sec * ms / 1000;
        let mut frames: usize = fitting / self.block_align;
        if frames < 1 {
            frames = 1;
        }
        proof {
            lemma_whole(fitting as nat, self.block_align as nat);
            vstd::arithmetic::mul::lemma_mul_strictly_positive(
                frames as int,
                self.block_align as int,
            );
            vstd::arithmetic::div_mod::lemma_mod_multiples_basic(
                frames as int,
                self.block_align as int,
            );
        }
        frames * self.block_align
    }
}

// ---------------------------------------------------------------------------
// Ring buffer
// ---------------------------------------------------------------------------

/// FIFO of raw capture-format bytes for one secondary device.
pub struct Ring {
    buf: VecDeque<u8>,
    target_bytes: usize,
    max_bytes: usize,
    frame_size: usize,
}

/// What a [`Ring`] holds and the limits that it was made with.
pub struct RingView {
    /// The buffered bytes, oldest first.
    pub queue: Seq<u8>,
    /// Occupancy that an overflow is clamped back to.
    pub target: nat,
    /// Occupancy above which the oldest frames are dropped.
    pub max: nat,
    /// Bytes per frame.
    pub frame: nat,
}

impl RingView {
    /// `more` bytes can be pushed: a ring whose target lies above its ceiling
    /// has no occupancy to clamp back to while it holds less than the target.
    pub open spec fn accepts(self, more: nat) -> bool {
        self.queue.len() + more <= self.max || self.target <= self.queue.len() + more
    }

    /// Bytes that a push of `more` bytes drops from the front.
    pub open spec fn dropped(self, more: nat) -> nat {
        let total = self.queue.len() + more;
        if total > self.max {
            whole((total - self.target) as nat, self.frame)
        } else {
            0
        }
    }

    /// The ring after `data` was pushed.
    pub open spec fn pushed(self, data: Seq<u8>) -> RingView {
        RingView {
            queue: (self.queue + data).skip(self.dropped(data.len()) as int),
            target: self.target,
            max: self.max,
            frame: self.frame,
        }
    }

    /// Bytes that a pop into `room` bytes moves: the whole frames that are
    /// buffered and fit.
    pub open spec fn poppable(self, room: nat) -> nat {
        let buffered = whole(self.queue.len(), self.frame);
        let fitting = whole(room, self.frame);
        if buffered <= fitting {
            buffered
        } else {
            fitting
        }
    }

    /// The ring after a pop into `room` bytes.
    pub open spec fn popped(self, room: nat) -> RingView {
        RingView {
            queue: self.queue.skip(self.poppable(room) as int),
            target: self.target,
            max: self.max,
            frame: self.frame,
        }
    }
}

impl View for Ring {
    type V = RingView;

    closed spec fn view(&self) -> RingView {
        RingView {
            queue: self.buf@,
            target: self.target_bytes as nat,
            max: self.max_bytes as nat,
            frame: self.frame_size as nat,
        }
    }
}

/// Rounding down to whole frames loses less than a frame.
pub proof fn lemma_whole(n: nat, frame: nat)
    requires
        frame > 0,
    ensures
        whole(n, frame) <= n,
        n < whole(n, frame) + frame,
        whole(n, frame) % frame == 0,
{
    vstd::arithmetic::div_mod::lemma_fundamental_div_mod(n as int, frame as int);
    vstd::arithmetic::div_mod::lemma_mod_multiples_basic((n / frame) as int, frame as int);
    assert(frame * (n / frame) == whole(n, frame)) by (nonlinear_arith)
        requires
            frame > 0,
            whole(n, frame) == n / frame * frame,
    ;
}

impl Ring {
    /// Frames have a size.
    pub open spec fn wf(self) -> bool {
        self@.frame > 0
    }

    /// A ring that steadies around `target_ms` of buffered audio and, once
    /// occupancy exceeds `max_ms`, clamps back down to the target.
    pub fn new(layout: &FrameLayout, target_ms: usize, max_ms: usize) -> (ring: Ring)
        requires
            layout.can_count(target_ms as nat),
            layout.can_count(max_ms as nat),
            layout.bytes_in(max_ms as nat) + layout.block_align <= isize::MAX,
        ensures
            ring.wf(),
            ring@ == (RingView {
                queue: Seq::empty(),
                target: layout.bytes_in(target_ms as nat),
                max: layout.bytes_in(max_ms as nat),
                frame: layout.block_align as nat,
            }),
    {
        let target_bytes = layout.bytes_for_ms(target_ms);
        let max_bytes = layout.bytes_for_ms(max_ms);
        Ring {
            buf: VecDeque::with_capacity(max_bytes + layout.block_align),
            target_bytes,
            max_bytes,
            frame_size: layout.block_align,
        }
    }

    /// The buffered bytes.
    pub fn queue(&self) -> (q: &VecDeque<u8>)
        ensures
            q@ == self@.queue,
    {
        &self.buf
    }

    /// `n` rounded down to whole frames.
    fn round(&self, n: usize) -> (r: usize)
        requires
            self.wf(),
        ensures
            r == whole(n as nat, self@.frame),
            r <= n,
    {
        proof {
            lemma_whole(n as nat, self@.frame);
        }
        n / self.frame_size * self.frame_size
    }

    /// Remove the `n` oldest bytes.
    fn discard(&mut self, n: usize)
        requires
            n <= old(self)@.queue.len(),
        ensures
            final(self)@ == (RingView { queue: old(self)@.queue.skip(n as int), ..old(self)@ }),
    {
        let mut i: usize = 0;
        assert(self@.queue.skip(0) =~= self@.queue);
        while i < n
            invariant
                i <= n <= old(self)@.queue.len(),
                self@ == (RingView { queue: old(self)@.queue.skip(i as int), ..old(self)@ }),
            decreases n - i,
        {
            let ghost before = self@.queue;
            let _ = self.buf.pop_front();
            assert(self@.queue =~= old(self)@.queue.skip(i + 1));
            i += 1;
        }
    }

    /// Append `data`. When the ring then holds more than its ceiling (the sink
    /// drains slower than the source fills), the oldest whole frames are
    /// dropped back to the target.
    pub fn push(&mut self, data: &[u8])
        requires
            old(self).wf(),
            old(self)@.accepts(data@.len()),
        ensures
            final(self).wf(),
            final(self)@ == old(self)@.pushed(data@),
    {
        let mut i: usize = 0;
        assert(self@.queue + data@.take(0) =~= self@.queue);
        while i < data.len()
            invariant
                i <= data.len(),
                self@ == (RingView { queue: old(self)@.queue + data@.take(i as int), ..old(self)@ }),
            decreases data.len() - i,
        {
            self.buf.push_back(data[i]);
            assert(self@.queue =~= old(self)@.queue + data@.take(i + 1));
            i += 1;
        }
        assert(data@.take(i as int) =~= data@);
        let ghost all = self@.queue;
        if self.buf.len() > self.max_bytes {
            let excess = self.buf.len() - self.target_bytes;
            let drop = self.round(excess);
            self.discard(drop);
        }
        assert(all.skip(0) =~= all);
    }

    /// Move as many whole frames as fit into `out`; returns bytes written.
    pub fn pop_into(&mut self, out: &mut [u8]) -> (n: usize)
        requires
            old(self).wf(),
        ensures
            final(self).wf(),
            n == old(self)@.poppable(old(out)@.len()),
            final(self)@ == old(self)@.popped(old(out)@.len()),
            final(out)@ == old(self)@.queue.take(n as int) + old(out)@.skip(n as int),
    {
        let avail = self.round(self.buf.len());
        let fitting = self.round(out.len());
        let take: usize = if avail <= fitting {
            avail
        } else {
            fitting
        };
        let ghost queue = self@.queue;
        let ghost target = out@;
        let mut i: usize = 0;
        while i < take
            invariant
                i <= take <= queue.len(),
                take <= target.len(),
                queue == old(self)@.queue,
                self@ == old(self)@,
                out@.len() == target.len(),
                forall|j: int| 0 <= j < i ==> out@[j] == queue[j],
                forall|j: int| i <= j < target.len() ==> out@[j] == target[j],
            decreases take - i,
        {
            out[i] = self.buf[i];
            i += 1;
        }
        assert(out@ =~= queue.take(take as int) + target.skip(take as int));
        self.discard(take);
        take
    }
}

// ---------------------------------------------------------------------------
// Laws
// ---------------------------------------------------------------------------

/// A use of a ring.
pub enum RingOp {
    /// `push` of these bytes.
    Push(Seq<u8>),
    /// `pop_into` an output of this many bytes.
    Pop(nat),
}

/// A ring together with everything that was ever pushed into it and the number
/// of bytes that have left it, popped or dropped.
pub struct RingHistory {
    pub ring: RingView,
    pub pushed: Seq<u8>,
    pub gone: nat,
}

impl RingHistory {
    /// One use.
    pub open spec fn step(self, op: RingOp) -> RingHistory {
        match op {
            RingOp::Push(data) => RingHistory {
                ring: self.ring.pushed(data),
                pushed: self.pushed + data,
                gone: self.gone + self.ring.dropped(data.len()),
            },
            RingOp::Pop(room) => RingHistory {
                ring: self.ring.popped(room),
                pushed: self.pushed,
                gone: self.gone + self.ring.poppable(room),
            },
        }
    }

    /// All of `ops`, one after the other.
    pub open spec fn run(self, ops: Seq<RingOp>) -> RingHistory
        decreases ops.len(),
    {
        if ops.len() == 0 {
            self
        } else {
            self.run(ops.drop_last()).step(ops.last())
        }
    }

    /// Every push among `ops` is one that the ring accepts when it comes.
    pub open spec fn accepts(self, ops: Seq<RingOp>) -> bool
        decreases ops.len(),
    {
        ops.len() == 0 || {
            &&& self.accepts(ops.drop_last())
            &&& match ops.last() {
                RingOp::Push(data) => self.run(ops.drop_last()).ring.accepts(data.len()),
                RingOp::Pop(_) => true,
            }
        }
    }
}

/// Whatever is pushed and popped, in any order: a ring holds the newest bytes
/// that were pushed, in their order and without a gap, and what has left it is
/// a whole number of frames. So no frame is ever split: every pop starts at a
/// frame boundary of the pushed stream.
pub proof fn lemma_ring_is_a_window_of_the_stream(start: RingView, ops: Seq<RingOp>)
    requires
        start.queue.len() == 0,
        start.frame > 0,
        (RingHistory { ring: start, pushed: Seq::empty(), gone: 0 }).accepts(ops),
    ensures
        ({
            let end = (RingHistory { ring: start, pushed: Seq::empty(), gone: 0 }).run(ops);
            &&& end.gone <= end.pushed.len()
            &&& end.ring.queue == end.pushed.skip(end.gone as int)
            &&& end.gone % start.frame == 0
            &&& end.ring.frame == start.frame
            &&& end.ring.target == start.target
            &&& end.ring.max == start.max
        }),
    decreases ops.len(),
{
    let fresh = RingHistory { ring: start, pushed: Seq::empty(), gone: 0 };
    if ops.len() == 0 {
        assert(start.queue =~= fresh.pushed.skip(0));
        assert(0nat % start.frame == 0) by (nonlinear_arith)
            requires
                start.frame > 0,
        ;
    } else {
        lemma_ring_is_a_window_of_the_stream(start, ops.drop_last());
        let before = fresh.run(ops.drop_last());
        let end = fresh.run(ops);
        let leaving: nat = match ops.last() {
            RingOp::Push(data) => before.ring.dropped(data.len()),
            RingOp::Pop(room) => before.ring.poppable(room),
        };
        match ops.last() {
            RingOp::Push(data) => {
                let total = before.ring.queue.len() + data.len();
                if total > before.ring.max {
                    lemma_whole((total - before.ring.target) as nat, start.frame);
                }
                assert(0nat % start.frame == 0) by (nonlinear_arith)
                    requires
                        start.frame > 0,
                ;
                assert(end.ring.queue =~= end.pushed.skip(end.gone as int));
            },
            RingOp::Pop(room) => {
                lemma_whole(before.ring.queue.len(), start.frame);
                lemma_whole(room, start.frame);
                assert(end.ring.queue =~= end.pushed.skip(end.gone as int));
            },
        }
        vstd::arithmetic::div_mod::lemma_add_mod_noop(
            before.gone as int,
            leaving as int,
            start.frame as int,
        );
    }
}

/// A ring whose target does not lie above its ceiling accepts every push.
pub proof fn lemma_ordered_limits_accept_everything(ring: RingView, more: nat)
    requires
        ring.target <= ring.max,
    ensures
        ring.accepts(more),
{
}

/// A push leaves at most the ceiling, or less than one frame above the target;
/// a ring within its ceiling loses nothing.
pub proof fn lemma_push_bounds_the_occupancy(ring: RingView, data: Seq<u8>)
    requires
        ring.frame > 0,
        ring.accepts(data.len()),
    ensures
        ring.pushed(data).queue.len() <= ring.max || ring.pushed(data).queue.len() < ring.target
            + ring.frame,
        ring.queue.len() + data.len() <= ring.max ==> ring.pushed(data).queue == ring.queue + data,
{
    let total = ring.queue.len() + data.len();
    if total > ring.max {
        lemma_whole((total - ring.target) as nat, ring.frame);
    }
    assert((ring.queue + data).skip(0) =~= ring.queue + data);
}

/// What is pushed into a ring with room for it comes out unchanged: popping
/// everything yields the whole frames of the old content followed by the data.
pub proof fn lemma_pop_gives_back_what_was_pushed(ring: RingView, data: Seq<u8>, room: nat)
    requires
        ring.frame > 0,
        ring.queue.len() + data.len() <= ring.max,
        room >= ring.queue.len() + data.len(),
    ensures
        ({
            let n = ring.pushed(data).poppable(room);
            &&& n == whole(ring.queue.len() + data.len(), ring.frame)
            &&& ring.pushed(data).queue.take(n as int) == (ring.queue + data).take(n as int)
        }),
{
    assert((ring.queue + data).skip(0) =~= ring.queue + data);
    let total = (ring.queue.len() + data.len()) as int;
    vstd::arithmetic::div_mod::lemma_div_is_ordered(total, room as int, ring.frame as int);
    vstd::arithmetic::mul::lemma_mul_inequality(
        total / ring.frame as int,
        room as int / ring.frame as int,
        ring.frame as int,
    );
}

/// The bytes of a stretch of audio are the most whole frames that it has room
/// for: one frame more would be too much. They are one frame where it has room
/// for none.
pub proof fn lemma_bytes_are_the_frames_that_fit(layout: FrameLayout, ms: nat)
    requires
        layout.block_align > 0,
    ensures
        layout.bytes_in(ms) % layout.block_align as nat == 0,
        layout.bytes_in(ms) >= layout.block_align,
        layout.bytes_in(ms) * 1000 <= layout.avg_bytes_per_sec * ms || layout.bytes_in(ms)
            == layout.block_align,
        (layout.bytes_in(ms) + layout.block_align) * 1000 > layout.avg_bytes_per_sec * ms,
        layout.frames_in(ms) * layout.block_align as nat == layout.bytes_in(ms),
{
    let frame = layout.block_align as nat;
    let room: nat = layout.avg_bytes_per_sec as nat * ms;
    let fitting: nat = room / 1000;
    lemma_whole(fitting, frame);
    vstd::arithmetic::div_mod::lemma_mod_multiples_basic(
        layout.frames_in(ms) as int,
        frame as int,
    );
    let n: nat = fitting / frame;
    if n < 1 {
        assert(n * frame == 0) by (nonlinear_arith)
            requires
                n == 0,
        ;
        assert(layout.bytes_in(ms) == frame) by (nonlinear_arith)
            requires
                layout.bytes_in(ms) == 1 * frame,
        ;
    } else {
        assert(layout.bytes_in(ms) == whole(fitting, frame));
        assert(n * frame >= frame) by (nonlinear_arith)
            requires
                n >= 1,
        ;
    }
}

/// A push that would fill a ring above its ceiling drops the oldest bytes and
/// no others, and only as many whole frames as bring it to the target: what
/// stays are the newest bytes, at least the target and less than a frame more.
pub proof fn lemma_an_overflow_keeps_the_newest(ring: RingView, data: Seq<u8>)
    requires
        ring.frame > 0,
        ring.accepts(data.len()),
    ensures
        ({
            let all = ring.queue + data;
            let kept = ring.pushed(data).queue;
            &&& kept.len() <= all.len()
            &&& kept == all.skip(all.len() - kept.len())
            &&& (all.len() - kept.len()) % (ring.frame as int) == 0
            &&& all.len() > ring.max ==> ring.target <= kept.len() < ring.target + ring.frame
            &&& all.len() <= ring.max ==> kept == all
            &&& ring.pushed(data).target == ring.target
            &&& ring.pushed(data).max == ring.max
            &&& ring.pushed(data).frame == ring.frame
        }),
{
    let total = ring.queue.len() + data.len();
    assert(0nat % ring.frame == 0) by (nonlinear_arith)
        requires
            ring.frame > 0,
    ;
    if total > ring.max {
        lemma_whole((total - ring.target) as nat, ring.frame);
    }
    assert((ring.queue + data).skip(0) =~= ring.queue + data);
}

/// A push fails to find a target to clamp back to exactly if the ring would
/// then hold more than its ceiling and less than its target.
pub proof fn lemma_which_pushes_are_accepted(ring: RingView, more: nat)
    ensures
        !ring.accepts(more) <==> ring.max < ring.queue.len() + more < ring.target,
{
}

/// A pop moves the oldest bytes: whole frames, as many as are buffered and fit,
/// and one frame more would be too many. The rest stays, in its order.
pub proof fn lemma_a_pop_moves_the_oldest_frames(ring: RingView, room: nat)
    requires
        ring.frame > 0,
    ensures
        ({
            let n = ring.poppable(room);
            &&& n % ring.frame == 0
            &&& n <= room
            &&& n <= ring.queue.len()
            &&& n + ring.frame > room || n + ring.frame > ring.queue.len()
            &&& ring.queue == ring.queue.take(n as int) + ring.popped(room).queue
            &&& ring.popped(room).target == ring.target
            &&& ring.popped(room).max == ring.max
            &&& ring.popped(room).frame == ring.frame
        }),
{
    lemma_whole(ring.queue.len(), ring.frame);
    lemma_whole(room, ring.frame);
    let n = ring.poppable(room);
    assert(ring.queue =~= ring.queue.take(n as int) + ring.queue.skip(n as int));
}

} // verus!
