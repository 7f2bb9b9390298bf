//! The order in which the monitor reads lines, waits, looks at the sinks and
//! sends events.

use vstd::prelude::*;
use crate::device::{BackendEvent, EventView};
use crate::linux::monitor::{
    is_sink_or_server_event, observed, reenumeration_wait, Monitor, Snapshot, SnapshotView,
    REENUM_MIN_INTERVAL_NANOS,
};
use crate::text::mentions;
use crate::text_laws::lemma_mentioned_text_stands_inside;

verus! {

/// What the monitor does next. `E` is the type of events.
#[derive(Debug)]
pub enum MonitorAction<E> {
    /// List the sinks and read the default one.
    Look,
    /// Note the time, from which the time of the next line counts.
    NoteTime,
    /// Read a line of `pactl subscribe`.
    Read,
    /// Sleep for the nanoseconds given.
    Sleep(u128),
    /// Send an event.
    Send(E),
}

impl DeepView for MonitorAction<BackendEvent> {
    type V = MonitorAction<EventView>;

    open spec fn deep_view(&self) -> MonitorAction<EventView> {
        match *self {
            MonitorAction::Look => MonitorAction::Look,
            MonitorAction::NoteTime => MonitorAction::NoteTime,
            MonitorAction::Read => MonitorAction::Read,
            MonitorAction::Sleep(nanos) => MonitorAction::Sleep(nanos),
            MonitorAction::Send(event) => MonitorAction::Send(event.deep_view()),
        }
    }
}

/// What an action came to.
#[derive(Debug)]
pub enum MonitorReply {
    /// The sinks, or nothing if they could not be listed; and for each sink
    /// whether its volume is audibly another than at the last look.
    Looked(Option<Snapshot>, Vec<bool>),
    /// A line, and the nanoseconds since the time was noted.
    Line(String, u128),
    /// There are no more lines.
    Closed,
    /// It is done.
    Done,
    /// The event was taken, or there is nobody to take it.
    Sent(bool),
}

/// What a [`MonitorReply`] says, in terms of text.
pub enum MonitorReplyView {
    Looked(Option<SnapshotView>, Seq<bool>),
    Line(Seq<char>, u128),
    Closed,
    Done,
    Sent(bool),
}

impl DeepView for MonitorReply {
    type V = MonitorReplyView;

    open spec fn deep_view(&self) -> MonitorReplyView {
        match *self {
            MonitorReply::Looked(now, moved) => MonitorReplyView::Looked(now.deep_view(), moved@),
            MonitorReply::Line(line, elapsed) => MonitorReplyView::Line(line@, elapsed),
            MonitorReply::Closed => MonitorReplyView::Closed,
            MonitorReply::Done => MonitorReplyView::Done,
            MonitorReply::Sent(taken) => MonitorReplyView::Sent(taken),
        }
    }
}

/// Where the monitor is. `L` is the type of lists of events.
#[derive(Debug)]
pub enum MonitorPhase<L> {
    /// It looks at the sinks for the first time, to compare with later.
    FirstLook,
    /// It notes the time after that.
    Begin,
    /// It reads a line.
    Reading,
    /// It waits before it looks again.
    Waiting(u128),
    /// It notes the time before it looks again.
    Noting,
    /// It looks again.
    Looking,
    /// It sends the event at the position given.
    Sending(L, usize),
    /// There is nothing to read, or nobody listens.
    Ended,
}

impl DeepView for MonitorPhase<Vec<BackendEvent>> {
    type V = MonitorPhase<Seq<EventView>>;

    open spec fn deep_view(&self) -> MonitorPhase<Seq<EventView>> {
        match *self {
            MonitorPhase::FirstLook => MonitorPhase::FirstLook,
            MonitorPhase::Begin => MonitorPhase::Begin,
            MonitorPhase::Reading => MonitorPhase::Reading,
            MonitorPhase::Waiting(nanos) => MonitorPhase::Waiting(nanos),
            MonitorPhase::Noting => MonitorPhase::Noting,
            MonitorPhase::Looking => MonitorPhase::Looking,
            MonitorPhase::Sending(events, at) => MonitorPhase::Sending(events.deep_view(), at),
            MonitorPhase::Ended => MonitorPhase::Ended,
        }
    }
}

/// The monitor at work.
#[derive(Debug)]
pub struct MonitorLoop {
    pub monitor: Monitor,
    pub phase: MonitorPhase<Vec<BackendEvent>>,
}

/// What a [`MonitorLoop`] says, in terms of text.
pub struct LoopView {
    pub snapshot: Option<SnapshotView>,
    pub phase: MonitorPhase<Seq<EventView>>,
}

impl DeepView for MonitorLoop {
    type V = LoopView;

    open spec fn deep_view(&self) -> LoopView {
        LoopView { snapshot: self.monitor.snapshot.deep_view(), phase: self.phase.deep_view() }
    }
}

/// A line of `pactl subscribe` that matters.
pub open spec fn matters(line: Seq<char>) -> bool {
    mentions(line, " on sink #"@) || mentions(line, " on server"@)
}

impl LoopView {
    /// What each phase relies on.
    pub open spec fn wf(self) -> bool {
        self.phase matches MonitorPhase::Sending(events, at) ==> at < events.len()
            && events.len() <= usize::MAX
    }

    /// The next action.
    pub open spec fn action(self) -> MonitorAction<EventView>
        recommends
            !(self.phase is Ended),
    {
        match self.phase {
            MonitorPhase::FirstLook => MonitorAction::Look,
            MonitorPhase::Begin => MonitorAction::NoteTime,
            MonitorPhase::Reading => MonitorAction::Read,
            MonitorPhase::Waiting(nanos) => MonitorAction::Sleep(nanos),
            MonitorPhase::Noting => MonitorAction::NoteTime,
            MonitorPhase::Looking => MonitorAction::Look,
            MonitorPhase::Sending(events, at) => MonitorAction::Send(events[at as int]),
            MonitorPhase::Ended => arbitrary(),
        }
    }

    /// `reply` is of the kind that the next action has. Where two looks are
    /// compared, it tells of each sink whether its volume moved.
    pub open spec fn fits(self, reply: MonitorReplyView) -> bool {
        match self.phase {
            MonitorPhase::FirstLook => reply is Looked,
            MonitorPhase::Begin => reply is Done,
            MonitorPhase::Reading => reply is Line || reply is Closed,
            MonitorPhase::Waiting(_) => reply is Done,
            MonitorPhase::Noting => reply is Done,
            MonitorPhase::Looking => reply matches MonitorReplyView::Looked(now, moved)
                && (now is Some && self.snapshot is Some ==> moved.len() == now->0.state.len()),
            MonitorPhase::Sending(_, _) => reply is Sent,
            MonitorPhase::Ended => false,
        }
    }

    /// The same monitor in another phase.
    pub open spec fn at(self, phase: MonitorPhase<Seq<EventView>>) -> LoopView {
        LoopView { phase, ..self }
    }

    /// A line was read. To wait, and not to skip, keeps the last event of a
    /// burst.
    pub open spec fn heard(self, line: Seq<char>, elapsed: u128) -> LoopView {
        if !matters(line) {
            self.at(MonitorPhase::Reading)
        } else if elapsed < REENUM_MIN_INTERVAL_NANOS {
            self.at(MonitorPhase::Waiting((REENUM_MIN_INTERVAL_NANOS - elapsed) as u128))
        } else {
            self.at(MonitorPhase::Noting)
        }
    }

    /// The sinks were looked at again. A look that failed keeps the last one.
    pub open spec fn saw(self, now: Option<SnapshotView>, moved: Seq<bool>) -> LoopView {
        let events = observed(self.snapshot, now, moved);
        LoopView {
            snapshot: if now is Some {
                now
            } else {
                self.snapshot
            },
            phase: if events.len() > 0 {
                MonitorPhase::Sending(events, 0)
            } else {
                MonitorPhase::Reading
            },
        }
    }

    /// What a reply leads to.
    pub open spec fn next(self, reply: MonitorReplyView) -> LoopView
        recommends
            self.fits(reply),
    {
        match self.phase {
            MonitorPhase::FirstLook => LoopView {
                snapshot: reply->Looked_0,
                phase: MonitorPhase::Begin,
            },
            MonitorPhase::Begin => self.at(MonitorPhase::Reading),
            MonitorPhase::Reading => match reply {
                MonitorReplyView::Line(line, elapsed) => self.heard(line, elapsed),
                _ => self.at(MonitorPhase::Ended),
            },
            MonitorPhase::Waiting(_) => self.at(MonitorPhase::Noting),
            MonitorPhase::Noting => self.at(MonitorPhase::Looking),
            MonitorPhase::Looking => self.saw(reply->Looked_0, reply->Looked_1),
            MonitorPhase::Sending(events, at) => if reply == MonitorReplyView::Sent(false) {
                self.at(MonitorPhase::Ended)
            } else if at + 1 < events.len() {
                self.at(MonitorPhase::Sending(events, (at + 1) as usize))
            } else {
                self.at(MonitorPhase::Reading)
            },
            MonitorPhase::Ended => self,
        }
    }
}

impl MonitorLoop {
    /// A monitor that has seen nothing yet.
    pub fn new() -> (r: MonitorLoop)
        ensures
            r.deep_view().wf(),
            r.deep_view() == (LoopView { snapshot: None, phase: MonitorPhase::FirstLook }),
    {
        MonitorLoop { monitor: Monitor { snapshot: None }, phase: MonitorPhase::FirstLook }
    }

    /// The next action; none when the monitor has ended.
    pub fn action(&self) -> (r: Option<MonitorAction<BackendEvent>>)
        requires
            self.deep_view().wf(),
        ensures
            self.deep_view().phase is Ended <==> r is None,
            r is Some ==> r->0.deep_view() == self.deep_view().action(),
    {
        match &self.phase {
            MonitorPhase::FirstLook => Some(MonitorAction::Look),
            MonitorPhase::Begin => Some(MonitorAction::NoteTime),
            MonitorPhase::Reading => Some(MonitorAction::Read),
            MonitorPhase::Waiting(nanos) => Some(MonitorAction::Sleep(*nanos)),
            MonitorPhase::Noting => Some(MonitorAction::NoteTime),
            MonitorPhase::Looking => Some(MonitorAction::Look),
            MonitorPhase::Sending(events, at) => {
                assert(events.deep_view()[*at as int] == events[*at as int].deep_view());
                Some(MonitorAction::Send(events[*at].copy()))
            },
            MonitorPhase::Ended => None,
        }
    }

    /// Takes what the action came to and goes on.
    pub fn step(self, reply: MonitorReply) -> (r: MonitorLoop)
        requires
            self.deep_view().wf(),
            self.deep_view().fits(reply.deep_view()),
        ensures
            r.deep_view().wf(),
            r.deep_view() == self.deep_view().next(reply.deep_view()),
    {
        let MonitorLoop { mut monitor, phase } = self;
        let phase = match phase {
            MonitorPhase::FirstLook => {
                if let MonitorReply::Looked(now, _) = reply {
                    monitor.snapshot = now;
                }
                MonitorPhase::Begin
            },
            MonitorPhase::Begin => MonitorPhase::Reading,
            MonitorPhase::Reading => match reply {
                MonitorReply::Line(line, elapsed) => {
                    if !is_sink_or_server_event(line.as_str()) {
                        MonitorPhase::Reading
                    } else {
                        let wait = reenumeration_wait(elapsed);
                        if wait > 0 {
                            MonitorPhase::Waiting(wait)
                        } else {
                            MonitorPhase::Noting
                        }
                    }
                },
                _ => MonitorPhase::Ended,
            },
            MonitorPhase::Waiting(_) => MonitorPhase::Noting,
            MonitorPhase::Noting => MonitorPhase::Looking,
            MonitorPhase::Looking => match reply {
                MonitorReply::Looked(now, moved) => {
                    let events = monitor.observe(now, &moved);
                    assert(events.deep_view().len() == events.len());
                    if events.len() > 0 {
                        MonitorPhase::Sending(events, 0)
                    } else {
                        MonitorPhase::Reading
                    }
                },
                _ => MonitorPhase::Ended,
            },
            MonitorPhase::Sending(events, at) => {
                assert(events.deep_view().len() == events.len());
                let taken = match reply {
                    MonitorReply::Sent(taken) => taken,
                    _ => true,
                };
                if !taken {
                    MonitorPhase::Ended
                } else if at + 1 < events.len() {
                    MonitorPhase::Sending(events, at + 1)
                } else {
                    MonitorPhase::Reading
                }
            },
            MonitorPhase::Ended => MonitorPhase::Ended,
        };
        MonitorLoop { monitor, phase }
    }
}

// ---------------------------------------------------------------------------
// Laws
// ---------------------------------------------------------------------------

/// A line that matters is never skipped: the sinks are looked at after it, at
/// once or after a wait, and not before the interval since the last noted time
/// is over. A line that does not matter has no effect.
pub proof fn lemma_a_line_that_matters_leads_to_a_look(
    monitor: LoopView,
    line: Seq<char>,
    elapsed: u128,
)
    requires
        monitor.phase is Reading,
    ensures
        ({
            let heard = monitor.next(MonitorReplyView::Line(line, elapsed));
            let rested = if heard.phase is Waiting {
                heard.next(MonitorReplyView::Done)
            } else {
                heard
            };
            let ready = rested.next(MonitorReplyView::Done);
            &&& !matters(line) ==> heard == monitor
            &&& matters(line) ==> {
                &&& heard.action() matches MonitorAction::Sleep(nanos) ==> elapsed + nanos
                    >= REENUM_MIN_INTERVAL_NANOS
                &&& !(heard.phase is Waiting) ==> elapsed >= REENUM_MIN_INTERVAL_NANOS
                &&& rested.action() is NoteTime
                &&& ready.action() is Look && ready.phase is Looking
                &&& ready.snapshot == monitor.snapshot
            }
        }),
{
}

/// The monitor after `n` of its events were taken.
pub open spec fn sent(monitor: LoopView, n: nat) -> LoopView
    decreases n,
{
    if n == 0 {
        monitor
    } else {
        sent(monitor, (n - 1) as nat).next(MonitorReplyView::Sent(true))
    }
}

/// The differences of a look are sent one by one, in order; then the next line
/// is read. If nobody takes one, the monitor ends there. The look is kept
/// either way.
pub proof fn lemma_differences_are_sent_in_order(
    monitor: LoopView,
    now: SnapshotView,
    moved: Seq<bool>,
    n: nat,
)
    requires
        monitor.phase is Looking,
        observed(monitor.snapshot, Some(now), moved).len() <= usize::MAX,
        n <= observed(monitor.snapshot, Some(now), moved).len(),
    ensures
        ({
            let events = observed(monitor.snapshot, Some(now), moved);
            let seen = monitor.next(MonitorReplyView::Looked(Some(now), moved));
            let here = sent(seen, n);
            &&& here.snapshot == Some(now)
            &&& n == events.len() ==> here.phase is Reading
            &&& n < events.len() ==> {
                &&& !(here.phase is Ended)
                &&& here.action() == MonitorAction::Send(events[n as int])
                &&& here.next(MonitorReplyView::Sent(false)).phase is Ended
                &&& here.next(MonitorReplyView::Sent(false)).snapshot == Some(now)
            }
        }),
{
    lemma_sent(monitor, now, moved, n);
}

proof fn lemma_sent(monitor: LoopView, now: SnapshotView, moved: Seq<bool>, n: nat)
    requires
        monitor.phase is Looking,
        observed(monitor.snapshot, Some(now), moved).len() <= usize::MAX,
        n <= observed(monitor.snapshot, Some(now), moved).len(),
    ensures
        ({
            let events = observed(monitor.snapshot, Some(now), moved);
            let seen = monitor.next(MonitorReplyView::Looked(Some(now), moved));
            sent(seen, n) == (LoopView {
                snapshot: Some(now),
                phase: if n < events.len() {
                    MonitorPhase::Sending(events, n as usize)
                } else {
                    MonitorPhase::Reading
                },
            })
        }),
    decreases n,
{
    if n > 0 {
        lemma_sent(monitor, now, moved, (n - 1) as nat);
    }
}

/// A look that failed tells nothing and keeps the last look.
pub proof fn lemma_a_failed_look_keeps_the_last(monitor: LoopView, moved: Seq<bool>)
    requires
        monitor.phase is Looking,
    ensures
        monitor.next(MonitorReplyView::Looked(None, moved)) == monitor.at(MonitorPhase::Reading),
{
}

/// Which lines matter: those in which " on sink #" or " on server" stands.
pub proof fn lemma_which_lines_matter(line: Seq<char>)
    ensures
        matters(line) <==> (exists|a: Seq<char>, b: Seq<char>|
            line == #[trigger] (a + " on sink #"@ + b)) || (exists|a: Seq<char>, b: Seq<char>|
            line == #[trigger] (a + " on server"@ + b)),
{
    lemma_mentioned_text_stands_inside(line, " on sink #"@);
    lemma_mentioned_text_stands_inside(line, " on server"@);
}

/// Two looks lie a fifth of a second apart: a line that matters is followed by a
/// sleep of just what is missing of that, and by none if nothing is.
pub proof fn lemma_looks_are_a_fifth_of_a_second_apart(
    monitor: LoopView,
    line: Seq<char>,
    elapsed: u128,
)
    requires
        monitor.phase is Reading,
        matters(line),
    ensures
        ({
            let heard = monitor.next(MonitorReplyView::Line(line, elapsed));
            &&& elapsed < 200_000_000 ==> (heard.action() matches MonitorAction::Sleep(nanos)
                && elapsed + nanos == 200_000_000)
            &&& elapsed >= 200_000_000 ==> heard.action() is NoteTime
        }),
{
}

/// A monitor looks at the sinks before it reads anything, keeps what it saw to
/// compare with, sends nothing of it, notes the time and reads. It ends when
/// there are no more lines.
pub proof fn lemma_how_a_monitor_begins_and_ends(
    seen: Option<SnapshotView>,
    moved: Seq<bool>,
    monitor: LoopView,
)
    ensures
        ({
            let start = LoopView { snapshot: None, phase: MonitorPhase::FirstLook };
            let looked = start.next(MonitorReplyView::Looked(seen, moved));
            let ready = looked.next(MonitorReplyView::Done);
            &&& start.action() is Look
            &&& looked.snapshot == seen && looked.action() is NoteTime
            &&& ready.snapshot == seen && ready.action() is Read
        }),
        monitor.phase is Reading ==> monitor.next(MonitorReplyView::Closed).phase is Ended,
{
}

} // verus!
