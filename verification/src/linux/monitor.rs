//! Watching the sound server through `pactl subscribe`: which lines matter, and
//! what two looks at the sinks differ in.

use vstd::prelude::*;
use crate::device::{BackendEvent, EventView};
use crate::linux::modules::{is_ours, ours, COMBINED_SINK};
use crate::linux::sinks::{Sink, SinkView};
use crate::text::{contains, mentions, same};
use crate::volume::{Level, Volume};

verus! {

/// Nanoseconds that at least lie between two listings of the sinks.
pub const REENUM_MIN_INTERVAL_NANOS: u128 = 200_000_000;

/// Whether a line of `pactl subscribe` is one that the monitor reacts to: an
/// event of a sink, whose `#` keeps the streams out, or of the server, which
/// tells of a new default sink. Localized output never matches, which is why
/// every `pactl` runs in the C locale.
pub fn is_sink_or_server_event(line: &str) -> (r: bool)
    ensures
        r == (mentions(line@, " on sink #"@) || mentions(line@, " on server"@)),
{
    contains(line, " on sink #") || contains(line, " on server")
}

/// How many nanoseconds to wait before the sinks are listed again. To wait,
/// and not to skip, keeps the last event of a burst.
pub fn reenumeration_wait(elapsed_nanos: u128) -> (wait: u128)
    ensures
        wait == if elapsed_nanos < REENUM_MIN_INTERVAL_NANOS {
            REENUM_MIN_INTERVAL_NANOS - elapsed_nanos
        } else {
            0
        },
{
    if elapsed_nanos < REENUM_MIN_INTERVAL_NANOS {
        REENUM_MIN_INTERVAL_NANOS - elapsed_nanos
    } else {
        0
    }
}

// ---------------------------------------------------------------------------
// Snapshots
// ---------------------------------------------------------------------------

/// A sink in a [`Snapshot`].
#[derive(Debug)]
pub struct Entry {
    pub name: String,
    pub level: Level,
}

/// What an [`Entry`] says, in terms of text.
pub struct EntryView {
    pub name: Seq<char>,
    pub level: Level,
}

impl DeepView for Entry {
    type V = EntryView;

    open spec fn deep_view(&self) -> EntryView {
        EntryView { name: self.name@, level: self.level }
    }
}

/// Volume and mute of the real sinks and of our combined sink, which is the
/// master row, and the name of the default sink.
#[derive(Debug)]
pub struct Snapshot {
    pub state: Vec<Entry>,
    pub default_sink: String,
}

/// What a [`Snapshot`] says, in terms of text.
pub struct SnapshotView {
    pub state: Seq<EntryView>,
    pub default_sink: Seq<char>,
}

impl DeepView for Snapshot {
    type V = SnapshotView;

    open spec fn deep_view(&self) -> SnapshotView {
        SnapshotView { state: self.state.deep_view(), default_sink: self.default_sink@ }
    }
}

/// The snapshot has an entry of this name.
pub open spec fn knows(state: Seq<EntryView>, name: Seq<char>) -> bool {
    exists|i: int| 0 <= i < state.len() && (#[trigger] state[i]).name == name
}

/// Position of the first entry of this name, or the number of entries.
pub open spec fn place(state: Seq<EntryView>, name: Seq<char>) -> nat
    decreases state.len(),
{
    if state.len() == 0 {
        0
    } else if state.first().name == name {
        0
    } else {
        1 + place(state.drop_first(), name)
    }
}

/// Each name has one entry.
pub open spec fn distinct(state: Seq<EntryView>) -> bool {
    forall|i: int, j: int|
        0 <= i < j < state.len() ==> (#[trigger] state[i]).name != (#[trigger] state[j]).name
}

pub proof fn lemma_place(state: Seq<EntryView>, name: Seq<char>)
    ensures
        place(state, name) <= state.len(),
        place(state, name) < state.len() <==> knows(state, name),
        place(state, name) < state.len() ==> state[place(state, name) as int].name == name,
    decreases state.len(),
{
    if state.len() > 0 && state.first().name != name {
        let rest = state.drop_first();
        lemma_place(rest, name);
        if knows(rest, name) {
            let i = choose|i: int| 0 <= i < rest.len() && (#[trigger] rest[i]).name == name;
            assert(state[i + 1].name == name);
        }
        if knows(state, name) {
            let i = choose|i: int| 0 <= i < state.len() && (#[trigger] state[i]).name == name;
            assert(rest[i - 1].name == name);
        }
    }
}

/// A sink that is watched: a real one, or our combined sink.
pub open spec fn watched(sink: SinkView) -> bool {
    !ours(sink.name) || sink.name == COMBINED_SINK@
}

/// The entries with one more sink; of two sinks of one name the later counts.
pub open spec fn noted(state: Seq<EntryView>, sink: SinkView) -> Seq<EntryView> {
    let entry = EntryView {
        name: sink.name,
        level: Level { volume: sink.volume, muted: sink.muted },
    };
    if !watched(sink) {
        state
    } else if knows(state, sink.name) {
        state.update(place(state, sink.name) as int, entry)
    } else {
        state.push(entry)
    }
}

/// The entries of the watched sinks.
pub open spec fn entries(sinks: Seq<SinkView>) -> Seq<EntryView>
    decreases sinks.len(),
{
    if sinks.len() == 0 {
        Seq::empty()
    } else {
        noted(entries(sinks.drop_last()), sinks.last())
    }
}

/// A snapshot has one entry for each name among the watched sinks.
pub proof fn lemma_entries_are_the_watched_sinks(sinks: Seq<SinkView>)
    ensures
        distinct(entries(sinks)),
        forall|name: Seq<char>| #[trigger]
            knows(entries(sinks), name) <==> exists|i: int|
                0 <= i < sinks.len() && watched(#[trigger] sinks[i]) && sinks[i].name == name,
    decreases sinks.len(),
{
    if sinks.len() > 0 {
        let before = sinks.drop_last();
        let last = sinks.last();
        lemma_entries_are_the_watched_sinks(before);
        let state = entries(before);
        let next = entries(sinks);
        lemma_place(state, last.name);
        assert forall|name: Seq<char>| #[trigger] knows(next, name) <==> exists|i: int|
            0 <= i < sinks.len() && watched(#[trigger] sinks[i]) && sinks[i].name == name by {
            if knows(next, name) {
                let k = choose|k: int| 0 <= k < next.len() && (#[trigger] next[k]).name == name;
                if watched(last) && name == last.name {
                    assert(watched(sinks[sinks.len() - 1]));
                } else {
                    assert(state[k].name == name);
                    assert(knows(state, name));
                    let i = choose|i: int|
                        0 <= i < before.len() && watched(#[trigger] before[i]) && before[i].name
                            == name;
                    assert(watched(sinks[i]));
                }
            }
            if exists|i: int|
                0 <= i < sinks.len() && watched(#[trigger] sinks[i]) && sinks[i].name == name {
                let i = choose|i: int|
                    0 <= i < sinks.len() && watched(#[trigger] sinks[i]) && sinks[i].name == name;
                if i < before.len() {
                    assert(watched(before[i]));
                    assert(knows(state, name));
                    let k = choose|k: int|
                        0 <= k < state.len() && (#[trigger] state[k]).name == name;
                    assert(next[k].name == name);
                } else if knows(state, last.name) {
                    assert(next[place(state, last.name) as int].name == name);
                } else {
                    assert(next[next.len() - 1].name == name);
                }
            }
        }
    }
}

fn find_entry(state: &Vec<Entry>, name: &str) -> (r: Option<usize>)
    ensures
        match r {
            Some(i) => i < state.len() && i == place(state.deep_view(), name@) && knows(
                state.deep_view(),
                name@,
            ),
            None => !knows(state.deep_view(), name@),
        },
{
    let ghost model = state.deep_view();
    let mut i: usize = 0;
    assert(model.skip(0) =~= model);
    proof {
        lemma_place(model, name@);
    }
    while i < state.len()
        invariant
            i <= state.len(),
            model == state.deep_view(),
            place(model, name@) == i + place(model.skip(i as int), name@),
            place(model, name@) < model.len() <==> knows(model, name@),
        decreases state.len() - i,
    {
        assert(model.skip(i as int).first() == state[i as int].deep_view());
        assert(model.skip(i as int).drop_first() =~= model.skip(i + 1));
        if same(state[i].name.as_str(), name) {
            return Some(i);
        }
        i += 1;
    }
    None
}

/// The snapshot of some sinks; a default sink that the server did not tell is
/// taken as nameless.
pub fn take_snapshot(sinks: &Vec<Sink>, default_sink: Option<String>) -> (r: Snapshot)
    ensures
        r.deep_view().state == entries(sinks.deep_view()),
        r.deep_view().default_sink == (match default_sink.deep_view() {
            Some(name) => name,
            None => Seq::empty(),
        }),
{
    let ghost model = sinks.deep_view();
    let mut state: Vec<Entry> = Vec::new();
    let mut i: usize = 0;
    assert(state.deep_view() =~= entries(model.take(0)));
    while i < sinks.len()
        invariant
            i <= sinks.len(),
            model == sinks.deep_view(),
            state.deep_view() == entries(model.take(i as int)),
        decreases sinks.len() - i,
    {
        let s = &sinks[i];
        let ghost before = state.deep_view();
        assert(model.take(i + 1).drop_last() =~= model.take(i as int));
        assert(model.take(i + 1).last() == s.deep_view());
        if !is_ours(s.name.as_str()) || same(s.name.as_str(), COMBINED_SINK) {
            let level = Level { volume: s.volume, muted: s.muted };
            let entry = Entry { name: s.name.clone(), level };
            let ghost seen = entry.deep_view();
            match find_entry(&state, s.name.as_str()) {
                Some(at) => {
                    state.set(at, entry);
                    assert(state.deep_view() =~= before.update(at as int, seen));
                },
                None => {
                    state.push(entry);
                    assert(state.deep_view() =~= before.push(seen));
                },
            }
        }
        i += 1;
    }
    assert(model.take(i as int) =~= model);
    let default_sink = match default_sink {
        Some(name) => name,
        None => {
            proof {
                reveal_strlit("");
                assert(""@ =~= Seq::empty());
            }
            "".to_owned()
        },
    };
    Snapshot { state, default_sink }
}

// ---------------------------------------------------------------------------
// Differences
// ---------------------------------------------------------------------------

/// Other sinks are there than before, or another one is the default.
pub open spec fn rearranged(before: SnapshotView, now: SnapshotView) -> bool {
    ||| before.state.len() != now.state.len()
    ||| exists|i: int|
        0 <= i < before.state.len() && !knows(now.state, (#[trigger] before.state[i]).name)
    ||| before.default_sink != now.default_sink
}

/// The level that a name had before.
pub open spec fn level_before(before: SnapshotView, name: Seq<char>) -> Level {
    before.state[place(before.state, name) as int].level
}

/// The events of one entry; `moved` says that its volume is audibly another.
pub open spec fn entry_events(before: SnapshotView, entry: EntryView, moved: bool) -> Seq<
    EventView,
> {
    if !knows(before.state, entry.name) {
        Seq::empty()
    } else {
        (if moved {
            seq![EventView::VolumeChanged { id: entry.name, volume: entry.level.volume }]
        } else {
            Seq::empty()
        }) + (if entry.level.muted != level_before(before, entry.name).muted {
            seq![EventView::MuteChanged { id: entry.name, muted: entry.level.muted }]
        } else {
            Seq::empty()
        })
    }
}

/// The events of the first `n` entries.
pub open spec fn level_events(
    before: SnapshotView,
    now: SnapshotView,
    moved: Seq<bool>,
    n: nat,
) -> Seq<EventView>
    decreases n,
{
    if n == 0 {
        Seq::empty()
    } else {
        level_events(before, now, moved, (n - 1) as nat) + entry_events(
            before,
            now.state[n - 1],
            moved[n - 1],
        )
    }
}

/// The events that tell the difference between two snapshots. When the sinks
/// or the default changed one coarse event tells all, since everything is then
/// listed again.
pub open spec fn difference(before: SnapshotView, now: SnapshotView, moved: Seq<bool>) -> Seq<
    EventView,
> {
    if rearranged(before, now) {
        seq![EventView::DevicesChanged]
    } else {
        level_events(before, now, moved, now.state.len())
    }
}

/// The volumes that an entry had before and has now.
#[derive(Debug, Clone, Copy, PartialEq, Eq, Structural)]
pub struct Shift {
    pub before: Volume,
    pub now: Volume,
}

/// For each entry of `now` its volume before and now; both are the same for a
/// name that was not there.
pub fn volume_shifts(before: &Snapshot, now: &Snapshot) -> (r: Vec<Shift>)
    ensures
        r.len() == now.state.len(),
        forall|i: int|
            0 <= i < r.len() ==> {
                let entry = now.deep_view().state[i];
                &&& (#[trigger] r[i]).now == entry.level.volume
                &&& r[i].before == if knows(before.deep_view().state, entry.name) {
                    level_before(before.deep_view(), entry.name).volume
                } else {
                    entry.level.volume
                }
            },
{
    let ghost then = before.deep_view().state;
    let ghost model = now.deep_view().state;
    let mut r: Vec<Shift> = Vec::new();
    let mut i: usize = 0;
    while i < now.state.len()
        invariant
            i <= now.state.len(),
            r.len() == i,
            then == before.deep_view().state,
            model == now.deep_view().state,
            forall|j: int|
                0 <= j < i ==> {
                    let entry = model[j];
                    &&& (#[trigger] r[j]).now == entry.level.volume
                    &&& r[j].before == if knows(then, entry.name) {
                        level_before(before.deep_view(), entry.name).volume
                    } else {
                        entry.level.volume
                    }
                },
        decreases now.state.len() - i,
    {
        let entry = &now.state[i];
        assert(model[i as int] == entry.deep_view());
        let volume = match find_entry(&before.state, entry.name.as_str()) {
            Some(at) => {
                assert(then[at as int] == before.state[at as int].deep_view());
                before.state[at].level.volume
            },
            None => entry.level.volume,
        };
        r.push(Shift { before: volume, now: entry.level.volume });
        i += 1;
    }
    r
}

fn is_rearranged(before: &Snapshot, now: &Snapshot) -> (r: bool)
    ensures
        r == rearranged(before.deep_view(), now.deep_view()),
{
    if before.state.len() != now.state.len() {
        return true;
    }
    let ghost then = before.deep_view().state;
    let mut i: usize = 0;
    while i < before.state.len()
        invariant
            i <= before.state.len(),
            then == before.deep_view().state,
            forall|j: int|
                0 <= j < i ==> knows(now.deep_view().state, (#[trigger] then[j]).name),
        decreases before.state.len() - i,
    {
        assert(then[i as int] == before.state[i as int].deep_view());
        if find_entry(&now.state, before.state[i].name.as_str()).is_none() {
            return true;
        }
        i += 1;
    }
    !same(before.default_sink.as_str(), now.default_sink.as_str())
}

/// The events that tell the difference between two snapshots. `moved` says, in
/// the order of [`volume_shifts`], which volumes are audibly others.
pub fn send_diff(before: &Snapshot, now: &Snapshot, moved: &Vec<bool>) -> (events: Vec<
    BackendEvent,
>)
    requires
        moved.len() == now.state.len(),
    ensures
        events.deep_view() == difference(before.deep_view(), now.deep_view(), moved@),
{
    let mut events: Vec<BackendEvent> = Vec::new();
    if is_rearranged(before, now) {
        events.push(BackendEvent::DevicesChanged);
        assert(events.deep_view() =~= seq![EventView::DevicesChanged]);
        return events;
    }
    let ghost old_view = before.deep_view();
    let ghost new_view = now.deep_view();
    let mut i: usize = 0;
    assert(events.deep_view() =~= Seq::empty());
    while i < now.state.len()
        invariant
            i <= now.state.len(),
            moved.len() == now.state.len(),
            old_view == before.deep_view(),
            new_view == now.deep_view(),
            events.deep_view() == level_events(old_view, new_view, moved@, i as nat),
        decreases now.state.len() - i,
    {
        let entry = &now.state[i];
        assert(new_view.state[i as int] == entry.deep_view());
        let ghost start = events.deep_view();
        if let Some(at) = find_entry(&before.state, entry.name.as_str()) {
            assert(old_view.state[at as int] == before.state[at as int].deep_view());
            if moved[i] {
                let event = BackendEvent::VolumeChanged {
                    id: entry.name.clone(),
                    volume: entry.level.volume,
                };
                let ghost told = event.deep_view();
                events.push(event);
                assert(events.deep_view() =~= start.push(told));
            }
            let ghost middle = events.deep_view();
            if entry.level.muted != before.state[at].level.muted {
                let event = BackendEvent::MuteChanged {
                    id: entry.name.clone(),
                    muted: entry.level.muted,
                };
                let ghost told = event.deep_view();
                events.push(event);
                assert(events.deep_view() =~= middle.push(told));
            }
        }
        assert(events.deep_view() =~= start + entry_events(
            old_view,
            new_view.state[i as int],
            moved@[i as int],
        ));
        i += 1;
    }
    events
}

/// Two looks at the same sinks with the same default tell nothing, if no volume
/// moved.
pub proof fn lemma_no_difference_no_events(snapshot: SnapshotView, moved: Seq<bool>)
    requires
        distinct(snapshot.state),
        moved.len() == snapshot.state.len(),
        forall|i: int| 0 <= i < moved.len() ==> !#[trigger] moved[i],
    ensures
        difference(snapshot, snapshot, moved) == Seq::<EventView>::empty(),
{
    lemma_no_level_events(snapshot, moved, snapshot.state.len());
}

proof fn lemma_no_level_events(snapshot: SnapshotView, moved: Seq<bool>, n: nat)
    requires
        distinct(snapshot.state),
        n <= snapshot.state.len(),
        moved.len() == snapshot.state.len(),
        forall|i: int| 0 <= i < moved.len() ==> !#[trigger] moved[i],
    ensures
        level_events(snapshot, snapshot, moved, n) == Seq::<EventView>::empty(),
    decreases n,
{
    if n > 0 {
        lemma_no_level_events(snapshot, moved, (n - 1) as nat);
        let entry = snapshot.state[n - 1];
        lemma_place(snapshot.state, entry.name);
        assert(knows(snapshot.state, entry.name));
        assert(place(snapshot.state, entry.name) == n - 1);
        assert(!moved[n - 1]);
    }
}

// ---------------------------------------------------------------------------
// The monitor
// ---------------------------------------------------------------------------

/// What the monitor saw last; nothing before the first listing that worked.
#[derive(Debug)]
pub struct Monitor {
    pub snapshot: Option<Snapshot>,
}

/// The events of a new look at the sinks. The first look tells that devices
/// changed; a look that failed, as it may while a device is plugged in, tells
/// nothing.
pub open spec fn observed(
    last: Option<SnapshotView>,
    now: Option<SnapshotView>,
    moved: Seq<bool>,
) -> Seq<EventView> {
    match (last, now) {
        (_, None) => Seq::empty(),
        (None, Some(_)) => seq![EventView::DevicesChanged],
        (Some(before), Some(now)) => difference(before, now, moved),
    }
}

impl Monitor {
    /// Takes a new look at the sinks, or none if it failed, and gives the
    /// events. A look that failed keeps the last one.
    pub fn observe(&mut self, now: Option<Snapshot>, moved: &Vec<bool>) -> (events: Vec<
        BackendEvent,
    >)
        requires
            now matches Some(snapshot) ==> old(self).snapshot is Some ==> moved.len()
                == snapshot.state.len(),
        ensures
            events.deep_view() == observed(
                old(self).snapshot.deep_view(),
                now.deep_view(),
                moved@,
            ),
            final(self).snapshot.deep_view() == (match now.deep_view() {
                Some(snapshot) => Some(snapshot),
                None => old(self).snapshot.deep_view(),
            }),
    {
        match now {
            None => {
                let events: Vec<BackendEvent> = Vec::new();
                assert(events.deep_view() =~= Seq::empty());
                events
            },
            Some(now) => {
                let events = match &self.snapshot {
                    Some(before) => send_diff(before, &now, moved),
                    None => {
                        let mut events: Vec<BackendEvent> = Vec::new();
                        events.push(BackendEvent::DevicesChanged);
                        assert(events.deep_view() =~= seq![EventView::DevicesChanged]);
                        events
                    },
                };
                self.snapshot = Some(now);
                events
            },
        }
    }
}

} // verus!
