//! What a snapshot holds, and what the events between two snapshots tell.

use vstd::prelude::*;
use crate::device::EventView;
use crate::linux::modules::ours;
use crate::linux::monitor::{
    difference, distinct, entries, entry_events, knows, lemma_entries_are_the_watched_sinks,
    lemma_place, level_before, level_events, observed, place, rearranged, watched, EntryView,
    SnapshotView,
};
use crate::linux::sinks::SinkView;
use crate::seq_laws::lemma_same_items;
use crate::volume::Level;

verus! {

// ---------------------------------------------------------------------------
// Snapshots
// ---------------------------------------------------------------------------

/// The last sink of a name counts: a snapshot has an entry with that name, its
/// volume and its mute. The sinks of this app are left out, but for the combined
/// one.
pub proof fn lemma_a_snapshot_has_the_last_levels(sinks: Seq<SinkView>, i: int)
    requires
        0 <= i < sinks.len(),
        !"sound_multiplexer"@.is_prefix_of(sinks[i].name) || sinks[i].name
            == "sound_multiplexer_combined"@,
        forall|j: int| i < j < sinks.len() ==> (#[trigger] sinks[j]).name != sinks[i].name,
    ensures
        exists|k: int|
            0 <= k < entries(sinks).len() && #[trigger] entries(sinks)[k] == (EntryView {
                name: sinks[i].name,
                level: Level { volume: sinks[i].volume, muted: sinks[i].muted },
            }),
    decreases sinks.len(),
{
    let before = sinks.drop_last();
    let last = sinks.last();
    let state = entries(before);
    let all = entries(sinks);
    lemma_place(state, last.name);
    if i < before.len() {
        assert forall|j: int| i < j < before.len() implies (#[trigger] before[j]).name
            != before[i].name by {
            assert(before[j] == sinks[j]);
        }
        lemma_a_snapshot_has_the_last_levels(before, i);
        let k = choose|k: int|
            0 <= k < state.len() && #[trigger] state[k] == (EntryView {
                name: before[i].name,
                level: Level { volume: before[i].volume, muted: before[i].muted },
            });
        assert(sinks[sinks.len() - 1].name != sinks[i].name);
        assert(all[k] == state[k]);
    } else if knows(state, last.name) {
        assert(all[place(state, last.name) as int].name == last.name);
    } else {
        assert(all[all.len() - 1].name == last.name);
    }
}

/// A snapshot has one entry for each name among the sinks that are none of this
/// app's, and for the combined sink; and no other.
pub proof fn lemma_a_snapshot_has_each_watched_name_once(sinks: Seq<SinkView>)
    ensures
        forall|i: int, j: int|
            0 <= i < j < entries(sinks).len() ==> (#[trigger] entries(sinks)[i]).name != (
            #[trigger] entries(sinks)[j]).name,
        forall|k: int|
            0 <= k < entries(sinks).len() ==> exists|i: int|
                #![trigger sinks[i]]
                0 <= i < sinks.len() && sinks[i].name == (#[trigger] entries(sinks)[k]).name && (
                !"sound_multiplexer"@.is_prefix_of(sinks[i].name) || sinks[i].name
                    == "sound_multiplexer_combined"@),
        forall|i: int|
            0 <= i < sinks.len() && (!"sound_multiplexer"@.is_prefix_of(
                (#[trigger] sinks[i]).name,
            ) || sinks[i].name == "sound_multiplexer_combined"@) ==> exists|k: int|
                #![trigger entries(sinks)[k]]
                0 <= k < entries(sinks).len() && entries(sinks)[k].name == sinks[i].name,
{
    lemma_entries_are_the_watched_sinks(sinks);
    let all = entries(sinks);
    assert forall|k: int| 0 <= k < all.len() implies exists|i: int|
        #![trigger sinks[i]]
        0 <= i < sinks.len() && sinks[i].name == (#[trigger] all[k]).name && (
        !"sound_multiplexer"@.is_prefix_of(sinks[i].name) || sinks[i].name
            == "sound_multiplexer_combined"@) by {
        assert(knows(all, all[k].name));
        let i = choose|i: int|
            0 <= i < sinks.len() && watched(#[trigger] sinks[i]) && sinks[i].name == all[k].name;
        assert(sinks[i].name == all[k].name);
    }
    assert forall|i: int|
        0 <= i < sinks.len() && (!"sound_multiplexer"@.is_prefix_of((#[trigger] sinks[i]).name)
            || sinks[i].name == "sound_multiplexer_combined"@) implies exists|k: int|
        #![trigger all[k]]
        0 <= k < all.len() && all[k].name == sinks[i].name by {
        assert(watched(sinks[i]));
        assert(knows(all, sinks[i].name));
    }
}

// ---------------------------------------------------------------------------
// Differences
// ---------------------------------------------------------------------------

/// Some entry has this name.
pub open spec fn has_entry(state: Seq<EntryView>, name: Seq<char>) -> bool {
    exists|i: int| 0 <= i < state.len() && (#[trigger] state[i]).name == name
}

/// Both snapshots have one entry for each name, the same names and the same
/// default sink.
pub open spec fn alike(before: SnapshotView, now: SnapshotView) -> bool {
    &&& forall|i: int, j: int|
        0 <= i < j < before.state.len() ==> (#[trigger] before.state[i]).name != (
        #[trigger] before.state[j]).name
    &&& forall|i: int, j: int|
        0 <= i < j < now.state.len() ==> (#[trigger] now.state[i]).name != (
        #[trigger] now.state[j]).name
    &&& forall|name: Seq<char>| #[trigger]
        has_entry(before.state, name) <==> has_entry(now.state, name)
    &&& before.default_sink == now.default_sink
}

spec fn names_of(state: Seq<EntryView>) -> Seq<Seq<char>> {
    state.map_values(|e: EntryView| e.name)
}

proof fn lemma_names_of(state: Seq<EntryView>)
    requires
        distinct(state),
    ensures
        names_of(state).no_duplicates(),
        forall|name: Seq<char>| #[trigger] names_of(state).contains(name) <==> has_entry(state, name),
{
    let names = names_of(state);
    assert forall|name: Seq<char>| #[trigger] names.contains(name) <==> has_entry(state, name) by {
        if names.contains(name) {
            let i = choose|i: int| 0 <= i < names.len() && names[i] == name;
            assert(state[i].name == name);
        }
        if has_entry(state, name) {
            let i = choose|i: int| 0 <= i < state.len() && (#[trigger] state[i]).name == name;
            assert(names[i] == name);
        }
    }
}

proof fn lemma_alike(before: SnapshotView, now: SnapshotView)
    requires
        distinct(before.state),
        distinct(now.state),
    ensures
        alike(before, now) <==> !rearranged(before, now),
{
    lemma_names_of(before.state);
    lemma_names_of(now.state);
    let a = names_of(before.state);
    let b = names_of(now.state);
    lemma_same_items(a, b);
    assert forall|name: Seq<char>| knows(now.state, name) <==> has_entry(now.state, name) by {}
    if alike(before, now) {
        assert forall|x: Seq<char>| a.contains(x) <==> b.contains(x) by {
            assert(has_entry(before.state, x) <==> has_entry(now.state, x));
        }
        assert forall|i: int| 0 <= i < before.state.len() implies knows(
            now.state,
            (#[trigger] before.state[i]).name,
        ) by {
            assert(b.contains(a[i]));
        }
    }
    if !rearranged(before, now) {
        assert forall|i: int| 0 <= i < a.len() implies b.contains(#[trigger] a[i]) by {
            assert(knows(now.state, before.state[i].name));
        }
        assert forall|name: Seq<char>| #[trigger]
            has_entry(before.state, name) <==> has_entry(now.state, name) by {
            assert(a.contains(name) <==> b.contains(name));
        }
    }
}

/// When other sinks are there than before, or another one is the default, one
/// event tells all; and it is told then only.
pub proof fn lemma_a_rearrangement_is_told_as_one(
    before: SnapshotView,
    now: SnapshotView,
    moved: Seq<bool>,
)
    requires
        distinct(before.state),
        distinct(now.state),
        moved.len() == now.state.len(),
    ensures
        !alike(before, now) ==> difference(before, now, moved) == seq![EventView::DevicesChanged],
        alike(before, now) ==> !difference(before, now, moved).contains(EventView::DevicesChanged),
{
    lemma_alike(before, now);
    if alike(before, now) {
        let all = difference(before, now, moved);
        if all.contains(EventView::DevicesChanged) {
            let k = choose|k: int| 0 <= k < all.len() && all[k] == EventView::DevicesChanged;
            lemma_told_of(before, now, moved, now.state.len(), k);
        }
    }
}

/// The level that a name had before is that of its entry, and a snapshot knows a
/// name exactly if an entry has it.
pub proof fn lemma_level_of(before: SnapshotView, name: Seq<char>, j: int)
    requires
        distinct(before.state),
        0 <= j < before.state.len(),
        before.state[j].name == name,
    ensures
        knows(before.state, name),
        level_before(before, name) == before.state[j].level,
        forall|other: Seq<char>| #[trigger]
            knows(before.state, other) <==> has_entry(before.state, other),
{
    lemma_place(before.state, name);
    assert(knows(before.state, name));
    let p = place(before.state, name) as int;
    assert(before.state[p].name == name);
    if p < j {
        assert(before.state[p].name != before.state[j].name);
    }
    if j < p {
        assert(before.state[j].name != before.state[p].name);
    }
}

/// Each event of the first entries tells of one of them.
proof fn lemma_told_of(
    before: SnapshotView,
    now: SnapshotView,
    moved: Seq<bool>,
    n: nat,
    k: int,
)
    requires
        n <= now.state.len(),
        0 <= k < level_events(before, now, moved, n).len(),
    ensures
        exists|i: int|
            #![trigger now.state[i]]
            0 <= i < n && knows(before.state, now.state[i].name) && ((moved[i]
                && level_events(before, now, moved, n)[k] == (EventView::VolumeChanged {
                id: now.state[i].name,
                volume: now.state[i].level.volume,
            })) || (now.state[i].level.muted != level_before(before, now.state[i].name).muted
                && level_events(before, now, moved, n)[k] == (EventView::MuteChanged {
                id: now.state[i].name,
                muted: now.state[i].level.muted,
            }))),
    decreases n,
{
    let m = (n - 1) as nat;
    let first = level_events(before, now, moved, m);
    let all = level_events(before, now, moved, n);
    if k < first.len() {
        lemma_told_of(before, now, moved, m, k);
        assert(all[k] == first[k]);
    } else {
        let own = entry_events(before, now.state[m as int], moved[m as int]);
        assert(all[k] == own[k - first.len()]);
        assert(knows(before.state, now.state[m as int].name));
    }
}

/// What one of the first entries has to tell is among the events of them.
proof fn lemma_is_told(
    before: SnapshotView,
    now: SnapshotView,
    moved: Seq<bool>,
    n: nat,
    i: int,
)
    requires
        0 <= i < n <= now.state.len(),
        knows(before.state, now.state[i].name),
    ensures
        moved[i] ==> level_events(before, now, moved, n).contains(
            EventView::VolumeChanged {
                id: now.state[i].name,
                volume: now.state[i].level.volume,
            },
        ),
        now.state[i].level.muted != level_before(before, now.state[i].name).muted
            ==> level_events(before, now, moved, n).contains(
            EventView::MuteChanged { id: now.state[i].name, muted: now.state[i].level.muted },
        ),
    decreases n,
{
    let m = (n - 1) as nat;
    let first = level_events(before, now, moved, m);
    let all = level_events(before, now, moved, n);
    let volume = EventView::VolumeChanged {
        id: now.state[i].name,
        volume: now.state[i].level.volume,
    };
    let mute = EventView::MuteChanged {
        id: now.state[i].name,
        muted: now.state[i].level.muted,
    };
    if i < m {
        lemma_is_told(before, now, moved, m, i);
        if first.contains(volume) {
            let k = choose|k: int| 0 <= k < first.len() && first[k] == volume;
            assert(all[k] == volume);
        }
        if first.contains(mute) {
            let k = choose|k: int| 0 <= k < first.len() && first[k] == mute;
            assert(all[k] == mute);
        }
    } else {
        if moved[i] {
            assert(all[first.len() as int] == volume);
        }
        if now.state[i].level.muted != level_before(before, now.state[i].name).muted {
            assert(all[all.len() - 1] == mute);
        }
    }
}

/// Between two looks at the same sinks with the same default, an entry whose
/// volume moved is told with its new volume, whichever way it moved, and an
/// entry whose mute is another than before is told with its new mute; and
/// nothing is told of an entry of which neither holds.
pub proof fn lemma_every_level_that_changed_is_told(
    before: SnapshotView,
    now: SnapshotView,
    moved: Seq<bool>,
    i: int,
    j: int,
)
    requires
        alike(before, now),
        moved.len() == now.state.len(),
        0 <= i < now.state.len(),
        0 <= j < before.state.len(),
        before.state[j].name == now.state[i].name,
    ensures
        difference(before, now, moved).contains(
            EventView::VolumeChanged {
                id: now.state[i].name,
                volume: now.state[i].level.volume,
            },
        ) <==> moved[i],
        difference(before, now, moved).contains(
            EventView::MuteChanged { id: now.state[i].name, muted: now.state[i].level.muted },
        ) <==> now.state[i].level.muted != before.state[j].level.muted,
{
    lemma_alike(before, now);
    let name = now.state[i].name;
    lemma_level_of(before, name, j);
    lemma_is_told(before, now, moved, now.state.len(), i);
    let all = difference(before, now, moved);
    let volume = EventView::VolumeChanged { id: name, volume: now.state[i].level.volume };
    let mute = EventView::MuteChanged { id: name, muted: now.state[i].level.muted };
    if all.contains(volume) {
        let k = choose|k: int| 0 <= k < all.len() && all[k] == volume;
        lemma_told_of(before, now, moved, now.state.len(), k);
    }
    if all.contains(mute) {
        let k = choose|k: int| 0 <= k < all.len() && all[k] == mute;
        lemma_told_of(before, now, moved, now.state.len(), k);
    }
}

/// Between two looks at the same sinks with the same default, every event tells
/// the new volume or the new mute of an entry.
pub proof fn lemma_only_new_levels_are_told(
    before: SnapshotView,
    now: SnapshotView,
    moved: Seq<bool>,
    k: int,
)
    requires
        alike(before, now),
        moved.len() == now.state.len(),
        0 <= k < difference(before, now, moved).len(),
    ensures
        exists|i: int|
            #![trigger now.state[i]]
            0 <= i < now.state.len() && (difference(before, now, moved)[k] == (
            EventView::VolumeChanged {
                id: now.state[i].name,
                volume: now.state[i].level.volume,
            }) || difference(before, now, moved)[k] == (EventView::MuteChanged {
                id: now.state[i].name,
                muted: now.state[i].level.muted,
            })),
{
    lemma_alike(before, now);
    lemma_told_of(before, now, moved, now.state.len(), k);
}

proof fn lemma_told_once(
    before: SnapshotView,
    now: SnapshotView,
    moved: Seq<bool>,
    n: nat,
)
    requires
        distinct(now.state),
        n <= now.state.len(),
    ensures
        level_events(before, now, moved, n).no_duplicates(),
    decreases n,
{
    if n > 0 {
        let m = (n - 1) as nat;
        lemma_told_once(before, now, moved, m);
        let first = level_events(before, now, moved, m);
        let own = entry_events(before, now.state[m as int], moved[m as int]);
        let all = level_events(before, now, moved, n);
        assert forall|a: int, b: int| 0 <= a < b < all.len() implies all[a] != all[b] by {
            if b >= first.len() {
                assert(all[b] == own[b - first.len()]);
                if a < first.len() {
                    lemma_told_of(before, now, moved, m, a);
                    let i = choose|i: int|
                        #![trigger now.state[i]]
                        0 <= i < m && knows(before.state, now.state[i].name) && ((moved[i]
                            && first[a] == (EventView::VolumeChanged {
                            id: now.state[i].name,
                            volume: now.state[i].level.volume,
                        })) || (now.state[i].level.muted != level_before(
                            before,
                            now.state[i].name,
                        ).muted && first[a] == (EventView::MuteChanged {
                            id: now.state[i].name,
                            muted: now.state[i].level.muted,
                        })));
                    assert(now.state[i].name != now.state[m as int].name);
                    assert(all[a] == first[a]);
                } else {
                    assert(all[a] == own[a - first.len()]);
                }
            } else {
                assert(all[a] == first[a] && all[b] == first[b]);
            }
        }
    }
}

/// Nothing is told twice between two looks.
pub proof fn lemma_nothing_is_told_twice(
    before: SnapshotView,
    now: SnapshotView,
    moved: Seq<bool>,
)
    requires
        distinct(now.state),
    ensures
        difference(before, now, moved).no_duplicates(),
{
    lemma_told_once(before, now, moved, now.state.len());
}

/// The first look tells that devices changed, a failed look tells nothing, and
/// any other look tells the difference from the last one that worked.
pub proof fn lemma_what_a_look_tells(
    last: Option<SnapshotView>,
    now: SnapshotView,
    moved: Seq<bool>,
)
    ensures
        observed(last, None, moved) == Seq::<EventView>::empty(),
        observed(None, Some(now), moved) == seq![EventView::DevicesChanged],
        last matches Some(before) ==> observed(last, Some(now), moved) == difference(
            before,
            now,
            moved,
        ),
{
}

/// A sink is left out of the snapshots exactly if its name begins as those of
/// this app's sinks do and is not that of the combined sink.
pub proof fn lemma_which_sinks_are_watched(sink: SinkView)
    ensures
        !watched(sink) <==> "sound_multiplexer"@.is_prefix_of(sink.name) && sink.name
            != "sound_multiplexer_combined"@,
        ours(sink.name) <==> "sound_multiplexer"@.is_prefix_of(sink.name),
{
}

} // verus!
