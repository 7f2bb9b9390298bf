//! Output devices, the events that report their changes, and the enabled set
//! that a toggle leads to.

use vstd::prelude::*;
use crate::seq_laws::lemma_filter_keeps_the_order;
use crate::text::same;
use crate::volume::Volume;

verus! {

/// Coarse device category, inferred from platform metadata by keyword and
/// form-factor heuristics. Bluetooth (transport) beats Headphones (form
/// factor) beats Usb (transport).
#[derive(Debug, Clone, Copy, PartialEq, Eq, Structural)]
pub enum DeviceType {
    /// Fallback when nothing more specific matches.
    Speakers,
    /// Wired headphones or headsets, by form factor or name.
    Headphones,
    /// Any Bluetooth output, including headphones; the transport wins.
    Bluetooth,
    /// HDMI or DisplayPort audio.
    Hdmi,
    /// USB audio not classified as anything more specific.
    Usb,
    /// S/PDIF, IEC958 or other digital output.
    Digital,
    /// The app's own combined output, shown as a "Master volume" row while
    /// two or more devices are enabled. Never part of an enabled set.
    Master,
}

/// One audio output as the app and the user interface see it.
#[derive(Debug, PartialEq)]
pub struct Device {
    /// Stable platform identifier (a sink name or an endpoint id).
    pub id: String,
    /// Human-readable name.
    pub name: String,
    /// Coarse category.
    pub device_type: DeviceType,
    /// Audio plays on this device.
    pub enabled: bool,
    /// Between 0.0 and 1.0.
    pub volume: Volume,
    /// The device's own mute switch.
    pub muted: bool,
}

/// What a [`Device`] says, in terms of text.
pub struct DeviceView {
    pub id: Seq<char>,
    pub name: Seq<char>,
    pub device_type: DeviceType,
    pub enabled: bool,
    pub volume: Volume,
    pub muted: bool,
}

impl DeepView for Device {
    type V = DeviceView;

    open spec fn deep_view(&self) -> DeviceView {
        DeviceView {
            id: self.id@,
            name: self.name@,
            device_type: self.device_type,
            enabled: self.enabled,
            volume: self.volume,
            muted: self.muted,
        }
    }
}

impl Clone for Device {
    fn clone(&self) -> (r: Self)
        ensures
            r.deep_view() == self.deep_view(),
    {
        Device {
            id: self.id.clone(),
            name: self.name.clone(),
            device_type: self.device_type,
            enabled: self.enabled,
            volume: self.volume,
            muted: self.muted,
        }
    }
}

/// Notifications of a backend's monitor. On any of these the app lists the
/// devices again and pushes the full state.
#[derive(Debug, PartialEq)]
pub enum BackendEvent {
    /// A device came or went, or routing changed from outside.
    DevicesChanged,
    /// A device's volume changed outside the app.
    VolumeChanged { id: String, volume: Volume },
    /// A device's mute switch changed outside the app.
    MuteChanged { id: String, muted: bool },
    /// A problem worth showing to the user.
    Error(String),
}

/// What a [`BackendEvent`] says, in terms of text.
pub enum EventView {
    DevicesChanged,
    VolumeChanged { id: Seq<char>, volume: Volume },
    MuteChanged { id: Seq<char>, muted: bool },
    Error(Seq<char>),
}

impl DeepView for BackendEvent {
    type V = EventView;

    open spec fn deep_view(&self) -> EventView {
        match *self {
            BackendEvent::DevicesChanged => EventView::DevicesChanged,
            BackendEvent::VolumeChanged { id, volume } => EventView::VolumeChanged {
                id: id@,
                volume,
            },
            BackendEvent::MuteChanged { id, muted } => EventView::MuteChanged { id: id@, muted },
            BackendEvent::Error(message) => EventView::Error(message@),
        }
    }
}

impl BackendEvent {
    /// A copy of the event.
    pub fn copy(&self) -> (r: BackendEvent)
        ensures
            r.deep_view() == self.deep_view(),
    {
        match self {
            BackendEvent::DevicesChanged => BackendEvent::DevicesChanged,
            BackendEvent::VolumeChanged { id, volume } => BackendEvent::VolumeChanged {
                id: id.clone(),
                volume: *volume,
            },
            BackendEvent::MuteChanged { id, muted } => BackendEvent::MuteChanged {
                id: id.clone(),
                muted: *muted,
            },
            BackendEvent::Error(message) => BackendEvent::Error(message.clone()),
        }
    }
}

// ---------------------------------------------------------------------------
// Enabled sets
// ---------------------------------------------------------------------------

/// The ids of `rows`.
pub open spec fn row_ids(rows: Seq<DeviceView>) -> Seq<Seq<char>> {
    rows.map_values(|d: DeviceView| d.id)
}

/// `id` names a master row among `rows`.
pub open spec fn names_master(rows: Seq<DeviceView>, id: Seq<char>) -> bool {
    exists|i: int|
        0 <= i < rows.len() && (#[trigger] rows[i]).device_type == DeviceType::Master
            && rows[i].id == id
}

/// The rows that stay enabled when `id` is toggled: the enabled ones other
/// than `id`, the master row left out.
pub open spec fn still_enabled(rows: Seq<DeviceView>, id: Seq<char>) -> Seq<DeviceView> {
    rows.filter(
        |d: DeviceView| d.enabled && d.id != id && d.device_type != DeviceType::Master,
    )
}

/// The enabled set after toggling `id` to `enabled`.
pub open spec fn toggled(rows: Seq<DeviceView>, id: Seq<char>, enabled: bool) -> Seq<Seq<char>> {
    if enabled && !names_master(rows, id) {
        row_ids(still_enabled(rows, id)).push(id)
    } else {
        row_ids(still_enabled(rows, id))
    }
}

/// The ids of every device that can be enabled: all rows but the master row.
pub open spec fn routable(rows: Seq<DeviceView>) -> Seq<Seq<char>> {
    row_ids(rows.filter(|d: DeviceView| d.device_type != DeviceType::Master))
}

/// The enabled set that results from toggling `id` to `enabled`, the other
/// enabled devices in their order. The master row is never part of it.
pub fn compute_enabled_ids(devices: &[Device], id: &str, enabled: bool) -> (ids: Vec<String>)
    ensures
        ids.deep_view() == toggled(devices.deep_view(), id@, enabled),
{
    let mut ids: Vec<String> = Vec::new();
    let mut master: bool = false;
    let ghost rows = devices.deep_view();
    let ghost keep = |d: DeviceView| d.enabled && d.id != id@ && d.device_type != DeviceType::Master;
    let mut i: usize = 0;
    assert(rows.take(0).filter(keep) =~= Seq::empty()) by {
        reveal(Seq::filter);
    }
    assert(ids.deep_view() =~= row_ids(rows.take(0).filter(keep)));
    while i < devices.len()
        invariant
            i <= devices.len(),
            rows == devices.deep_view(),
            keep == (|d: DeviceView|
                d.enabled && d.id != id@ && d.device_type != DeviceType::Master),
            ids.deep_view() == row_ids(rows.take(i as int).filter(keep)),
            master == names_master(rows.take(i as int), id@),
        decreases devices.len() - i,
    {
        let d = &devices[i];
        let ghost before = ids.deep_view();
        proof {
            reveal(Seq::filter);
            assert(rows.take(i + 1).drop_last() =~= rows.take(i as int));
            assert(rows.take(i + 1).last() == d.deep_view());
        }
        let named = same(d.id.as_str(), id);
        let is_master = d.device_type == DeviceType::Master;
        if is_master && named {
            master = true;
            assert(rows.take(i + 1)[i as int].device_type == DeviceType::Master);
        }
        proof {
            let now = rows.take(i + 1);
            let then = rows.take(i as int);
            if names_master(then, id@) {
                let k = choose|k: int| 0 <= k < then.len() && (#[trigger] then[k]).device_type
                    == DeviceType::Master && then[k].id == id@;
                assert(now[k] == then[k]);
            }
            if names_master(now, id@) && !(is_master && named) {
                let k = choose|k: int| 0 <= k < now.len() && (#[trigger] now[k]).device_type
                    == DeviceType::Master && now[k].id == id@;
                assert(now[k] == then[k]);
            }
        }
        if d.enabled && !named && !is_master {
            ids.push(d.id.clone());
            assert(ids.deep_view() =~= before.push(d.id@));
            assert(row_ids(rows.take(i as int).filter(keep).push(d.deep_view())) =~= before.push(
                d.id@,
            ));
        }
        i += 1;
    }
    assert(rows.take(i as int) =~= rows);
    if enabled && !master {
        let ghost before = ids.deep_view();
        ids.push(id.to_owned());
        assert(ids.deep_view() =~= before.push(id@));
    }
    ids
}

/// The enabled set that plays on every device: all ids but the master row's.
pub fn all_device_ids(devices: &[Device]) -> (ids: Vec<String>)
    ensures
        ids.deep_view() == routable(devices.deep_view()),
{
    let mut ids: Vec<String> = Vec::new();
    let ghost rows = devices.deep_view();
    let ghost keep = |d: DeviceView| d.device_type != DeviceType::Master;
    let mut i: usize = 0;
    assert(rows.take(0).filter(keep) =~= Seq::empty()) by {
        reveal(Seq::filter);
    }
    assert(ids.deep_view() =~= row_ids(rows.take(0).filter(keep)));
    while i < devices.len()
        invariant
            i <= devices.len(),
            rows == devices.deep_view(),
            keep == (|d: DeviceView| d.device_type != DeviceType::Master),
            ids.deep_view() == row_ids(rows.take(i as int).filter(keep)),
        decreases devices.len() - i,
    {
        let d = &devices[i];
        let ghost before = ids.deep_view();
        proof {
            reveal(Seq::filter);
            assert(rows.take(i + 1).drop_last() =~= rows.take(i as int));
            assert(rows.take(i + 1).last() == d.deep_view());
        }
        if d.device_type != DeviceType::Master {
            ids.push(d.id.clone());
            assert(ids.deep_view() =~= before.push(d.id@));
            assert(row_ids(rows.take(i as int).filter(keep).push(d.deep_view())) =~= before.push(
                d.id@,
            ));
        }
        i += 1;
    }
    assert(rows.take(i as int) =~= rows);
    ids
}

// ---------------------------------------------------------------------------
// Laws
// ---------------------------------------------------------------------------

/// No two rows have the same id.
pub open spec fn distinct(rows: Seq<DeviceView>) -> bool {
    forall|i: int, j: int|
        0 <= i < j < rows.len() ==> (#[trigger] rows[i]).id != (#[trigger] rows[j]).id
}

/// `id` names a row that is enabled and is no master row.
pub open spec fn plays(rows: Seq<DeviceView>, id: Seq<char>) -> bool {
    exists|i: int|
        0 <= i < rows.len() && (#[trigger] rows[i]).id == id && rows[i].enabled
            && rows[i].device_type != DeviceType::Master
}

/// `id` names a row that is no master row.
pub open spec fn names_device(rows: Seq<DeviceView>, id: Seq<char>) -> bool {
    exists|i: int|
        0 <= i < rows.len() && (#[trigger] rows[i]).id == id && rows[i].device_type
            != DeviceType::Master
}

proof fn lemma_picked_ids(
    rows: Seq<DeviceView>,
    keep: spec_fn(DeviceView) -> bool,
    id: Seq<char>,
)
    ensures
        row_ids(rows.filter(keep)).contains(id) <==> exists|i: int|
            0 <= i < rows.len() && keep(#[trigger] rows[i]) && rows[i].id == id,
{
    let picked = rows.filter(keep);
    let ids = row_ids(picked);
    if ids.contains(id) {
        let k = choose|k: int| 0 <= k < ids.len() && ids[k] == id;
        rows.lemma_filter_pred(keep, k);
        rows.lemma_filter_contains_rev(keep, picked[k]);
        let i = choose|i: int| 0 <= i < rows.len() && rows[i] == picked[k];
        assert(keep(rows[i]) && rows[i].id == id);
    }
    if exists|i: int| 0 <= i < rows.len() && keep(#[trigger] rows[i]) && rows[i].id == id {
        let i = choose|i: int|
            0 <= i < rows.len() && keep(#[trigger] rows[i]) && rows[i].id == id;
        rows.lemma_filter_contains(keep, i);
        let k = choose|k: int| 0 <= k < picked.len() && picked[k] == rows[i];
        assert(ids[k] == id);
    }
}

proof fn lemma_picked_ids_are_distinct(rows: Seq<DeviceView>, keep: spec_fn(DeviceView) -> bool)
    requires
        distinct(rows),
    ensures
        row_ids(rows.filter(keep)).no_duplicates(),
    decreases rows.len(),
{
    reveal(Seq::filter);
    if rows.len() > 0 {
        let front = rows.drop_last();
        assert(forall|i: int| 0 <= i < front.len() ==> #[trigger] front[i] == rows[i]);
        lemma_picked_ids_are_distinct(front, keep);
        let before = row_ids(front.filter(keep));
        let last = rows.last();
        if keep(last) {
            lemma_picked_ids(front, keep, last.id);
            assert(!before.contains(last.id));
            let all = row_ids(rows.filter(keep));
            assert(all =~= before.push(last.id));
            assert forall|i: int, j: int| 0 <= i < j < all.len() implies all[i] != all[j] by {
                if j == before.len() {
                    assert(before.contains(before[i]));
                }
            }
        }
    }
}

/// Toggling a device changes that device alone: the set then holds it exactly
/// if it was switched on, holds every other device exactly if that played, and
/// holds each once. A master row is never in it.
pub proof fn lemma_toggling(rows: Seq<DeviceView>, id: Seq<char>, enabled: bool)
    ensures
        toggled(rows, id, enabled).contains(id) <==> enabled && !names_master(rows, id),
        forall|other: Seq<char>|
            other != id ==> (#[trigger] toggled(rows, id, enabled).contains(other) <==> plays(
                rows,
                other,
            )),
        distinct(rows) ==> toggled(rows, id, enabled).no_duplicates(),
        distinct(rows) ==> forall|master: Seq<char>|
            names_master(rows, master) ==> !#[trigger] toggled(rows, id, enabled).contains(master),
{
    let keep = |d: DeviceView| d.enabled && d.id != id && d.device_type != DeviceType::Master;
    let rest = row_ids(still_enabled(rows, id));
    let set = toggled(rows, id, enabled);
    lemma_picked_ids(rows, keep, id);
    assert(!rest.contains(id));
    if enabled && !names_master(rows, id) {
        assert(set.last() == id);
    }
    assert forall|other: Seq<char>| other != id implies (#[trigger] set.contains(other)
        <==> plays(rows, other)) by {
        lemma_picked_ids(rows, keep, other);
        if set.contains(other) {
            let k = choose|k: int| 0 <= k < set.len() && set[k] == other;
            assert(rest[k] == other);
            let i = choose|i: int|
                0 <= i < rows.len() && keep(#[trigger] rows[i]) && rows[i].id == other;
            assert(rows[i].enabled);
        }
        if plays(rows, other) {
            let i = choose|i: int|
                0 <= i < rows.len() && (#[trigger] rows[i]).id == other && rows[i].enabled
                    && rows[i].device_type != DeviceType::Master;
            assert(keep(rows[i]));
            let k = choose|k: int| 0 <= k < rest.len() && rest[k] == other;
            assert(set[k] == other);
        }
    }
    if distinct(rows) {
        lemma_picked_ids_are_distinct(rows, keep);
        if enabled && !names_master(rows, id) {
            assert forall|i: int, j: int| 0 <= i < j < set.len() implies set[i] != set[j] by {
                if j == rest.len() {
                    assert(rest.contains(rest[i]));
                }
            }
        }
        assert forall|master: Seq<char>| names_master(rows, master) implies !#[trigger] set.contains(
            master,
        ) by {
            if master != id && set.contains(master) {
                assert(plays(rows, master));
                let i = choose|i: int|
                    0 <= i < rows.len() && (#[trigger] rows[i]).id == master && rows[i].enabled
                        && rows[i].device_type != DeviceType::Master;
                let j = choose|j: int|
                    0 <= j < rows.len() && (#[trigger] rows[j]).device_type == DeviceType::Master
                        && rows[j].id == master;
                assert(i == j);
            }
        }
    }
}

/// All devices means every row that is no master row, each once.
pub proof fn lemma_all_devices_are_routable(rows: Seq<DeviceView>)
    ensures
        forall|id: Seq<char>| #[trigger] routable(rows).contains(id) <==> names_device(rows, id),
        distinct(rows) ==> routable(rows).no_duplicates(),
        distinct(rows) ==> forall|master: Seq<char>|
            names_master(rows, master) ==> !#[trigger] routable(rows).contains(master),
{
    let keep = |d: DeviceView| d.device_type != DeviceType::Master;
    assert forall|id: Seq<char>| #[trigger] routable(rows).contains(id) <==> names_device(
        rows,
        id,
    ) by {
        lemma_picked_ids(rows, keep, id);
        if names_device(rows, id) {
            let i = choose|i: int|
                0 <= i < rows.len() && (#[trigger] rows[i]).id == id && rows[i].device_type
                    != DeviceType::Master;
            assert(keep(rows[i]));
        }
    }
    if distinct(rows) {
        lemma_picked_ids_are_distinct(rows, keep);
        assert forall|master: Seq<char>| names_master(rows, master) implies !#[trigger] routable(
            rows,
        ).contains(master) by {
            if routable(rows).contains(master) {
                assert(names_device(rows, master));
                let i = choose|i: int|
                    0 <= i < rows.len() && (#[trigger] rows[i]).id == master
                        && rows[i].device_type != DeviceType::Master;
                let j = choose|j: int|
                    0 <= j < rows.len() && (#[trigger] rows[j]).device_type == DeviceType::Master
                        && rows[j].id == master;
                assert(i == j);
            }
        }
    }
}

/// The set after a toggle, told of the rows themselves. The toggled device is
/// in it, as the last one, exactly if it was switched on and no master row has
/// its id; another device is in it exactly if a row of it that is no master row
/// is enabled; and the others keep the order of the rows.
pub proof fn lemma_toggling_goes_by_the_rows(rows: Seq<DeviceView>, id: Seq<char>, enabled: bool)
    ensures
        ({
            let set = toggled(rows, id, enabled);
            let names_master_row = exists|i: int|
                0 <= i < rows.len() && (#[trigger] rows[i]).device_type == DeviceType::Master
                    && rows[i].id == id;
            &&& set.contains(id) <==> enabled && !names_master_row
            &&& enabled && !names_master_row ==> set.last() == id
            &&& forall|other: Seq<char>|
                other != id ==> (#[trigger] set.contains(other) <==> exists|i: int|
                    0 <= i < rows.len() && (#[trigger] rows[i]).id == other && rows[i].enabled
                        && rows[i].device_type != DeviceType::Master)
            &&& forall|i: int, j: int|
                0 <= i < j < rows.len() && (#[trigger] rows[i]).enabled && rows[i].id != id
                    && rows[i].device_type != DeviceType::Master && (#[trigger] rows[j]).enabled
                    && rows[j].id != id && rows[j].device_type != DeviceType::Master
                    ==> exists|p: int, q: int|
                    0 <= p < q < set.len() && #[trigger] set[p] == rows[i].id && #[trigger] set[q]
                        == rows[j].id
        }),
{
    lemma_toggling(rows, id, enabled);
    let set = toggled(rows, id, enabled);
    assert(names_master(rows, id) <==> exists|i: int|
        0 <= i < rows.len() && (#[trigger] rows[i]).device_type == DeviceType::Master
            && rows[i].id == id);
    assert forall|other: Seq<char>| other != id implies (#[trigger] set.contains(other)
        <==> exists|i: int|
        0 <= i < rows.len() && (#[trigger] rows[i]).id == other && rows[i].enabled
            && rows[i].device_type != DeviceType::Master) by {
        assert(set.contains(other) <==> plays(rows, other));
    }
    let keep = |d: DeviceView| d.enabled && d.id != id && d.device_type != DeviceType::Master;
    let picked = rows.filter(keep);
    assert forall|i: int, j: int|
        0 <= i < j < rows.len() && (#[trigger] rows[i]).enabled && rows[i].id != id
            && rows[i].device_type != DeviceType::Master && (#[trigger] rows[j]).enabled
            && rows[j].id != id && rows[j].device_type != DeviceType::Master implies exists|
        p: int,
        q: int,
    |
        0 <= p < q < set.len() && #[trigger] set[p] == rows[i].id && #[trigger] set[q]
            == rows[j].id by {
        lemma_filter_keeps_the_order(rows, keep, i, j);
        let (p, q) = choose|p: int, q: int|
            0 <= p < q < picked.len() && #[trigger] picked[p] == rows[i] && #[trigger] picked[q]
                == rows[j];
        assert(set[p] == rows[i].id && set[q] == rows[j].id);
    }
}

/// All devices, told of the rows themselves: the ids of the rows that are no
/// master row, in the order of the rows, and one for each such row.
pub proof fn lemma_all_devices_go_by_the_rows(rows: Seq<DeviceView>)
    ensures
        ({
            let set = routable(rows);
            &&& forall|id: Seq<char>| #[trigger]
                set.contains(id) <==> exists|i: int|
                    0 <= i < rows.len() && (#[trigger] rows[i]).id == id && rows[i].device_type
                        != DeviceType::Master
            &&& forall|i: int, j: int|
                0 <= i < j < rows.len() && (#[trigger] rows[i]).device_type != DeviceType::Master
                    && (#[trigger] rows[j]).device_type != DeviceType::Master ==> exists|
                    p: int,
                    q: int,
                |
                    0 <= p < q < set.len() && #[trigger] set[p] == rows[i].id && #[trigger] set[q]
                        == rows[j].id
        }),
{
    lemma_all_devices_are_routable(rows);
    let set = routable(rows);
    assert forall|id: Seq<char>| #[trigger] set.contains(id) <==> exists|i: int|
        0 <= i < rows.len() && (#[trigger] rows[i]).id == id && rows[i].device_type
            != DeviceType::Master by {
        assert(set.contains(id) <==> names_device(rows, id));
    }
    let keep = |d: DeviceView| d.device_type != DeviceType::Master;
    let picked = rows.filter(keep);
    assert forall|i: int, j: int|
        0 <= i < j < rows.len() && (#[trigger] rows[i]).device_type != DeviceType::Master && (
        #[trigger] rows[j]).device_type != DeviceType::Master implies exists|p: int, q: int|
        0 <= p < q < set.len() && #[trigger] set[p] == rows[i].id && #[trigger] set[q]
            == rows[j].id by {
        lemma_filter_keeps_the_order(rows, keep, i, j);
        let (p, q) = choose|p: int, q: int|
            0 <= p < q < picked.len() && #[trigger] picked[p] == rows[i] && #[trigger] picked[q]
                == rows[j];
        assert(set[p] == rows[i].id && set[q] == rows[j].id);
    }
}

/// A toggle and the choice of all devices take each row once: the sets are the
/// ids of the rows that qualify, row for row, and the toggled device once behind
/// them where it is switched on.
pub proof fn lemma_each_row_is_taken_once(rows: Seq<DeviceView>, id: Seq<char>, enabled: bool)
    ensures
        ({
            let others = rows.filter(
                |d: DeviceView| d.enabled && d.id != id && d.device_type != DeviceType::Master,
            );
            let all = rows.filter(|d: DeviceView| d.device_type != DeviceType::Master);
            let set = toggled(rows, id, enabled);
            &&& set.len() == others.len() || set.len() == others.len() + 1
            &&& set.len() > others.len() ==> enabled && set.last() == id
            &&& !enabled ==> set.len() == others.len()
            &&& forall|k: int| 0 <= k < others.len() ==> set[k] == (#[trigger] others[k]).id
            &&& routable(rows).len() == all.len()
            &&& forall|k: int| 0 <= k < all.len() ==> routable(rows)[k] == (#[trigger] all[k]).id
        }),
{
}

} // verus!
