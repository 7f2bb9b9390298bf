//! What the device list says of the listed sinks, and how a listed sink is read.

use vstd::prelude::*;
use crate::device::{DeviceType, DeviceView};
use crate::linux::backend::{lemma_selection_is_what_exists_each_once, selection};
use crate::linux::modules::ours;
use crate::linux::sinks::{
    device_list, first_owned, not_ours, owner_alive, read_sink, real_names, sink_type,
    RawSinkView, SinkView,
};
use crate::seq_laws::{lemma_filter_keeps_the_order, lemma_filter_keeps_what_it_should};
use crate::text::{lowercased, mentions};

verus! {

// ---------------------------------------------------------------------------
// The device list
// ---------------------------------------------------------------------------

proof fn lemma_real_sinks(sinks: Seq<SinkView>)
    ensures
        not_ours(sinks) == sinks.filter(
            |s: SinkView| !"sound_multiplexer"@.is_prefix_of(s.name),
        ),
{
    let keep = |s: SinkView| !"sound_multiplexer"@.is_prefix_of(s.name);
    let foreign = |s: SinkView| !ours(s.name);
    assert(keep =~= foreign);
}

/// The device list is the listing without the sinks of this app, sink for sink
/// and in its order, behind the master row where there is one: each row shows
/// its sink's name, description, category, volume and mute, and is enabled
/// exactly if the name is among the enabled ones.
pub proof fn lemma_rows_are_the_real_sinks(
    combine_module: Option<u32>,
    enabled: Seq<Seq<char>>,
    sinks: Seq<SinkView>,
)
    ensures
        ({
            let rows = device_list(combine_module, enabled, sinks);
            let shown = sinks.filter(
                |s: SinkView| !"sound_multiplexer"@.is_prefix_of(s.name),
            );
            let lead: int = if combine_module is Some && exists|i: int|
                0 <= i < sinks.len() && (#[trigger] sinks[i]).owner_module == Some(
                    combine_module->0 as u64,
                ) {
                1
            } else {
                0
            };
            &&& rows.len() == lead + shown.len()
            &&& forall|k: int|
                #![trigger shown[k]]
                0 <= k < shown.len() ==> {
                    &&& rows[lead + k].id == shown[k].name
                    &&& rows[lead + k].name == shown[k].description
                    &&& rows[lead + k].device_type == shown[k].device_type
                    &&& rows[lead + k].volume == shown[k].volume
                    &&& rows[lead + k].muted == shown[k].muted
                    &&& rows[lead + k].enabled <==> enabled.contains(shown[k].name)
                }
        }),
{
    lemma_real_sinks(sinks);
    if let Some(id) = combine_module {
        assert(owner_alive(sinks, id) <==> exists|i: int|
            0 <= i < sinks.len() && (#[trigger] sinks[i]).owner_module == Some(id as u64));
    }
}

/// Every row but the master row comes from a listed sink that is none of this
/// app's, and shows that sink's volume and mute; and every such sink has a row.
pub proof fn lemma_each_row_shows_its_sink(
    combine_module: Option<u32>,
    enabled: Seq<Seq<char>>,
    sinks: Seq<SinkView>,
)
    ensures
        ({
            let rows = device_list(combine_module, enabled, sinks);
            let lead: int = if combine_module is Some && exists|i: int|
                0 <= i < sinks.len() && (#[trigger] sinks[i]).owner_module == Some(
                    combine_module->0 as u64,
                ) {
                1
            } else {
                0
            };
            &&& forall|r: int|
                lead <= r < rows.len() ==> exists|s: int|
                    #![trigger sinks[s]]
                    0 <= s < sinks.len() && (#[trigger] rows[r]).id == sinks[s].name
                        && rows[r].name == sinks[s].description && rows[r].volume
                        == sinks[s].volume && rows[r].muted == sinks[s].muted
                        && rows[r].device_type == sinks[s].device_type
                        && !"sound_multiplexer"@.is_prefix_of(sinks[s].name)
            &&& forall|s: int|
                0 <= s < sinks.len() && !"sound_multiplexer"@.is_prefix_of(
                    (#[trigger] sinks[s]).name,
                ) ==> exists|r: int|
                    #![trigger rows[r]]
                    lead <= r < rows.len() && rows[r].id == sinks[s].name && rows[r].name
                        == sinks[s].description && rows[r].volume == sinks[s].volume
                        && rows[r].muted == sinks[s].muted && rows[r].device_type
                        == sinks[s].device_type && (rows[r].enabled <==> enabled.contains(
                        sinks[s].name,
                    ))
        }),
{
    lemma_rows_are_the_real_sinks(combine_module, enabled, sinks);
    let rows = device_list(combine_module, enabled, sinks);
    let keep = |s: SinkView| !"sound_multiplexer"@.is_prefix_of(s.name);
    let shown = sinks.filter(keep);
    let lead = rows.len() - shown.len();
    assert forall|r: int| lead <= r < rows.len() implies exists|s: int|
        #![trigger sinks[s]]
        0 <= s < sinks.len() && (#[trigger] rows[r]).id == sinks[s].name && rows[r].name
            == sinks[s].description && rows[r].volume == sinks[s].volume && rows[r].muted
            == sinks[s].muted && rows[r].device_type == sinks[s].device_type
            && !"sound_multiplexer"@.is_prefix_of(sinks[s].name) by {
        let from = shown[r - lead];
        assert(shown.contains(from));
        lemma_filter_keeps_what_it_should(sinks, keep, from);
        let s = choose|s: int| 0 <= s < sinks.len() && sinks[s] == from;
        assert(rows[lead + (r - lead)].id == from.name);
        assert(sinks[s] == from);
    }
    assert forall|s: int|
        0 <= s < sinks.len() && !"sound_multiplexer"@.is_prefix_of(
            (#[trigger] sinks[s]).name,
        ) implies exists|r: int|
        #![trigger rows[r]]
        lead <= r < rows.len() && rows[r].id == sinks[s].name && rows[r].name
            == sinks[s].description && rows[r].volume == sinks[s].volume && rows[r].muted
            == sinks[s].muted && rows[r].device_type == sinks[s].device_type && (rows[r].enabled
            <==> enabled.contains(sinks[s].name)) by {
        assert(sinks.contains(sinks[s]));
        lemma_filter_keeps_what_it_should(sinks, keep, sinks[s]);
        let k = choose|k: int| 0 <= k < shown.len() && shown[k] == sinks[s];
        assert(rows[lead + k].id == shown[k].name);
    }
}

proof fn lemma_first_owned_is(sinks: Seq<SinkView>, id: u32, i: int)
    requires
        0 <= i < sinks.len(),
        sinks[i].owner_module == Some(id as u64),
        forall|j: int| 0 <= j < i ==> (#[trigger] sinks[j]).owner_module != Some(id as u64),
    ensures
        first_owned(sinks, id) == i,
    decreases i,
{
    if i > 0 {
        let rest = sinks.drop_first();
        assert(sinks[0].owner_module != Some(id as u64));
        assert forall|j: int| 0 <= j < i - 1 implies (#[trigger] rest[j]).owner_module != Some(
            id as u64,
        ) by {
            assert(rest[j] == sinks[j + 1]);
        }
        lemma_first_owned_is(rest, id, i - 1);
    }
}

/// The first sink that a module owns is the one that stands for it: that sink is
/// owned by the module, and none before it is.
pub proof fn lemma_the_first_owned_sink(sinks: Seq<SinkView>, id: u32, i: int)
    requires
        0 <= i < sinks.len(),
        sinks[i].owner_module == Some(id as u64),
        forall|j: int| 0 <= j < i ==> (#[trigger] sinks[j]).owner_module != Some(id as u64),
    ensures
        first_owned(sinks, id) == i,
        owner_alive(sinks, id),
{
    lemma_first_owned_is(sinks, id, i);
}

/// The master row shows the first sink that the tracked module owns: under its
/// name, as "Master volume", always enabled, with its volume and its mute.
pub proof fn lemma_the_master_row_shows_the_combined_sink(
    id: u32,
    enabled: Seq<Seq<char>>,
    sinks: Seq<SinkView>,
    i: int,
)
    requires
        0 <= i < sinks.len(),
        sinks[i].owner_module == Some(id as u64),
        forall|j: int| 0 <= j < i ==> (#[trigger] sinks[j]).owner_module != Some(id as u64),
    ensures
        device_list(Some(id), enabled, sinks)[0] == (DeviceView {
            id: sinks[i].name,
            name: "Master volume"@,
            device_type: DeviceType::Master,
            enabled: true,
            volume: sinks[i].volume,
            muted: sinks[i].muted,
        }),
{
    lemma_first_owned_is(sinks, id, i);
    assert(owner_alive(sinks, id));
}

// ---------------------------------------------------------------------------
// Reading a sink
// ---------------------------------------------------------------------------

/// Each category has its signs, and holds where none of a stronger category
/// shows: Bluetooth, headphones, HDMI, digital, USB, and speakers without any.
pub proof fn lemma_each_category_has_its_signs(
    name: Seq<char>,
    description: Seq<char>,
    bus: Option<Seq<char>>,
    form_factor: Option<Seq<char>>,
)
    ensures
        ({
            let category = sink_type(name, description, bus, form_factor);
            let bluetooth = bus == Some("bluetooth"@) || mentions(name, "bluez"@);
            let headphones = form_factor == Some("headphone"@) || mentions(name, "headphone"@)
                || mentions(description, "headphone"@) || mentions(name, "headset"@) || mentions(
                description,
                "headset"@,
            );
            let hdmi = mentions(name, "hdmi"@) || mentions(description, "hdmi"@) || mentions(
                name,
                "displayport"@,
            ) || mentions(description, "displayport"@);
            let digital = mentions(name, "iec958"@) || mentions(description, "iec958"@)
                || mentions(name, "spdif"@) || mentions(description, "spdif"@) || mentions(
                name,
                "digital"@,
            ) || mentions(description, "digital"@);
            let usb = bus == Some("usb"@);
            &&& bluetooth <==> category == DeviceType::Bluetooth
            &&& !bluetooth && headphones <==> category == DeviceType::Headphones
            &&& !bluetooth && !headphones && hdmi <==> category == DeviceType::Hdmi
            &&& !bluetooth && !headphones && !hdmi && digital <==> category == DeviceType::Digital
            &&& !bluetooth && !headphones && !hdmi && !digital && usb <==> category
                == DeviceType::Usb
            &&& !bluetooth && !headphones && !hdmi && !digital && !usb <==> category
                == DeviceType::Speakers
        }),
{
}

/// A listed sink is read as it is listed. The owner 4294967295 stands for none,
/// no channels mean full volume, and a mean volume is moved into its range; the
/// category goes by the name, the description, the bus and the form factor in
/// lower case.
pub proof fn lemma_a_sink_is_read_as_listed(raw: RawSinkView)
    ensures
        read_sink(raw).name == raw.name,
        read_sink(raw).description == raw.description,
        read_sink(raw).muted == raw.mute,
        raw.owner_module == Some(4_294_967_295u64) || raw.owner_module is None
            <==> read_sink(raw).owner_module is None,
        read_sink(raw).owner_module is Some ==> read_sink(raw).owner_module == raw.owner_module,
        raw.mean_volume is None ==> read_sink(raw).volume.bits == 0x3f80_0000,
        raw.mean_volume matches Some(mean) ==> read_sink(raw).volume == mean.in_unit(),
        read_sink(raw).device_type == sink_type(
            lowercased(raw.name),
            lowercased(raw.description),
            if raw.properties.contains_key("device.bus"@) {
                Some(lowercased(raw.properties["device.bus"@]))
            } else {
                None
            },
            if raw.properties.contains_key("device.form_factor"@) {
                Some(lowercased(raw.properties["device.form_factor"@]))
            } else {
                None
            },
        ),
{
}

// ---------------------------------------------------------------------------
// Names
// ---------------------------------------------------------------------------

/// A name is one of a real sink exactly if a sink of the listing has it and it
/// does not begin as the names of this app's sinks do.
pub proof fn lemma_real_names_are_listed(sinks: Seq<SinkView>, name: Seq<char>)
    ensures
        real_names(sinks).contains(name) <==> !"sound_multiplexer"@.is_prefix_of(name) && exists|
            i: int,
        | 0 <= i < sinks.len() && (#[trigger] sinks[i]).name == name,
{
    lemma_real_sinks(sinks);
    let keep = |s: SinkView| !"sound_multiplexer"@.is_prefix_of(s.name);
    let shown = sinks.filter(keep);
    let names = real_names(sinks);
    if names.contains(name) {
        let k = choose|k: int| 0 <= k < names.len() && names[k] == name;
        assert(shown.contains(shown[k]));
        lemma_filter_keeps_what_it_should(sinks, keep, shown[k]);
        let i = choose|i: int| 0 <= i < sinks.len() && sinks[i] == shown[k];
        assert(sinks[i].name == name);
    }
    if !"sound_multiplexer"@.is_prefix_of(name) && exists|i: int|
        0 <= i < sinks.len() && (#[trigger] sinks[i]).name == name {
        let i = choose|i: int| 0 <= i < sinks.len() && (#[trigger] sinks[i]).name == name;
        assert(sinks.contains(sinks[i]));
        lemma_filter_keeps_what_it_should(sinks, keep, sinks[i]);
        let k = choose|k: int| 0 <= k < shown.len() && shown[k] == sinks[i];
        assert(names[k] == name);
    }
}

/// The names of the real sinks are those of the listing without this app's, sink
/// for sink.
pub proof fn lemma_each_real_sink_is_named_once(sinks: Seq<SinkView>)
    ensures
        ({
            let shown = sinks.filter(
                |s: SinkView| !"sound_multiplexer"@.is_prefix_of(s.name),
            );
            &&& real_names(sinks).len() == shown.len()
            &&& forall|k: int|
                0 <= k < shown.len() ==> real_names(sinks)[k] == (#[trigger] shown[k]).name
        }),
{
    lemma_real_sinks(sinks);
}

/// The names of the real sinks stand in the order of the listing.
pub proof fn lemma_real_names_keep_the_order(sinks: Seq<SinkView>, i: int, j: int)
    requires
        0 <= i < j < sinks.len(),
        !"sound_multiplexer"@.is_prefix_of(sinks[i].name),
        !"sound_multiplexer"@.is_prefix_of(sinks[j].name),
    ensures
        exists|p: int, q: int|
            0 <= p < q < real_names(sinks).len() && #[trigger] real_names(sinks)[p]
                == sinks[i].name && #[trigger] real_names(sinks)[q] == sinks[j].name,
{
    lemma_real_sinks(sinks);
    let keep = |s: SinkView| !"sound_multiplexer"@.is_prefix_of(s.name);
    let shown = sinks.filter(keep);
    lemma_filter_keeps_the_order(sinks, keep, i, j);
    let (p, q) = choose|p: int, q: int|
        0 <= p < q < shown.len() && #[trigger] shown[p] == sinks[i] && #[trigger] shown[q]
            == sinks[j];
    assert(real_names(sinks)[p] == sinks[i].name && real_names(sinks)[q] == sinks[j].name);
}

/// Selected names stand in the order in which they were first asked for.
pub proof fn lemma_a_selection_keeps_the_order(
    ids: Seq<Seq<char>>,
    existing: Seq<Seq<char>>,
    p: int,
    q: int,
    j: int,
)
    requires
        0 <= p < q < selection(ids, existing).len(),
        0 <= j < ids.len(),
        ids[j] == selection(ids, existing)[q],
    ensures
        exists|i: int| 0 <= i < j && #[trigger] ids[i] == selection(ids, existing)[p],
    decreases ids.len(),
{
    let front = ids.drop_last();
    let before = selection(front, existing);
    let all = selection(ids, existing);
    if q < before.len() {
        assert(all[q] == before[q] && all[p] == before[p]);
        let at: int = if j < front.len() {
            j
        } else {
            assert(before.contains(before[q]));
            lemma_selection_is_what_exists_each_once(front, existing);
            assert(front.contains(before[q]));
            choose|k: int| 0 <= k < front.len() && front[k] == before[q]
        };
        assert(front[at] == before[q]);
        lemma_a_selection_keeps_the_order(front, existing, p, q, at);
        let i = choose|i: int| 0 <= i < at && #[trigger] front[i] == before[p];
        assert(ids[i] == all[p]);
    } else {
        assert(all =~= before.push(ids.last()));
        lemma_selection_is_what_exists_each_once(front, existing);
        if j < front.len() {
            assert(front[j] == ids.last());
            assert(front.contains(ids.last()));
        }
        assert(before.contains(before[p]));
        assert(front.contains(before[p]));
        let i = choose|i: int| 0 <= i < front.len() && front[i] == before[p];
        assert(ids[i] == all[p]);
    }
}

} // verus!
