//! Sinks as `pactl -f json list sinks` reports them, and the device rows that
//! they become.

use vstd::prelude::*;
use crate::device::{Device, DeviceType, DeviceView};
use crate::linux::modules::{is_ours, ours};
use crate::text::{ascii_lower, contains, has_name, lowercased, mentions, same};
use crate::volume::{Volume, UNIT_BITS};

verus! {

/// A JSON object of the listing: a map from property names to JSON values.
#[verifier::external_type_specification]
#[verifier::external_body]
#[verifier::reject_recursive_types(K)]
#[verifier::reject_recursive_types(V)]
pub struct ExMap<K, V>(serde_json::Map<K, V>);

/// A JSON value.
#[verifier::external_type_specification]
#[verifier::external_body]
pub struct ExValue(serde_json::Value);

/// The entries of a JSON object whose values are strings.
pub uninterp spec fn texts(object: serde_json::Map<String, serde_json::Value>) -> Map<
    Seq<char>,
    Seq<char>,
>;

/// `serde_json::Map::get` gives the value at a key, and
/// `serde_json::Value::as_str` the text of a value that is a string; together
/// they look the key up among the entries that are strings.
#[verifier::external_body]
fn text_property<'a>(
    object: &'a serde_json::Map<String, serde_json::Value>,
    key: &str,
) -> (r: Option<&'a str>)
    ensures
        r.deep_view() == lookup(texts(*object), key@),
{
    object.get(key).and_then(|value| value.as_str())
}

/// The value at `key`, if there is one.
pub open spec fn lookup(m: Map<Seq<char>, Seq<char>>, key: Seq<char>) -> Option<Seq<char>> {
    if m.contains_key(key) {
        Some(m[key])
    } else {
        None
    }
}

/// `owner_module` value that PulseAudio uses for "no owning module".
pub const PA_INVALID_INDEX: u64 = 4_294_967_295;

/// A sink as the listing has it.
#[derive(Debug)]
pub struct RawSink {
    pub name: String,
    pub description: String,
    pub mute: bool,
    /// Id of the module that owns the sink; `PA_INVALID_INDEX` for none.
    pub owner_module: Option<u64>,
    /// Mean of the channel volumes, 1.0 for 100%; none without channels.
    pub mean_volume: Option<Volume>,
    /// What the server knows of the device, `device.bus` among it.
    pub properties: serde_json::Map<String, serde_json::Value>,
}

/// What a [`RawSink`] says, in terms of text.
pub struct RawSinkView {
    pub name: Seq<char>,
    pub description: Seq<char>,
    pub mute: bool,
    pub owner_module: Option<u64>,
    pub mean_volume: Option<Volume>,
    pub properties: Map<Seq<char>, Seq<char>>,
}

impl DeepView for RawSink {
    type V = RawSinkView;

    open spec fn deep_view(&self) -> RawSinkView {
        RawSinkView {
            name: self.name@,
            description: self.description@,
            mute: self.mute,
            owner_module: self.owner_module,
            mean_volume: self.mean_volume,
            properties: texts(self.properties),
        }
    }
}

/// A sink with the state that routing and the user interface need.
#[derive(Debug)]
pub struct Sink {
    pub name: String,
    pub description: String,
    /// Owning module id, if any. Links a sink back to the module that we
    /// loaded: sink names need not be unique, module ids are.
    pub owner_module: Option<u64>,
    pub volume: Volume,
    pub muted: bool,
    pub device_type: DeviceType,
}

/// What a [`Sink`] says, in terms of text.
pub struct SinkView {
    pub name: Seq<char>,
    pub description: Seq<char>,
    pub owner_module: Option<u64>,
    pub volume: Volume,
    pub muted: bool,
    pub device_type: DeviceType,
}

impl DeepView for Sink {
    type V = SinkView;

    open spec fn deep_view(&self) -> SinkView {
        SinkView {
            name: self.name@,
            description: self.description@,
            owner_module: self.owner_module,
            volume: self.volume,
            muted: self.muted,
            device_type: self.device_type,
        }
    }
}

// ---------------------------------------------------------------------------
// Classification
// ---------------------------------------------------------------------------

/// The category of a sink from its properties in lower case.
pub open spec fn sink_type(
    name: Seq<char>,
    description: Seq<char>,
    bus: Option<Seq<char>>,
    form_factor: Option<Seq<char>>,
) -> DeviceType {
    let says = |keyword: Seq<char>| mentions(name, keyword) || mentions(description, keyword);
    if bus == Some("bluetooth"@) || mentions(name, "bluez"@) {
        DeviceType::Bluetooth
    } else if form_factor == Some("headphone"@) || says("headphone"@) || says("headset"@) {
        DeviceType::Headphones
    } else if says("hdmi"@) || says("displayport"@) {
        DeviceType::Hdmi
    } else if says("iec958"@) || says("spdif"@) || says("digital"@) {
        DeviceType::Digital
    } else if bus == Some("usb"@) {
        DeviceType::Usb
    } else {
        DeviceType::Speakers
    }
}

/// An optional text in lower case.
pub open spec fn lowercased_opt(s: Option<Seq<char>>) -> Option<Seq<char>> {
    match s {
        Some(t) => Some(lowercased(t)),
        None => None,
    }
}

/// The same in plain ASCII.
pub open spec fn ascii_lower_opt(s: Option<Seq<char>>) -> Option<Seq<char>> {
    match s {
        Some(t) => Some(ascii_lower(t)),
        None => None,
    }
}

/// A text, where there is one, is all ASCII.
pub open spec fn is_ascii_opt(s: Option<Seq<char>>) -> bool {
    s is Some ==> vstd::utf8::is_ascii_chars(s->0)
}

fn is_text(s: Option<&str>, t: &str) -> (r: bool)
    ensures
        r == (s.deep_view() == Some(t@)),
{
    match s {
        Some(u) => same(u, t),
        None => false,
    }
}

fn either_contains(a: &str, b: &str, keyword: &str) -> (r: bool)
    ensures
        r == (mentions(a@, keyword@) || mentions(b@, keyword@)),
{
    contains(a, keyword) || contains(b, keyword)
}

/// The category of a sink from its properties in lower case. Bluetooth
/// headphones are Bluetooth, and a USB headset is headphones.
pub fn classify_lowercase(
    name: &str,
    description: &str,
    bus: Option<&str>,
    form_factor: Option<&str>,
) -> (r: DeviceType)
    ensures
        r == sink_type(name@, description@, bus.deep_view(), form_factor.deep_view()),
{
    if is_text(bus, "bluetooth") || contains(name, "bluez") {
        DeviceType::Bluetooth
    } else if is_text(form_factor, "headphone") || either_contains(name, description, "headphone")
        || either_contains(name, description, "headset") {
        DeviceType::Headphones
    } else if either_contains(name, description, "hdmi") || either_contains(
        name,
        description,
        "displayport",
    ) {
        DeviceType::Hdmi
    } else if either_contains(name, description, "iec958") || either_contains(
        name,
        description,
        "spdif",
    ) || either_contains(name, description, "digital") {
        DeviceType::Digital
    } else if is_text(bus, "usb") {
        DeviceType::Usb
    } else {
        DeviceType::Speakers
    }
}

/// Classify a sink from its name, description and udev properties, whatever
/// the case of their letters.
pub fn infer_device_type(
    name: &str,
    description: &str,
    bus: Option<&str>,
    form_factor: Option<&str>,
) -> (r: DeviceType)
    ensures
        r == sink_type(
            lowercased(name@),
            lowercased(description@),
            lowercased_opt(bus.deep_view()),
            lowercased_opt(form_factor.deep_view()),
        ),
        is_ascii_opt(Some(name@)) && is_ascii_opt(Some(description@)) && is_ascii_opt(
            bus.deep_view(),
        ) && is_ascii_opt(form_factor.deep_view()) ==> r == sink_type(
            ascii_lower(name@),
            ascii_lower(description@),
            ascii_lower_opt(bus.deep_view()),
            ascii_lower_opt(form_factor.deep_view()),
        ),
{
    let name = name.to_lowercase();
    let description = description.to_lowercase();
    let bus: Option<String> = match bus {
        Some(b) => Some(b.to_lowercase()),
        None => None,
    };
    let form_factor: Option<String> = match form_factor {
        Some(f) => Some(f.to_lowercase()),
        None => None,
    };
    classify_lowercase(
        name.as_str(),
        description.as_str(),
        opt_str(&bus),
        opt_str(&form_factor),
    )
}

fn opt_str(s: &Option<String>) -> (r: Option<&str>)
    ensures
        r.deep_view() == s.deep_view(),
{
    match s {
        Some(t) => Some(t.as_str()),
        None => None,
    }
}

// ---------------------------------------------------------------------------
// From the listing
// ---------------------------------------------------------------------------

/// The sink that a listed sink stands for.
pub open spec fn read_sink(raw: RawSinkView) -> SinkView {
    SinkView {
        name: raw.name,
        description: raw.description,
        owner_module: if raw.owner_module == Some(PA_INVALID_INDEX) {
            None
        } else {
            raw.owner_module
        },
        volume: match raw.mean_volume {
            Some(mean) => mean.in_unit(),
            None => Volume { bits: UNIT_BITS },
        },
        muted: raw.mute,
        device_type: sink_type(
            lowercased(raw.name),
            lowercased(raw.description),
            lowercased_opt(lookup(raw.properties, "device.bus"@)),
            lowercased_opt(lookup(raw.properties, "device.form_factor"@)),
        ),
    }
}

/// The sink that a listed sink stands for: no channels mean full volume, and a
/// mean volume outside 0.0 to 1.0 is clamped.
pub fn sink_from_raw(raw: RawSink) -> (sink: Sink)
    ensures
        sink.deep_view() == read_sink(raw.deep_view()),
{
    let device_type = infer_device_type(
        raw.name.as_str(),
        raw.description.as_str(),
        text_property(&raw.properties, "device.bus"),
        text_property(&raw.properties, "device.form_factor"),
    );
    let volume = match raw.mean_volume {
        Some(mean) => mean.clamp_unit(),
        None => Volume::full(),
    };
    let owner_module: Option<u64> = match raw.owner_module {
        Some(m) => if m == PA_INVALID_INDEX {
            None
        } else {
            Some(m)
        },
        None => None,
    };
    Sink {
        name: raw.name,
        description: raw.description,
        owner_module,
        volume,
        muted: raw.mute,
        device_type,
    }
}

/// The sinks that a listing stands for.
pub fn sinks_from_raw(raw: Vec<RawSink>) -> (sinks: Vec<Sink>)
    ensures
        sinks.deep_view() == raw.deep_view().map_values(|r: RawSinkView| read_sink(r)),
{
    let ghost model = raw.deep_view().map_values(|r: RawSinkView| read_sink(r));
    let mut sinks: Vec<Sink> = Vec::new();
    for r in it: raw
        invariant
            it.seq() == raw@,
            model == raw.deep_view().map_values(|r: RawSinkView| read_sink(r)),
            sinks.deep_view() == model.take(it.index() as int),
    {
        let ghost before = sinks.deep_view();
        assert(r.deep_view() == raw.deep_view()[it.index() as int]);
        let sink = sink_from_raw(r);
        assert(sink.deep_view() == model[it.index() as int]);
        sinks.push(sink);
        assert(sinks.deep_view() =~= before.push(sink.deep_view()));
        assert(sinks.deep_view() =~= model.take(it.index() + 1));
    }
    assert(model.take(raw.len() as int) =~= model);
    sinks
}

// ---------------------------------------------------------------------------
// Rows
// ---------------------------------------------------------------------------

/// Position of the first sink that module `id` owns, or the number of sinks.
pub open spec fn first_owned(sinks: Seq<SinkView>, id: u32) -> nat
    decreases sinks.len(),
{
    if sinks.len() == 0 {
        0
    } else if sinks.first().owner_module == Some(id as u64) {
        0
    } else {
        1 + first_owned(sinks.drop_first(), id)
    }
}

/// Some sink is owned by module `id`.
pub open spec fn owner_alive(sinks: Seq<SinkView>, id: u32) -> bool {
    exists|i: int| 0 <= i < sinks.len() && (#[trigger] sinks[i]).owner_module == Some(id as u64)
}

pub proof fn lemma_first_owned(sinks: Seq<SinkView>, id: u32)
    ensures
        first_owned(sinks, id) <= sinks.len(),
        first_owned(sinks, id) < sinks.len() <==> owner_alive(sinks, id),
        first_owned(sinks, id) < sinks.len() ==> sinks[first_owned(sinks, id) as int].owner_module
            == Some(id as u64),
    decreases sinks.len(),
{
    if sinks.len() > 0 && sinks.first().owner_module != Some(id as u64) {
        let rest = sinks.drop_first();
        lemma_first_owned(rest, id);
        if owner_alive(rest, id) {
            let i = choose|i: int|
                0 <= i < rest.len() && (#[trigger] rest[i]).owner_module == Some(id as u64);
            assert(sinks[i + 1].owner_module == Some(id as u64));
        }
        if owner_alive(sinks, id) {
            let i = choose|i: int|
                0 <= i < sinks.len() && (#[trigger] sinks[i]).owner_module == Some(id as u64);
            assert(rest[i - 1].owner_module == Some(id as u64));
        }
    }
}

/// The first sink that module `id` owns.
pub fn find_owned(sinks: &Vec<Sink>, id: u32) -> (r: Option<usize>)
    ensures
        match r {
            Some(i) => i < sinks.len() && i == first_owned(sinks.deep_view(), id) && owner_alive(
                sinks.deep_view(),
                id,
            ),
            None => !owner_alive(sinks.deep_view(), id),
        },
{
    let ghost model = sinks.deep_view();
    let mut i: usize = 0;
    assert(model.skip(0) =~= model);
    proof {
        lemma_first_owned(model, id);
    }
    while i < sinks.len()
        invariant
            i <= sinks.len(),
            model == sinks.deep_view(),
            first_owned(model, id) == i + first_owned(model.skip(i as int), id),
            first_owned(model, id) < model.len() <==> owner_alive(model, id),
        decreases sinks.len() - i,
    {
        assert(model.skip(i as int).first() == sinks[i as int].deep_view());
        assert(model.skip(i as int).drop_first() =~= model.skip(i + 1));
        if let Some(owner) = sinks[i].owner_module {
            if owner == id as u64 {
                return Some(i);
            }
        }
        i += 1;
    }
    None
}

/// The name of the master row.
pub const MASTER_NAME: &'static str = "Master volume";

/// The combined sink as the row that leads the device list, while the module
/// that we track for it owns a sink.
pub open spec fn master_row(combine_module: Option<u32>, sinks: Seq<SinkView>) -> Option<DeviceView> {
    match combine_module {
        Some(id) => if owner_alive(sinks, id) {
            let sink = sinks[first_owned(sinks, id) as int];
            Some(
                DeviceView {
                    id: sink.name,
                    name: MASTER_NAME@,
                    device_type: DeviceType::Master,
                    enabled: true,
                    volume: sink.volume,
                    muted: sink.muted,
                },
            )
        } else {
            None
        },
        None => None,
    }
}

/// The live combined sink as the "Master volume" device. Matched by owner
/// module: sink names need not be unique, module ids are. Volume and mute are
/// the sink's own, and apply upstream of every device.
pub fn master_device(combine_module: Option<u32>, sinks: &Vec<Sink>) -> (r: Option<Device>)
    ensures
        r.deep_view() == master_row(combine_module, sinks.deep_view()),
{
    match combine_module {
        Some(id) => match find_owned(sinks, id) {
            Some(i) => {
                let sink = &sinks[i];
                assert(sinks.deep_view()[i as int] == sink.deep_view());
                Some(
                    Device {
                        id: sink.name.clone(),
                        name: MASTER_NAME.to_owned(),
                        device_type: DeviceType::Master,
                        enabled: true,
                        volume: sink.volume,
                        muted: sink.muted,
                    },
                )
            },
            None => None,
        },
        None => None,
    }
}

/// The row of a real sink.
pub open spec fn sink_row(enabled: Seq<Seq<char>>, sink: SinkView) -> DeviceView {
    DeviceView {
        id: sink.name,
        name: sink.description,
        device_type: sink.device_type,
        enabled: enabled.contains(sink.name),
        volume: sink.volume,
        muted: sink.muted,
    }
}

/// The real sinks: all but our own.
pub open spec fn not_ours(sinks: Seq<SinkView>) -> Seq<SinkView> {
    sinks.filter(|s: SinkView| !ours(s.name))
}

/// The names of the real sinks.
pub open spec fn real_names(sinks: Seq<SinkView>) -> Seq<Seq<char>> {
    not_ours(sinks).map_values(|s: SinkView| s.name)
}

/// The device list: the master row if there is one, then the real sinks.
pub open spec fn device_list(
    combine_module: Option<u32>,
    enabled: Seq<Seq<char>>,
    sinks: Seq<SinkView>,
) -> Seq<DeviceView> {
    let rows = not_ours(sinks).map_values(|s: SinkView| sink_row(enabled, s));
    match master_row(combine_module, sinks) {
        Some(master) => seq![master] + rows,
        None => rows,
    }
}

/// The device list: the master row if there is one, then the real sinks with
/// their place in the enabled set.
pub fn device_rows(
    combine_module: Option<u32>,
    enabled: &Vec<String>,
    sinks: &Vec<Sink>,
) -> (rows: Vec<Device>)
    ensures
        rows.deep_view() == device_list(combine_module, enabled.deep_view(), sinks.deep_view()),
{
    let mut rows: Vec<Device> = Vec::new();
    let master = master_device(combine_module, sinks);
    let ghost lead: Seq<DeviceView> = match master.deep_view() {
        Some(m) => seq![m],
        None => Seq::empty(),
    };
    if let Some(m) = master {
        rows.push(m);
    }
    assert(rows.deep_view() =~= lead);
    let ghost model = sinks.deep_view();
    let ghost names = enabled.deep_view();
    let ghost keep = |s: SinkView| !ours(s.name);
    let ghost row = |s: SinkView| sink_row(names, s);
    let mut i: usize = 0;
    assert(model.take(0).filter(keep) =~= Seq::empty()) by {
        reveal(Seq::filter);
    }
    assert(lead + model.take(0).filter(keep).map_values(row) =~= lead);
    while i < sinks.len()
        invariant
            i <= sinks.len(),
            model == sinks.deep_view(),
            names == enabled.deep_view(),
            keep == (|s: SinkView| !ours(s.name)),
            row == (|s: SinkView| sink_row(names, s)),
            rows.deep_view() == lead + model.take(i as int).filter(keep).map_values(row),
        decreases sinks.len() - i,
    {
        let s = &sinks[i];
        let ghost before = rows.deep_view();
        let ghost kept = model.take(i as int).filter(keep);
        proof {
            reveal(Seq::filter);
            assert(model.take(i + 1).drop_last() =~= model.take(i as int));
            assert(model.take(i + 1).last() == s.deep_view());
        }
        if !is_ours(s.name.as_str()) {
            let d = Device {
                id: s.name.clone(),
                name: s.description.clone(),
                device_type: s.device_type,
                enabled: has_name(enabled, s.name.as_str()),
                volume: s.volume,
                muted: s.muted,
            };
            rows.push(d);
            assert(rows.deep_view() =~= before.push(sink_row(names, s.deep_view())));
            assert(kept.push(s.deep_view()).map_values(row) =~= kept.map_values(row).push(
                sink_row(names, s.deep_view()),
            ));
            assert(lead + kept.map_values(row).push(sink_row(names, s.deep_view())) =~= (lead
                + kept.map_values(row)).push(sink_row(names, s.deep_view())));
        }
        i += 1;
    }
    assert(model.take(i as int) =~= model);
    assert(lead.len() == 0 ==> lead + model.filter(keep).map_values(row) =~= model.filter(
        keep,
    ).map_values(row));
    rows
}

/// Bluetooth beats headphones, and headphones beat USB: a Bluetooth sink is
/// Bluetooth whatever else is known of it, another sink with a sign of
/// headphones is headphones even on the USB bus, and USB is what a sink on that
/// bus is without any other sign.
pub proof fn lemma_categories_have_a_priority(
    name: Seq<char>,
    description: Seq<char>,
    bus: Option<Seq<char>>,
    form_factor: Option<Seq<char>>,
)
    ensures
        ({
            let category = sink_type(name, description, bus, form_factor);
            let bluetooth = bus == Some("bluetooth"@) || mentions(name, "bluez"@);
            let headphones = form_factor == Some("headphone"@) || mentions(name, "headphone"@)
                || mentions(description, "headphone"@) || mentions(name, "headset"@) || mentions(
                description,
                "headset"@,
            );
            &&& category == DeviceType::Bluetooth <==> bluetooth
            &&& category == DeviceType::Headphones <==> !bluetooth && headphones
            &&& category == DeviceType::Usb ==> bus == Some("usb"@) && !bluetooth && !headphones
            &&& category != DeviceType::Master
        }),
{
}

/// The master row leads the list, and is there exactly while the module that is
/// tracked for it owns a sink; every other row is a real sink.
pub proof fn lemma_the_master_row_leads(
    combine_module: Option<u32>,
    enabled: Seq<Seq<char>>,
    sinks: Seq<SinkView>,
)
    requires
        forall|i: int|
            0 <= i < sinks.len() ==> (#[trigger] sinks[i]).device_type != DeviceType::Master,
    ensures
        ({
            let rows = device_list(combine_module, enabled, sinks);
            let live = combine_module is Some && owner_alive(sinks, combine_module->0);
            &&& live ==> rows.len() == not_ours(sinks).len() + 1 && rows[0].device_type
                == DeviceType::Master
            &&& !live ==> rows.len() == not_ours(sinks).len()
            &&& forall|i: int|
                (if live {
                    1int
                } else {
                    0int
                }) <= i < rows.len() ==> (#[trigger] rows[i]).device_type != DeviceType::Master
                    && !ours(rows[i].id)
        }),
{
    let rows = device_list(combine_module, enabled, sinks);
    let keep = |s: SinkView| !ours(s.name);
    let live = combine_module is Some && owner_alive(sinks, combine_module->0);
    let lead: int = if live {
        1
    } else {
        0
    };
    assert forall|i: int| lead <= i < rows.len() implies (#[trigger] rows[i]).device_type
        != DeviceType::Master && !ours(rows[i].id) by {
        let sink = not_ours(sinks)[i - lead];
        sinks.lemma_filter_pred(keep, i - lead);
        sinks.lemma_filter_contains_rev(keep, sink);
        assert(rows[i] == sink_row(enabled, sink));
    }
}

} // verus!
