//! Render endpoints: what kind of device each is, and the rows that they
//! become.

use vstd::prelude::*;
use crate::device::{Device, DeviceType, DeviceView};
use crate::text::{
    ascii_lower, contains, eq_ignore_ascii_case, has_name, mentions, to_ascii_lowercase,
};
use crate::volume::Level;

verus! {

/// Form factor of headphones.
pub const FF_HEADPHONES: u32 = 3;

/// Form factor of a headset.
pub const FF_HEADSET: u32 = 5;

/// Form factor of a digital S/PDIF output.
pub const FF_SPDIF: u32 = 8;

/// Form factor of a display with sound.
pub const FF_HDMI: u32 = 9;

/// Properties of an endpoint that tell its transport. `T` is the type of text.
#[derive(Debug)]
pub struct TransportInfo<T> {
    /// Name of the enumerator: `BTHENUM` or `BTHHFENUM` on the classic
    /// Bluetooth stack, the platform's audio driver where Bluetooth is
    /// offloaded to it.
    pub enumerator: Option<T>,
    /// The path of the audio adapter as the bus sees it. For Bluetooth it
    /// names the service, also where the enumerator no longer tells.
    pub bus_path: Option<T>,
    /// Name of the adapter.
    pub adapter: Option<T>,
}

impl DeepView for TransportInfo<String> {
    type V = TransportInfo<Seq<char>>;

    open spec fn deep_view(&self) -> TransportInfo<Seq<char>> {
        TransportInfo {
            enumerator: self.enumerator.deep_view(),
            bus_path: self.bus_path.deep_view(),
            adapter: self.adapter.deep_view(),
        }
    }
}

// ---------------------------------------------------------------------------
// Classification
// ---------------------------------------------------------------------------

/// The text is there, and is `word` but for the case of ASCII letters.
pub open spec fn reads(text: Option<Seq<char>>, word: Seq<char>) -> bool {
    text is Some && ascii_lower(text->0) == ascii_lower(word)
}

/// The text is there, and its ASCII lower case mentions `word`.
pub open spec fn names(text: Option<Seq<char>>, word: Seq<char>) -> bool {
    text is Some && mentions(ascii_lower(text->0), word)
}

/// The endpoint is reached over Bluetooth.
pub open spec fn over_bluetooth(t: TransportInfo<Seq<char>>) -> bool {
    ||| reads(t.enumerator, "BTHENUM"@)
    ||| reads(t.enumerator, "BTHHFENUM"@)
    ||| names(t.bus_path, "bthenum"@)
    ||| names(t.adapter, "bluetooth"@)
}

/// The endpoint is reached over USB.
pub open spec fn over_usb(t: TransportInfo<Seq<char>>) -> bool {
    reads(t.enumerator, "USB"@) || names(t.adapter, "usb"@)
}

/// The category of an endpoint. Bluetooth comes first, since Bluetooth headsets
/// report the form factor of headphones; USB only where the form factor tells
/// nothing more.
pub open spec fn endpoint_type(
    name: Seq<char>,
    form_factor: Option<u32>,
    transport: TransportInfo<Seq<char>>,
) -> DeviceType {
    let lower = ascii_lower(name);
    if over_bluetooth(transport) || mentions(lower, "bluetooth"@) || mentions(lower, "bt-"@) {
        DeviceType::Bluetooth
    } else if form_factor == Some(FF_HEADPHONES) || form_factor == Some(FF_HEADSET) {
        DeviceType::Headphones
    } else if form_factor == Some(FF_HDMI) {
        DeviceType::Hdmi
    } else if form_factor == Some(FF_SPDIF) {
        DeviceType::Digital
    } else if over_usb(transport) || mentions(lower, "usb"@) {
        DeviceType::Usb
    } else {
        DeviceType::Speakers
    }
}

/// The endpoint is the telephony side of a Bluetooth headset: by the classic
/// enumerator, by the Hands-Free service in its bus path, or by its name
/// together with the form factor of a headset.
pub open spec fn handsfree(
    name: Seq<char>,
    form_factor: Option<u32>,
    transport: TransportInfo<Seq<char>>,
) -> bool {
    ||| reads(transport.enumerator, "BTHHFENUM"@)
    ||| names(transport.bus_path, "0000111e"@)
    ||| names(transport.bus_path, "0000111f"@)
    ||| form_factor == Some(FF_HEADSET) && mentions(ascii_lower(name), "hands-free"@)
}

fn is_word(text: &Option<String>, word: &str) -> (r: bool)
    ensures
        r == reads(text.deep_view(), word@),
{
    match text {
        Some(t) => eq_ignore_ascii_case(t.as_str(), word),
        None => false,
    }
}

fn names_word(text: &Option<String>, word: &str) -> (r: bool)
    ensures
        r == names(text.deep_view(), word@),
{
    match text {
        Some(t) => {
            let lower = to_ascii_lowercase(t.as_str());
            contains(lower.as_str(), word)
        },
        None => false,
    }
}

fn is_form(form_factor: Option<u32>, form: u32) -> (r: bool)
    ensures
        r == (form_factor == Some(form)),
{
    match form_factor {
        Some(f) => f == form,
        None => false,
    }
}

impl TransportInfo<String> {
    /// Whether the endpoint is reached over Bluetooth.
    pub fn is_bluetooth(&self) -> (r: bool)
        ensures
            r == over_bluetooth(self.deep_view()),
    {
        is_word(&self.enumerator, "BTHENUM") || is_word(&self.enumerator, "BTHHFENUM")
            || names_word(&self.bus_path, "bthenum") || names_word(&self.adapter, "bluetooth")
    }

    /// Whether the endpoint is reached over USB.
    pub fn is_usb(&self) -> (r: bool)
        ensures
            r == over_usb(self.deep_view()),
    {
        is_word(&self.enumerator, "USB") || names_word(&self.adapter, "usb")
    }
}

/// Classify an endpoint.
pub fn infer_device_type(
    name: &str,
    form_factor: Option<u32>,
    transport: &TransportInfo<String>,
) -> (r: DeviceType)
    ensures
        r == endpoint_type(name@, form_factor, transport.deep_view()),
{
    let lower = to_ascii_lowercase(name);
    if transport.is_bluetooth() || contains(lower.as_str(), "bluetooth") || contains(
        lower.as_str(),
        "bt-",
    ) {
        DeviceType::Bluetooth
    } else if is_form(form_factor, FF_HEADPHONES) || is_form(form_factor, FF_HEADSET) {
        DeviceType::Headphones
    } else if is_form(form_factor, FF_HDMI) {
        DeviceType::Hdmi
    } else if is_form(form_factor, FF_SPDIF) {
        DeviceType::Digital
    } else if transport.is_usb() || contains(lower.as_str(), "usb") {
        DeviceType::Usb
    } else {
        DeviceType::Speakers
    }
}

/// Whether an endpoint is the telephony side of a Bluetooth headset. Such an
/// endpoint lives beside the music side of the same headset, and to play on it
/// takes the headset out of music mode, so it is neither shown nor routed to.
pub fn is_handsfree_endpoint(
    name: &str,
    form_factor: Option<u32>,
    transport: &TransportInfo<String>,
) -> (r: bool)
    ensures
        r == handsfree(name@, form_factor, transport.deep_view()),
{
    if is_word(&transport.enumerator, "BTHHFENUM") {
        return true;
    }
    if names_word(&transport.bus_path, "0000111e") || names_word(
        &transport.bus_path,
        "0000111f",
    ) {
        return true;
    }
    let lower = to_ascii_lowercase(name);
    is_form(form_factor, FF_HEADSET) && contains(lower.as_str(), "hands-free")
}

// ---------------------------------------------------------------------------
// Rows
// ---------------------------------------------------------------------------

/// Properties of an endpoint as the property store has them; an empty text
/// counts as absent.
#[derive(Debug)]
pub struct Properties<T> {
    pub friendly_name: Option<T>,
    pub form_factor: Option<u32>,
    pub enumerator: Option<T>,
    pub bus_path: Option<T>,
    /// Name of the adapter's interface.
    pub interface_name: Option<T>,
    /// Name of the adapter in the endpoint's own properties.
    pub adapter_name: Option<T>,
}

impl DeepView for Properties<String> {
    type V = Properties<Seq<char>>;

    open spec fn deep_view(&self) -> Properties<Seq<char>> {
        Properties {
            friendly_name: self.friendly_name.deep_view(),
            form_factor: self.form_factor,
            enumerator: self.enumerator.deep_view(),
            bus_path: self.bus_path.deep_view(),
            interface_name: self.interface_name.deep_view(),
            adapter_name: self.adapter_name.deep_view(),
        }
    }
}

/// An active render endpoint, as far as it could be read.
#[derive(Debug)]
pub struct Endpoint {
    pub id: String,
    /// Its properties, if they could be opened.
    pub properties: Option<Properties<String>>,
    /// Its volume and mute, if they could be read.
    pub level: Option<Level>,
}

/// What an [`Endpoint`] says, in terms of text.
pub struct EndpointView {
    pub id: Seq<char>,
    pub properties: Option<Properties<Seq<char>>>,
    pub level: Option<Level>,
}

impl DeepView for Endpoint {
    type V = EndpointView;

    open spec fn deep_view(&self) -> EndpointView {
        EndpointView {
            id: self.id@,
            properties: self.properties.deep_view(),
            level: self.level,
        }
    }
}

/// A text that is not empty.
pub open spec fn present(text: Option<Seq<char>>) -> Option<Seq<char>> {
    if text is Some && text->0.len() > 0 {
        text
    } else {
        None
    }
}

/// The name that is shown: the friendly name, or the id.
pub open spec fn shown_name(id: Seq<char>, p: Properties<Seq<char>>) -> Seq<char> {
    match present(p.friendly_name) {
        Some(name) => name,
        None => id,
    }
}

/// What the properties tell of the transport. The name of the adapter's
/// interface comes before the one in the endpoint's own properties.
pub open spec fn transport_of(p: Properties<Seq<char>>) -> TransportInfo<Seq<char>> {
    TransportInfo {
        enumerator: present(p.enumerator),
        bus_path: present(p.bus_path),
        adapter: match present(p.interface_name) {
            Some(name) => Some(name),
            None => present(p.adapter_name),
        },
    }
}

/// The endpoint is known to be the telephony side of a headset. Without
/// properties it is not: better to show a doubtful row than to hide a device.
pub open spec fn is_telephony(e: EndpointView) -> bool {
    match e.properties {
        Some(p) => handsfree(shown_name(e.id, p), p.form_factor, transport_of(p)),
        None => false,
    }
}

/// The row of an endpoint; none if it could not be read.
pub open spec fn endpoint_row(enabled: Seq<Seq<char>>, e: EndpointView) -> Option<DeviceView> {
    match (e.properties, e.level) {
        (Some(p), Some(level)) => Some(
            DeviceView {
                id: e.id,
                name: shown_name(e.id, p),
                device_type: endpoint_type(shown_name(e.id, p), p.form_factor, transport_of(p)),
                enabled: enabled.contains(e.id),
                volume: level.volume.in_unit(),
                muted: level.muted,
            },
        ),
        _ => None,
    }
}

/// The row that an endpoint has in the list, if it has one.
pub open spec fn shown_row(enabled: Seq<Seq<char>>, e: EndpointView) -> Option<DeviceView> {
    if is_telephony(e) {
        None
    } else {
        endpoint_row(enabled, e)
    }
}

/// The device list: every endpoint that could be read, without the telephony
/// sides of headsets.
pub open spec fn device_list(enabled: Seq<Seq<char>>, endpoints: Seq<EndpointView>) -> Seq<
    DeviceView,
> {
    endpoints.filter_map(|e: EndpointView| shown_row(enabled, e))
}

fn take_present(text: &Option<String>) -> (r: Option<String>)
    ensures
        r.deep_view() == present(text.deep_view()),
{
    match text {
        Some(t) => if t.as_str().is_empty() {
            None
        } else {
            Some(t.clone())
        },
        None => None,
    }
}

impl Properties<String> {
    fn name_or(&self, id: &str) -> (r: String)
        ensures
            r@ == shown_name(id@, self.deep_view()),
    {
        match take_present(&self.friendly_name) {
            Some(name) => name,
            None => id.to_owned(),
        }
    }

    fn transport(&self) -> (r: TransportInfo<String>)
        ensures
            r.deep_view() == transport_of(self.deep_view()),
    {
        let adapter = match take_present(&self.interface_name) {
            Some(name) => Some(name),
            None => take_present(&self.adapter_name),
        };
        TransportInfo {
            enumerator: take_present(&self.enumerator),
            bus_path: take_present(&self.bus_path),
            adapter,
        }
    }
}

impl Endpoint {
    /// Whether this is known to be the telephony side of a headset.
    pub fn device_is_handsfree(&self) -> (r: bool)
        ensures
            r == is_telephony(self.deep_view()),
    {
        match &self.properties {
            Some(p) => {
                let name = p.name_or(self.id.as_str());
                let transport = p.transport();
                is_handsfree_endpoint(name.as_str(), p.form_factor, &transport)
            },
            None => false,
        }
    }

    /// The row of this endpoint; none if it could not be read.
    pub fn read_device(&self, enabled: &Vec<String>) -> (r: Option<Device>)
        ensures
            r.deep_view() == endpoint_row(enabled.deep_view(), self.deep_view()),
    {
        match (&self.properties, &self.level) {
            (Some(p), Some(level)) => {
                let name = p.name_or(self.id.as_str());
                let transport = p.transport();
                let device_type = infer_device_type(name.as_str(), p.form_factor, &transport);
                Some(
                    Device {
                        id: self.id.clone(),
                        name,
                        device_type,
                        enabled: has_name(enabled, self.id.as_str()),
                        volume: level.volume.clamp_unit(),
                        muted: level.muted,
                    },
                )
            },
            _ => None,
        }
    }
}

/// The device list: every endpoint that could be read, without the telephony
/// sides of headsets.
pub fn device_rows(enabled: &Vec<String>, endpoints: &Vec<Endpoint>) -> (rows: Vec<Device>)
    ensures
        rows.deep_view() == device_list(enabled.deep_view(), endpoints.deep_view()),
{
    let ghost model = endpoints.deep_view();
    let ghost wanted = enabled.deep_view();
    let ghost show = |e: EndpointView| shown_row(wanted, e);
    let mut rows: Vec<Device> = Vec::new();
    let mut i: usize = 0;
    assert(model.take(0) =~= Seq::empty());
    assert(rows.deep_view() =~= model.take(0).filter_map(show)) by {
        reveal(Seq::filter_map);
    }
    while i < endpoints.len()
        invariant
            i <= endpoints.len(),
            model == endpoints.deep_view(),
            wanted == enabled.deep_view(),
            show == (|e: EndpointView| shown_row(wanted, e)),
            rows.deep_view() == model.take(i as int).filter_map(show),
        decreases endpoints.len() - i,
    {
        let ghost before = rows.deep_view();
        proof {
            model.lemma_filter_map_take_succ(show, i as int);
        }
        assert(model[i as int] == endpoints[i as int].deep_view());
        if !endpoints[i].device_is_handsfree() {
            if let Some(row) = endpoints[i].read_device(enabled) {
                let ghost shown = row.deep_view();
                rows.push(row);
                assert(rows.deep_view() =~= before.push(shown));
            }
        }
        i += 1;
    }
    assert(model.take(i as int) =~= model);
    rows
}

// ---------------------------------------------------------------------------
// Ids for the operating system
// ---------------------------------------------------------------------------

/// The UTF-16 code units of a character.
pub open spec fn units(c: char) -> Seq<u16> {
    let n = c as u32;
    if n < 0x1_0000 {
        seq![n as u16]
    } else {
        seq![
            (0xD800 + (n - 0x1_0000) / 0x400) as u16,
            (0xDC00 + (n - 0x1_0000) % 0x400) as u16,
        ]
    }
}

/// The UTF-16 code units of a text.
pub open spec fn utf16(s: Seq<char>) -> Seq<u16>
    decreases s.len(),
{
    if s.len() == 0 {
        Seq::empty()
    } else {
        utf16(s.drop_last()) + units(s.last())
    }
}

/// A text in UTF-16, with a zero at its end.
pub fn to_wide(s: &str) -> (r: Vec<u16>)
    ensures
        r@ == utf16(s@).push(0),
{
    let mut r: Vec<u16> = Vec::new();
    for c in it: s.chars()
        invariant
            it.seq() == s@,
            r@ == utf16(s@.take(it.index() as int)),
    {
        let ghost before = r@;
        proof {
            assert(s@.take(it.index() + 1).drop_last() =~= s@.take(it.index() as int));
            assert(s@.take(it.index() + 1).last() == c);
        }
        let n = c as u32;
        if n < 0x1_0000 {
            r.push(n as u16);
        } else {
            let rest: u32 = n - 0x1_0000;
            r.push((0xD800 + rest / 0x400) as u16);
            r.push((0xDC00 + rest % 0x400) as u16);
        }
        assert(r@ =~= before + units(c));
    }
    assert(s@.take(s@.len() as int) =~= s@);
    r.push(0);
    r
}

/// Bluetooth beats headphones, and headphones beat USB, as on every platform.
pub proof fn lemma_categories_have_a_priority(
    name: Seq<char>,
    form_factor: Option<u32>,
    transport: TransportInfo<Seq<char>>,
)
    ensures
        ({
            let category = endpoint_type(name, form_factor, transport);
            let bluetooth = over_bluetooth(transport) || mentions(
                ascii_lower(name),
                "bluetooth"@,
            ) || mentions(ascii_lower(name), "bt-"@);
            let headphones = form_factor == Some(FF_HEADPHONES) || form_factor == Some(FF_HEADSET);
            &&& category == DeviceType::Bluetooth <==> bluetooth
            &&& category == DeviceType::Headphones <==> !bluetooth && headphones
            &&& category == DeviceType::Usb ==> !bluetooth && !headphones
            &&& category != DeviceType::Master
        }),
{
}

/// No telephony side of a headset is in the list.
pub proof fn lemma_telephony_is_hidden(
    enabled: Seq<Seq<char>>,
    endpoints: Seq<EndpointView>,
    i: int,
)
    requires
        0 <= i < device_list(enabled, endpoints).len(),
    ensures
        exists|j: int|
            0 <= j < endpoints.len() && !is_telephony(#[trigger] endpoints[j]) && endpoint_row(
                enabled,
                endpoints[j],
            ) == Some(device_list(enabled, endpoints)[i]),
{
    let show = |e: EndpointView| shown_row(enabled, e);
    let row = device_list(enabled, endpoints)[i];
    assert(device_list(enabled, endpoints).contains(row));
    endpoints.lemma_filter_map_contains(show, row);
    let e = choose|e: EndpointView| endpoints.contains(e) && show(e) == Some(row);
    let j = choose|j: int| 0 <= j < endpoints.len() && endpoints[j] == e;
    assert(!is_telephony(endpoints[j]));
}

} // verus!
