//! What the device list says of the endpoints, and how an endpoint is read.

use vstd::prelude::*;
use crate::device::DeviceType;
use crate::seq_laws::{
    lemma_filter_map_finds, lemma_filter_map_keeps_the_order, lemma_filter_map_of_two,
};
use crate::text::{ascii_lower, mentions};
use crate::windows::endpoints::{
    device_list, endpoint_row, endpoint_type, handsfree, is_telephony, over_bluetooth, over_usb, shown_name,
    shown_row, transport_of, units, utf16, EndpointView, Properties, TransportInfo,
};

verus! {

// ---------------------------------------------------------------------------
// Classification
// ---------------------------------------------------------------------------

/// The text is there, and in lower case it is `word`.
pub open spec fn is_in_lower_case(text: Option<Seq<char>>, word: Seq<char>) -> bool {
    text matches Some(t) && ascii_lower(t) == word
}

/// The text is there, and in lower case it mentions `word`.
pub open spec fn mentions_in_lower_case(text: Option<Seq<char>>, word: Seq<char>) -> bool {
    text matches Some(t) && mentions(ascii_lower(t), word)
}

proof fn lemma_lower_words()
    ensures
        ascii_lower("BTHENUM"@) == "bthenum"@,
        ascii_lower("BTHHFENUM"@) == "bthhfenum"@,
        ascii_lower("USB"@) == "usb"@,
{
    reveal_strlit("BTHENUM");
    reveal_strlit("bthenum");
    reveal_strlit("BTHHFENUM");
    reveal_strlit("bthhfenum");
    reveal_strlit("USB");
    reveal_strlit("usb");
    assert(ascii_lower("BTHENUM"@) =~= "bthenum"@);
    assert(ascii_lower("BTHHFENUM"@) =~= "bthhfenum"@);
    assert(ascii_lower("USB"@) =~= "usb"@);
}

/// What tells of Bluetooth and of USB: the enumerator by its whole name, and the
/// bus path and the adapter by a word in them; in either case of the letters.
pub proof fn lemma_what_tells_the_transport(t: TransportInfo<Seq<char>>)
    ensures
        over_bluetooth(t) <==> is_in_lower_case(t.enumerator, "bthenum"@) || is_in_lower_case(
            t.enumerator,
            "bthhfenum"@,
        ) || mentions_in_lower_case(t.bus_path, "bthenum"@) || mentions_in_lower_case(
            t.adapter,
            "bluetooth"@,
        ),
        over_usb(t) <==> is_in_lower_case(t.enumerator, "usb"@) || mentions_in_lower_case(
            t.adapter,
            "usb"@,
        ),
{
    lemma_lower_words();
}

/// Each category has its signs, and holds where none of a stronger category
/// shows: Bluetooth by the transport or the name; headphones, HDMI and digital
/// by the form factors 3 and 5, 9, and 8; USB by the transport or the name; and
/// speakers without any.
pub proof fn lemma_each_category_has_its_signs(
    name: Seq<char>,
    form_factor: Option<u32>,
    transport: TransportInfo<Seq<char>>,
)
    ensures
        ({
            let category = endpoint_type(name, form_factor, transport);
            let bluetooth = over_bluetooth(transport) || mentions(
                ascii_lower(name),
                "bluetooth"@,
            ) || mentions(ascii_lower(name), "bt-"@);
            let headphones = form_factor == Some(3u32) || form_factor == Some(5u32);
            let hdmi = form_factor == Some(9u32);
            let digital = form_factor == Some(8u32);
            let usb = over_usb(transport) || mentions(ascii_lower(name), "usb"@);
            let formless = !headphones && !hdmi && !digital;
            &&& bluetooth <==> category == DeviceType::Bluetooth
            &&& !bluetooth && headphones <==> category == DeviceType::Headphones
            &&& !bluetooth && hdmi <==> category == DeviceType::Hdmi
            &&& !bluetooth && digital <==> category == DeviceType::Digital
            &&& !bluetooth && formless && usb <==> category == DeviceType::Usb
            &&& !bluetooth && formless && !usb <==> category == DeviceType::Speakers
        }),
{
}

/// What tells of the telephony side of a headset: the enumerator of that side,
/// the number of one of the two Hands-Free services in the bus path, or the words
/// "hands-free" in the name of what has the form factor of a headset.
pub proof fn lemma_what_tells_of_telephony(
    name: Seq<char>,
    form_factor: Option<u32>,
    t: TransportInfo<Seq<char>>,
)
    ensures
        handsfree(name, form_factor, t) <==> is_in_lower_case(t.enumerator, "bthhfenum"@)
            || mentions_in_lower_case(t.bus_path, "0000111e"@) || mentions_in_lower_case(
            t.bus_path,
            "0000111f"@,
        ) || (form_factor == Some(5u32) && mentions(ascii_lower(name), "hands-free"@)),
{
    lemma_lower_words();
}

/// An empty text counts as absent. The friendly name is shown, or the id without
/// one; the adapter goes by the name of its interface, or by its own without one.
pub proof fn lemma_what_properties_tell(id: Seq<char>, p: Properties<Seq<char>>)
    ensures
        p.friendly_name matches Some(name) ==> name.len() > 0 ==> shown_name(id, p) == name,
        p.friendly_name is None || p.friendly_name->0.len() == 0 ==> shown_name(id, p) == id,
        p.enumerator matches Some(t) ==> t.len() > 0 ==> transport_of(p).enumerator == Some(t),
        p.enumerator is None || p.enumerator->0.len() == 0 ==> transport_of(p).enumerator is None,
        p.bus_path matches Some(t) ==> t.len() > 0 ==> transport_of(p).bus_path == Some(t),
        p.bus_path is None || p.bus_path->0.len() == 0 ==> transport_of(p).bus_path is None,
        p.interface_name matches Some(t) ==> t.len() > 0 ==> transport_of(p).adapter == Some(t),
        p.interface_name is None || p.interface_name->0.len() == 0 ==> (p.adapter_name matches
            Some(t) ==> t.len() > 0 ==> transport_of(p).adapter == Some(t)),
        (p.interface_name is None || p.interface_name->0.len() == 0) && (p.adapter_name is None
            || p.adapter_name->0.len() == 0) ==> transport_of(p).adapter is None,
{
}

/// An endpoint counts as the telephony side of a headset only by its properties:
/// by the name that is shown, the form factor and what the transport tells.
pub proof fn lemma_telephony_goes_by_the_properties(e: EndpointView)
    ensures
        e.properties is None ==> !is_telephony(e),
        e.properties matches Some(p) ==> (is_telephony(e) <==> handsfree(
            shown_name(e.id, p),
            p.form_factor,
            transport_of(p),
        )),
{
}

// ---------------------------------------------------------------------------
// Rows
// ---------------------------------------------------------------------------

/// An endpoint can be shown exactly if its properties and its level could be
/// read, and has a row in the list if it is no telephony side of a headset
/// either. The row shows its id, its name, its
/// category, its volume in the range from 0.0 to 1.0 and its mute, and is enabled
/// exactly if the id is among the enabled ones.
pub proof fn lemma_a_row_shows_its_endpoint(enabled: Seq<Seq<char>>, e: EndpointView)
    ensures
        shown_row(enabled, e) is Some <==> e.properties is Some && e.level is Some
            && !is_telephony(e),
        shown_row(enabled, e) is Some ==> shown_row(enabled, e) == endpoint_row(enabled, e),
        endpoint_row(enabled, e) is Some <==> e.properties is Some && e.level is Some,
        endpoint_row(enabled, e) matches Some(row) ==> {
            let p = e.properties->0;
            &&& row.id == e.id
            &&& row.name == shown_name(e.id, p)
            &&& row.device_type == endpoint_type(row.name, p.form_factor, transport_of(p))
            &&& row.volume == e.level->0.volume.in_unit()
            &&& row.muted == e.level->0.muted
            &&& row.enabled <==> enabled.contains(e.id)
        },
{
}

/// Every row of the list comes from an active endpoint that is no telephony side
/// of a headset, and shows that endpoint's volume and mute; every such endpoint
/// that could be read has a row.
pub proof fn lemma_rows_are_the_endpoints(
    enabled: Seq<Seq<char>>,
    endpoints: Seq<EndpointView>,
)
    ensures
        ({
            let rows = device_list(enabled, endpoints);
            &&& forall|r: int|
                0 <= r < rows.len() ==> exists|k: int|
                    #![trigger endpoints[k]]
                    0 <= k < endpoints.len() && (#[trigger] rows[r]).id == endpoints[k].id
                        && !is_telephony(endpoints[k]) && endpoints[k].level is Some
                        && rows[r].volume == endpoints[k].level->0.volume.in_unit()
                        && rows[r].muted == endpoints[k].level->0.muted && (rows[r].enabled
                        <==> enabled.contains(endpoints[k].id))
            &&& forall|k: int|
                0 <= k < endpoints.len() && (#[trigger] endpoints[k]).properties is Some
                    && endpoints[k].level is Some && !is_telephony(endpoints[k]) ==> exists|
                    r: int,
                |
                    #![trigger rows[r]]
                    0 <= r < rows.len() && rows[r].id == endpoints[k].id && rows[r].volume
                        == endpoints[k].level->0.volume.in_unit() && rows[r].muted
                        == endpoints[k].level->0.muted && (rows[r].enabled <==> enabled.contains(
                        endpoints[k].id,
                    ))
        }),
{
    let rows = device_list(enabled, endpoints);
    let show = |e: EndpointView| shown_row(enabled, e);
    assert forall|r: int| 0 <= r < rows.len() implies exists|k: int|
        #![trigger endpoints[k]]
        0 <= k < endpoints.len() && (#[trigger] rows[r]).id == endpoints[k].id && !is_telephony(
            endpoints[k],
        ) && endpoints[k].level is Some && rows[r].volume
            == endpoints[k].level->0.volume.in_unit() && rows[r].muted
            == endpoints[k].level->0.muted && (rows[r].enabled <==> enabled.contains(
            endpoints[k].id,
        )) by {
        assert(rows.contains(rows[r]));
        lemma_filter_map_finds(endpoints, show, rows[r]);
        let k = choose|k: int|
            0 <= k < endpoints.len() && show(#[trigger] endpoints[k]) == Some(rows[r]);
        lemma_a_row_shows_its_endpoint(enabled, endpoints[k]);
    }
    assert forall|k: int|
        0 <= k < endpoints.len() && (#[trigger] endpoints[k]).properties is Some
            && endpoints[k].level is Some && !is_telephony(endpoints[k]) implies exists|r: int|
        #![trigger rows[r]]
        0 <= r < rows.len() && rows[r].id == endpoints[k].id && rows[r].volume
            == endpoints[k].level->0.volume.in_unit() && rows[r].muted
            == endpoints[k].level->0.muted && (rows[r].enabled <==> enabled.contains(
            endpoints[k].id,
        )) by {
        lemma_a_row_shows_its_endpoint(enabled, endpoints[k]);
        let row = shown_row(enabled, endpoints[k])->0;
        assert(show(endpoints[k]) == Some(row));
        lemma_filter_map_finds(endpoints, show, row);
        let r = choose|r: int| 0 <= r < rows.len() && rows[r] == row;
        assert(rows[r] == row);
    }
}

/// The list of some endpoints and more is the list of those and the list of the
/// others; the list of one endpoint is its row, if it has one.
pub proof fn lemma_lists_of_endpoints_add_up(
    enabled: Seq<Seq<char>>,
    a: Seq<EndpointView>,
    b: Seq<EndpointView>,
    e: EndpointView,
)
    ensures
        device_list(enabled, a + b) == device_list(enabled, a) + device_list(enabled, b),
        device_list(enabled, seq![e]) == (match shown_row(enabled, e) {
            Some(row) => seq![row],
            None => Seq::empty(),
        }),
{
    let show = |e: EndpointView| shown_row(enabled, e);
    lemma_filter_map_of_two(a, b, show);
    Seq::lemma_filter_map_singleton(e, show);
}

/// The rows stand in the order of the endpoints.
pub proof fn lemma_rows_keep_the_order(
    enabled: Seq<Seq<char>>,
    endpoints: Seq<EndpointView>,
    i: int,
    j: int,
)
    requires
        0 <= i < j < endpoints.len(),
        shown_row(enabled, endpoints[i]) is Some,
        shown_row(enabled, endpoints[j]) is Some,
    ensures
        exists|p: int, q: int|
            0 <= p < q < device_list(enabled, endpoints).len() && (#[trigger] device_list(
                enabled,
                endpoints,
            )[p]).id == endpoints[i].id && (#[trigger] device_list(enabled, endpoints)[q]).id
                == endpoints[j].id,
{
    let show = |e: EndpointView| shown_row(enabled, e);
    let rows = device_list(enabled, endpoints);
    lemma_filter_map_keeps_the_order(endpoints, show, i, j);
    let (p, q) = choose|p: int, q: int|
        0 <= p < q < rows.len() && #[trigger] rows[p] == show(endpoints[i])->0
            && #[trigger] rows[q] == show(endpoints[j])->0;
    lemma_a_row_shows_its_endpoint(enabled, endpoints[i]);
    lemma_a_row_shows_its_endpoint(enabled, endpoints[j]);
    assert(rows[p].id == endpoints[i].id && rows[q].id == endpoints[j].id);
}

// ---------------------------------------------------------------------------
// Ids for the operating system
// ---------------------------------------------------------------------------

/// A character of the basic plane is one code unit, its own number; any other is
/// two, a high and a low surrogate that together give its number.
pub proof fn lemma_a_character_in_code_units(c: char)
    ensures
        (c as u32) < 0x1_0000 ==> units(c).len() == 1 && units(c)[0] == c as u32,
        (c as u32) >= 0x1_0000 ==> {
            &&& units(c).len() == 2
            &&& 0xD800 <= units(c)[0] < 0xDC00
            &&& 0xDC00 <= units(c)[1] < 0xE000
            &&& 0x1_0000 + (units(c)[0] - 0xD800) * 0x400 + (units(c)[1] - 0xDC00) == c as u32
        },
{
}

/// The code units of a text are those of its characters, one after the other.
pub proof fn lemma_a_text_in_code_units(s: Seq<char>, c: char)
    ensures
        utf16(Seq::<char>::empty()) == Seq::<u16>::empty(),
        utf16(s.push(c)) == utf16(s) + units(c),
{
    assert(s.push(c).drop_last() =~= s);
}

} // verus!
