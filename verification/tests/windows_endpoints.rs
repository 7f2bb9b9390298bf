use sound_multiplexer_audio::device::DeviceType;
use sound_multiplexer_audio::volume::{Level, Volume};
use sound_multiplexer_audio::windows::endpoints::{
    device_rows, infer_device_type, is_handsfree_endpoint, to_wide, Endpoint, Properties,
    TransportInfo, FF_HDMI, FF_HEADPHONES, FF_HEADSET, FF_SPDIF,
};

fn transport(
    enumerator: Option<&str>,
    bus_path: Option<&str>,
    adapter: Option<&str>,
) -> TransportInfo<String> {
    TransportInfo {
        enumerator: enumerator.map(str::to_string),
        bus_path: bus_path.map(str::to_string),
        adapter: adapter.map(str::to_string),
    }
}

fn enum_only(enumerator: &str) -> TransportInfo<String> {
    transport(Some(enumerator), None, None)
}

/// An endpoint of which only the bus is known.
fn bus(enumerator: Option<&str>) -> TransportInfo<String> {
    transport(enumerator, None, None)
}

#[test]
fn mod_bluetooth_bus_beats_headphones_form_factor() {
    // BT headsets report the Headphones/Headset form factor; the
    // transport must win (see infer_device_type's priority order).
    assert_eq!(
        infer_device_type("WH-1000XM5", Some(FF_HEADPHONES), &enum_only("BTHENUM")),
        DeviceType::Bluetooth
    );
    assert_eq!(
        infer_device_type("Buds Pro", Some(FF_HEADSET), &enum_only("bthenum")),
        DeviceType::Bluetooth
    );
}

#[test]
fn offloaded_bluetooth_is_detected_without_a_bthenum_enumerator() {
    // Real hardware (Intel SST offload): the endpoint's enumerator is the
    // platform audio driver, and only the adapter name / bus path still
    // say Bluetooth. Values below are verbatim from a WH-1000XM5.
    assert_eq!(
        infer_device_type(
            "Headphones (WH-1000XM5)",
            Some(FF_HEADPHONES),
            &transport(
                Some("INTELAUDIO"),
                None,
                Some("Intel® Smart Sound Technology for Bluetooth® Audio"),
            ),
        ),
        DeviceType::Bluetooth
    );
    assert_eq!(
        infer_device_type(
            "Headphones (WH-1000XM5)",
            Some(FF_HEADPHONES),
            &transport(
                Some("INTELAUDIO"),
                Some("{1}.BTHENUM\\{0000110B-0000-1000-8000-00805F9B34FB}_VID&0002054C_PID&0DF0\\7&105BD535&0&AC800ADBDAF3_C00000000"),
                None,
            ),
        ),
        DeviceType::Bluetooth
    );
}

#[test]
fn mod_bluetooth_name_keywords_win_without_bus_info() {
    assert_eq!(
        infer_device_type("Bluetooth Speaker", Some(FF_HDMI), &transport(None, None, None)),
        DeviceType::Bluetooth
    );
    assert_eq!(
        infer_device_type("BT-900 Stereo", None, &transport(None, None, None)),
        DeviceType::Bluetooth
    );
}

#[test]
fn mod_headphones_and_headset_form_factors_map_to_headphones() {
    assert_eq!(
        infer_device_type("Realtek Audio", Some(FF_HEADPHONES), &transport(None, None, None)),
        DeviceType::Headphones
    );
    assert_eq!(
        infer_device_type("Realtek Audio", Some(FF_HEADSET), &transport(None, None, None)),
        DeviceType::Headphones
    );
}

#[test]
fn mod_headphones_form_factor_beats_usb_transport() {
    // A USB headset is headphones to the user; USB is only a fallback
    // for endpoints whose form factor says nothing more specific.
    assert_eq!(
        infer_device_type("USB Gaming Headset", Some(FF_HEADSET), &enum_only("USB")),
        DeviceType::Headphones
    );
}

#[test]
fn mod_hdmi_and_spdif_form_factors_map_to_hdmi_and_digital() {
    assert_eq!(
        infer_device_type("LG TV", Some(FF_HDMI), &transport(None, None, None)),
        DeviceType::Hdmi
    );
    assert_eq!(
        infer_device_type("Optical Out", Some(FF_SPDIF), &transport(None, None, None)),
        DeviceType::Digital
    );
}

#[test]
fn usb_bus_adapter_or_name_keyword_is_the_fallback_transport() {
    assert_eq!(
        infer_device_type("Scarlett 2i2", None, &enum_only("USB")),
        DeviceType::Usb
    );
    assert_eq!(
        infer_device_type("Scarlett 2i2", None, &enum_only("usb")),
        DeviceType::Usb
    );
    assert_eq!(
        infer_device_type("Scarlett 2i2", None, &transport(None, None, Some("USB Audio Device"))),
        DeviceType::Usb
    );
    assert_eq!(
        infer_device_type("Generic USB DAC", None, &transport(None, None, None)),
        DeviceType::Usb
    );
}

#[test]
fn mod_unknown_everything_defaults_to_speakers() {
    assert_eq!(
        infer_device_type("Realtek High Definition Audio", None, &transport(None, None, None)),
        DeviceType::Speakers
    );
    // An unrecognized form factor on a non-USB/BT bus falls through too.
    assert_eq!(
        infer_device_type("Mystery Endpoint", Some(9999), &enum_only("HDAUDIO")),
        DeviceType::Speakers
    );
}

#[test]
fn handsfree_detected_by_service_uuid_on_offload_stacks() {
    // Verbatim bus path of a WH-1000XM5 Hands-Free endpoint on Intel SST:
    // 0000111e is the Bluetooth Hands-Free service class.
    let hfp = transport(
        Some("INTELAUDIO"),
        Some("{1}.BTHENUM\\{0000111E-0000-1000-8000-00805F9B34FB}_HCIBYPASS_VID&0002054C_PID&0DF0\\7&105BD535&0&AC800ADBDAF3_C00000000"),
        Some("Intel® Smart Sound Technology for Bluetooth® Audio"),
    );
    assert!(is_handsfree_endpoint(
        "Headset (WH-1000XM5 Hands-Free)",
        Some(FF_HEADSET),
        &hfp
    ));
    // The same headset's A2DP endpoint (service 0000110b) must stay.
    let a2dp = transport(
        Some("INTELAUDIO"),
        Some("{1}.BTHENUM\\{0000110B-0000-1000-8000-00805F9B34FB}_VID&0002054C_PID&0DF0\\7&105BD535&0&AC800ADBDAF3_C00000000"),
        Some("Intel® Smart Sound Technology for Bluetooth® Audio"),
    );
    assert!(!is_handsfree_endpoint(
        "Headphones (WH-1000XM5)",
        Some(FF_HEADPHONES),
        &a2dp
    ));
}

#[test]
fn handsfree_detected_by_bthhfenum_on_the_classic_stack() {
    assert!(is_handsfree_endpoint(
        "Headset (WH-1000XM5 Hands-Free AG Audio)",
        Some(FF_HEADSET),
        &enum_only("BTHHFENUM")
    ));
    assert!(!is_handsfree_endpoint(
        "Headphones (WH-1000XM5 Stereo)",
        Some(FF_HEADPHONES),
        &enum_only("BTHENUM")
    ));
}

#[test]
fn handsfree_name_fallback_requires_the_headset_form_factor() {
    let none = transport(None, None, None);
    assert!(is_handsfree_endpoint(
        "Headset (Buds Hands-Free)",
        Some(FF_HEADSET),
        &none
    ));
    // Name alone must not hide a device with a different form factor...
    assert!(!is_handsfree_endpoint(
        "Hands-Free Sounding Speakers",
        Some(1),
        &none
    ));
    // ...and an ordinary headset without HFP markers must stay visible.
    assert!(!is_handsfree_endpoint(
        "USB Gaming Headset",
        Some(FF_HEADSET),
        &none
    ));
}

fn endpoint(id: &str, name: Option<&str>, form_factor: Option<u32>, bus_path: Option<&str>) -> Endpoint {
    Endpoint {
        id: id.into(),
        properties: Some(Properties {
            friendly_name: name.map(str::to_string),
            form_factor,
            enumerator: Some("INTELAUDIO".into()),
            bus_path: bus_path.map(str::to_string),
            interface_name: Some(String::new()),
            adapter_name: Some("USB Audio".into()),
        }),
        level: Some(Level { volume: Volume { bits: 1.25f32.to_bits() }, muted: true }),
    }
}

#[test]
fn rows_skip_telephony_and_unreadable_endpoints() {
    let mut unreadable = endpoint("u", Some("U"), None, None);
    unreadable.level = None;
    let mut closed = endpoint("c", Some("C"), None, None);
    closed.properties = None;
    let endpoints = vec![
        endpoint("a", Some("Speaker"), None, None),
        endpoint("h", Some("Headset"), Some(FF_HEADSET), Some("x{0000111f-0}")),
        endpoint("n", Some(""), Some(FF_HEADPHONES), None),
        unreadable,
        closed,
    ];
    assert!(endpoints[1].device_is_handsfree());
    assert!(!endpoints[4].device_is_handsfree());
    let rows = device_rows(&vec!["n".to_string()], &endpoints);
    let ids: Vec<&str> = rows.iter().map(|d| d.id.as_str()).collect();
    assert_eq!(ids, ["a", "n"]);
    // The adapter's own name stands in for the empty name of its interface.
    assert_eq!(rows[0].device_type, DeviceType::Usb);
    assert_eq!(f32::from_bits(rows[0].volume.bits), 1.0);
    assert!(rows[0].muted && !rows[0].enabled);
    // An empty friendly name counts as absent: the id is shown.
    assert_eq!(rows[1].name, "n");
    assert!(rows[1].enabled);
}

#[test]
fn ids_go_to_the_system_in_utf16() {
    for s in ["", "{0.0.0.00000000}.{ab-cd}", "Größe", "\u{1F508}x\u{10FFFF}"] {
        let mut expected: Vec<u16> = s.encode_utf16().collect();
        expected.push(0);
        assert_eq!(to_wide(s), expected);
    }
}

#[test]
fn usb_bus_or_name_keyword_is_the_fallback_transport() {
    assert_eq!(
        infer_device_type("Scarlett 2i2", None, &enum_only("USB")),
        DeviceType::Usb
    );
    assert_eq!(
        infer_device_type("Scarlett 2i2", None, &enum_only("usb")),
        DeviceType::Usb
    );
    assert_eq!(
        infer_device_type("Generic USB DAC", None, &transport(None, None, None)),
        DeviceType::Usb
    );
}

#[test]
fn bluetooth_bus_beats_headphones_form_factor() {
    // BT headsets report the Headphones/Headset form factor; the
    // transport must win.
    assert_eq!(
        infer_device_type("WH-1000XM5", Some(FF_HEADPHONES), &bus(Some("BTHENUM"))),
        DeviceType::Bluetooth
    );
    assert_eq!(
        infer_device_type("Buds Pro", Some(FF_HEADSET), &bus(Some("bthenum"))),
        DeviceType::Bluetooth
    );
}

#[test]
fn bluetooth_name_keywords_win_without_bus_info() {
    assert_eq!(
        infer_device_type("Bluetooth Speaker", Some(FF_HDMI), &bus(None)),
        DeviceType::Bluetooth
    );
    assert_eq!(infer_device_type("BT-900 Stereo", None, &bus(None)), DeviceType::Bluetooth);
}

#[test]
fn headphones_and_headset_form_factors_map_to_headphones() {
    assert_eq!(
        infer_device_type("Realtek Audio", Some(FF_HEADPHONES), &bus(None)),
        DeviceType::Headphones
    );
    assert_eq!(
        infer_device_type("Realtek Audio", Some(FF_HEADSET), &bus(None)),
        DeviceType::Headphones
    );
}

#[test]
fn headphones_form_factor_beats_usb_transport() {
    // A USB headset is headphones to the user; USB is only a fallback
    // for endpoints whose form factor says nothing more specific.
    assert_eq!(
        infer_device_type("USB Gaming Headset", Some(FF_HEADSET), &bus(Some("USB"))),
        DeviceType::Headphones
    );
}

#[test]
fn hdmi_and_spdif_form_factors_map_to_hdmi_and_digital() {
    assert_eq!(infer_device_type("LG TV", Some(FF_HDMI), &bus(None)), DeviceType::Hdmi);
    assert_eq!(infer_device_type("Optical Out", Some(FF_SPDIF), &bus(None)), DeviceType::Digital);
}

#[test]
fn unknown_everything_defaults_to_speakers() {
    assert_eq!(
        infer_device_type("Realtek High Definition Audio", None, &bus(None)),
        DeviceType::Speakers
    );
    // An unrecognized form factor on a non-USB/BT bus falls through too.
    assert_eq!(
        infer_device_type("Mystery Endpoint", Some(9999), &bus(Some("HDAUDIO"))),
        DeviceType::Speakers
    );
}
