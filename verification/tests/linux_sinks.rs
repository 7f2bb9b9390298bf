use serde_json::Value;
use sound_multiplexer_audio::device::DeviceType;
use sound_multiplexer_audio::linux::modules::COMBINED_SINK;
use sound_multiplexer_audio::linux::sinks::{
    classify_lowercase, device_rows, infer_device_type, master_device, sinks_from_raw, RawSink,
    Sink,
};
use sound_multiplexer_audio::volume::Volume;

/// Trimmed capture of `pactl -f json list sinks` (pactl 17 on
/// pipewire-pulse), extended with representative synthetic sinks.
const SINKS_JSON: &str = r#"[
  {
    "index": 67,
    "state": "SUSPENDED",
    "name": "alsa_output.pci-0000_00_1f.3.analog-stereo",
    "description": "Built-in Audio Analog Stereo",
    "driver": "PipeWire",
    "owner_module": 4294967295,
    "mute": true,
    "volume": {
      "front-left": { "value": 32768, "value_percent": "50%", "db": "-18.06 dB" },
      "front-right": { "value": 65536, "value_percent": "100%", "db": "0.00 dB" }
    },
    "balance": 0.0,
    "properties": {
      "device.bus": "pci",
      "device.form_factor": "internal",
      "media.class": "Audio/Sink"
    },
    "active_port": "analog-output-speaker"
  },
  {
    "index": 70,
    "name": "bluez_output.AA_BB_CC_DD_EE_FF.1",
    "description": "WH-1000XM4",
    "mute": false,
    "volume": {
      "mono": { "value": 98304, "value_percent": "150%", "db": "10.57 dB" }
    },
    "properties": {
      "device.bus": "bluetooth",
      "device.form_factor": "headset"
    }
  },
  {
    "index": 71,
    "name": "alsa_output.pci-0000_01_00.1.hdmi-stereo",
    "description": "HDMI Audio",
    "mute": false,
    "volume": {},
    "properties": {}
  },
  {
    "index": 90,
    "name": "sound_multiplexer_combined",
    "description": "Sound-Multiplexer",
    "owner_module": 536870916,
    "mute": false,
    "volume": {
      "front-left": { "value": 65536, "value_percent": "100%", "db": "0.00 dB" }
    },
    "properties": {}
  }
]"#;

/// Reads a listing as the app does: the fields as they are, the mean of the
/// channel volumes computed.
fn parse_sinks(json: &str) -> Vec<Sink> {
    let listed: Vec<serde_json::Map<String, Value>> = serde_json::from_str(json).unwrap();
    let mut raw: Vec<RawSink> = Vec::new();
    for sink in listed {
        let text = |key: &str| sink.get(key).and_then(|v| v.as_str()).unwrap().to_string();
        let empty = serde_json::Map::new();
        let channels = sink.get("volume").and_then(|v| v.as_object()).unwrap_or(&empty);
        let values: Vec<f64> = channels
            .values()
            .map(|c| c.get("value").and_then(|v| v.as_u64()).unwrap() as f64 / 65536.0)
            .collect();
        let mean_volume = if values.is_empty() {
            None
        } else {
            let mean = values.iter().sum::<f64>() / values.len() as f64;
            Some(Volume { bits: (mean as f32).to_bits() })
        };
        raw.push(RawSink {
            name: text("name"),
            description: text("description"),
            mute: sink.get("mute").and_then(|v| v.as_bool()).unwrap_or(false),
            owner_module: sink.get("owner_module").and_then(|v| v.as_u64()),
            mean_volume,
            properties: sink
                .get("properties")
                .and_then(|v| v.as_object())
                .cloned()
                .unwrap_or_default(),
        });
    }
    sinks_from_raw(raw)
}

fn level(volume: Volume) -> f32 {
    f32::from_bits(volume.bits)
}

#[test]
fn parses_sink_json() {
    let sinks = parse_sinks(SINKS_JSON);
    assert_eq!(sinks.len(), 4);

    let builtin = &sinks[0];
    assert_eq!(builtin.name, "alsa_output.pci-0000_00_1f.3.analog-stereo");
    assert_eq!(builtin.description, "Built-in Audio Analog Stereo");
    assert!(builtin.muted);
    // Mean of 50% and 100%.
    assert!((level(builtin.volume) - 0.75).abs() < 0.001);
    assert_eq!(builtin.device_type, DeviceType::Speakers);

    let bt = &sinks[1];
    assert!(!bt.muted);
    // 150% clamps to 1.0 for the Device contract.
    assert_eq!(level(bt.volume), 1.0);
    assert_eq!(bt.device_type, DeviceType::Bluetooth);

    // No channels reported -> assume full volume.
    assert_eq!(level(sinks[2].volume), 1.0);
    assert_eq!(sinks[2].device_type, DeviceType::Hdmi);

    // owner_module: PA_INVALID_INDEX and a missing field mean "none";
    // our combine sink links back to the module that loaded it.
    assert_eq!(builtin.owner_module, None);
    assert_eq!(sinks[1].owner_module, None);
    assert_eq!(sinks[3].owner_module, Some(536870916));
}

#[test]
fn parses_sink_json_with_missing_optional_fields() {
    let json = r#"[{ "name": "alsa_output.pci-0000_00_1b.0.analog-stereo",
                     "description": "Bare Sink" }]"#;
    let sinks = parse_sinks(json);
    assert_eq!(sinks.len(), 1);
    let sink = &sinks[0];
    assert_eq!(sink.name, "alsa_output.pci-0000_00_1b.0.analog-stereo");
    assert_eq!(sink.description, "Bare Sink");
    assert!(!sink.muted);
    assert_eq!(level(sink.volume), 1.0);
    assert_eq!(sink.owner_module, None);
    // No properties at all -> no bus/form_factor hints -> fallback type.
    assert_eq!(sink.device_type, DeviceType::Speakers);
}

#[test]
fn parses_empty_sink_listing() {
    assert!(parse_sinks("[]").is_empty());
    assert!(parse_sinks(" [ ] ").is_empty());
}

#[test]
fn master_row_appears_only_for_the_tracked_live_combine() {
    let sinks = parse_sinks(SINKS_JSON);

    // Tracked module with a live sink -> master row with real state.
    let master = master_device(Some(536870916), &sinks).unwrap();
    assert_eq!(master.id, COMBINED_SINK);
    assert_eq!(master.device_type, DeviceType::Master);
    assert_eq!(master.name, "Master volume");
    assert!(master.enabled);
    assert!(!master.muted);
    assert_eq!(level(master.volume), 1.0);

    // No tracked module (0/1-device routing) -> no master row.
    assert!(master_device(None, &sinks).is_none());
    // Tracked module whose sink is gone (mid-rebuild) -> no master row.
    assert!(master_device(Some(999), &sinks).is_none());
}

#[test]
fn infers_device_types_by_priority() {
    // Bluetooth wins over headphone hints.
    assert_eq!(
        infer_device_type("bluez_output.X.1", "WH-1000XM4 Headphones", Some("bluetooth"), Some("headset")),
        DeviceType::Bluetooth
    );
    assert_eq!(infer_device_type("BLUEZ_output.Y", "Speaker", None, None), DeviceType::Bluetooth);
    // Headphones via form factor or keywords, beating USB bus.
    assert_eq!(infer_device_type("alsa_output.usb-Foo", "Gaming Headset", Some("usb"), None), DeviceType::Headphones);
    assert_eq!(infer_device_type("alsa_output.pci-1", "Built-in", Some("pci"), Some("headphone")), DeviceType::Headphones);
    // HDMI / DisplayPort.
    assert_eq!(infer_device_type("alsa_output.pci-2.hdmi-stereo", "GPU 41 HDMI", Some("pci"), None), DeviceType::Hdmi);
    assert_eq!(infer_device_type("alsa_output.pci-2.3", "DisplayPort Audio", None, None), DeviceType::Hdmi);
    // Digital outputs.
    assert_eq!(infer_device_type("alsa_output.pci-3.iec958-stereo", "Digital Out", Some("pci"), None), DeviceType::Digital);
    assert_eq!(infer_device_type("alsa_output.x", "SPDIF Output", None, None), DeviceType::Digital);
    // Plain USB DAC.
    assert_eq!(infer_device_type("alsa_output.usb-DAC", "Audio DAC", Some("usb"), None), DeviceType::Usb);
    // Fallback.
    assert_eq!(infer_device_type("alsa_output.pci-0000_00_1f.3.analog-stereo", "Built-in Audio", Some("pci"), Some("internal")), DeviceType::Speakers);
}

#[test]
fn classification_of_lowered_text_reads_it_as_it_is() {
    assert_eq!(classify_lowercase("bluez_x", "y", None, None), DeviceType::Bluetooth);
    // Upper case is not looked through here.
    assert_eq!(classify_lowercase("BLUEZ_x", "y", None, None), DeviceType::Speakers);
    // All of a text is lowered first, letters beyond ASCII among it.
    assert_eq!(infer_device_type("X", "КОЛОНКИ HDMI", None, None), DeviceType::Hdmi);
}

#[test]
fn properties_that_are_no_text_are_absent() {
    let json = r#"[{ "name": "n", "description": "d",
                     "properties": { "device.bus": 3, "device.form_factor": "HEADPHONE" } },
                   { "name": "n", "description": "d",
                     "properties": { "device.bus": "USB" } }]"#;
    let sinks = parse_sinks(json);
    assert_eq!(sinks[0].device_type, DeviceType::Headphones);
    assert_eq!(sinks[1].device_type, DeviceType::Usb);
}

#[test]
fn rows_lead_with_the_master_and_leave_our_sinks_out() {
    let sinks = parse_sinks(SINKS_JSON);
    let enabled = vec!["bluez_output.AA_BB_CC_DD_EE_FF.1".to_string()];
    let rows = device_rows(Some(536870916), &enabled, &sinks);
    let ids: Vec<&str> = rows.iter().map(|d| d.id.as_str()).collect();
    assert_eq!(
        ids,
        [
            "sound_multiplexer_combined",
            "alsa_output.pci-0000_00_1f.3.analog-stereo",
            "bluez_output.AA_BB_CC_DD_EE_FF.1",
            "alsa_output.pci-0000_01_00.1.hdmi-stereo",
        ]
    );
    assert_eq!(rows[0].name, "Master volume");
    assert_eq!(rows[1].name, "Built-in Audio Analog Stereo");
    let on: Vec<bool> = rows.iter().map(|d| d.enabled).collect();
    assert_eq!(on, [true, false, true, false]);
    assert!(rows[1].muted);

    let rows = device_rows(None, &enabled, &sinks);
    assert_eq!(rows.len(), 3);
    assert!(rows.iter().all(|d| d.device_type != DeviceType::Master));
}
