use sound_multiplexer_audio::linux::modules::{
    arg_value, is_ours, listed_module_ids, parse_module_id, parse_our_modules, parse_slaves,
    COMBINED_SINK, NULL_SINK,
};

#[test]
fn own_sinks_are_recognized() {
    assert!(is_ours("sound_multiplexer_combined"));
    assert!(is_ours("sound_multiplexer_null"));
    assert!(!is_ours("alsa_output.pci-0000_00_1f.3.analog-stereo"));
}

#[test]
fn finds_our_modules_in_short_listing() {
    // Real pipewire-pulse output mixes single-line pactl-loaded modules
    // with native modules whose arguments span multiple lines. Matching
    // is by exact sink name: foreign sinks — even ones sharing our
    // prefix — must never be swept.
    let listing = "1\tlibpipewire-module-rt\t{\n\
        \x20           nice.level    = -11\n\
        \x20           rt.prio       = 60\n\
        \x20       }\t\n\
        2\tlibpipewire-module-protocol-native\t\n\
        536870916\tmodule-combine-sink\tsink_name=sound_multiplexer_combined slaves=a,b sink_properties=device.description='Sound-Multiplexer'\t\n\
        536870917\tmodule-null-sink\tsink_name=sound_multiplexer_null\t\n\
        536870918\tmodule-null-sink\tsink_name=someone_elses_null\t\n\
        536870919\tmodule-null-sink\tsink_name=sound_multiplexer_nullish\t\n";
    let ours = parse_our_modules(listing);
    assert_eq!(ours.len(), 2);
    assert_eq!(ours[0].id, 536870916);
    assert_eq!(ours[0].sink_name, COMBINED_SINK);
    assert_eq!(parse_slaves(&ours[0].args), vec!["a", "b"]);
    assert_eq!(ours[1].id, 536870917);
    assert_eq!(ours[1].sink_name, NULL_SINK);
    assert!(parse_slaves(&ours[1].args).is_empty());
}

#[test]
fn lists_every_module_id() {
    let listing = "1\tlibpipewire-module-rt\t{\n\
        \x20           nice.level    = -11\n\
        \x20       }\t\n\
        536870916\tmodule-combine-sink\tsink_name=sound_multiplexer_combined slaves=a\t\n";
    assert_eq!(listed_module_ids(listing), vec![1, 536870916]);
}

#[test]
fn extracts_module_argument_values() {
    let args = "sink_name=sound_multiplexer_combined \
                slaves=alsa_output.pci-1,bluez_output.AA.1 \
                sink_properties=device.description='Sound-Multiplexer'";
    assert_eq!(arg_value(args, "sink_name"), Some(COMBINED_SINK));
    assert_eq!(
        arg_value(args, "slaves"),
        Some("alsa_output.pci-1,bluez_output.AA.1")
    );
    // A key must match a whole token, not a prefix of another key.
    assert_eq!(arg_value(args, "sink"), None);
    assert_eq!(arg_value(args, "slave"), None);
    assert_eq!(arg_value("", "sink_name"), None);
}

#[test]
fn module_argument_quoting_edge_cases() {
    // A quoted value with whitespace in an earlier argument must not
    // hide a later key (whitespace splitting cuts the quoted value, but
    // the following key=value tokens still parse).
    let args = "sink_properties=device.description='Nice Name' \
                sink_name=sound_multiplexer_null";
    assert_eq!(arg_value(args, "sink_name"), Some(NULL_SINK));
    // Tabs separate arguments just as well as spaces.
    assert_eq!(arg_value("sink_name=a\tslaves=b,c", "slaves"), Some("b,c"));
    // First occurrence wins for a repeated key.
    assert_eq!(arg_value("slaves=a slaves=b", "slaves"), Some("a"));
    // Values may themselves contain '='.
    assert_eq!(
        arg_value("sink_properties=device.description='X'", "sink_properties"),
        Some("device.description='X'")
    );

    // We always load with an unquoted sink_name, so a quoted one is
    // foreign and the sweep must stay conservative and skip it. A
    // native module's argument-continuation line mentioning our sink
    // name is not a module row either.
    let listing = "7\tmodule-null-sink\tsink_name=\"sound_multiplexer_null\"\t\n\
        \x20   sink_name=sound_multiplexer_combined\n\
        8\tmodule-null-sink\tsink_properties=device.description='a b' sink_name=sound_multiplexer_null\t\n";
    let ours = parse_our_modules(listing);
    assert_eq!(ours.len(), 1);
    assert_eq!(ours[0].id, 8);
    assert_eq!(ours[0].sink_name, NULL_SINK);
}

#[test]
fn parses_slaves_for_adoption() {
    let args = "sink_name=sound_multiplexer_combined \
                slaves=alsa_output.pci-1,bluez_output.AA.1 \
                sink_properties=device.description='Sound-Multiplexer'";
    assert_eq!(
        parse_slaves(args),
        vec!["alsa_output.pci-1", "bluez_output.AA.1"]
    );
    assert_eq!(parse_slaves("sink_name=x slaves=only_one"), vec!["only_one"]);
    assert!(parse_slaves("sink_name=sound_multiplexer_null").is_empty());
    assert!(parse_slaves("sink_name=x slaves=").is_empty());
    assert!(parse_slaves("").is_empty());
}

#[test]
fn parses_load_module_stdout() {
    assert_eq!(parse_module_id("536870916\n").unwrap(), 536870916);
    assert!(parse_module_id("Failure: Module initialization failed").is_err());
    assert!(parse_module_id("").is_err());
}
