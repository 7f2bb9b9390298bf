use sound_multiplexer_audio::device::DeviceType;
use sound_multiplexer_audio::linux::backend::LinuxBackend;
use sound_multiplexer_audio::linux::pactl::{LoadFailure, Reply};
use sound_multiplexer_audio::linux::routing::{Phase, Routing, RoutingError};
use sound_multiplexer_audio::linux::sinks::Sink;
use sound_multiplexer_audio::volume::Volume;

fn sink(name: &str, owner: Option<u64>, level: f32, muted: bool) -> Sink {
    Sink {
        name: name.into(),
        description: name.into(),
        owner_module: owner,
        volume: Volume { bits: level.to_bits() },
        muted,
        device_type: DeviceType::Speakers,
    }
}

fn plain_sinks(names: &[&str]) -> Vec<Sink> {
    names.iter().map(|n| sink(n, None, 1.0, false)).collect()
}

fn backend(enabled: &[&str], combine: Option<u32>, null: Option<u32>) -> LinuxBackend {
    LinuxBackend {
        enabled: strings(enabled),
        combine_module: combine,
        null_module: null,
    }
}

fn strings(items: &[&str]) -> Vec<String> {
    items.iter().map(|s| s.to_string()).collect()
}

fn ok(text: &str) -> Reply {
    Reply::Output(text.into())
}

fn bad(why: &str) -> Reply {
    Reply::Failed(why.into())
}

/// Runs a routing with scripted replies and gives the command lines that it
/// had, without the name of the program.
fn drive(backend: LinuxBackend, ids: &[&str], replies: Vec<Reply>) -> (Routing, Vec<String>) {
    let mut routing = Routing::apply_enabled(backend, strings(ids));
    let mut log: Vec<String> = Vec::new();
    let mut replies = replies.into_iter();
    while let Some(command) = routing.command() {
        log.push(command.argv(40).join(" "));
        let reply = replies.next().expect("a reply is missing");
        routing = routing.step(reply);
    }
    assert!(replies.next().is_none(), "replies are left over");
    (routing, log)
}

const LIST: &str = "-f json list sinks";
const LOAD_AB: &str = "load-module module-combine-sink sink_name=sound_multiplexer_combined slaves=a,b sink_properties=device.description='Sound-Multiplexer'";
const LOAD_NULL: &str = "load-module module-null-sink sink_name=sound_multiplexer_null sink_properties=device.description='Sound-Multiplexer-Silence'";

#[test]
fn two_devices_get_a_combined_sink() {
    let (routing, log) = drive(
        backend(&["a"], None, None),
        &["b", "ghost", "a", "b", "sound_multiplexer_null"],
        vec![
            Reply::Sinks(plain_sinks(&["a", "b", "sound_multiplexer_null"])),
            ok("12\n"),
            ok(""),
        ],
    );
    assert_eq!(
        log,
        [
            LIST,
            "load-module module-combine-sink sink_name=sound_multiplexer_combined slaves=b,a sink_properties=device.description='Sound-Multiplexer'",
            "set-default-sink sound_multiplexer_combined",
        ]
    );
    assert!(matches!(routing.phase, Phase::Done));
    assert_eq!(routing.backend.enabled, ["b", "a"]);
    assert_eq!(routing.backend.combine_module, Some(12));
}

#[test]
fn a_replacement_loads_first_and_inherits_the_level() {
    let mut sinks = plain_sinks(&["a", "b", "c"]);
    sinks.push(sink("sound_multiplexer_combined", Some(5), 0.4, true));
    let (routing, log) = drive(
        backend(&["a", "c"], Some(5), Some(6)),
        &["a", "b"],
        vec![
            Reply::Sinks(sinks),
            ok("9"),
            ok(""),
            bad("no volume"),
            bad("no mute"),
            ok(""),
            ok(""),
        ],
    );
    assert_eq!(
        log,
        [
            LIST,
            LOAD_AB,
            "unload-module 5",
            "set-sink-volume sound_multiplexer_combined 40%",
            "set-sink-mute sound_multiplexer_combined 1",
            "set-default-sink sound_multiplexer_combined",
            "unload-module 6",
        ]
    );
    assert!(matches!(routing.phase, Phase::Done));
    assert_eq!(routing.backend.combine_module, Some(9));
    assert_eq!(routing.backend.null_module, None);
    assert_eq!(routing.backend.enabled, ["a", "b"]);
}

#[test]
fn applying_the_same_set_again_does_nothing() {
    let mut sinks = plain_sinks(&["a", "b"]);
    sinks.push(sink("sound_multiplexer_combined", Some(5), 1.0, false));
    let (routing, log) = drive(
        backend(&["b", "a"], Some(5), None),
        &["a", "b"],
        vec![Reply::Sinks(sinks)],
    );
    assert_eq!(log, [LIST]);
    assert!(matches!(routing.phase, Phase::Done));
    assert_eq!(routing.backend.enabled, ["b", "a"]);
    assert_eq!(routing.backend.combine_module, Some(5));
}

#[test]
fn a_single_device_becomes_the_default_before_our_sinks_go() {
    let (routing, log) = drive(
        backend(&["a", "b"], Some(5), Some(6)),
        &["a"],
        vec![
            Reply::Sinks(plain_sinks(&["a", "b"])),
            ok(""),
            // Unloading fails, but the module is not listed any more.
            bad("no such entity"),
            ok("1\tmodule-x\t\n6\tmodule-null-sink\tsink_name=sound_multiplexer_null\t\n"),
            // Unloading fails, and the module is still listed.
            bad("busy"),
            ok("6\tmodule-null-sink\tsink_name=sound_multiplexer_null\t\n"),
        ],
    );
    assert_eq!(
        log,
        [
            LIST,
            "set-default-sink a",
            "unload-module 5",
            "list short modules",
            "unload-module 6",
            "list short modules",
        ]
    );
    assert!(matches!(routing.phase, Phase::Done));
    assert_eq!(routing.backend.enabled, ["a"]);
    assert_eq!(routing.backend.combine_module, None);
    assert_eq!(routing.backend.null_module, Some(6));
}

#[test]
fn silence_loads_or_reuses_the_null_sink() {
    let (routing, log) = drive(
        backend(&["a", "b"], Some(5), None),
        &[],
        vec![Reply::Sinks(plain_sinks(&["a", "b"])), ok("7\n"), ok(""), ok("")],
    );
    assert_eq!(
        log,
        [LIST, LOAD_NULL, "set-default-sink sound_multiplexer_null", "unload-module 5"]
    );
    assert!(matches!(routing.phase, Phase::Done));
    assert!(routing.backend.enabled.is_empty());
    assert_eq!(routing.backend.null_module, Some(7));
    assert_eq!(routing.backend.combine_module, None);

    let mut sinks = plain_sinks(&["a"]);
    sinks.push(sink("sound_multiplexer_null", Some(7), 1.0, false));
    let (routing, log) =
        drive(backend(&[], None, Some(7)), &["ghost"], vec![Reply::Sinks(sinks), ok("")]);
    assert_eq!(log, [LIST, "set-default-sink sound_multiplexer_null"]);
    assert_eq!(routing.backend.null_module, Some(7));
}

#[test]
fn a_defunct_null_sink_that_stays_stops_silence() {
    let (routing, log) = drive(
        backend(&["a"], None, Some(7)),
        &[],
        vec![Reply::Sinks(plain_sinks(&["a"])), bad("busy"), bad("no listing")],
    );
    assert_eq!(log, [LIST, "unload-module 7", "list short modules"]);
    assert_eq!(routing.backend.null_module, Some(7));
    assert_eq!(routing.backend.enabled, ["a"]);
    match routing.phase {
        Phase::Failed(why) => {
            assert!(matches!(why, RoutingError::NullStuck(7)));
            assert_eq!(
                why.message(),
                "null-sink module #7 is defunct but cannot be unloaded; refusing to load a same-named duplicate"
            );
        }
        other => panic!("{:?}", other),
    }

    // One that goes makes way for a new one.
    let (routing, _) = drive(
        backend(&["a"], None, Some(7)),
        &[],
        vec![Reply::Sinks(plain_sinks(&["a"])), ok(""), ok("8"), ok("")],
    );
    assert_eq!(routing.backend.null_module, Some(8));
}

#[test]
fn a_first_load_that_fails_leaves_everything_untouched() {
    let (routing, log) = drive(
        backend(&["a"], None, None),
        &["a", "b"],
        vec![Reply::Sinks(plain_sinks(&["a", "b"])), ok("Failure: \"x\"")],
    );
    assert_eq!(log, [LIST, LOAD_AB]);
    assert_eq!(routing.backend.enabled, ["a"]);
    match routing.phase {
        Phase::Failed(why) => {
            assert!(matches!(why, RoutingError::Load(LoadFailure::UnexpectedOutput(_, _))));
            assert_eq!(
                why.message(),
                "unexpected `pactl load-module` output: \"Failure: \\\"x\\\"\": invalid digit found in string"
            );
        }
        other => panic!("{:?}", other),
    }
}

#[test]
fn a_server_that_refuses_two_sinks_of_one_name_is_retried() {
    let mut sinks = plain_sinks(&["a", "b"]);
    sinks.push(sink("sound_multiplexer_combined", Some(5), 1.0, false));
    let (routing, log) = drive(
        backend(&["a"], Some(5), None),
        &["a", "b"],
        vec![Reply::Sinks(sinks), bad("exists"), ok(""), ok("9"), ok(""), ok("")],
    );
    assert_eq!(
        log,
        [
            LIST,
            LOAD_AB,
            "unload-module 5",
            LOAD_AB,
            "set-sink-volume sound_multiplexer_combined 40%",
            "set-default-sink sound_multiplexer_combined",
        ]
    );
    assert_eq!(routing.backend.combine_module, Some(9));
    assert_eq!(routing.backend.enabled, ["a", "b"]);
}

#[test]
fn a_rebuild_that_fails_falls_back_to_a_device_that_takes_the_default() {
    let (routing, log) = drive(
        backend(&["a"], Some(5), None),
        &["a", "b"],
        vec![
            Reply::Sinks(plain_sinks(&["a", "b"])),
            bad("exists"),
            ok(""),
            bad("again"),
            bad("not a"),
            ok(""),
        ],
    );
    assert_eq!(log[4..], ["set-default-sink a", "set-default-sink b"]);
    assert_eq!(routing.backend.enabled, ["b"]);
    assert_eq!(routing.backend.combine_module, None);
    match routing.phase {
        Phase::Failed(why) => assert_eq!(
            why.message(),
            "failed to rebuild the combined sink; fell back to a single device: again"
        ),
        other => panic!("{:?}", other),
    }

    // None takes it: nothing is enabled.
    let (routing, _) = drive(
        backend(&["a"], Some(5), None),
        &["a", "b"],
        vec![
            Reply::Sinks(plain_sinks(&["a", "b"])),
            bad("exists"),
            ok(""),
            bad("again"),
            bad("not a"),
            bad("not b"),
        ],
    );
    assert!(routing.backend.enabled.is_empty());
}

#[test]
fn an_old_sink_that_stays_blocks_or_rolls_back() {
    let (routing, _) = drive(
        backend(&["a"], Some(5), None),
        &["a", "b"],
        vec![Reply::Sinks(plain_sinks(&["a", "b"])), bad("exists"), bad("busy"), bad("no listing")],
    );
    assert_eq!(routing.backend.combine_module, Some(5));
    match routing.phase {
        Phase::Failed(why) => assert_eq!(
            why.message(),
            "could not load a replacement combine sink, and the existing one could not be unloaded to retry: exists"
        ),
        other => panic!("{:?}", other),
    }

    let (routing, log) = drive(
        backend(&["a"], Some(5), None),
        &["a", "b"],
        vec![
            Reply::Sinks(plain_sinks(&["a", "b"])),
            ok("9"),
            bad("busy"),
            ok("5\tmodule-combine-sink\t\n9\tmodule-combine-sink\t\n"),
            ok(""),
        ],
    );
    assert_eq!(log[2..], ["unload-module 5", "list short modules", "unload-module 9"]);
    assert_eq!(routing.backend.combine_module, Some(5));
    assert_eq!(routing.backend.enabled, ["a"]);
    match routing.phase {
        Phase::Failed(why) => assert_eq!(
            why.message(),
            "could not replace combine sink: old module #5 would not unload"
        ),
        other => panic!("{:?}", other),
    }
}

#[test]
fn a_default_that_cannot_be_set_is_told() {
    let (routing, _) = drive(
        backend(&["a"], None, Some(6)),
        &["a", "b"],
        vec![Reply::Sinks(plain_sinks(&["a", "b"])), ok("9"), bad("refused")],
    );
    // The combined sink is there and tracked; only the default did not move.
    assert_eq!(routing.backend.enabled, ["a", "b"]);
    assert_eq!(routing.backend.combine_module, Some(9));
    assert_eq!(routing.backend.null_module, Some(6));
    match routing.phase {
        Phase::Failed(why) => assert_eq!(
            why.message(),
            "failed to make 'sound_multiplexer_combined' the default sink: refused"
        ),
        other => panic!("{:?}", other),
    }

    let (routing, _) = drive(
        backend(&["a"], None, None),
        &["b"],
        vec![Reply::Sinks(plain_sinks(&["a", "b"])), bad("refused")],
    );
    assert_eq!(routing.backend.enabled, ["a"]);
    assert!(matches!(&routing.phase, Phase::Failed(RoutingError::Default(sink, _)) if sink == "b"));

    let (routing, _) = drive(backend(&["a"], None, None), &["b"], vec![bad("no server")]);
    match routing.phase {
        Phase::Failed(why) => assert_eq!(why.message(), "no server"),
        other => panic!("{:?}", other),
    }
}

#[test]
fn applying_one_or_none_again_loads_and_unloads_nothing() {
    let (routing, log) = drive(
        backend(&["a"], None, None),
        &["a"],
        vec![Reply::Sinks(plain_sinks(&["a", "b"])), ok("")],
    );
    assert_eq!(log, [LIST, "set-default-sink a"]);
    assert!(matches!(routing.phase, Phase::Done));
    assert_eq!(routing.backend.enabled, ["a"]);

    let mut sinks = plain_sinks(&["a"]);
    sinks.push(sink("sound_multiplexer_null", Some(7), 1.0, false));
    let (routing, log) =
        drive(backend(&[], None, Some(7)), &[], vec![Reply::Sinks(sinks), bad("busy")]);
    assert_eq!(log, [LIST, "set-default-sink sound_multiplexer_null"]);
    assert!(matches!(routing.phase, Phase::Failed(_)));
    assert_eq!(routing.backend.null_module, Some(7));
}

#[test]
fn an_output_that_is_no_module_id_tells_why() {
    for (output, cause) in [
        (" \n", "cannot parse integer from empty string"),
        ("4294967296\n", "number too large to fit in target type"),
        ("12a\n", "invalid digit found in string"),
    ] {
        let (routing, _) = drive(
            backend(&["a"], None, None),
            &["a", "b"],
            vec![Reply::Sinks(plain_sinks(&["a", "b"])), ok(output)],
        );
        match routing.phase {
            Phase::Failed(why) => assert_eq!(
                why.message(),
                format!("unexpected `pactl load-module` output: {output:?}: {cause}")
            ),
            other => panic!("{:?}", other),
        }
    }
}
