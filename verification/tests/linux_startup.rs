use sound_multiplexer_audio::device::DeviceType;
use sound_multiplexer_audio::linux::backend::LinuxBackend;
use sound_multiplexer_audio::linux::cleanup::{restore_target, Cleanup};
use sound_multiplexer_audio::linux::levels::{mute_failure, set_muted, set_volume, volume_failure};
use sound_multiplexer_audio::linux::modules::parse_our_modules;
use sound_multiplexer_audio::linux::pactl::{failure_text, Command, Reply};
use sound_multiplexer_audio::linux::sinks::Sink;
use sound_multiplexer_audio::linux::startup::{has_sink, Startup, StartupPhase};
use sound_multiplexer_audio::volume::Volume;

fn sink(name: &str, owner: Option<u64>) -> Sink {
    Sink {
        name: name.into(),
        description: name.into(),
        owner_module: owner,
        volume: Volume::full(),
        muted: false,
        device_type: DeviceType::Speakers,
    }
}

fn ok(text: &str) -> Reply {
    Reply::Output(text.into())
}

fn bad(why: &str) -> Reply {
    Reply::Failed(why.into())
}

fn start(replies: Vec<Reply>) -> (Startup, Vec<String>) {
    let mut startup = Startup::new();
    let mut log: Vec<String> = Vec::new();
    let mut replies = replies.into_iter();
    while let Some(command) = startup.command() {
        log.push(command.argv(0).join(" "));
        startup = startup.step(replies.next().expect("a reply is missing"));
    }
    assert!(replies.next().is_none(), "replies are left over");
    (startup, log)
}

fn clean(backend: LinuxBackend, replies: Vec<Reply>) -> (Cleanup, Vec<String>) {
    let mut cleanup = Cleanup::new(backend);
    let mut log: Vec<String> = Vec::new();
    let mut replies = replies.into_iter();
    while let Some(command) = cleanup.command() {
        log.push(command.argv(0).join(" "));
        cleanup = cleanup.step(replies.next().expect("a reply is missing"));
    }
    assert!(replies.next().is_none(), "replies are left over");
    (cleanup, log)
}

const COMBINE_ROW: &str = "5\tmodule-combine-sink\tsink_name=sound_multiplexer_combined slaves=a,gone,b,a sink_properties=device.description='Sound-Multiplexer'\t\n";
const NULL_ROW: &str = "6\tmodule-null-sink\tsink_name=sound_multiplexer_null\t\n";

#[test]
fn a_plain_start_enables_the_default() {
    let (startup, log) = start(vec![
        ok("Server Name: x"),
        ok("1\tmodule-x\t\n"),
        ok("a\n"),
        Reply::Sinks(vec![sink("a", None)]),
    ]);
    assert_eq!(log, ["info", "list short modules", "get-default-sink", "-f json list sinks"]);
    assert!(matches!(startup.phase, StartupPhase::Ready));
    assert_eq!(startup.backend.enabled, ["a"]);

    // A default that does not exist, is ours or has no name enables nothing.
    let (startup, _) = start(vec![
        ok(""),
        ok(""),
        ok("a\n"),
        Reply::Sinks(vec![sink("b", None)]),
    ]);
    assert!(startup.backend.enabled.is_empty());
    for name in ["sound_multiplexer_null\n", " \n"] {
        let (startup, log) = start(vec![ok(""), ok(""), ok(name)]);
        assert_eq!(log.len(), 3);
        assert!(startup.backend.enabled.is_empty());
    }
}

#[test]
fn a_combined_sink_that_carries_the_default_is_taken_over() {
    let listing = format!("{NULL_ROW}{COMBINE_ROW}");
    let (startup, log) = start(vec![
        ok(""),
        ok(&listing),
        ok("sound_multiplexer_combined\n"),
        Reply::Sinks(vec![
            sink("a", None),
            sink("b", None),
            sink("sound_multiplexer_combined", Some(5)),
            sink("sound_multiplexer_null", Some(6)),
        ]),
        bad("busy"),
        ok("sound_multiplexer_combined\n"),
    ]);
    assert_eq!(
        log,
        [
            "info",
            "list short modules",
            "get-default-sink",
            "-f json list sinks",
            "unload-module 6",
            "get-default-sink",
        ]
    );
    assert_eq!(startup.backend.combine_module, Some(5));
    assert_eq!(startup.backend.null_module, None);
    assert_eq!(startup.backend.enabled, ["a", "b"]);
}

#[test]
fn orphans_are_unloaded_and_a_null_sink_is_taken_over() {
    // The default has the name of the combined sink, but the module owns none.
    let (startup, log) = start(vec![
        ok(""),
        ok(COMBINE_ROW),
        ok("sound_multiplexer_combined\n"),
        Reply::Sinks(vec![sink("a", None)]),
        ok(""),
        ok("a\n"),
        Reply::Sinks(vec![sink("a", None)]),
    ]);
    assert_eq!(log[4], "unload-module 5");
    assert_eq!(startup.backend.combine_module, None);
    assert_eq!(startup.backend.enabled, ["a"]);

    let mut backend = LinuxBackend::new();
    let modules = parse_our_modules(&format!("{NULL_ROW}{COMBINE_ROW}"));
    let sinks = vec![sink("sound_multiplexer_null", Some(6))];
    let orphans =
        backend.reconcile_startup_modules(&modules, "sound_multiplexer_null", &sinks);
    assert_eq!(orphans, [5]);
    assert_eq!(backend.null_module, Some(6));
    assert!(backend.enabled.is_empty());
    assert!(has_sink(&sinks, "sound_multiplexer_null"));
    assert!(!has_sink(&sinks, "a"));
}

#[test]
fn startup_fails_fast() {
    let (startup, _) = start(vec![bad("connection refused")]);
    match startup.phase {
        StartupPhase::Failed(why) => assert_eq!(
            why.message(),
            "cannot reach the PulseAudio/PipeWire sound server: connection refused"
        ),
        other => panic!("{:?}", other),
    }
    let (startup, _) = start(vec![ok(""), bad("no list")]);
    match startup.phase {
        StartupPhase::Failed(why) => assert_eq!(why.message(), "no list"),
        other => panic!("{:?}", other),
    }
}

fn loaded_backend() -> LinuxBackend {
    LinuxBackend {
        enabled: vec!["b".to_string()],
        combine_module: Some(5),
        null_module: Some(6),
    }
}

#[test]
fn cleanup_moves_the_default_then_takes_everything_down() {
    let (cleanup, log) = clean(
        loaded_backend(),
        vec![
            ok("sound_multiplexer_combined\n"),
            Reply::Sinks(vec![
                sink("a", None),
                sink("b", None),
                sink("sound_multiplexer_combined", Some(5)),
            ]),
            ok(""),
            ok(""),
            ok(""),
            ok("9\tmodule-null-sink\tsink_name=sound_multiplexer_null\t\n"),
            bad("busy"),
        ],
    );
    assert_eq!(
        log,
        [
            "get-default-sink",
            "-f json list sinks",
            "set-default-sink b",
            "unload-module 5",
            "unload-module 6",
            "list short modules",
            "unload-module 9",
        ]
    );
    assert!(cleanup.trouble.is_none());
    assert_eq!(cleanup.backend.combine_module, None);
    assert_eq!(cleanup.backend.null_module, None);
}

#[test]
fn cleanup_goes_on_and_tells_the_first_trouble() {
    let (cleanup, log) = clean(
        loaded_backend(),
        vec![
            bad("first"),
            bad("second"),
            bad("busy"),
            ok("5\tmodule-combine-sink\t\n"),
            bad("busy"),
            bad("no list"),
            bad("third"),
        ],
    );
    assert_eq!(log.len(), 7);
    assert_eq!(
        cleanup.trouble.unwrap().message(),
        "cleanup left the audio setup partially restored: first"
    );
    assert_eq!(cleanup.backend.combine_module, Some(5));
    assert_eq!(cleanup.backend.null_module, Some(6));

    let (cleanup, _) = clean(
        LinuxBackend::new(),
        vec![
            ok("sound_multiplexer_null"),
            Reply::Sinks(vec![sink("a", None)]),
            bad("refused"),
            ok(""),
        ],
    );
    assert_eq!(
        cleanup.trouble.unwrap().message(),
        "cleanup left the audio setup partially restored: failed to make 'a' the default sink: refused"
    );

    // A default that is not ours stays.
    let (cleanup, log) = clean(
        LinuxBackend::new(),
        vec![ok("a"), Reply::Sinks(vec![sink("a", None)]), ok("")],
    );
    assert_eq!(log, ["get-default-sink", "-f json list sinks", "list short modules"]);
    assert!(cleanup.trouble.is_none());
    let none: Vec<String> = Vec::new();
    assert_eq!(restore_target(&none, &none), None);
}

#[test]
fn levels_go_to_one_sink() {
    let command = set_volume("a", Volume { bits: 1.5f32.to_bits() }).unwrap();
    assert!(matches!(&command, Command::SetVolume(id, v) if id == "a" && *v == Volume::full()));
    assert_eq!(command.argv(100), ["set-sink-volume", "a", "100%"]);
    for (x, text) in [(f32::NAN, "NaN"), (f32::INFINITY, "inf"), (f32::NEG_INFINITY, "-inf")] {
        assert_eq!(
            set_volume("a", Volume { bits: x.to_bits() }).unwrap_err(),
            format!("volume must be a finite number, got {}", text)
        );
        assert_eq!(format!("{}", x), text);
    }
    assert_eq!(set_muted("a", true).argv(0), ["set-sink-mute", "a", "1"]);
    assert_eq!(set_muted("a", false).argv(0), ["set-sink-mute", "a", "0"]);
    assert_eq!(volume_failure("a", "x"), "failed to set volume of 'a': x");
    assert_eq!(mute_failure("a", "x"), "failed to set mute of 'a': x");
    let argv = vec!["unload-module".to_string(), "5".to_string()];
    assert_eq!(failure_text(&argv, " Failure: no\n"), "`pactl unload-module 5` failed: Failure: no");
}
