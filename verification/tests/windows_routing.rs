use sound_multiplexer_audio::windows::endpoints::{Endpoint, Properties, FF_HEADSET};
use sound_multiplexer_audio::windows::routing::{
    is_cooling_down, plan_fanout, restart_nudge_delay, Action, Failure, Fanout, Operation,
    Outcome, Phase, RoutingError, WindowsBackend,
};

fn endpoint(id: &str) -> Endpoint {
    Endpoint { id: id.into(), properties: None, level: None }
}

fn telephony(id: &str) -> Endpoint {
    Endpoint {
        id: id.into(),
        properties: Some(Properties {
            friendly_name: Some("Hands-Free".into()),
            form_factor: Some(FF_HEADSET),
            enumerator: None,
            bus_path: None,
            interface_name: None,
            adapter_name: None,
        }),
        level: None,
    }
}

fn strings(items: &[&str]) -> Vec<String> {
    items.iter().map(|s| s.to_string()).collect()
}

fn fanout(primary: &str, secondaries: &[&str]) -> Fanout<String, Vec<String>> {
    Fanout { primary: primary.into(), secondaries: strings(secondaries) }
}

fn backend(enabled: &[&str]) -> WindowsBackend {
    WindowsBackend {
        enabled: strings(enabled),
        engine: None,
        desired_silent: false,
        silent_muted: None,
        last_engine_restart: None,
    }
}

fn failed(headline: &str) -> Outcome<String, Vec<Endpoint>> {
    Outcome::Failed(Failure { headline: headline.into(), chain: format!("{headline}: cause") })
}

fn default(id: &str) -> Outcome<String, Vec<Endpoint>> {
    Outcome::Default(Some(id.into()))
}

fn list(ids: &[&str]) -> Outcome<String, Vec<Endpoint>> {
    Outcome::Endpoints(ids.iter().map(|id| endpoint(id)).collect())
}

fn show(action: &Action<String, Vec<String>>) -> String {
    match action {
        Action::StartEngine(f) => format!("start {} -> {}", f.primary, f.secondaries.join(",")),
        other => format!("{:?}", other),
    }
}

fn drive(
    mut operation: Operation,
    outcomes: Vec<Outcome<String, Vec<Endpoint>>>,
) -> (Operation, Vec<String>) {
    let mut log: Vec<String> = Vec::new();
    let mut outcomes = outcomes.into_iter();
    while let Some(action) = operation.action() {
        log.push(show(&action));
        operation = operation.step(outcomes.next().expect("an outcome is missing"));
    }
    assert!(outcomes.next().is_none(), "outcomes are left over");
    (operation, log)
}

fn apply(
    backend: WindowsBackend,
    ids: &[&str],
    outcomes: Vec<Outcome<String, Vec<Endpoint>>>,
) -> (Operation, Vec<String>) {
    drive(Operation::apply_enabled(backend, strings(ids)), outcomes)
}

#[test]
fn a_new_backend_starts_with_the_default() {
    assert_eq!(WindowsBackend::new(Some("a".into())).enabled, ["a"]);
    assert!(WindowsBackend::new(None).enabled.is_empty());
}

#[test]
fn one_endpoint_becomes_the_default() {
    let mut start = backend(&["a", "b"]);
    start.engine = Some(fanout("a", &["b"]));
    start.silent_muted = Some("m".into());
    let (end, log) = apply(
        start,
        &["ghost", "b"],
        vec![list(&["a", "b"]), Outcome::Done, failed("gone"), Outcome::Done],
    );
    assert_eq!(
        log,
        ["ListEndpoints", "StopEngine", "Unmute(\"m\")", "SetDefault(\"b\")"]
    );
    assert!(matches!(end.phase, Phase::Done));
    assert_eq!(end.backend.enabled, ["b"]);
    assert!(end.backend.engine.is_none());
    assert!(end.backend.silent_muted.is_none());
    assert!(!end.backend.desired_silent);

    // A default that cannot be set is told, and is no failure.
    let (end, log) = apply(
        backend(&[]),
        &["b"],
        vec![list(&["b"]), failed("policy"), Outcome::Done],
    );
    assert_eq!(log[2], "Emit(\"Failed to set default output device: policy\")");
    assert!(matches!(end.phase, Phase::Done));
}

#[test]
fn several_endpoints_are_joined_by_an_engine() {
    let (end, log) = apply(
        backend(&["b"]),
        &["a", "b", "c"],
        vec![
            list(&["a", "b", "c"]),
            default("b"),
            Outcome::Done,
            Outcome::Done,
        ],
    );
    assert_eq!(
        log,
        ["ListEndpoints", "GetDefault", "SetDefault(\"b\")", "start b -> a,c"]
    );
    let engine = end.backend.engine.unwrap();
    assert_eq!(engine.primary, "b");
    assert_eq!(engine.secondaries, ["a", "c"]);

    // A default outside the set does not become the primary.
    let plan = plan_fanout(&strings(&["a", "b"]), Some("x".into()));
    assert_eq!((plan.primary.as_str(), plan.secondaries.len()), ("a", 1));
    let plan = plan_fanout(&strings(&["a", "b"]), None);
    assert_eq!(plan.primary, "a");
}

#[test]
fn the_same_engine_is_not_restarted() {
    let mut start = backend(&["a", "b"]);
    start.engine = Some(fanout("a", &["b"]));
    let (end, log) = apply(
        start,
        &["a", "b"],
        vec![list(&["a", "b"]), default("a"), Outcome::Done, Outcome::Running(true)],
    );
    assert_eq!(log, ["ListEndpoints", "GetDefault", "SetDefault(\"a\")", "IsRunning"]);
    assert!(end.backend.engine.is_some());

    // Another set, or an engine that died, is.
    for (ids, running) in [(&["a", "c"], true), (&["a", "b"], false)] {
        let mut start = backend(&["a", "b"]);
        start.engine = Some(fanout("a", &["b"]));
        let (_, log) = apply(
            start,
            ids,
            vec![
                list(&["a", "b", "c"]),
                default("a"),
                Outcome::Done,
                Outcome::Running(running),
                Outcome::Done,
                Outcome::Done,
            ],
        );
        assert_eq!(log[4], "StopEngine");
        assert_eq!(log[5], format!("start a -> {}", ids[1]));
    }
}

#[test]
fn an_engine_that_does_not_start_fails_the_apply() {
    let (end, _) = apply(
        backend(&[]),
        &["a", "b"],
        vec![
            list(&["a", "b"]),
            Outcome::Default(None),
            failed("policy"),
            Outcome::Done,
            failed("GetMixFormat"),
        ],
    );
    assert!(end.backend.engine.is_none());
    assert_eq!(end.backend.enabled, ["a", "b"]);
    match end.phase {
        Phase::Failed(why) => {
            assert!(matches!(why, RoutingError::Engine(_)));
            assert_eq!(why.message(), "start loopback fan-out engine: GetMixFormat: cause");
            assert_eq!(why.headline(), "start loopback fan-out engine");
        }
        other => panic!("{:?}", other),
    }
}

#[test]
fn silence_mutes_the_default_and_remembers_whose_mute_it_is() {
    let (end, log) = apply(
        backend(&["a"]),
        &[],
        vec![list(&["a"]), Outcome::DefaultMute("a".into(), false), Outcome::Done],
    );
    assert_eq!(log, ["ListEndpoints", "ReadDefaultMute", "Mute(\"a\")"]);
    assert_eq!(end.backend.silent_muted.as_deref(), Some("a"));
    assert!(end.backend.desired_silent);

    // A mute of the user is not ours.
    let (end, log) = apply(
        backend(&["a"]),
        &[],
        vec![list(&["a"]), Outcome::DefaultMute("a".into(), true)],
    );
    assert_eq!(log.len(), 2);
    assert!(end.backend.silent_muted.is_none());
    assert!(end.backend.desired_silent);

    // Without a default the system is silent already.
    let (end, _) = apply(backend(&[]), &[], vec![list(&[]), Outcome::NoDefault]);
    assert!(matches!(end.phase, Phase::Done));

    // The mute follows a default that moved.
    let mut start = backend(&[]);
    start.silent_muted = Some("a".into());
    let (end, log) = apply(
        start,
        &["ghost"],
        vec![
            list(&["a", "b"]),
            default("b"),
            Outcome::Done,
            Outcome::DefaultMute("b".into(), false),
            Outcome::Done,
        ],
    );
    assert_eq!(log[1..], ["GetDefault", "Unmute(\"a\")", "ReadDefaultMute", "Mute(\"b\")"]);
    assert_eq!(end.backend.silent_muted.as_deref(), Some("b"));

    // One that is in place stays.
    let mut start = backend(&[]);
    start.silent_muted = Some("a".into());
    let (end, log) = apply(start, &[], vec![list(&["a"]), default("a")]);
    assert_eq!(log.len(), 2);
    assert_eq!(end.backend.silent_muted.as_deref(), Some("a"));

    // A mute that fails is on record, to be tried again.
    let (end, _) = apply(
        backend(&["a"]),
        &[],
        vec![list(&["a"]), Outcome::DefaultMute("a".into(), false), failed("mute")],
    );
    assert!(matches!(end.phase, Phase::Failed(RoutingError::Silence(_))));
    assert!(end.backend.desired_silent);
    assert!(end.backend.silent_muted.is_none());
}

#[test]
fn telephony_is_never_routed_to() {
    let (end, _) = apply(
        backend(&[]),
        &["t", "a"],
        vec![
            Outcome::Endpoints(vec![telephony("t"), endpoint("a")]),
            Outcome::Done,
        ],
    );
    assert_eq!(end.backend.enabled, ["a"]);
}

#[test]
fn a_listing_that_fails_changes_nothing() {
    let (end, _) = apply(backend(&["a"]), &[], vec![failed("enumerate")]);
    assert_eq!(end.backend.enabled, ["a"]);
    assert!(!end.backend.desired_silent);
    match end.phase {
        Phase::Failed(why) => assert_eq!(why.message(), "enumerate: cause"),
        other => panic!("{:?}", other),
    }
}

const SECOND: u128 = 1_000_000_000;

fn with_engine(last: Option<u128>) -> WindowsBackend {
    let mut b = backend(&["a", "b"]);
    b.engine = Some(fanout("a", &["b"]));
    b.last_engine_restart = last;
    b
}

#[test]
fn an_engine_that_died_is_rebuilt_outside_the_cooldown() {
    let (end, log) = drive(
        Operation::reconcile_routing(with_engine(Some(SECOND)), 3 * SECOND, true),
        vec![
            Outcome::Running(false),
            Outcome::Done,
            list(&["a"]),
            Outcome::Done,
        ],
    );
    assert_eq!(log, ["IsRunning", "StopEngine", "ListEndpoints", "SetDefault(\"a\")"]);
    assert_eq!(end.backend.last_engine_restart, Some(3 * SECOND));
    assert_eq!(end.backend.enabled, ["a"]);
    assert!(matches!(end.phase, Phase::Done));

    // Within it a later look is arranged, once.
    let (end, log) = drive(
        Operation::reconcile_routing(with_engine(Some(2 * SECOND)), 3 * SECOND, true),
        vec![Outcome::Running(false), Outcome::Done],
    );
    assert_eq!(log, ["IsRunning", "Nudge(1100000000)"]);
    assert_eq!(end.backend.last_engine_restart, Some(2 * SECOND));
    let (_, log) = drive(
        Operation::reconcile_routing(with_engine(Some(2 * SECOND)), 3 * SECOND, false),
        vec![Outcome::Running(false)],
    );
    assert_eq!(log, ["IsRunning"]);

    // A rebuild that fails is told.
    let (end, log) = drive(
        Operation::reconcile_routing(with_engine(None), 0, true),
        vec![Outcome::Running(false), Outcome::Done, failed("enumerate"), Outcome::Done],
    );
    assert_eq!(log[3], "Emit(\"Could not restore multi-output routing: enumerate\")");
    assert!(matches!(end.phase, Phase::Done));

    assert!(is_cooling_down(Some(5), 4));
    assert!(!is_cooling_down(None, 4));
    assert_eq!(restart_nudge_delay(None, 0), 2_100_000_000);
    assert_eq!(restart_nudge_delay(Some(0), 5 * SECOND), 100_000_000);
}

#[test]
fn a_living_engine_follows_an_enabled_default() {
    let (end, log) = drive(
        Operation::reconcile_routing(with_engine(None), 0, true),
        vec![
            Outcome::Running(true),
            default("b"),
            list(&["a", "b"]),
            default("b"),
            Outcome::Done,
            Outcome::Running(true),
            Outcome::Done,
            Outcome::Done,
        ],
    );
    assert_eq!(log.last().unwrap(), "start b -> a");
    assert_eq!(end.backend.engine.unwrap().primary, "b");

    for outcome in [default("x"), default("a"), Outcome::Default(None)] {
        let (_, log) = drive(
            Operation::reconcile_routing(with_engine(None), 0, true),
            vec![Outcome::Running(true), outcome],
        );
        assert_eq!(log, ["IsRunning", "GetDefault"]);
    }
}

#[test]
fn healing_enforces_silence() {
    let mut silent = backend(&[]);
    silent.desired_silent = true;
    let (end, log) = drive(
        Operation::reconcile_routing(silent, 0, true),
        vec![Outcome::DefaultMute("a".into(), false), failed("mute")],
    );
    assert_eq!(log, ["ReadDefaultMute", "Mute(\"a\")"]);
    assert!(matches!(end.phase, Phase::Done));
    let (_, log) = drive(Operation::reconcile_routing(backend(&["a"]), 0, true), vec![]);
    assert!(log.is_empty());
}

#[test]
fn the_user_may_lift_our_mute() {
    let mut b = backend(&[]);
    b.desired_silent = true;
    b.silent_muted = Some("a".into());
    b.set_muted("b", false);
    b.set_muted("a", true);
    assert_eq!(b.silent_muted.as_deref(), Some("a"));
    assert!(b.desired_silent);
    b.set_muted("a", false);
    assert!(b.silent_muted.is_none());
    assert!(!b.desired_silent);
}

#[test]
fn cleanup_gives_our_mute_back() {
    let mut b = with_engine(None);
    b.silent_muted = Some("a".into());
    b.desired_silent = true;
    assert_eq!(b.cleanup(false), None);
    assert_eq!(b.silent_muted.as_deref(), Some("a"));
    assert!(b.engine.is_none() && !b.desired_silent);
    assert_eq!(b.cleanup(true).as_deref(), Some("a"));
    assert!(b.silent_muted.is_none());
}

#[test]
fn applying_one_or_none_again_touches_no_engine_and_no_mute() {
    let (end, log) = apply(backend(&["a"]), &["a"], vec![list(&["a", "b"]), Outcome::Done]);
    assert_eq!(log, ["ListEndpoints", "SetDefault(\"a\")"]);
    assert_eq!(end.backend.enabled, ["a"]);

    let mut start = backend(&[]);
    start.desired_silent = true;
    start.silent_muted = Some("a".into());
    let (end, log) = apply(start, &[], vec![list(&["a", "b"]), default("a")]);
    assert_eq!(log, ["ListEndpoints", "GetDefault"]);
    assert_eq!(end.backend.silent_muted.as_deref(), Some("a"));
    assert!(end.backend.desired_silent);
}

#[test]
fn healing_routes_to_the_endpoints_that_are_left() {
    // The engine died because an endpoint went: the one that is left plays.
    let operation = Operation::reconcile_routing(with_engine(None), 5_000_000_000, true);
    let (end, log) = drive(
        operation,
        vec![Outcome::Running(false), Outcome::Done, list(&["b"]), Outcome::Done],
    );
    assert_eq!(log, ["IsRunning", "StopEngine", "ListEndpoints", "SetDefault(\"b\")"]);
    assert!(matches!(end.phase, Phase::Done));
    assert_eq!(end.backend.enabled, ["b"]);
    assert!(end.backend.engine.is_none());
}
