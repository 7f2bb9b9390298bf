use sound_multiplexer_audio::device::{BackendEvent, DeviceType};
use sound_multiplexer_audio::linux::monitor::{
    is_sink_or_server_event, reenumeration_wait, send_diff, take_snapshot, volume_shifts, Monitor,
};
use sound_multiplexer_audio::linux::monitor_loop::{MonitorAction, MonitorLoop, MonitorReply};
use sound_multiplexer_audio::linux::sinks::Sink;
use sound_multiplexer_audio::volume::Volume;

fn volume(x: f32) -> Volume {
    Volume { bits: x.to_bits() }
}

fn sink(name: &str, level: f32, muted: bool) -> Sink {
    Sink {
        name: name.into(),
        description: name.into(),
        owner_module: None,
        volume: volume(level),
        muted,
        device_type: DeviceType::Speakers,
    }
}

#[test]
fn monitor_matches_sink_and_server_lines_only() {
    // Sink lifecycle and property changes drive re-enumeration.
    assert!(is_sink_or_server_event("Event 'change' on sink #67\n"));
    assert!(is_sink_or_server_event("Event 'new' on sink #123\n"));
    assert!(is_sink_or_server_event("Event 'remove' on sink #5\n"));
    // Default-sink changes arrive as server events.
    assert!(is_sink_or_server_event("Event 'change' on server #0\n"));
    // Stream (sink-input) chatter is constant during playback and must
    // not trigger re-enumeration.
    assert!(!is_sink_or_server_event("Event 'change' on sink-input #45\n"));
    assert!(!is_sink_or_server_event("Event 'remove' on sink-input #45\n"));
    // Inputs are out of scope for an output multiplexer.
    assert!(!is_sink_or_server_event("Event 'change' on source #52\n"));
    assert!(!is_sink_or_server_event("Event 'new' on source-output #8\n"));
    assert!(!is_sink_or_server_event("Event 'change' on client #99\n"));
    assert!(!is_sink_or_server_event("Event 'change' on card #46\n"));
    // Localized output (as without LC_ALL=C) must never silently match.
    assert!(!is_sink_or_server_event("Ereignis 'change' für Senke #67\n"));
    assert!(!is_sink_or_server_event(""));
}

#[test]
fn a_burst_waits_out_the_interval() {
    assert_eq!(reenumeration_wait(0), 200_000_000);
    assert_eq!(reenumeration_wait(150_000_000), 50_000_000);
    assert_eq!(reenumeration_wait(200_000_000), 0);
    assert_eq!(reenumeration_wait(u128::MAX), 0);
}

#[test]
fn snapshots_hold_real_sinks_and_the_combined_one() {
    let sinks = vec![
        sink("a", 0.5, false),
        sink("sound_multiplexer_combined", 0.25, true),
        sink("sound_multiplexer_null", 1.0, false),
        sink("a", 0.75, true),
    ];
    let snapshot = take_snapshot(&sinks, Some("a".to_string()));
    let seen: Vec<(&str, Volume, bool)> = snapshot
        .state
        .iter()
        .map(|e| (e.name.as_str(), e.level.volume, e.level.muted))
        .collect();
    // Of two sinks of one name the later counts.
    assert_eq!(
        seen,
        [
            ("a", volume(0.75), true),
            ("sound_multiplexer_combined", volume(0.25), true)
        ]
    );
    assert_eq!(snapshot.default_sink, "a");
    assert_eq!(take_snapshot(&sinks, None).default_sink, "");
}

#[test]
fn differences_are_told_finely_or_coarsely() {
    let before = take_snapshot(&vec![sink("a", 0.5, false), sink("b", 0.5, true)], Some("a".into()));
    let now = take_snapshot(&vec![sink("b", 0.9, false), sink("a", 0.5, false)], Some("a".into()));
    let shifts = volume_shifts(&before, &now);
    assert_eq!(shifts.len(), 2);
    assert_eq!((shifts[0].before, shifts[0].now), (volume(0.5), volume(0.9)));
    let moved: Vec<bool> = shifts
        .iter()
        .map(|s| (f32::from_bits(s.now.bits) - f32::from_bits(s.before.bits)).abs() > 0.01)
        .collect();
    assert_eq!(moved, [true, false]);
    let events = send_diff(&before, &now, &moved);
    assert_eq!(events.len(), 2);
    assert!(matches!(&events[0], BackendEvent::VolumeChanged { id, volume: v } if id == "b" && *v == volume(0.9)));
    assert!(matches!(&events[1], BackendEvent::MuteChanged { id, muted: false } if id == "b"));

    // Another default, another set of sinks: one coarse event.
    let other = take_snapshot(&vec![sink("b", 0.9, false), sink("a", 0.5, false)], Some("b".into()));
    let events = send_diff(&before, &other, &vec![true, true]);
    assert_eq!(events.len(), 1);
    assert!(matches!(events[0], BackendEvent::DevicesChanged));
    let fewer = take_snapshot(&vec![sink("a", 0.5, false)], Some("a".into()));
    assert!(matches!(send_diff(&before, &fewer, &vec![false])[..], [BackendEvent::DevicesChanged]));
    let swapped = take_snapshot(&vec![sink("a", 0.5, false), sink("c", 0.5, true)], Some("a".into()));
    assert!(matches!(
        send_diff(&before, &swapped, &vec![false, false])[..],
        [BackendEvent::DevicesChanged]
    ));
    // No difference, no events.
    assert!(send_diff(&before, &before, &vec![false, false]).is_empty());
}

#[test]
fn the_monitor_keeps_its_look_when_a_listing_fails() {
    let mut monitor = Monitor { snapshot: None };
    assert!(monitor.observe(None, &vec![]).is_empty());
    assert!(monitor.snapshot.is_none());
    let first = take_snapshot(&vec![sink("a", 0.5, false)], Some("a".into()));
    let events = monitor.observe(Some(first), &vec![]);
    assert!(matches!(events[..], [BackendEvent::DevicesChanged]));
    assert!(monitor.observe(None, &vec![]).is_empty());
    let next = take_snapshot(&vec![sink("a", 0.5, true)], Some("a".into()));
    let events = monitor.observe(Some(next), &vec![false]);
    assert!(matches!(&events[..], [BackendEvent::MuteChanged { id, muted: true }] if id == "a"));
}

fn looked(level: f32, muted: bool, moved: Vec<bool>) -> MonitorReply {
    let sinks = vec![sink("a", level, muted)];
    MonitorReply::Looked(Some(take_snapshot(&sinks, Some("a".into()))), moved)
}

fn reading() -> MonitorLoop {
    let work = MonitorLoop::new();
    assert!(matches!(work.action(), Some(MonitorAction::Look)));
    let work = work.step(looked(0.5, false, vec![]));
    assert!(matches!(work.action(), Some(MonitorAction::NoteTime)));
    let work = work.step(MonitorReply::Done);
    assert!(matches!(work.action(), Some(MonitorAction::Read)));
    work
}

#[test]
fn a_burst_is_looked_at_once_the_interval_is_over() {
    let work = reading();
    let work = work.step(MonitorReply::Line("Event 'change' on sink-input #4".into(), 5));
    assert!(matches!(work.action(), Some(MonitorAction::Read)));
    let work = work.step(MonitorReply::Line("Event 'change' on sink #4".into(), 150_000_000));
    assert!(matches!(work.action(), Some(MonitorAction::Sleep(50_000_000))));
    let work = work.step(MonitorReply::Done);
    assert!(matches!(work.action(), Some(MonitorAction::NoteTime)));
    let work = work.step(MonitorReply::Done);
    assert!(matches!(work.action(), Some(MonitorAction::Look)));
    // A look that failed keeps the last one.
    let work = work.step(MonitorReply::Looked(None, vec![]));
    assert!(matches!(work.action(), Some(MonitorAction::Read)));
    assert_eq!(work.monitor.snapshot.as_ref().unwrap().state.len(), 1);
    let work = work.step(MonitorReply::Line("Event 'change' on server #0".into(), 200_000_000));
    assert!(matches!(work.action(), Some(MonitorAction::NoteTime)));
}

#[test]
fn differences_are_sent_until_nobody_listens() {
    let look_again = || {
        reading()
            .step(MonitorReply::Line("Event 'change' on sink #4".into(), 200_000_000))
            .step(MonitorReply::Done)
            .step(looked(0.9, true, vec![true]))
    };
    let work = look_again();
    assert!(matches!(
        work.action(),
        Some(MonitorAction::Send(BackendEvent::VolumeChanged { volume: v, .. })) if v == volume(0.9)
    ));
    let work = work.step(MonitorReply::Sent(true));
    assert!(matches!(
        work.action(),
        Some(MonitorAction::Send(BackendEvent::MuteChanged { muted: true, .. }))
    ));
    let work = work.step(MonitorReply::Sent(true));
    assert!(matches!(work.action(), Some(MonitorAction::Read)));

    let work = look_again().step(MonitorReply::Sent(false));
    assert!(work.action().is_none());
    assert!(work.monitor.snapshot.unwrap().state[0].level.muted);
}

#[test]
fn the_monitor_ends_with_its_lines() {
    assert!(reading().step(MonitorReply::Closed).action().is_none());
}
