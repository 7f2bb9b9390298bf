use sound_multiplexer_audio::device::BackendEvent;
use sound_multiplexer_audio::fanout::FrameLayout;
use sound_multiplexer_audio::volume::Volume;
use sound_multiplexer_audio::windows::engine::{
    feed, is_bufferable, mix_format_len, new_ring, plan_fill, prefill, write_fill, Engine, Fill,
    MixFormat, MixFormatError, SILENT_FLAG,
};
use sound_multiplexer_audio::windows::streams::{StreamAction, StreamEvent, StreamPhase};
use sound_multiplexer_audio::windows::watch::{
    refresh_volume_watches, tells_default_change, volume_notification, WatchAction, WatchRefresh,
};

/// 48 kHz, two channels of 32 bits.
fn header(block_align: u16, rate: u32, extra: u16) -> Vec<u8> {
    let mut bytes: Vec<u8> = Vec::new();
    bytes.extend_from_slice(&0xFFFEu16.to_le_bytes());
    bytes.extend_from_slice(&2u16.to_le_bytes());
    bytes.extend_from_slice(&48000u32.to_le_bytes());
    bytes.extend_from_slice(&rate.to_le_bytes());
    bytes.extend_from_slice(&block_align.to_le_bytes());
    bytes.extend_from_slice(&32u16.to_le_bytes());
    bytes.extend_from_slice(&extra.to_le_bytes());
    bytes
}

const LAYOUT: FrameLayout = FrameLayout { block_align: 4, avg_bytes_per_sec: 4000 };

#[test]
fn mix_formats_are_read_from_their_bytes() {
    let bytes = header(8, 384000, 22);
    assert_eq!(mix_format_len(&bytes), 40);
    let format = MixFormat::from_bytes(bytes.clone()).unwrap();
    assert_eq!(format.bytes, bytes);
    assert_eq!(format.layout.block_align, 8);
    assert_eq!(format.layout.avg_bytes_per_sec, 384000);
    let e = MixFormat::from_bytes(header(0, 0, 0)).unwrap_err();
    assert_eq!(e, MixFormatError::ZeroBlockAlign);
    assert_eq!(e.message(), "mix format has zero block align");
    let e = MixFormat::from_bytes(header(8, 0, 0)).unwrap_err();
    assert_eq!(e, MixFormatError::ZeroByteRate);
    assert_eq!(e.message(), "mix format has zero byte rate");
    assert!(is_bufferable(&format.layout));
    assert!(!is_bufferable(&FrameLayout { block_align: 0, avg_bytes_per_sec: 1 }));
    assert!(!is_bufferable(&FrameLayout { block_align: 1, avg_bytes_per_sec: usize::MAX }));
}

#[test]
fn an_engine_plans_its_streams() {
    let (mut engine, streams) =
        Engine::start("p".into(), vec!["a".to_string(), "b".to_string()]);
    let plan: Vec<(&str, &str, bool)> =
        streams.iter().map(|s| (s.name.as_str(), s.id.as_str(), s.fatal)).collect();
    assert_eq!(
        plan,
        [("smx-render-0", "a", false), ("smx-render-1", "b", false), ("smx-capture", "p", true)]
    );
    assert_eq!(engine.primary(), "p");
    assert_eq!(engine.secondaries(), ["a", "b"]);
    assert!(engine.is_running() && !engine.is_stopping());
    engine.request_stop();
    assert!(!engine.is_running() && engine.is_stopping());
    // Failures of an engine that is stopping tell nothing.
    assert!(engine.fail_stream(true, "render", "a", false, "x").is_empty());
}

#[test]
fn only_a_failing_capture_stops_the_engine() {
    let (mut engine, _) = Engine::start("p".into(), vec!["a".to_string()]);
    let events = engine.fail_stream(false, "render", "a", false, "GetBuffer");
    assert!(!engine.is_running() && !engine.is_stopping());
    assert_eq!(events.len(), 2);
    assert!(matches!(&events[0], BackendEvent::Error(m) if m == "render failed on a: GetBuffer"));
    assert!(matches!(events[1], BackendEvent::DevicesChanged));

    let (mut engine, _) = Engine::start("p".into(), vec![]);
    let events = engine.fail_stream(true, "loopback capture", "p", true, "gone");
    assert!(engine.is_stopping());
    assert!(
        matches!(&events[0], BackendEvent::Error(m) if m == "Audio device disappeared during playback (p)")
    );
}

#[test]
fn packets_feed_the_ring() {
    let mut ring = new_ring(&LAYOUT);
    feed(&mut ring, 0, 4, Some(&[1, 2, 3, 4]));
    feed(&mut ring, 0, 4, None);
    feed(&mut ring, SILENT_FLAG | 1, 4, Some(&[9, 9, 9, 9]));
    feed(&mut ring, 0, 0, Some(&[]));
    let queued: Vec<u8> = ring.queue().iter().copied().collect();
    assert_eq!(queued, [1, 2, 3, 4, 0, 0, 0, 0]);
}

#[test]
fn the_device_buffer_is_kept_at_its_level() {
    // One frame per millisecond: 60 frames are the target, 20 the low level.
    assert_eq!(prefill(&LAYOUT, 100), 60);
    assert_eq!(prefill(&LAYOUT, 50), 50);
    let mut ring = new_ring(&LAYOUT);
    assert_eq!(plan_fill(&LAYOUT, &ring, 100, 60), Fill::Nothing);
    assert_eq!(plan_fill(&LAYOUT, &ring, 100, 20), Fill::Nothing);
    // The cushion sags with an empty ring: one splice of silence.
    assert_eq!(plan_fill(&LAYOUT, &ring, 100, 19), Fill::Silence(41));
    ring.push(&[1, 2, 3, 4, 5, 6, 7, 8, 9]);
    assert_eq!(plan_fill(&LAYOUT, &ring, 100, 19), Fill::Sound(2));
    assert_eq!(plan_fill(&LAYOUT, &ring, 100, 59), Fill::Sound(1));
    assert_eq!(plan_fill(&LAYOUT, &ring, 100, 61), Fill::Nothing);

    let mut out = [7u8; 4];
    write_fill(&mut ring, Fill::Sound(1), &mut out);
    assert_eq!(out, [1, 2, 3, 4]);
    assert_eq!(ring.queue().len(), 5);
    write_fill(&mut ring, Fill::Silence(1), &mut out);
    assert_eq!(out, [0, 0, 0, 0]);
    assert_eq!(ring.queue().len(), 5);
    // Less than was chosen: the rest is silence.
    let mut out = [7u8; 8];
    write_fill(&mut ring, Fill::Sound(2), &mut out);
    assert_eq!(out, [5, 6, 7, 8, 0, 0, 0, 0]);
    assert_eq!(ring.queue().len(), 1);
}

#[test]
fn the_capture_loop_drains_every_packet() {
    let mut phase = StreamPhase::begin();
    let script = [
        (StreamAction::AskStop, StreamEvent::Stopping(false)),
        (StreamAction::Wait(10), StreamEvent::Woke(258)),
        (StreamAction::AskPacketSize, StreamEvent::PacketSize(480)),
        (StreamAction::GetPacket, StreamEvent::Packet(480)),
        (StreamAction::Feed, StreamEvent::Done),
        (StreamAction::ReleasePacket(480), StreamEvent::Done),
        (StreamAction::AskPacketSize, StreamEvent::PacketSize(0)),
        (StreamAction::AskStop, StreamEvent::Stopping(true)),
        (StreamAction::StopStream, StreamEvent::Done),
    ];
    for (action, event) in script {
        assert_eq!(phase.action(), Some(action));
        phase = phase.run_capture(event);
    }
    assert!(matches!(phase, StreamPhase::Ended));
    assert_eq!(phase.action(), None);

    let phase = StreamPhase::Doing(StreamAction::Wait(10)).run_capture(StreamEvent::Woke(4294967295));
    assert!(
        matches!(&phase, StreamPhase::Failed(why) if why == "wait on capture event failed: WAIT_EVENT(4294967295)")
    );
    let phase = StreamPhase::Doing(StreamAction::GetPacket)
        .run_capture(StreamEvent::Failed("capture GetBuffer".into()));
    assert!(matches!(&phase, StreamPhase::Failed(why) if why == "capture GetBuffer"));
}

#[test]
fn the_render_loop_writes_what_is_chosen() {
    let mut phase = StreamPhase::begin();
    let script = [
        (StreamAction::AskStop, StreamEvent::Stopping(false)),
        (StreamAction::Wait(100), StreamEvent::Woke(0)),
        (StreamAction::AskPadding, StreamEvent::Padding(60)),
        (StreamAction::Plan(60), StreamEvent::Planned(Fill::Nothing)),
        (StreamAction::AskStop, StreamEvent::Stopping(false)),
        (StreamAction::Wait(100), StreamEvent::Woke(258)),
        (StreamAction::AskPadding, StreamEvent::Padding(10)),
        (StreamAction::Plan(10), StreamEvent::Planned(Fill::Silence(50))),
        (StreamAction::GetBuffer(50), StreamEvent::Buffer(true)),
        (StreamAction::Write(Fill::Silence(50)), StreamEvent::Done),
        (StreamAction::ReleaseBuffer(50), StreamEvent::Done),
        (StreamAction::AskStop, StreamEvent::Stopping(true)),
        (StreamAction::StopStream, StreamEvent::Done),
    ];
    for (action, event) in script {
        assert_eq!(phase.action(), Some(action));
        phase = phase.run_render(event);
    }
    assert!(matches!(phase, StreamPhase::Ended));

    let phase = StreamPhase::Getting(Fill::Sound(5)).run_render(StreamEvent::Buffer(false));
    assert!(matches!(&phase, StreamPhase::Failed(why) if why == "render GetBuffer returned null"));
    let phase = StreamPhase::Doing(StreamAction::Wait(100)).run_render(StreamEvent::Woke(128));
    assert!(
        matches!(&phase, StreamPhase::Failed(why) if why == "wait on render event failed: WAIT_EVENT(128)")
    );
}

#[test]
fn watches_follow_the_endpoints() {
    let watched = vec!["a".to_string(), "b".to_string(), "c".to_string()];
    let endpoints = vec!["c".to_string(), "d".to_string(), "a".to_string()];
    let (kept, dropped) = refresh_volume_watches(&watched, &endpoints);
    assert_eq!(kept, ["a", "c"]);
    assert_eq!(dropped, ["b"]);

    let loud = Volume { bits: 2.0f32.to_bits() };
    let events = volume_notification("a", false, loud, true);
    assert!(
        matches!(&events[0], BackendEvent::VolumeChanged { id, volume } if id == "a" && *volume == Volume::full())
    );
    assert!(matches!(&events[1], BackendEvent::MuteChanged { id, muted: true } if id == "a"));
    assert!(volume_notification("a", true, loud, true).is_empty());

    assert!(tells_default_change(0, 0));
    assert!(!tells_default_change(0, 1));
    assert!(!tells_default_change(1, 0));
}

fn all_watch_actions(refresh: &mut WatchRefresh, refused: &str) -> Vec<String> {
    let mut actions = Vec::new();
    while let Some(action) = refresh.action() {
        let worked = match &action {
            WatchAction::End(id) => {
                actions.push(format!("end {id}"));
                true
            }
            WatchAction::Watch(id) => {
                actions.push(format!("watch {id}"));
                id != refused
            }
        };
        refresh.step(worked);
    }
    actions
}

#[test]
fn a_refresh_ends_watches_and_then_registers() {
    let watched = vec!["a".to_string(), "b".to_string(), "c".to_string()];
    let endpoints = vec!["c".to_string(), "d".to_string(), "a".to_string(), "e".to_string()];
    let mut refresh = WatchRefresh::begin(&watched, endpoints);
    assert_eq!(all_watch_actions(&mut refresh, ""), vec!["end b", "watch d", "watch e"]);
    assert_eq!(refresh.watched, vec!["a", "c", "d", "e"]);
}

#[test]
fn an_endpoint_that_cannot_be_watched_is_left_out() {
    let endpoints = vec!["a".to_string(), "b".to_string(), "a".to_string()];
    let mut refresh = WatchRefresh::begin(&Vec::new(), endpoints.clone());
    assert_eq!(all_watch_actions(&mut refresh, "a"), vec!["watch a", "watch b", "watch a"]);
    assert_eq!(refresh.watched, vec!["b"]);
    let mut refresh = WatchRefresh::begin(&Vec::new(), endpoints);
    assert_eq!(all_watch_actions(&mut refresh, "b"), vec!["watch a", "watch b"]);
    assert_eq!(refresh.watched, vec!["a"]);
}
