use std::cell::RefCell;
use std::rc::Rc;

use sound_multiplexer_audio::backend::{Answer, AudioBackend, Call, Recorded};
use sound_multiplexer_audio::commands::{
    coalesce, event_pump, get_devices_inner, refresh_devices_inner, set_all_enabled_inner,
    set_device_enabled_inner, set_device_muted_inner, set_device_volume_inner, Emission, Progress,
    Pump, Request,
};
use sound_multiplexer_audio::device::{BackendEvent, Device, DeviceType};
use sound_multiplexer_audio::volume::Volume;

/// In-memory backend that records every call. `fail` makes the mutating
/// calls (`apply_enabled`, `set_muted`) error, to exercise the
/// notify-even-on-failure paths.
struct MockBackend {
    devices: Vec<Device>,
    calls: Rc<RefCell<Vec<String>>>,
    fail: bool,
}

impl AudioBackend for MockBackend {
    fn list_devices(&mut self) -> Result<Vec<Device>, String> {
        self.calls.borrow_mut().push("list_devices".into());
        Ok(self.devices.clone())
    }

    fn apply_enabled(&mut self, ids: &[String]) -> Result<(), String> {
        self.calls
            .borrow_mut()
            .push(format!("apply_enabled({})", ids.join(",")));
        if self.fail {
            return Err("apply failed".into());
        }
        for d in &mut self.devices {
            d.enabled = ids.contains(&d.id);
        }
        Ok(())
    }

    fn set_volume(&mut self, id: &str, volume: Volume) -> Result<(), String> {
        let volume = f32::from_bits(volume.bits);
        self.calls
            .borrow_mut()
            .push(format!("set_volume({id},{volume:?})"));
        Ok(())
    }

    fn set_muted(&mut self, id: &str, muted: bool) -> Result<(), String> {
        self.calls
            .borrow_mut()
            .push(format!("set_muted({id},{muted})"));
        if self.fail {
            return Err("mute failed".into());
        }
        Ok(())
    }

    fn start_monitoring(&mut self) -> Result<(), String> {
        self.calls.borrow_mut().push("start_monitoring".into());
        Ok(())
    }

    fn cleanup(&mut self) -> Result<(), String> {
        self.calls.borrow_mut().push("cleanup".into());
        Ok(())
    }
}

struct Harness {
    backend: Option<Recorded<MockBackend>>,
    calls: Rc<RefCell<Vec<String>>>,
}

fn harness(devices: Vec<Device>, fail: bool) -> Harness {
    let calls = Rc::new(RefCell::new(Vec::new()));
    let mock = MockBackend { devices, calls: Rc::clone(&calls), fail };
    Harness { backend: Some(Recorded::new(mock)), calls }
}

fn dev(id: &str, enabled: bool) -> Device {
    Device {
        id: id.into(),
        name: id.into(),
        device_type: DeviceType::Speakers,
        enabled,
        volume: volume(0.5),
        muted: false,
    }
}

fn volume(x: f32) -> Volume {
    Volume { bits: x.to_bits() }
}

fn applied_sets(calls: &Rc<RefCell<Vec<String>>>) -> Vec<String> {
    calls
        .borrow()
        .iter()
        .filter(|c| c.starts_with("apply_enabled("))
        .cloned()
        .collect()
}

#[test]
fn set_device_enabled_toggle_on_appends_to_enabled_set() {
    let mut h = harness(vec![dev("a", true), dev("b", false)], false);
    let end = set_device_enabled_inner(&mut h.backend, "b".into(), true);
    end.result.unwrap();
    assert_eq!(applied_sets(&h.calls), ["apply_enabled(a,b)"]);
    assert!(end.notify);
}

#[test]
fn set_device_enabled_toggle_off_removes_from_enabled_set() {
    let mut h = harness(vec![dev("a", true), dev("b", true)], false);
    let end = set_device_enabled_inner(&mut h.backend, "a".into(), false);
    end.result.unwrap();
    assert_eq!(applied_sets(&h.calls), ["apply_enabled(b)"]);
    assert!(end.notify);
}

#[test]
fn set_device_enabled_toggle_on_already_enabled_does_not_duplicate() {
    let mut h = harness(vec![dev("a", true), dev("b", true)], false);
    let end = set_device_enabled_inner(&mut h.backend, "b".into(), true);
    end.result.unwrap();
    assert_eq!(applied_sets(&h.calls), ["apply_enabled(a,b)"]);
    assert!(end.notify);
}

#[test]
fn set_all_enabled_true_applies_every_device_id() {
    let mut h = harness(
        vec![dev("a", true), dev("b", false), dev("c", false)],
        false,
    );
    let end = set_all_enabled_inner(&mut h.backend, true);
    end.result.unwrap();
    assert_eq!(applied_sets(&h.calls), ["apply_enabled(a,b,c)"]);
    assert!(end.notify);
}

#[test]
fn set_all_enabled_false_applies_empty_set() {
    let mut h = harness(vec![dev("a", true), dev("b", true)], false);
    let end = set_all_enabled_inner(&mut h.backend, false);
    end.result.unwrap();
    assert_eq!(applied_sets(&h.calls), ["apply_enabled()"]);
    assert!(end.notify);
}

#[test]
fn set_device_muted_notifies_exactly_once_on_success() {
    let mut h = harness(vec![dev("a", true)], false);
    let end = set_device_muted_inner(&mut h.backend, "a".into(), true);
    end.result.unwrap();
    assert!(h.calls.borrow().contains(&"set_muted(a,true)".to_string()));
    assert!(end.notify);
}

#[test]
fn mutating_commands_notify_exactly_once_even_when_backend_fails() {
    let mut h = harness(vec![dev("a", true)], true);

    let end = set_device_enabled_inner(&mut h.backend, "a".into(), false);
    assert_eq!(end.result.unwrap_err(), "apply failed");
    assert!(end.notify);

    let end = set_all_enabled_inner(&mut h.backend, true);
    assert_eq!(end.result.unwrap_err(), "apply failed");
    assert!(end.notify);

    let end = set_device_muted_inner(&mut h.backend, "a".into(), true);
    assert_eq!(end.result.unwrap_err(), "mute failed");
    assert!(end.notify);
}

#[test]
fn set_device_volume_clamps_to_unit_range_and_sends_no_event() {
    let mut h = harness(vec![dev("a", true)], false);
    for x in [1.5f32, -0.25, 0.5] {
        let end = set_device_volume_inner(&mut h.backend, "a".into(), volume(x));
        end.result.unwrap();
        assert!(!end.notify);
    }
    assert_eq!(
        *h.calls.borrow(),
        [
            "set_volume(a,1.0)",
            "set_volume(a,0.0)",
            "set_volume(a,0.5)"
        ]
    );
}

#[test]
fn commands_without_backend_report_unavailable() {
    let mut backend: Option<Recorded<MockBackend>> = None;
    let err = "audio backend unavailable";
    assert_eq!(get_devices_inner(&mut backend).unwrap_err(), err);
    assert_eq!(
        set_device_enabled_inner(&mut backend, "a".into(), true).result.unwrap_err(),
        err
    );
    assert_eq!(set_all_enabled_inner(&mut backend, true).result.unwrap_err(), err);
    assert_eq!(
        set_device_volume_inner(&mut backend, "a".into(), volume(0.5)).result.unwrap_err(),
        err
    );
    assert_eq!(
        set_device_muted_inner(&mut backend, "a".into(), true).result.unwrap_err(),
        err
    );
}

#[test]
fn refresh_restarts_monitoring_on_existing_backend() {
    let mut h = harness(vec![dev("a", true), dev("b", false)], false);
    let devices =
        refresh_devices_inner(&mut h.backend, || Err("never asked".to_string())).unwrap();
    let listed: Vec<(&str, bool, Volume)> =
        devices.iter().map(|d| (d.id.as_str(), d.enabled, d.volume)).collect();
    assert_eq!(listed, [("a", true, volume(0.5)), ("b", false, volume(0.5))]);
    assert!(h.calls.borrow().contains(&"start_monitoring".to_string()));
}

#[test]
fn refresh_brings_a_backend_up() {
    let calls = Rc::new(RefCell::new(Vec::new()));
    let mock = MockBackend {
        devices: vec![dev("a", true)],
        calls: Rc::clone(&calls),
        fail: false,
    };
    let mut backend: Option<Recorded<MockBackend>> = None;
    let devices = refresh_devices_inner(&mut backend, || Ok(mock)).unwrap();
    assert_eq!(devices.len(), 1);
    assert!(backend.is_some());
    assert_eq!(*calls.borrow(), ["start_monitoring", "list_devices"]);

    let mut backend: Option<Recorded<MockBackend>> = None;
    let why = refresh_devices_inner(&mut backend, || Err("no server".to_string())).unwrap_err();
    assert_eq!(why, "no server");
    assert!(backend.is_none());
}

#[test]
fn getting_devices_lists_them() {
    let mut h = harness(vec![dev("a", true)], false);
    assert_eq!(get_devices_inner(&mut h.backend).unwrap().len(), 1);
    assert_eq!(*h.calls.borrow(), ["list_devices"]);
}

#[test]
fn commands_go_call_by_call() {
    let request = Request::Refresh;
    assert!(matches!(request.begin(false), Progress::Calling(Call::Create)));
    assert!(matches!(
        request.resume(Call::Create, Answer::Done),
        Progress::Calling(Call::StartMonitoring)
    ));
    assert!(matches!(
        request.resume(Call::Create, Answer::Failed("x".into())),
        Progress::Finished(Answer::Failed(_))
    ));
    // A watch that could not be started is no failure of the refresh.
    assert!(matches!(
        request.resume(Call::StartMonitoring, Answer::Failed("x".into())),
        Progress::Calling(Call::List)
    ));
    assert!(!request.notifies());

    // A listing that fails ends the command.
    let request = Request::Enable("a".to_string(), true);
    match request.resume(Call::List, Answer::Failed("gone".into())) {
        Progress::Finished(Answer::Failed(why)) => assert_eq!(why, "gone"),
        other => panic!("{:?}", other),
    }
    match request.resume(Call::List, Answer::Devices(vec![dev("b", true)])) {
        Progress::Calling(Call::Apply(ids)) => assert_eq!(ids, ["b", "a"]),
        other => panic!("{:?}", other),
    }
}

#[test]
fn all_devices_never_hold_the_master_row() {
    let mut master = dev("sound_multiplexer_combined", true);
    master.device_type = DeviceType::Master;
    let mut h = harness(vec![master, dev("a", true), dev("b", false)], false);
    set_all_enabled_inner(&mut h.backend, true).result.unwrap();
    assert_eq!(applied_sets(&h.calls), ["apply_enabled(a,b)"]);
}

#[test]
fn a_burst_is_emitted_as_one() {
    let burst = vec![
        BackendEvent::Error("first".into()),
        BackendEvent::DevicesChanged,
        BackendEvent::Error("last".into()),
        BackendEvent::MuteChanged { id: "a".into(), muted: true },
    ];
    assert_eq!(coalesce(&burst), Some("last".to_string()));
    let pump = event_pump(&burst);
    match &pump {
        Pump::Warn(why) => assert_eq!(why, "last"),
        other => panic!("{:?}", other),
    }
    // The problem is told before the devices are listed.
    let pump = pump.emitted();
    assert!(matches!(pump, Pump::List));
    let pump = pump.listed(Some(Answer::Devices(vec![dev("a", true)])));
    match &pump {
        Pump::Tell(Emission::DevicesChanged(devices)) => assert_eq!(devices[0].id, "a"),
        other => panic!("{:?}", other),
    }
    assert!(matches!(pump.emitted(), Pump::Ended));

    let quiet = vec![BackendEvent::DevicesChanged];
    assert_eq!(coalesce(&quiet), None);
    assert!(matches!(event_pump(&quiet), Pump::List));
    match event_pump(&quiet).listed(Some(Answer::Failed("no list".into()))) {
        Pump::Tell(Emission::BackendError(why)) => assert_eq!(why, "no list"),
        other => panic!("{:?}", other),
    }
    assert!(matches!(event_pump(&quiet).listed(None), Pump::Ended));
}
