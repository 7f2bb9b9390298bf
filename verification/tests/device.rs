use sound_multiplexer_audio::device::{all_device_ids, compute_enabled_ids, Device, DeviceType};
use sound_multiplexer_audio::volume::Volume;

fn dev(id: &str, enabled: bool) -> Device {
    Device {
        id: id.into(),
        name: id.into(),
        device_type: DeviceType::Speakers,
        enabled,
        volume: Volume { bits: 1.0f32.to_bits() },
        muted: false,
    }
}

#[test]
fn lib_toggling_on_appends_preserving_order() {
    let devices = [dev("a", true), dev("b", false), dev("c", true)];
    assert_eq!(compute_enabled_ids(&devices, "b", true), ["a", "c", "b"]);
}

#[test]
fn lib_toggling_off_removes_only_that_id() {
    let devices = [dev("a", true), dev("b", true)];
    assert_eq!(compute_enabled_ids(&devices, "a", false), ["b"]);
}

#[test]
fn lib_toggling_on_an_already_enabled_id_does_not_duplicate() {
    let devices = [dev("a", true), dev("b", true)];
    assert_eq!(compute_enabled_ids(&devices, "b", true), ["a", "b"]);
}

#[test]
fn lib_unknown_id_toggle_off_is_a_no_op() {
    let devices = [dev("a", true)];
    assert_eq!(compute_enabled_ids(&devices, "ghost", false), ["a"]);
}

#[test]
fn lib_master_row_never_joins_an_enabled_set() {
    let mut master = dev("sound_multiplexer_combined", true);
    master.device_type = DeviceType::Master;
    let devices = [master, dev("a", true), dev("b", false)];
    assert_eq!(compute_enabled_ids(&devices, "b", true), ["a", "b"]);
    assert_eq!(compute_enabled_ids(&devices, "a", false), Vec::<String>::new());
}

#[test]
fn toggling_the_master_row_on_does_not_enable_it() {
    let mut master = dev("sound_multiplexer_combined", true);
    master.device_type = DeviceType::Master;
    let devices = [master, dev("a", true), dev("b", true)];
    assert_eq!(
        compute_enabled_ids(&devices, "sound_multiplexer_combined", true),
        ["a", "b"]
    );
}

#[test]
fn all_devices_leave_the_master_row_out() {
    let mut master = dev("sound_multiplexer_combined", true);
    master.device_type = DeviceType::Master;
    let devices = [master, dev("a", true), dev("b", false)];
    assert_eq!(all_device_ids(&devices), ["a", "b"]);
    assert!(all_device_ids(&[]).is_empty());
}

#[test]
fn volumes_clamp_as_their_numbers_do() {
    let clamp = |x: f32| f32::from_bits(Volume { bits: x.to_bits() }.clamp_unit().bits);
    for x in [0.0f32, 0.25, 1.0, 1.5, 3.0e38, -0.25, -1.0e-40, f32::INFINITY, f32::NEG_INFINITY] {
        assert_eq!(clamp(x), x.clamp(0.0, 1.0), "{}", x);
    }
    assert!(clamp(f32::NAN).is_nan());
    assert_eq!(f32::from_bits(Volume::full().bits), 1.0);
    for x in [0.5f32, -2.0, f32::MAX, f32::NAN, f32::INFINITY, f32::NEG_INFINITY] {
        let v = Volume { bits: x.to_bits() };
        assert_eq!(v.is_finite(), x.is_finite(), "{}", x);
        assert_eq!(v.is_a_number(), !x.is_nan(), "{}", x);
    }
}

#[test]
fn a_copied_device_is_the_same() {
    let d = dev("a", true);
    let c = d.clone();
    assert_eq!(c.id, "a");
    assert_eq!(c.name, "a");
    assert_eq!(c.volume, d.volume);
    assert!(c.enabled && !c.muted);
}
