use barclock::display::{
    any_connected, display_wait, first_name, is_card, load_light_state, needs_display,
    save_light_state, time_is_synced, Backlight, Connector, DisplayWait, Dpms, Property,
    DISPLAY_POLL_S,
};
use barclock::types::LightState;

#[test]
fn light_state_round_trip() {
    let s = LightState { on: false, brightness: 42 };
    assert_eq!(load_light_state(&save_light_state(s)), Some(s));
    assert_eq!(load_light_state("on 0"), None);
    assert_eq!(load_light_state("garbage"), None);
}

#[test]
fn light_state_format() {
    assert_eq!(save_light_state(LightState { on: true, brightness: 255 }), "on 255\n");
    assert_eq!(load_light_state("  on\t7 trailing\n"), Some(LightState { on: true, brightness: 7 }));
    assert_eq!(load_light_state("off +9"), Some(LightState { on: false, brightness: 9 }));
    assert_eq!(load_light_state("on 256"), None);
    assert_eq!(load_light_state("on"), None);
    assert_eq!(load_light_state("ON 5"), None);
    assert_eq!(load_light_state(""), None);
    for on in [true, false] {
        for brightness in 1..=255 {
            let s = LightState { on, brightness };
            assert_eq!(load_light_state(&save_light_state(s)), Some(s));
        }
    }
}

fn writes(b: &Backlight, level: u8) -> Vec<(String, String)> {
    b.set(level).into_iter().map(|w| (w.file, w.value)).collect()
}

fn pair(a: &str, b: &str) -> (String, String) {
    (a.to_string(), b.to_string())
}

#[test]
fn backlight_levels_are_scaled_to_the_hardware() {
    let b = Backlight::discover("/sys/class/backlight/x", " 100\n", true).unwrap();
    assert_eq!(b.path(), "/sys/class/backlight/x");
    assert_eq!(writes(&b, 0), vec![pair("bl_power", "4"), pair("brightness", "0")]);
    assert_eq!(writes(&b, 255), vec![pair("bl_power", "0"), pair("brightness", "100")]);
    let b = Backlight::discover("d", "7", false).unwrap();
    assert_eq!(writes(&b, 1), vec![pair("brightness", "1")]);
    assert_eq!(writes(&b, 0), vec![pair("brightness", "0")]);
    // rounded as floating point rounds it, over the whole range
    for max in [1u32, 3, 15, 255, 1023, 4_294_967_295] {
        let b = Backlight::discover("d", &max.to_string(), false).unwrap();
        for level in 1..=255u8 {
            let hw = ((f64::from(level) / 255.0) * f64::from(max)).round().max(1.0) as u32;
            assert_eq!(writes(&b, level), vec![pair("brightness", &hw.to_string())], "{level} of {max}");
        }
    }
    assert_eq!(Backlight::discover("d", "bright", false), None);
    // a highest level of zero counts as one
    let b = Backlight::discover("d", "0", false).unwrap();
    assert_eq!(writes(&b, 255), vec![pair("brightness", "1")]);
}

#[test]
fn the_first_backlight_is_taken() {
    let names: Vec<String> = ["rpi", "acpi1", "acpi0"].iter().map(|s| s.to_string()).collect();
    assert_eq!(first_name(&names), Some(2));
    assert_eq!(first_name(&vec![]), None);
}

fn connector(connected: bool, props: &[(Option<&str>, u64)]) -> Connector {
    Connector {
        interface: "HDMI-A".into(),
        interface_id: 1,
        connected,
        properties: props
            .iter()
            .map(|(n, v)| Property { name: n.map(|n| n.to_string()), value: *v })
            .collect(),
    }
}

#[test]
fn the_first_connected_switch_is_taken() {
    let cs = vec![
        connector(false, &[(Some("DPMS"), 0)]),
        connector(true, &[(Some("EDID"), 5)]),
        connector(true, &[(None, 1), (Some("EDID"), 5), (Some("DPMS"), 3)]),
        connector(true, &[(Some("DPMS"), 0)]),
    ];
    let (c, p, mut d) = Dpms::discover(&cs).unwrap();
    assert_eq!((c, p), (2, 2));
    assert_eq!(d.connector_name, "HDMI-A-1");
    assert!(!d.is_on());
    assert_eq!(d.request(false), None);
    assert_eq!(d.request(true), Some(0));
    d.set_on(true);
    assert!(d.is_on());
    assert_eq!(d.request(false), Some(3));
    assert_eq!(Dpms::discover(&cs[..2].to_vec()), None);
}

#[test]
fn clock_synchronization() {
    assert!(time_is_synced(0, 0, false));
    assert!(!time_is_synced(0, 0x40, true));
    assert!(!time_is_synced(5, 0, true));
    assert!(time_is_synced(1, 0x2001, false));
    assert!(time_is_synced(-1, 0, true));
    assert!(!time_is_synced(-1, 0, false));
}

#[test]
fn displays_and_cards() {
    assert!(is_card("/dev/dri/card1"));
    assert!(!is_card("/dev/dri/renderD128"));
    assert!(needs_display("linuxkms-software"));
    assert!(!needs_display("winit"));
    assert!(any_connected(&vec!["disconnected\n".into(), "connected\n".into()]));
    assert!(!any_connected(&vec!["disconnected\n".into()]));
    assert!(!any_connected(&vec![]));
    assert_eq!(display_wait(true, 0), DisplayWait::Ready);
    assert_eq!(display_wait(true, DISPLAY_POLL_S), DisplayWait::Settle);
    assert_eq!(display_wait(false, 0), DisplayWait::Wait { warn: true });
    assert_eq!(display_wait(false, 28), DisplayWait::Wait { warn: false });
    assert_eq!(display_wait(false, 30), DisplayWait::Wait { warn: true });
}
