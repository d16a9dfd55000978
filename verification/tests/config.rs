use barclock::config::{Config, PrinterStatus};
use barclock::ha_ws::{ping_interval, Reconnect};
use barclock::iotawatt::timings;
use barclock::number::Fraction;

fn problem(cfg: &Config) -> String {
    cfg.validate().unwrap_err()
}

#[test]
fn defaults_are_valid() {
    let cfg = Config::default();
    cfg.validate().unwrap();
    assert_eq!(cfg.entity_ids().len(), 22);
    assert_eq!(cfg.weather_label("sunny"), "Ensoleillé");
}

#[test]
fn parses_partial_file_and_overrides() {
    let mut cfg = Config::default();
    cfg.general.language = "en".into();
    cfg.mqtt.host = "broker.local".into();
    cfg.weather_labels.insert("sunny".into(), "Soleil".to_string());
    cfg.validate().unwrap();
    assert_eq!(cfg.mqtt.host, "broker.local");
    assert_eq!(cfg.mqtt.port, 1883);
    assert_eq!(cfg.weather_label("sunny"), "Soleil");
    assert_eq!(cfg.weather_label("cloudy"), "Cloudy");
}

#[test]
fn rejects_overlapping_kiosk_camera_options() {
    let mut cfg = Config::default();
    cfg.entities.kiosk_camera_street_option = "off".into();
    let err = problem(&cfg);
    assert!(err.contains("must differ"), "{err}");
    assert_eq!(
        err,
        "entities.kiosk_camera_{street,gallery,off}_option must differ from each other, got \"off\", \"Galerie\", \"off\""
    );
    let mut cfg = Config::default();
    cfg.entities.kiosk_camera_gallery_option = "".into();
    assert!(problem(&cfg).contains("must all name"));
    // not checked when no select is configured
    let mut cfg = Config::default();
    cfg.entities.kiosk_camera = "".into();
    cfg.entities.kiosk_camera_street_option = "off".into();
    cfg.validate().unwrap();
}

#[test]
fn rejects_bad_iotawatt_settings() {
    // not checked at all while polling is off
    let mut cfg = Config::default();
    cfg.iotawatt.poll_interval_ms = 1;
    cfg.validate().unwrap();
    for key in ["poll_interval_ms", "timeout_ms", "failures_before_fallback"] {
        let mut cfg = Config::default();
        cfg.iotawatt.url = "http://h/".into();
        match key {
            "poll_interval_ms" => cfg.iotawatt.poll_interval_ms = 1,
            "timeout_ms" => cfg.iotawatt.timeout_ms = 0,
            _ => cfg.iotawatt.failures_before_fallback = 0,
        }
        let err = problem(&cfg);
        assert!(err.contains(key), "{key}: {err}");
    }
    let mut cfg = Config::default();
    cfg.iotawatt.url = "http://h/".into();
    cfg.iotawatt.house_output = "".into();
    cfg.iotawatt.servers_input = "".into();
    assert!(problem(&cfg).contains("neither"));
    let mut cfg = Config::default();
    cfg.iotawatt.url = "http://iotawatt.local/".into();
    cfg.validate().unwrap();
}

#[test]
fn rejects_bad_kiosk_display_off_option() {
    for bad in ["on", "", "  "] {
        let mut cfg = Config::default();
        cfg.entities.kiosk_display_off_option = bad.into();
        let err = problem(&cfg);
        assert!(err.contains("kiosk_display_off_option"), "{err}");
    }
    let mut cfg = Config::default();
    cfg.entities.kiosk_display_off_option = "off".into();
    cfg.validate().unwrap();
}

#[test]
fn rejects_out_of_range_homeassistant_timings() {
    // A huge ping interval used to overflow at runtime.
    let mut cfg = Config::default();
    cfg.homeassistant.ping_interval_s = 9223372036854775807;
    let e = problem(&cfg);
    assert!(e.contains("homeassistant.ping_interval_s"), "{e}");
    assert!(e.contains("5..=3600"), "{e}");
    let mut cfg = Config::default();
    cfg.homeassistant.ping_interval_s = 4;
    assert!(problem(&cfg).contains("ping_interval_s"));
    let mut cfg = Config::default();
    cfg.homeassistant.backoff_min_s = 0;
    assert!(problem(&cfg).contains("homeassistant.backoff_min_s"));
    cfg.homeassistant.backoff_min_s = 3601;
    assert!(problem(&cfg).contains("homeassistant.backoff_min_s"));
    let mut cfg = Config::default();
    cfg.homeassistant.backoff_min_s = 10;
    cfg.homeassistant.backoff_max_s = 5;
    let e = problem(&cfg);
    assert!(e.contains("homeassistant.backoff_max_s"), "{e}");
    assert!(e.contains("backoff_min_s is 10"), "{e}");
    let mut cfg = Config::default();
    cfg.homeassistant.backoff_max_s = 3601;
    assert!(problem(&cfg).contains("homeassistant.backoff_max_s"));
    let mut cfg = Config::default();
    cfg.homeassistant.call_timeout_s = 0;
    assert!(problem(&cfg).contains("homeassistant.call_timeout_s"));
    cfg.homeassistant.call_timeout_s = 601;
    assert!(problem(&cfg).contains("homeassistant.call_timeout_s"));
    let mut cfg = Config::default();
    cfg.homeassistant.connecting_after_s = 601;
    assert!(problem(&cfg).contains("homeassistant.connecting_after_s"));
}

#[test]
fn accepts_homeassistant_timing_bounds() {
    let mut cfg = Config::default();
    cfg.homeassistant.ping_interval_s = 3600;
    cfg.homeassistant.backoff_min_s = 30;
    cfg.homeassistant.backoff_max_s = 30;
    cfg.homeassistant.call_timeout_s = 600;
    cfg.homeassistant.connecting_after_s = 0;
    cfg.validate().unwrap();
    let mut cfg = Config::default();
    cfg.homeassistant.ping_interval_s = 5;
    cfg.homeassistant.backoff_min_s = 1;
    cfg.homeassistant.backoff_max_s = 1;
    cfg.validate().unwrap();
}

#[test]
fn rejects_bad_display_settings() {
    let mut cfg = Config::default();
    cfg.display.default_brightness = 0;
    assert_eq!(problem(&cfg), "display.default_brightness must be 1..=255");
    let mut cfg = Config::default();
    cfg.display.wake_brightness = 0;
    assert_eq!(problem(&cfg), "display.wake_brightness must be 1..=255");
    let mut cfg = Config::default();
    cfg.display.rotation = 45;
    assert_eq!(problem(&cfg), "display.rotation must be 0, 90, 180 or 270");
    for rotation in [0, 90, 180, 270] {
        cfg.display.rotation = rotation;
        cfg.validate().unwrap();
    }
}

#[test]
fn the_dim_opacity_lies_within_one() {
    assert_eq!(Config::default().display.max_dim_opacity.bits, 0.94f32.to_bits());
    for (v, ok) in [
        (0.0f32, true),
        (-0.0, true),
        (0.5, true),
        (1.0, true),
        (1.0000001, false),
        (-0.1, false),
        (f32::NAN, false),
        (f32::INFINITY, false),
        (f32::NEG_INFINITY, false),
    ] {
        let mut cfg = Config::default();
        cfg.display.max_dim_opacity = Fraction { bits: v.to_bits() };
        assert_eq!(cfg.validate().is_ok(), ok, "{v}");
    }
}

#[test]
fn default_thresholds_are_the_documented_numbers() {
    let t = Config::default().thresholds;
    assert_eq!(f64::from_bits(t.stove_flame_w.bits), 4.0);
    assert_eq!(f64::from_bits(t.car_charging_kw.bits), 0.1);
    assert_eq!(f64::from_bits(t.water_heater_w.bits), 50.0);
    assert_eq!(f64::from_bits(t.washer_w.bits), 10.0);
    assert_eq!(f64::from_bits(t.dryer_w.bits), 10.0);
}

#[test]
fn unknown_time_zones_are_named() {
    let mut cfg = Config::default();
    cfg.general.timezone = "Mars/Olympus".into();
    assert!(problem(&cfg).starts_with("general.timezone \"Mars/Olympus\": "), "{}", problem(&cfg));
    assert!(cfg.local_tz().is_err());
    let mut cfg = Config::default();
    cfg.clock.zones[1].tz = "Nowhere".into();
    assert!(problem(&cfg).starts_with("clock.zones \"Nowhere\": "), "{}", problem(&cfg));
    let zones = Config::default().zone_tzs().unwrap();
    assert_eq!(zones[2], ("Paris/Skopje".to_string(), chrono_tz::Europe::Paris));
    assert_eq!(Config::default().local_tz().unwrap(), chrono_tz::America::Toronto);
}

#[test]
fn blank_entities_are_not_subscribed_to() {
    let mut cfg = Config::default();
    cfg.entities.weather = " ".into();
    cfg.entities.office_fan = "".into();
    let ids = cfg.entity_ids();
    assert_eq!(ids.len(), 20);
    assert_eq!(ids[0], "sensor.hydroquebec_w");
}

#[test]
fn weather_and_printer_labels() {
    let mut cfg = Config::default();
    assert_eq!(cfg.weather_label(""), "Inconnu");
    assert_eq!(cfg.weather_label("unknown"), "Inconnu");
    assert_eq!(cfg.weather_label("some-new-thing"), "some new thing");
    assert_eq!(cfg.printer_label(PrinterStatus::Paused), "EN PAUSE");
    assert_eq!(cfg.printer_label(PrinterStatus::Unknown), "—");
    cfg.general.language = "en".into();
    assert_eq!(cfg.weather_label("lightning-rainy"), "Thunderstorm");
    assert_eq!(cfg.printer_label(PrinterStatus::Error), "ERROR");
    assert_eq!(PrinterStatus::Unknown.key(), "off");
    assert_eq!(PrinterStatus::Printing.key(), "printing");
}

#[test]
fn sound_timings_are_kept() {
    let mut cfg = Config::default();
    cfg.homeassistant.ping_interval_s = 3600;
    cfg.homeassistant.backoff_min_s = 7;
    cfg.homeassistant.backoff_max_s = 3600;
    cfg.iotawatt.url = "http://h/".into();
    cfg.iotawatt.poll_interval_ms = 300_000;
    cfg.iotawatt.timeout_ms = 200;
    cfg.validate().unwrap();
    assert_eq!(ping_interval(cfg.homeassistant.ping_interval_s), 3600 * 1_000_000_000);
    let r = Reconnect::new(cfg.homeassistant.backoff_min_s, cfg.homeassistant.backoff_max_s);
    assert_eq!((r.backoff.min, r.backoff.max), (7 * 1_000_000_000, 3600 * 1_000_000_000));
    assert_eq!(
        timings(cfg.iotawatt.poll_interval_ms, cfg.iotawatt.timeout_ms),
        (300_000 * 1_000_000, 200 * 1_000_000)
    );
}

#[test]
fn the_time_zones_are_checked_first() {
    let mut cfg = Config::default();
    assert_eq!(cfg.broken_rule(), None);
    cfg.display.rotation = 45;
    assert_eq!(cfg.broken_rule(), Some("display.rotation must be 0, 90, 180 or 270".into()));
    assert_eq!(problem(&cfg), "display.rotation must be 0, 90, 180 or 270");
    cfg.general.timezone = "Nowhere".into();
    assert!(problem(&cfg).contains("Nowhere"));
    assert_eq!(cfg.broken_rule(), Some("display.rotation must be 0, 90, 180 or 270".into()));
}

#[test]
fn a_blank_field_drops_exactly_its_id() {
    let all = Config::default().entity_ids();
    let mut cfg = Config::default();
    cfg.entities.office_fan = "  ".into();
    let mut rest = all.clone();
    rest.retain(|id| *id != Config::default().entities.office_fan);
    assert_eq!(rest.len(), all.len() - 1);
    assert_eq!(cfg.entity_ids(), rest);
}
