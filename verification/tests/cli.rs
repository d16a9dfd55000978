use barclock::cli::{
    apply_env_overrides, derive_printer_status, fmt_watts, mqtt_credentials, normalize_ha_url,
    odd_scheme, parse_cli, Cli, Invocation, USAGE,
};
use barclock::config::{Config, PrinterStatus as P};
use barclock::number::Reading;

fn d(
    power: Option<bool>,
    klipper: Option<&str>,
    print: Option<&str>,
    progress: Option<f64>,
    hours: Option<f64>,
    any: bool,
) -> P {
    let r = |v: Option<f64>| v.map(|v| Reading { bits: v.to_bits() });
    derive_printer_status(power, klipper, print, r(progress), r(hours), any)
}

#[test]
fn printer_status_table() {
    // the observed powered-off signature: switch off, klipper shutdown, stale "complete"
    assert_eq!(d(Some(false), Some("shutdown"), Some("complete"), Some(0.0), Some(0.0), true), P::Off);
    // switch off always wins, even over a stale "printing" with progress
    assert_eq!(d(Some(false), Some("ready"), Some("printing"), Some(42.0), Some(2.0), true), P::Off);
    // no switch configured: shutdown means off
    assert_eq!(d(None, Some("shutdown"), Some("standby"), None, None, true), P::Off);
    // powered printer in emergency shutdown / error is an error, not off
    assert_eq!(d(Some(true), Some("shutdown"), Some("error"), Some(37.2), Some(1.0), true), P::Error);
    assert_eq!(d(Some(true), Some("error"), Some("complete"), Some(0.0), Some(0.0), true), P::Error);
    // normal states
    assert_eq!(d(Some(true), Some("ready"), Some("printing"), Some(42.0), Some(1.97), true), P::Printing);
    assert_eq!(d(Some(true), Some("ready"), Some("paused"), Some(42.0), Some(1.97), true), P::Paused);
    assert_eq!(d(Some(true), Some("ready"), Some("error"), None, None, true), P::Error);
    for idle in ["standby", "complete", "cancelled"] {
        assert_eq!(d(Some(true), Some("ready"), Some(idle), Some(100.0), Some(0.0), true), P::Idle, "{idle}");
    }
    // start-up sequence never flashes OFF while the switch is on
    assert_eq!(d(Some(true), Some("startup"), Some("standby"), None, None, true), P::Idle);
    // everything unavailable (Moonraker restart) with the switch unknown: Unknown, not Off
    assert_eq!(d(None, None, None, None, None, false), P::Unknown);
    // switch on but Moonraker down: Unknown as well
    assert_eq!(d(Some(true), None, None, None, None, true), P::Idle);
    // switch-only configuration: on -> idle, off -> off
    assert_eq!(d(Some(true), None, None, None, None, true), P::Idle);
    assert_eq!(d(Some(false), None, None, None, None, true), P::Off);
    // no print-state sensor: infer printing from progress + time left, not from a finished file
    assert_eq!(d(Some(true), Some("ready"), None, Some(42.0), Some(1.5), true), P::Printing);
    assert_eq!(d(Some(true), Some("ready"), None, Some(100.0), Some(0.0), true), P::Idle);
    assert_eq!(d(Some(true), Some("ready"), None, Some(0.0), Some(0.0), true), P::Idle);
}

#[test]
fn progress_that_is_no_number_is_no_print() {
    assert_eq!(d(Some(true), None, None, Some(f64::NAN), Some(1.0), true), P::Idle);
    assert_eq!(d(Some(true), None, None, Some(50.0), Some(f64::NAN), true), P::Idle);
    assert_eq!(d(Some(true), None, None, Some(-1.0), Some(1.0), true), P::Idle);
    assert_eq!(d(Some(true), None, None, Some(1e-300), Some(1e-300), true), P::Printing);
    assert_eq!(d(Some(true), None, None, Some(99.99999999999999), Some(f64::INFINITY), true), P::Printing);
}

#[test]
fn a_print_is_over_when_no_time_is_left() {
    assert_eq!(d(Some(true), Some("ready"), None, Some(100.0), Some(1.0), true), P::Printing);
    assert_eq!(d(Some(true), Some("ready"), None, Some(42.0), Some(0.0), true), P::Idle);
    assert_eq!(d(Some(true), Some("ready"), None, Some(0.0), Some(1.0), true), P::Idle);
    assert_eq!(d(Some(true), Some("ready"), None, Some(100.0), None, true), P::Idle);
}

#[test]
fn ha_url_normalization() {
    assert_eq!(normalize_ha_url("https://homeassistant.local"), "wss://homeassistant.local/api/websocket");
    assert_eq!(normalize_ha_url("https://homeassistant.local/"), "wss://homeassistant.local/api/websocket");
    assert_eq!(normalize_ha_url("http://192.168.1.10:8123"), "ws://192.168.1.10:8123/api/websocket");
    assert_eq!(normalize_ha_url("wss://ha.example/api/websocket"), "wss://ha.example/api/websocket");
    assert_eq!(normalize_ha_url("ha.example"), "wss://ha.example/api/websocket");
}

#[test]
fn normalizing_again_changes_nothing() {
    for a in ["", "/", "x://", "ftp://h/p/", "http://h/p//", "ws://a://b/c", "h/p", "::://", "http:/x"] {
        let once = normalize_ha_url(a);
        assert_eq!(normalize_ha_url(&once), once, "{a}");
    }
    assert_eq!(normalize_ha_url("ftp://h/p/"), "wss://h/p");
}

#[test]
fn watts_grouping() {
    let fmt = |v: f64| fmt_watts(v.round() as i64);
    assert_eq!(fmt(0.0), "0 W");
    assert_eq!(fmt(999.4), "999 W");
    assert_eq!(fmt(1234.5), "1 235 W");
    assert_eq!(fmt(12345678.0), "12 345 678 W");
    assert_eq!(fmt(-1500.0), "-1 500 W");
    assert_eq!(fmt_watts(1_000_007), "1 000 007 W");
    assert_eq!(fmt_watts(i64::MIN), "-9 223 372 036 854 775 808 W");
}

fn args(a: &[&str]) -> Vec<String> {
    a.iter().map(|s| s.to_string()).collect()
}

#[test]
fn command_lines() {
    let run = |a: &[&str], env: Option<&str>| parse_cli(&args(a), env);
    let plain = Cli { config: "/etc/barclock.toml".into(), touch_test: false, preview: None };
    assert_eq!(run(&[], None), Ok(Invocation::Run(plain.clone())));
    assert_eq!(
        run(&[], Some("/tmp/x.toml")),
        Ok(Invocation::Run(Cli { config: "/tmp/x.toml".into(), ..plain.clone() }))
    );
    assert_eq!(
        run(&["-c", "a", "--config", "b", "--touch-test"], Some("env")),
        Ok(Invocation::Run(Cli { config: "b".into(), touch_test: true, preview: None }))
    );
    assert_eq!(
        run(&["--preview", "o.png"], None),
        Ok(Invocation::Run(Cli { preview: Some(("o.png".into(), "normal".into())), ..plain.clone() }))
    );
    assert_eq!(
        run(&["--preview-state", "busy", "--preview", "o.png"], None),
        Ok(Invocation::Run(Cli { preview: Some(("o.png".into(), "busy".into())), ..plain.clone() }))
    );
    assert_eq!(run(&["--preview-state", "busy"], None), Ok(Invocation::Run(plain)));
    assert_eq!(run(&["-V", "--bogus"], None), Ok(Invocation::Version));
    assert_eq!(run(&["--help"], None), Ok(Invocation::Help));
    assert_eq!(run(&["--config"], None), Err("--config needs a path".into()));
    assert_eq!(run(&["--preview"], None), Err("--preview needs an output .png path".into()));
    assert_eq!(run(&["--preview-state"], None), Err("--preview-state needs a value".into()));
    assert_eq!(
        run(&["--\"odd\""], None),
        Err(format!("unknown argument \"--\\\"odd\\\"\"\n{USAGE}"))
    );
    assert_eq!(USAGE.lines().count(), 6);
}

#[test]
fn the_environment_overrides_endpoints() {
    let mut cfg = Config::default();
    let warnings =
        apply_env_overrides(&mut cfg, Some(" https://ha.example "), Some(" broker "), Some(" 8883 "));
    assert!(warnings.is_empty());
    assert_eq!(cfg.homeassistant.url, "wss://ha.example/api/websocket");
    assert_eq!(cfg.mqtt.host, "broker");
    assert_eq!(cfg.mqtt.port, 8883);
    assert_eq!(
        apply_env_overrides(&mut cfg, Some("  "), None, Some(" 65536")),
        vec!["MQTT_PORT=\" 65536\" is not a port number, keeping 8883".to_string()]
    );
    assert_eq!(cfg.homeassistant.url, "wss://ha.example/api/websocket");
    assert_eq!(cfg.mqtt.port, 8883);
    assert_eq!(cfg.mqtt.client_id, "barclock");
    assert_eq!(
        apply_env_overrides(&mut cfg, Some("ftp://ha.example"), None, Some("x")),
        vec![
            "HA_URL scheme \"ftp\" is not http(s)/ws(s); assuming wss".to_string(),
            "MQTT_PORT=\"x\" is not a port number, keeping 8883".to_string(),
        ]
    );
    assert_eq!(cfg.homeassistant.url, "wss://ha.example/api/websocket");
    assert_eq!(odd_scheme("ws://h"), None);
}

#[test]
fn credentials_need_a_user() {
    let s = |t: &str| Some(t.to_string());
    assert_eq!(mqtt_credentials(s("u"), s("p")), Some(("u".into(), "p".into())));
    assert_eq!(mqtt_credentials(s("u"), s("")), Some(("u".into(), "".into())));
    assert_eq!(mqtt_credentials(s(""), s("p")), None);
    assert_eq!(mqtt_credentials(s("u"), None), None);
    assert_eq!(mqtt_credentials(None, s("p")), None);
}
