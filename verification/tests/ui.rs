use barclock::clock::ClockText;
use barclock::config::{Config, PrinterStatus};
use barclock::iotawatt::PowerEvent;
use barclock::json::{parse, render, Json};
use barclock::map::TextMap;
use barclock::number::{Quantity, Reading};
use barclock::preview::{populate, sample_preview, SAMPLE_TIME};
use barclock::screen::{
    preset_for, printer_status, Fan, Figures, LoadState, Measured, ToggleState,
};
use barclock::types::{EntityState, LightCommand, LightState};
use barclock::ui::{Effect, Overlay, Ui, Window};

fn reading(v: f64) -> Reading {
    Reading { bits: v.to_bits() }
}

fn quantity(v: f64) -> Quantity {
    Quantity {
        value: reading(v),
        rounded: v.round() as i64,
        tenths: format!("{v:.1}"),
        percent_tenths: format!("{:.1}", v.clamp(0.0, 100.0)),
        minutes: (v * 60.0).round() as i64,
        thousandfold: reading(v * 1000.0),
        thousandfold_rounded: (v * 1000.0).round() as i64,
        percent: (v / 255.0 * 100.0).round() as i64,
    }
}

fn attribute(e: &EntityState, key: &str) -> Option<Quantity> {
    match e.attributes.get(key) {
        Some(Json::Number(n)) => n.parse::<f64>().ok().map(quantity),
        Some(Json::Text(t)) => t.trim().parse::<f64>().ok().map(quantity),
        _ => None,
    }
}

fn figures(e: &EntityState) -> Figures {
    Figures {
        state: e.state.trim().parse::<f64>().ok().map(quantity),
        temperature: attribute(e, "temperature"),
        humidity: attribute(e, "humidity"),
        wind_speed: attribute(e, "wind_speed"),
        percentage: attribute(e, "percentage"),
        brightness: attribute(e, "brightness"),
    }
}

fn entity(state: &str, attributes: &[(&str, &str)]) -> EntityState {
    let mut m = TextMap::new();
    for (k, v) in attributes {
        m.insert(k.to_string(), parse(v).unwrap());
    }
    EntityState { state: state.into(), attributes: m }
}

fn ui(has_dpms: bool, has_backlight: bool) -> Ui {
    Ui::new(Config::default(), reading(0.1 * 1000.0), has_dpms, has_backlight, LightState::default(), false, false)
}

fn change(u: &mut Ui, id: &str, e: EntityState) {
    let f = figures(&e);
    u.on_state_changed(id.to_string(), e, f);
}

fn clock(time: &str, zone: &str) -> ClockText {
    ClockText {
        time: time.into(),
        date: "05/09/2026".into(),
        weekday: "Samedi".into(),
        zones: vec![("UTC".into(), zone.into())],
    }
}

const CEILING: &str = "light.plafonnier_bureau_lulu";
const MONITOR: &str = "light.lumieres_ecran_lumiere_bureau";
const CAMERA: &str = "select.bureau_lulu_kiosk_camera";
const DISPLAY: &str = "select.bureau_lulu_kiosk_display_power_mode";
const GRAFANA: &str = "switch.bureau_lulu_kiosk_grafana_kiosk";
const FAN: &str = "fan.office_fan_office_fan";
const HOUSE: &str = "sensor.hydroquebec_w";
const SERVERS: &str = "sensor.serveurs_w";
const SECOND: u64 = 1_000_000_000;

/// Domain, service, data and entities of the calls among the effects.
fn calls(out: &[Effect]) -> Vec<(String, String, String, Vec<String>)> {
    out.iter()
        .filter_map(|e| match e {
            Effect::Call(c) => {
                Some((c.domain.clone(), c.service.clone(), render(&c.service_data), c.entity_ids.clone()))
            }
            _ => None,
        })
        .collect()
}

fn call(domain: &str, service: &str, data: &str, ids: &[&str]) -> (String, String, String, Vec<String>) {
    (domain.into(), service.into(), data.into(), ids.iter().map(|s| s.to_string()).collect())
}

#[test]
fn the_controller_starts_waiting() {
    let mut u = ui(true, false);
    assert_eq!(u.window.indoor_label, "BUREAU LULU");
    assert_eq!(u.window.zones[2], ("PARIS/SKOPJE".to_string(), "--:--".to_string()));
    let out = u.start();
    assert_eq!(
        out,
        vec![Effect::Tick, Effect::PublishLight(LightState::default()), Effect::StopPanelTimer]
    );
    assert!(u.window.connecting);
    assert_eq!(u.window.connecting_detail, "HOME ASSISTANT · HORLOGE NTP");
    assert_eq!((u.window.overlay, u.window.wake_guard), (Overlay::Level(255), false));
    assert_eq!(u.on_connected(), vec![Effect::StopDisconnectTimer]);
    assert_eq!(u.window.connecting_detail, "HORLOGE NTP");
    assert!(u.window.ha_online && u.window.connecting);
    u.set_time_synced();
    assert_eq!(u.window.connecting_detail, "");
    assert!(!u.window.connecting);
    // a drop shows only after a while
    assert_eq!(u.on_disconnected(), vec![Effect::DisconnectTimer(10 * SECOND)]);
    assert!(u.window.ha_online);
    u.disconnect_elapsed();
    assert_eq!(u.window.connecting_detail, "HOME ASSISTANT");
    assert!(!u.window.ha_online);
    let mut cfg = Config::default();
    cfg.general.indoor_label = "straße é".into();
    let mut u = Ui::new(cfg, reading(100.0), false, false, LightState::default(), true, true);
    u.start();
    assert_eq!(u.window.indoor_label, "STRASSE É");
    assert!(u.window.touch_test);
    assert_eq!(u.window.connecting_detail, "HA_TOKEN MANQUANT DANS /etc/barclock.env · HORLOGE NTP");
    assert!(u.shutdown().is_empty());
}

#[test]
fn the_clock_ticks() {
    let mut u = ui(true, false);
    u.tick(clock("15:04:09", "19:04"));
    assert_eq!((u.window.time_hm.as_str(), u.window.time_s.as_str()), ("15:04:", "09"));
    assert_eq!((u.window.date.as_str(), u.window.weekday.as_str()), ("05/09/2026", "SAMEDI"));
    assert_eq!(u.window.zones[0], ("UTC".to_string(), "19:04".to_string()));
    assert_eq!(u.window.zones[1], ("LONDON".to_string(), "--:--".to_string()));
    u.freeze();
    u.tick(clock("15:04:10", "19:04"));
    assert_eq!(u.window.time_s, "09");
    assert_eq!(u.last_clock, Some(clock("15:04:09", "19:04")));
}

#[test]
fn the_weather_pane() {
    let mut u = ui(false, false);
    let attrs = [
        ("temperature", "12.34"),
        ("humidity", "\" 55.5 \""),
        ("friendly_name", "\"Sept-Îles\""),
    ];
    change(&mut u, "weather.sept_iles", entity("partlycloudy", &attrs));
    let w = &u.window.weather;
    assert_eq!(w.line, "12.3 °C   56 %   — km/h");
    assert_eq!(w.condition, "Partiellement nuageux");
    assert_eq!(w.icon, "partlycloudy");
    assert_eq!(w.place, "SEPT-ÎLES");
    change(&mut u, "weather.sept_iles", entity("unavailable", &attrs));
    let w = &u.window.weather;
    assert_eq!(w.line, "— °C   — %   — km/h");
    assert_eq!((w.condition.as_str(), w.icon.as_str()), ("Indisponible", ""));
    assert_eq!(w.place, "SEPT-ÎLES");
    u.on_state_removed("weather.sept_iles");
    assert_eq!(u.window.weather.place, "");
}

#[test]
fn the_iotawatt_wins_while_it_answers() {
    let mut u = ui(false, false);
    change(&mut u, HOUSE, entity("1234.5", &[]));
    change(&mut u, SERVERS, entity("900", &[]));
    assert_eq!((u.window.house_power.as_str(), u.window.servers_power.as_str()), ("1 235 W", "900 W"));
    u.on_power_event(&PowerEvent::Live { house: Some(quantity(7027.6)), servers: None });
    assert_eq!((u.window.house_power.as_str(), u.window.servers_power.as_str()), ("7 028 W", "900 W"));
    change(&mut u, HOUSE, entity("1", &[]));
    assert_eq!(u.window.house_power, "7 028 W");
    // a value that it leaves out keeps using its own sensor
    change(&mut u, SERVERS, entity("901", &[]));
    assert_eq!(u.window.servers_power, "901 W");
    change(&mut u, SERVERS, entity("900", &[]));
    u.on_power_event(&PowerEvent::Live { house: None, servers: Some(quantity(962.0)) });
    assert_eq!((u.window.house_power.as_str(), u.window.servers_power.as_str()), ("1 W", "962 W"));
    change(&mut u, HOUSE, entity("1500", &[]));
    change(&mut u, SERVERS, entity("905", &[]));
    assert_eq!((u.window.house_power.as_str(), u.window.servers_power.as_str()), ("1 500 W", "962 W"));
    u.on_power_event(&PowerEvent::Live { house: Some(quantity(2000.0)), servers: Some(quantity(954.0)) });
    change(&mut u, HOUSE, entity("1", &[]));
    change(&mut u, SERVERS, entity("900", &[]));
    assert_eq!((u.window.house_power.as_str(), u.window.servers_power.as_str()), ("2 000 W", "954 W"));
    u.on_power_event(&PowerEvent::Down);
    assert_eq!((u.window.house_power.as_str(), u.window.servers_power.as_str()), ("1 W", "900 W"));
    change(&mut u, HOUSE, entity("unavailable", &[]));
    assert_eq!(u.window.house_power, "— W");
}

#[test]
fn a_value_left_out_comes_from_its_sensor() {
    let mut u = ui(false, false);
    change(&mut u, HOUSE, entity("1500", &[]));
    u.window.house_power = "older".into();
    u.on_power_event(&PowerEvent::Live { house: None, servers: Some(quantity(954.0)) });
    assert_eq!((u.window.house_power.as_str(), u.window.servers_power.as_str()), ("1 500 W", "954 W"));
    // without a sensor of its own nothing is made of it
    u.cfg.entities.servers_power = " ".into();
    u.on_power_event(&PowerEvent::Live { house: None, servers: None });
    assert_eq!(u.window.servers_power, "954 W");
}

#[test]
fn the_load_columns() {
    let mut u = ui(false, false);
    u.cfg.entities.washer_power = " ".into();
    change(&mut u, "sensor.poele_w", entity("4.0", &[]));
    let load = |on: bool, available: bool, power: &str, badge: &str| LoadState {
        on,
        available,
        configured: true,
        power: power.into(),
        badge: badge.into(),
    };
    assert_eq!(u.window.loads.stove, load(false, true, "4 W", ""));
    assert_eq!(u.window.loads.dryer, load(false, false, "—", ""));
    assert_eq!(
        u.window.loads.washer,
        LoadState { on: false, available: false, configured: false, power: "".into(), badge: "".into() }
    );
    change(&mut u, "sensor.poele_w", entity("4.01", &[]));
    assert!(u.window.loads.stove.on);
    // the car reports kilowatts
    change(&mut u, "sensor.chevrolet_volt_charge_power", entity("3.3", &[]));
    change(&mut u, "sensor.chevrolet_volt_ev_battery_level", entity("101.26", &[]));
    assert_eq!(u.window.loads.car, load(true, true, "3 300 W", "100.0 %"));
    change(&mut u, "sensor.chevrolet_volt_charge_power", entity("0.1", &[]));
    change(&mut u, "sensor.chevrolet_volt_ev_battery_level", entity("unknown", &[]));
    assert_eq!(u.window.loads.car, load(false, true, "100 W", ""));
    assert!(u.is_load("sensor.poele_w") && !u.is_load(HOUSE) && !u.is_load(" "));
}

#[test]
fn the_indoor_line() {
    let mut u = ui(false, false);
    change(&mut u, "sensor.thermometre_chambre_gabie_temperature", entity("21.94", &[]));
    assert_eq!(u.window.indoor, "21.9 °C   —");
    change(&mut u, "sensor.thermometre_chambre_gabie_humidity", entity("55.6", &[]));
    assert_eq!(u.window.indoor, "21.9 °C   56 %");
}

#[test]
fn the_printer_pane() {
    let mut u = ui(false, false);
    change(&mut u, "switch.bureau_lulu_klipper_lulu_ender3", entity("on", &[]));
    change(&mut u, "sensor.bureau_lulu_klipper_lulu_current_print_state", entity("printing", &[]));
    change(&mut u, "sensor.bureau_lulu_klipper_lulu_progress", entity("41.6", &[]));
    change(&mut u, "sensor.bureau_lulu_klipper_lulu_print_time_left", entity("1.97", &[]));
    let p = &u.window.printer;
    assert_eq!((p.status.as_str(), p.mode.as_str(), p.active), ("IMPRESSION", "printing", true));
    assert_eq!((p.progress.as_str(), p.time_left.as_str()), ("42 %", "118 min"));
    assert_eq!(printer_status(&u.cfg, &u.entities), PrinterStatus::Printing);
    change(&mut u, "switch.bureau_lulu_klipper_lulu_ender3", entity("off", &[]));
    assert_eq!((u.window.printer.mode.as_str(), u.window.printer.active), ("off", false));
    let nothing: TextMap<Measured> = TextMap::new();
    assert_eq!(printer_status(&u.cfg, &nothing), PrinterStatus::Unknown);
}

#[test]
fn the_lights_and_their_presets() {
    let mut u = ui(false, false);
    change(&mut u, CEILING, entity("on", &[("brightness", "128")]));
    assert_eq!(u.window.lights.summary, "PLAFONNIER 50 % · ÉCRAN OFF");
    assert_eq!(u.window.preset_active, -1);
    change(&mut u, MONITOR, entity("on", &[("brightness", "127")]));
    assert_eq!(u.window.preset_active, 1);
    assert_eq!(u.window.lights.ceiling, ToggleState { on: true, pending: false, available: true });
    change(&mut u, MONITOR, entity("unavailable", &[]));
    assert_eq!(u.window.preset_active, -1);
    assert_eq!(u.window.lights.monitor, ToggleState { on: false, pending: false, available: false });
    // as floating point has it, at the edges of each preset
    let near = |v: f64, target: f64| (v - target).abs() <= 3.0;
    let edges = [0.0, 1.0, 3.0, 3.0000001, 80.9, 81.0, 84.0, 87.0, 87.0000001, 123.99, 124.0, 130.0, 130.001, 251.99, 252.0, 255.0, -5.0, f64::NAN];
    for c in edges {
        for m in edges {
            let expected = if c >= 252.0 && m >= 252.0 {
                2
            } else if near(c, 127.0) && near(m, 127.0) {
                1
            } else if c <= 3.0 && near(m, 84.0) {
                0
            } else {
                -1
            };
            assert_eq!(preset_for(Some((true, reading(c))), Some((true, reading(m)))), expected, "{c} {m}");
        }
    }
    assert_eq!(preset_for(Some((false, reading(9.0))), Some((false, reading(0.0)))), 3);
    assert_eq!(preset_for(Some((false, reading(0.0))), Some((true, reading(84.0)))), -1);
    assert_eq!(preset_for(None, Some((false, reading(0.0)))), -1);
}

#[test]
fn presets_call_the_lights() {
    let mut u = ui(false, false);
    let out = u.preset(0);
    assert_eq!(
        calls(&out),
        vec![
            call("light", "turn_on", r#"{"brightness":1,"transition":1}"#, &[CEILING]),
            call("light", "turn_on", r#"{"brightness_pct":33,"transition":1}"#, &[MONITOR]),
        ]
    );
    assert_eq!(out[0], Effect::CallTimer { request: 2, span: 8 * SECOND });
    assert_eq!(out[2], Effect::CallTimer { request: 3, span: 8 * SECOND });
    assert_eq!(u.window.preset_pending, 0);
    assert!(u.window.lights.ceiling.pending && u.window.lights.monitor.pending);
    // each light's own state ends its wait
    change(&mut u, CEILING, entity("on", &[("brightness", "1")]));
    assert!(!u.window.lights.ceiling.pending && u.window.lights.monitor.pending);
    change(&mut u, MONITOR, entity("on", &[("brightness", "84")]));
    assert_eq!((u.window.preset_pending, u.window.preset_active), (-1, 0));
    assert_eq!(
        calls(&u.preset(1)),
        vec![call("light", "turn_on", r#"{"brightness":127,"transition":1}"#, &[CEILING, MONITOR])]
    );
    assert_eq!(
        calls(&u.preset(2)),
        vec![call("light", "turn_on", r#"{"brightness":255,"transition":1}"#, &[CEILING, MONITOR])]
    );
    assert_eq!(
        calls(&u.preset(3)),
        vec![call("light", "turn_off", r#"{"transition":1}"#, &[CEILING, MONITOR])]
    );
    assert_eq!(u.window.preset_pending, 1);
    assert!(u.preset(4).is_empty() && u.preset(-1).is_empty());
    assert_eq!(u.next_request, 6);
}

#[test]
fn toggles_call_what_they_stand_for() {
    let mut u = ui(false, false);
    let option = |o: &str| format!("{{\"option\":\"{o}\"}}");
    assert_eq!(calls(&u.toggle("ceiling")), vec![call("light", "toggle", "null", &[CEILING])]);
    assert_eq!(calls(&u.toggle("monitor")), vec![call("light", "toggle", "null", &[MONITOR])]);
    assert_eq!(calls(&u.toggle("grafana")), vec![call("switch", "turn_on", "null", &[GRAFANA])]);
    change(&mut u, GRAFANA, entity("on", &[]));
    assert_eq!(calls(&u.toggle("grafana")), vec![call("switch", "turn_off", "null", &[GRAFANA])]);
    assert_eq!(calls(&u.toggle("display")), vec![call("select", "select_option", &option("on"), &[DISPLAY])]);
    assert!(u.window.kiosk_display.pending);
    change(&mut u, DISPLAY, entity("on", &[]));
    assert_eq!(u.window.kiosk_display_mode, "ON");
    assert_eq!(calls(&u.toggle("display")), vec![call("select", "select_option", &option("suspend"), &[DISPLAY])]);
    let requests: Vec<u64> = u.inflight.iter().map(|i| i.request).collect();
    assert_eq!(requests, vec![2, 3, 5, 7]);
    assert!(u.toggle("radio").is_empty());
    assert!(u.toggle("").is_empty());
}

#[test]
fn the_cameras_exclude_each_other() {
    let mut u = ui(false, false);
    let option = |o: &str| format!("{{\"option\":\"{o}\"}}");
    assert_eq!(calls(&u.toggle("cam_street")), vec![call("select", "select_option", &option("Rue"), &[CAMERA])]);
    assert_eq!(u.window.cam_street, ToggleState { on: false, pending: true, available: false });
    assert!(!u.window.cam_gallery.pending);
    change(&mut u, CAMERA, entity("RUE", &[]));
    assert_eq!(u.window.cam_street, ToggleState { on: true, pending: false, available: true });
    assert_eq!(u.window.cam_gallery, ToggleState { on: false, pending: false, available: true });
    // pressing the active one shows none
    assert_eq!(calls(&u.toggle("cam_street")), vec![call("select", "select_option", &option("off"), &[CAMERA])]);
    assert_eq!(calls(&u.toggle("cam_gallery")), vec![call("select", "select_option", &option("Galerie"), &[CAMERA])]);
    // options that differ only by case light both buttons
    u.cfg.entities.kiosk_camera_gallery_option = "rue".into();
    u.cfg.validate().unwrap();
    change(&mut u, CAMERA, entity("rue", &[]));
    assert!(u.window.cam_street.on && u.window.cam_gallery.on);
}

#[test]
fn the_fan_slider() {
    let mut u = ui(false, false);
    let pct = |p: i32| format!("{{\"percentage\":{p}}}");
    assert_eq!(calls(&u.set_fan(45)), vec![call("fan", "set_percentage", &pct(45), &[FAN])]);
    assert!(u.window.fan.pending);
    assert_eq!(calls(&u.set_fan(-3)), vec![call("fan", "set_percentage", &pct(0), &[FAN])]);
    assert_eq!(calls(&u.set_fan(300)), vec![call("fan", "set_percentage", &pct(100), &[FAN])]);
    change(&mut u, FAN, entity("on", &[("percentage", "44.5")]));
    assert_eq!(u.window.fan, Fan { available: true, on: true, pending: false, percentage: 45 });
    change(&mut u, FAN, entity("off", &[("percentage", "250")]));
    assert_eq!(u.window.fan, Fan { available: true, on: false, pending: false, percentage: 100 });
    u.cfg.entities.office_fan = "".into();
    assert!(u.set_fan(10).is_empty());
}

#[test]
fn answers_to_calls() {
    let mut u = ui(false, false);
    u.toggle("grafana");
    u.toggle("ceiling");
    // success is only remembered
    assert!(u.on_call_result(2, true, None).is_empty());
    assert!(u.inflight[0].confirmed && !u.inflight[1].confirmed);
    assert!(u.window.grafana.pending);
    // a confirmed call ends quietly
    assert!(u.call_timeout(2).is_empty());
    assert!(!u.window.grafana.pending);
    assert!(u.call_timeout(2).is_empty());
    assert_eq!(u.call_timeout(3), vec![Effect::ToastTimer(5 * SECOND)]);
    assert_eq!(u.window.toast_text, "Pas de réponse de Home Assistant");
    assert!(u.window.toast_visible);
    u.toast_elapsed();
    assert!(!u.window.toast_visible);
    u.toggle("grafana");
    assert_eq!(u.on_call_result(4, false, Some("nope".into())), vec![Effect::ToastTimer(5 * SECOND)]);
    assert_eq!(u.window.toast_text, "Échec : nope");
    assert!(!u.window.grafana.pending);
    assert!(u.on_call_result(4, false, None).is_empty());
    u.toggle("grafana");
    u.on_call_result(5, false, None);
    assert_eq!(u.window.toast_text, "Échec : erreur inconnue");
    u.toggle("grafana");
    assert_eq!(u.call_not_sent(6), vec![Effect::ToastTimer(5 * SECOND)]);
    assert_eq!(u.window.toast_text, "Home Assistant indisponible");
    assert!(u.inflight.is_empty());
}

#[test]
fn off_goes_in_steps() {
    let mut u = ui(true, false);
    u.start();
    let off = LightCommand::Apply { on: false, brightness: None, transition: None };
    let dark = LightState { on: false, brightness: 255 };
    assert_eq!(
        u.on_light_command(&off),
        vec![
            Effect::SaveLight(dark),
            Effect::PublishLight(dark),
            Effect::StopPanelTimer,
            Effect::FreezeTimer(400_000_000),
        ]
    );
    assert_eq!((u.window.overlay, u.window.wake_guard), (Overlay::Full, true));
    assert_eq!(u.freeze(), vec![Effect::CutTimer(SECOND)]);
    assert_eq!(u.cut_signal(), vec![Effect::Panel(false)]);
    // frozen: nothing moves, but it is remembered that something would have
    let before: Window = u.window.clone();
    assert!(!u.dirty);
    change(&mut u, HOUSE, entity("5", &[]));
    u.set_time_synced();
    u.on_connected();
    u.on_power_event(&PowerEvent::Down);
    u.toggle("grafana");
    u.call_timeout(2);
    u.toast_elapsed();
    assert_eq!(u.window, before);
    assert!(u.dirty && u.frozen);
    // a touch brings everything back
    assert_eq!(
        u.wake(),
        vec![Effect::WakeTimer(30 * SECOND), Effect::StopPanelTimer, Effect::Panel(true), Effect::Tick]
    );
    assert!(!u.dirty && !u.frozen);
    assert_eq!(u.window.house_power, "5 W");
    assert!(!u.window.connecting);
    assert_eq!((u.window.overlay, u.window.wake_guard), (Overlay::Level(160), false));
    assert_eq!(u.activity(), vec![Effect::WakeTimer(30 * SECOND)]);
    assert_eq!(u.end_wake(), vec![Effect::StopPanelTimer, Effect::FreezeTimer(400_000_000)]);
    assert!(u.activity().is_empty());
    assert_eq!(u.shutdown(), vec![Effect::Panel(true)]);
}

#[test]
fn brightness_of_the_screen() {
    let mut u = ui(false, true);
    let to = |on: bool, b: Option<u8>| LightCommand::Apply { on, brightness: b, transition: None };
    let out = u.on_light_command(&to(true, Some(0)));
    let lowest = LightState { on: true, brightness: 1 };
    assert_eq!(
        out,
        vec![Effect::SaveLight(lowest), Effect::PublishLight(lowest), Effect::StopPanelTimer, Effect::Backlight(1)]
    );
    assert_eq!((u.window.overlay, u.window.wake_guard), (Overlay::Clear, true));
    assert_eq!(u.effective_brightness(), (1, true));
    u.on_light_command(&to(true, Some(100)));
    assert_eq!(u.effective_brightness(), (100, false));
    u.on_light_command(&to(false, None));
    assert_eq!(u.effective_brightness(), (0, true));
    assert_eq!(u.light, LightState { on: false, brightness: 100 });
    u.wake();
    assert_eq!(u.effective_brightness(), (160, false));
    u.on_light_command(&LightCommand::Restore(LightState { on: true, brightness: 200 }));
    assert_eq!(u.effective_brightness(), (200, false));
    u.end_wake();
    u.on_light_command(&to(true, Some(20)));
    u.wake();
    assert_eq!(u.effective_brightness(), (160, false));
    // without a switch for the signal, off is a black screen only
    u.end_wake();
    let out = u.on_light_command(&to(false, None));
    assert_eq!(out[2..], [Effect::StopPanelTimer, Effect::Backlight(0)]);
    assert!(u.cut_signal().is_empty());
}

#[test]
fn sample_windows() {
    let cfg = Config::default();
    assert_eq!(SAMPLE_TIME, 1_788_635_049);
    let normal = populate(&cfg, "normal");
    assert_eq!(normal.dim_percent, 0);
    assert_eq!(
        normal.window.zones,
        vec![
            ("UTC".to_string(), "19:04".to_string()),
            ("LONDON".to_string(), "20:04".to_string()),
            ("PARIS/SKOPJE".to_string(), "21:04".to_string()),
        ]
    );
    assert_eq!(normal.window.weather.condition, "Partiellement nuageux");
    assert_eq!(normal.window.printer.status, "OFF");
    let dim = populate(&cfg, "dim");
    assert_eq!((dim.dim_percent, &dim.window), (60, &normal.window));
    assert_eq!(populate(&cfg, "what").window, normal.window);
    let busy = populate(&cfg, "busy").window;
    assert_eq!((busy.loads.car.power.as_str(), busy.loads.car.badge.as_str()), ("3 300 W", "62.4 %"));
    assert_eq!(busy.loads.washer, normal.window.loads.washer);
    assert_eq!((busy.fan.percentage, busy.preset_pending), (100, 2));
    assert!(populate(&cfg, "connecting").window.connecting);
    assert!(populate(&cfg, "paused").window.printer.active);
    assert!(!populate(&cfg, "idle").window.printer.active);
    assert_eq!(populate(&cfg, "error").window.printer.mode, "error");
    assert!(populate(&cfg, "toast").window.toast_visible);
    assert!(populate(&cfg, "touchtest").window.touch_test);
    let mut bad = Config::default();
    bad.clock.zones[0].tz = "Nowhere".into();
    assert!(populate(&bad, "normal").window.zones.is_empty());
    let one = vec![("OSLO".to_string(), "09:30".to_string())];
    let dim = sample_preview(&cfg, one.clone(), "dim");
    assert_eq!((dim.dim_percent, &dim.window.zones), (60, &one));
    assert_eq!(dim.window.weather, normal.window.weather);
}
