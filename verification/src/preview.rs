//! Sample windows, so that the layout can be checked on any machine.
use vstd::prelude::*;
use vstd::string::*;
use crate::clock::{civil_views, short_text, short_time, zone_clocks, zone_times, zone_views, Civil};
use crate::config::{
    status_key, status_label, weather_text, zones_are, zones_error, Config, PrinterStatus,
};
use crate::screen::{
    Fan, Lights, LightsV, LoadState, LoadV, Loads, LoadsV, Printer, PrinterV, ToggleState, Weather,
    WeatherV,
};
use crate::text::{same, upper_text, uppercase};
use crate::ui::{empty_window, window_view, Window, WindowV};

verus! {

/// 5 September 2026, 19:04:09 UTC: the moment of the sample window.
pub const SAMPLE_TIME: i64 = 1788635049;

/// A sample window, and how much of it is dimmed away.
#[derive(Clone, Debug, PartialEq)]
pub struct Preview {
    pub window: Window,
    pub dim_percent: u8,
}

/// The rows of the extra zones at the sample moment.
pub open spec fn sample_rows(zones: Seq<(Seq<char>, Civil)>) -> Seq<(Seq<char>, Seq<char>)> {
    zones.map_values(|z: (Seq<char>, Civil)| (upper_text(z.0), short_time(z.1)))
}

/// A button that is there.
pub open spec fn button(on: bool) -> ToggleState {
    ToggleState { on, pending: false, available: true }
}

/// A load that is there.
pub open spec fn sample_load(on: bool, power: Seq<char>, badge: Seq<char>) -> LoadV {
    LoadV { on, available: true, configured: true, power, badge }
}

/// The window on an ordinary day.
pub open spec fn sample_window(cfg: Config, rows: Seq<(Seq<char>, Seq<char>)>) -> WindowV {
    WindowV {
        time_hm: "15:04:"@,
        time_s: "09"@,
        date: "05/09/2026"@,
        weekday: "SAMEDI"@,
        zones: rows,
        weather: WeatherV {
            line: "12.3 °C   55 %   8 km/h"@,
            condition: weather_text(cfg.weather_labels@, cfg.french(), "partlycloudy"@),
            icon: "partlycloudy"@,
            place: "SEPT-ÎLES"@,
        },
        house_power: "1 234 W"@,
        servers_power: "954 W"@,
        loads: LoadsV {
            stove: sample_load(false, "0 W"@, ""@),
            car: sample_load(false, "0 W"@, "81.1 %"@),
            water_heater: sample_load(false, "0 W"@, ""@),
            washer: sample_load(false, "1 W"@, ""@),
            dryer: sample_load(false, "0 W"@, ""@),
        },
        indoor: "21.9 °C   56 %"@,
        fan: Fan { available: true, on: true, pending: false, percentage: 45 },
        preset_active: 2,
        printer: PrinterV {
            status: status_label(PrinterStatus::Off, cfg.french()),
            mode: "off"@,
            ..empty_window().printer
        },
        lights: LightsV {
            ceiling: button(true),
            monitor: button(false),
            summary: "PLAFONNIER 100 % · ÉCRAN OFF"@,
        },
        grafana: button(true),
        cam_street: button(false),
        cam_gallery: button(false),
        kiosk_display: button(true),
        kiosk_display_mode: "ON"@,
        ha_online: true,
        ..empty_window()
    }
}

/// The printer pane of a sample.
pub open spec fn sample_printer(cfg: Config, s: PrinterStatus, active: bool) -> PrinterV {
    PrinterV {
        status: status_label(s, cfg.french()),
        mode: status_key(s),
        active,
        progress: "42 %"@,
        time_left: "118 min"@,
    }
}

/// The sample window in a state that is asked for by name. An unknown name is the ordinary day.
pub open spec fn posed(cfg: Config, w: WindowV, state: Seq<char>) -> WindowV {
    if state == "connecting"@ {
        WindowV {
            connecting: true,
            connecting_detail: "HOME ASSISTANT · HORLOGE NTP"@,
            ha_online: false,
            ..w
        }
    } else if state == "busy"@ {
        WindowV {
            loads: LoadsV {
                stove: sample_load(true, "37 W"@, ""@),
                car: sample_load(true, "3 300 W"@, "62.4 %"@),
                water_heater: sample_load(true, "2 953 W"@, ""@),
                dryer: sample_load(true, "2 480 W"@, ""@),
                ..w.loads
            },
            fan: Fan { percentage: 100, ..w.fan },
            servers_power: "1 234 W"@,
            printer: PrinterV {
                status: status_label(PrinterStatus::Printing, cfg.french()),
                mode: "printing"@,
                active: true,
                progress: "100 %"@,
                time_left: "1234 min"@,
            },
            lights: LightsV {
                monitor: ToggleState { on: false, pending: true, available: true },
                ..w.lights
            },
            preset_pending: 2,
            kiosk_display: ToggleState { on: true, pending: true, available: true },
            cam_gallery: ToggleState { on: false, pending: false, available: false },
            ..w
        }
    } else if state == "paused"@ {
        WindowV { printer: sample_printer(cfg, PrinterStatus::Paused, true), ..w }
    } else if state == "error"@ {
        WindowV { printer: sample_printer(cfg, PrinterStatus::Error, false), ..w }
    } else if state == "idle"@ {
        WindowV { printer: sample_printer(cfg, PrinterStatus::Idle, false), ..w }
    } else if state == "toast"@ {
        WindowV {
            toast_text: "Échec : light.turn_on, appareil injoignable"@,
            toast_visible: true,
            ..w
        }
    } else if state == "touchtest"@ {
        WindowV { touch_test: true, ..w }
    } else {
        w
    }
}

fn toggled(lit: bool) -> (r: ToggleState)
    ensures
        r == button(lit),
{
    ToggleState { on: lit, pending: false, available: true }
}

fn load(on: bool, power: &str, badge: &str) -> (r: LoadState)
    ensures
        r@ == sample_load(on, power@, badge@),
{
    LoadState {
        on,
        available: true,
        configured: true,
        power: power.to_string(),
        badge: badge.to_string(),
    }
}

fn printer(cfg: &Config, s: PrinterStatus, active: bool) -> (r: Printer)
    ensures
        r@ == sample_printer(*cfg, s, active),
{
    Printer {
        status: cfg.printer_label(s).to_string(),
        mode: s.key().to_string(),
        active,
        progress: "42 %".to_string(),
        time_left: "118 min".to_string(),
    }
}

fn rows(zones: &Vec<(String, Civil)>) -> (r: Vec<(String, String)>)
    requires
        forall|k: int| 0 <= k < zones@.len() ==> (#[trigger] zones@[k]).1.sound(),
    ensures
        zone_views(r@) == sample_rows(civil_views(zones@)),
{
    let mut out: Vec<(String, String)> = Vec::new();
    let mut i: usize = 0;
    while i < zones.len()
        invariant
            i <= zones@.len(),
            out@.len() == i,
            forall|k: int| 0 <= k < zones@.len() ==> (#[trigger] zones@[k]).1.sound(),
            forall|k: int|
                0 <= k < i ==> (#[trigger] zone_views(out@)[k]) == sample_rows(
                    civil_views(zones@),
                )[k],
        decreases zones@.len() - i,
    {
        let ghost was = out@;
        out.push((uppercase(zones[i].0.as_str()), short_text(zones[i].1)));
        proof {
            assert forall|k: int| 0 <= k < i + 1 implies (#[trigger] zone_views(out@)[k])
                == sample_rows(civil_views(zones@))[k] by {
                if k < i {
                    assert(zone_views(out@)[k] == zone_views(was)[k]);
                }
            }
        }
        i = i + 1;
    }
    assert(zone_views(out@) =~= sample_rows(civil_views(zones@)));
    out
}

/// The window on an ordinary day, with the zones as they are given.
fn sample(cfg: &Config, zones: Vec<(String, String)>) -> (w: Window)
    ensures
        w@ == sample_window(*cfg, zone_views(zones@)),
{
    proof {
        reveal(window_view);
    }
    let mut w = Window::new();
    w.time_hm = "15:04:".to_string();
    w.time_s = "09".to_string();
    w.date = "05/09/2026".to_string();
    w.weekday = "SAMEDI".to_string();
    w.zones = zones;
    w.weather = Weather {
        line: "12.3 °C   55 %   8 km/h".to_string(),
        condition: cfg.weather_label("partlycloudy"),
        icon: "partlycloudy".to_string(),
        place: "SEPT-ÎLES".to_string(),
    };
    w.house_power = "1 234 W".to_string();
    w.servers_power = "954 W".to_string();
    w.loads = Loads {
        stove: load(false, "0 W", ""),
        car: load(false, "0 W", "81.1 %"),
        water_heater: load(false, "0 W", ""),
        washer: load(false, "1 W", ""),
        dryer: load(false, "0 W", ""),
    };
    w.indoor = "21.9 °C   56 %".to_string();
    w.fan = Fan { available: true, on: true, pending: false, percentage: 45 };
    w.preset_active = 2;
    w.printer = Printer {
        status: cfg.printer_label(PrinterStatus::Off).to_string(),
        mode: "off".to_string(),
        active: false,
        progress: String::new(),
        time_left: String::new(),
    };
    w.lights = Lights {
        ceiling: toggled(true),
        monitor: toggled(false),
        summary: "PLAFONNIER 100 % · ÉCRAN OFF".to_string(),
    };
    w.grafana = toggled(true);
    w.cam_street = toggled(false);
    w.cam_gallery = toggled(false);
    w.kiosk_display = toggled(true);
    w.kiosk_display_mode = "ON".to_string();
    w.ha_online = true;
    w
}

fn pose(cfg: &Config, w: &mut Window, state: &str)
    ensures
        final(w)@ == posed(*cfg, old(w)@, state@),
{
    proof {
        reveal(window_view);
    }
    if same(state, "connecting") {
        w.connecting = true;
        w.connecting_detail = "HOME ASSISTANT · HORLOGE NTP".to_string();
        w.ha_online = false;
    } else if same(state, "busy") {
        w.loads.stove = load(true, "37 W", "");
        w.loads.car = load(true, "3 300 W", "62.4 %");
        w.loads.water_heater = load(true, "2 953 W", "");
        w.loads.dryer = load(true, "2 480 W", "");
        w.fan.percentage = 100;
        w.servers_power = "1 234 W".to_string();
        w.printer = Printer {
            status: cfg.printer_label(PrinterStatus::Printing).to_string(),
            mode: "printing".to_string(),
            active: true,
            progress: "100 %".to_string(),
            time_left: "1234 min".to_string(),
        };
        w.lights.monitor = ToggleState { on: false, pending: true, available: true };
        w.preset_pending = 2;
        w.kiosk_display = ToggleState { on: true, pending: true, available: true };
        w.cam_gallery = ToggleState { on: false, pending: false, available: false };
    } else if same(state, "paused") {
        w.printer = printer(cfg, PrinterStatus::Paused, true);
    } else if same(state, "error") {
        w.printer = printer(cfg, PrinterStatus::Error, false);
    } else if same(state, "idle") {
        w.printer = printer(cfg, PrinterStatus::Idle, false);
    } else if same(state, "toast") {
        w.toast_text = "Échec : light.turn_on, appareil injoignable".to_string();
        w.toast_visible = true;
    } else if same(state, "touchtest") {
        w.touch_test = true;
    }
}

/// The rows of the configured zones at the sample moment: none where the zones are unsound.
pub open spec fn preview_rows(cfg: Config, r: Seq<(Seq<char>, Seq<char>)>) -> bool {
    if zones_error(cfg.clock.zones@) is Some {
        r == Seq::<(Seq<char>, Seq<char>)>::empty()
    } else {
        exists|v: Seq<(String, chrono_tz::Tz)>|
            #![trigger zones_are(v, cfg.clock.zones@)]
            zones_are(v, cfg.clock.zones@) && r == match zone_times(SAMPLE_TIME, v) {
                Some(z) => sample_rows(z),
                None => Seq::empty(),
            }
    }
}

/// The sample window for a configuration, in a state: `normal`, `connecting`, `dim`, `busy`,
/// `paused`, `error`, `idle`, `toast` or `touchtest`.
pub fn populate(cfg: &Config, state: &str) -> (r: Preview)
    ensures
        preview_rows(*cfg, r.window@.zones),
        r.window@ == posed(*cfg, sample_window(*cfg, r.window@.zones), state@),
        r.dim_percent == if state@ == "dim"@ {
            60u8
        } else {
            0u8
        },
{
    let zones = match cfg.zone_tzs() {
        Ok(v) => match zone_clocks(SAMPLE_TIME, &v) {
            Some(z) => {
                assert(zones_are(v@, cfg.clock.zones@));
                rows(&z)
            },
            None => {
                assert(zones_are(v@, cfg.clock.zones@));
                Vec::new()
            },
        },
        Err(_) => Vec::new(),
    };
    assert(preview_rows(*cfg, zone_views(zones@))) by {
        if zones@.len() == 0 {
            assert(zone_views(zones@) =~= Seq::empty());
        }
    }
    sample_preview(cfg, zones, state)
}

/// The sample window with the zones as they are given, in a state.
pub fn sample_preview(cfg: &Config, zones: Vec<(String, String)>, state: &str) -> (r: Preview)
    ensures
        r.window@ == posed(*cfg, sample_window(*cfg, zone_views(zones@)), state@),
        r.window@.zones == zone_views(zones@),
        r.dim_percent == if state@ == "dim"@ {
            60u8
        } else {
            0u8
        },
{
    let mut window = sample(cfg, zones);
    pose(cfg, &mut window, state);
    Preview { window, dim_percent: if same(state, "dim") { 60 } else { 0 } }
}

} // verus!
