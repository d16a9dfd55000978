//! The configuration with its defaults, and what makes one sound. Secrets never live here.
use vstd::prelude::*;
use vstd::string::*;
use std::str::FromStr;
use crate::ha_ws::{named, subscription_ids};
use crate::map::{at, TextMap};
use crate::number::{within_unit, Fraction, Reading};
use crate::text::{
    blank, debug_text, decimal, is_blank, opt_string, push_decimal, quoted, replace, replaced, same,
    texts, trim, trimmed,
};

verus! {

/// What the 3D printer is doing.
#[derive(Clone, Copy, Debug, PartialEq, Eq, Structural)]
pub enum PrinterStatus {
    /// Power switch off, or Klipper shut down with the printer not known to be powered.
    Off,
    /// Every printer entity is unavailable (Moonraker or the integration down) but the power is
    /// not off.
    Unknown,
    Idle,
    Printing,
    Paused,
    Error,
}

/// The name of a status by which the screen picks its colours.
pub open spec fn status_key(s: PrinterStatus) -> Seq<char> {
    match s {
        PrinterStatus::Off => "off"@,
        PrinterStatus::Unknown => "off"@,
        PrinterStatus::Idle => "idle"@,
        PrinterStatus::Printing => "printing"@,
        PrinterStatus::Paused => "paused"@,
        PrinterStatus::Error => "error"@,
    }
}

impl PrinterStatus {
    /// Key used by the screen for colours: "off" | "idle" | "printing" | "paused" | "error".
    pub fn key(self) -> (r: &'static str)
        ensures
            r@ == status_key(self),
    {
        match self {
            PrinterStatus::Off => "off",
            PrinterStatus::Unknown => "off",
            PrinterStatus::Idle => "idle",
            PrinterStatus::Printing => "printing",
            PrinterStatus::Paused => "paused",
            PrinterStatus::Error => "error",
        }
    }
}

/// Where and in which language the clock is.
#[derive(Debug, Clone, PartialEq)]
pub struct General {
    /// IANA zone for the big clock and the date.
    pub timezone: String,
    /// `"fr"` or `"en"`: weekday names and weather condition labels.
    pub language: String,
    /// Caption of the indoor temperature/humidity box under the weather (uppercased on screen).
    pub indoor_label: String,
}

/// One extra time zone.
#[derive(Debug, Clone, PartialEq)]
pub struct Zone {
    pub label: String,
    pub tz: String,
}

/// The extra time zones.
#[derive(Debug, Clone, PartialEq)]
pub struct Clock {
    pub zones: Vec<Zone>,
}

/// How to reach Home Assistant.
#[derive(Debug, Clone, PartialEq)]
pub struct HomeAssistant {
    /// `wss://host/api/websocket` (or `ws://host:8123/api/websocket`).
    pub url: String,
    /// Seconds without a connection before the full-screen "Connecting..." state comes back.
    pub connecting_after_s: u64,
    /// Seconds to wait for the result of a `call_service` before showing an error toast.
    pub call_timeout_s: u64,
    pub ping_interval_s: u64,
    pub backoff_min_s: u64,
    pub backoff_max_s: u64,
}

/// How to reach the MQTT broker, and what the light is called there.
#[derive(Debug, Clone, PartialEq)]
pub struct Mqtt {
    pub host: String,
    pub port: u16,
    pub client_id: String,
    pub keepalive_s: u64,
    pub discovery_prefix: String,
    /// Topic prefix for state/set/availability.
    pub base_topic: String,
    pub unique_id: String,
    pub device_name: String,
    pub suggested_area: String,
}

/// The panel.
#[derive(Debug, Clone, PartialEq)]
pub struct Display {
    /// Used only when `SLINT_KMS_ROTATION` is not set in the environment (0, 90, 180, 270).
    pub rotation: u32,
    /// Brightness used when nothing was ever saved/retained (1..=255).
    pub default_brightness: u8,
    /// How long a touch keeps the screen readable while the light is off/dimmed.
    pub wake_seconds: u64,
    /// Brightness during that wake window (1..=255).
    pub wake_brightness: u8,
    /// Below this brightness a touch wakes the screen instead of operating a control.
    pub readable_threshold: u8,
    /// Turn the HDMI output off (DRM DPMS) when the light is off.
    pub dpms_off: bool,
    /// Delay between showing the black frame and cutting the signal.
    pub dpms_delay_ms: u64,
    /// Never dim more than this with the software overlay, so brightness 1 stays readable up close.
    pub max_dim_opacity: Fraction,
    /// Where the last light state is remembered between restarts.
    pub state_file: String,
    /// Seconds an error toast stays visible.
    pub toast_seconds: u64,
}

/// The Home Assistant entities behind the screen.
#[derive(Debug, Clone, PartialEq)]
pub struct Entities {
    pub weather: String,
    pub house_power: String,
    pub stove_power: String,
    pub printer_progress: String,
    pub printer_time_left: String,
    /// Optional: the printer's power switch (off -> status OFF). Empty = not used.
    pub printer_power: String,
    /// Optional: Moonraker `current_print_state` (standby/printing/paused/complete/cancelled/error).
    pub printer_print_state: String,
    /// Optional: Moonraker `printer_state` (ready/startup/shutdown/error).
    pub printer_klipper_state: String,
    pub light_ceiling: String,
    pub light_monitor: String,
    pub kiosk_grafana: String,
    /// One `select.*` entity choosing which camera the kiosk shows. The two camera buttons drive
    /// it, so they are mutually exclusive by construction (it replaced a switch each).
    pub kiosk_camera: String,
    /// Options of `kiosk_camera` for each button, and the one meaning "no camera".
    pub kiosk_camera_street_option: String,
    pub kiosk_camera_gallery_option: String,
    pub kiosk_camera_off_option: String,
    pub kiosk_display_power: String,
    /// Option sent to `kiosk_display_power` when the MONITEUR toggle is switched off.
    pub kiosk_display_off_option: String,
    /// Power strip under the house total (each optional, "" hides the icon). Power sensors in W,
    /// except the car charger which Home Assistant reports in kW.
    pub car_charge_power: String,
    /// Car battery level, shown next to the AUTO column's name. Optional.
    pub car_battery: String,
    pub water_heater_power: String,
    pub washer_power: String,
    pub dryer_power: String,
    /// Always-shown wattage labelled SERVEURS (the technical room). Optional.
    pub servers_power: String,
    /// `fan.*` entity driven by the VENTILATEUR slider with `fan.set_percentage`. Optional.
    pub office_fan: String,
    /// Indoor temperature / humidity shown under the weather. Optional.
    pub office_temperature: String,
    pub office_humidity: String,
}

/// Direct polling of an IoTaWatt energy monitor on the LAN, for the two values that are worth
/// having live.
#[derive(Debug, Clone, PartialEq)]
pub struct IotaWatt {
    /// `http://host[:port]/`. Empty disables polling and both values come from Home Assistant.
    pub url: String,
    /// Name of the device *output* holding the house total (`HydroQuebec` = `@13+@14`).
    pub house_output: String,
    /// Name of the device *input* holding the servers' draw. Resolved to a channel at runtime.
    pub servers_input: String,
    /// How often to poll. 1 s is what the device's own web page uses.
    pub poll_interval_ms: u64,
    /// Whole-request timeout (connect, send, read).
    pub timeout_ms: u64,
    /// Consecutive failed polls before falling back to the Home Assistant sensors.
    pub failures_before_fallback: u32,
}

/// What counts as running.
#[derive(Debug, Clone, PartialEq)]
pub struct Thresholds {
    /// Flame icon when the stove draws more than this many watts.
    pub stove_flame_w: Reading,
    /// Car icon lit above this charge power (the sensor is in kW).
    pub car_charging_kw: Reading,
    /// Water-heater icon lit above this many watts (the element draws ~3 kW when heating).
    pub water_heater_w: Reading,
    /// Washer icon lit above this many watts (standby is under 1 W).
    pub washer_w: Reading,
    /// Dryer icon lit above this many watts (standby is under 1 W).
    pub dryer_w: Reading,
}

/// The whole configuration.
#[derive(Debug, Clone, PartialEq)]
pub struct Config {
    pub general: General,
    pub clock: Clock,
    pub homeassistant: HomeAssistant,
    pub mqtt: Mqtt,
    pub display: Display,
    pub entities: Entities,
    pub thresholds: Thresholds,
    /// Optional overrides for the weather condition text, keyed by the HA condition
    /// (`sunny`, `partlycloudy`, ...).
    pub weather_labels: TextMap<String>,
    /// Direct polling of the IoTaWatt (house total + servers). Empty url = use the HA sensors.
    pub iotawatt: IotaWatt,
}

/// The built-in `[general]`.
pub open spec fn default_general(r: General) -> bool {
    &&& r.timezone@ == "America/Toronto"@
    &&& r.language@ == "fr"@
    &&& r.indoor_label@ == "Bureau Lulu"@
}

impl Default for General {
    /// The built-in values.
    fn default() -> (r: General)
        ensures
            default_general(r),
    {
        General {
            timezone: "America/Toronto".to_string(),
            language: "fr".to_string(),
            indoor_label: "Bureau Lulu".to_string(),
        }
    }
}

/// The built-in `[homeassistant]`.
pub open spec fn default_homeassistant(r: HomeAssistant) -> bool {
    &&& r.url@ == "wss://homeassistant.local/api/websocket"@
    &&& r.connecting_after_s == 10
    &&& r.call_timeout_s == 8
    &&& r.ping_interval_s == 30
    &&& r.backoff_min_s == 1
    &&& r.backoff_max_s == 30
}

impl Default for HomeAssistant {
    /// The built-in values.
    fn default() -> (r: HomeAssistant)
        ensures
            default_homeassistant(r),
    {
        HomeAssistant {
            url: "wss://homeassistant.local/api/websocket".to_string(),
            connecting_after_s: 10,
            call_timeout_s: 8,
            ping_interval_s: 30,
            backoff_min_s: 1,
            backoff_max_s: 30,
        }
    }
}

/// The built-in `[mqtt]`.
pub open spec fn default_mqtt(r: Mqtt) -> bool {
    &&& r.host@ == "homeassistant.local"@
    &&& r.port == 1883
    &&& r.client_id@ == "barclock"@
    &&& r.keepalive_s == 30
    &&& r.discovery_prefix@ == "homeassistant"@
    &&& r.base_topic@ == "barclock/display"@
    &&& r.unique_id@ == "barclock_display"@
    &&& r.device_name@ == "Bar display"@
    &&& r.suggested_area@ == "Bureau Lulu"@
}

impl Default for Mqtt {
    /// The built-in values.
    fn default() -> (r: Mqtt)
        ensures
            default_mqtt(r),
    {
        Mqtt {
            host: "homeassistant.local".to_string(),
            port: 1883,
            client_id: "barclock".to_string(),
            keepalive_s: 30,
            discovery_prefix: "homeassistant".to_string(),
            base_topic: "barclock/display".to_string(),
            unique_id: "barclock_display".to_string(),
            device_name: "Bar display".to_string(),
            suggested_area: "Bureau Lulu".to_string(),
        }
    }
}

/// The built-in `[display]`.
pub open spec fn default_display(r: Display) -> bool {
    &&& r.rotation == 90
    &&& r.default_brightness == 255
    &&& r.wake_seconds == 30
    &&& r.wake_brightness == 160
    &&& r.readable_threshold == 100
    &&& r.dpms_off == true
    &&& r.dpms_delay_ms == 400
    &&& r.max_dim_opacity == (Fraction { bits: 0x3f70a3d7 })
    &&& r.state_file@ == "/var/lib/barclock/brightness"@
    &&& r.toast_seconds == 5
}

impl Default for Display {
    /// The built-in values.
    fn default() -> (r: Display)
        ensures
            default_display(r),
    {
        Display {
            rotation: 90,
            default_brightness: 255,
            wake_seconds: 30,
            wake_brightness: 160,
            readable_threshold: 100,
            dpms_off: true,
            dpms_delay_ms: 400,
            max_dim_opacity: Fraction { bits: 0x3f70a3d7 },
            state_file: "/var/lib/barclock/brightness".to_string(),
            toast_seconds: 5,
        }
    }
}

/// The built-in `[entities]`.
pub open spec fn default_entities(r: Entities) -> bool {
    &&& r.weather@ == "weather.sept_iles"@
    &&& r.house_power@ == "sensor.hydroquebec_w"@
    &&& r.stove_power@ == "sensor.poele_w"@
    &&& r.printer_progress@ == "sensor.bureau_lulu_klipper_lulu_progress"@
    &&& r.printer_time_left@ == "sensor.bureau_lulu_klipper_lulu_print_time_left"@
    &&& r.printer_power@ == "switch.bureau_lulu_klipper_lulu_ender3"@
    &&& r.printer_print_state@ == "sensor.bureau_lulu_klipper_lulu_current_print_state"@
    &&& r.printer_klipper_state@ == "sensor.bureau_lulu_klipper_lulu_printer_state"@
    &&& r.light_ceiling@ == "light.plafonnier_bureau_lulu"@
    &&& r.light_monitor@ == "light.lumieres_ecran_lumiere_bureau"@
    &&& r.kiosk_grafana@ == "switch.bureau_lulu_kiosk_grafana_kiosk"@
    &&& r.kiosk_camera@ == "select.bureau_lulu_kiosk_camera"@
    &&& r.kiosk_camera_street_option@ == "Rue"@
    &&& r.kiosk_camera_gallery_option@ == "Galerie"@
    &&& r.kiosk_camera_off_option@ == "off"@
    &&& r.kiosk_display_power@ == "select.bureau_lulu_kiosk_display_power_mode"@
    &&& r.kiosk_display_off_option@ == "suspend"@
    &&& r.car_charge_power@ == "sensor.chevrolet_volt_charge_power"@
    &&& r.car_battery@ == "sensor.chevrolet_volt_ev_battery_level"@
    &&& r.water_heater_power@ == "sensor.chauffe_eau_w"@
    &&& r.washer_power@ == "sensor.laveuse_power"@
    &&& r.dryer_power@ == "sensor.secheuse_w"@
    &&& r.servers_power@ == "sensor.serveurs_w"@
    &&& r.office_fan@ == "fan.office_fan_office_fan"@
    &&& r.office_temperature@ == "sensor.thermometre_chambre_gabie_temperature"@
    &&& r.office_humidity@ == "sensor.thermometre_chambre_gabie_humidity"@
}

impl Default for Entities {
    /// The built-in values.
    fn default() -> (r: Entities)
        ensures
            default_entities(r),
    {
        Entities {
            weather: "weather.sept_iles".to_string(),
            house_power: "sensor.hydroquebec_w".to_string(),
            stove_power: "sensor.poele_w".to_string(),
            printer_progress: "sensor.bureau_lulu_klipper_lulu_progress".to_string(),
            printer_time_left: "sensor.bureau_lulu_klipper_lulu_print_time_left".to_string(),
            printer_power: "switch.bureau_lulu_klipper_lulu_ender3".to_string(),
            printer_print_state: "sensor.bureau_lulu_klipper_lulu_current_print_state".to_string(),
            printer_klipper_state: "sensor.bureau_lulu_klipper_lulu_printer_state".to_string(),
            light_ceiling: "light.plafonnier_bureau_lulu".to_string(),
            light_monitor: "light.lumieres_ecran_lumiere_bureau".to_string(),
            kiosk_grafana: "switch.bureau_lulu_kiosk_grafana_kiosk".to_string(),
            kiosk_camera: "select.bureau_lulu_kiosk_camera".to_string(),
            kiosk_camera_street_option: "Rue".to_string(),
            kiosk_camera_gallery_option: "Galerie".to_string(),
            kiosk_camera_off_option: "off".to_string(),
            kiosk_display_power: "select.bureau_lulu_kiosk_display_power_mode".to_string(),
            kiosk_display_off_option: "suspend".to_string(),
            car_charge_power: "sensor.chevrolet_volt_charge_power".to_string(),
            car_battery: "sensor.chevrolet_volt_ev_battery_level".to_string(),
            water_heater_power: "sensor.chauffe_eau_w".to_string(),
            washer_power: "sensor.laveuse_power".to_string(),
            dryer_power: "sensor.secheuse_w".to_string(),
            servers_power: "sensor.serveurs_w".to_string(),
            office_fan: "fan.office_fan_office_fan".to_string(),
            office_temperature: "sensor.thermometre_chambre_gabie_temperature".to_string(),
            office_humidity: "sensor.thermometre_chambre_gabie_humidity".to_string(),
        }
    }
}

/// The built-in `[iotawatt]`.
pub open spec fn default_iotawatt(r: IotaWatt) -> bool {
    &&& r.url@ == Seq::<char>::empty()
    &&& r.house_output@ == "HydroQuebec"@
    &&& r.servers_input@ == "Serveurs"@
    &&& r.poll_interval_ms == 1000
    &&& r.timeout_ms == 2000
    &&& r.failures_before_fallback == 3
}

impl Default for IotaWatt {
    /// The built-in values.
    fn default() -> (r: IotaWatt)
        ensures
            default_iotawatt(r),
    {
        IotaWatt {
            url: String::new(),
            house_output: "HydroQuebec".to_string(),
            servers_input: "Serveurs".to_string(),
            poll_interval_ms: 1000,
            timeout_ms: 2000,
            failures_before_fallback: 3,
        }
    }
}

/// The built-in `[thresholds]`.
pub open spec fn default_thresholds(r: Thresholds) -> bool {
    &&& r.stove_flame_w == (Reading { bits: 0x4010000000000000 })
    &&& r.car_charging_kw == (Reading { bits: 0x3fb999999999999a })
    &&& r.water_heater_w == (Reading { bits: 0x4049000000000000 })
    &&& r.washer_w == (Reading { bits: 0x4024000000000000 })
    &&& r.dryer_w == (Reading { bits: 0x4024000000000000 })
}

impl Default for Thresholds {
    /// The built-in values.
    fn default() -> (r: Thresholds)
        ensures
            default_thresholds(r),
    {
        Thresholds {
            stove_flame_w: Reading { bits: 0x4010000000000000 },
            car_charging_kw: Reading { bits: 0x3fb999999999999a },
            water_heater_w: Reading { bits: 0x4049000000000000 },
            washer_w: Reading { bits: 0x4024000000000000 },
            dryer_w: Reading { bits: 0x4024000000000000 },
        }
    }
}

/// The built-in `[clock]`.
pub open spec fn default_clock(r: Clock) -> bool {
    &&& r.zones@.len() == 3
    &&& r.zones@[0].label@ == "UTC"@
    &&& r.zones@[0].tz@ == "UTC"@
    &&& r.zones@[1].label@ == "London"@
    &&& r.zones@[1].tz@ == "Europe/London"@
    &&& r.zones@[2].label@ == "Paris/Skopje"@
    &&& r.zones@[2].tz@ == "Europe/Paris"@
}

impl Default for Clock {
    /// The built-in values.
    fn default() -> (r: Clock)
        ensures
            default_clock(r),
    {
        let mut zones: Vec<Zone> = Vec::new();
        zones.push(Zone { label: "UTC".to_string(), tz: "UTC".to_string() });
        zones.push(Zone { label: "London".to_string(), tz: "Europe/London".to_string() });
        zones.push(Zone { label: "Paris/Skopje".to_string(), tz: "Europe/Paris".to_string() });
        Clock { zones }
    }
}

/// The built-in configuration.
pub open spec fn default_config(r: Config) -> bool {
    &&& default_general(r.general)
    &&& default_clock(r.clock)
    &&& default_homeassistant(r.homeassistant)
    &&& default_mqtt(r.mqtt)
    &&& default_display(r.display)
    &&& default_entities(r.entities)
    &&& default_thresholds(r.thresholds)
    &&& default_iotawatt(r.iotawatt)
    &&& r.weather_labels@ == Map::<Seq<char>, Seq<char>>::empty()
}

impl Default for Config {
    /// The built-in values.
    fn default() -> (r: Config)
        ensures
            default_config(r),
    {
        Config {
            general: General::default(),
            clock: Clock::default(),
            homeassistant: HomeAssistant::default(),
            mqtt: Mqtt::default(),
            display: Display::default(),
            entities: Entities::default(),
            thresholds: Thresholds::default(),
            weather_labels: TextMap::new(),
            iotawatt: IotaWatt::default(),
        }
    }
}

// ---------------- time zones ----------------

/// A time zone of `chrono_tz`.
#[verifier::external_type_specification]
#[verifier::external_body]
pub struct ExTz(chrono_tz::Tz);

/// The time zone that `chrono_tz` knows under a name, or the message of its error.
pub uninterp spec fn zone_named(name: Seq<char>) -> Result<chrono_tz::Tz, Seq<char>>;

/// The name gave this zone.
pub open spec fn zone_found(r: Result<chrono_tz::Tz, Seq<char>>, tz: chrono_tz::Tz) -> bool {
    match r {
        Ok(z) => z == tz,
        Err(_) => false,
    }
}

/// The name gave this message.
pub open spec fn zone_missing(r: Result<chrono_tz::Tz, Seq<char>>, message: Seq<char>) -> bool {
    match r {
        Ok(_) => false,
        Err(m) => m == message,
    }
}

/// Calls `Tz::from_str` of `chrono_tz`: the zone, or the message of the error, is named by
/// `zone_named`.
#[verifier::external_body]
fn parse_tz(name: &str) -> (r: Result<chrono_tz::Tz, String>)
    ensures
        match r {
            Ok(tz) => zone_found(zone_named(name@), tz),
            Err(e) => zone_missing(zone_named(name@), e@),
        },
{
    chrono_tz::Tz::from_str(name).map_err(|e| e.to_string())
}

/// What is wrong with the zone of the big clock.
pub open spec fn timezone_error(name: Seq<char>) -> Option<Seq<char>> {
    match zone_named(name) {
        Ok(_) => None,
        Err(m) => Some("general.timezone "@ + debug_text(name) + ": "@ + m),
    }
}

/// What is wrong with the extra zones: the first that no zone is known for.
pub open spec fn zones_error(zones: Seq<Zone>) -> Option<Seq<char>>
    decreases zones.len(),
{
    if zones.len() == 0 {
        None
    } else {
        match zones_error(zones.drop_last()) {
            Some(e) => Some(e),
            None => match zone_named(zones.last().tz@) {
                Ok(_) => None,
                Err(m) => Some("clock.zones "@ + debug_text(zones.last().tz@) + ": "@ + m),
            },
        }
    }
}

/// Each extra zone with its label, in order.
pub open spec fn zones_are(v: Seq<(String, chrono_tz::Tz)>, zones: Seq<Zone>) -> bool {
    &&& v.len() == zones.len()
    &&& forall|i: int|
        0 <= i < v.len() ==> (#[trigger] v[i]).0@ == zones[i].label@ && zone_found(
            zone_named(zones[i].tz@),
            v[i].1,
        )
}

// ---------------- labels ----------------

/// The label of the 3D printer module.
pub open spec fn status_label(s: PrinterStatus, fr: bool) -> Seq<char> {
    match s {
        PrinterStatus::Off => "OFF"@,
        PrinterStatus::Unknown => "—"@,
        PrinterStatus::Idle => if fr { "INACTIVE"@ } else { "IDLE"@ },
        PrinterStatus::Printing => if fr { "IMPRESSION"@ } else { "PRINTING"@ },
        PrinterStatus::Paused => if fr { "EN PAUSE"@ } else { "PAUSED"@ },
        PrinterStatus::Error => if fr { "ERREUR"@ } else { "ERROR"@ },
    }
}

/// The text for a weather condition that Home Assistant knows.
pub open spec fn condition_text(condition: Seq<char>, fr: bool) -> Option<Seq<char>> {
    if condition == "sunny"@ {
        Some(if fr { "Ensoleillé"@ } else { "Sunny"@ })
    } else if condition == "clear-night"@ {
        Some(if fr { "Ciel dégagé"@ } else { "Clear night"@ })
    } else if condition == "partlycloudy"@ {
        Some(if fr { "Partiellement nuageux"@ } else { "Partly cloudy"@ })
    } else if condition == "cloudy"@ {
        Some(if fr { "Nuageux"@ } else { "Cloudy"@ })
    } else if condition == "rainy"@ {
        Some(if fr { "Pluie"@ } else { "Rain"@ })
    } else if condition == "pouring"@ {
        Some(if fr { "Forte pluie"@ } else { "Pouring"@ })
    } else if condition == "snowy"@ {
        Some(if fr { "Neige"@ } else { "Snow"@ })
    } else if condition == "snowy-rainy"@ {
        Some(if fr { "Neige et pluie"@ } else { "Snow and rain"@ })
    } else if condition == "fog"@ {
        Some(if fr { "Brouillard"@ } else { "Fog"@ })
    } else if condition == "hail"@ {
        Some(if fr { "Grêle"@ } else { "Hail"@ })
    } else if condition == "lightning"@ {
        Some(if fr { "Orage"@ } else { "Lightning"@ })
    } else if condition == "lightning-rainy"@ {
        Some(if fr { "Orage et pluie"@ } else { "Thunderstorm"@ })
    } else if condition == "windy"@ {
        Some(if fr { "Venteux"@ } else { "Windy"@ })
    } else if condition == "windy-variant"@ {
        Some(if fr { "Venteux et nuageux"@ } else { "Windy and cloudy"@ })
    } else if condition == "exceptional"@ {
        Some(if fr { "Exceptionnel"@ } else { "Exceptional"@ })
    } else if condition == "unavailable"@ {
        Some(if fr { "Indisponible"@ } else { "Unavailable"@ })
    } else if condition == "unknown"@ || condition.len() == 0 {
        Some(if fr { "Inconnu"@ } else { "Unknown"@ })
    } else {
        None
    }
}

/// The text for a weather condition: the configured one, or the built-in one, or the condition
/// itself with spaces for dashes.
pub open spec fn weather_text(
    labels: Map<Seq<char>, Seq<char>>,
    fr: bool,
    condition: Seq<char>,
) -> Seq<char> {
    match at(labels, condition) {
        Some(t) => t,
        None => match condition_text(condition, fr) {
            Some(t) => t,
            None => replaced(condition, '-', ' '),
        },
    }
}

impl Config {
    /// Whether the texts on the screen are French.
    pub open spec fn french(self) -> bool {
        self.general.language@ == "fr"@
    }

    /// The entities in their order, blank ones among them.
    pub open spec fn all_ids(self) -> Seq<Seq<char>> {
        seq![
            self.entities.weather@,
            self.entities.house_power@,
            self.entities.stove_power@,
            self.entities.printer_progress@,
            self.entities.printer_time_left@,
            self.entities.printer_power@,
            self.entities.printer_print_state@,
            self.entities.printer_klipper_state@,
            self.entities.light_ceiling@,
            self.entities.light_monitor@,
            self.entities.kiosk_grafana@,
            self.entities.kiosk_camera@,
            self.entities.kiosk_display_power@,
            self.entities.car_charge_power@,
            self.entities.car_battery@,
            self.entities.water_heater_power@,
            self.entities.washer_power@,
            self.entities.dryer_power@,
            self.entities.servers_power@,
            self.entities.office_fan@,
            self.entities.office_temperature@,
            self.entities.office_humidity@,
        ]
    }

    /// What is wrong with the display's settings.
    pub open spec fn display_problem(self) -> Option<Seq<char>> {
        let d = self.display;
        if d.default_brightness == 0 {
            Some("display.default_brightness must be 1..=255"@)
        } else if d.wake_brightness == 0 {
            Some("display.wake_brightness must be 1..=255"@)
        } else if !within_unit(d.max_dim_opacity) {
            Some("display.max_dim_opacity must be within 0..=1"@)
        } else {
            None
        }
    }

    /// What is wrong with the cameras' options, where there is a select that they belong to.
    pub open spec fn camera_problem(self) -> Option<Seq<char>> {
        let e = self.entities;
        let street = trimmed(e.kiosk_camera_street_option@);
        let gallery = trimmed(e.kiosk_camera_gallery_option@);
        let off = trimmed(e.kiosk_camera_off_option@);
        if blank(e.kiosk_camera@) {
            None
        } else if street.len() == 0 || gallery.len() == 0 || off.len() == 0 {
            Some(
                "entities.kiosk_camera_{street,gallery,off}_option must all name an option of "@
                    + debug_text(e.kiosk_camera@),
            )
        } else if street == gallery || street == off || gallery == off {
            Some(
                "entities.kiosk_camera_{street,gallery,off}_option must differ from each other, got "@
                    + debug_text(street) + ", "@ + debug_text(gallery) + ", "@ + debug_text(off),
            )
        } else {
            None
        }
    }

    /// What is wrong with the polling of the IoTaWatt, where it is polled.
    pub open spec fn polling_problem(self) -> Option<Seq<char>> {
        let w = self.iotawatt;
        if blank(w.url@) {
            None
        } else if !(200 <= w.poll_interval_ms <= 300000) {
            Some(
                "iotawatt.poll_interval_ms must be between 200 and 300000, got "@ + decimal(
                    w.poll_interval_ms as nat,
                ),
            )
        } else if !(200 <= w.timeout_ms <= 30000) {
            Some(
                "iotawatt.timeout_ms must be between 200 and 30000, got "@ + decimal(
                    w.timeout_ms as nat,
                ),
            )
        } else if !(1 <= w.failures_before_fallback <= 100) {
            Some(
                "iotawatt.failures_before_fallback must be between 1 and 100, got "@ + decimal(
                    w.failures_before_fallback as nat,
                ),
            )
        } else if blank(w.house_output@) && blank(w.servers_input@) {
            Some(
                "iotawatt.url is set but neither house_output nor servers_input names anything to read"@,
            )
        } else {
            None
        }
    }

    /// What is wrong with the timings of the Home Assistant link.
    pub open spec fn link_problem(self) -> Option<Seq<char>> {
        let ha = self.homeassistant;
        if !(5 <= ha.ping_interval_s <= 3600) {
            Some(
                "homeassistant.ping_interval_s must be within 5..=3600 (got "@ + decimal(
                    ha.ping_interval_s as nat,
                ) + ")"@,
            )
        } else if !(1 <= ha.backoff_min_s <= 3600) {
            Some(
                "homeassistant.backoff_min_s must be within 1..=3600 (got "@ + decimal(
                    ha.backoff_min_s as nat,
                ) + ")"@,
            )
        } else if !(ha.backoff_min_s <= ha.backoff_max_s <= 3600) {
            Some(
                "homeassistant.backoff_max_s must be within backoff_min_s..=3600 (got "@ + decimal(
                    ha.backoff_max_s as nat,
                ) + ", backoff_min_s is "@ + decimal(ha.backoff_min_s as nat) + ")"@,
            )
        } else if !(1 <= ha.call_timeout_s <= 600) {
            Some(
                "homeassistant.call_timeout_s must be within 1..=600 (got "@ + decimal(
                    ha.call_timeout_s as nat,
                ) + ")"@,
            )
        } else if ha.connecting_after_s > 600 {
            Some(
                "homeassistant.connecting_after_s must be within 0..=600 (got "@ + decimal(
                    ha.connecting_after_s as nat,
                ) + ")"@,
            )
        } else {
            None
        }
    }

    /// What is wrong with the configuration, its time zones aside.
    pub open spec fn rule_problem(self) -> Option<Seq<char>> {
        let r = self.display.rotation;
        let off = self.entities.kiosk_display_off_option@;
        if self.display_problem() is Some {
            self.display_problem()
        } else if self.camera_problem() is Some {
            self.camera_problem()
        } else if !(r == 0 || r == 90 || r == 180 || r == 270) {
            Some("display.rotation must be 0, 90, 180 or 270"@)
        } else if self.polling_problem() is Some {
            self.polling_problem()
        } else if blank(off) || off == "on"@ {
            Some(
                "entities.kiosk_display_off_option must be a select option other than \"on\" (standby, suspend or off), got "@
                    + debug_text(off),
            )
        } else {
            self.link_problem()
        }
    }

    /// What is wrong with the configuration: the message of the first rule that it breaks.
    pub open spec fn problem(self) -> Option<Seq<char>> {
        if timezone_error(self.general.timezone@) is Some {
            timezone_error(self.general.timezone@)
        } else if zones_error(self.clock.zones@) is Some {
            zones_error(self.clock.zones@)
        } else {
            self.rule_problem()
        }
    }

    /// Whether the configuration is sound, and otherwise the first rule that it breaks.
    pub fn validate(&self) -> (r: Result<(), String>)
        ensures
            match r {
                Ok(_) => self.problem() is None,
                Err(e) => self.problem() == Some(e@),
            },
    {
        match self.local_tz() {
            Ok(_) => {},
            Err(e) => {
                return Err(e);
            },
        }
        match self.zone_tzs() {
            Ok(_) => {},
            Err(e) => {
                return Err(e);
            },
        }
        match self.broken_rule() {
            Some(e) => Err(e),
            None => Ok(()),
        }
    }

    /// The first rule that the configuration breaks, those of the time zones aside.
    pub fn broken_rule(&self) -> (r: Option<String>)
        ensures
            opt_string(r) == self.rule_problem(),
    {
        match self.check_display() {
            Some(e) => {
                return Some(e);
            },
            None => {},
        }
        match self.check_cameras() {
            Some(e) => {
                return Some(e);
            },
            None => {},
        }
        let r = self.display.rotation;
        if !(r == 0 || r == 90 || r == 180 || r == 270) {
            return Some("display.rotation must be 0, 90, 180 or 270".to_string());
        }
        match self.check_polling() {
            Some(e) => {
                return Some(e);
            },
            None => {},
        }
        let off = self.entities.kiosk_display_off_option.as_str();
        if is_blank(off) || same(off, "on") {
            let mut m =
                "entities.kiosk_display_off_option must be a select option other than \"on\" (standby, suspend or off), got ".to_string();
            m.append(quoted(off).as_str());
            return Some(m);
        }
        self.check_link()
    }

    fn check_display(&self) -> (r: Option<String>)
        ensures
            opt_string(r) == self.display_problem(),
    {
        let d = &self.display;
        if d.default_brightness == 0 {
            Some("display.default_brightness must be 1..=255".to_string())
        } else if d.wake_brightness == 0 {
            Some("display.wake_brightness must be 1..=255".to_string())
        } else if !d.max_dim_opacity.in_unit() {
            Some("display.max_dim_opacity must be within 0..=1".to_string())
        } else {
            None
        }
    }

    fn check_cameras(&self) -> (r: Option<String>)
        ensures
            opt_string(r) == self.camera_problem(),
    {
        let e = &self.entities;
        if is_blank(e.kiosk_camera.as_str()) {
            return None;
        }
        let street = trim(e.kiosk_camera_street_option.as_str());
        let gallery = trim(e.kiosk_camera_gallery_option.as_str());
        let off = trim(e.kiosk_camera_off_option.as_str());
        if street.unicode_len() == 0 || gallery.unicode_len() == 0 || off.unicode_len() == 0 {
            let mut m =
                "entities.kiosk_camera_{street,gallery,off}_option must all name an option of ".to_string();
            m.append(quoted(e.kiosk_camera.as_str()).as_str());
            return Some(m);
        }
        if same(street, gallery) || same(street, off) || same(gallery, off) {
            let mut m =
                "entities.kiosk_camera_{street,gallery,off}_option must differ from each other, got ".to_string();
            m.append(quoted(street).as_str());
            m.append(", ");
            m.append(quoted(gallery).as_str());
            m.append(", ");
            m.append(quoted(off).as_str());
            return Some(m);
        }
        None
    }

    fn check_polling(&self) -> (r: Option<String>)
        ensures
            opt_string(r) == self.polling_problem(),
    {
        let w = &self.iotawatt;
        if is_blank(w.url.as_str()) {
            return None;
        }
        if !(200 <= w.poll_interval_ms && w.poll_interval_ms <= 300000) {
            let mut m = "iotawatt.poll_interval_ms must be between 200 and 300000, got ".to_string();
            push_decimal(&mut m, w.poll_interval_ms);
            return Some(m);
        }
        if !(200 <= w.timeout_ms && w.timeout_ms <= 30000) {
            let mut m = "iotawatt.timeout_ms must be between 200 and 30000, got ".to_string();
            push_decimal(&mut m, w.timeout_ms);
            return Some(m);
        }
        if !(1 <= w.failures_before_fallback && w.failures_before_fallback <= 100) {
            let mut m =
                "iotawatt.failures_before_fallback must be between 1 and 100, got ".to_string();
            push_decimal(&mut m, w.failures_before_fallback as u64);
            return Some(m);
        }
        if is_blank(w.house_output.as_str()) && is_blank(w.servers_input.as_str()) {
            return Some(
                "iotawatt.url is set but neither house_output nor servers_input names anything to read".to_string(),
            );
        }
        None
    }

    fn check_link(&self) -> (r: Option<String>)
        ensures
            opt_string(r) == self.link_problem(),
    {
        let ha = &self.homeassistant;
        if !(5 <= ha.ping_interval_s && ha.ping_interval_s <= 3600) {
            let mut m = "homeassistant.ping_interval_s must be within 5..=3600 (got ".to_string();
            push_decimal(&mut m, ha.ping_interval_s);
            m.append(")");
            return Some(m);
        }
        if !(1 <= ha.backoff_min_s && ha.backoff_min_s <= 3600) {
            let mut m = "homeassistant.backoff_min_s must be within 1..=3600 (got ".to_string();
            push_decimal(&mut m, ha.backoff_min_s);
            m.append(")");
            return Some(m);
        }
        if !(ha.backoff_min_s <= ha.backoff_max_s && ha.backoff_max_s <= 3600) {
            let mut m =
                "homeassistant.backoff_max_s must be within backoff_min_s..=3600 (got ".to_string();
            push_decimal(&mut m, ha.backoff_max_s);
            m.append(", backoff_min_s is ");
            push_decimal(&mut m, ha.backoff_min_s);
            m.append(")");
            return Some(m);
        }
        if !(1 <= ha.call_timeout_s && ha.call_timeout_s <= 600) {
            let mut m = "homeassistant.call_timeout_s must be within 1..=600 (got ".to_string();
            push_decimal(&mut m, ha.call_timeout_s);
            m.append(")");
            return Some(m);
        }
        if ha.connecting_after_s > 600 {
            let mut m =
                "homeassistant.connecting_after_s must be within 0..=600 (got ".to_string();
            push_decimal(&mut m, ha.connecting_after_s);
            m.append(")");
            return Some(m);
        }
        None
    }

    /// The zone of the big clock.
    pub fn local_tz(&self) -> (r: Result<chrono_tz::Tz, String>)
        ensures
            match r {
                Ok(tz) => zone_found(zone_named(self.general.timezone@), tz),
                Err(e) => timezone_error(self.general.timezone@) == Some(e@),
            },
    {
        match parse_tz(self.general.timezone.as_str()) {
            Ok(tz) => Ok(tz),
            Err(e) => {
                let mut m = "general.timezone ".to_string();
                m.append(quoted(self.general.timezone.as_str()).as_str());
                m.append(": ");
                m.append(e.as_str());
                Err(m)
            },
        }
    }

    /// The extra zones with their labels.
    pub fn zone_tzs(&self) -> (r: Result<Vec<(String, chrono_tz::Tz)>, String>)
        ensures
            match r {
                Ok(v) => zones_error(self.clock.zones@) is None && zones_are(
                    v@,
                    self.clock.zones@,
                ),
                Err(e) => zones_error(self.clock.zones@) == Some(e@),
            },
    {
        let zones = &self.clock.zones;
        let mut out: Vec<(String, chrono_tz::Tz)> = Vec::new();
        let mut i: usize = 0;
        while i < zones.len()
            invariant
                i <= zones@.len(),
                zones@ == self.clock.zones@,
                zones_error(zones@.take(i as int)) is None,
                zones_are(out@, zones@.take(i as int)),
            decreases zones@.len() - i,
        {
            let ghost t = zones@.take(i + 1);
            assert(t.drop_last() =~= zones@.take(i as int));
            assert(t.last() == zones@[i as int]);
            match parse_tz(zones[i].tz.as_str()) {
                Ok(tz) => {
                    out.push((zones[i].label.clone(), tz));
                },
                Err(e) => {
                    let mut m = "clock.zones ".to_string();
                    m.append(quoted(zones[i].tz.as_str()).as_str());
                    m.append(": ");
                    m.append(e.as_str());
                    proof {
                        lemma_zones_error(zones@, i + 1);
                    }
                    return Err(m);
                },
            }
            i = i + 1;
        }
        assert(zones@.take(i as int) =~= zones@);
        Ok(out)
    }

    /// Every entity to subscribe to, in a stable order.
    pub fn entity_ids(&self) -> (r: Vec<String>)
        ensures
            texts(r@) == named(self.all_ids()),
    {
        let e = &self.entities;
        let mut all: Vec<String> = Vec::new();
        all.push(e.weather.clone());
        all.push(e.house_power.clone());
        all.push(e.stove_power.clone());
        all.push(e.printer_progress.clone());
        all.push(e.printer_time_left.clone());
        all.push(e.printer_power.clone());
        all.push(e.printer_print_state.clone());
        all.push(e.printer_klipper_state.clone());
        all.push(e.light_ceiling.clone());
        all.push(e.light_monitor.clone());
        all.push(e.kiosk_grafana.clone());
        all.push(e.kiosk_camera.clone());
        all.push(e.kiosk_display_power.clone());
        all.push(e.car_charge_power.clone());
        all.push(e.car_battery.clone());
        all.push(e.water_heater_power.clone());
        all.push(e.washer_power.clone());
        all.push(e.dryer_power.clone());
        all.push(e.servers_power.clone());
        all.push(e.office_fan.clone());
        all.push(e.office_temperature.clone());
        all.push(e.office_humidity.clone());
        assert(texts(all@) =~= self.all_ids());
        subscription_ids(&all)
    }

    /// Label for the 3D printer module.
    pub fn printer_label(&self, status: PrinterStatus) -> (r: &'static str)
        ensures
            r@ == status_label(status, self.french()),
    {
        let fr = same(self.general.language.as_str(), "fr");
        match status {
            PrinterStatus::Off => "OFF",
            PrinterStatus::Unknown => "—",
            PrinterStatus::Idle => if fr { "INACTIVE" } else { "IDLE" },
            PrinterStatus::Printing => if fr { "IMPRESSION" } else { "PRINTING" },
            PrinterStatus::Paused => if fr { "EN PAUSE" } else { "PAUSED" },
            PrinterStatus::Error => if fr { "ERREUR" } else { "ERROR" },
        }
    }

    /// Text for a Home Assistant weather condition.
    pub fn weather_label(&self, condition: &str) -> (r: String)
        ensures
            r@ == weather_text(self.weather_labels@, self.french(), condition@),
    {
        match self.weather_labels.get(condition) {
            Some(t) => {
                return t.clone();
            },
            None => {},
        }
        let fr = same(self.general.language.as_str(), "fr");
        if same(condition, "sunny") {
            return if fr { "Ensoleillé".to_string() } else { "Sunny".to_string() };
        }
        if same(condition, "clear-night") {
            return if fr { "Ciel dégagé".to_string() } else { "Clear night".to_string() };
        }
        if same(condition, "partlycloudy") {
            return if fr { "Partiellement nuageux".to_string() } else { "Partly cloudy".to_string() };
        }
        if same(condition, "cloudy") {
            return if fr { "Nuageux".to_string() } else { "Cloudy".to_string() };
        }
        if same(condition, "rainy") {
            return if fr { "Pluie".to_string() } else { "Rain".to_string() };
        }
        if same(condition, "pouring") {
            return if fr { "Forte pluie".to_string() } else { "Pouring".to_string() };
        }
        if same(condition, "snowy") {
            return if fr { "Neige".to_string() } else { "Snow".to_string() };
        }
        if same(condition, "snowy-rainy") {
            return if fr { "Neige et pluie".to_string() } else { "Snow and rain".to_string() };
        }
        if same(condition, "fog") {
            return if fr { "Brouillard".to_string() } else { "Fog".to_string() };
        }
        if same(condition, "hail") {
            return if fr { "Grêle".to_string() } else { "Hail".to_string() };
        }
        if same(condition, "lightning") {
            return if fr { "Orage".to_string() } else { "Lightning".to_string() };
        }
        if same(condition, "lightning-rainy") {
            return if fr { "Orage et pluie".to_string() } else { "Thunderstorm".to_string() };
        }
        if same(condition, "windy") {
            return if fr { "Venteux".to_string() } else { "Windy".to_string() };
        }
        if same(condition, "windy-variant") {
            return if fr { "Venteux et nuageux".to_string() } else { "Windy and cloudy".to_string() };
        }
        if same(condition, "exceptional") {
            return if fr { "Exceptionnel".to_string() } else { "Exceptional".to_string() };
        }
        if same(condition, "unavailable") {
            return if fr { "Indisponible".to_string() } else { "Unavailable".to_string() };
        }
        if same(condition, "unknown") || condition.unicode_len() == 0 {
            return if fr { "Inconnu".to_string() } else { "Unknown".to_string() };
        }
        replace(condition, '-', ' ')
    }
}

/// An extra zone that is unknown stays the first that is.
proof fn lemma_zones_error(zones: Seq<Zone>, n: int)
    requires
        0 <= n <= zones.len(),
        zones_error(zones.take(n)) is Some,
    ensures
        zones_error(zones) == zones_error(zones.take(n)),
    decreases zones.len() - n,
{
    if n < zones.len() {
        assert(zones.take(n + 1).drop_last() =~= zones.take(n));
        lemma_zones_error(zones, n + 1);
    } else {
        assert(zones.take(n) =~= zones);
    }
}

} // verus!
