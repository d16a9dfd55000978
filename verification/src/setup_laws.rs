//! What holds of the configuration, the environment, the panel and the formats of the screen.
use vstd::prelude::*;
use crate::base_laws::stripping_takes_only_the_run;
use crate::cli::{
    cli_of, credentials_of, env_warnings, grouped, host_from, no_args, port_from, said, scheme_end,
    scheme_split, scheme_warning, three, url_from, watts_text, websocket_url, ArgsV, InvocationV,
};
use crate::clock::{short_time, Civil};
use crate::config::{
    condition_text, default_config, status_label, timezone_error, weather_text, zone_named,
    zones_are, zones_error, Config, PrinterStatus, Zone,
};
use crate::display::{
    attached, backlight_writes, connector_text, dpms_place, hardware_level, is_first, power_request,
    powered, remembered, switchable, switchable_place, synchronized, wait_for, Connector,
    DisplayWait, Property,
};
use crate::ha_ws::named;
use crate::map::at;
use crate::number::{within_unit, Fraction, Reading};
use crate::preview::{posed, sample_rows};
use crate::text::{
    before, blank, debug_text, decimal, digit, is_digit, lemma_before_total, lemma_decimal,
    parsed_unsigned, trimmed, upper_text, words,
};
use crate::ui::WindowV;

verus! {

// ---------------- the configuration ----------------

proof fn lemma_zones(zones: Seq<Zone>)
    ensures
        zones_error(zones) is None <==> forall|i: int|
            0 <= i < zones.len() ==> zone_named((#[trigger] zones[i]).tz@) is Ok,
    decreases zones.len(),
{
    if zones.len() > 0 {
        let rest = zones.drop_last();
        lemma_zones(rest);
        if zones_error(zones) is None {
            assert forall|i: int| 0 <= i < zones.len() implies zone_named(
                (#[trigger] zones[i]).tz@,
            ) is Ok by {
                if i < rest.len() {
                    assert(rest[i] == zones[i]);
                }
            }
        }
        if forall|i: int| 0 <= i < zones.len() ==> zone_named((#[trigger] zones[i]).tz@) is Ok {
            assert forall|i: int| 0 <= i < rest.len() implies zone_named(
                (#[trigger] rest[i]).tz@,
            ) is Ok by {
                assert(rest[i] == zones[i]);
            }
            assert(zone_named(zones[zones.len() - 1].tz@) is Ok);
        }
    }
}

/// The display's settings are sound: no brightness is zero, the dimming is a fraction of one, and the
/// panel stands upright or on one of its sides.
pub open spec fn sound_display(cfg: Config) -> bool {
    let d = cfg.display;
    &&& d.default_brightness >= 1
    &&& d.wake_brightness >= 1
    &&& within_unit(d.max_dim_opacity)
    &&& d.rotation == 0 || d.rotation == 90 || d.rotation == 180 || d.rotation == 270
}

/// The kiosk's settings are sound: the options of the cameras say something and differ from each
/// other where there is a select for them, and the monitor's option for off is none for on.
pub open spec fn sound_kiosk(cfg: Config) -> bool {
    let e = cfg.entities;
    let street = e.kiosk_camera_street_option@;
    let gallery = e.kiosk_camera_gallery_option@;
    let off = e.kiosk_camera_off_option@;
    &&& !blank(e.kiosk_camera@) ==> {
        &&& !blank(street) && !blank(gallery) && !blank(off)
        &&& trimmed(street) != trimmed(gallery)
        &&& trimmed(street) != trimmed(off)
        &&& trimmed(gallery) != trimmed(off)
    }
    &&& !blank(e.kiosk_display_off_option@)
    &&& e.kiosk_display_off_option@ != "on"@
}

/// The polling is sound, where there is a device to poll.
pub open spec fn sound_polling(cfg: Config) -> bool {
    let w = cfg.iotawatt;
    !blank(w.url@) ==> {
        &&& 200 <= w.poll_interval_ms <= 300_000
        &&& 200 <= w.timeout_ms <= 30_000
        &&& 1 <= w.failures_before_fallback <= 100
        &&& !blank(w.house_output@) || !blank(w.servers_input@)
    }
}

/// The timings of the link are sound.
pub open spec fn sound_link(cfg: Config) -> bool {
    let ha = cfg.homeassistant;
    &&& 5 <= ha.ping_interval_s <= 3600
    &&& 1 <= ha.backoff_min_s <= ha.backoff_max_s <= 3600
    &&& 1 <= ha.call_timeout_s <= 600
    &&& ha.connecting_after_s <= 600
}

/// A configuration is sound where every rule holds, and only there: its time zones are all known,
/// and so are the display, the kiosk, the polling and the link in order.
pub proof fn a_configuration_is_sound_where_every_rule_holds(cfg: Config)
    ensures
        cfg.problem() is None <==> {
            &&& zone_named(cfg.general.timezone@) is Ok
            &&& forall|i: int|
                0 <= i < cfg.clock.zones@.len() ==> zone_named(
                    (#[trigger] cfg.clock.zones@[i]).tz@,
                ) is Ok
            &&& sound_display(cfg)
            &&& sound_kiosk(cfg)
            &&& sound_polling(cfg)
            &&& sound_link(cfg)
        },
{
    lemma_zones(cfg.clock.zones@);
}

/// A time zone that is not known is named as the problem before all else: that of the clock first,
/// then the first of the extra ones.
pub proof fn an_unknown_zone_is_named(cfg: Config, i: int)
    ensures
        zone_named(cfg.general.timezone@) matches Err(m) ==> cfg.problem() == Some(
            "general.timezone "@ + debug_text(cfg.general.timezone@) + ": "@ + m,
        ),
        zone_named(cfg.general.timezone@) is Ok && 0 <= i < cfg.clock.zones@.len() && (forall|j: int|
            0 <= j < i ==> zone_named((#[trigger] cfg.clock.zones@[j]).tz@) is Ok) ==> (zone_named(
            cfg.clock.zones@[i].tz@,
        ) matches Err(m) ==> cfg.problem() == Some(
            "clock.zones "@ + debug_text(cfg.clock.zones@[i].tz@) + ": "@ + m,
        )),
{
    let zones = cfg.clock.zones@;
    if 0 <= i < zones.len() && (forall|j: int|
        0 <= j < i ==> zone_named((#[trigger] zones[j]).tz@) is Ok) {
        if let Err(m) = zone_named(zones[i].tz@) {
            lemma_first_zone(zones, i);
        }
    }
}

proof fn lemma_first_zone(zones: Seq<Zone>, i: int)
    requires
        0 <= i < zones.len(),
        zone_named(zones[i].tz@) is Err,
        forall|j: int| 0 <= j < i ==> zone_named((#[trigger] zones[j]).tz@) is Ok,
    ensures
        zones_error(zones) == Some(
            "clock.zones "@ + debug_text(zones[i].tz@) + ": "@ + zone_named(zones[i].tz@)->Err_0,
        ),
    decreases zones.len(),
{
    let rest = zones.drop_last();
    if i < rest.len() {
        assert(rest[i] == zones[i]);
        assert forall|j: int| 0 <= j < i implies zone_named((#[trigger] rest[j]).tz@) is Ok by {
            assert(rest[j] == zones[j]);
        }
        lemma_first_zone(rest, i);
    } else {
        lemma_zones(rest);
        assert forall|j: int| 0 <= j < rest.len() implies zone_named(
            (#[trigger] rest[j]).tz@,
        ) is Ok by {
            assert(rest[j] == zones[j]);
        }
    }
}

/// A setting of the display that breaks a rule is named as the problem, the first of several.
pub proof fn a_display_setting_is_named(cfg: Config)
    requires
        timezone_error(cfg.general.timezone@) is None,
        zones_error(cfg.clock.zones@) is None,
    ensures
        ({
            let d = cfg.display;
            &&& d.default_brightness == 0 ==> cfg.problem() == Some(
                "display.default_brightness must be 1..=255"@,
            )
            &&& d.default_brightness > 0 && d.wake_brightness == 0 ==> cfg.problem() == Some(
                "display.wake_brightness must be 1..=255"@,
            )
            &&& d.default_brightness > 0 && d.wake_brightness > 0 && !within_unit(d.max_dim_opacity)
                ==> cfg.problem() == Some("display.max_dim_opacity must be within 0..=1"@)
            &&& d.default_brightness > 0 && d.wake_brightness > 0 && within_unit(d.max_dim_opacity)
                && sound_kiosk(cfg) && !sound_display(cfg) ==> cfg.problem() == Some(
                "display.rotation must be 0, 90, 180 or 270"@,
            )
        }),
{
}

/// A setting of the polling that breaks a rule is named as the problem, with its value, the first of
/// several.
pub proof fn a_polling_setting_is_named(cfg: Config)
    requires
        timezone_error(cfg.general.timezone@) is None,
        zones_error(cfg.clock.zones@) is None,
        sound_display(cfg),
        sound_kiosk(cfg),
        !blank(cfg.iotawatt.url@),
    ensures
        ({
            let w = cfg.iotawatt;
            let paced = 200 <= w.poll_interval_ms <= 300_000;
            let timed = 200 <= w.timeout_ms <= 30_000;
            let patient = 1 <= w.failures_before_fallback <= 100;
            &&& !paced ==> cfg.problem() == Some(
                "iotawatt.poll_interval_ms must be between 200 and 300000, got "@ + decimal(
                    w.poll_interval_ms as nat,
                ),
            )
            &&& paced && !timed ==> cfg.problem() == Some(
                "iotawatt.timeout_ms must be between 200 and 30000, got "@ + decimal(
                    w.timeout_ms as nat,
                ),
            )
            &&& paced && timed && !patient ==> cfg.problem() == Some(
                "iotawatt.failures_before_fallback must be between 1 and 100, got "@ + decimal(
                    w.failures_before_fallback as nat,
                ),
            )
            &&& paced && timed && patient && blank(w.house_output@) && blank(w.servers_input@)
                ==> cfg.problem() == Some(
                "iotawatt.url is set but neither house_output nor servers_input names anything to read"@,
            )
        }),
{
}

/// A timing of the link that breaks a rule is named as the problem, with its value, the first of
/// several.
pub proof fn a_timing_of_the_link_is_named(cfg: Config)
    requires
        timezone_error(cfg.general.timezone@) is None,
        zones_error(cfg.clock.zones@) is None,
        sound_display(cfg),
        sound_kiosk(cfg),
        sound_polling(cfg),
    ensures
        ({
            let ha = cfg.homeassistant;
            let pings = 5 <= ha.ping_interval_s <= 3600;
            let low = 1 <= ha.backoff_min_s <= 3600;
            let high = ha.backoff_min_s <= ha.backoff_max_s <= 3600;
            let calls = 1 <= ha.call_timeout_s <= 600;
            &&& !pings ==> cfg.problem() == Some(
                "homeassistant.ping_interval_s must be within 5..=3600 (got "@ + decimal(
                    ha.ping_interval_s as nat,
                ) + ")"@,
            )
            &&& pings && !low ==> cfg.problem() == Some(
                "homeassistant.backoff_min_s must be within 1..=3600 (got "@ + decimal(
                    ha.backoff_min_s as nat,
                ) + ")"@,
            )
            &&& pings && low && !high ==> cfg.problem() == Some(
                "homeassistant.backoff_max_s must be within backoff_min_s..=3600 (got "@ + decimal(
                    ha.backoff_max_s as nat,
                ) + ", backoff_min_s is "@ + decimal(ha.backoff_min_s as nat) + ")"@,
            )
            &&& pings && low && high && !calls ==> cfg.problem() == Some(
                "homeassistant.call_timeout_s must be within 1..=600 (got "@ + decimal(
                    ha.call_timeout_s as nat,
                ) + ")"@,
            )
            &&& pings && low && high && calls && ha.connecting_after_s > 600 ==> cfg.problem()
                == Some(
                "homeassistant.connecting_after_s must be within 0..=600 (got "@ + decimal(
                    ha.connecting_after_s as nat,
                ) + ")"@,
            )
        }),
{
}

proof fn lemma_named_contains(ids: Seq<Seq<char>>, id: Seq<char>)
    ensures
        named(ids).contains(id) <==> ids.contains(id) && !blank(id),
    decreases ids.len(),
{
    if ids.len() > 0 {
        let rest = ids.drop_last();
        lemma_named_contains(rest, id);
        lemma_contains_last(ids, id);
        if !blank(ids.last()) {
            let more = named(rest).push(ids.last());
            lemma_contains_last(more, id);
            assert(more.drop_last() =~= named(rest));
        }
    }
}

proof fn lemma_contains_last(v: Seq<Seq<char>>, c: Seq<char>)
    requires
        v.len() > 0,
    ensures
        v.contains(c) <==> v.drop_last().contains(c) || v.last() == c,
{
    let rest = v.drop_last();
    if v.contains(c) {
        let i = choose|i: int| 0 <= i < v.len() && v[i] == c;
        if i < rest.len() {
            assert(rest[i] == c);
        }
    }
    if rest.contains(c) {
        let i = choose|i: int| 0 <= i < rest.len() && rest[i] == c;
        assert(v[i] == c);
    }
    assert(v[v.len() - 1] == v.last());
}

/// The entities that are subscribed to are those that the screen shows something of or acts on, as
/// far as they are configured: each of them, and no other text of the configuration.
pub proof fn every_configured_entity_is_subscribed_to(cfg: Config, id: Seq<char>)
    ensures
        ({
            let e = cfg.entities;
            named(cfg.all_ids()).contains(id) <==> !blank(id) && (id == e.weather@ || id
                == e.house_power@ || id == e.stove_power@ || id == e.printer_progress@ || id
                == e.printer_time_left@ || id == e.printer_power@ || id == e.printer_print_state@
                || id == e.printer_klipper_state@ || id == e.light_ceiling@ || id
                == e.light_monitor@ || id == e.kiosk_grafana@ || id == e.kiosk_camera@ || id
                == e.kiosk_display_power@ || id == e.car_charge_power@ || id == e.car_battery@ || id
                == e.water_heater_power@ || id == e.washer_power@ || id == e.dryer_power@ || id
                == e.servers_power@ || id == e.office_fan@ || id == e.office_temperature@ || id
                == e.office_humidity@)
        }),
{
    let ids = cfg.all_ids();
    lemma_named_contains(ids, id);
    let e = cfg.entities;
    assert(ids[0] == e.weather@ && ids[1] == e.house_power@ && ids[2] == e.stove_power@ && ids[3]
        == e.printer_progress@ && ids[4] == e.printer_time_left@ && ids[5] == e.printer_power@
        && ids[6] == e.printer_print_state@ && ids[7] == e.printer_klipper_state@ && ids[8]
        == e.light_ceiling@ && ids[9] == e.light_monitor@ && ids[10] == e.kiosk_grafana@ && ids[11]
        == e.kiosk_camera@ && ids[12] == e.kiosk_display_power@ && ids[13] == e.car_charge_power@
        && ids[14] == e.car_battery@ && ids[15] == e.water_heater_power@ && ids[16]
        == e.washer_power@ && ids[17] == e.dryer_power@ && ids[18] == e.servers_power@ && ids[19]
        == e.office_fan@ && ids[20] == e.office_temperature@ && ids[21] == e.office_humidity@);
}

/// What is built in where nothing is configured: the values that the documentation gives.
pub proof fn the_built_in_values(cfg: Config)
    requires
        default_config(cfg),
    ensures
        cfg.general.timezone@ == "America/Toronto"@,
        cfg.general.language@ == "fr"@,
        cfg.general.indoor_label@ == "Bureau Lulu"@,
        cfg.homeassistant.url@ == "wss://homeassistant.local/api/websocket"@,
        cfg.homeassistant.connecting_after_s == 10,
        cfg.homeassistant.call_timeout_s == 8,
        cfg.homeassistant.ping_interval_s == 30,
        cfg.homeassistant.backoff_min_s == 1,
        cfg.homeassistant.backoff_max_s == 30,
        cfg.mqtt.host@ == "homeassistant.local"@,
        cfg.mqtt.port == 1883,
        cfg.mqtt.client_id@ == "barclock"@,
        cfg.mqtt.keepalive_s == 30,
        cfg.mqtt.discovery_prefix@ == "homeassistant"@,
        cfg.mqtt.base_topic@ == "barclock/display"@,
        cfg.mqtt.unique_id@ == "barclock_display"@,
        cfg.mqtt.device_name@ == "Bar display"@,
        cfg.mqtt.suggested_area@ == "Bureau Lulu"@,
        cfg.display.rotation == 90,
        cfg.display.default_brightness == 255,
        cfg.display.wake_seconds == 30,
        cfg.display.wake_brightness == 160,
        cfg.display.readable_threshold == 100,
        cfg.display.dpms_off == true,
        cfg.display.dpms_delay_ms == 400,
        cfg.display.max_dim_opacity == (Fraction { bits: 0x3f70a3d7 }),
        cfg.display.state_file@ == "/var/lib/barclock/brightness"@,
        cfg.display.toast_seconds == 5,
        cfg.entities.weather@ == "weather.sept_iles"@,
        cfg.entities.house_power@ == "sensor.hydroquebec_w"@,
        cfg.entities.stove_power@ == "sensor.poele_w"@,
        cfg.entities.printer_progress@ == "sensor.bureau_lulu_klipper_lulu_progress"@,
        cfg.entities.printer_time_left@ == "sensor.bureau_lulu_klipper_lulu_print_time_left"@,
        cfg.entities.printer_power@ == "switch.bureau_lulu_klipper_lulu_ender3"@,
        cfg.entities.printer_print_state@ == "sensor.bureau_lulu_klipper_lulu_current_print_state"@,
        cfg.entities.printer_klipper_state@ == "sensor.bureau_lulu_klipper_lulu_printer_state"@,
        cfg.entities.light_ceiling@ == "light.plafonnier_bureau_lulu"@,
        cfg.entities.light_monitor@ == "light.lumieres_ecran_lumiere_bureau"@,
        cfg.entities.kiosk_grafana@ == "switch.bureau_lulu_kiosk_grafana_kiosk"@,
        cfg.entities.kiosk_camera@ == "select.bureau_lulu_kiosk_camera"@,
        cfg.entities.kiosk_camera_street_option@ == "Rue"@,
        cfg.entities.kiosk_camera_gallery_option@ == "Galerie"@,
        cfg.entities.kiosk_camera_off_option@ == "off"@,
        cfg.entities.kiosk_display_power@ == "select.bureau_lulu_kiosk_display_power_mode"@,
        cfg.entities.kiosk_display_off_option@ == "suspend"@,
        cfg.entities.car_charge_power@ == "sensor.chevrolet_volt_charge_power"@,
        cfg.entities.car_battery@ == "sensor.chevrolet_volt_ev_battery_level"@,
        cfg.entities.water_heater_power@ == "sensor.chauffe_eau_w"@,
        cfg.entities.washer_power@ == "sensor.laveuse_power"@,
        cfg.entities.dryer_power@ == "sensor.secheuse_w"@,
        cfg.entities.servers_power@ == "sensor.serveurs_w"@,
        cfg.entities.office_fan@ == "fan.office_fan_office_fan"@,
        cfg.entities.office_temperature@ == "sensor.thermometre_chambre_gabie_temperature"@,
        cfg.entities.office_humidity@ == "sensor.thermometre_chambre_gabie_humidity"@,
        cfg.iotawatt.url@ == Seq::<char>::empty(),
        cfg.iotawatt.house_output@ == "HydroQuebec"@,
        cfg.iotawatt.servers_input@ == "Serveurs"@,
        cfg.iotawatt.poll_interval_ms == 1000,
        cfg.iotawatt.timeout_ms == 2000,
        cfg.iotawatt.failures_before_fallback == 3,
        cfg.thresholds.stove_flame_w == (Reading { bits: 0x4010000000000000 }),
        cfg.thresholds.car_charging_kw == (Reading { bits: 0x3fb999999999999a }),
        cfg.thresholds.water_heater_w == (Reading { bits: 0x4049000000000000 }),
        cfg.thresholds.washer_w == (Reading { bits: 0x4024000000000000 }),
        cfg.thresholds.dryer_w == (Reading { bits: 0x4024000000000000 }),
        cfg.clock.zones@.len() == 3,
        cfg.clock.zones@[0].label@ == "UTC"@,
        cfg.clock.zones@[0].tz@ == "UTC"@,
        cfg.clock.zones@[1].label@ == "London"@,
        cfg.clock.zones@[1].tz@ == "Europe/London"@,
        cfg.clock.zones@[2].label@ == "Paris/Skopje"@,
        cfg.clock.zones@[2].tz@ == "Europe/Paris"@,
        cfg.weather_labels@ == Map::<Seq<char>, Seq<char>>::empty(),
{
}

/// The extra zones stand in their order, each with its own label and the zone of its own name.
pub proof fn each_zone_has_its_own_name(
    v: Seq<(String, chrono_tz::Tz)>,
    zones: Seq<Zone>,
    i: int,
)
    requires
        zones_are(v, zones),
        0 <= i < zones.len(),
    ensures
        v.len() == zones.len(),
        v[i].0@ == zones[i].label@,
        zone_named(zones[i].tz@) == Ok::<_, Seq<char>>(v[i].1),
{
}

/// The options of the kiosk that break a rule are named as the problem: those of the cameras where
/// one of them says nothing or two are the same, and that of the monitor where it says nothing or
/// would turn it on.
pub proof fn an_option_of_the_kiosk_is_named(cfg: Config)
    requires
        timezone_error(cfg.general.timezone@) is None,
        zones_error(cfg.clock.zones@) is None,
        sound_display(cfg),
    ensures
        ({
            let e = cfg.entities;
            let street = trimmed(e.kiosk_camera_street_option@);
            let gallery = trimmed(e.kiosk_camera_gallery_option@);
            let off = trimmed(e.kiosk_camera_off_option@);
            let all = street.len() > 0 && gallery.len() > 0 && off.len() > 0;
            let differ = street != gallery && street != off && gallery != off;
            let cameras = !blank(e.kiosk_camera@);
            &&& cameras && !all ==> cfg.problem() == Some(
                "entities.kiosk_camera_{street,gallery,off}_option must all name an option of "@
                    + debug_text(e.kiosk_camera@),
            )
            &&& cameras && all && !differ ==> cfg.problem() == Some(
                "entities.kiosk_camera_{street,gallery,off}_option must differ from each other, got "@
                    + debug_text(street) + ", "@ + debug_text(gallery) + ", "@ + debug_text(off),
            )
            &&& (!cameras || (all && differ)) && sound_polling(cfg) && !sound_kiosk(cfg)
                ==> cfg.problem() == Some(
                "entities.kiosk_display_off_option must be a select option other than \"on\" (standby, suspend or off), got "@
                    + debug_text(e.kiosk_display_off_option@),
            )
        }),
{
}

// ---------------- the weather in words ----------------

/// A condition is shown in the words that are configured for it, whatever it is; otherwise in the
/// words that there are for it, and an unknown one by its own name with blanks for dashes.
pub proof fn configured_words_come_first(
    labels: Map<Seq<char>, Seq<char>>,
    fr: bool,
    condition: Seq<char>,
)
    ensures
        labels.dom().contains(condition) ==> weather_text(labels, fr, condition)
            == labels[condition],
        !labels.dom().contains(condition) ==> {
            &&& condition_text(condition, fr) matches Some(t) ==> weather_text(labels, fr, condition)
                == t
            &&& condition_text(condition, fr) is None ==> weather_text(labels, fr, condition).len()
                == condition.len() && forall|i: int|
                0 <= i < condition.len() ==> #[trigger] weather_text(labels, fr, condition)[i]
                    == if condition[i] == '-' {
                    ' '
                } else {
                    condition[i]
                }
        },
{
}

/// The words for the conditions that Home Assistant has, in French and in English.
pub proof fn each_condition_has_its_words(fr: bool)
    ensures
        condition_text("sunny"@, fr) == Some(if fr { "Ensoleillé"@ } else { "Sunny"@ }),
        condition_text("clear-night"@, fr) == Some(if fr { "Ciel dégagé"@ } else { "Clear night"@ }),
        condition_text("partlycloudy"@, fr) == Some(
            if fr {
                "Partiellement nuageux"@
            } else {
                "Partly cloudy"@
            },
        ),
        condition_text("cloudy"@, fr) == Some(if fr { "Nuageux"@ } else { "Cloudy"@ }),
        condition_text("rainy"@, fr) == Some(if fr { "Pluie"@ } else { "Rain"@ }),
        condition_text("pouring"@, fr) == Some(if fr { "Forte pluie"@ } else { "Pouring"@ }),
        condition_text("snowy"@, fr) == Some(if fr { "Neige"@ } else { "Snow"@ }),
        condition_text("snowy-rainy"@, fr) == Some(
            if fr {
                "Neige et pluie"@
            } else {
                "Snow and rain"@
            },
        ),
        condition_text("fog"@, fr) == Some(if fr { "Brouillard"@ } else { "Fog"@ }),
        condition_text("hail"@, fr) == Some(if fr { "Grêle"@ } else { "Hail"@ }),
        condition_text("lightning"@, fr) == Some(if fr { "Orage"@ } else { "Lightning"@ }),
        condition_text("lightning-rainy"@, fr) == Some(
            if fr {
                "Orage et pluie"@
            } else {
                "Thunderstorm"@
            },
        ),
        condition_text("windy"@, fr) == Some(if fr { "Venteux"@ } else { "Windy"@ }),
        condition_text("windy-variant"@, fr) == Some(
            if fr {
                "Venteux et nuageux"@
            } else {
                "Windy and cloudy"@
            },
        ),
        condition_text("exceptional"@, fr) == Some(if fr { "Exceptionnel"@ } else { "Exceptional"@ }),
        condition_text("unavailable"@, fr) == Some(if fr { "Indisponible"@ } else { "Unavailable"@ }),
        condition_text("unknown"@, fr) == Some(if fr { "Inconnu"@ } else { "Unknown"@ }),
        condition_text(Seq::<char>::empty(), fr) == condition_text("unknown"@, fr),
{
    reveal_strlit("sunny");
    reveal_strlit("clear-night");
    reveal_strlit("partlycloudy");
    reveal_strlit("cloudy");
    reveal_strlit("rainy");
    reveal_strlit("pouring");
    reveal_strlit("snowy");
    reveal_strlit("snowy-rainy");
    reveal_strlit("fog");
    reveal_strlit("hail");
    reveal_strlit("lightning");
    reveal_strlit("lightning-rainy");
    reveal_strlit("windy");
    reveal_strlit("windy-variant");
    reveal_strlit("exceptional");
    reveal_strlit("unavailable");
    reveal_strlit("unknown");
    assert("sunny"@.len() == 5 && "clear-night"@.len() == 11 && "partlycloudy"@.len() == 12
        && "cloudy"@.len() == 6 && "rainy"@.len() == 5 && "pouring"@.len() == 7 && "snowy"@.len() == 5
        && "snowy-rainy"@.len() == 11 && "fog"@.len() == 3 && "hail"@.len() == 4
        && "lightning"@.len() == 9 && "lightning-rainy"@.len() == 15 && "windy"@.len() == 5
        && "windy-variant"@.len() == 13 && "exceptional"@.len() == 11 && "unavailable"@.len() == 11
        && "unknown"@.len() == 7);
    assert("sunny"@[1] == 'u' && "rainy"@[1] == 'a' && "snowy"@[1] == 'n' && "windy"@[1] == 'i');
    assert("clear-night"@[0] == 'c' && "snowy-rainy"@[0] == 's' && "exceptional"@[0] == 'e'
        && "unavailable"@[0] == 'u');
    assert("pouring"@[0] == 'p' && "unknown"@[0] == 'u');
}

// ---------------- addresses ----------------

proof fn lemma_scheme(scheme: Seq<char>, rest: Seq<char>)
    requires
        !scheme.contains(':'),
    ensures
        scheme_split(scheme + "://"@ + rest) == Some((scheme, rest)),
{
    lemma_scheme_at(scheme, rest);
    reveal_strlit("://");
    let s = scheme + "://"@ + rest;
    assert(s.take(scheme.len() as int) =~= scheme);
    assert(s.skip(scheme.len() as int + 3) =~= rest);
}

proof fn lemma_scheme_at(scheme: Seq<char>, rest: Seq<char>)
    requires
        !scheme.contains(':'),
    ensures
        scheme_end(scheme + "://"@ + rest) == scheme.len(),
    decreases scheme.len(),
{
    reveal_strlit("://");
    let s = scheme + "://"@ + rest;
    if scheme.len() == 0 {
        assert(s[0] == ':' && s[1] == '/' && s[2] == '/');
    } else {
        let t = scheme.drop_first();
        assert(scheme.contains(scheme[0]));
        assert(s[0] == scheme[0]);
        assert(s.drop_first() =~= t + "://"@ + rest);
        if t.contains(':') {
            let i = choose|i: int| 0 <= i < t.len() && t[i] == ':';
            assert(scheme[i + 1] == ':');
        }
        lemma_scheme_at(t, rest);
    }
}

proof fn lemma_no_scheme(s: Seq<char>)
    requires
        !s.contains('/'),
    ensures
        scheme_split(s) is None,
    decreases s.len(),
{
    if s.len() > 0 {
        let t = s.drop_first();
        if t.contains('/') {
            let i = choose|i: int| 0 <= i < t.len() && t[i] == '/';
            assert(s[i + 1] == '/');
        }
        if s.len() >= 3 {
            assert(s.contains(s[1]));
        }
        lemma_no_scheme(t);
    }
}

/// The address of a host alone is made the URL of its API: through TLS unless the scheme says `http`
/// or `ws`. The scheme may be left out, which asks for TLS.
pub proof fn a_host_is_asked_at_its_api(h: Seq<char>)
    requires
        h.len() > 0,
        !h.contains('/'),
    ensures
        websocket_url("https"@ + "://"@ + h) == "wss"@ + "://"@ + h + "/api/websocket"@,
        websocket_url("wss"@ + "://"@ + h) == "wss"@ + "://"@ + h + "/api/websocket"@,
        websocket_url("http"@ + "://"@ + h) == "ws"@ + "://"@ + h + "/api/websocket"@,
        websocket_url("ws"@ + "://"@ + h) == "ws"@ + "://"@ + h + "/api/websocket"@,
        websocket_url(h) == "wss"@ + "://"@ + h + "/api/websocket"@,
{
    lemma_schemes();
    assert(h.contains(h.last()));
    lemma_scheme("https"@, h);
    lemma_scheme("wss"@, h);
    lemma_scheme("http"@, h);
    lemma_scheme("ws"@, h);
    lemma_no_scheme(h);
    assert(("https"@ + "://"@ + h).last() == h.last());
    assert(("wss"@ + "://"@ + h).last() == h.last());
    assert(("http"@ + "://"@ + h).last() == h.last());
    assert(("ws"@ + "://"@ + h).last() == h.last());
}

/// An address that has a path keeps it as it is, whatever its scheme.
pub proof fn a_path_is_kept(rest: Seq<char>)
    requires
        rest.len() > 0,
        rest.contains('/'),
        rest.last() != '/',
    ensures
        websocket_url("https"@ + "://"@ + rest) == "wss"@ + "://"@ + rest,
        websocket_url("wss"@ + "://"@ + rest) == "wss"@ + "://"@ + rest,
        websocket_url("http"@ + "://"@ + rest) == "ws"@ + "://"@ + rest,
        websocket_url("ws"@ + "://"@ + rest) == "ws"@ + "://"@ + rest,
{
    lemma_schemes();
    lemma_scheme("https"@, rest);
    lemma_scheme("wss"@, rest);
    lemma_scheme("http"@, rest);
    lemma_scheme("ws"@, rest);
    assert(("https"@ + "://"@ + rest).last() == rest.last());
    assert(("wss"@ + "://"@ + rest).last() == rest.last());
    assert(("http"@ + "://"@ + rest).last() == rest.last());
    assert(("ws"@ + "://"@ + rest).last() == rest.last());
}

/// Slashes at the end of an address do not count.
pub proof fn slashes_at_the_end_do_not_count(address: Seq<char>)
    ensures
        websocket_url(address.push('/')) == websocket_url(address),
{
    stripping_takes_only_the_run(address, '/');
}

proof fn lemma_schemes()
    ensures
        !"https"@.contains(':'),
        !"wss"@.contains(':'),
        !"http"@.contains(':'),
        !"ws"@.contains(':'),
        "https"@ != "http"@,
        "https"@ != "ws"@,
        "wss"@ != "http"@,
        "wss"@ != "ws"@,
{
    reveal_strlit("https");
    reveal_strlit("wss");
    reveal_strlit("http");
    reveal_strlit("ws");
    assert("https"@.len() == 5 && "wss"@.len() == 3 && "http"@.len() == 4 && "ws"@.len() == 2);
}

/// A scheme other than the four that are known is warned about, and none of the four is.
pub proof fn an_odd_scheme_is_warned_about(scheme: Seq<char>, rest: Seq<char>)
    requires
        !scheme.contains(':'),
        rest.len() > 0,
        rest.last() != '/',
    ensures
        scheme_warning(scheme + "://"@ + rest) is None <==> scheme == "https"@ || scheme == "http"@
            || scheme == "wss"@ || scheme == "ws"@,
{
    lemma_scheme(scheme, rest);
    assert((scheme + "://"@ + rest).last() == rest.last());
}

/// A value of the environment says something where it is there and not blank, and then what it says
/// is the value without the white space around it.
pub proof fn a_blank_value_says_nothing(v: Seq<char>)
    ensures
        blank(v) ==> said(Some(v)) is None,
        !blank(v) ==> said(Some(v)) == Some(trimmed(v)),
        said(None) is None,
{
}

/// What the environment says of the endpoints is taken, and what it does not say is left as it is: a
/// URL as the API's, a host as it is said, a port where it is a number up to 65535.
pub proof fn the_environment_is_heard_where_it_says_something(
    value: Seq<char>,
    kept: Seq<char>,
    port: u16,
)
    ensures
        url_from(None, kept) == kept,
        host_from(None, kept) == kept,
        port_from(None, port) == port,
        blank(value) ==> url_from(Some(value), kept) == kept && host_from(Some(value), kept) == kept
            && port_from(Some(value), port) == port,
        !blank(value) ==> url_from(Some(value), kept) == websocket_url(trimmed(value)),
        !blank(value) ==> host_from(Some(value), kept) == trimmed(value),
        !blank(value) && parsed_unsigned(trimmed(value), 65535) is None ==> port_from(
            Some(value),
            port,
        ) == port,
        !blank(value) ==> (parsed_unsigned(trimmed(value), 65535) matches Some(n) ==> port_from(
            Some(value),
            port,
        ) == n),
{
}

/// A port that is said and is no number is warned about, with what was said and the port that is
/// kept; one that is left unsaid, or that is a number, is not. The scheme comes first.
pub proof fn a_port_that_is_none_is_warned_about(
    url: Option<Seq<char>>,
    port: Option<Seq<char>>,
    kept: u16,
)
    ensures
        ({
            let warnings = env_warnings(url, port, kept);
            let odd = if url matches Some(u) && !blank(u) && scheme_warning(trimmed(u)) is Some {
                1int
            } else {
                0int
            };
            let bad = port matches Some(p) && !blank(p) && parsed_unsigned(trimmed(p), 65535) is None;
            &&& warnings.len() == odd + if bad {
                1int
            } else {
                0int
            }
            &&& odd == 1 ==> Some(warnings[0]) == scheme_warning(trimmed(url->0))
            &&& bad ==> warnings.last() == "MQTT_PORT="@ + debug_text(port->0)
                + " is not a port number, keeping "@ + decimal(kept as nat)
        }),
{
}

/// Credentials are a user that has a name and a password, both as they are; without either there are
/// none.
pub proof fn credentials_take_a_user_and_a_password(u: Seq<char>, p: Seq<char>)
    ensures
        u.len() > 0 ==> credentials_of(Some(u), Some(p)) == Some((u, p)),
        u.len() == 0 ==> credentials_of(Some(u), Some(p)) is None,
        credentials_of(None, Some(p)) is None,
        credentials_of(Some(u), None) is None,
        credentials_of(None, None) is None,
{
}

// ---------------- the command line ----------------

/// Before any argument is read the configuration is where the environment says, or in its usual
/// place, and nothing else is asked for.
pub proof fn nothing_is_asked_for_at_first(place: Seq<char>)
    ensures
        no_args(Some(place)).config == place,
        no_args(None).config == "/etc/barclock.toml"@,
        !no_args(Some(place)).touch_test && !no_args(None).touch_test,
        no_args(Some(place)).preview is None && no_args(None).preview is None,
        no_args(Some(place)).preview_state == "normal"@ && no_args(None).preview_state == "normal"@,
{
}


/// Each option changes what it is for and leaves the rest to the arguments behind it; one that needs
/// a value and has none is refused; the version and the help are given whatever follows.
pub proof fn each_option_is_read_for_itself(args: Seq<Seq<char>>, value: Seq<char>, c: ArgsV)
    ensures
        cli_of(seq!["--config"@, value] + args, c) == cli_of(args, ArgsV { config: value, ..c }),
        cli_of(seq!["-c"@, value] + args, c) == cli_of(args, ArgsV { config: value, ..c }),
        cli_of(seq!["--touch-test"@] + args, c) == cli_of(args, ArgsV { touch_test: true, ..c }),
        cli_of(seq!["--preview"@, value] + args, c) == cli_of(
            args,
            ArgsV { preview: Some(value), ..c },
        ),
        cli_of(seq!["--preview-state"@, value] + args, c) == cli_of(
            args,
            ArgsV { preview_state: value, ..c },
        ),
        cli_of(seq!["--config"@], c) is Err,
        cli_of(seq!["--preview"@], c) is Err,
        cli_of(seq!["--preview-state"@], c) is Err,
        cli_of(seq!["--version"@] + args, c) == Ok::<InvocationV, Seq<char>>(InvocationV::Version),
        cli_of(seq!["-V"@] + args, c) == Ok::<InvocationV, Seq<char>>(InvocationV::Version),
        cli_of(seq!["--help"@] + args, c) == Ok::<InvocationV, Seq<char>>(InvocationV::Help),
        cli_of(seq!["-h"@] + args, c) == Ok::<InvocationV, Seq<char>>(InvocationV::Help),
{
    lemma_options();
    assert((seq!["--config"@, value] + args).skip(2) =~= args);
    assert((seq!["-c"@, value] + args).skip(2) =~= args);
    assert((seq!["--touch-test"@] + args).skip(1) =~= args);
    assert((seq!["--preview"@, value] + args).skip(2) =~= args);
    assert((seq!["--preview-state"@, value] + args).skip(2) =~= args);
}

/// An argument that is no option is refused.
pub proof fn no_other_argument_is_an_option(arg: Seq<char>, args: Seq<Seq<char>>, c: ArgsV)
    requires
        arg != "--config"@,
        arg != "-c"@,
        arg != "--touch-test"@,
        arg != "--preview"@,
        arg != "--preview-state"@,
        arg != "--version"@,
        arg != "-V"@,
        arg != "--help"@,
        arg != "-h"@,
    ensures
        cli_of(seq![arg] + args, c) is Err,
{
}

/// What has been read at the end of the arguments is what is run with: a picture is asked for with
/// the state that it shows, and where none is asked for the state makes no difference.
pub proof fn what_was_read_is_run(c: ArgsV)
    ensures
        cli_of(Seq::<Seq<char>>::empty(), c) matches Ok(InvocationV::Run(r)) && r.config == c.config
            && r.touch_test == c.touch_test && (c.preview matches Some(p) ==> r.preview == Some(
            (p, c.preview_state),
        )) && (c.preview is None ==> r.preview is None),
{
}

proof fn lemma_options()
    ensures
        "--config"@.len() == 8,
        "-c"@.len() == 2,
        "--touch-test"@.len() == 12,
        "--preview"@.len() == 9,
        "--preview-state"@.len() == 15,
        "--version"@.len() == 9,
        "-V"@.len() == 2,
        "--help"@.len() == 6,
        "-h"@.len() == 2,
        "--preview"@ != "--version"@,
        "-c"@ != "-V"@,
        "-c"@ != "-h"@,
        "-V"@ != "-h"@,
{
    reveal_strlit("--config");
    reveal_strlit("-c");
    reveal_strlit("--touch-test");
    reveal_strlit("--preview");
    reveal_strlit("--preview-state");
    reveal_strlit("--version");
    reveal_strlit("-V");
    reveal_strlit("--help");
    reveal_strlit("-h");
    assert("--preview"@[2] == 'p' && "--version"@[2] == 'v');
    assert("-c"@[1] == 'c' && "-V"@[1] == 'V' && "-h"@[1] == 'h');
}

// ---------------- watts ----------------

proof fn lemma_three(a: nat, r: nat)
    requires
        a > 0,
        r < 1000,
    ensures
        decimal((1000 * a + r) as nat) == decimal(a) + three(r),
{
    let n = (1000 * a + r) as nat;
    let n1 = n / 10;
    let n2 = n1 / 10;
    assert(n2 / 10 == a && n2 % 10 == r / 100 && n1 % 10 == (r / 10) % 10 && n % 10 == r % 10);
    assert(decimal(n2) == decimal(a).push(digit((r / 100) as int)));
    assert(decimal(n1) == decimal(n2).push(digit(((r / 10) % 10) as int)));
    assert(decimal(n) == decimal(n1).push(digit((r % 10) as int)));
    assert(decimal(n) =~= decimal(a) + three(r));
}

/// The text without its blanks.
pub open spec fn unspaced(s: Seq<char>) -> Seq<char>
    decreases s.len(),
{
    if s.len() == 0 {
        s
    } else if s.last() == ' ' {
        unspaced(s.drop_last())
    } else {
        unspaced(s.drop_last()).push(s.last())
    }
}

/// Characters that are no blanks stay behind the rest.
proof fn lemma_unspaced(head: Seq<char>, s: Seq<char>)
    requires
        forall|i: int| 0 <= i < s.len() ==> #[trigger] s[i] != ' ',
    ensures
        unspaced(head + s) == unspaced(head) + s,
    decreases s.len(),
{
    let all = head + s;
    if s.len() > 0 {
        let t = s.drop_last();
        assert forall|i: int| 0 <= i < t.len() implies #[trigger] t[i] != ' ' by {
            assert(t[i] == s[i]);
        }
        lemma_unspaced(head, t);
        assert(all.drop_last() =~= head + t);
        assert(all.last() == s[s.len() - 1]);
        assert(unspaced(all) =~= unspaced(head) + s);
    } else {
        assert(all =~= head);
        assert(unspaced(head) + s =~= unspaced(head));
    }
}

/// Watts are the digits of their number with blanks between them: one before each group of three,
/// counted from the end, and nowhere else.
pub proof fn watts_are_grouped_by_three(n: nat)
    ensures
        unspaced(grouped(n)) == decimal(n),
        grouped(n).len() > 0,
        forall|i: int|
            0 <= i < grouped(n).len() ==> ((#[trigger] grouped(n)[i]) == ' ' <==> (grouped(n).len()
                - i) % 4 == 0),
    decreases n,
{
    let s = grouped(n);
    lemma_decimal(n);
    let d = decimal(n);
    if n < 1000 {
        assert forall|i: int| 0 <= i < d.len() implies #[trigger] d[i] != ' ' by {
            assert(is_digit(d[i]));
        }
        let none = Seq::<char>::empty();
        lemma_unspaced(none, d);
        assert(none + d =~= d);
        assert(unspaced(none) + d =~= d);
        reveal_with_fuel(decimal, 4);
        assert(d.len() <= 3);
    } else {
        let a = n / 1000;
        let r = n % 1000;
        watts_are_grouped_by_three(a);
        lemma_three(a, r);
        let head = grouped(a);
        let tail = three(r);
        assert forall|i: int| 0 <= i < tail.len() implies #[trigger] tail[i] != ' ' by {
            assert(is_digit(tail[i]));
        }
        let gapped = head + seq![' '];
        lemma_unspaced(gapped, tail);
        assert(gapped.drop_last() =~= head);
        assert(unspaced(gapped) == unspaced(head));
        assert(s.len() == head.len() + 4);
        assert forall|i: int| 0 <= i < s.len() implies ((#[trigger] s[i]) == ' ' <==> (s.len() - i)
            % 4 == 0) by {
            if i < head.len() {
                assert(s[i] == head[i]);
            } else if i > head.len() {
                assert(s[i] == tail[i - head.len() - 1]);
            }
        }
    }
}

/// A number of watts is shown by its grouped digits, behind a minus sign where it is negative, with
/// the unit at the end.
pub proof fn watts_show_their_sign_and_unit(n: i64)
    ensures
        n >= 0 ==> watts_text(n) == grouped(n as nat) + " W"@,
        n < 0 ==> watts_text(n) == seq!['-'] + grouped((-n) as nat) + " W"@,
{
}

// ---------------- the panel ----------------

/// The hardware's level is the nearest to the same share of its range, and never below one; a
/// brighter light is never darker on the hardware.
pub proof fn the_hardware_level_is_the_nearest(level: u8, brighter: u8, max: u32)
    requires
        1 <= level <= brighter,
        max >= 1,
    ensures
        ({
            let h = hardware_level(level, max);
            &&& h >= 1
            &&& h > 1 ==> -255 <= 510 * h - 2 * (level * max) <= 255
            &&& h == 1 ==> 2 * (level * max) < 510 + 255
            &&& h <= hardware_level(brighter, max)
        }),
{
    let x = 2 * level * max;
    assert(x == 2 * (level * max)) by (nonlinear_arith)
        requires
            x == 2 * level * max,
    ;
    let y = 2 * brighter * max;
    assert(x <= y) by (nonlinear_arith)
        requires
            x == 2 * level * max,
            y == 2 * brighter * max,
            level <= brighter,
            max >= 1,
    ;
}

/// A level of zero turns the backlight off, at its power switch too where there is one; any other
/// turns it on at the hardware's level. The power comes first.
pub proof fn a_backlight_is_turned_off_by_zero(level: u8, max: u32)
    ensures
        backlight_writes(0, max, true) == seq![("bl_power"@, "4"@), ("brightness"@, "0"@)],
        backlight_writes(0, max, false) == seq![("brightness"@, "0"@)],
        level > 0 ==> backlight_writes(level, max, true) == seq![
            ("bl_power"@, "0"@),
            ("brightness"@, decimal(hardware_level(level, max) as nat)),
        ],
        level > 0 ==> backlight_writes(level, max, false) == seq![
            ("brightness"@, decimal(hardware_level(level, max) as nat)),
        ],
{
}

/// The property is called `DPMS`.
pub open spec fn called_dpms(p: Property) -> bool {
    p.name matches Some(n) && n@ == "DPMS"@
}

/// The power switch of a connector is its first property with that name.
pub proof fn the_first_power_switch_counts(props: Seq<Property>)
    ensures
        0 <= dpms_place(props) <= props.len(),
        dpms_place(props) < props.len() ==> called_dpms(props[dpms_place(props)]),
        forall|j: int| 0 <= j < dpms_place(props) ==> !called_dpms(#[trigger] props[j]),
    decreases props.len(),
{
    if props.len() > 0 && !called_dpms(props[0]) {
        let rest = props.drop_first();
        the_first_power_switch_counts(rest);
        assert forall|j: int| 0 <= j < dpms_place(props) implies !called_dpms(
            #[trigger] props[j],
        ) by {
            if j > 0 {
                assert(props[j] == rest[j - 1]);
            }
        }
    }
}

/// The connector has a display on it, and a power switch among its properties.
pub open spec fn can_be_switched(c: Connector) -> bool {
    c.connected && exists|i: int|
        0 <= i < c.properties@.len() && called_dpms(#[trigger] c.properties@[i])
}

proof fn lemma_switchable(c: Connector)
    ensures
        switchable(c) <==> can_be_switched(c),
{
    the_first_power_switch_counts(c.properties@);
    let n = dpms_place(c.properties@);
    if n < c.properties@.len() {
        assert(called_dpms(c.properties@[n]));
    }
}

/// The panel is that of the first connector that has a display on it and a power switch.
pub proof fn the_first_panel_that_can_be_switched_counts(cs: Seq<Connector>)
    ensures
        0 <= switchable_place(cs) <= cs.len(),
        switchable_place(cs) < cs.len() ==> can_be_switched(cs[switchable_place(cs)]),
        forall|j: int| 0 <= j < switchable_place(cs) ==> !can_be_switched(#[trigger] cs[j]),
    decreases cs.len(),
{
    if cs.len() > 0 {
        lemma_switchable(cs[0]);
        if !switchable(cs[0]) {
            let rest = cs.drop_first();
            the_first_panel_that_can_be_switched_counts(rest);
            assert forall|j: int| 0 <= j < switchable_place(cs) implies !can_be_switched(
                #[trigger] cs[j],
            ) by {
                if j > 0 {
                    assert(cs[j] == rest[j - 1]);
                }
            }
        }
    }
}

/// The panel is asked for what it is not, and for nothing where it is that already: 0 turns it on, 3
/// turns it off, and 0 is what it says while it is on.
pub proof fn the_panel_is_asked_for_what_it_is_not(on: bool, value: u64)
    ensures
        power_request(on, on) is None,
        power_request(false, true) == Some(0u64),
        power_request(true, false) == Some(3u64),
        powered(value) <==> value == 0,
        powered(power_request(false, true)->0),
        !powered(power_request(true, false)->0),
{
}

/// A display is attached where some connector says so, white space aside.
pub proof fn a_display_is_attached_where_one_says_so(statuses: Seq<Seq<char>>, i: int)
    ensures
        0 <= i < statuses.len() && trimmed(statuses[i]) == "connected"@ ==> attached(statuses),
        (forall|k: int|
            0 <= k < statuses.len() ==> trimmed(#[trigger] statuses[k]) != "connected"@)
            ==> !attached(statuses),
{
}

/// A display that is there from the start is not waited for, one that comes later is given a moment,
/// and one that does not come is asked for every half minute.
pub proof fn a_display_is_waited_for(waited: u64)
    ensures
        wait_for(true, 0) == DisplayWait::Ready,
        waited > 0 ==> wait_for(true, waited) == DisplayWait::Settle,
        waited % 30 == 0 ==> wait_for(false, waited) == (DisplayWait::Wait { warn: true }),
        waited % 30 != 0 ==> wait_for(false, waited) == (DisplayWait::Wait { warn: false }),
{
}

/// The clock is synchronized where the kernel answers, with anything but an error, and does not say
/// that it is not; where it does not answer the marker decides.
pub proof fn the_kernel_says_whether_the_clock_is_right(rc: i32, status: i32, marker: bool)
    ensures
        rc < 0 ==> synchronized(rc, status, marker) == marker,
        rc == 5 ==> !synchronized(rc, status, marker),
        rc >= 0 && rc != 5 ==> (synchronized(rc, status, marker) <==> (status & 0x40) == 0),
{
}

/// A connector is named by its interface and its number.
pub proof fn a_connector_is_named_by_its_number(c: Connector)
    ensures
        connector_text(c) == c.interface@ + "-"@ + decimal(c.interface_id as nat),
{
}

/// The first of the names comes before every other.
pub proof fn the_first_name_comes_before_the_others(names: Seq<Seq<char>>, i: int, k: int)
    requires
        is_first(names, i),
        0 <= k < names.len(),
    ensures
        names[k] == names[i] || before(names[i], names[k]),
{
    lemma_before_total(names[i], names[k]);
}

/// A light is remembered by a word for on or off and a brightness from 1 to 255 behind it, and by
/// nothing else.
pub proof fn a_light_is_remembered_by_two_words(t: Seq<char>)
    ensures
        match remembered(t) {
            Some(l) => {
                &&& words(t).len() >= 2
                &&& words(t)[0] == if l.on {
                    "on"@
                } else {
                    "off"@
                }
                &&& parsed_unsigned(words(t)[1], 255) == Some(l.brightness as nat)
                &&& l.brightness >= 1
            },
            None => words(t).len() < 2 || (words(t)[0] != "on"@ && words(t)[0] != "off"@)
                || parsed_unsigned(words(t)[1], 255) is None || parsed_unsigned(words(t)[1], 255)
                == Some(0nat),
        },
{
    reveal_strlit("on");
    reveal_strlit("off");
    assert("on"@.len() != "off"@.len());
}

// ---------------- the sample window ----------------

/// The zones of the sample stand under their labels in capitals, with their hours and minutes.
pub proof fn the_zones_of_the_sample(zones: Seq<(Seq<char>, Civil)>, i: int)
    requires
        0 <= i < zones.len(),
    ensures
        sample_rows(zones).len() == zones.len(),
        sample_rows(zones)[i] == (upper_text(zones[i].0), short_time(zones[i].1)),
{
}

/// A pose of the sample window that is about the printer changes the printer and nothing else.
pub proof fn a_printer_pose_changes_the_printer(cfg: Config, w: WindowV)
    ensures
        ({
            let paused = posed(cfg, w, "paused"@);
            let failed = posed(cfg, w, "error"@);
            let idle = posed(cfg, w, "idle"@);
            &&& paused == (WindowV { printer: paused.printer, ..w })
            &&& failed == (WindowV { printer: failed.printer, ..w })
            &&& idle == (WindowV { printer: idle.printer, ..w })
            &&& paused.printer.mode == "paused"@ && paused.printer.active
            &&& failed.printer.mode == "error"@ && !failed.printer.active
            &&& idle.printer.mode == "idle"@ && !idle.printer.active
            &&& paused.printer.status == status_label(PrinterStatus::Paused, cfg.french())
            &&& failed.printer.status == status_label(PrinterStatus::Error, cfg.french())
            &&& idle.printer.status == status_label(PrinterStatus::Idle, cfg.french())
        }),
{
    lemma_poses();
}

/// The other poses: waiting for the link, a toast, the test of the touch panel. Any other name leaves
/// the sample as it is.
pub proof fn a_pose_changes_what_it_is_about(cfg: Config, w: WindowV, state: Seq<char>)
    ensures
        ({
            let waiting = posed(cfg, w, "connecting"@);
            let told = posed(cfg, w, "toast"@);
            let tested = posed(cfg, w, "touchtest"@);
            &&& waiting.connecting && !waiting.ha_online && waiting.weather == w.weather
                && waiting.printer == w.printer
            &&& told == (WindowV { toast_text: told.toast_text, toast_visible: true, ..w })
            &&& tested == (WindowV { touch_test: true, ..w })
            &&& state != "connecting"@ && state != "busy"@ && state != "paused"@ && state != "error"@
                && state != "idle"@ && state != "toast"@ && state != "touchtest"@ ==> posed(
                cfg,
                w,
                state,
            ) == w
        }),
{
    lemma_poses();
}

proof fn lemma_poses()
    ensures
        "connecting"@.len() == 10,
        "busy"@.len() == 4,
        "paused"@.len() == 6,
        "error"@.len() == 5,
        "idle"@.len() == 4,
        "toast"@.len() == 5,
        "touchtest"@.len() == 9,
        "busy"@ != "idle"@,
        "error"@ != "toast"@,
{
    reveal_strlit("connecting");
    reveal_strlit("busy");
    reveal_strlit("paused");
    reveal_strlit("error");
    reveal_strlit("idle");
    reveal_strlit("toast");
    reveal_strlit("touchtest");
    assert("busy"@[0] == 'b' && "idle"@[0] == 'i');
    assert("error"@[0] == 'e' && "toast"@[0] == 't');
}

} // verus!
