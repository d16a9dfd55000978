//! What holds of the panes: what each of them shows of the entities that it is about.
use vstd::prelude::*;
use crate::cli::{printer_status_of, watts_text};
use crate::config::{status_key, status_label, weather_text, Config, PrinterStatus};
use crate::json::JsonV;
use crate::number::{above, QuantityV, Reading};
use crate::screen::{
    active_preset, camera_of, fan_of, indoor_of, key_pending, light_percent, lights_of, loads_of,
    matching_preset, mode_of, pending_preset, power_text, printer_doing, printer_of, toggle_of,
    weather_of, EntitiesV, InflightV, MeasuredV, PendingKey, ToggleKey,
};
use crate::text::{blank, same_folded, signed_decimal, trimmed, upper_text};
use crate::types::available;

verus! {

// ---------------- entities ----------------

/// The entity is configured and known, and its state says something.
pub open spec fn tells(es: EntitiesV, id: Seq<char>) -> bool {
    !blank(id) && es.dom().contains(id) && available(es[id].entity.state)
}

/// The entity is configured and known, and this is its state.
pub open spec fn tells_that(es: EntitiesV, id: Seq<char>, state: Seq<char>) -> bool {
    tells(es, id) && es[id].entity.state == state
}

/// The number that the state of a configured entity is.
pub open spec fn measures(es: EntitiesV, id: Seq<char>) -> Option<QuantityV> {
    if !blank(id) && es.dom().contains(id) {
        es[id].figures.state
    } else {
        None
    }
}

/// A state says something unless it is empty, `unavailable` or `unknown`.
pub proof fn three_states_say_nothing(state: Seq<char>)
    ensures
        !available("unavailable"@),
        !available("unknown"@),
        !available(Seq::<char>::empty()),
        state.len() > 0 && state != "unavailable"@ && state != "unknown"@ ==> available(state),
{
}

// ---------------- the printer ----------------

/// A printer whose switch says anything but on is off, whatever its other entities still say; one
/// whose switch says on never is.
pub proof fn a_printer_without_power_is_off(cfg: Config, es: EntitiesV)
    ensures
        tells(es, cfg.entities.printer_power@) && !tells_that(
            es,
            cfg.entities.printer_power@,
            "on"@,
        ) ==> printer_doing(cfg, es) == PrinterStatus::Off,
        tells_that(es, cfg.entities.printer_power@, "on"@) ==> printer_doing(cfg, es)
            != PrinterStatus::Off,
{
}

/// Klipper's own state counts before the state of the print. Shut down, or in error, it is an error
/// while the switch says on, whatever the print is still said to do. Where the switch says nothing,
/// an error stays one, and a shutdown is taken for a printer that is off.
pub proof fn klipper_counts_before_the_print(cfg: Config, es: EntitiesV)
    ensures
        ({
            let e = cfg.entities;
            let status = printer_doing(cfg, es);
            let shut = tells_that(es, e.printer_klipper_state@, "shutdown"@);
            let failed = tells_that(es, e.printer_klipper_state@, "error"@);
            &&& tells_that(es, e.printer_power@, "on"@) && (shut || failed) ==> status
                == PrinterStatus::Error
            &&& !tells(es, e.printer_power@) && failed ==> status == PrinterStatus::Error
            &&& !tells(es, e.printer_power@) && shut ==> status == PrinterStatus::Off
        }),
{
    reveal_strlit("shutdown");
    reveal_strlit("error");
    assert("shutdown"@.len() != "error"@.len());
}

/// The printer may be printing: it is not switched off, and Klipper is neither shut down nor in
/// error.
pub open spec fn may_print(cfg: Config, es: EntitiesV) -> bool {
    let e = cfg.entities;
    &&& tells(es, e.printer_power@) ==> tells_that(es, e.printer_power@, "on"@)
    &&& !tells_that(es, e.printer_klipper_state@, "shutdown"@)
    &&& !tells_that(es, e.printer_klipper_state@, "error"@)
}

/// A printer that may be printing does what its print state says: it prints, pauses or is in error
/// where that is what the state says, and is idle in any other.
pub proof fn the_print_state_says_what_is_done(cfg: Config, es: EntitiesV)
    requires
        may_print(cfg, es),
        tells(es, cfg.entities.printer_print_state@),
    ensures
        ({
            let status = printer_doing(cfg, es);
            let print = es[cfg.entities.printer_print_state@].entity.state;
            &&& print == "printing"@ <==> status == PrinterStatus::Printing
            &&& print == "paused"@ <==> status == PrinterStatus::Paused
            &&& print == "error"@ <==> status == PrinterStatus::Error
            &&& print != "printing"@ && print != "paused"@ && print != "error"@ ==> status
                == PrinterStatus::Idle
        }),
{
    reveal_strlit("printing");
    reveal_strlit("paused");
    reveal_strlit("error");
    assert("printing"@.len() == 8 && "paused"@.len() == 6 && "error"@.len() == 5);
}

/// A quantity above zero.
pub open spec fn positive(q: Option<QuantityV>) -> bool {
    q matches Some(x) && above(x.value, Reading { bits: 0 })
}

/// Without a print state a print is told from its progress and the time that is left for it: both
/// above zero. Where nothing at all is told of the printer, what it does is unknown.
pub proof fn a_print_is_told_from_progress_and_time(cfg: Config, es: EntitiesV)
    requires
        may_print(cfg, es),
        !tells(es, cfg.entities.printer_print_state@),
    ensures
        ({
            let e = cfg.entities;
            let status = printer_doing(cfg, es);
            let told = tells(es, e.printer_power@) || tells(es, e.printer_klipper_state@) || tells(
                es,
                e.printer_progress@,
            ) || tells(es, e.printer_time_left@);
            let prints = positive(measures(es, e.printer_progress@)) && positive(
                measures(es, e.printer_time_left@),
            );
            &&& !told ==> status == PrinterStatus::Unknown
            &&& told && prints ==> status == PrinterStatus::Printing
            &&& told && !prints ==> status == PrinterStatus::Idle
        }),
{
}

/// What is made of the printer's readings, whatever entities they come from: no power is off, a
/// shutdown without known power is off, nothing told is unknown, Klipper's troubles are an error,
/// and then the print state decides, or the progress and the time that is left.
pub proof fn the_readings_of_the_printer_are_weighed(
    power: Option<bool>,
    klipper: Option<Seq<char>>,
    print: Option<Seq<char>>,
    progress: Option<Reading>,
    hours: Option<Reading>,
    any: bool,
)
    ensures
        ({
            let status = printer_status_of(power, klipper, print, progress, hours, any);
            let shut = klipper == Some("shutdown"@);
            let failed = klipper == Some("error"@);
            let off = power == Some(false) || (power is None && shut);
            let prints = (progress matches Some(p) && above(p, Reading { bits: 0 })) && (
            hours matches Some(h) && above(h, Reading { bits: 0 }));
            &&& status == PrinterStatus::Off <==> off
            &&& status == PrinterStatus::Unknown <==> !off && !any
            &&& !off && any && (shut || failed) ==> status == PrinterStatus::Error
            &&& !off && any && !shut && !failed ==> {
                &&& print == Some("printing"@) ==> status == PrinterStatus::Printing
                &&& print == Some("paused"@) ==> status == PrinterStatus::Paused
                &&& print == Some("error"@) ==> status == PrinterStatus::Error
                &&& print == Some("standby"@) ==> status == PrinterStatus::Idle
                &&& print == Some("complete"@) ==> status == PrinterStatus::Idle
                &&& print == Some("cancelled"@) ==> status == PrinterStatus::Idle
                &&& print is None && prints ==> status == PrinterStatus::Printing
                &&& print is None && !prints ==> status == PrinterStatus::Idle
            }
        }),
{
    reveal_strlit("printing");
    reveal_strlit("paused");
    reveal_strlit("error");
    reveal_strlit("standby");
    reveal_strlit("complete");
    reveal_strlit("cancelled");
    reveal_strlit("shutdown");
    assert("printing"@.len() == 8 && "paused"@.len() == 6 && "error"@.len() == 5 && "standby"@.len()
        == 7 && "complete"@.len() == 8 && "cancelled"@.len() == 9 && "shutdown"@.len() == 8);
    assert("complete"@[0] != "printing"@[0]);
    assert(power is Some ==> power == Some(true) || power == Some(false)) by {
        if let Some(b) = power {
            assert(b || !b);
        }
    }
}

/// The pane shows the status in words and by the key of its colours, is active while a print is
/// under way or paused, and shows the progress in percent and the time that is left in minutes as
/// far as they are measured.
pub proof fn the_printer_pane_shows_what_it_does(cfg: Config, es: EntitiesV)
    ensures
        ({
            let pane = printer_of(cfg, es);
            let status = printer_doing(cfg, es);
            &&& pane.active <==> status == PrinterStatus::Printing || status == PrinterStatus::Paused
            &&& pane.mode == status_key(status)
            &&& pane.status == status_label(status, cfg.general.language@ == "fr"@)
            &&& measures(es, cfg.entities.printer_progress@) matches Some(q) ==> pane.progress
                == signed_decimal(q.rounded as int) + " %"@
            &&& measures(es, cfg.entities.printer_progress@) is None ==> pane.progress.len() == 0
            &&& measures(es, cfg.entities.printer_time_left@) matches Some(q) ==> pane.time_left
                == signed_decimal(q.minutes as int) + " min"@
            &&& measures(es, cfg.entities.printer_time_left@) is None ==> pane.time_left.len() == 0
        }),
{
}

/// What is known of the printer comes from its own five entities and no other.
pub proof fn only_its_own_entities_count_for_the_printer(cfg: Config, a: EntitiesV, b: EntitiesV)
    requires
        same_at(a, b, cfg.entities.printer_power@),
        same_at(a, b, cfg.entities.printer_klipper_state@),
        same_at(a, b, cfg.entities.printer_print_state@),
        same_at(a, b, cfg.entities.printer_progress@),
        same_at(a, b, cfg.entities.printer_time_left@),
    ensures
        printer_of(cfg, a) == printer_of(cfg, b),
{
}

/// The same is known of this entity.
pub open spec fn same_at(a: EntitiesV, b: EntitiesV, id: Seq<char>) -> bool {
    (a.dom().contains(id) <==> b.dom().contains(id)) && (a.dom().contains(id) ==> a[id] == b[id])
}

/// The keys of the colours.
pub proof fn each_status_has_its_key(s: PrinterStatus)
    ensures
        s == PrinterStatus::Printing ==> status_key(s) == "printing"@,
        s == PrinterStatus::Paused ==> status_key(s) == "paused"@,
        s == PrinterStatus::Error ==> status_key(s) == "error"@,
        s == PrinterStatus::Idle ==> status_key(s) == "idle"@,
        s == PrinterStatus::Off || s == PrinterStatus::Unknown ==> status_key(s) == "off"@,
{
}

/// The words for a status, in French and in English.
pub proof fn each_status_has_its_words(fr: bool)
    ensures
        status_label(PrinterStatus::Printing, fr) == if fr { "IMPRESSION"@ } else { "PRINTING"@ },
        status_label(PrinterStatus::Paused, fr) == if fr { "EN PAUSE"@ } else { "PAUSED"@ },
        status_label(PrinterStatus::Error, fr) == if fr { "ERREUR"@ } else { "ERROR"@ },
        status_label(PrinterStatus::Idle, fr) == if fr { "INACTIVE"@ } else { "IDLE"@ },
        status_label(PrinterStatus::Off, fr) == "OFF"@,
        status_label(PrinterStatus::Unknown, fr) == "—"@,
{
}

// ---------------- power ----------------

/// A power is shown in whole watts, and by a dash where it is not measured.
pub proof fn a_power_is_shown_in_watts(q: QuantityV)
    ensures
        power_text(Some(q)) == watts_text(q.rounded),
        power_text(None) == "— W"@,
{
}

/// The column of a load is about its own entity: lit where it draws more than its threshold, with
/// the watts that it draws, there where its state says something, and hidden where it is not
/// configured.
pub open spec fn column_is_about(
    on: bool,
    is_there: bool,
    configured: bool,
    power: Seq<char>,
    es: EntitiesV,
    id: Seq<char>,
    threshold: Reading,
) -> bool {
    &&& on <==> (measures(es, id) matches Some(q) && above(q.value, threshold))
    &&& is_there <==> tells(es, id)
    &&& configured <==> !blank(id)
    &&& measures(es, id) matches Some(q) ==> power == watts_text(q.rounded)
    &&& configured && measures(es, id) is None ==> power == "—"@
    &&& !configured ==> power.len() == 0
}

/// Each load has its own entity and its own threshold.
pub proof fn each_load_is_about_its_own_entity(cfg: Config, car_w: Reading, es: EntitiesV)
    ensures
        ({
            let l = loads_of(cfg, car_w, es);
            let e = cfg.entities;
            let t = cfg.thresholds;
            &&& column_is_about(
                l.stove.on,
                l.stove.available,
                l.stove.configured,
                l.stove.power,
                es,
                e.stove_power@,
                t.stove_flame_w,
            )
            &&& column_is_about(
                l.water_heater.on,
                l.water_heater.available,
                l.water_heater.configured,
                l.water_heater.power,
                es,
                e.water_heater_power@,
                t.water_heater_w,
            )
            &&& column_is_about(
                l.washer.on,
                l.washer.available,
                l.washer.configured,
                l.washer.power,
                es,
                e.washer_power@,
                t.washer_w,
            )
            &&& column_is_about(
                l.dryer.on,
                l.dryer.available,
                l.dryer.configured,
                l.dryer.power,
                es,
                e.dryer_power@,
                t.dryer_w,
            )
            &&& l.stove.badge.len() == 0
            &&& l.water_heater.badge.len() == 0
            &&& l.washer.badge.len() == 0
            &&& l.dryer.badge.len() == 0
        }),
{
}

/// The car is measured in kilowatts: it is lit, and shown, by a thousand times what it measures. Its
/// battery level stands beside it, in percent, where the battery tells one.
pub proof fn the_car_is_measured_in_kilowatts(cfg: Config, car_w: Reading, es: EntitiesV)
    ensures
        ({
            let car = loads_of(cfg, car_w, es).car;
            let id = cfg.entities.car_charge_power@;
            let battery = cfg.entities.car_battery@;
            &&& car.on <==> (measures(es, id) matches Some(q) && above(q.thousandfold, car_w))
            &&& car.available <==> tells(es, id)
            &&& car.configured <==> !blank(id)
            &&& measures(es, id) matches Some(q) ==> car.power == watts_text(q.thousandfold_rounded)
            &&& car.configured && measures(es, id) is None ==> car.power == "—"@
            &&& !car.configured ==> car.power.len() == 0
            &&& tells(es, battery) ==> (measures(es, battery) matches Some(q) ==> car.badge
                == q.percent_tenths + " %"@)
            &&& !tells(es, battery) || measures(es, battery) is None ==> car.badge.len() == 0
        }),
{
}

// ---------------- weather ----------------

/// A measure, or a dash.
pub open spec fn or_dash(q: Option<QuantityV>, text: spec_fn(QuantityV) -> Seq<char>) -> Seq<char> {
    match q {
        Some(q) => text(q),
        None => "—"@,
    }
}

/// The weather is that of its entity: the temperature with one decimal, the humidity and the wind in
/// whole numbers, in this order, and the condition by its icon and in words. Where the entity says
/// nothing, neither does the pane.
pub proof fn the_weather_is_that_of_its_entity(cfg: Config, m: MeasuredV)
    ensures
        ({
            let pane = weather_of(cfg, Some(m));
            let whole = |q: QuantityV| signed_decimal(q.rounded as int);
            &&& available(m.entity.state) ==> {
                &&& pane.line == or_dash(m.figures.temperature, |q: QuantityV| q.tenths) + " °C   "@
                    + or_dash(m.figures.humidity, whole) + " %   "@ + or_dash(
                    m.figures.wind_speed,
                    whole,
                ) + " km/h"@
                &&& pane.icon == m.entity.state
                &&& pane.condition == weather_text(
                    cfg.weather_labels@,
                    cfg.general.language@ == "fr"@,
                    m.entity.state,
                )
            }
            &&& !available(m.entity.state) ==> {
                &&& pane.line == weather_of(cfg, None).line
                &&& pane.icon.len() == 0
                &&& pane.condition == weather_of(cfg, None).condition
            }
            &&& m.entity.attributes.dom().contains("friendly_name"@) ==> (
            m.entity.attributes["friendly_name"@] matches JsonV::Text(n) ==> pane.place == upper_text(n))
            &&& !m.entity.attributes.dom().contains("friendly_name"@) ==> pane.place.len() == 0
        }),
        weather_of(cfg, None).line == "— °C   — %   — km/h"@,
        weather_of(cfg, None).icon.len() == 0,
        weather_of(cfg, None).condition == weather_text(
            cfg.weather_labels@,
            cfg.general.language@ == "fr"@,
            "unavailable"@,
        ),
{
}

/// The indoor line shows the temperature with one decimal and the humidity in whole percent, each
/// from its own entity while that says something, and a dash while it does not.
pub proof fn the_indoor_line_shows_both(cfg: Config, es: EntitiesV)
    ensures
        ({
            let t = cfg.entities.office_temperature@;
            let h = cfg.entities.office_humidity@;
            let tq = if tells(es, t) {
                measures(es, t)
            } else {
                None
            };
            let hq = if tells(es, h) {
                measures(es, h)
            } else {
                None
            };
            indoor_of(cfg, es) == or_dash(tq, |q: QuantityV| q.tenths + " °C"@) + "   "@ + or_dash(
                hq,
                |q: QuantityV| signed_decimal(q.rounded as int) + " %"@,
            )
        }),
{
}

// ---------------- lights ----------------

/// A light that is on shows how bright it is, in percent; one that is not, or that does not say how
/// bright it is, is off.
pub proof fn a_light_shows_how_bright_it_is(m: MeasuredV)
    ensures
        m.entity.state == "on"@ ==> (m.figures.brightness matches Some(b) ==> light_percent(Some(m))
            == signed_decimal(b.percent as int) + " %"@),
        m.entity.state != "on"@ || m.figures.brightness is None ==> light_percent(Some(m))
            == "OFF"@,
        light_percent(None) == "OFF"@,
{
}

/// Each light has its own button and its own share of the summary.
pub proof fn each_light_has_its_own_button(cfg: Config, es: EntitiesV, v: Seq<InflightV>)
    ensures
        ({
            let lights = lights_of(cfg, es, v);
            let c = cfg.entities.light_ceiling@;
            let m = cfg.entities.light_monitor@;
            let of = |id: Seq<char>|
                if es.dom().contains(id) {
                    light_percent(Some(es[id]))
                } else {
                    light_percent(None)
                };
            &&& lights.ceiling == toggle_of(es, v, c, ToggleKey::Ceiling)
            &&& lights.monitor == toggle_of(es, v, m, ToggleKey::Monitor)
            &&& lights.summary == "PLAFONNIER "@ + of(c) + " · ÉCRAN "@ + of(m)
        }),
{
}

/// The number lies within these bounds.
pub open spec fn within(r: Reading, low: u64, high: u64) -> bool {
    low <= r.bits <= high
}

/// The preset that two lights match: all the way up from 252 of 255 each, half within 3 of 127 each,
/// dimmed with the ceiling at 3 or less and the monitor within 3 of 84, off where neither is on.
/// Where one is on and the other is not, or one of them says nothing, they match none.
pub proof fn lights_match_the_preset_they_are_at(
    c_on: bool,
    c: Reading,
    m_on: bool,
    m: Reading,
)
    requires
        c.bits <= 0x7ff0_0000_0000_0000,
        m.bits <= 0x7ff0_0000_0000_0000,
    ensures
        ({
            let preset = matching_preset(Some((c_on, c)), Some((m_on, m)));
            let full = c.bits >= 0x406f_8000_0000_0000 && m.bits >= 0x406f_8000_0000_0000;
            let half = within(c, 0x405f_0000_0000_0000, 0x4060_4000_0000_0000) && within(
                m,
                0x405f_0000_0000_0000,
                0x4060_4000_0000_0000,
            );
            let dimmed = c.bits <= 0x4008_0000_0000_0000 && within(
                m,
                0x4054_4000_0000_0000,
                0x4055_c000_0000_0000,
            );
            &&& preset == 3 <==> !c_on && !m_on
            &&& preset == 2 <==> c_on && m_on && full
            &&& preset == 1 <==> c_on && m_on && half
            &&& preset == 0 <==> c_on && m_on && dimmed
            &&& -1 <= preset <= 3
        }),
        matching_preset(None, Some((m_on, m))) == -1,
        matching_preset(Some((c_on, c)), None) == -1,
        matching_preset(None, None) == -1,
{
}

/// The preset shown is the one that the two configured lights match: whether each is on, and how
/// bright, nothing being as dark as can be.
pub proof fn the_preset_shown_is_that_of_the_two_lights(cfg: Config, es: EntitiesV)
    ensures
        ({
            let lamp = |id: Seq<char>|
                if es.dom().contains(id) && available(es[id].entity.state) {
                    Some(
                        (
                            es[id].entity.state == "on"@,
                            match es[id].figures.brightness {
                                Some(b) => b.value,
                                None => Reading { bits: 0 },
                            },
                        ),
                    )
                } else {
                    None
                };
            active_preset(cfg, es) == matching_preset(
                lamp(cfg.entities.light_ceiling@),
                lamp(cfg.entities.light_monitor@),
            )
        }),
{
}

// ---------------- buttons ----------------

/// A button is lit while its entity is on, there while its entity says something, and waits while a
/// call of its own is under way, or a preset that is about its entity.
pub proof fn a_button_shows_its_entity(
    es: EntitiesV,
    v: Seq<InflightV>,
    id: Seq<char>,
    key: ToggleKey,
)
    ensures
        ({
            let t = toggle_of(es, v, id, key);
            &&& t.on <==> es.dom().contains(id) && es[id].entity.state == "on"@
            &&& t.available <==> es.dom().contains(id) && available(es[id].entity.state)
            &&& t.pending <==> exists|i: int|
                0 <= i < v.len() && ((#[trigger] v[i]).key == PendingKey::Toggle(key) || (
                v[i].key is Preset && v[i].entities.contains(id)))
        }),
{
    let t = toggle_of(es, v, id, key);
    if t.pending {
        if key_pending(v, PendingKey::Toggle(key)) {
            let i = choose|i: int|
                0 <= i < v.len() && (#[trigger] v[i]).key == PendingKey::Toggle(key);
            assert(v[i].key == PendingKey::Toggle(key));
        } else {
            let i = choose|i: int|
                0 <= i < v.len() && (#[trigger] v[i]).key is Preset && v[i].entities.contains(id);
            assert(v[i].key is Preset);
        }
    }
}

/// A camera button is lit while the select is on its camera, case and the white space around the
/// option aside, and waits while a call of its own is under way.
pub proof fn a_camera_button_shows_its_camera(
    m: MeasuredV,
    v: Seq<InflightV>,
    option: Seq<char>,
    key: ToggleKey,
)
    ensures
        ({
            let t = camera_of(Some(m), v, option, key);
            &&& t.on <==> available(m.entity.state) && same_folded(m.entity.state, trimmed(option))
            &&& t.available <==> available(m.entity.state)
            &&& t.pending <==> exists|i: int|
                0 <= i < v.len() && (#[trigger] v[i]).key == PendingKey::Toggle(key)
        }),
        !camera_of(None, v, option, key).on,
        !camera_of(None, v, option, key).available,
{
}

/// The fan slider stands at the fan's percentage, moved into 0..=100, and at 0 where there is none.
pub proof fn the_fan_slider_stands_at_its_percentage(m: MeasuredV, v: Seq<InflightV>)
    ensures
        ({
            let fan = fan_of(Some(m), v);
            &&& fan.on <==> m.entity.state == "on"@
            &&& fan.available <==> available(m.entity.state)
            &&& fan.pending <==> exists|i: int|
                0 <= i < v.len() && (#[trigger] v[i]).key == PendingKey::Fan
            &&& 0 <= fan.percentage <= 100
            &&& m.figures.percentage matches Some(p) ==> {
                &&& 0 <= p.rounded <= 100 ==> fan.percentage == p.rounded
                &&& p.rounded < 0 ==> fan.percentage == 0
                &&& p.rounded > 100 ==> fan.percentage == 100
            }
            &&& m.figures.percentage is None ==> fan.percentage == 0
        }),
        !fan_of(None, v).on,
        !fan_of(None, v).available,
        fan_of(None, v).percentage == 0,
{
}

/// The monitor's power mode is its state in capitals, while that says something.
pub proof fn the_power_mode_is_its_state(m: MeasuredV)
    ensures
        available(m.entity.state) ==> mode_of(Some(m)) == upper_text(m.entity.state),
        !available(m.entity.state) ==> mode_of(Some(m)).len() == 0,
        mode_of(None).len() == 0,
{
}

/// The preset that waits is that of the first call that came from one; none does where no call came
/// from one.
pub proof fn the_first_preset_waits(v: Seq<InflightV>)
    ensures
        forall|i: int|
            #![trigger v[i]]
            0 <= i < v.len() && (forall|j: int| 0 <= j < i ==> !((#[trigger] v[j]).key is Preset))
                ==> (v[i].key matches PendingKey::Preset(n) ==> pending_preset(v) == n),
        (forall|j: int| 0 <= j < v.len() ==> !((#[trigger] v[j]).key is Preset)) ==> pending_preset(v)
            == -1,
    decreases v.len(),
{
    if v.len() > 0 {
        let rest = v.drop_first();
        the_first_preset_waits(rest);
        assert forall|i: int|
            #![trigger v[i]]
            0 <= i < v.len() && (forall|j: int| 0 <= j < i ==> !((
            #[trigger] v[j]).key is Preset)) implies (v[i].key matches PendingKey::Preset(n)
            ==> pending_preset(v) == n) by {
            if i > 0 {
                assert(!(v[0].key is Preset));
                assert(rest[i - 1] == v[i]);
                assert forall|j: int| 0 <= j < i - 1 implies !((#[trigger] rest[j]).key is Preset) by {
                    assert(rest[j] == v[j + 1]);
                }
            }
        }
        if forall|j: int| 0 <= j < v.len() ==> !((#[trigger] v[j]).key is Preset) {
            assert(!(v[0].key is Preset));
            assert forall|j: int| 0 <= j < rest.len() implies !((#[trigger] rest[j]).key is Preset) by {
                assert(rest[j] == v[j + 1]);
            }
        }
    }
}

} // verus!
