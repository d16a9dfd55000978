//! What the window shows, pane by pane, and how each pane follows from the entities.
use vstd::prelude::*;
use vstd::string::*;
use crate::cli::{derive_printer_status, fmt_watts, printer_status_of, watts_text};
use crate::config::{status_key, status_label, weather_text, Config, PrinterStatus};
use crate::map::{at, TextMap};
use crate::number::{above, is_nan, rank, ref_quantity, Quantity, QuantityV, Reading};
use crate::text::{
    blank, concat, eq_ignore_case, is_blank, opt_text, same_folded, signed_decimal, signed_text,
    trim, trimmed, upper_text, uppercase,
};
use crate::types::{available, text_attribute, EntityState, EntityV};

verus! {

// ---------------- entities with their figures ----------------

/// The numbers that an entity's state and attributes hold.
#[derive(Clone, Debug, PartialEq)]
pub struct Figures {
    pub state: Option<Quantity>,
    pub temperature: Option<Quantity>,
    pub humidity: Option<Quantity>,
    pub wind_speed: Option<Quantity>,
    pub percentage: Option<Quantity>,
    pub brightness: Option<Quantity>,
}

/// An entity, with the numbers that it holds.
#[derive(Debug, PartialEq)]
pub struct Measured {
    pub entity: EntityState,
    pub figures: Figures,
}

/// The model of `Figures`.
#[verifier::ext_equal]
pub struct FiguresV {
    pub state: Option<QuantityV>,
    pub temperature: Option<QuantityV>,
    pub humidity: Option<QuantityV>,
    pub wind_speed: Option<QuantityV>,
    pub percentage: Option<QuantityV>,
    pub brightness: Option<QuantityV>,
}

/// The model of a `Measured`.
#[verifier::ext_equal]
pub struct MeasuredV {
    pub entity: EntityV,
    pub figures: FiguresV,
}

impl View for Figures {
    type V = FiguresV;

    open spec fn view(&self) -> FiguresV {
        FiguresV {
            state: crate::number::opt_quantity(self.state),
            temperature: crate::number::opt_quantity(self.temperature),
            humidity: crate::number::opt_quantity(self.humidity),
            wind_speed: crate::number::opt_quantity(self.wind_speed),
            percentage: crate::number::opt_quantity(self.percentage),
            brightness: crate::number::opt_quantity(self.brightness),
        }
    }
}

impl View for Measured {
    type V = MeasuredV;

    open spec fn view(&self) -> MeasuredV {
        MeasuredV { entity: self.entity@, figures: self.figures@ }
    }
}

/// The entities known, by id.
pub type EntitiesV = Map<Seq<char>, MeasuredV>;

/// The entity is known and available.
pub open spec fn is_there(m: Option<MeasuredV>) -> bool {
    m matches Some(m) && available(m.entity.state)
}

/// The entity is known and on.
pub open spec fn is_on(m: Option<MeasuredV>) -> bool {
    m matches Some(m) && m.entity.state == "on"@
}

/// The number that the state of an entity is.
pub open spec fn state_figure(m: Option<MeasuredV>) -> Option<QuantityV> {
    match m {
        Some(m) => m.figures.state,
        None => None,
    }
}

/// The entity, where its id says something.
pub open spec fn named_entity(es: EntitiesV, id: Seq<char>) -> Option<MeasuredV> {
    if blank(id) {
        None
    } else {
        at(es, id)
    }
}

/// A reference to an entity that may be missing, by its model.
pub open spec fn ref_entity(m: Option<&Measured>) -> Option<MeasuredV> {
    match m {
        Some(m) => Some(m@),
        None => None,
    }
}

fn lookup_entity<'a>(es: &'a TextMap<Measured>, id: &str) -> (r: Option<&'a Measured>)
    ensures
        ref_entity(r) == at(es@, id@),
{
    es.get(id)
}

fn lookup_named<'a>(es: &'a TextMap<Measured>, id: &str) -> (r: Option<&'a Measured>)
    ensures
        ref_entity(r) == named_entity(es@, id@),
{
    if is_blank(id) {
        None
    } else {
        es.get(id)
    }
}

fn there(m: Option<&Measured>) -> (r: bool)
    ensures
        r == is_there(ref_entity(m)),
{
    match m {
        Some(m) => m.entity.is_available(),
        None => false,
    }
}

fn turned_on(m: Option<&Measured>) -> (r: bool)
    ensures
        r == is_on(ref_entity(m)),
{
    match m {
        Some(m) => m.entity.is_on(),
        None => false,
    }
}

fn figure_of(m: Option<&Measured>) -> (r: Option<&Quantity>)
    ensures
        ref_quantity(r) == state_figure(ref_entity(m)),
{
    match m {
        Some(m) => match &m.figures.state {
            Some(q) => Some(q),
            None => None,
        },
        None => None,
    }
}

// ---------------- weather ----------------

/// The weather pane.
#[derive(Clone, Debug, PartialEq)]
pub struct Weather {
    pub line: String,
    pub condition: String,
    pub icon: String,
    pub place: String,
}

/// The model of the weather pane.
#[verifier::ext_equal]
pub struct WeatherV {
    pub line: Seq<char>,
    pub condition: Seq<char>,
    pub icon: Seq<char>,
    pub place: Seq<char>,
}

impl View for Weather {
    type V = WeatherV;

    open spec fn view(&self) -> WeatherV {
        WeatherV {
            line: self.line@,
            condition: self.condition@,
            icon: self.icon@,
            place: self.place@,
        }
    }
}

/// A whole number, or a dash.
pub open spec fn whole_or_dash(q: Option<QuantityV>) -> Seq<char> {
    match q {
        Some(q) => signed_decimal(q.rounded as int),
        None => "—"@,
    }
}

/// One decimal, or a dash.
pub open spec fn tenths_or_dash(q: Option<QuantityV>) -> Seq<char> {
    match q {
        Some(q) => q.tenths,
        None => "—"@,
    }
}

/// The weather pane for the weather entity.
pub open spec fn weather_of(cfg: Config, m: Option<MeasuredV>) -> WeatherV {
    let place = match m {
        Some(w) => match text_attribute(w.entity, "friendly_name"@) {
            Some(n) => upper_text(n),
            None => Seq::empty(),
        },
        None => Seq::empty(),
    };
    match m {
        Some(w) if available(w.entity.state) => WeatherV {
            line: tenths_or_dash(w.figures.temperature) + " °C   "@ + whole_or_dash(
                w.figures.humidity,
            ) + " %   "@ + whole_or_dash(w.figures.wind_speed) + " km/h"@,
            condition: weather_text(cfg.weather_labels@, cfg.french(), w.entity.state),
            icon: w.entity.state,
            place,
        },
        _ => WeatherV {
            line: "— °C   — %   — km/h"@,
            condition: weather_text(cfg.weather_labels@, cfg.french(), "unavailable"@),
            icon: Seq::empty(),
            place,
        },
    }
}

fn push_whole(out: &mut String, q: &Option<Quantity>)
    ensures
        final(out)@ == old(out)@ + whole_or_dash(crate::number::opt_quantity(*q)),
{
    match q {
        Some(q) => {
            let t = signed_text(q.rounded);
            out.append(t.as_str());
        },
        None => out.append("—"),
    }
}

/// The weather pane for the weather entity.
pub fn weather_pane(cfg: &Config, m: Option<&Measured>) -> (r: Weather)
    ensures
        r@ == weather_of(*cfg, ref_entity(m)),
{
    let place = match m {
        Some(w) => match w.entity.attr_str("friendly_name") {
            Some(n) => uppercase(n),
            None => String::new(),
        },
        None => String::new(),
    };
    match m {
        Some(w) => {
            if w.entity.is_available() {
                let mut line = match &w.figures.temperature {
                    Some(t) => t.tenths.clone(),
                    None => "—".to_string(),
                };
                line.append(" °C   ");
                push_whole(&mut line, &w.figures.humidity);
                line.append(" %   ");
                push_whole(&mut line, &w.figures.wind_speed);
                line.append(" km/h");
                return Weather {
                    line,
                    condition: cfg.weather_label(w.entity.state.as_str()),
                    icon: w.entity.state.clone(),
                    place,
                };
            }
        },
        None => {},
    }
    Weather {
        line: "— °C   — %   — km/h".to_string(),
        condition: cfg.weather_label("unavailable"),
        icon: String::new(),
        place,
    }
}

// ---------------- power ----------------

/// Watts, or a dash.
pub open spec fn power_text(q: Option<QuantityV>) -> Seq<char> {
    match q {
        Some(q) => watts_text(q.rounded),
        None => "— W"@,
    }
}

/// Watts, or a dash.
pub fn power_line(q: Option<&Quantity>) -> (r: String)
    ensures
        r@ == power_text(ref_quantity(q)),
{
    match q {
        Some(q) => fmt_watts(q.rounded),
        None => "— W".to_string(),
    }
}

/// The power of an entity.
pub fn power_of(m: Option<&Measured>) -> (r: String)
    ensures
        r@ == power_text(state_figure(ref_entity(m))),
{
    power_line(figure_of(m))
}

/// One load column under the house total.
#[derive(Clone, Debug, PartialEq)]
pub struct LoadState {
    pub on: bool,
    pub available: bool,
    pub configured: bool,
    pub power: String,
    pub badge: String,
}

/// The model of a load column.
#[verifier::ext_equal]
pub struct LoadV {
    pub on: bool,
    pub available: bool,
    pub configured: bool,
    pub power: Seq<char>,
    pub badge: Seq<char>,
}

impl View for LoadState {
    type V = LoadV;

    open spec fn view(&self) -> LoadV {
        LoadV {
            on: self.on,
            available: self.available,
            configured: self.configured,
            power: self.power@,
            badge: self.badge@,
        }
    }
}

/// A load in watts: lit when it draws more than its threshold, dim when idle, hidden when not
/// configured.
pub open spec fn load_of(es: EntitiesV, id: Seq<char>, threshold: Reading) -> LoadV {
    if blank(id) {
        LoadV {
            on: false,
            available: false,
            configured: false,
            power: Seq::empty(),
            badge: Seq::empty(),
        }
    } else {
        LoadV {
            on: state_figure(at(es, id)) matches Some(q) && above(q.value, threshold),
            available: is_there(at(es, id)),
            configured: true,
            power: match state_figure(at(es, id)) {
                Some(q) => watts_text(q.rounded),
                None => "—"@,
            },
            badge: Seq::empty(),
        }
    }
}

/// The battery level that rides along on the car's name line.
pub open spec fn battery_badge(es: EntitiesV, id: Seq<char>) -> Seq<char> {
    if !blank(id) && is_there(at(es, id)) {
        match state_figure(at(es, id)) {
            Some(q) => q.percent_tenths + " %"@,
            None => Seq::empty(),
        }
    } else {
        Seq::empty()
    }
}

/// The car, which reports kilowatts, with its battery level.
pub open spec fn car_of(es: EntitiesV, id: Seq<char>, battery: Seq<char>, threshold_w: Reading) -> LoadV {
    if blank(id) {
        LoadV {
            on: false,
            available: false,
            configured: false,
            power: Seq::empty(),
            badge: battery_badge(es, battery),
        }
    } else {
        LoadV {
            on: state_figure(at(es, id)) matches Some(q) && above(q.thousandfold, threshold_w),
            available: is_there(at(es, id)),
            configured: true,
            power: match state_figure(at(es, id)) {
                Some(q) => watts_text(q.thousandfold_rounded),
                None => "—"@,
            },
            badge: battery_badge(es, battery),
        }
    }
}

/// The load columns.
#[derive(Clone, Debug, PartialEq)]
pub struct Loads {
    pub stove: LoadState,
    pub car: LoadState,
    pub water_heater: LoadState,
    pub washer: LoadState,
    pub dryer: LoadState,
}

/// The model of the load columns.
#[verifier::ext_equal]
pub struct LoadsV {
    pub stove: LoadV,
    pub car: LoadV,
    pub water_heater: LoadV,
    pub washer: LoadV,
    pub dryer: LoadV,
}

impl View for Loads {
    type V = LoadsV;

    open spec fn view(&self) -> LoadsV {
        LoadsV {
            stove: self.stove@,
            car: self.car@,
            water_heater: self.water_heater@,
            washer: self.washer@,
            dryer: self.dryer@,
        }
    }
}

/// The load columns: stove, car, water heater, washer, dryer.
pub open spec fn loads_of(cfg: Config, car_threshold_w: Reading, es: EntitiesV) -> LoadsV {
    let e = cfg.entities;
    let t = cfg.thresholds;
    LoadsV {
        stove: load_of(es, e.stove_power@, t.stove_flame_w),
        car: car_of(es, e.car_charge_power@, e.car_battery@, car_threshold_w),
        water_heater: load_of(es, e.water_heater_power@, t.water_heater_w),
        washer: load_of(es, e.washer_power@, t.washer_w),
        dryer: load_of(es, e.dryer_power@, t.dryer_w),
    }
}

fn load(es: &TextMap<Measured>, id: &str, threshold: Reading) -> (r: LoadState)
    ensures
        r@ == load_of(es@, id@, threshold),
{
    if is_blank(id) {
        return LoadState {
            on: false,
            available: false,
            configured: false,
            power: String::new(),
            badge: String::new(),
        };
    }
    let m = lookup_entity(es, id);
    let q = figure_of(m);
    LoadState {
        on: match q {
            Some(q) => q.value.exceeds(threshold),
            None => false,
        },
        available: there(m),
        configured: true,
        power: match q {
            Some(q) => fmt_watts(q.rounded),
            None => "—".to_string(),
        },
        badge: String::new(),
    }
}

fn badge(es: &TextMap<Measured>, id: &str) -> (r: String)
    ensures
        r@ == battery_badge(es@, id@),
{
    if is_blank(id) {
        return String::new();
    }
    let m = lookup_entity(es, id);
    if !there(m) {
        return String::new();
    }
    match figure_of(m) {
        Some(q) => concat(q.percent_tenths.as_str(), " %"),
        None => String::new(),
    }
}

fn car_load(es: &TextMap<Measured>, id: &str, battery: &str, threshold_w: Reading) -> (r: LoadState)
    ensures
        r@ == car_of(es@, id@, battery@, threshold_w),
{
    let badge = badge(es, battery);
    if is_blank(id) {
        return LoadState {
            on: false,
            available: false,
            configured: false,
            power: String::new(),
            badge,
        };
    }
    let m = lookup_entity(es, id);
    let q = figure_of(m);
    LoadState {
        on: match q {
            Some(q) => q.thousandfold.exceeds(threshold_w),
            None => false,
        },
        available: there(m),
        configured: true,
        power: match q {
            Some(q) => fmt_watts(q.thousandfold_rounded),
            None => "—".to_string(),
        },
        badge,
    }
}

/// The load columns.
pub fn loads_pane(cfg: &Config, car_threshold_w: Reading, es: &TextMap<Measured>) -> (r: Loads)
    ensures
        r@ == loads_of(*cfg, car_threshold_w, es@),
{
    let e = &cfg.entities;
    let t = &cfg.thresholds;
    Loads {
        stove: load(es, e.stove_power.as_str(), t.stove_flame_w),
        car: car_load(es, e.car_charge_power.as_str(), e.car_battery.as_str(), car_threshold_w),
        water_heater: load(es, e.water_heater_power.as_str(), t.water_heater_w),
        washer: load(es, e.washer_power.as_str(), t.washer_w),
        dryer: load(es, e.dryer_power.as_str(), t.dryer_w),
    }
}

// ---------------- indoor ----------------

/// The number of an entity that is there.
pub open spec fn there_figure(es: EntitiesV, id: Seq<char>) -> Option<QuantityV> {
    let m = named_entity(es, id);
    if is_there(m) {
        state_figure(m)
    } else {
        None
    }
}

/// The indoor line under the weather: `21.9 °C   56 %`.
pub open spec fn indoor_of(cfg: Config, es: EntitiesV) -> Seq<char> {
    (match there_figure(es, cfg.entities.office_temperature@) {
        Some(q) => q.tenths + " °C"@,
        None => "—"@,
    }) + "   "@ + (match there_figure(es, cfg.entities.office_humidity@) {
        Some(q) => signed_decimal(q.rounded as int) + " %"@,
        None => "—"@,
    })
}

/// The indoor line under the weather.
pub fn indoor_line(cfg: &Config, es: &TextMap<Measured>) -> (r: String)
    ensures
        r@ == indoor_of(*cfg, es@),
{
    let t = lookup_named(es, cfg.entities.office_temperature.as_str());
    let mut out = String::new();
    let tq = if there(t) { figure_of(t) } else { None };
    match tq {
        Some(q) => {
            out.append(q.tenths.as_str());
            out.append(" °C");
        },
        None => out.append("—"),
    }
    out.append("   ");
    let h = lookup_named(es, cfg.entities.office_humidity.as_str());
    let hq = if there(h) { figure_of(h) } else { None };
    match hq {
        Some(q) => {
            let n = signed_text(q.rounded);
            out.append(n.as_str());
            out.append(" %");
        },
        None => out.append("—"),
    }
    assert(out@ =~= indoor_of(*cfg, es@));
    out
}

// ---------------- printer ----------------

/// The 3D printer pane.
#[derive(Clone, Debug, PartialEq)]
pub struct Printer {
    pub status: String,
    pub mode: String,
    pub active: bool,
    pub progress: String,
    pub time_left: String,
}

/// The model of the printer pane.
#[verifier::ext_equal]
pub struct PrinterV {
    pub status: Seq<char>,
    pub mode: Seq<char>,
    pub active: bool,
    pub progress: Seq<char>,
    pub time_left: Seq<char>,
}

impl View for Printer {
    type V = PrinterV;

    open spec fn view(&self) -> PrinterV {
        PrinterV {
            status: self.status@,
            mode: self.mode@,
            active: self.active,
            progress: self.progress@,
            time_left: self.time_left@,
        }
    }
}

/// The state of an entity that is there.
pub open spec fn there_state(es: EntitiesV, id: Seq<char>) -> Option<Seq<char>> {
    let m = named_entity(es, id);
    if is_there(m) {
        Some(m->0.entity.state)
    } else {
        None
    }
}

/// The value of a quantity.
pub open spec fn value_of(q: Option<QuantityV>) -> Option<Reading> {
    match q {
        Some(q) => Some(q.value),
        None => None,
    }
}

/// What the printer is doing, from its entities.
pub open spec fn printer_doing(cfg: Config, es: EntitiesV) -> PrinterStatus {
    let e = cfg.entities;
    printer_status_of(
        if is_there(named_entity(es, e.printer_power@)) {
            Some(is_on(named_entity(es, e.printer_power@)))
        } else {
            None
        },
        there_state(es, e.printer_klipper_state@),
        there_state(es, e.printer_print_state@),
        value_of(state_figure(named_entity(es, e.printer_progress@))),
        value_of(state_figure(named_entity(es, e.printer_time_left@))),
        is_there(named_entity(es, e.printer_progress@)) || is_there(
            named_entity(es, e.printer_time_left@),
        ) || is_there(named_entity(es, e.printer_print_state@)) || is_there(
            named_entity(es, e.printer_klipper_state@),
        ) || is_there(named_entity(es, e.printer_power@)),
    )
}

/// The printer pane.
pub open spec fn printer_of(cfg: Config, es: EntitiesV) -> PrinterV {
    let status = printer_doing(cfg, es);
    PrinterV {
        status: status_label(status, cfg.french()),
        mode: status_key(status),
        active: status == PrinterStatus::Printing || status == PrinterStatus::Paused,
        progress: match state_figure(named_entity(es, cfg.entities.printer_progress@)) {
            Some(q) => signed_decimal(q.rounded as int) + " %"@,
            None => Seq::empty(),
        },
        time_left: match state_figure(named_entity(es, cfg.entities.printer_time_left@)) {
            Some(q) => signed_decimal(q.minutes as int) + " min"@,
            None => Seq::empty(),
        },
    }
}

fn state_there<'a>(es: &'a TextMap<Measured>, id: &str) -> (r: Option<&'a str>)
    ensures
        opt_text(r) == there_state(es@, id@),
{
    match lookup_named(es, id) {
        Some(m) => if m.entity.is_available() {
            Some(m.entity.state.as_str())
        } else {
            None
        },
        None => None,
    }
}

/// What the printer is doing, from its entities.
pub fn printer_status(cfg: &Config, es: &TextMap<Measured>) -> (r: PrinterStatus)
    ensures
        r == printer_doing(*cfg, es@),
{
    let e = &cfg.entities;
    let progress = lookup_named(es, e.printer_progress.as_str());
    let left = lookup_named(es, e.printer_time_left.as_str());
    let power = lookup_named(es, e.printer_power.as_str());
    let klipper = lookup_named(es, e.printer_klipper_state.as_str());
    let print = lookup_named(es, e.printer_print_state.as_str());
    let any = there(progress) || there(left) || there(print) || there(klipper) || there(power);
    derive_printer_status(
        if there(power) {
            Some(turned_on(power))
        } else {
            None
        },
        state_there(es, e.printer_klipper_state.as_str()),
        state_there(es, e.printer_print_state.as_str()),
        match figure_of(progress) {
            Some(q) => Some(q.value),
            None => None,
        },
        match figure_of(left) {
            Some(q) => Some(q.value),
            None => None,
        },
        any,
    )
}

/// The printer pane.
pub fn printer_pane(cfg: &Config, es: &TextMap<Measured>) -> (r: Printer)
    ensures
        r@ == printer_of(*cfg, es@),
{
    let status = printer_status(cfg, es);
    Printer {
        status: cfg.printer_label(status).to_string(),
        mode: status.key().to_string(),
        active: match status {
            PrinterStatus::Printing => true,
            PrinterStatus::Paused => true,
            _ => false,
        },
        progress: match figure_of(lookup_named(es, cfg.entities.printer_progress.as_str())) {
            Some(q) => concat(signed_text(q.rounded).as_str(), " %"),
            None => String::new(),
        },
        time_left: match figure_of(lookup_named(es, cfg.entities.printer_time_left.as_str())) {
            Some(q) => concat(signed_text(q.minutes).as_str(), " min"),
            None => String::new(),
        },
    }
}

// ---------------- calls under way ----------------

/// A button that toggles something.
#[derive(Clone, Copy, Debug, PartialEq, Eq, Structural)]
pub enum ToggleKey {
    Ceiling,
    Monitor,
    Grafana,
    CamStreet,
    CamGallery,
    Display,
}

/// The control that a call came from.
#[derive(Clone, Copy, Debug, PartialEq, Eq, Structural)]
pub enum PendingKey {
    Preset(i32),
    Toggle(ToggleKey),
    /// The fan slider.
    Fan,
}

/// A call under way.
#[derive(Clone, Debug, PartialEq)]
pub struct Inflight {
    pub request: u64,
    pub key: PendingKey,
    /// Entities whose next state change ends the wait.
    pub entities: Vec<String>,
    /// Home Assistant answered with success. Only the state is still to follow.
    pub confirmed: bool,
}

/// The model of a call under way.
#[verifier::ext_equal]
pub struct InflightV {
    pub request: u64,
    pub key: PendingKey,
    pub entities: Seq<Seq<char>>,
    pub confirmed: bool,
}

impl View for Inflight {
    type V = InflightV;

    open spec fn view(&self) -> InflightV {
        InflightV {
            request: self.request,
            key: self.key,
            entities: crate::text::texts(self.entities@),
            confirmed: self.confirmed,
        }
    }
}

/// The models of the calls under way.
pub open spec fn inflight_views(v: Seq<Inflight>) -> Seq<InflightV> {
    v.map_values(|i: Inflight| i@)
}

/// Some call came from this control.
pub open spec fn key_pending(v: Seq<InflightV>, key: PendingKey) -> bool {
    exists|i: int| 0 <= i < v.len() && (#[trigger] v[i]).key == key
}

/// Some preset is under way for this entity.
pub open spec fn preset_touches(v: Seq<InflightV>, id: Seq<char>) -> bool {
    exists|i: int|
        0 <= i < v.len() && (#[trigger] v[i]).key is Preset && v[i].entities.contains(id)
}

/// The preset of the first call that came from one, or -1.
pub open spec fn pending_preset(v: Seq<InflightV>) -> int
    decreases v.len(),
{
    if v.len() == 0 {
        -1
    } else {
        match v[0].key {
            PendingKey::Preset(i) => i as int,
            _ => pending_preset(v.drop_first()),
        }
    }
}

/// Whether some call came from this control.
pub fn has_key(v: &Vec<Inflight>, key: PendingKey) -> (r: bool)
    ensures
        r == key_pending(inflight_views(v@), key),
{
    let mut i: usize = 0;
    while i < v.len()
        invariant
            i <= v@.len(),
            forall|k: int| 0 <= k < i ==> (#[trigger] inflight_views(v@)[k]).key != key,
        decreases v@.len() - i,
    {
        assert(inflight_views(v@)[i as int] == v@[i as int]@);
        if v[i].key == key {
            return true;
        }
        i = i + 1;
    }
    false
}

/// Whether some preset is under way for this entity.
pub fn preset_pending_for(v: &Vec<Inflight>, id: &str) -> (r: bool)
    ensures
        r == preset_touches(inflight_views(v@), id@),
{
    let mut i: usize = 0;
    while i < v.len()
        invariant
            i <= v@.len(),
            forall|k: int|
                0 <= k < i ==> !((#[trigger] inflight_views(v@)[k]).key is Preset
                    && inflight_views(v@)[k].entities.contains(id@)),
        decreases v@.len() - i,
    {
        assert(inflight_views(v@)[i as int] == v@[i as int]@);
        let preset = match v[i].key {
            PendingKey::Preset(_) => true,
            _ => false,
        };
        if preset && crate::ha_ws::contains(&v[i].entities, id) {
            return true;
        }
        i = i + 1;
    }
    false
}

/// The preset of the first call that came from one, or -1.
pub fn first_preset(v: &Vec<Inflight>) -> (r: i32)
    ensures
        r == pending_preset(inflight_views(v@)),
{
    let ghost all = inflight_views(v@);
    let mut i: usize = 0;
    assert(all.skip(0) =~= all);
    while i < v.len()
        invariant
            i <= v@.len(),
            all == inflight_views(v@),
            pending_preset(all) == pending_preset(all.skip(i as int)),
        decreases v@.len() - i,
    {
        assert(all.skip(i as int)[0] == v@[i as int]@);
        match v[i].key {
            PendingKey::Preset(p) => {
                return p;
            },
            _ => {},
        }
        assert(all.skip(i as int).drop_first() =~= all.skip(i + 1));
        i = i + 1;
    }
    -1
}

// ---------------- toggles ----------------

/// A button that toggles something.
#[derive(Clone, Copy, Debug, PartialEq, Eq, Structural)]
pub struct ToggleState {
    pub on: bool,
    pub pending: bool,
    pub available: bool,
}

/// The button of an entity: pending while a call from it, or a preset for its entity, is under
/// way.
pub open spec fn toggle_of(es: EntitiesV, v: Seq<InflightV>, id: Seq<char>, key: ToggleKey) -> ToggleState {
    ToggleState {
        on: is_on(at(es, id)),
        pending: key_pending(v, PendingKey::Toggle(key)) || preset_touches(v, id),
        available: is_there(at(es, id)),
    }
}

/// The camera select sits on this option.
pub open spec fn camera_shows(m: Option<MeasuredV>, option: Seq<char>) -> bool {
    is_there(m) && same_folded(m->0.entity.state, trimmed(option))
}

/// A camera button: lit while the select shows that camera.
pub open spec fn camera_of(
    m: Option<MeasuredV>,
    v: Seq<InflightV>,
    option: Seq<char>,
    key: ToggleKey,
) -> ToggleState {
    ToggleState {
        on: camera_shows(m, option),
        pending: key_pending(v, PendingKey::Toggle(key)),
        available: is_there(m),
    }
}

/// The button of an entity.
pub fn toggle_state(es: &TextMap<Measured>, v: &Vec<Inflight>, id: &str, key: ToggleKey) -> (r: ToggleState)
    ensures
        r == toggle_of(es@, inflight_views(v@), id@, key),
{
    let m = lookup_entity(es, id);
    ToggleState {
        on: turned_on(m),
        pending: has_key(v, PendingKey::Toggle(key)) || preset_pending_for(v, id),
        available: there(m),
    }
}

/// Whether the camera select sits on this option.
pub fn camera_option_active(es: &TextMap<Measured>, camera: &str, option: &str) -> (r: bool)
    ensures
        r == camera_shows(at(es@, camera@), option@),
{
    match lookup_entity(es, camera) {
        Some(m) => m.entity.is_available() && eq_ignore_case(m.entity.state.as_str(), trim(option)),
        None => false,
    }
}

/// A camera button.
pub fn camera_toggle_state(
    es: &TextMap<Measured>,
    v: &Vec<Inflight>,
    camera: &str,
    option: &str,
    key: ToggleKey,
) -> (r: ToggleState)
    ensures
        r == camera_of(at(es@, camera@), inflight_views(v@), option@, key),
{
    ToggleState {
        on: camera_option_active(es, camera, option),
        pending: has_key(v, PendingKey::Toggle(key)),
        available: there(lookup_entity(es, camera)),
    }
}

// ---------------- lights ----------------

/// The two lights.
#[derive(Clone, Debug, PartialEq)]
pub struct Lights {
    pub ceiling: ToggleState,
    pub monitor: ToggleState,
    pub summary: String,
}

/// The model of the two lights.
#[verifier::ext_equal]
pub struct LightsV {
    pub ceiling: ToggleState,
    pub monitor: ToggleState,
    pub summary: Seq<char>,
}

impl View for Lights {
    type V = LightsV;

    open spec fn view(&self) -> LightsV {
        LightsV { ceiling: self.ceiling, monitor: self.monitor, summary: self.summary@ }
    }
}

/// How bright a light is, in percent, or that it is off.
pub open spec fn light_percent(m: Option<MeasuredV>) -> Seq<char> {
    match m {
        Some(x) if x.entity.state == "on"@ => match x.figures.brightness {
            Some(b) => signed_decimal(b.percent as int) + " %"@,
            None => "OFF"@,
        },
        _ => "OFF"@,
    }
}

/// The two lights.
pub open spec fn lights_of(cfg: Config, es: EntitiesV, v: Seq<InflightV>) -> LightsV {
    let e = cfg.entities;
    LightsV {
        ceiling: toggle_of(es, v, e.light_ceiling@, ToggleKey::Ceiling),
        monitor: toggle_of(es, v, e.light_monitor@, ToggleKey::Monitor),
        summary: "PLAFONNIER "@ + light_percent(at(es, e.light_ceiling@)) + " · ÉCRAN "@
            + light_percent(at(es, e.light_monitor@)),
    }
}

fn percent_text(m: Option<&Measured>) -> (r: String)
    ensures
        r@ == light_percent(ref_entity(m)),
{
    match m {
        Some(x) => {
            if x.entity.is_on() {
                match &x.figures.brightness {
                    Some(b) => concat(signed_text(b.percent).as_str(), " %"),
                    None => "OFF".to_string(),
                }
            } else {
                "OFF".to_string()
            }
        },
        None => "OFF".to_string(),
    }
}

/// The two lights.
pub fn lights_pane(cfg: &Config, es: &TextMap<Measured>, v: &Vec<Inflight>) -> (r: Lights)
    ensures
        r@ == lights_of(*cfg, es@, inflight_views(v@)),
{
    let e = &cfg.entities;
    let mut summary = concat(
        "PLAFONNIER ",
        percent_text(lookup_entity(es, e.light_ceiling.as_str())).as_str(),
    );
    summary.append(" · ÉCRAN ");
    summary.append(percent_text(lookup_entity(es, e.light_monitor.as_str())).as_str());
    Lights {
        ceiling: toggle_state(es, v, e.light_ceiling.as_str(), ToggleKey::Ceiling),
        monitor: toggle_state(es, v, e.light_monitor.as_str(), ToggleKey::Monitor),
        summary,
    }
}

/// `a >= b` of two numbers.
pub open spec fn at_least(a: Reading, b: Reading) -> bool {
    !is_nan(a) && !is_nan(b) && rank(a) >= rank(b)
}

/// A light that is there: whether it is on, and how bright (zero where that is unknown).
pub open spec fn lamp(m: Option<MeasuredV>) -> Option<(bool, Reading)> {
    if is_there(m) {
        Some(
            (
                is_on(m),
                match m->0.figures.brightness {
                    Some(b) => b.value,
                    None => Reading { bits: 0 },
                },
            ),
        )
    } else {
        None
    }
}

/// The light preset that the two lights match, or -1. The tolerances of 3 absorb rounding on the
/// way (a group asked for 127 reports 128, 33 % is 84).
pub open spec fn matching_preset(
    ceiling: Option<(bool, Reading)>,
    monitor: Option<(bool, Reading)>,
) -> int {
    match (ceiling, monitor) {
        (Some((c_on, c)), Some((m_on, m))) => if !c_on && !m_on {
            3
        } else if !c_on || !m_on {
            -1
        } else if at_least(c, of_252()) && at_least(m, of_252()) {
            2
        } else if at_least(c, of_124()) && at_least(of_130(), c) && at_least(m, of_124())
            && at_least(of_130(), m) {
            1
        } else if at_least(of_3(), c) && at_least(m, of_81()) && at_least(of_87(), m) {
            0
        } else {
            -1
        },
        _ => -1,
    }
}

/// 252.
pub open spec fn of_252() -> Reading {
    Reading { bits: 0x406f_8000_0000_0000 }
}

/// 124, which is 3 below 127.
pub open spec fn of_124() -> Reading {
    Reading { bits: 0x405f_0000_0000_0000 }
}

/// 130, which is 3 above 127.
pub open spec fn of_130() -> Reading {
    Reading { bits: 0x4060_4000_0000_0000 }
}

/// 3.
pub open spec fn of_3() -> Reading {
    Reading { bits: 0x4008_0000_0000_0000 }
}

/// 81, which is 3 below 84.
pub open spec fn of_81() -> Reading {
    Reading { bits: 0x4054_4000_0000_0000 }
}

/// 87, which is 3 above 84.
pub open spec fn of_87() -> Reading {
    Reading { bits: 0x4055_c000_0000_0000 }
}

fn lamp_of(m: Option<&Measured>) -> (r: Option<(bool, Reading)>)
    ensures
        r == lamp(ref_entity(m)),
{
    match m {
        Some(x) => {
            if x.entity.is_available() {
                Some(
                    (
                        x.entity.is_on(),
                        match &x.figures.brightness {
                            Some(b) => b.value,
                            None => Reading { bits: 0 },
                        },
                    ),
                )
            } else {
                None
            }
        },
        None => None,
    }
}

/// The light preset that two lights match, or -1.
pub fn preset_for(ceiling: Option<(bool, Reading)>, monitor: Option<(bool, Reading)>) -> (r: i32)
    ensures
        r == matching_preset(ceiling, monitor),
{
    let (c_on, c, m_on, m) = match (ceiling, monitor) {
        (Some((c_on, c)), Some((m_on, m))) => (c_on, c, m_on, m),
        _ => {
            return -1;
        },
    };
    if !c_on && !m_on {
        return 3;
    }
    if !c_on || !m_on {
        return -1;
    }
    let high = Reading { bits: 0x406f_8000_0000_0000 };
    let low_half = Reading { bits: 0x405f_0000_0000_0000 };
    let high_half = Reading { bits: 0x4060_4000_0000_0000 };
    let dim = Reading { bits: 0x4008_0000_0000_0000 };
    let low_third = Reading { bits: 0x4054_4000_0000_0000 };
    let high_third = Reading { bits: 0x4055_c000_0000_0000 };
    if c.reaches(high) && m.reaches(high) {
        2
    } else if c.reaches(low_half) && high_half.reaches(c) && m.reaches(low_half)
        && high_half.reaches(m) {
        1
    } else if dim.reaches(c) && m.reaches(low_third) && high_third.reaches(m) {
        0
    } else {
        -1
    }
}

/// The light preset that the configured lights match.
pub open spec fn active_preset(cfg: Config, es: EntitiesV) -> int {
    matching_preset(
        lamp(at(es, cfg.entities.light_ceiling@)),
        lamp(at(es, cfg.entities.light_monitor@)),
    )
}

/// The light preset that the configured lights match.
pub fn preset_active(cfg: &Config, es: &TextMap<Measured>) -> (r: i32)
    ensures
        r == active_preset(*cfg, es@),
{
    preset_for(
        lamp_of(lookup_entity(es, cfg.entities.light_ceiling.as_str())),
        lamp_of(lookup_entity(es, cfg.entities.light_monitor.as_str())),
    )
}

// ---------------- fan ----------------

/// The fan slider.
#[derive(Clone, Copy, Debug, PartialEq, Eq, Structural)]
pub struct Fan {
    pub available: bool,
    pub on: bool,
    pub pending: bool,
    pub percentage: i32,
}

/// A percentage, moved into 0..=100.
pub open spec fn percentage_of(n: i64) -> i32 {
    if n < 0 {
        0
    } else if n > 100 {
        100
    } else {
        n as i32
    }
}

/// The fan slider for the fan entity.
pub open spec fn fan_of(m: Option<MeasuredV>, v: Seq<InflightV>) -> Fan {
    Fan {
        available: is_there(m),
        on: is_on(m),
        pending: key_pending(v, PendingKey::Fan),
        percentage: match m {
            Some(f) => match f.figures.percentage {
                Some(p) => percentage_of(p.rounded),
                None => 0,
            },
            None => 0,
        },
    }
}

/// The fan slider for the fan entity.
pub fn fan_pane(m: Option<&Measured>, v: &Vec<Inflight>) -> (r: Fan)
    ensures
        r == fan_of(ref_entity(m), inflight_views(v@)),
{
    let n: i64 = match m {
        Some(f) => match &f.figures.percentage {
            Some(p) => p.rounded,
            None => 0,
        },
        None => 0,
    };
    Fan {
        available: there(m),
        on: turned_on(m),
        pending: has_key(v, PendingKey::Fan),
        percentage: if n < 0 {
            0
        } else if n > 100 {
            100
        } else {
            n as i32
        },
    }
}

// ---------------- kiosk ----------------

/// The name of the monitor's power mode, nothing where it is unknown.
pub open spec fn mode_of(m: Option<MeasuredV>) -> Seq<char> {
    if is_there(m) {
        upper_text(m->0.entity.state)
    } else {
        Seq::empty()
    }
}

/// The name of the monitor's power mode.
pub fn mode_text(m: Option<&Measured>) -> (r: String)
    ensures
        r@ == mode_of(ref_entity(m)),
{
    match m {
        Some(x) => if x.entity.is_available() {
            uppercase(x.entity.state.as_str())
        } else {
            String::new()
        },
        None => String::new(),
    }
}

} // verus!
