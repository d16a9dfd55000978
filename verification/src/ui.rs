//! The screen's controller: what the window shows, and what is to be done, for each thing that
//! happens.
//!
//! Each method takes one thing that happened, brings `Ui::window` up to date, and returns the
//! effects to carry out, in order. While the panel's signal is off nothing in the window changes:
//! the controller is frozen, and catches up when it thaws.
use vstd::prelude::*;
use vstd::string::*;
use crate::clock::{zone_views, ClockText, ClockV};
use crate::config::Config;
use crate::ha_ws::{contains, copy_texts, named};
use crate::iotawatt::{PowerEvent, PowerEventV};
use crate::json::{Json, JsonV, Members};
use crate::map::{at, TextMap};
use crate::number::{ref_quantity, Quantity, QuantityV, Reading};
use crate::screen::{
    active_preset, camera_of, camera_option_active, camera_shows, camera_toggle_state, fan_of,
    fan_pane, first_preset, indoor_line, indoor_of, inflight_views, is_on, lights_of, lights_pane,
    loads_of, loads_pane, mode_of, mode_text, pending_preset, power_line, power_of, power_text,
    preset_active, printer_of, printer_pane, state_figure, toggle_of, toggle_state, weather_of,
    weather_pane, EntitiesV, Fan, Figures, Inflight, InflightV, Lights, LightsV, LoadState, LoadV,
    Loads, LoadsV, Measured, MeasuredV, PendingKey, Printer, PrinterV, ToggleKey, ToggleState,
    Weather, WeatherV,
};
use crate::text::{
    blank, concat, decimal, is_blank, opt_string, same, texts, upper_text, uppercase,
};
use crate::time;
use crate::time::{millis_span, span_of};
use crate::types::{
    lit, EntityState, LightCommand, LightCommandV, LightState, ServiceCall, ServiceCallV,
};

verus! {

// ---------------- the window ----------------

/// The dimming over the window.
#[derive(Clone, Copy, Debug, PartialEq, Eq, Structural)]
pub enum Overlay {
    /// None: the backlight dims.
    Clear,
    /// As much as stands for this brightness.
    Level(u8),
    /// Black.
    Full,
}

/// Everything that the window shows.
#[derive(Clone, Debug, PartialEq)]
pub struct Window {
    pub indoor_label: String,
    pub touch_test: bool,
    pub time_hm: String,
    pub time_s: String,
    pub date: String,
    pub weekday: String,
    /// Label and time of each extra zone.
    pub zones: Vec<(String, String)>,
    pub connecting: bool,
    pub connecting_detail: String,
    pub ha_online: bool,
    pub weather: Weather,
    pub house_power: String,
    pub servers_power: String,
    pub loads: Loads,
    pub indoor: String,
    pub printer: Printer,
    pub lights: Lights,
    pub grafana: ToggleState,
    pub cam_street: ToggleState,
    pub cam_gallery: ToggleState,
    pub kiosk_display: ToggleState,
    pub kiosk_display_mode: String,
    pub fan: Fan,
    pub preset_active: i32,
    pub preset_pending: i32,
    pub toast_text: String,
    pub toast_visible: bool,
    pub overlay: Overlay,
    /// A touch wakes the screen instead of operating a control.
    pub wake_guard: bool,
}

/// The model of a `Window`.
pub struct WindowV {
    pub indoor_label: Seq<char>,
    pub touch_test: bool,
    pub time_hm: Seq<char>,
    pub time_s: Seq<char>,
    pub date: Seq<char>,
    pub weekday: Seq<char>,
    pub zones: Seq<(Seq<char>, Seq<char>)>,
    pub connecting: bool,
    pub connecting_detail: Seq<char>,
    pub ha_online: bool,
    pub weather: WeatherV,
    pub house_power: Seq<char>,
    pub servers_power: Seq<char>,
    pub loads: LoadsV,
    pub indoor: Seq<char>,
    pub printer: PrinterV,
    pub lights: LightsV,
    pub grafana: ToggleState,
    pub cam_street: ToggleState,
    pub cam_gallery: ToggleState,
    pub kiosk_display: ToggleState,
    pub kiosk_display_mode: Seq<char>,
    pub fan: Fan,
    pub preset_active: int,
    pub preset_pending: int,
    pub toast_text: Seq<char>,
    pub toast_visible: bool,
    pub overlay: Overlay,
    pub wake_guard: bool,
}

/// What a `Window` models.
#[verifier::opaque]
pub open spec fn window_view(w: Window) -> WindowV {
    WindowV {
        indoor_label: w.indoor_label@,
        touch_test: w.touch_test,
        time_hm: w.time_hm@,
        time_s: w.time_s@,
        date: w.date@,
        weekday: w.weekday@,
        zones: zone_views(w.zones@),
        connecting: w.connecting,
        connecting_detail: w.connecting_detail@,
        ha_online: w.ha_online,
        weather: w.weather@,
        house_power: w.house_power@,
        servers_power: w.servers_power@,
        loads: w.loads@,
        indoor: w.indoor@,
        printer: w.printer@,
        lights: w.lights@,
        grafana: w.grafana,
        cam_street: w.cam_street,
        cam_gallery: w.cam_gallery,
        kiosk_display: w.kiosk_display,
        kiosk_display_mode: w.kiosk_display_mode@,
        fan: w.fan,
        preset_active: w.preset_active as int,
        preset_pending: w.preset_pending as int,
        toast_text: w.toast_text@,
        toast_visible: w.toast_visible,
        overlay: w.overlay,
        wake_guard: w.wake_guard,
    }
}

impl View for Window {
    type V = WindowV;

    open spec fn view(&self) -> WindowV {
        window_view(*self)
    }
}

/// A toggle about which nothing is known.
pub open spec fn dead_toggle() -> ToggleState {
    ToggleState { on: false, pending: false, available: false }
}

/// A load about which nothing is known.
pub open spec fn dead_load() -> LoadV {
    LoadV {
        on: false,
        available: false,
        configured: false,
        power: Seq::empty(),
        badge: Seq::empty(),
    }
}

/// The window before anything is known.
pub open spec fn empty_window() -> WindowV {
    WindowV {
        indoor_label: Seq::empty(),
        touch_test: false,
        time_hm: Seq::empty(),
        time_s: Seq::empty(),
        date: Seq::empty(),
        weekday: Seq::empty(),
        zones: Seq::empty(),
        connecting: false,
        connecting_detail: Seq::empty(),
        ha_online: false,
        weather: WeatherV {
            line: Seq::empty(),
            condition: Seq::empty(),
            icon: Seq::empty(),
            place: Seq::empty(),
        },
        house_power: Seq::empty(),
        servers_power: Seq::empty(),
        loads: LoadsV {
            stove: dead_load(),
            car: dead_load(),
            water_heater: dead_load(),
            washer: dead_load(),
            dryer: dead_load(),
        },
        indoor: Seq::empty(),
        printer: PrinterV {
            status: Seq::empty(),
            mode: Seq::empty(),
            active: false,
            progress: Seq::empty(),
            time_left: Seq::empty(),
        },
        lights: LightsV { ceiling: dead_toggle(), monitor: dead_toggle(), summary: Seq::empty() },
        grafana: dead_toggle(),
        cam_street: dead_toggle(),
        cam_gallery: dead_toggle(),
        kiosk_display: dead_toggle(),
        kiosk_display_mode: Seq::empty(),
        fan: Fan { available: false, on: false, pending: false, percentage: 0 },
        preset_active: -1,
        preset_pending: -1,
        toast_text: Seq::empty(),
        toast_visible: false,
        overlay: Overlay::Clear,
        wake_guard: false,
    }
}

fn no_toggle() -> (r: ToggleState)
    ensures
        r == dead_toggle(),
{
    ToggleState { on: false, pending: false, available: false }
}

fn no_load() -> (r: LoadState)
    ensures
        r@ == dead_load(),
{
    LoadState {
        on: false,
        available: false,
        configured: false,
        power: String::new(),
        badge: String::new(),
    }
}

impl Window {
    /// The window before anything is known.
    pub fn new() -> (r: Window)
        ensures
            r@ == empty_window(),
    {
        let r = Window {
            indoor_label: String::new(),
            touch_test: false,
            time_hm: String::new(),
            time_s: String::new(),
            date: String::new(),
            weekday: String::new(),
            zones: Vec::new(),
            connecting: false,
            connecting_detail: String::new(),
            ha_online: false,
            weather: Weather {
                line: String::new(),
                condition: String::new(),
                icon: String::new(),
                place: String::new(),
            },
            house_power: String::new(),
            servers_power: String::new(),
            loads: Loads {
                stove: no_load(),
                car: no_load(),
                water_heater: no_load(),
                washer: no_load(),
                dryer: no_load(),
            },
            indoor: String::new(),
            printer: Printer {
                status: String::new(),
                mode: String::new(),
                active: false,
                progress: String::new(),
                time_left: String::new(),
            },
            lights: Lights { ceiling: no_toggle(), monitor: no_toggle(), summary: String::new() },
            grafana: no_toggle(),
            cam_street: no_toggle(),
            cam_gallery: no_toggle(),
            kiosk_display: no_toggle(),
            kiosk_display_mode: String::new(),
            fan: Fan { available: false, on: false, pending: false, percentage: 0 },
            preset_active: -1,
            preset_pending: -1,
            toast_text: String::new(),
            toast_visible: false,
            overlay: Overlay::Clear,
            wake_guard: false,
        };
        proof {
            reveal(window_view);
            assert(r@.zones =~= Seq::empty());
        }
        r
    }
}

// ---------------- effects ----------------

/// One thing to carry out. A timer that is started again starts over.
#[derive(Debug, PartialEq)]
pub enum Effect {
    /// A call for Home Assistant. `Ui::call_not_sent` where it cannot be handed on.
    Call(ServiceCall),
    /// `Ui::call_timeout` for this request, after this span.
    CallTimer { request: u64, span: u64 },
    /// `Ui::disconnect_elapsed`, after this span.
    DisconnectTimer(u64),
    StopDisconnectTimer,
    /// `Ui::toast_elapsed`, after this span.
    ToastTimer(u64),
    /// `Ui::end_wake`, after this span.
    WakeTimer(u64),
    /// `Ui::freeze`, after this span.
    FreezeTimer(u64),
    /// `Ui::cut_signal`, after this span.
    CutTimer(u64),
    /// Neither of the last two.
    StopPanelTimer,
    /// Remember the light between restarts.
    SaveLight(LightState),
    /// Tell Home Assistant about the light.
    PublishLight(LightState),
    Backlight(u8),
    /// The panel's signal, on or off. `Ui::thaw` where it cannot be turned off.
    Panel(bool),
    /// `Ui::tick` with the time of now.
    Tick,
}

/// The model of an `Effect`.
#[verifier::ext_equal]
pub enum EffectV {
    Call(ServiceCallV),
    CallTimer { request: u64, span: u64 },
    DisconnectTimer(u64),
    StopDisconnectTimer,
    ToastTimer(u64),
    WakeTimer(u64),
    FreezeTimer(u64),
    CutTimer(u64),
    StopPanelTimer,
    SaveLight(LightState),
    PublishLight(LightState),
    Backlight(u8),
    Panel(bool),
    Tick,
}

impl View for Effect {
    type V = EffectV;

    open spec fn view(&self) -> EffectV {
        match self {
            Effect::Call(c) => EffectV::Call(c@),
            Effect::CallTimer { request, span } => EffectV::CallTimer {
                request: *request,
                span: *span,
            },
            Effect::DisconnectTimer(s) => EffectV::DisconnectTimer(*s),
            Effect::StopDisconnectTimer => EffectV::StopDisconnectTimer,
            Effect::ToastTimer(s) => EffectV::ToastTimer(*s),
            Effect::WakeTimer(s) => EffectV::WakeTimer(*s),
            Effect::FreezeTimer(s) => EffectV::FreezeTimer(*s),
            Effect::CutTimer(s) => EffectV::CutTimer(*s),
            Effect::StopPanelTimer => EffectV::StopPanelTimer,
            Effect::SaveLight(l) => EffectV::SaveLight(*l),
            Effect::PublishLight(l) => EffectV::PublishLight(*l),
            Effect::Backlight(b) => EffectV::Backlight(*b),
            Effect::Panel(on) => EffectV::Panel(*on),
            Effect::Tick => EffectV::Tick,
        }
    }
}

/// The models of a list of effects.
pub open spec fn effect_views(v: Seq<Effect>) -> Seq<EffectV> {
    v.map_values(|e: Effect| e@)
}

fn nothing() -> (r: Vec<Effect>)
    ensures
        effect_views(r@) == Seq::<EffectV>::empty(),
{
    let r: Vec<Effect> = Vec::new();
    assert(effect_views(r@) =~= Seq::<EffectV>::empty());
    r
}

fn push(v: &mut Vec<Effect>, e: Effect)
    ensures
        effect_views(final(v)@) == effect_views(old(v)@).push(e@),
{
    let ghost was = v@;
    v.push(e);
    assert(effect_views(v@) =~= effect_views(was).push(e@));
}

fn extend(v: &mut Vec<Effect>, more: Vec<Effect>)
    ensures
        effect_views(final(v)@) == effect_views(old(v)@) + effect_views(more@),
{
    let ghost was = v@;
    let mut more = more;
    let ghost m = more@;
    v.append(&mut more);
    assert(effect_views(v@) =~= effect_views(was) + effect_views(m));
}

fn one(e: Effect) -> (r: Vec<Effect>)
    ensures
        effect_views(r@) == seq![e@],
{
    let mut r = nothing();
    push(&mut r, e);
    assert(effect_views(r@) =~= seq![e@]);
    r
}

// ---------------- the controller ----------------

/// The screen's controller.
#[derive(Debug)]
pub struct Ui {
    pub cfg: Config,
    /// The power above which the car charges, in watts.
    pub car_threshold_w: Reading,
    /// The panel's signal can be turned off.
    pub has_dpms: bool,
    pub has_backlight: bool,
    pub ha_token_missing: bool,
    pub ha_connected: bool,
    pub time_synced: bool,
    pub entities: TextMap<Measured>,
    pub light: LightState,
    pub awake: bool,
    /// The signal is off, or about to be: nothing in the window may change until `thaw`.
    pub frozen: bool,
    /// Something would have changed while frozen.
    pub dirty: bool,
    pub next_request: u64,
    /// The calls under way, in the order of their requests.
    pub inflight: Vec<Inflight>,
    pub last_clock: Option<ClockText>,
    /// The IoTaWatt gives the house total, so its watts win over the Home Assistant sensor.
    pub house_live: bool,
    /// The IoTaWatt gives the servers' draw, so its watts win over the Home Assistant sensor.
    pub servers_live: bool,
    pub window: Window,
}

/// The model of a `Ui`.
pub struct UiV {
    pub cfg: Config,
    pub car_threshold_w: Reading,
    pub has_dpms: bool,
    pub has_backlight: bool,
    pub ha_token_missing: bool,
    pub ha_connected: bool,
    pub time_synced: bool,
    pub entities: EntitiesV,
    pub light: LightState,
    pub awake: bool,
    pub frozen: bool,
    pub dirty: bool,
    pub next_request: u64,
    pub inflight: Seq<InflightV>,
    pub last_clock: Option<ClockV>,
    pub house_live: bool,
    pub servers_live: bool,
    pub window: WindowV,
}

/// Clock texts that may be missing, by their model.
pub open spec fn opt_clock(c: Option<ClockText>) -> Option<ClockV> {
    match c {
        Some(c) => Some(c@),
        None => None,
    }
}

/// What a `Ui` models.
#[verifier::opaque]
pub open spec fn ui_view(u: Ui) -> UiV {
    UiV {
        cfg: u.cfg,
        car_threshold_w: u.car_threshold_w,
        has_dpms: u.has_dpms,
        has_backlight: u.has_backlight,
        ha_token_missing: u.ha_token_missing,
        ha_connected: u.ha_connected,
        time_synced: u.time_synced,
        entities: u.entities@,
        light: u.light,
        awake: u.awake,
        frozen: u.frozen,
        dirty: u.dirty,
        next_request: u.next_request,
        inflight: inflight_views(u.inflight@),
        last_clock: opt_clock(u.last_clock),
        house_live: u.house_live,
        servers_live: u.servers_live,
        window: u.window@,
    }
}

impl View for Ui {
    type V = UiV;

    open spec fn view(&self) -> UiV {
        ui_view(*self)
    }
}

/// The model of a controller, field by field.
pub proof fn lemma_ui_fields(u: Ui)
    ensures
        u@.cfg == u.cfg,
        u@.car_threshold_w == u.car_threshold_w,
        u@.has_dpms == u.has_dpms,
        u@.has_backlight == u.has_backlight,
        u@.ha_token_missing == u.ha_token_missing,
        u@.ha_connected == u.ha_connected,
        u@.time_synced == u.time_synced,
        u@.entities == u.entities@,
        u@.light == u.light,
        u@.awake == u.awake,
        u@.frozen == u.frozen,
        u@.dirty == u.dirty,
        u@.next_request == u.next_request,
        u@.inflight == inflight_views(u.inflight@),
        u@.last_clock == opt_clock(u.last_clock),
        u@.house_live == u.house_live,
        u@.servers_live == u.servers_live,
        u@.window == u.window@,
{
    reveal(ui_view);
}

/// Models of a controller with the same fields are the same.
pub proof fn lemma_same_ui(a: UiV, b: UiV)
    requires
        a.cfg == b.cfg,
        a.car_threshold_w == b.car_threshold_w,
        a.has_dpms == b.has_dpms,
        a.has_backlight == b.has_backlight,
        a.ha_token_missing == b.ha_token_missing,
        a.ha_connected == b.ha_connected,
        a.time_synced == b.time_synced,
        a.entities == b.entities,
        a.light == b.light,
        a.awake == b.awake,
        a.frozen == b.frozen,
        a.dirty == b.dirty,
        a.next_request == b.next_request,
        a.inflight == b.inflight,
        a.last_clock == b.last_clock,
        a.house_live == b.house_live,
        a.servers_live == b.servers_live,
        a.window == b.window,
    ensures
        a == b,
{
}

/// The only way to change the window: not while frozen.
pub open spec fn shown_with(u: UiV, w: WindowV) -> UiV {
    if u.frozen {
        UiV { dirty: true, ..u }
    } else {
        UiV { window: w, ..u }
    }
}

/// The entity is one of the loads.
pub open spec fn is_load_id(cfg: Config, id: Seq<char>) -> bool {
    let e = cfg.entities;
    !blank(id) && (id == e.stove_power@ || id == e.car_charge_power@ || id == e.car_battery@ || id
        == e.water_heater_power@ || id == e.washer_power@ || id == e.dryer_power@)
}

/// The entity is one of the printer's.
pub open spec fn is_printer_id(cfg: Config, id: Seq<char>) -> bool {
    let e = cfg.entities;
    id == e.printer_progress@ || id == e.printer_time_left@ || id == e.printer_power@ || id
        == e.printer_print_state@ || id == e.printer_klipper_state@
}

/// The window with what it shows of one entity that has a control on it brought up to date.
#[verifier::opaque]
pub open spec fn control_refreshed(u: UiV, id: Seq<char>) -> WindowV {
    let e = u.cfg.entities;
    let es = u.entities;
    let v = u.inflight;
    let w = u.window;
    if id == e.light_ceiling@ || id == e.light_monitor@ {
        WindowV {
            preset_active: active_preset(u.cfg, es),
            lights: lights_of(u.cfg, es, v),
            ..w
        }
    } else if id == e.kiosk_grafana@ {
        WindowV { grafana: toggle_of(es, v, id, ToggleKey::Grafana), ..w }
    } else if !blank(id) && id == e.kiosk_camera@ {
        WindowV {
            cam_street: camera_of(
                at(es, id),
                v,
                e.kiosk_camera_street_option@,
                ToggleKey::CamStreet,
            ),
            cam_gallery: camera_of(
                at(es, id),
                v,
                e.kiosk_camera_gallery_option@,
                ToggleKey::CamGallery,
            ),
            ..w
        }
    } else if id == e.kiosk_display_power@ {
        WindowV {
            kiosk_display: toggle_of(es, v, id, ToggleKey::Display),
            kiosk_display_mode: mode_of(at(es, id)),
            ..w
        }
    } else {
        w
    }
}

/// The entity has a control on it.
pub open spec fn has_control(cfg: Config, id: Seq<char>) -> bool {
    let e = cfg.entities;
    id == e.light_ceiling@ || id == e.light_monitor@ || id == e.kiosk_grafana@ || (!blank(id) && id
        == e.kiosk_camera@) || id == e.kiosk_display_power@
}

/// The window with what it shows of one entity brought up to date.
#[verifier::opaque]
pub open spec fn refreshed(u: UiV, id: Seq<char>) -> WindowV {
    let e = u.cfg.entities;
    let es = u.entities;
    let v = u.inflight;
    let w = u.window;
    if id == e.weather@ {
        WindowV { weather: weather_of(u.cfg, at(es, id)), ..w }
    } else if id == e.house_power@ {
        WindowV { house_power: power_text(state_figure(at(es, id))), ..w }
    } else if !blank(id) && id == e.office_fan@ {
        WindowV { fan: fan_of(at(es, id), v), ..w }
    } else if !blank(id) && id == e.servers_power@ {
        WindowV { servers_power: power_text(state_figure(at(es, id))), ..w }
    } else if is_load_id(u.cfg, id) {
        WindowV { loads: loads_of(u.cfg, u.car_threshold_w, es), ..w }
    } else if !blank(id) && (id == e.office_temperature@ || id == e.office_humidity@) {
        WindowV { indoor: indoor_of(u.cfg, es), ..w }
    } else if is_printer_id(u.cfg, id) {
        WindowV { printer: printer_of(u.cfg, es), ..w }
    } else {
        control_refreshed(u, id)
    }
}

/// Whether the window shows anything of an entity now. The house total and the servers' draw each
/// come from elsewhere while the IoTaWatt gives them.
#[verifier::opaque]
pub open spec fn shown(u: UiV, id: Seq<char>) -> bool {
    let e = u.cfg.entities;
    if id == e.weather@ {
        true
    } else if id == e.house_power@ {
        !u.house_live
    } else if !blank(id) && id == e.office_fan@ {
        true
    } else if !blank(id) && id == e.servers_power@ {
        !u.servers_live
    } else {
        is_load_id(u.cfg, id) || (!blank(id) && (id == e.office_temperature@ || id
            == e.office_humidity@)) || is_printer_id(u.cfg, id) || has_control(u.cfg, id)
    }
}

/// After an entity changed.
pub open spec fn entity_step(u: UiV, id: Seq<char>) -> UiV {
    if shown(u, id) {
        shown_with(u, refreshed(u, id))
    } else {
        u
    }
}

/// After several entities changed.
pub open spec fn entities_step(u: UiV, ids: Seq<Seq<char>>) -> UiV
    decreases ids.len(),
{
    if ids.len() == 0 {
        u
    } else {
        entity_step(entities_step(u, ids.drop_last()), ids.last())
    }
}

/// The entities whose controls can be waiting for an answer.
pub open spec fn control_ids(cfg: Config) -> Seq<Seq<char>> {
    let e = cfg.entities;
    seq![
        e.light_ceiling@,
        e.light_monitor@,
        e.kiosk_grafana@,
        e.kiosk_camera@,
        e.kiosk_display_power@,
        e.office_fan@,
    ]
}

/// After the calls under way changed.
#[verifier::opaque]
pub open spec fn pending_step(u: UiV) -> UiV {
    let c = entities_step(u, control_ids(u.cfg));
    shown_with(c, WindowV { preset_pending: pending_preset(u.inflight), ..c.window })
}

/// What the connecting screen is waiting for.
pub open spec fn waiting_for(ha: bool, synced: bool, token_missing: bool) -> Seq<char> {
    let link = if token_missing {
        "HA_TOKEN MANQUANT DANS /etc/barclock.env"@
    } else {
        "HOME ASSISTANT"@
    };
    if !ha && !synced {
        link + " · "@ + "HORLOGE NTP"@
    } else if !ha {
        link
    } else if !synced {
        "HORLOGE NTP"@
    } else {
        Seq::empty()
    }
}

/// After the link or the clock changed: the dashboard shows once Home Assistant is connected and
/// the clock is synchronized.
#[verifier::opaque]
pub open spec fn connecting_step(u: UiV) -> UiV {
    shown_with(
        u,
        WindowV {
            connecting: !(u.ha_connected && u.time_synced),
            connecting_detail: waiting_for(u.ha_connected, u.time_synced, u.ha_token_missing),
            ha_online: u.ha_connected,
            ..u.window
        },
    )
}

/// A toast.
pub open spec fn toast_step(u: UiV, text: Seq<char>) -> UiV {
    shown_with(u, WindowV { toast_text: text, toast_visible: true, ..u.window })
}

/// How long a toast stays.
pub open spec fn toast_timer(u: UiV) -> EffectV {
    EffectV::ToastTimer(span_of(u.cfg.display.toast_seconds))
}

// ---------------- calls ----------------

/// The calls under way without this request.
pub open spec fn without_request(v: Seq<InflightV>, request: u64) -> Seq<InflightV>
    decreases v.len(),
{
    if v.len() == 0 {
        v
    } else if v.last().request == request {
        without_request(v.drop_last(), request)
    } else {
        without_request(v.drop_last(), request).push(v.last())
    }
}

/// The calls under way that do not wait for this entity.
pub open spec fn not_waiting_for(v: Seq<InflightV>, id: Seq<char>) -> Seq<InflightV>
    decreases v.len(),
{
    if v.len() == 0 {
        v
    } else if v.last().entities.contains(id) {
        not_waiting_for(v.drop_last(), id)
    } else {
        not_waiting_for(v.drop_last(), id).push(v.last())
    }
}

/// The place of the call with this request, or the number of calls.
pub open spec fn request_place(v: Seq<InflightV>, request: u64) -> int
    decreases v.len(),
{
    if v.len() == 0 || v[0].request == request {
        0
    } else {
        1 + request_place(v.drop_first(), request)
    }
}

/// A call goes out under the next request, and its control waits for the answer.
pub open spec fn send_step(u: UiV, call: ServiceCallV, key: PendingKey) -> UiV {
    let request = (u.next_request + 1) as u64;
    pending_step(
        UiV {
            next_request: request,
            inflight: u.inflight.push(
                InflightV { request, key, entities: call.entity_ids, confirmed: false },
            ),
            ..u
        },
    )
}

/// What sending a call takes.
pub open spec fn send_effects(u: UiV, call: ServiceCallV) -> Seq<EffectV> {
    let request = (u.next_request + 1) as u64;
    seq![
        EffectV::CallTimer { request, span: span_of(u.cfg.homeassistant.call_timeout_s) },
        EffectV::Call(ServiceCallV { request, ..call }),
    ]
}

/// A call, before it is given its request.
pub open spec fn call_to(
    domain: Seq<char>,
    service: Seq<char>,
    data: JsonV,
    ids: Seq<Seq<char>>,
) -> ServiceCallV {
    ServiceCallV { request: 0, domain, service, service_data: data, entity_ids: ids }
}

/// `{"brightness": n, "transition": 1}`, under the key that says what `n` is.
pub open spec fn dimming(key: Seq<char>, n: nat) -> JsonV {
    JsonV::Object(
        seq![
            (key, JsonV::Number(decimal(n))),
            ("transition"@, JsonV::Number(decimal(1))),
        ],
    )
}

/// The calls of a light preset: dimmed for the screen, half, full, off. Any other number is none.
pub open spec fn preset_calls(cfg: Config, i: i32) -> Seq<ServiceCallV> {
    let ceiling = cfg.entities.light_ceiling@;
    let monitor = cfg.entities.light_monitor@;
    let both = seq![ceiling, monitor];
    if i == 0 {
        seq![
            call_to("light"@, "turn_on"@, dimming("brightness"@, 1), seq![ceiling]),
            call_to("light"@, "turn_on"@, dimming("brightness_pct"@, 33), seq![monitor]),
        ]
    } else if i == 1 {
        seq![call_to("light"@, "turn_on"@, dimming("brightness"@, 127), both)]
    } else if i == 2 {
        seq![call_to("light"@, "turn_on"@, dimming("brightness"@, 255), both)]
    } else if i == 3 {
        seq![
            call_to(
                "light"@,
                "turn_off"@,
                JsonV::Object(seq![("transition"@, JsonV::Number(decimal(1)))]),
                both,
            ),
        ]
    } else {
        Seq::empty()
    }
}

/// After several calls from one control.
pub open spec fn send_all(u: UiV, calls: Seq<ServiceCallV>, key: PendingKey) -> (UiV, Seq<EffectV>)
    decreases calls.len(),
{
    if calls.len() == 0 {
        (u, Seq::empty())
    } else {
        let (prev, effects) = send_all(u, calls.drop_last(), key);
        (send_step(prev, calls.last(), key), effects + send_effects(prev, calls.last()))
    }
}

/// The toggle that a button's name means.
pub open spec fn toggle_named(key: Seq<char>) -> Option<ToggleKey> {
    if key == "display"@ {
        Some(ToggleKey::Display)
    } else if key == "cam_street"@ {
        Some(ToggleKey::CamStreet)
    } else if key == "cam_gallery"@ {
        Some(ToggleKey::CamGallery)
    } else if key == "ceiling"@ {
        Some(ToggleKey::Ceiling)
    } else if key == "monitor"@ {
        Some(ToggleKey::Monitor)
    } else if key == "grafana"@ {
        Some(ToggleKey::Grafana)
    } else {
        None
    }
}

/// `{"option": ...}`
pub open spec fn option_data(option: Seq<char>) -> JsonV {
    JsonV::Object(seq![("option"@, JsonV::Text(option))])
}

/// The option that a camera button picks: its camera, or none where it is already showing.
pub open spec fn camera_choice(u: UiV, option: Seq<char>) -> Seq<char> {
    if camera_shows(at(u.entities, u.cfg.entities.kiosk_camera@), option) {
        u.cfg.entities.kiosk_camera_off_option@
    } else {
        option
    }
}

/// The call of a toggle. The monitor and the cameras are options of a select entity, the lights
/// toggle by themselves, the kiosk's page is a switch.
pub open spec fn toggle_call(u: UiV, key: ToggleKey) -> ServiceCallV {
    let e = u.cfg.entities;
    match key {
        ToggleKey::Display => call_to(
            "select"@,
            "select_option"@,
            option_data(
                if is_on(at(u.entities, e.kiosk_display_power@)) {
                    e.kiosk_display_off_option@
                } else {
                    "on"@
                },
            ),
            seq![e.kiosk_display_power@],
        ),
        ToggleKey::CamStreet => call_to(
            "select"@,
            "select_option"@,
            option_data(camera_choice(u, e.kiosk_camera_street_option@)),
            seq![e.kiosk_camera@],
        ),
        ToggleKey::CamGallery => call_to(
            "select"@,
            "select_option"@,
            option_data(camera_choice(u, e.kiosk_camera_gallery_option@)),
            seq![e.kiosk_camera@],
        ),
        ToggleKey::Ceiling => call_to(
            "light"@,
            "toggle"@,
            JsonV::Null,
            seq![e.light_ceiling@],
        ),
        ToggleKey::Monitor => call_to(
            "light"@,
            "toggle"@,
            JsonV::Null,
            seq![e.light_monitor@],
        ),
        ToggleKey::Grafana => call_to(
            "switch"@,
            if is_on(at(u.entities, e.kiosk_grafana@)) {
                "turn_off"@
            } else {
                "turn_on"@
            },
            JsonV::Null,
            seq![e.kiosk_grafana@],
        ),
    }
}

/// After a button was pressed.
pub open spec fn toggle_step(u: UiV, key: Seq<char>) -> (UiV, Seq<EffectV>) {
    match toggle_named(key) {
        Some(k) => (
            send_step(u, toggle_call(u, k), PendingKey::Toggle(k)),
            send_effects(u, toggle_call(u, k)),
        ),
        None => (u, Seq::empty()),
    }
}

/// The call of the fan slider: its percentage, moved into 0..=100.
pub open spec fn fan_call(cfg: Config, pct: i32) -> ServiceCallV {
    call_to(
        "fan"@,
        "set_percentage"@,
        JsonV::Object(
            seq![
                (
                    "percentage"@,
                    JsonV::Number(
                        decimal(
                            (if pct < 0 {
                                0
                            } else if pct > 100 {
                                100
                            } else {
                                pct as int
                            }) as nat,
                        ),
                    ),
                ),
            ],
        ),
        seq![cfg.entities.office_fan@],
    )
}

/// After the fan slider was released.
pub open spec fn fan_step(u: UiV, pct: i32) -> (UiV, Seq<EffectV>) {
    if blank(u.cfg.entities.office_fan@) {
        (u, Seq::empty())
    } else {
        (
            send_step(u, fan_call(u.cfg, pct), PendingKey::Fan),
            send_effects(u, fan_call(u.cfg, pct)),
        )
    }
}

/// After a call could not be handed on.
pub open spec fn not_sent_step(u: UiV, request: u64) -> (UiV, Seq<EffectV>) {
    let v = UiV { inflight: without_request(u.inflight, request), ..u };
    (pending_step(toast_step(v, "Home Assistant indisponible"@)), seq![toast_timer(u)])
}

/// After a call's time was up: a call that was never answered gets a toast, one that was only
/// stops waiting.
pub open spec fn timeout_step(u: UiV, request: u64) -> (UiV, Seq<EffectV>) {
    let i = request_place(u.inflight, request);
    let v = UiV { inflight: without_request(u.inflight, request), ..u };
    if i >= u.inflight.len() {
        (u, Seq::empty())
    } else if u.inflight[i].confirmed {
        (pending_step(v), Seq::empty())
    } else {
        (
            pending_step(toast_step(v, "Pas de réponse de Home Assistant"@)),
            seq![toast_timer(u)],
        )
    }
}

/// After the answer to a call: success is confirmed, failure is shown.
pub open spec fn result_step(u: UiV, request: u64, success: bool, error: Option<Seq<char>>) -> (
    UiV,
    Seq<EffectV>,
) {
    let i = request_place(u.inflight, request);
    if i >= u.inflight.len() {
        (u, Seq::empty())
    } else if success {
        (
            UiV {
                inflight: u.inflight.update(
                    i,
                    InflightV { confirmed: true, ..u.inflight[i] },
                ),
                ..u
            },
            Seq::empty(),
        )
    } else {
        let why = match error {
            Some(e) => e,
            None => "erreur inconnue"@,
        };
        let v = UiV { inflight: without_request(u.inflight, request), ..u };
        (pending_step(toast_step(v, "Échec : "@ + why)), seq![toast_timer(u)])
    }
}

/// After an entity's state came in: calls that waited for it wait no more.
pub open spec fn state_step(u: UiV, id: Seq<char>, m: MeasuredV) -> UiV {
    let left = not_waiting_for(u.inflight, id);
    let v = UiV { entities: u.entities.insert(id, m), inflight: left, ..u };
    if left.len() != u.inflight.len() {
        entity_step(pending_step(v), id)
    } else {
        entity_step(v, id)
    }
}

/// After an entity disappeared.
pub open spec fn removed_step(u: UiV, id: Seq<char>) -> UiV {
    entity_step(UiV { entities: u.entities.remove(id), ..u }, id)
}

/// After the IoTaWatt gave the house total, or did not: then its own sensor is shown.
#[verifier::opaque]
pub open spec fn house_step(u: UiV, watts: Option<QuantityV>) -> UiV {
    let figure = match watts {
        Some(w) => Some(w),
        None => state_figure(at(u.entities, u.cfg.entities.house_power@)),
    };
    shown_with(
        UiV { house_live: watts is Some, ..u },
        WindowV { house_power: power_text(figure), ..u.window },
    )
}

/// After the IoTaWatt gave the servers' draw, or did not: then its own sensor is shown, where there
/// is one.
#[verifier::opaque]
pub open spec fn servers_step(u: UiV, watts: Option<QuantityV>) -> UiV {
    let id = u.cfg.entities.servers_power@;
    let figure = match watts {
        Some(w) => Some(w),
        None => state_figure(at(u.entities, id)),
    };
    let v = UiV { servers_live: watts is Some, ..u };
    if watts is None && blank(id) {
        v
    } else {
        shown_with(v, WindowV { servers_power: power_text(figure), ..u.window })
    }
}

/// What the house total's coming or not coming changes.
#[verifier::spinoff_prover]
#[verifier::rlimit(80)]
pub proof fn lemma_house_step(u: UiV, watts: Option<QuantityV>)
    ensures
        house_step(u, watts) == (UiV {
            house_live: watts is Some,
            window: house_step(u, watts).window,
            dirty: house_step(u, watts).dirty,
            ..u
        }),
        house_step(u, watts).window.servers_power == u.window.servers_power,
        u.frozen ==> house_step(u, watts).window == u.window,
        !u.frozen ==> house_step(u, watts).window.house_power == power_text(
            match watts {
                Some(w) => Some(w),
                None => state_figure(at(u.entities, u.cfg.entities.house_power@)),
            },
        ),
{
    let t = house_step(u, watts);
    let figure = match watts {
        Some(w) => Some(w),
        None => state_figure(at(u.entities, u.cfg.entities.house_power@)),
    };
    let v = UiV { house_live: watts is Some, ..u };
    let w = WindowV { house_power: power_text(figure), ..u.window };
    assert(t == shown_with(v, w)) by {
        reveal(house_step);
    }
    lemma_shown_keeps(v, w);
    lemma_keeps_all(v, t);
}

/// What the servers' draw's coming or not coming changes.
#[verifier::spinoff_prover]
#[verifier::rlimit(80)]
pub proof fn lemma_servers_step(u: UiV, watts: Option<QuantityV>)
    ensures
        servers_step(u, watts) == (UiV {
            servers_live: watts is Some,
            window: servers_step(u, watts).window,
            dirty: servers_step(u, watts).dirty,
            ..u
        }),
        servers_step(u, watts).window.house_power == u.window.house_power,
        u.frozen ==> servers_step(u, watts).window == u.window,
        !u.frozen && (watts is Some || !blank(u.cfg.entities.servers_power@)) ==> servers_step(
            u,
            watts,
        ).window.servers_power == power_text(
            match watts {
                Some(w) => Some(w),
                None => state_figure(at(u.entities, u.cfg.entities.servers_power@)),
            },
        ),
{
    let t = servers_step(u, watts);
    let id = u.cfg.entities.servers_power@;
    let figure = match watts {
        Some(w) => Some(w),
        None => state_figure(at(u.entities, id)),
    };
    let v = UiV { servers_live: watts is Some, ..u };
    let w = WindowV { servers_power: power_text(figure), ..u.window };
    assert(t == if watts is None && blank(id) {
        v
    } else {
        shown_with(v, w)
    }) by {
        reveal(servers_step);
    }
    lemma_shown_keeps(v, w);
    lemma_keeps_on(v, v, v);
    lemma_keeps_all(v, t);
}

/// The house total, where the IoTaWatt gives it.
pub open spec fn given_house(e: PowerEventV) -> Option<QuantityV> {
    match e {
        PowerEventV::Live { house, .. } => house,
        PowerEventV::Down => None,
    }
}

/// The servers' draw, where the IoTaWatt gives it.
pub open spec fn given_servers(e: PowerEventV) -> Option<QuantityV> {
    match e {
        PowerEventV::Live { servers, .. } => servers,
        PowerEventV::Down => None,
    }
}

/// After news from the IoTaWatt. A value that it gives wins over the Home Assistant sensor; one
/// that it leaves out keeps using its own sensor, and when it stops answering both do.
pub open spec fn power_step(u: UiV, e: PowerEventV) -> UiV {
    servers_step(house_step(u, given_house(e)), given_servers(e))
}

// ---------------- brightness and panel power ----------------

/// The brightness that the screen has now: a wake window is at least as bright as configured, a
/// light that is off is dark.
pub open spec fn brightness_now(u: UiV) -> u8 {
    let d = u.cfg.display;
    if u.awake {
        if u.light.on && u.light.brightness > d.wake_brightness {
            u.light.brightness
        } else {
            d.wake_brightness
        }
    } else if u.light.on {
        u.light.brightness
    } else {
        0
    }
}

/// A touch wakes the screen instead of operating a control.
pub open spec fn guarded(u: UiV) -> bool {
    !u.awake && brightness_now(u) < u.cfg.display.readable_threshold
}

/// After the signal came back: everything is brought up to date.
#[verifier::opaque]
pub open spec fn thaw_step(u: UiV) -> (UiV, Seq<EffectV>) {
    let v = UiV { frozen: false, dirty: false, ..u };
    if !u.frozen {
        (v, Seq::empty())
    } else {
        (
            pending_step(entities_step(connecting_step(v), named(v.cfg.all_ids()))),
            if u.has_dpms {
                seq![EffectV::Panel(true), EffectV::Tick]
            } else {
                seq![EffectV::Tick]
            },
        )
    }
}

/// After the brightness may have changed. Off goes in steps: first the black frame, then, once it
/// has reached the panel, the freeze, then the signal.
#[verifier::opaque]
pub open spec fn screen_step(u: UiV) -> (UiV, Seq<EffectV>) {
    let eff = brightness_now(u);
    let stop = seq![EffectV::StopPanelTimer];
    if eff == 0 {
        if u.frozen {
            (u, stop)
        } else {
            let dark = if u.has_backlight {
                stop.push(EffectV::Backlight(0))
            } else {
                stop
            };
            (
                UiV { window: WindowV { overlay: Overlay::Full, wake_guard: true, ..u.window }, ..u },
                if u.has_dpms {
                    dark.push(EffectV::FreezeTimer(millis_span(u.cfg.display.dpms_delay_ms)))
                } else {
                    dark
                },
            )
        }
    } else {
        let (t, effects) = thaw_step(u);
        (
            UiV {
                window: WindowV {
                    overlay: if u.has_backlight {
                        Overlay::Clear
                    } else {
                        Overlay::Level(eff)
                    },
                    wake_guard: guarded(u),
                    ..t.window
                },
                ..t
            },
            if u.has_backlight {
                (stop + effects).push(EffectV::Backlight(eff))
            } else {
                stop + effects
            },
        )
    }
}

/// After the light changed.
pub open spec fn light_step(u: UiV, save: bool) -> (UiV, Seq<EffectV>) {
    let (v, effects) = screen_step(u);
    (
        v,
        (if save {
            seq![EffectV::SaveLight(u.light), EffectV::PublishLight(u.light)]
        } else {
            seq![EffectV::PublishLight(u.light)]
        }) + effects,
    )
}

/// The light that a command makes of a light.
pub open spec fn commanded(light: LightState, c: LightCommandV) -> LightState {
    match c {
        LightCommandV::Apply { on, brightness, .. } => LightState {
            on,
            brightness: match brightness {
                Some(b) => lit(b),
                None => light.brightness,
            },
        },
        LightCommandV::Restore(s) => s,
    }
}

/// After the screen was touched while dark or dimmed.
pub open spec fn wake_step(u: UiV) -> (UiV, Seq<EffectV>) {
    let (v, effects) = screen_step(UiV { awake: true, ..u });
    (v, seq![EffectV::WakeTimer(span_of(u.cfg.display.wake_seconds))] + effects)
}

// ---------------- clock ----------------

/// The time without its seconds, and the seconds: `15:04:` and `09`.
pub open spec fn time_parts(t: Seq<char>) -> (Seq<char>, Seq<char>) {
    let n = if t.len() >= 2 {
        t.len() - 2
    } else {
        0
    };
    (t.take(n), t.skip(n))
}

/// The rows of the extra zones, with the times that there are for them.
pub open spec fn zone_rows(
    rows: Seq<(Seq<char>, Seq<char>)>,
    zones: Seq<(Seq<char>, Seq<char>)>,
) -> Seq<(Seq<char>, Seq<char>)> {
    Seq::new(
        rows.len(),
        |i: int|
            if i < zones.len() {
                (rows[i].0, zones[i].1)
            } else {
                rows[i]
            },
    )
}

/// With the clock's texts in the window.
#[verifier::opaque]
pub open spec fn clock_step(u: UiV, c: ClockV) -> UiV {
    UiV {
        last_clock: Some(c),
        window: WindowV {
            time_hm: time_parts(c.time).0,
            time_s: time_parts(c.time).1,
            date: c.date,
            weekday: upper_text(c.weekday),
            zones: zone_rows(u.window.zones, c.zones),
            ..u.window
        },
        ..u
    }
}

/// After a second has passed.
#[verifier::opaque]
pub open spec fn tick_step(u: UiV, c: ClockV) -> UiV {
    if u.frozen || u.last_clock == Some(c) {
        u
    } else {
        clock_step(u, c)
    }
}

// ---------------- start, end and the link ----------------

/// At the start: the time is asked for, and the light is told of and not remembered again.
pub open spec fn start_step(u: UiV) -> (UiV, Seq<EffectV>) {
    let (v, effects) = light_step(connecting_step(u), false);
    (v, seq![EffectV::Tick] + effects)
}

/// At the end: the panel is turned back on, where it can be turned off.
pub open spec fn shutdown_effects(u: UiV) -> Seq<EffectV> {
    if u.has_dpms {
        seq![EffectV::Panel(true)]
    } else {
        Seq::empty()
    }
}

/// After the clock was synchronized.
pub open spec fn synced_step(u: UiV) -> UiV {
    connecting_step(UiV { time_synced: true, ..u })
}

/// After Home Assistant was connected.
pub open spec fn connected_step(u: UiV) -> UiV {
    connecting_step(UiV { ha_connected: true, ..u })
}

/// How long the dashboard stays without a link.
pub open spec fn grace_timer(u: UiV) -> EffectV {
    EffectV::DisconnectTimer(span_of(u.cfg.homeassistant.connecting_after_s))
}

/// After the link stayed down for that long.
pub open spec fn dropped_step(u: UiV) -> UiV {
    connecting_step(UiV { ha_connected: false, ..u })
}

/// After the black frame has reached the panel.
pub open spec fn freeze_step(u: UiV) -> (UiV, Seq<EffectV>) {
    (UiV { frozen: true, ..u }, seq![EffectV::CutTimer(millis_span(1000))])
}

/// What cuts the signal, where it can be cut.
pub open spec fn cut_effects(u: UiV) -> Seq<EffectV> {
    if u.has_dpms {
        seq![EffectV::Panel(false)]
    } else {
        Seq::empty()
    }
}

/// After the wake window.
pub open spec fn doze_step(u: UiV) -> (UiV, Seq<EffectV>) {
    screen_step(UiV { awake: false, ..u })
}

/// What a touch on a control does for the wake window.
pub open spec fn activity_effects(u: UiV) -> Seq<EffectV> {
    if u.awake {
        seq![EffectV::WakeTimer(span_of(u.cfg.display.wake_seconds))]
    } else {
        Seq::empty()
    }
}

/// After the toast's time.
pub open spec fn toast_over(u: UiV) -> UiV {
    shown_with(u, WindowV { toast_visible: false, ..u.window })
}

// ---------------- carrying it out ----------------

fn find_request(v: &Vec<Inflight>, request: u64) -> (r: usize)
    ensures
        r == request_place(inflight_views(v@), request),
        r <= v@.len(),
{
    let ghost all = inflight_views(v@);
    let mut i: usize = 0;
    assert(all.skip(0) =~= all);
    while i < v.len()
        invariant
            i <= v@.len(),
            all == inflight_views(v@),
            request_place(all, request) == i + request_place(all.skip(i as int), request),
        decreases v@.len() - i,
    {
        assert(all.skip(i as int)[0] == v@[i as int]@);
        if v[i].request == request {
            return i;
        }
        assert(all.skip(i as int).drop_first() =~= all.skip(i + 1));
        i = i + 1;
    }
    i
}

fn drop_request(v: &mut Vec<Inflight>, request: u64)
    ensures
        inflight_views(final(v)@) == without_request(inflight_views(old(v)@), request),
{
    let ghost o = inflight_views(v@);
    let total = v.len();
    let mut done: usize = 0;
    let mut i: usize = 0;
    assert(o.take(0) =~= Seq::empty());
    assert(inflight_views(v@) =~= without_request(o.take(0), request) + o.skip(0));
    while done < total
        invariant
            done <= total,
            total == o.len(),
            i == without_request(o.take(done as int), request).len(),
            inflight_views(v@) == without_request(o.take(done as int), request) + o.skip(
                done as int,
            ),
        decreases total - done,
    {
        let ghost kept = without_request(o.take(done as int), request);
        let ghost was = inflight_views(v@);
        proof {
            assert(o.take(done + 1).drop_last() =~= o.take(done as int));
            assert(o.take(done + 1).last() == o[done as int]);
            assert(was.len() == kept.len() + (o.len() - done));
            assert(was[i as int] == o[done as int]);
            assert(was[i as int] == v@[i as int]@);
            assert(i < v.len());
        }
        if v[i].request == request {
            let _ = v.remove(i);
            proof {
                assert(inflight_views(v@) =~= was.remove(i as int));
                assert(inflight_views(v@) =~= kept + o.skip(done + 1));
            }
        } else {
            assert(was =~= kept.push(o[done as int]) + o.skip(done + 1));
            i = i + 1;
        }
        done = done + 1;
    }
    assert(o.take(total as int) =~= o);
    assert(inflight_views(v@) =~= without_request(o, request));
}

fn drop_waiting(v: &mut Vec<Inflight>, id: &str)
    ensures
        inflight_views(final(v)@) == not_waiting_for(inflight_views(old(v)@), id@),
{
    let ghost o = inflight_views(v@);
    let total = v.len();
    let mut done: usize = 0;
    let mut i: usize = 0;
    assert(o.take(0) =~= Seq::empty());
    assert(inflight_views(v@) =~= not_waiting_for(o.take(0), id@) + o.skip(0));
    while done < total
        invariant
            done <= total,
            total == o.len(),
            i == not_waiting_for(o.take(done as int), id@).len(),
            inflight_views(v@) == not_waiting_for(o.take(done as int), id@) + o.skip(done as int),
        decreases total - done,
    {
        let ghost kept = not_waiting_for(o.take(done as int), id@);
        let ghost was = inflight_views(v@);
        proof {
            assert(o.take(done + 1).drop_last() =~= o.take(done as int));
            assert(o.take(done + 1).last() == o[done as int]);
            assert(was.len() == kept.len() + (o.len() - done));
            assert(was[i as int] == o[done as int]);
            assert(was[i as int] == v@[i as int]@);
            assert(i < v.len());
        }
        if contains(&v[i].entities, id) {
            let _ = v.remove(i);
            proof {
                assert(inflight_views(v@) =~= was.remove(i as int));
                assert(inflight_views(v@) =~= kept + o.skip(done + 1));
            }
        } else {
            assert(was =~= kept.push(o[done as int]) + o.skip(done + 1));
            i = i + 1;
        }
        done = done + 1;
    }
    assert(o.take(total as int) =~= o);
    assert(inflight_views(v@) =~= not_waiting_for(o, id@));
}

fn one_text(t: &str) -> (r: Vec<String>)
    ensures
        texts(r@) == seq![t@],
{
    let mut v: Vec<String> = Vec::new();
    v.push(t.to_string());
    assert(texts(v@) =~= seq![t@]);
    v
}

fn make_call(domain: &str, service: &str, data: Json, ids: Vec<String>) -> (r: ServiceCall)
    ensures
        r@ == call_to(domain@, service@, data@, texts(ids@)),
{
    ServiceCall {
        request: 0,
        domain: domain.to_string(),
        service: service.to_string(),
        service_data: data,
        entity_ids: ids,
    }
}

fn dimming_data(key: &str, n: u64) -> (r: Json)
    ensures
        r@ == dimming(key@, n as nat),
{
    let j = Members::new().with(key, Json::number(n)).with("transition", Json::number(1)).object();
    assert(j@->Object_0 =~= dimming(key@, n as nat)->Object_0);
    j
}

fn option_json(option: &str) -> (r: Json)
    ensures
        r@ == option_data(option@),
{
    let j = Members::new().with("option", Json::text(option)).object();
    assert(j@->Object_0 =~= option_data(option@)->Object_0);
    j
}

/// The models of a list of calls.
pub open spec fn call_views(v: Seq<ServiceCall>) -> Seq<ServiceCallV> {
    v.map_values(|c: ServiceCall| c@)
}

fn calls_for_preset(cfg: &Config, i: i32) -> (r: Vec<ServiceCall>)
    ensures
        call_views(r@) == preset_calls(*cfg, i),
{
    let ceiling = cfg.entities.light_ceiling.as_str();
    let monitor = cfg.entities.light_monitor.as_str();
    let mut both: Vec<String> = Vec::new();
    both.push(ceiling.to_string());
    both.push(monitor.to_string());
    assert(texts(both@) =~= seq![ceiling@, monitor@]);
    let mut r: Vec<ServiceCall> = Vec::new();
    if i == 0 {
        r.push(make_call("light", "turn_on", dimming_data("brightness", 1), one_text(ceiling)));
        r.push(
            make_call("light", "turn_on", dimming_data("brightness_pct", 33), one_text(monitor)),
        );
    } else if i == 1 {
        r.push(make_call("light", "turn_on", dimming_data("brightness", 127), both));
    } else if i == 2 {
        r.push(make_call("light", "turn_on", dimming_data("brightness", 255), both));
    } else if i == 3 {
        let data = Members::new().with("transition", Json::number(1)).object();
        assert(data@->Object_0 =~= seq![("transition"@, JsonV::Number(decimal(1)))]);
        r.push(make_call("light", "turn_off", data, both));
    }
    assert(call_views(r@) =~= preset_calls(*cfg, i));
    r
}

fn toggle_from(key: &str) -> (r: Option<ToggleKey>)
    ensures
        r == toggle_named(key@),
{
    if same(key, "display") {
        Some(ToggleKey::Display)
    } else if same(key, "cam_street") {
        Some(ToggleKey::CamStreet)
    } else if same(key, "cam_gallery") {
        Some(ToggleKey::CamGallery)
    } else if same(key, "ceiling") {
        Some(ToggleKey::Ceiling)
    } else if same(key, "monitor") {
        Some(ToggleKey::Monitor)
    } else if same(key, "grafana") {
        Some(ToggleKey::Grafana)
    } else {
        None
    }
}

fn same_zones(a: &Vec<(String, String)>, b: &Vec<(String, String)>) -> (r: bool)
    ensures
        r == (zone_views(a@) == zone_views(b@)),
{
    if a.len() != b.len() {
        assert(zone_views(a@).len() != zone_views(b@).len());
        return false;
    }
    let mut i: usize = 0;
    while i < a.len()
        invariant
            i <= a@.len(),
            a@.len() == b@.len(),
            forall|k: int| 0 <= k < i ==> (#[trigger] zone_views(a@)[k]) == zone_views(b@)[k],
        decreases a@.len() - i,
    {
        if !same(a[i].0.as_str(), b[i].0.as_str()) || !same(a[i].1.as_str(), b[i].1.as_str()) {
            assert(zone_views(a@)[i as int] != zone_views(b@)[i as int]);
            return false;
        }
        assert(zone_views(a@)[i as int] == zone_views(b@)[i as int]);
        i = i + 1;
    }
    assert(zone_views(a@) =~= zone_views(b@));
    true
}

fn same_clock(a: &ClockText, b: &ClockText) -> (r: bool)
    ensures
        r == (a@ == b@),
{
    same(a.time.as_str(), b.time.as_str()) && same(a.date.as_str(), b.date.as_str()) && same(
        a.weekday.as_str(),
        b.weekday.as_str(),
    ) && same_zones(&a.zones, &b.zones)
}

fn rows_with(rows: &Vec<(String, String)>, zones: &Vec<(String, String)>) -> (r: Vec<
    (String, String),
>)
    ensures
        zone_views(r@) == zone_rows(zone_views(rows@), zone_views(zones@)),
{
    let mut out: Vec<(String, String)> = Vec::new();
    let mut i: usize = 0;
    while i < rows.len()
        invariant
            i <= rows@.len(),
            out@.len() == i,
            forall|k: int|
                0 <= k < i ==> (#[trigger] zone_views(out@)[k]) == zone_rows(
                    zone_views(rows@),
                    zone_views(zones@),
                )[k],
        decreases rows@.len() - i,
    {
        let ghost was = out@;
        let t = if i < zones.len() { zones[i].1.clone() } else { rows[i].1.clone() };
        out.push((rows[i].0.clone(), t));
        proof {
            assert forall|k: int| 0 <= k < i + 1 implies (#[trigger] zone_views(out@)[k])
                == zone_rows(zone_views(rows@), zone_views(zones@))[k] by {
                if k < i {
                    assert(zone_views(out@)[k] == zone_views(was)[k]);
                }
            }
        }
        i = i + 1;
    }
    assert(zone_views(out@) =~= zone_rows(zone_views(rows@), zone_views(zones@)));
    out
}

/// The rows of the extra zones before the first tick.
pub open spec fn first_rows(zones: Seq<crate::config::Zone>) -> Seq<(Seq<char>, Seq<char>)> {
    zones.map_values(|z: crate::config::Zone| (upper_text(z.label@), "--:--"@))
}

/// The controller at its start.
pub open spec fn new_ui(
    cfg: Config,
    car_threshold_w: Reading,
    has_dpms: bool,
    has_backlight: bool,
    light: LightState,
    ha_token_missing: bool,
    touch_test: bool,
) -> UiV {
    UiV {
        cfg,
        car_threshold_w,
        has_dpms,
        has_backlight,
        ha_token_missing,
        ha_connected: false,
        time_synced: false,
        entities: Map::empty(),
        light,
        awake: false,
        frozen: false,
        dirty: false,
        next_request: 1,
        inflight: Seq::empty(),
        last_clock: None,
        house_live: false,
        servers_live: false,
        window: WindowV {
            indoor_label: upper_text(cfg.general.indoor_label@),
            touch_test,
            zones: first_rows(cfg.clock.zones@),
            ..empty_window()
        },
    }
}

impl Ui {
    /// The controller at its start.
    pub fn new(
        cfg: Config,
        car_threshold_w: Reading,
        has_dpms: bool,
        has_backlight: bool,
        light: LightState,
        ha_token_missing: bool,
        touch_test: bool,
    ) -> (r: Ui)
        ensures
            r@ == new_ui(
                cfg,
                car_threshold_w,
                has_dpms,
                has_backlight,
                light,
                ha_token_missing,
                touch_test,
            ),
    {
        proof {
            reveal(ui_view);
            reveal(window_view);
        }
        let mut window = Window::new();
        window.indoor_label = uppercase(cfg.general.indoor_label.as_str());
        window.touch_test = touch_test;
        window.zones = rows_of(&cfg.clock.zones);
        let r = Ui {
            cfg,
            car_threshold_w,
            has_dpms,
            has_backlight,
            ha_token_missing,
            ha_connected: false,
            time_synced: false,
            entities: TextMap::new(),
            light,
            awake: false,
            frozen: false,
            dirty: false,
            next_request: 1,
            inflight: Vec::new(),
            last_clock: None,
            house_live: false,
        servers_live: false,
            window,
        };
        assert(r@.inflight =~= Seq::empty());
        r
    }

    // ---------------- one change at a time ----------------

    fn set_ha_connected(&mut self, on: bool)
        ensures
            final(self)@ == (UiV { ha_connected: on, ..old(self)@ }),
    {
        proof {
            reveal(ui_view);
        }
        self.ha_connected = on;
    }

    fn mark_synced(&mut self)
        ensures
            final(self)@ == (UiV { time_synced: true, ..old(self)@ }),
    {
        proof {
            reveal(ui_view);
        }
        self.time_synced = true;
    }

    fn set_light(&mut self, light: LightState)
        ensures
            final(self)@ == (UiV { light, ..old(self)@ }),
    {
        proof {
            reveal(ui_view);
        }
        self.light = light;
    }

    fn set_awake(&mut self, awake: bool)
        ensures
            final(self)@ == (UiV { awake, ..old(self)@ }),
    {
        proof {
            reveal(ui_view);
        }
        self.awake = awake;
    }

    fn mark_frozen(&mut self)
        ensures
            final(self)@ == (UiV { frozen: true, ..old(self)@ }),
    {
        proof {
            reveal(ui_view);
        }
        self.frozen = true;
    }

    fn mark_thawed(&mut self)
        ensures
            final(self)@ == (UiV { frozen: false, dirty: false, ..old(self)@ }),
    {
        proof {
            reveal(ui_view);
        }
        self.frozen = false;
        self.dirty = false;
    }

    fn set_house_live(&mut self, live: bool)
        ensures
            final(self)@ == (UiV { house_live: live, ..old(self)@ }),
    {
        proof {
            reveal(ui_view);
        }
        self.house_live = live;
    }

    fn set_servers_live(&mut self, live: bool)
        ensures
            final(self)@ == (UiV { servers_live: live, ..old(self)@ }),
    {
        proof {
            reveal(ui_view);
        }
        self.servers_live = live;
    }

    fn put_entity(&mut self, id: String, m: Measured)
        ensures
            final(self)@ == (UiV { entities: old(self)@.entities.insert(id@, m@), ..old(self)@ }),
    {
        proof {
            reveal(ui_view);
        }
        self.entities.insert(id, m);
    }

    fn take_entity(&mut self, id: &str)
        ensures
            final(self)@ == (UiV { entities: old(self)@.entities.remove(id@), ..old(self)@ }),
    {
        proof {
            reveal(ui_view);
        }
        let _ = self.entities.remove(id);
    }

    fn forget_request(&mut self, request: u64)
        ensures
            final(self)@ == (UiV {
                inflight: without_request(old(self)@.inflight, request),
                ..old(self)@
            }),
    {
        proof {
            reveal(ui_view);
        }
        drop_request(&mut self.inflight, request);
    }

    fn forget_waiting(&mut self, id: &str)
        ensures
            final(self)@ == (UiV {
                inflight: not_waiting_for(old(self)@.inflight, id@),
                ..old(self)@
            }),
    {
        proof {
            reveal(ui_view);
        }
        drop_waiting(&mut self.inflight, id);
    }

    fn confirm(&mut self, i: usize)
        requires
            i < old(self).inflight@.len(),
        ensures
            final(self)@ == (UiV {
                inflight: old(self)@.inflight.update(
                    i as int,
                    InflightV { confirmed: true, ..old(self)@.inflight[i as int] },
                ),
                ..old(self)@
            }),
    {
        proof {
            reveal(ui_view);
        }
        let ghost was = inflight_views(self.inflight@);
        let mut inf = self.inflight.remove(i);
        inf.confirmed = true;
        self.inflight.insert(i, inf);
        assert(inflight_views(self.inflight@) =~= was.update(
            i as int,
            InflightV { confirmed: true, ..was[i as int] },
        ));
    }

    fn add_request(&mut self, key: PendingKey, entities: Vec<String>) -> (request: u64)
        requires
            old(self).next_request < u64::MAX,
        ensures
            request == old(self)@.next_request + 1,
            final(self)@ == (UiV {
                next_request: request,
                inflight: old(self)@.inflight.push(
                    InflightV { request, key, entities: texts(entities@), confirmed: false },
                ),
                ..old(self)@
            }),
    {
        proof {
            reveal(ui_view);
        }
        let request: u64 = self.next_request + 1;
        self.next_request = request;
        let ghost was = self.inflight@;
        let inf = Inflight { request, key, entities, confirmed: false };
        self.inflight.push(inf);
        assert(inflight_views(self.inflight@) =~= inflight_views(was).push(inf@));
        request
    }

    fn set_screen(&mut self, overlay: Overlay, wake_guard: bool)
        ensures
            final(self)@ == (UiV {
                window: WindowV { overlay, wake_guard, ..old(self)@.window },
                ..old(self)@
            }),
    {
        proof {
            reveal(ui_view);
            reveal(window_view);
        }
        self.window.overlay = overlay;
        self.window.wake_guard = wake_guard;
    }

    /// The only way to change the window: not while frozen.
    fn open_window(&mut self) -> (r: Option<&mut Window>)
        ensures
            match r {
                Some(w) => {
                    &&& !old(self).frozen
                    &&& *w == old(self).window
                    &&& final(self)@ == (UiV { window: final(w)@, ..old(self)@ })
                },
                None => old(self).frozen && final(self)@ == (UiV { dirty: true, ..old(self)@ }),
            },
    {
        proof {
            reveal(ui_view);
        }
        if self.frozen {
            self.dirty = true;
            None
        } else {
            Some(&mut self.window)
        }
    }

    fn show_weather(&mut self, pane: Weather)
        ensures
            final(self)@ == shown_with(old(self)@, WindowV { weather: pane@, ..old(self)@.window }),
    {
        proof {
            reveal(window_view);
            lemma_ui_fields(*self);
        }
        match self.open_window() {
            Some(w) => {
                w.weather = pane;
            },
            None => {},
        }
    }

    fn show_house_power(&mut self, t: String)
        ensures
            final(self)@ == shown_with(
                old(self)@,
                WindowV { house_power: t@, ..old(self)@.window },
            ),
    {
        proof {
            reveal(window_view);
            lemma_ui_fields(*self);
        }
        match self.open_window() {
            Some(w) => {
                w.house_power = t;
            },
            None => {},
        }
    }

    fn show_servers_power(&mut self, t: String)
        ensures
            final(self)@ == shown_with(
                old(self)@,
                WindowV { servers_power: t@, ..old(self)@.window },
            ),
    {
        proof {
            reveal(window_view);
            lemma_ui_fields(*self);
        }
        match self.open_window() {
            Some(w) => {
                w.servers_power = t;
            },
            None => {},
        }
    }

    fn show_fan(&mut self, fan: Fan)
        ensures
            final(self)@ == shown_with(old(self)@, WindowV { fan, ..old(self)@.window }),
    {
        proof {
            reveal(window_view);
            lemma_ui_fields(*self);
        }
        match self.open_window() {
            Some(w) => {
                w.fan = fan;
            },
            None => {},
        }
    }

    fn show_loads(&mut self, loads: Loads)
        ensures
            final(self)@ == shown_with(old(self)@, WindowV { loads: loads@, ..old(self)@.window }),
    {
        proof {
            reveal(window_view);
            lemma_ui_fields(*self);
        }
        match self.open_window() {
            Some(w) => {
                w.loads = loads;
            },
            None => {},
        }
    }

    fn show_indoor(&mut self, t: String)
        ensures
            final(self)@ == shown_with(old(self)@, WindowV { indoor: t@, ..old(self)@.window }),
    {
        proof {
            reveal(window_view);
            lemma_ui_fields(*self);
        }
        match self.open_window() {
            Some(w) => {
                w.indoor = t;
            },
            None => {},
        }
    }

    fn show_printer(&mut self, pane: Printer)
        ensures
            final(self)@ == shown_with(old(self)@, WindowV { printer: pane@, ..old(self)@.window }),
    {
        proof {
            reveal(window_view);
            lemma_ui_fields(*self);
        }
        match self.open_window() {
            Some(w) => {
                w.printer = pane;
            },
            None => {},
        }
    }

    fn show_lights(&mut self, active: i32, lights: Lights)
        ensures
            final(self)@ == shown_with(
                old(self)@,
                WindowV { preset_active: active as int, lights: lights@, ..old(self)@.window },
            ),
    {
        proof {
            reveal(window_view);
            lemma_ui_fields(*self);
        }
        match self.open_window() {
            Some(w) => {
                w.preset_active = active;
                w.lights = lights;
            },
            None => {},
        }
    }

    fn show_grafana(&mut self, t: ToggleState)
        ensures
            final(self)@ == shown_with(old(self)@, WindowV { grafana: t, ..old(self)@.window }),
    {
        proof {
            reveal(window_view);
            lemma_ui_fields(*self);
        }
        match self.open_window() {
            Some(w) => {
                w.grafana = t;
            },
            None => {},
        }
    }

    fn show_cameras(&mut self, street: ToggleState, gallery: ToggleState)
        ensures
            final(self)@ == shown_with(
                old(self)@,
                WindowV { cam_street: street, cam_gallery: gallery, ..old(self)@.window },
            ),
    {
        proof {
            reveal(window_view);
            lemma_ui_fields(*self);
        }
        match self.open_window() {
            Some(w) => {
                w.cam_street = street;
                w.cam_gallery = gallery;
            },
            None => {},
        }
    }

    fn show_kiosk_display(&mut self, t: ToggleState, mode: String)
        ensures
            final(self)@ == shown_with(
                old(self)@,
                WindowV { kiosk_display: t, kiosk_display_mode: mode@, ..old(self)@.window },
            ),
    {
        proof {
            reveal(window_view);
            lemma_ui_fields(*self);
        }
        match self.open_window() {
            Some(w) => {
                w.kiosk_display = t;
                w.kiosk_display_mode = mode;
            },
            None => {},
        }
    }

    fn show_preset_pending(&mut self, preset: i32)
        ensures
            final(self)@ == shown_with(
                old(self)@,
                WindowV { preset_pending: preset as int, ..old(self)@.window },
            ),
    {
        proof {
            reveal(window_view);
            lemma_ui_fields(*self);
        }
        match self.open_window() {
            Some(w) => {
                w.preset_pending = preset;
            },
            None => {},
        }
    }

    fn show_link(&mut self, connecting: bool, detail: String, online: bool)
        ensures
            final(self)@ == shown_with(
                old(self)@,
                WindowV {
                    connecting,
                    connecting_detail: detail@,
                    ha_online: online,
                    ..old(self)@.window
                },
            ),
    {
        proof {
            reveal(window_view);
            lemma_ui_fields(*self);
        }
        match self.open_window() {
            Some(w) => {
                w.connecting = connecting;
                w.connecting_detail = detail;
                w.ha_online = online;
            },
            None => {},
        }
    }

    fn show_toast(&mut self, t: String)
        ensures
            final(self)@ == shown_with(
                old(self)@,
                WindowV { toast_text: t@, toast_visible: true, ..old(self)@.window },
            ),
    {
        proof {
            reveal(window_view);
            lemma_ui_fields(*self);
        }
        match self.open_window() {
            Some(w) => {
                w.toast_text = t;
                w.toast_visible = true;
            },
            None => {},
        }
    }

    fn show_clock(&mut self, text: ClockText)
        requires
            !old(self).frozen,
        ensures
            final(self)@ == clock_step(old(self)@, text@),
    {
        let t = text.time.as_str();
        let n = t.unicode_len();
        let cut: usize = if n >= 2 { n - 2 } else { 0 };
        let hm = t.substring_char(0, cut);
        let sec = t.substring_char(cut, n);
        assert(hm@ =~= time_parts(t@).0);
        assert(sec@ =~= time_parts(t@).1);
        proof {
            reveal(clock_step);
            reveal(ui_view);
            reveal(window_view);
        }
        let rows = rows_with(&self.window.zones, &text.zones);
        self.window.time_hm = hm.to_string();
        self.window.time_s = sec.to_string();
        self.window.date = text.date.clone();
        self.window.weekday = uppercase(text.weekday.as_str());
        self.window.zones = rows;
        self.last_clock = Some(text);
    }

    // ---------------- start, end and clock ----------------

    /// The first refresh.
    pub fn start(&mut self) -> (out: Vec<Effect>)
        ensures
            final(self)@ == light_step(connecting_step(old(self)@), false).0,
            effect_views(out@) == seq![EffectV::Tick] + light_step(
                connecting_step(old(self)@),
                false,
            ).1,
            (final(self)@, effect_views(out@)) == start_step(old(self)@),
    {
        self.refresh_connecting();
        let mut out = one(Effect::Tick);
        let more = self.light_changed(false);
        extend(&mut out, more);
        out
    }

    /// At the end of the process the panel is turned back on.
    pub fn shutdown(&self) -> (out: Vec<Effect>)
        ensures
            effect_views(out@) == if self.has_dpms {
                seq![EffectV::Panel(true)]
            } else {
                Seq::empty()
            },
            effect_views(out@) == shutdown_effects(self@),
    {
        proof {
            lemma_ui_fields(*self);
        }
        if self.has_dpms {
            one(Effect::Panel(true))
        } else {
            nothing()
        }
    }

    /// The clock's texts of now.
    #[verifier::rlimit(40)]
    pub fn tick(&mut self, text: ClockText)
        ensures
            final(self)@ == tick_step(old(self)@, text@),
    {
        proof {
            reveal(tick_step);
            lemma_ui_fields(*self);
        }
        if self.frozen {
            return;
        }
        let known = match &self.last_clock {
            Some(c) => same_clock(c, &text),
            None => false,
        };
        if !known {
            self.show_clock(text);
        }
    }

    /// The clock is synchronized.
    pub fn set_time_synced(&mut self)
        ensures
            final(self)@ == connecting_step(UiV { time_synced: true, ..old(self)@ }),
            final(self)@ == synced_step(old(self)@),
    {
        self.mark_synced();
        self.refresh_connecting();
    }

    /// Whether the dashboard shows, and what it is waiting for.
    pub fn refresh_connecting(&mut self)
        ensures
            final(self)@ == connecting_step(old(self)@),
    {
        proof {
            reveal(connecting_step);
            lemma_ui_fields(*self);
        }
        let mut detail = String::new();
        if !self.ha_connected {
            detail.append(
                if self.ha_token_missing {
                    "HA_TOKEN MANQUANT DANS /etc/barclock.env"
                } else {
                    "HOME ASSISTANT"
                },
            );
            if !self.time_synced {
                detail.append(" · ");
            }
        }
        if !self.time_synced {
            detail.append("HORLOGE NTP");
        }
        assert(detail@ =~= waiting_for(self.ha_connected, self.time_synced, self.ha_token_missing));
        let connecting = !(self.ha_connected && self.time_synced);
        let online = self.ha_connected;
        self.show_link(connecting, detail, online);
    }

    // ---------------- Home Assistant ----------------

    /// Home Assistant is connected.
    pub fn on_connected(&mut self) -> (out: Vec<Effect>)
        ensures
            final(self)@ == connecting_step(UiV { ha_connected: true, ..old(self)@ }),
            effect_views(out@) == seq![EffectV::StopDisconnectTimer],
            final(self)@ == connected_step(old(self)@),
    {
        self.set_ha_connected(true);
        self.refresh_connecting();
        one(Effect::StopDisconnectTimer)
    }

    /// The link dropped: the dashboard stays for a while.
    pub fn on_disconnected(&self) -> (out: Vec<Effect>)
        ensures
            effect_views(out@) == seq![
                EffectV::DisconnectTimer(span_of(self.cfg.homeassistant.connecting_after_s)),
            ],
            effect_views(out@) == seq![grace_timer(self@)],
    {
        proof {
            lemma_ui_fields(*self);
        }
        one(Effect::DisconnectTimer(time::seconds(self.cfg.homeassistant.connecting_after_s)))
    }

    /// The link stayed down.
    pub fn disconnect_elapsed(&mut self)
        ensures
            final(self)@ == connecting_step(UiV { ha_connected: false, ..old(self)@ }),
            final(self)@ == dropped_step(old(self)@),
    {
        self.set_ha_connected(false);
        self.refresh_connecting();
    }

    /// An entity's state came in.
    pub fn on_state_changed(&mut self, entity_id: String, state: EntityState, figures: Figures)
        ensures
            final(self)@ == state_step(
                old(self)@,
                entity_id@,
                MeasuredV { entity: state@, figures: figures@ },
            ),
    {
        proof {
            lemma_ui_fields(*self);
        }
        let before = self.inflight.len();
        let m = Measured { entity: state, figures };
        self.put_entity(entity_id.clone(), m);
        self.forget_waiting(entity_id.as_str());
        proof {
            lemma_ui_fields(*self);
        }
        if before != self.inflight.len() {
            self.refresh_pending();
        }
        self.refresh_entity(entity_id.as_str());
    }

    /// An entity disappeared.
    pub fn on_state_removed(&mut self, entity_id: &str)
        ensures
            final(self)@ == removed_step(old(self)@, entity_id@),
    {
        self.take_entity(entity_id);
        self.refresh_entity(entity_id);
    }

    /// A call was answered.
    pub fn on_call_result(&mut self, request: u64, success: bool, error: Option<String>) -> (out:
        Vec<Effect>)
        ensures
            final(self)@ == result_step(old(self)@, request, success, opt_string(error)).0,
            effect_views(out@) == result_step(
                old(self)@,
                request,
                success,
                opt_string(error),
            ).1,
    {
        proof {
            lemma_ui_fields(*self);
        }
        let i = find_request(&self.inflight, request);
        if i >= self.inflight.len() {
            return nothing();
        }
        if success {
            self.confirm(i);
            return nothing();
        }
        self.forget_request(request);
        let why = match error {
            Some(e) => e,
            None => "erreur inconnue".to_string(),
        };
        let out = self.toast(concat("Échec : ", why.as_str()));
        self.refresh_pending();
        out
    }

    /// News from the IoTaWatt.
    #[verifier::spinoff_prover]
    #[verifier::rlimit(80)]
    pub fn on_power_event(&mut self, ev: &PowerEvent)
        ensures
            final(self)@ == power_step(old(self)@, ev@),
            !old(self).frozen && given_house(ev@) is None ==> final(self)@.window.house_power
                == power_text(
                state_figure(at(old(self)@.entities, old(self)@.cfg.entities.house_power@)),
            ),
            !old(self).frozen && given_house(ev@) is Some ==> final(self)@.window.house_power
                == power_text(given_house(ev@)),
            !old(self).frozen && given_servers(ev@) is None && !blank(
                old(self)@.cfg.entities.servers_power@,
            ) ==> final(self)@.window.servers_power == power_text(
                state_figure(at(old(self)@.entities, old(self)@.cfg.entities.servers_power@)),
            ),
            !old(self).frozen && given_servers(ev@) is Some ==> final(self)@.window.servers_power
                == power_text(given_servers(ev@)),
    {
        proof {
            lemma_ui_fields(*self);
            lemma_house_step(self@, given_house(ev@));
            lemma_servers_step(house_step(self@, given_house(ev@)), given_servers(ev@));
        }
        match ev {
            PowerEvent::Live { house, servers } => {
                self.take_house(house.as_ref());
                self.take_servers(servers.as_ref());
            },
            PowerEvent::Down => {
                self.take_house(None);
                self.take_servers(None);
            },
        }
    }

    /// The house total from the IoTaWatt, or from its own sensor.
    #[verifier::spinoff_prover]
    #[verifier::rlimit(80)]
    fn take_house(&mut self, watts: Option<&Quantity>)
        ensures
            final(self)@ == house_step(old(self)@, ref_quantity(watts)),
    {
        proof {
            reveal(house_step);
            lemma_ui_fields(*self);
        }
        let t = match watts {
            Some(w) => power_line(Some(w)),
            None => power_of(self.entities.get(self.cfg.entities.house_power.as_str())),
        };
        self.set_house_live(watts.is_some());
        self.show_house_power(t);
    }

    /// The servers' draw from the IoTaWatt, or from its own sensor.
    #[verifier::spinoff_prover]
    #[verifier::rlimit(80)]
    fn take_servers(&mut self, watts: Option<&Quantity>)
        ensures
            final(self)@ == servers_step(old(self)@, ref_quantity(watts)),
    {
        proof {
            reveal(servers_step);
            lemma_ui_fields(*self);
        }
        let id = self.cfg.entities.servers_power.as_str();
        let hidden = watts.is_none() && is_blank(id);
        let t = match watts {
            Some(w) => power_line(Some(w)),
            None => power_of(self.entities.get(id)),
        };
        self.set_servers_live(watts.is_some());
        if !hidden {
            self.show_servers_power(t);
        }
    }

    // ---------------- calls ----------------

    fn send(&mut self, call: ServiceCall, key: PendingKey) -> (out: Vec<Effect>)
        requires
            old(self).next_request < u64::MAX,
        ensures
            final(self)@ == send_step(old(self)@, call@, key),
            effect_views(out@) == send_effects(old(self)@, call@),
    {
        let ghost u = self@;
        proof {
            lemma_ui_fields(*self);
        }
        let span = time::seconds(self.cfg.homeassistant.call_timeout_s);
        let entities = copy_texts(&call.entity_ids);
        let request = self.add_request(key, entities);
        let mut call = call;
        call.request = request;
        let mut out = one(Effect::CallTimer { request, span });
        push(&mut out, Effect::Call(call));
        assert(effect_views(out@) =~= send_effects(u, call@));
        self.refresh_pending();
        out
    }

    /// A call could not be handed on.
    pub fn call_not_sent(&mut self, request: u64) -> (out: Vec<Effect>)
        ensures
            final(self)@ == not_sent_step(old(self)@, request).0,
            effect_views(out@) == not_sent_step(old(self)@, request).1,
    {
        self.forget_request(request);
        let out = self.toast("Home Assistant indisponible".to_string());
        self.refresh_pending();
        out
    }

    /// A call's time is up.
    pub fn call_timeout(&mut self, request: u64) -> (out: Vec<Effect>)
        ensures
            final(self)@ == timeout_step(old(self)@, request).0,
            effect_views(out@) == timeout_step(old(self)@, request).1,
    {
        proof {
            lemma_ui_fields(*self);
        }
        let i = find_request(&self.inflight, request);
        if i >= self.inflight.len() {
            return nothing();
        }
        assert(self@.inflight[i as int] == self.inflight@[i as int]@);
        let confirmed = self.inflight[i].confirmed;
        self.forget_request(request);
        if confirmed {
            self.refresh_pending();
            return nothing();
        }
        let out = self.toast("Pas de réponse de Home Assistant".to_string());
        self.refresh_pending();
        out
    }

    /// A preset button was pressed.
    pub fn preset(&mut self, i: i32) -> (out: Vec<Effect>)
        requires
            old(self).next_request < u64::MAX - 1,
        ensures
            final(self)@ == send_all(
                old(self)@,
                preset_calls(old(self).cfg, i),
                PendingKey::Preset(i),
            ).0,
            effect_views(out@) == send_all(
                old(self)@,
                preset_calls(old(self).cfg, i),
                PendingKey::Preset(i),
            ).1,
    {
        let ghost u = self@;
        proof {
            lemma_ui_fields(*self);
        }
        let key = PendingKey::Preset(i);
        let mut calls = calls_for_preset(&self.cfg, i);
        let ghost all = preset_calls(self.cfg, i);
        let mut out = nothing();
        let n = calls.len();
        proof {
            reveal_with_fuel(send_all, 3);
            assert(all.len() <= 2);
        }
        if n == 0 {
            assert(all =~= Seq::empty());
            return out;
        }
        if n == 1 {
            let c = calls.pop().unwrap();
            assert(c@ == all[0]);
            assert(all.drop_last() =~= Seq::empty());
            let more = self.send(c, key);
            extend(&mut out, more);
            return out;
        }
        let second = calls.pop().unwrap();
        let first = calls.pop().unwrap();
        proof {
            assert(call_views(seq![first, second]) =~= all);
            assert(first@ == all[0]);
            assert(second@ == all[1]);
            assert(all.drop_last() =~= seq![all[0]]);
            assert(seq![all[0]].drop_last() =~= Seq::empty());
        }
        let a = self.send(first, key);
        extend(&mut out, a);
        let ghost mid = self@;
        assert(mid.next_request == u.next_request + 1) by {
            lemma_pending_keeps(
                UiV {
                    next_request: (u.next_request + 1) as u64,
                    inflight: u.inflight.push(
                        InflightV {
                            request: (u.next_request + 1) as u64,
                            key,
                            entities: all[0].entity_ids,
                            confirmed: false,
                        },
                    ),
                    ..u
                },
            );
        }
        proof {
            lemma_ui_fields(*self);
        }
        let b = self.send(second, key);
        extend(&mut out, b);
        out
    }

    /// A toggle button was pressed.
    pub fn toggle(&mut self, key: &str) -> (out: Vec<Effect>)
        requires
            old(self).next_request < u64::MAX,
        ensures
            final(self)@ == toggle_step(old(self)@, key@).0,
            effect_views(out@) == toggle_step(old(self)@, key@).1,
    {
        match toggle_from(key) {
            Some(k) => {
                let call = self.call_for(k);
                self.send(call, PendingKey::Toggle(k))
            },
            None => nothing(),
        }
    }

    fn camera_call(&self, want: &str) -> (r: ServiceCall)
        ensures
            r@ == call_to(
                "select"@,
                "select_option"@,
                option_data(camera_choice(self@, want@)),
                seq![self.cfg.entities.kiosk_camera@],
            ),
    {
        proof {
            lemma_ui_fields(*self);
        }
        let e = &self.cfg.entities;
        let showing = camera_option_active(&self.entities, e.kiosk_camera.as_str(), want);
        let option = if showing { e.kiosk_camera_off_option.as_str() } else { want };
        make_call(
            "select",
            "select_option",
            option_json(option),
            one_text(e.kiosk_camera.as_str()),
        )
    }

    fn entity_on(&self, id: &str) -> (r: bool)
        ensures
            r == is_on(at(self@.entities, id@)),
    {
        proof {
            lemma_ui_fields(*self);
        }
        match self.entities.get(id) {
            Some(m) => m.entity.is_on(),
            None => false,
        }
    }

    fn call_for(&self, key: ToggleKey) -> (r: ServiceCall)
        ensures
            r@ == toggle_call(self@, key),
    {
        proof {
            lemma_ui_fields(*self);
        }
        let e = &self.cfg.entities;
        match key {
            ToggleKey::Display => {
                let on = self.entity_on(e.kiosk_display_power.as_str());
                let option = if on { e.kiosk_display_off_option.as_str() } else { "on" };
                make_call(
                    "select",
                    "select_option",
                    option_json(option),
                    one_text(e.kiosk_display_power.as_str()),
                )
            },
            ToggleKey::CamStreet => self.camera_call(e.kiosk_camera_street_option.as_str()),
            ToggleKey::CamGallery => self.camera_call(e.kiosk_camera_gallery_option.as_str()),
            ToggleKey::Ceiling => make_call(
                "light",
                "toggle",
                Json::Null,
                one_text(e.light_ceiling.as_str()),
            ),
            ToggleKey::Monitor => make_call(
                "light",
                "toggle",
                Json::Null,
                one_text(e.light_monitor.as_str()),
            ),
            ToggleKey::Grafana => {
                let on = self.entity_on(e.kiosk_grafana.as_str());
                make_call(
                    "switch",
                    if on {
                        "turn_off"
                    } else {
                        "turn_on"
                    },
                    Json::Null,
                    one_text(e.kiosk_grafana.as_str()),
                )
            },
        }
    }

    /// The fan slider was released: one call per gesture. 0 % is the fan's floor, not off.
    pub fn set_fan(&mut self, pct: i32) -> (out: Vec<Effect>)
        requires
            old(self).next_request < u64::MAX,
        ensures
            final(self)@ == fan_step(old(self)@, pct).0,
            effect_views(out@) == fan_step(old(self)@, pct).1,
    {
        proof {
            lemma_ui_fields(*self);
        }
        if is_blank(self.cfg.entities.office_fan.as_str()) {
            return nothing();
        }
        let n: u64 = if pct < 0 {
            0
        } else if pct > 100 {
            100
        } else {
            pct as u64
        };
        let data = Members::new().with("percentage", Json::number(n)).object();
        assert(data@->Object_0 =~= fan_call(self.cfg, pct).service_data->Object_0);
        let call = make_call(
            "fan",
            "set_percentage",
            data,
            one_text(self.cfg.entities.office_fan.as_str()),
        );
        self.send(call, PendingKey::Fan)
    }

    // ---------------- refreshing ----------------

    fn refresh_each(&mut self, ids: &Vec<String>)
        ensures
            final(self)@ == entities_step(old(self)@, texts(ids@)),
    {
        let ghost u = self@;
        let mut i: usize = 0;
        assert(texts(ids@).take(0) =~= Seq::empty());
        while i < ids.len()
            invariant
                i <= ids@.len(),
                self@ == entities_step(u, texts(ids@).take(i as int)),
            decreases ids@.len() - i,
        {
            proof {
                let t = texts(ids@).take(i + 1);
                assert(t.drop_last() =~= texts(ids@).take(i as int));
                assert(t.last() == ids@[i as int]@);
            }
            self.refresh_entity(ids[i].as_str());
            i = i + 1;
        }
        assert(texts(ids@).take(i as int) =~= texts(ids@));
    }

    /// The controls that can be waiting for an answer.
    pub fn refresh_pending(&mut self)
        ensures
            final(self)@ == pending_step(old(self)@),
    {
        let ghost u = self@;
        proof {
            reveal(pending_step);
            lemma_ui_fields(*self);
            lemma_entities_keep(u, control_ids(u.cfg));
        }
        let ids = control_list(&self.cfg);
        self.refresh_each(&ids);
        proof {
            lemma_ui_fields(*self);
        }
        let preset = first_preset(&self.inflight);
        self.show_preset_pending(preset);
    }

    /// What the window shows of one entity.
    #[verifier::spinoff_prover]
    #[verifier::rlimit(60)]
    pub fn refresh_entity(&mut self, id: &str)
        ensures
            final(self)@ == entity_step(old(self)@, id@),
    {
        proof {
            reveal(refreshed);
            reveal(shown);
            lemma_ui_fields(*self);
        }
        let said = !is_blank(id);
        let e = &self.cfg.entities;
        if same(id, e.weather.as_str()) {
            let pane = weather_pane(&self.cfg, self.entities.get(id));
            self.show_weather(pane);
        } else if same(id, e.house_power.as_str()) {
            if !self.house_live {
                let t = power_of(self.entities.get(id));
                self.show_house_power(t);
            }
        } else if said && same(id, e.office_fan.as_str()) {
            let fan = fan_pane(self.entities.get(id), &self.inflight);
            self.show_fan(fan);
        } else if said && same(id, e.servers_power.as_str()) {
            if !self.servers_live {
                let t = power_of(self.entities.get(id));
                self.show_servers_power(t);
            }
        } else if self.is_load(id) {
            let loads = loads_pane(&self.cfg, self.car_threshold_w, &self.entities);
            self.show_loads(loads);
        } else if said && (same(id, e.office_temperature.as_str()) || same(
            id,
            e.office_humidity.as_str(),
        )) {
            let line = indoor_line(&self.cfg, &self.entities);
            self.show_indoor(line);
        } else if self.is_printer(id) {
            let pane = printer_pane(&self.cfg, &self.entities);
            self.show_printer(pane);
        } else {
            self.refresh_control(id);
        }
    }

    /// What the window shows of one entity that has a control on it.
    #[verifier::spinoff_prover]
    #[verifier::rlimit(60)]
    fn refresh_control(&mut self, id: &str)
        ensures
            final(self)@ == if has_control(old(self).cfg, id@) {
                shown_with(old(self)@, control_refreshed(old(self)@, id@))
            } else {
                old(self)@
            },
    {
        proof {
            reveal(control_refreshed);
            lemma_ui_fields(*self);
        }
        let said = !is_blank(id);
        let e = &self.cfg.entities;
        if same(id, e.light_ceiling.as_str()) || same(id, e.light_monitor.as_str()) {
            let active = preset_active(&self.cfg, &self.entities);
            let pane = lights_pane(&self.cfg, &self.entities, &self.inflight);
            self.show_lights(active, pane);
        } else if same(id, e.kiosk_grafana.as_str()) {
            let s = toggle_state(&self.entities, &self.inflight, id, ToggleKey::Grafana);
            self.show_grafana(s);
        } else if said && same(id, e.kiosk_camera.as_str()) {
            let street = camera_toggle_state(
                &self.entities,
                &self.inflight,
                id,
                e.kiosk_camera_street_option.as_str(),
                ToggleKey::CamStreet,
            );
            let gallery = camera_toggle_state(
                &self.entities,
                &self.inflight,
                id,
                e.kiosk_camera_gallery_option.as_str(),
                ToggleKey::CamGallery,
            );
            self.show_cameras(street, gallery);
        } else if same(id, e.kiosk_display_power.as_str()) {
            let s = toggle_state(&self.entities, &self.inflight, id, ToggleKey::Display);
            let mode = mode_text(self.entities.get(id));
            self.show_kiosk_display(s, mode);
        }
    }

    fn is_printer(&self, id: &str) -> (r: bool)
        ensures
            r == is_printer_id(self.cfg, id@),
    {
        let e = &self.cfg.entities;
        same(id, e.printer_progress.as_str()) || same(id, e.printer_time_left.as_str()) || same(
            id,
            e.printer_power.as_str(),
        ) || same(id, e.printer_print_state.as_str()) || same(
            id,
            e.printer_klipper_state.as_str(),
        )
    }

    /// Whether the entity is one of the loads.
    pub fn is_load(&self, id: &str) -> (r: bool)
        ensures
            r == is_load_id(self.cfg, id@),
    {
        let e = &self.cfg.entities;
        !is_blank(id) && (same(id, e.stove_power.as_str()) || same(id, e.car_charge_power.as_str())
            || same(id, e.car_battery.as_str()) || same(id, e.water_heater_power.as_str()) || same(
            id,
            e.washer_power.as_str(),
        ) || same(id, e.dryer_power.as_str()))
    }

    /// A toast.
    fn toast(&mut self, text: String) -> (out: Vec<Effect>)
        ensures
            final(self)@ == toast_step(old(self)@, text@),
            effect_views(out@) == seq![toast_timer(old(self)@)],
    {
        proof {
            lemma_ui_fields(*self);
        }
        let span = time::seconds(self.cfg.display.toast_seconds);
        self.show_toast(text);
        one(Effect::ToastTimer(span))
    }

    /// The toast's time is up.
    #[verifier::rlimit(40)]
    pub fn toast_elapsed(&mut self)
        ensures
            final(self)@ == shown_with(
                old(self)@,
                WindowV { toast_visible: false, ..old(self)@.window },
            ),
            final(self)@ == toast_over(old(self)@),
    {
        proof {
            reveal(window_view);
            lemma_ui_fields(*self);
        }
        match self.open_window() {
            Some(w) => {
                w.toast_visible = false;
            },
            None => {},
        }
    }

    // ---------------- brightness and panel power ----------------

    /// A command for the light.
    pub fn on_light_command(&mut self, cmd: &LightCommand) -> (out: Vec<Effect>)
        ensures
            final(self)@ == light_step(
                UiV { light: commanded(old(self).light, cmd@), ..old(self)@ },
                true,
            ).0,
            effect_views(out@) == light_step(
                UiV { light: commanded(old(self).light, cmd@), ..old(self)@ },
                true,
            ).1,
    {
        let light = match cmd {
            LightCommand::Apply { on, brightness, transition } => LightState {
                on: *on,
                brightness: match brightness {
                    Some(b) => if *b == 0 {
                        1
                    } else {
                        *b
                    },
                    None => self.light.brightness,
                },
            },
            LightCommand::Restore(s) => *s,
        };
        self.set_light(light);
        self.light_changed(true)
    }

    fn light_changed(&mut self, save: bool) -> (out: Vec<Effect>)
        ensures
            final(self)@ == light_step(old(self)@, save).0,
            effect_views(out@) == light_step(old(self)@, save).1,
    {
        let ghost u = self@;
        proof {
            lemma_ui_fields(*self);
        }
        let mut out = nothing();
        if save {
            push(&mut out, Effect::SaveLight(self.light));
        }
        push(&mut out, Effect::PublishLight(self.light));
        let more = self.refresh_screen();
        extend(&mut out, more);
        assert(effect_views(out@) =~= light_step(u, save).1);
        out
    }

    /// The brightness that the screen has now, and whether a touch wakes it.
    pub fn effective_brightness(&self) -> (r: (u8, bool))
        ensures
            r == (brightness_now(self@), guarded(self@)),
    {
        proof {
            lemma_ui_fields(*self);
        }
        let d = &self.cfg.display;
        let eff: u8 = if self.awake {
            if self.light.on && self.light.brightness > d.wake_brightness {
                self.light.brightness
            } else {
                d.wake_brightness
            }
        } else if self.light.on {
            self.light.brightness
        } else {
            0
        };
        (eff, !self.awake && eff < d.readable_threshold)
    }

    /// The brightness may have changed.
    pub fn refresh_screen(&mut self) -> (out: Vec<Effect>)
        ensures
            final(self)@ == screen_step(old(self)@).0,
            effect_views(out@) == screen_step(old(self)@).1,
    {
        let ghost u = self@;
        proof {
            reveal(screen_step);
            lemma_ui_fields(*self);
        }
        let (eff, guard) = self.effective_brightness();
        let has_backlight = self.has_backlight;
        let mut out = one(Effect::StopPanelTimer);
        if eff == 0 {
            if self.frozen {
                return out;
            }
            if has_backlight {
                push(&mut out, Effect::Backlight(0));
            }
            if self.has_dpms {
                push(
                    &mut out,
                    Effect::FreezeTimer(time::milliseconds(self.cfg.display.dpms_delay_ms)),
                );
            }
            self.set_screen(Overlay::Full, true);
        } else {
            let more = self.thaw();
            extend(&mut out, more);
            if has_backlight {
                push(&mut out, Effect::Backlight(eff));
            }
            self.set_screen(
                if has_backlight {
                    Overlay::Clear
                } else {
                    Overlay::Level(eff)
                },
                guard,
            );
        }
        out
    }

    /// The black frame has reached the panel: from now on nothing in the window changes, so that
    /// nothing is drawn after the signal is cut.
    pub fn freeze(&mut self) -> (out: Vec<Effect>)
        ensures
            final(self)@ == (UiV { frozen: true, ..old(self)@ }),
            effect_views(out@) == seq![EffectV::CutTimer(millis_span(1000))],
            (final(self)@, effect_views(out@)) == freeze_step(old(self)@),
    {
        self.mark_frozen();
        one(Effect::CutTimer(time::milliseconds(1000)))
    }

    /// The signal can be cut.
    pub fn cut_signal(&self) -> (out: Vec<Effect>)
        ensures
            effect_views(out@) == if self.has_dpms {
                seq![EffectV::Panel(false)]
            } else {
                Seq::empty()
            },
            effect_views(out@) == cut_effects(self@),
    {
        proof {
            lemma_ui_fields(*self);
        }
        if self.has_dpms {
            one(Effect::Panel(false))
        } else {
            nothing()
        }
    }

    /// The signal comes back, and the window catches up.
    pub fn thaw(&mut self) -> (out: Vec<Effect>)
        ensures
            final(self)@ == thaw_step(old(self)@).0,
            effect_views(out@) == thaw_step(old(self)@).1,
    {
        let ghost u = self@;
        proof {
            reveal(thaw_step);
            lemma_ui_fields(*self);
        }
        let was_frozen = self.frozen;
        let has_dpms = self.has_dpms;
        let ids = self.cfg.entity_ids();
        self.mark_thawed();
        if !was_frozen {
            return nothing();
        }
        let mut out = nothing();
        if has_dpms {
            push(&mut out, Effect::Panel(true));
        }
        push(&mut out, Effect::Tick);
        assert(effect_views(out@) =~= thaw_step(u).1);
        self.refresh_connecting();
        self.refresh_each(&ids);
        self.refresh_pending();
        out
    }

    /// A touch while dark or dimmed.
    pub fn wake(&mut self) -> (out: Vec<Effect>)
        ensures
            final(self)@ == wake_step(old(self)@).0,
            effect_views(out@) == wake_step(old(self)@).1,
    {
        proof {
            lemma_ui_fields(*self);
        }
        let span = time::seconds(self.cfg.display.wake_seconds);
        self.set_awake(true);
        let mut out = one(Effect::WakeTimer(span));
        let more = self.refresh_screen();
        extend(&mut out, more);
        out
    }

    /// The wake window is over.
    pub fn end_wake(&mut self) -> (out: Vec<Effect>)
        ensures
            final(self)@ == screen_step(UiV { awake: false, ..old(self)@ }).0,
            effect_views(out@) == screen_step(UiV { awake: false, ..old(self)@ }).1,
            (final(self)@, effect_views(out@)) == doze_step(old(self)@),
    {
        self.set_awake(false);
        self.refresh_screen()
    }

    /// A touch on a control: the wake window stays open.
    pub fn activity(&self) -> (out: Vec<Effect>)
        ensures
            effect_views(out@) == if self.awake {
                seq![EffectV::WakeTimer(span_of(self.cfg.display.wake_seconds))]
            } else {
                Seq::empty()
            },
            effect_views(out@) == activity_effects(self@),
    {
        proof {
            lemma_ui_fields(*self);
        }
        if self.awake {
            one(Effect::WakeTimer(time::seconds(self.cfg.display.wake_seconds)))
        } else {
            nothing()
        }
    }
}

fn control_list(cfg: &Config) -> (ids: Vec<String>)
    ensures
        texts(ids@) == control_ids(*cfg),
{
    let e = &cfg.entities;
    let mut ids: Vec<String> = Vec::new();
    ids.push(e.light_ceiling.clone());
    ids.push(e.light_monitor.clone());
    ids.push(e.kiosk_grafana.clone());
    ids.push(e.kiosk_camera.clone());
    ids.push(e.kiosk_display_power.clone());
    ids.push(e.office_fan.clone());
    assert(texts(ids@) =~= control_ids(*cfg));
    ids
}

fn rows_of(zones: &Vec<crate::config::Zone>) -> (r: Vec<(String, String)>)
    ensures
        zone_views(r@) == first_rows(zones@),
{
    let mut rows: Vec<(String, String)> = Vec::new();
    let mut i: usize = 0;
    while i < zones.len()
        invariant
            i <= zones@.len(),
            rows@.len() == i,
            forall|k: int|
                0 <= k < i ==> (#[trigger] zone_views(rows@)[k]) == first_rows(zones@)[k],
        decreases zones@.len() - i,
    {
        let ghost was = rows@;
        rows.push((uppercase(zones[i].label.as_str()), "--:--".to_string()));
        proof {
            assert forall|k: int| 0 <= k < i + 1 implies (#[trigger] zone_views(rows@)[k])
                == first_rows(zones@)[k] by {
                if k < i {
                    assert(zone_views(rows@)[k] == zone_views(was)[k]);
                }
            }
        }
        i = i + 1;
    }
    assert(zone_views(rows@) =~= first_rows(zones@));
    rows
}

/// Nothing but what the window shows is different.
#[verifier::opaque]
pub open spec fn keeps_all(u: UiV, t: UiV) -> bool {
    &&& t.cfg == u.cfg
    &&& t.car_threshold_w == u.car_threshold_w
    &&& t.has_dpms == u.has_dpms
    &&& t.has_backlight == u.has_backlight
    &&& t.ha_token_missing == u.ha_token_missing
    &&& t.ha_connected == u.ha_connected
    &&& t.time_synced == u.time_synced
    &&& t.entities == u.entities
    &&& t.light == u.light
    &&& t.awake == u.awake
    &&& t.frozen == u.frozen
    &&& t.next_request == u.next_request
    &&& t.inflight == u.inflight
    &&& t.last_clock == u.last_clock
    &&& t.house_live == u.house_live
    &&& t.servers_live == u.servers_live
}

proof fn lemma_keeps_all(u: UiV, t: UiV)
    requires
        keeps_all(u, t),
    ensures
        t == (UiV { window: t.window, dirty: t.dirty, ..u }),
{
    reveal(keeps_all);
    lemma_same_ui(t, UiV { window: t.window, dirty: t.dirty, ..u });
}

proof fn lemma_shown_keeps(u: UiV, w: WindowV)
    ensures
        keeps_all(u, shown_with(u, w)),
{
    reveal(keeps_all);
}

proof fn lemma_entities_kept(u: UiV, ids: Seq<Seq<char>>)
    ensures
        keeps_all(u, entities_step(u, ids)),
    decreases ids.len(),
{
    if ids.len() == 0 {
        reveal(keeps_all);
    } else {
        let rest = entities_step(u, ids.drop_last());
        lemma_entities_kept(u, ids.drop_last());
        lemma_shown_keeps(rest, refreshed(rest, ids.last()));
        lemma_keeps_on(u, rest, entities_step(u, ids));
    }
}

proof fn lemma_keeps_on(u: UiV, v: UiV, t: UiV)
    requires
        u == v || keeps_all(u, v),
        t == v || keeps_all(v, t),
    ensures
        keeps_all(u, t),
{
    reveal(keeps_all);
}

/// Refreshing entities changes nothing but what the window shows.
pub proof fn lemma_entities_keep(u: UiV, ids: Seq<Seq<char>>)
    ensures
        entities_step(u, ids) == (UiV {
            window: entities_step(u, ids).window,
            dirty: entities_step(u, ids).dirty,
            ..u
        }),
{
    lemma_entities_kept(u, ids);
    lemma_keeps_all(u, entities_step(u, ids));
}

/// Refreshing the controls changes nothing but what the window shows.
pub proof fn lemma_pending_keeps(u: UiV)
    ensures
        pending_step(u) == (UiV {
            window: pending_step(u).window,
            dirty: pending_step(u).dirty,
            ..u
        }),
{
    let c = entities_step(u, control_ids(u.cfg));
    lemma_entities_kept(u, control_ids(u.cfg));
    assert(keeps_all(u, pending_step(u))) by {
        reveal(pending_step);
        lemma_shown_keeps(c, WindowV { preset_pending: pending_preset(u.inflight), ..c.window });
        lemma_keeps_on(u, c, pending_step(u));
    }
    lemma_keeps_all(u, pending_step(u));
}

} // verus!
