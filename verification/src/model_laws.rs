//! What the models stand for: each is its value, field by field, with texts by their characters.
use vstd::prelude::*;
use crate::cli::{Cli, Invocation, InvocationV};
use crate::clock::{civil_views, zone_views, Civil, ClockText};
use crate::display::{write_views, BacklightWrite};
use crate::ha_ws::{opt_event, opt_report, Report, ReportV, Session, Step, UriParts};
use crate::iotawatt::{length_view, Endpoint, Poller, PowerEvent, PowerEventV};
use crate::json::{members, views, Json, JsonV};
use crate::mqtt_light::{
    action_views, command_view, Action, ActionV, Command, CommandError, CommandErrorV, LightLink,
    Topics,
};
use crate::number::{opt_quantity, ref_quantity, Quantity};
use crate::screen::{
    inflight_views, ref_entity, Figures, Inflight, Lights, LoadState, Loads, Measured, Printer,
    Weather,
};
use crate::text::{number_view, opt_string, opt_text, pair_view, texts};
use crate::types::{
    event_views, EntityState, HaEvent, HaEventV, LightCommand, LightCommandV, ServiceCall,
};
use crate::ui::{
    call_views, effect_views, lemma_ui_fields, opt_clock, window_view, Effect, EffectV, Ui, Window,
};

verus! {

// ---------------- what may be missing, and lists ----------------

/// A text that may be missing is its characters, or missing.
pub proof fn texts_that_may_be_missing(t: &str, s: String)
    ensures
        opt_text(Some(t)) == Some(t@),
        opt_text(None) is None,
        opt_string(Some(s)) == Some(s@),
        opt_string(None) is None,
{
}

/// Two texts are their characters, each in its place.
pub proof fn pairs_of_texts(a: &str, b: &str)
    ensures
        pair_view(Some((a, b))) == Some((a@, b@)),
        pair_view(None) is None,
{
}

/// A number that may be missing is its value, or missing.
pub proof fn numbers_that_may_be_missing(n: u64, l: usize, q: Quantity)
    ensures
        number_view(Some(n)) == Some(n as nat),
        number_view(None) is None,
        length_view(Some(l)) == Some(l as nat),
        length_view(None) is None,
        opt_quantity(Some(q)) == Some(q@),
        opt_quantity(None) is None,
        ref_quantity(Some(&q)) == Some(q@),
        ref_quantity(None) is None,
{
}

/// An event, a report, an entity or the clock's texts that may be missing are themselves, or missing.
pub proof fn values_that_may_be_missing(e: HaEvent, r: Report, m: Measured, c: ClockText)
    ensures
        opt_event(Some(e)) == Some(e@),
        opt_event(None) is None,
        opt_report(Some(r)) == Some(r@),
        opt_report(None) is None,
        ref_entity(Some(&m)) == Some(m@),
        ref_entity(None) is None,
        opt_clock(Some(c)) == Some(c@),
        opt_clock(None) is None,
{
}

/// A list of texts is the list of their characters, in the same order.
pub proof fn lists_of_texts(v: Seq<String>, i: int)
    requires
        0 <= i < v.len(),
    ensures
        texts(v).len() == v.len(),
        texts(v)[i] == v[i]@,
{
}

/// A list of events, calls or effects is the list of their models, in the same order.
pub proof fn lists_of_what_is_done(
    events: Seq<HaEvent>,
    calls: Seq<ServiceCall>,
    effects: Seq<Effect>,
    actions: Seq<Action>,
    i: int,
)
    requires
        0 <= i,
    ensures
        event_views(events).len() == events.len(),
        i < events.len() ==> event_views(events)[i] == events[i]@,
        call_views(calls).len() == calls.len(),
        i < calls.len() ==> call_views(calls)[i] == calls[i]@,
        effect_views(effects).len() == effects.len(),
        i < effects.len() ==> effect_views(effects)[i] == effects[i]@,
        action_views(actions).len() == actions.len(),
        i < actions.len() ==> action_views(actions)[i] == actions[i]@,
{
}

/// A list of zones, writes or calls under way is the list of their models, in the same order.
pub proof fn lists_of_what_is_shown(
    zones: Seq<(String, String)>,
    civil: Seq<(String, Civil)>,
    writes: Seq<BacklightWrite>,
    calls: Seq<Inflight>,
    i: int,
)
    requires
        0 <= i,
    ensures
        zone_views(zones).len() == zones.len(),
        i < zones.len() ==> zone_views(zones)[i] == (zones[i].0@, zones[i].1@),
        civil_views(civil).len() == civil.len(),
        i < civil.len() ==> civil_views(civil)[i] == (civil[i].0@, civil[i].1),
        write_views(writes).len() == writes.len(),
        i < writes.len() ==> write_views(writes)[i] == (writes[i].file@, writes[i].value@),
        inflight_views(calls).len() == calls.len(),
        i < calls.len() ==> inflight_views(calls)[i] == calls[i]@,
{
}

// ---------------- JSON ----------------

/// A JSON value is what it says: its text, its truth value, its items and members in their order.
pub proof fn a_json_value_is_what_it_says(j: Json, i: int)
    ensures
        j is Null ==> j@ is Null,
        j matches Json::Bool(b) ==> j@ == JsonV::Bool(b),
        j matches Json::Number(t) ==> j@ == JsonV::Number(t@),
        j matches Json::Text(t) ==> j@ == JsonV::Text(t@),
        j matches Json::Array(v) ==> (j@ matches JsonV::Array(s) && s.len() == v@.len() && (0 <= i
            < v@.len() ==> s[i] == v@[i]@)),
        j matches Json::Object(m) ==> (j@ matches JsonV::Object(s) && s.len() == m@.len() && (0 <= i
            < m@.len() ==> s[i] == (m@[i].0@, m@[i].1@))),
{
}

/// The items and members of a value are the models of its own, in the same order.
pub proof fn items_and_members_keep_their_order(v: Seq<Json>, m: Seq<(String, Json)>, i: int)
    requires
        0 <= i,
    ensures
        views(v).len() == v.len(),
        i < v.len() ==> views(v)[i] == v[i]@,
        members(m).len() == m.len(),
        i < m.len() ==> members(m)[i] == (m[i].0@, m[i].1@),
{
}

// ---------------- the Home Assistant link ----------------

/// An entity is its state and its attributes.
pub proof fn an_entity_is_its_state_and_attributes(e: EntityState)
    ensures
        e@.state == e.state@,
        e@.attributes == e.attributes@,
{
}

/// An event is what it tells of.
pub proof fn an_event_is_what_it_tells_of(e: HaEvent)
    ensures
        match e {
            HaEvent::Connected => e@ is Connected,
            HaEvent::Disconnected { reason } => e@ == (HaEventV::Disconnected { reason: reason@ }),
            HaEvent::StateChanged { entity_id, state } => e@ == (HaEventV::StateChanged {
                entity_id: entity_id@,
                state: state@,
            }),
            HaEvent::StateRemoved { entity_id } => e@ == (HaEventV::StateRemoved {
                entity_id: entity_id@,
            }),
            HaEvent::CallResult { request, success, error } => e@ == (HaEventV::CallResult {
                request,
                success,
                error: opt_string(error),
            }),
        },
{
}

/// A call is what it asks for.
pub proof fn a_call_is_what_it_asks_for(c: ServiceCall)
    ensures
        c@.request == c.request,
        c@.domain == c.domain@,
        c@.service == c.service@,
        c@.service_data == c.service_data@,
        c@.entity_ids == texts(c.entity_ids@),
{
}

/// A step is what it asks for, and a report is its line.
pub proof fn a_step_is_what_it_asks_for(s: Step, r: Report)
    ensures
        s@.send == opt_string(s.send),
        s@.emit == event_views(s.emit@),
        s@.report == opt_report(s.report),
        s@.end == opt_string(s.end),
        r matches Report::Warn(t) ==> r@ == ReportV::Warn(t@),
        r matches Report::Error(t) ==> r@ == ReportV::Error(t@),
{
}

/// A session is its fields.
pub proof fn a_session_is_its_fields(s: Session)
    ensures
        s@.token == s.token@,
        s@.entity_ids == texts(s.entity_ids@),
        s@.phase == s.phase,
        s@.next_id == s.next_id,
        s@.entities == s.entities@,
        s@.pending == s.pending@,
        s@.ping_outstanding == s.ping_outstanding,
        s@.deadline == s.deadline,
        s@.live_since == s.live_since,
        s@.auth_rejected == s.auth_rejected,
        s@.snapshot_pending == s.snapshot_pending,
{
}

/// The parts of an address are its scheme, its host and its port.
pub proof fn an_address_is_its_parts(p: UriParts)
    ensures
        p@ == (opt_string(p.scheme), opt_string(p.host), p.port),
{
}

// ---------------- the light ----------------

/// A command for the light is what it says.
pub proof fn a_light_command_is_what_it_says(c: LightCommand, d: Command)
    ensures
        match c {
            LightCommand::Apply { on, brightness, transition } => c@ == (LightCommandV::Apply {
                on,
                brightness,
                transition: opt_string(transition),
            }),
            LightCommand::Restore(l) => c@ == LightCommandV::Restore(l),
        },
        d@.on == d.on,
        d@.brightness == d.brightness,
        d@.transition == opt_string(d.transition),
{
}

/// An error is the one that it is, and a command that was read is itself or its error.
pub proof fn a_command_error_is_the_one_it_is(e: CommandError, c: Command)
    ensures
        match e {
            CommandError::Retained => e@ is Retained,
            CommandError::NotJson(t) => e@ == CommandErrorV::NotJson(t@),
            CommandError::NotObject => e@ is NotObject,
            CommandError::BadState => e@ is BadState,
            CommandError::BadBrightness => e@ is BadBrightness,
            CommandError::BadTransition => e@ is BadTransition,
        },
        command_view(Ok(c)) == Ok::<_, CommandErrorV>(c@),
        command_view(Err(e)) == Err::<crate::mqtt_light::CommandV, _>(e@),
{
}

/// The topics are their texts, and an action is what it does.
pub proof fn an_action_is_what_it_does(t: Topics, a: Action)
    ensures
        t@.config == t.config@,
        t@.state == t.state@,
        t@.command == t.command@,
        t@.availability == t.availability@,
        match a {
            Action::Publish { topic, payload } => a@ == (ActionV::Publish {
                topic: topic@,
                payload: payload@,
            }),
            Action::Subscribe { topic } => a@ == (ActionV::Subscribe { topic: topic@ }),
            Action::Command(c) => a@ == ActionV::Command(c@),
            Action::Restore { restored, current } => a@ == (ActionV::Restore { restored, current }),
            Action::Warn(t) => a@ == ActionV::Warn(t@),
        },
{
}

/// The light's side of the broker is its fields.
pub proof fn a_link_is_its_fields(l: LightLink)
    ensures
        l@.topics == l.topics@,
        l@.discovery == l.discovery@,
        l@.host == l.host@,
        l@.port == l.port,
        l@.user == l.user@,
        l@.connected == l.connected,
        l@.outage == l.outage,
        l@.retry_at == l.retry_at,
        l@.sub_pkids == l.sub_pkids@,
        l@.retained_command_warned == l.retained_command_warned,
        l@.restore_deadline == l.restore_deadline,
        l@.restore_done == l.restore_done,
{
}

// ---------------- the energy monitor ----------------

/// The monitor's news are the values that they carry, an endpoint is its host and its port, and a
/// poller is its fields.
pub proof fn a_poller_is_its_fields(e: PowerEvent, p: Endpoint, q: Poller)
    ensures
        match e {
            PowerEvent::Live { house, servers } => e@ == (PowerEventV::Live {
                house: opt_quantity(house),
                servers: opt_quantity(servers),
            }),
            PowerEvent::Down => e@ is Down,
        },
        p@ == (p.host@, p.port),
        q@.house_output == q.house_output@,
        q@.servers_input == q.servers_input@,
        q@.give_up_after == q.give_up_after,
        q@.servers_channel == q.servers_channel,
        q@.name_warned == q.name_warned,
        q@.failures == q.failures,
        q@.fell_back == q.fell_back,
        q@.last_error == q.last_error@,
{
}

// ---------------- the screen ----------------

/// A quantity is its value with what is shown of it.
pub proof fn a_quantity_is_its_fields(q: Quantity)
    ensures
        q@.value == q.value,
        q@.rounded == q.rounded,
        q@.tenths == q.tenths@,
        q@.percent_tenths == q.percent_tenths@,
        q@.minutes == q.minutes,
        q@.thousandfold == q.thousandfold,
        q@.thousandfold_rounded == q.thousandfold_rounded,
        q@.percent == q.percent,
{
}

/// An entity with its figures is both, and the figures are each of them.
pub proof fn figures_are_each_of_them(m: Measured, f: Figures)
    ensures
        m@.entity == m.entity@,
        m@.figures == m.figures@,
        f@.state == opt_quantity(f.state),
        f@.temperature == opt_quantity(f.temperature),
        f@.humidity == opt_quantity(f.humidity),
        f@.wind_speed == opt_quantity(f.wind_speed),
        f@.percentage == opt_quantity(f.percentage),
        f@.brightness == opt_quantity(f.brightness),
{
}

/// The weather, a load, the printer and the lights are what their panes show.
pub proof fn panes_are_what_they_show(w: Weather, l: LoadState, p: Printer, i: Lights)
    ensures
        w@.line == w.line@,
        w@.condition == w.condition@,
        w@.icon == w.icon@,
        w@.place == w.place@,
        l@.on == l.on,
        l@.available == l.available,
        l@.configured == l.configured,
        l@.power == l.power@,
        l@.badge == l.badge@,
        p@.status == p.status@,
        p@.mode == p.mode@,
        p@.active == p.active,
        p@.progress == p.progress@,
        p@.time_left == p.time_left@,
        i@.ceiling == i.ceiling,
        i@.monitor == i.monitor,
        i@.summary == i.summary@,
{
}

/// The loads are each of them, and a call under way is its fields.
pub proof fn loads_are_each_of_them(l: Loads, c: Inflight)
    ensures
        l@.stove == l.stove@,
        l@.car == l.car@,
        l@.water_heater == l.water_heater@,
        l@.washer == l.washer@,
        l@.dryer == l.dryer@,
        c@.request == c.request,
        c@.key == c.key,
        c@.entities == texts(c.entities@),
        c@.confirmed == c.confirmed,
{
}

/// The window is what it shows.
pub proof fn the_window_is_what_it_shows(w: Window)
    ensures
        w@.indoor_label == w.indoor_label@,
        w@.touch_test == w.touch_test,
        w@.time_hm == w.time_hm@,
        w@.time_s == w.time_s@,
        w@.date == w.date@,
        w@.weekday == w.weekday@,
        w@.zones == zone_views(w.zones@),
        w@.connecting == w.connecting,
        w@.connecting_detail == w.connecting_detail@,
        w@.ha_online == w.ha_online,
        w@.weather == w.weather@,
        w@.house_power == w.house_power@,
        w@.servers_power == w.servers_power@,
        w@.loads == w.loads@,
        w@.indoor == w.indoor@,
        w@.printer == w.printer@,
        w@.lights == w.lights@,
        w@.grafana == w.grafana,
        w@.cam_street == w.cam_street,
        w@.cam_gallery == w.cam_gallery,
        w@.kiosk_display == w.kiosk_display,
        w@.kiosk_display_mode == w.kiosk_display_mode@,
        w@.fan == w.fan,
        w@.preset_active == w.preset_active,
        w@.preset_pending == w.preset_pending,
        w@.toast_text == w.toast_text@,
        w@.toast_visible == w.toast_visible,
        w@.overlay == w.overlay,
        w@.wake_guard == w.wake_guard,
{
    reveal(window_view);
}

/// The controller is what it knows.
pub proof fn the_controller_is_what_it_knows(u: Ui)
    ensures
        u@.cfg == u.cfg,
        u@.entities == u.entities@,
        u@.light == u.light,
        u@.awake == u.awake,
        u@.frozen == u.frozen,
        u@.next_request == u.next_request,
        u@.inflight == inflight_views(u.inflight@),
        u@.house_live == u.house_live,
        u@.servers_live == u.servers_live,
        u@.window == u.window@,
{
    lemma_ui_fields(u);
}

/// An effect is what it does.
pub proof fn an_effect_is_what_it_does(e: Effect)
    ensures
        match e {
            Effect::Call(c) => e@ == EffectV::Call(c@),
            Effect::CallTimer { request, span } => e@ == (EffectV::CallTimer { request, span }),
            Effect::DisconnectTimer(s) => e@ == EffectV::DisconnectTimer(s),
            Effect::StopDisconnectTimer => e@ is StopDisconnectTimer,
            Effect::ToastTimer(s) => e@ == EffectV::ToastTimer(s),
            Effect::WakeTimer(s) => e@ == EffectV::WakeTimer(s),
            Effect::FreezeTimer(s) => e@ == EffectV::FreezeTimer(s),
            Effect::CutTimer(s) => e@ == EffectV::CutTimer(s),
            Effect::StopPanelTimer => e@ is StopPanelTimer,
            Effect::SaveLight(l) => e@ == EffectV::SaveLight(l),
            Effect::PublishLight(l) => e@ == EffectV::PublishLight(l),
            Effect::Backlight(b) => e@ == EffectV::Backlight(b),
            Effect::Panel(on) => e@ == EffectV::Panel(on),
            Effect::Tick => e@ is Tick,
        },
{
}

/// The clock's texts, and what the command line asks for, are what they say.
pub proof fn texts_of_the_clock_and_the_command_line(c: ClockText, l: Cli, i: Invocation)
    ensures
        c@.time == c.time@,
        c@.date == c.date@,
        c@.weekday == c.weekday@,
        c@.zones == zone_views(c.zones@),
        l@.config == l.config@,
        l@.touch_test == l.touch_test,
        l.preview matches Some((p, s)) ==> l@.preview == Some((p@, s@)),
        l.preview is None ==> l@.preview is None,
        i matches Invocation::Run(r) ==> i@ == InvocationV::Run(r@),
        i is Version ==> i@ is Version,
        i is Help ==> i@ is Help,
{
}

} // verus!
