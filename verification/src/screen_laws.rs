//! What holds of the screen, whatever comes in.
use vstd::prelude::*;
use crate::config::Config;
use crate::ha_ws::named;
use crate::iotawatt::PowerEventV;
use crate::map::at;
use crate::number::Reading;
use crate::screen::{
    active_preset, camera_of, fan_of, indoor_of, lights_of, loads_of, mode_of, pending_preset,
    power_text, printer_of, state_figure, toggle_of, weather_of, EntitiesV, InflightV, MeasuredV,
    PendingKey, ToggleKey,
};
use crate::text::{blank, same_folded, trimmed};
use crate::types::{LightCommandV, LightState, ServiceCallV};
use crate::ui::{
    brightness_now, commanded, connecting_step, control_ids, control_refreshed, empty_window,
    entities_step, entity_step, given_house, given_servers, guarded, house_step, is_load_id,
    is_printer_id, lemma_entities_keep, lemma_house_step, lemma_pending_keeps, lemma_servers_step,
    not_sent_step, not_waiting_for, pending_step, power_step, refreshed, removed_step,
    request_place, result_step, screen_step, send_step, shown, shown_with, state_step, thaw_step,
    tick_step, timeout_step, toast_step, waiting_for, wake_step, without_request, Overlay, UiV,
    WindowV,
};

verus! {

/// Two cameras whose options differ, case aside, are never both shown: one select picks the
/// camera.
pub proof fn cameras_exclude_each_other(
    m: Option<MeasuredV>,
    v: Seq<InflightV>,
    street: Seq<char>,
    gallery: Seq<char>,
)
    requires
        !same_folded(trimmed(street), trimmed(gallery)),
    ensures
        !(camera_of(m, v, street, ToggleKey::CamStreet).on && camera_of(
            m,
            v,
            gallery,
            ToggleKey::CamGallery,
        ).on),
{
}

/// Refreshing entities leaves a frozen window alone.
pub proof fn frozen_entities_change_nothing(u: UiV, ids: Seq<Seq<char>>)
    requires
        u.frozen,
    ensures
        entities_step(u, ids).window == u.window,
        entities_step(u, ids).frozen,
        entities_step(u, ids).cfg == u.cfg,
    decreases ids.len(),
{
    if ids.len() > 0 {
        frozen_entities_change_nothing(u, ids.drop_last());
    }
}

/// While the signal is off nothing in the window changes when an entity's state comes in or the
/// entity disappears, and the signal stays off.
pub proof fn a_frozen_window_ignores_states(u: UiV, id: Seq<char>, m: MeasuredV)
    requires
        u.frozen,
    ensures
        state_step(u, id, m).window == u.window,
        state_step(u, id, m).frozen,
        removed_step(u, id).window == u.window,
        removed_step(u, id).frozen,
{
    let left = not_waiting_for(u.inflight, id);
    lemma_frozen_pending(UiV { entities: u.entities.insert(id, m), inflight: left, ..u });
}

/// While the signal is off nothing in the window changes when a call goes out.
pub proof fn a_frozen_window_ignores_calls(u: UiV, call: ServiceCallV, key: PendingKey)
    requires
        u.frozen,
    ensures
        send_step(u, call, key).window == u.window,
        send_step(u, call, key).frozen,
{
    lemma_frozen_pending(
        UiV {
            next_request: (u.next_request + 1) as u64,
            inflight: u.inflight.push(
                InflightV {
                    request: (u.next_request + 1) as u64,
                    key,
                    entities: call.entity_ids,
                    confirmed: false,
                },
            ),
            ..u
        },
    );
}

/// While the signal is off nothing in the window changes when a call is answered, cannot be handed
/// on, or runs out of time.
pub proof fn a_frozen_window_ignores_answers(
    u: UiV,
    request: u64,
    success: bool,
    error: Option<Seq<char>>,
)
    requires
        u.frozen,
    ensures
        result_step(u, request, success, error).0.window == u.window,
        result_step(u, request, success, error).0.frozen,
        timeout_step(u, request).0.window == u.window,
        timeout_step(u, request).0.frozen,
        not_sent_step(u, request).0.window == u.window,
        not_sent_step(u, request).0.frozen,
{
    let gone = UiV { inflight: without_request(u.inflight, request), ..u };
    let why = match error {
        Some(e) => e,
        None => "erreur inconnue"@,
    };
    lemma_frozen_pending(gone);
    lemma_frozen_toast(gone, "Échec : "@ + why);
    lemma_frozen_toast(gone, "Pas de réponse de Home Assistant"@);
    lemma_frozen_toast(gone, "Home Assistant indisponible"@);
}

proof fn lemma_frozen_toast(u: UiV, text: Seq<char>)
    requires
        u.frozen,
    ensures
        pending_step(toast_step(u, text)).window == u.window,
        pending_step(toast_step(u, text)).frozen,
{
    lemma_frozen_pending(toast_step(u, text));
}

/// While the signal is off nothing in the window changes with news of the energy monitor.
pub proof fn a_frozen_window_ignores_watts(u: UiV, power: PowerEventV)
    requires
        u.frozen,
    ensures
        power_step(u, power).window == u.window,
        power_step(u, power).frozen,
{
    lemma_house_step(u, given_house(power));
    lemma_servers_step(house_step(u, given_house(power)), given_servers(power));
}

/// While the signal is off nothing in the window changes with toasts, the state of the link, or
/// the time.
pub proof fn a_frozen_window_ignores_the_rest(
    u: UiV,
    text: Seq<char>,
    clock: crate::clock::ClockV,
)
    requires
        u.frozen,
    ensures
        toast_step(u, text).window == u.window,
        toast_step(u, text).frozen,
        connecting_step(u).window == u.window,
        connecting_step(u).frozen,
        pending_step(u).window == u.window,
        pending_step(u).frozen,
        tick_step(u, clock).window == u.window,
        tick_step(u, clock).frozen,
{
    reveal(connecting_step);
    reveal(tick_step);
    lemma_frozen_pending(u);
}

proof fn lemma_frozen_pending(u: UiV)
    requires
        u.frozen,
    ensures
        pending_step(u).window == u.window,
        pending_step(u).frozen,
{
    reveal(pending_step);
    frozen_entities_change_nothing(u, control_ids(u.cfg));
}

/// Once thawed, the screen is neither frozen nor behind.
#[verifier::rlimit(30)]
pub proof fn thawing_leaves_nothing_behind(u: UiV)
    ensures
        !thaw_step(u).0.frozen,
        !thaw_step(u).0.dirty,
{
    let v = UiV { frozen: false, dirty: false, ..u };
    let c = connecting_step(v);
    let ids = named(v.cfg.all_ids());
    let d = entities_step(c, ids);
    assert(!c.frozen && !c.dirty) by {
        reveal(connecting_step);
    }
    lemma_clean_entities(c, ids);
    lemma_clean_pending(d);
    reveal(thaw_step);
}

proof fn lemma_clean_pending(u: UiV)
    requires
        !u.frozen,
        !u.dirty,
    ensures
        !pending_step(u).frozen,
        !pending_step(u).dirty,
{
    reveal(pending_step);
    lemma_clean_entities(u, control_ids(u.cfg));
}

proof fn lemma_clean_entities(u: UiV, ids: Seq<Seq<char>>)
    requires
        !u.frozen,
        !u.dirty,
    ensures
        !entities_step(u, ids).frozen,
        !entities_step(u, ids).dirty,
    decreases ids.len(),
{
    if ids.len() > 0 {
        lemma_clean_entities(u, ids.drop_last());
    }
}

/// A screen that was woken is at least as bright as configured, one that was not follows the
/// light, and a light that is off is dark.
pub proof fn brightness_follows_the_light(u: UiV)
    ensures
        u.awake ==> brightness_now(u) >= u.cfg.display.wake_brightness,
        !u.awake && u.light.on ==> brightness_now(u) == u.light.brightness,
        !u.awake && !u.light.on ==> brightness_now(u) == 0,
{
}

/// No command makes the light dark while it is on: a brightness of zero counts as one.
pub proof fn commands_keep_the_light_lit(light: LightState, c: LightCommandV)
    requires
        light.brightness >= 1,
        c matches LightCommandV::Restore(s) ==> s.brightness >= 1,
    ensures
        commanded(light, c).brightness >= 1,
{
}

/// A dark screen whose signal is off is left alone as long as it stays dark.
pub proof fn a_dark_screen_stays_off(u: UiV)
    requires
        u.frozen,
        brightness_now(u) == 0,
    ensures
        screen_step(u).0 == u,
{
    reveal(screen_step);
}

/// With a sound configuration a touch always wakes the screen: it is bright enough, the signal is
/// on, and the next touch operates the controls.
#[verifier::rlimit(40)]
pub proof fn a_touch_wakes_the_screen(u: UiV)
    requires
        u.cfg.problem() is None,
    ensures
        brightness_now(UiV { awake: true, ..u }) >= u.cfg.display.wake_brightness >= 1,
        !wake_step(u).0.frozen,
        !wake_step(u).0.window.wake_guard,
        wake_step(u).0.window.overlay != Overlay::Full,
{
    let a = UiV { awake: true, ..u };
    thawing_leaves_nothing_behind(a);
    lemma_lit_screen(a);
}

/// A screen that is not dark has thawed, and its guard follows its brightness.
proof fn lemma_lit_screen(u: UiV)
    requires
        brightness_now(u) != 0,
    ensures
        screen_step(u).0.frozen == thaw_step(u).0.frozen,
        screen_step(u).0.window.wake_guard == guarded(u),
        screen_step(u).0.window.overlay != Overlay::Full,
{
    reveal(screen_step);
}

// ---------------- catching up ----------------

/// Refreshing what the window shows of an entity would change nothing.
pub open spec fn up_to_date(u: UiV, id: Seq<char>) -> bool {
    shown(u, id) ==> refreshed(u, id) == u.window
}

/// The parts of the window that entities show in.
enum Part {
    Weather,
    House,
    Fan,
    Servers,
    Loads,
    Indoor,
    Printer,
    Lights,
    Grafana,
    Cameras,
    Display,
    Nowhere,
}

/// Where an entity shows.
#[verifier::opaque]
spec fn part_of(cfg: Config, id: Seq<char>) -> Part {
    let e = cfg.entities;
    if id == e.weather@ {
        Part::Weather
    } else if id == e.house_power@ {
        Part::House
    } else if !blank(id) && id == e.office_fan@ {
        Part::Fan
    } else if !blank(id) && id == e.servers_power@ {
        Part::Servers
    } else if is_load_id(cfg, id) {
        Part::Loads
    } else if !blank(id) && (id == e.office_temperature@ || id == e.office_humidity@) {
        Part::Indoor
    } else if is_printer_id(cfg, id) {
        Part::Printer
    } else if id == e.light_ceiling@ || id == e.light_monitor@ {
        Part::Lights
    } else if id == e.kiosk_grafana@ {
        Part::Grafana
    } else if !blank(id) && id == e.kiosk_camera@ {
        Part::Cameras
    } else if id == e.kiosk_display_power@ {
        Part::Display
    } else {
        Part::Nowhere
    }
}

/// A window with every part up to date. It does not depend on what the window shows now.
#[verifier::opaque]
spec fn current(cfg: Config, car: Reading, es: EntitiesV, v: Seq<InflightV>) -> WindowV {
    let e = cfg.entities;
    WindowV {
        weather: weather_of(cfg, at(es, e.weather@)),
        house_power: power_text(state_figure(at(es, e.house_power@))),
        fan: fan_of(at(es, e.office_fan@), v),
        servers_power: power_text(state_figure(at(es, e.servers_power@))),
        loads: loads_of(cfg, car, es),
        indoor: indoor_of(cfg, es),
        printer: printer_of(cfg, es),
        preset_active: active_preset(cfg, es),
        lights: lights_of(cfg, es, v),
        grafana: toggle_of(es, v, e.kiosk_grafana@, ToggleKey::Grafana),
        cam_street: camera_of(
            at(es, e.kiosk_camera@),
            v,
            e.kiosk_camera_street_option@,
            ToggleKey::CamStreet,
        ),
        cam_gallery: camera_of(
            at(es, e.kiosk_camera@),
            v,
            e.kiosk_camera_gallery_option@,
            ToggleKey::CamGallery,
        ),
        kiosk_display: toggle_of(es, v, e.kiosk_display_power@, ToggleKey::Display),
        kiosk_display_mode: mode_of(at(es, e.kiosk_display_power@)),
        ..empty_window()
    }
}

/// The window with one part taken from another.
#[verifier::opaque]
spec fn patched(w: WindowV, p: Part, from: WindowV) -> WindowV {
    WindowV {
        weather: if p is Weather {
            from.weather
        } else {
            w.weather
        },
        house_power: if p is House {
            from.house_power
        } else {
            w.house_power
        },
        fan: if p is Fan {
            from.fan
        } else {
            w.fan
        },
        servers_power: if p is Servers {
            from.servers_power
        } else {
            w.servers_power
        },
        loads: if p is Loads {
            from.loads
        } else {
            w.loads
        },
        indoor: if p is Indoor {
            from.indoor
        } else {
            w.indoor
        },
        printer: if p is Printer {
            from.printer
        } else {
            w.printer
        },
        preset_active: if p is Lights {
            from.preset_active
        } else {
            w.preset_active
        },
        lights: if p is Lights {
            from.lights
        } else {
            w.lights
        },
        grafana: if p is Grafana {
            from.grafana
        } else {
            w.grafana
        },
        cam_street: if p is Cameras {
            from.cam_street
        } else {
            w.cam_street
        },
        cam_gallery: if p is Cameras {
            from.cam_gallery
        } else {
            w.cam_gallery
        },
        kiosk_display: if p is Display {
            from.kiosk_display
        } else {
            w.kiosk_display
        },
        kiosk_display_mode: if p is Display {
            from.kiosk_display_mode
        } else {
            w.kiosk_display_mode
        },
        ..w
    }
}

/// The window has this part in common with another.
spec fn agrees(w: WindowV, p: Part, with: WindowV) -> bool {
    match p {
        Part::Weather => w.weather == with.weather,
        Part::House => w.house_power == with.house_power,
        Part::Fan => w.fan == with.fan,
        Part::Servers => w.servers_power == with.servers_power,
        Part::Loads => w.loads == with.loads,
        Part::Indoor => w.indoor == with.indoor,
        Part::Printer => w.printer == with.printer,
        Part::Lights => w.preset_active == with.preset_active && w.lights == with.lights,
        Part::Grafana => w.grafana == with.grafana,
        Part::Cameras => w.cam_street == with.cam_street && w.cam_gallery == with.cam_gallery,
        Part::Display => w.kiosk_display == with.kiosk_display && w.kiosk_display_mode
            == with.kiosk_display_mode,
        Part::Nowhere => true,
    }
}

/// Windows that show the same are the same.
proof fn lemma_same_window(a: WindowV, b: WindowV)
    requires
        a.indoor_label == b.indoor_label,
        a.touch_test == b.touch_test,
        a.time_hm == b.time_hm,
        a.time_s == b.time_s,
        a.date == b.date,
        a.weekday == b.weekday,
        a.zones == b.zones,
        a.connecting == b.connecting,
        a.connecting_detail == b.connecting_detail,
        a.ha_online == b.ha_online,
        a.weather == b.weather,
        a.house_power == b.house_power,
        a.servers_power == b.servers_power,
        a.loads == b.loads,
        a.indoor == b.indoor,
        a.printer == b.printer,
        a.lights == b.lights,
        a.grafana == b.grafana,
        a.cam_street == b.cam_street,
        a.cam_gallery == b.cam_gallery,
        a.kiosk_display == b.kiosk_display,
        a.kiosk_display_mode == b.kiosk_display_mode,
        a.fan == b.fan,
        a.preset_active == b.preset_active,
        a.preset_pending == b.preset_pending,
        a.toast_text == b.toast_text,
        a.toast_visible == b.toast_visible,
        a.overlay == b.overlay,
        a.wake_guard == b.wake_guard,
    ensures
        a == b,
{
}

/// A part that was taken over agrees, and so does every other part that did before.
#[verifier::spinoff_prover]
#[verifier::rlimit(80)]
proof fn lemma_patched(w: WindowV, p: Part, with: WindowV, q: Part)
    ensures
        agrees(patched(w, p, with), p, with),
        agrees(w, q, with) ==> agrees(patched(w, p, with), q, with),
        patched(w, p, with).connecting == w.connecting,
        patched(w, p, with).connecting_detail == w.connecting_detail,
        patched(w, p, with).ha_online == w.ha_online,
{
    reveal(patched);
}

/// A part that agrees already is taken over without any change.
proof fn lemma_agrees(w: WindowV, p: Part, with: WindowV)
    ensures
        agrees(w, p, with) <==> patched(w, p, with) == w,
{
    lemma_patched(w, p, with, p);
    if agrees(w, p, with) {
        lemma_nothing_taken(w, p, with);
    }
}

#[verifier::spinoff_prover]
#[verifier::rlimit(80)]
proof fn lemma_nothing_taken(w: WindowV, p: Part, with: WindowV)
    requires
        agrees(w, p, with),
    ensures
        patched(w, p, with) == w,
{
    reveal(patched);
    lemma_same_window(patched(w, p, with), w);
}

/// Refreshing an entity takes its part from the current window.
#[verifier::spinoff_prover]
#[verifier::rlimit(80)]
proof fn lemma_refreshed(u: UiV, id: Seq<char>)
    ensures
        refreshed(u, id) == patched(
            u.window,
            part_of(u.cfg, id),
            current(u.cfg, u.car_threshold_w, u.entities, u.inflight),
        ),
{
    reveal(refreshed);
    reveal(control_refreshed);
    reveal(part_of);
    reveal(current);
    reveal(patched);
    lemma_same_window(
        refreshed(u, id),
        patched(
            u.window,
            part_of(u.cfg, id),
            current(u.cfg, u.car_threshold_w, u.entities, u.inflight),
        ),
    );
}

/// Whether an entity shows does not depend on what the window shows now.
proof fn lemma_shown_alike(u: UiV, w: WindowV, id: Seq<char>)
    ensures
        shown(UiV { window: w, ..u }, id) == shown(u, id),
{
    reveal(shown);
}

/// What it takes for an entity to be up to date.
proof fn lemma_up_to_date(u: UiV, id: Seq<char>)
    ensures
        up_to_date(u, id) <==> (shown(u, id) ==> agrees(
            u.window,
            part_of(u.cfg, id),
            current(u.cfg, u.car_threshold_w, u.entities, u.inflight),
        )),
{
    lemma_refreshed(u, id);
    lemma_agrees(
        u.window,
        part_of(u.cfg, id),
        current(u.cfg, u.car_threshold_w, u.entities, u.inflight),
    );
}

/// Refreshing an entity brings it up to date, and leaves what is up to date so.
#[verifier::spinoff_prover]
#[verifier::rlimit(80)]
proof fn lemma_refresh(u: UiV, id: Seq<char>, other: Seq<char>)
    requires
        !u.frozen,
    ensures
        up_to_date(entity_step(u, id), id),
        up_to_date(u, other) ==> up_to_date(entity_step(u, id), other),
{
    let w = refreshed(u, id);
    let t = UiV { window: w, ..u };
    lemma_refreshed(u, id);
    lemma_shown_alike(u, w, id);
    lemma_shown_alike(u, w, other);
    lemma_up_to_date(u, other);
    lemma_up_to_date(t, id);
    lemma_up_to_date(t, other);
    let with = current(u.cfg, u.car_threshold_w, u.entities, u.inflight);
    lemma_patched(u.window, part_of(u.cfg, id), with, part_of(u.cfg, other));
}

proof fn lemma_refreshes_keep(u: UiV, ids: Seq<Seq<char>>, other: Seq<char>)
    requires
        !u.frozen,
        up_to_date(u, other),
    ensures
        up_to_date(entities_step(u, ids), other),
        !entities_step(u, ids).frozen,
    decreases ids.len(),
{
    if ids.len() > 0 {
        lemma_refreshes_keep(u, ids.drop_last(), other);
        lemma_refresh(entities_step(u, ids.drop_last()), ids.last(), other);
    }
}

proof fn lemma_refreshes_stick(u: UiV, ids: Seq<Seq<char>>, i: int)
    requires
        !u.frozen,
        0 <= i < ids.len(),
    ensures
        up_to_date(entities_step(u, ids), ids[i]),
    decreases ids.len(),
{
    let rest = ids.drop_last();
    let prev = entities_step(u, rest);
    lemma_entities_keep(u, rest);
    lemma_refresh(prev, ids.last(), ids[i]);
    if i < rest.len() {
        lemma_refreshes_stick(u, rest, i);
        assert(rest[i] == ids[i]);
    }
}

/// Refreshing entities says nothing about the link.
proof fn lemma_link_is_kept(u: UiV, ids: Seq<Seq<char>>)
    ensures
        entities_step(u, ids).window.connecting == u.window.connecting,
        entities_step(u, ids).window.connecting_detail == u.window.connecting_detail,
        entities_step(u, ids).window.ha_online == u.window.ha_online,
    decreases ids.len(),
{
    if ids.len() > 0 {
        let prev = entities_step(u, ids.drop_last());
        let part = part_of(prev.cfg, ids.last());
        lemma_link_is_kept(u, ids.drop_last());
        lemma_refreshed(prev, ids.last());
        lemma_patched(
            prev.window,
            part,
            current(prev.cfg, prev.car_threshold_w, prev.entities, prev.inflight),
            part,
        );
    }
}

/// When the signal comes back the window catches up with all that came in while it was off: the
/// link, the calls under way, and every entity that is subscribed to.
pub proof fn thawing_catches_up(u: UiV, id: Seq<char>)
    requires
        u.frozen,
    ensures
        ({
            let w = thaw_step(u).0.window;
            &&& w.connecting == !(u.ha_connected && u.time_synced)
            &&& w.connecting_detail == waiting_for(
                u.ha_connected,
                u.time_synced,
                u.ha_token_missing,
            )
            &&& w.ha_online == u.ha_connected
            &&& w.preset_pending == pending_preset(u.inflight)
        }),
        named(u.cfg.all_ids()).contains(id) ==> up_to_date(thaw_step(u).0, id),
{
    reveal(thaw_step);
    reveal(connecting_step);
    reveal(pending_step);
    let v = UiV { frozen: false, dirty: false, ..u };
    let c = connecting_step(v);
    let ids = named(v.cfg.all_ids());
    let e = entities_step(c, ids);
    lemma_entities_keep(c, ids);
    lemma_entities_keep(e, control_ids(e.cfg));
    lemma_link_is_kept(c, ids);
    lemma_link_is_kept(e, control_ids(e.cfg));
    if ids.contains(id) {
        let i = choose|i: int| 0 <= i < ids.len() && ids[i] == id;
        lemma_refreshes_stick(c, ids, i);
        lemma_refreshes_keep(e, control_ids(e.cfg), id);
        lemma_preset_is_apart(entities_step(e, control_ids(e.cfg)), id, pending_preset(e.inflight));
    }
}

/// Once the calls under way have changed, everything that has a control on it is up to date: the two
/// lights, the kiosk's page, its cameras and its monitor, and the fan.
pub proof fn the_controls_follow_the_calls(u: UiV, id: Seq<char>)
    requires
        !u.frozen,
        is_control(u.cfg, id),
    ensures
        up_to_date(pending_step(u), id),
        !pending_step(u).frozen,
{
    let ids = control_ids(u.cfg);
    let c = entities_step(u, ids);
    let e = u.cfg.entities;
    assert(ids[0] == e.light_ceiling@ && ids[1] == e.light_monitor@ && ids[2] == e.kiosk_grafana@
        && ids[3] == e.kiosk_camera@ && ids[4] == e.kiosk_display_power@ && ids[5] == e.office_fan@);
    let i = choose|i: int| 0 <= i < ids.len() && ids[i] == id;
    lemma_refreshes_stick(u, ids, i);
    lemma_entities_keep(u, ids);
    lemma_preset_is_apart(c, id, pending_preset(u.inflight));
    reveal(pending_step);
}

/// The entity has a control on it that calls come from.
pub open spec fn is_control(cfg: Config, id: Seq<char>) -> bool {
    let e = cfg.entities;
    id == e.light_ceiling@ || id == e.light_monitor@ || id == e.kiosk_grafana@ || id
        == e.kiosk_camera@ || id == e.kiosk_display_power@ || id == e.office_fan@
}

/// Whatever starts or ends a call shows in the controls at once: the call itself, a failure, the end
/// of its time, that it could not be handed on, and a state that it waited for.
pub proof fn what_becomes_of_a_call_shows_in_the_controls(
    u: UiV,
    call: ServiceCallV,
    key: PendingKey,
    request: u64,
    error: Option<Seq<char>>,
    control: Seq<char>,
)
    requires
        !u.frozen,
        is_control(u.cfg, control),
    ensures
        up_to_date(send_step(u, call, key), control),
        up_to_date(not_sent_step(u, request).0, control),
        request_place(u.inflight, request) < u.inflight.len() ==> up_to_date(
            timeout_step(u, request).0,
            control,
        ),
        request_place(u.inflight, request) < u.inflight.len() ==> up_to_date(
            result_step(u, request, false, error).0,
            control,
        ),
{
    let next = (u.next_request + 1) as u64;
    let sent = UiV {
        next_request: next,
        inflight: u.inflight.push(
            InflightV { request: next, key, entities: call.entity_ids, confirmed: false },
        ),
        ..u
    };
    let gone = UiV { inflight: without_request(u.inflight, request), ..u };
    let why = match error {
        Some(e) => e,
        None => "erreur inconnue"@,
    };
    the_controls_follow_the_calls(sent, control);
    the_controls_follow_the_calls(gone, control);
    the_controls_follow_the_calls(toast_step(gone, "Échec : "@ + why), control);
    the_controls_follow_the_calls(toast_step(gone, "Pas de réponse de Home Assistant"@), control);
    the_controls_follow_the_calls(toast_step(gone, "Home Assistant indisponible"@), control);
}

/// A state that some call waited for shows in every control at once, and in its own pane in any case.
pub proof fn a_state_shows_at_once(u: UiV, id: Seq<char>, m: MeasuredV, control: Seq<char>, i: int)
    requires
        !u.frozen,
        is_control(u.cfg, control),
    ensures
        up_to_date(state_step(u, id, m), id),
        up_to_date(removed_step(u, id), id),
        0 <= i < u.inflight.len() && u.inflight[i].entities.contains(id) ==> up_to_date(
            state_step(u, id, m),
            control,
        ),
{
    let left = not_waiting_for(u.inflight, id);
    let v = UiV { entities: u.entities.insert(id, m), inflight: left, ..u };
    the_controls_follow_the_calls(v, control);
    lemma_refresh(v, id, control);
    lemma_refresh(pending_step(v), id, control);
    lemma_refresh(UiV { entities: u.entities.remove(id), ..u }, id, control);
    if 0 <= i < u.inflight.len() && u.inflight[i].entities.contains(id) {
        lemma_waiting_ends(u.inflight, id, i);
    }
}

proof fn lemma_waiting_ends(v: Seq<InflightV>, id: Seq<char>, i: int)
    requires
        0 <= i < v.len(),
        v[i].entities.contains(id),
    ensures
        not_waiting_for(v, id).len() < v.len(),
    decreases v.len(),
{
    let rest = v.drop_last();
    lemma_no_more_wait(rest, id);
    if i < rest.len() {
        assert(rest[i] == v[i]);
        lemma_waiting_ends(rest, id, i);
    }
}

proof fn lemma_no_more_wait(v: Seq<InflightV>, id: Seq<char>)
    ensures
        not_waiting_for(v, id).len() <= v.len(),
    decreases v.len(),
{
    if v.len() > 0 {
        lemma_no_more_wait(v.drop_last(), id);
    }
}

/// Which preset is under way is no entity's concern.
proof fn lemma_preset_is_apart(u: UiV, id: Seq<char>, preset: int)
    requires
        !u.frozen,
        up_to_date(u, id),
    ensures
        up_to_date(
            shown_with(u, WindowV { preset_pending: preset, ..u.window }),
            id,
        ),
{
    let w = WindowV { preset_pending: preset, ..u.window };
    lemma_up_to_date(u, id);
    lemma_up_to_date(UiV { window: w, ..u }, id);
    lemma_shown_alike(u, w, id);
}

// ---------------- the energy monitor ----------------

/// A value that the energy monitor gives is shown, and one that it leaves out is shown as its own
/// Home Assistant sensor has it: both are when the monitor stops answering. From then on each sensor
/// shows exactly where its value was not given.
#[verifier::spinoff_prover]
#[verifier::rlimit(80)]
pub proof fn a_value_left_out_comes_from_its_sensor(u: UiV, power: PowerEventV)
    requires
        !u.frozen,
    ensures
        ({
            let e = u.cfg.entities;
            let house = given_house(power);
            let servers = given_servers(power);
            let t = power_step(u, power);
            &&& t.window.house_power == power_text(
                if house is Some {
                    house
                } else {
                    state_figure(at(u.entities, e.house_power@))
                },
            )
            &&& servers is Some || !blank(e.servers_power@) ==> t.window.servers_power
                == power_text(
                if servers is Some {
                    servers
                } else {
                    state_figure(at(u.entities, e.servers_power@))
                },
            )
            &&& t.house_live == (house is Some)
            &&& t.servers_live == (servers is Some)
        }),
{
    lemma_house_step(u, given_house(power));
    lemma_servers_step(house_step(u, given_house(power)), given_servers(power));
}

/// A value that the energy monitor does not give follows its own sensor, state by state, until the
/// monitor gives it.
#[verifier::spinoff_prover]
#[verifier::rlimit(80)]
pub proof fn a_sensor_shows_until_the_monitor_gives_its_value(u: UiV, m: MeasuredV)
    requires
        !u.frozen,
    ensures
        ({
            let e = u.cfg.entities;
            let t = state_step(u, e.house_power@, m);
            !u.house_live && e.house_power@ != e.weather@ ==> t.window.house_power == power_text(
                m.figures.state,
            ) && !t.house_live
        }),
        ({
            let e = u.cfg.entities;
            let t = state_step(u, e.servers_power@, m);
            !u.servers_live && !blank(e.servers_power@) && e.servers_power@ != e.weather@
                && e.servers_power@ != e.house_power@ && e.servers_power@ != e.office_fan@
                ==> t.window.servers_power == power_text(m.figures.state) && !t.servers_live
        }),
{
    let e = u.cfg.entities;
    lemma_state_shows(u, e.house_power@, m);
    lemma_state_shows(u, e.servers_power@, m);
    reveal(part_of);
    reveal(shown);
    reveal(current);
}

/// An entity's state is shown where the entity shows.
#[verifier::spinoff_prover]
#[verifier::rlimit(80)]
proof fn lemma_state_shows(u: UiV, id: Seq<char>, m: MeasuredV)
    requires
        !u.frozen,
    ensures
        ({
            let t = state_step(u, id, m);
            let es = u.entities.insert(id, m);
            &&& t.house_live == u.house_live
            &&& t.servers_live == u.servers_live
            &&& shown(u, id) ==> agrees(
                t.window,
                part_of(u.cfg, id),
                current(u.cfg, u.car_threshold_w, es, not_waiting_for(u.inflight, id)),
            )
        }),
{
    let v = UiV {
        entities: u.entities.insert(id, m),
        inflight: not_waiting_for(u.inflight, id),
        ..u
    };
    lemma_pending_keeps(v);
    lemma_unfrozen_pending(v);
    let p = pending_step(v);
    lemma_refresh(v, id, id);
    lemma_refresh(p, id, id);
    lemma_up_to_date(entity_step(v, id), id);
    lemma_up_to_date(entity_step(p, id), id);
    assert(shown(u, id) == shown(v, id) && shown(v, id) == shown(p, id) && shown(
        entity_step(v, id),
        id,
    ) == shown(v, id) && shown(entity_step(p, id), id) == shown(v, id)) by {
        reveal(shown);
    }
}

proof fn lemma_unfrozen_pending(u: UiV)
    requires
        !u.frozen,
    ensures
        !pending_step(u).frozen,
{
    lemma_pending_keeps(u);
}

/// While the energy monitor gives a value, no entity's state changes what is shown of it.
pub proof fn a_value_given_is_left_alone(u: UiV, id: Seq<char>, m: MeasuredV)
    ensures
        u.house_live ==> state_step(u, id, m).window.house_power == u.window.house_power,
        u.servers_live ==> state_step(u, id, m).window.servers_power == u.window.servers_power,
{
    let v = UiV {
        entities: u.entities.insert(id, m),
        inflight: not_waiting_for(u.inflight, id),
        ..u
    };
    lemma_given_entity(v, id);
    lemma_given_pending(v);
    lemma_pending_keeps(v);
    lemma_given_entity(pending_step(v), id);
}

#[verifier::spinoff_prover]
#[verifier::rlimit(80)]
proof fn lemma_given_entity(u: UiV, id: Seq<char>)
    ensures
        u.house_live ==> entity_step(u, id).window.house_power == u.window.house_power,
        u.servers_live ==> entity_step(u, id).window.servers_power == u.window.servers_power,
{
    reveal(shown);
    reveal(refreshed);
    reveal(control_refreshed);
}

proof fn lemma_given_entities(u: UiV, ids: Seq<Seq<char>>)
    ensures
        u.house_live ==> entities_step(u, ids).window.house_power == u.window.house_power,
        u.servers_live ==> entities_step(u, ids).window.servers_power == u.window.servers_power,
    decreases ids.len(),
{
    if ids.len() > 0 {
        let rest = ids.drop_last();
        lemma_given_entities(u, rest);
        lemma_entities_keep(u, rest);
        lemma_given_entity(entities_step(u, rest), ids.last());
    }
}

proof fn lemma_given_pending(u: UiV)
    ensures
        u.house_live ==> pending_step(u).window.house_power == u.window.house_power,
        u.servers_live ==> pending_step(u).window.servers_power == u.window.servers_power,
{
    reveal(pending_step);
    lemma_given_entities(u, control_ids(u.cfg));
}

// ---------------- calls ----------------

/// The requests grow along the calls, and none is above `bound`.
pub open spec fn requests_grow(v: Seq<InflightV>, bound: int) -> bool {
    &&& forall|i: int, j: int|
        0 <= i < j < v.len() ==> (#[trigger] v[i]).request < (#[trigger] v[j]).request
    &&& forall|i: int| 0 <= i < v.len() ==> (#[trigger] v[i]).request <= bound
}

proof fn lemma_not_waiting(v: Seq<InflightV>, id: Seq<char>, bound: int)
    requires
        requests_grow(v, bound),
    ensures
        requests_grow(not_waiting_for(v, id), bound),
        forall|i: int|
            0 <= i < not_waiting_for(v, id).len() ==> !(#[trigger] not_waiting_for(
                v,
                id,
            )[i]).entities.contains(id),
    decreases v.len(),
{
    if v.len() > 0 {
        let rest = v.drop_last();
        assert forall|i: int| 0 <= i < rest.len() implies (#[trigger] rest[i]).request
            <= v.last().request - 1 by {
            assert(rest[i] == v[i]);
        }
        lemma_not_waiting(rest, id, v.last().request - 1);
    }
}

/// Calls are told apart: a new one goes out under a request above all those under way.
pub proof fn a_call_gets_a_request_of_its_own(u: UiV, call: ServiceCallV, key: PendingKey)
    requires
        requests_grow(u.inflight, u.next_request as int),
        u.next_request < u64::MAX,
    ensures
        ({
            let t = send_step(u, call, key);
            &&& t.inflight.len() == u.inflight.len() + 1
            &&& t.inflight.last().request == u.next_request + 1
            &&& requests_grow(t.inflight, t.next_request as int)
        }),
{
    let request = (u.next_request + 1) as u64;
    lemma_pending_keeps(
        UiV {
            next_request: request,
            inflight: u.inflight.push(
                InflightV { request, key, entities: call.entity_ids, confirmed: false },
            ),
            ..u
        },
    );
}

/// A call that failed, that ran out of time or that could not be handed on is under way no more.
#[verifier::rlimit(30)]
pub proof fn a_call_ends_once(u: UiV, request: u64, error: Option<Seq<char>>)
    ensures
        result_step(u, request, false, error).0.inflight == without_request(u.inflight, request),
        timeout_step(u, request).0.inflight == without_request(u.inflight, request),
        not_sent_step(u, request).0.inflight == without_request(u.inflight, request),
{
    let gone = UiV { inflight: without_request(u.inflight, request), ..u };
    let why = match error {
        Some(e) => e,
        None => "erreur inconnue"@,
    };
    lemma_told(gone, "Échec : "@ + why);
    lemma_told(gone, "Pas de réponse de Home Assistant"@);
    lemma_told(gone, "Home Assistant indisponible"@);
    lemma_calls_kept(gone);
    lemma_absent_request(u.inflight, request);
}

/// Refreshing the controls leaves the calls under way alone.
proof fn lemma_calls_kept(u: UiV)
    ensures
        pending_step(u).inflight == u.inflight,
{
    lemma_pending_keeps(u);
}

/// So does a toast before it.
proof fn lemma_told(u: UiV, text: Seq<char>)
    ensures
        pending_step(toast_step(u, text)).inflight == u.inflight,
{
    lemma_calls_kept(toast_step(u, text));
}

/// What is left when a call ends does not hold its request, and stays in its order.
pub proof fn the_other_calls_stay_in_order(v: Seq<InflightV>, request: u64, bound: int)
    requires
        requests_grow(v, bound),
    ensures
        requests_grow(without_request(v, request), bound),
        forall|i: int|
            0 <= i < without_request(v, request).len() ==> (#[trigger] without_request(
                v,
                request,
            )[i]).request != request,
    decreases v.len(),
{
    if v.len() > 0 {
        let rest = v.drop_last();
        assert forall|i: int| 0 <= i < rest.len() implies (#[trigger] rest[i]).request
            <= v.last().request - 1 by {
            assert(rest[i] == v[i]);
        }
        the_other_calls_stay_in_order(rest, request, v.last().request - 1);
    }
}

/// Without a call of this request there is none to take out.
proof fn lemma_absent_request(v: Seq<InflightV>, request: u64)
    ensures
        request_place(v, request) >= v.len() ==> without_request(v, request) == v,
    decreases v.len(),
{
    if request_place(v, request) >= v.len() {
        lemma_nowhere(v, request);
        if v.len() > 0 {
            let rest = v.drop_last();
            lemma_somewhere(rest, request);
            if request_place(rest, request) < rest.len() {
                assert(v[request_place(rest, request)].request == request);
            }
            lemma_absent_request(rest, request);
            assert(v[v.len() - 1].request != request);
            assert(rest.push(v.last()) =~= v);
        }
    }
}

proof fn lemma_nowhere(v: Seq<InflightV>, request: u64)
    requires
        request_place(v, request) >= v.len(),
    ensures
        forall|i: int| 0 <= i < v.len() ==> (#[trigger] v[i]).request != request,
    decreases v.len(),
{
    if v.len() > 0 {
        lemma_nowhere(v.drop_first(), request);
        assert forall|i: int| 0 <= i < v.len() implies (#[trigger] v[i]).request != request by {
            if i > 0 {
                assert(v.drop_first()[i - 1] == v[i]);
            }
        }
    }
}

proof fn lemma_somewhere(v: Seq<InflightV>, request: u64)
    ensures
        request_place(v, request) < v.len() ==> 0 <= request_place(v, request) && v[request_place(
            v,
            request,
        )].request == request,
    decreases v.len(),
{
    if v.len() > 0 {
        lemma_somewhere(v.drop_first(), request);
    }
}

/// An entity's state ends the wait of every call that waited for it, and of no other.
pub proof fn a_state_ends_the_wait(u: UiV, id: Seq<char>, m: MeasuredV)
    requires
        requests_grow(u.inflight, u.next_request as int),
    ensures
        ({
            let t = state_step(u, id, m);
            &&& t.inflight == not_waiting_for(u.inflight, id)
            &&& requests_grow(t.inflight, t.next_request as int)
            &&& forall|i: int|
                0 <= i < t.inflight.len() ==> !(#[trigger] t.inflight[i]).entities.contains(id)
        }),
{
    let left = not_waiting_for(u.inflight, id);
    lemma_not_waiting(u.inflight, id, u.next_request as int);
    lemma_pending_keeps(UiV { entities: u.entities.insert(id, m), inflight: left, ..u });
}

} // verus!
