//! What holds of the controller: where an entity shows, what a control asks for, and what the screen
//! does about the light and the clock.
use vstd::prelude::*;
use crate::base_laws::the_first_member_counts;
use crate::clock::ClockV;
use crate::config::{Config, Zone};
use crate::json::{member, JsonV};
use crate::light_laws::showing_the_light_leaves_it_alone;
use crate::map::at;
use crate::number::Reading;
use crate::screen::{
    active_preset, camera_of, fan_of, indoor_of, lights_of, loads_of, matching_preset, mode_of,
    pending_preset, power_text, printer_of, state_figure, toggle_of, weather_of, InflightV,
    MeasuredV, PendingKey, ToggleKey,
};
use crate::screen_laws::{the_controls_follow_the_calls, up_to_date};
use crate::text::{blank, decimal, upper_text};
use crate::types::{LightState, ServiceCallV};
use crate::ui::{
    activity_effects, brightness_now, clock_step, connected_step, connecting_step, control_ids,
    control_refreshed, cut_effects, doze_step, dropped_step, empty_window, entities_step,
    entity_step, fan_call, fan_step, first_rows, freeze_step, grace_timer, guarded,
    lemma_entities_keep, lemma_pending_keeps, new_ui, not_sent_step, not_waiting_for, pending_step,
    preset_calls, refreshed, removed_step, request_place, result_step, screen_step, send_all,
    send_effects, send_step, shown, shutdown_effects, start_step, state_step, synced_step,
    thaw_step, tick_step, time_parts, timeout_step, toast_over, toast_step, toggle_call,
    toggle_named, toggle_step, wake_step, without_request, EffectV, Overlay, UiV, WindowV,
};

verus! {

// ---------------- where an entity shows ----------------

/// What the window shows that no entity is about.
pub open spec fn same_frame(a: WindowV, b: WindowV) -> bool {
    &&& a.indoor_label == b.indoor_label
    &&& a.touch_test == b.touch_test
    &&& a.time_hm == b.time_hm
    &&& a.time_s == b.time_s
    &&& a.date == b.date
    &&& a.weekday == b.weekday
    &&& a.zones == b.zones
    &&& a.connecting == b.connecting
    &&& a.connecting_detail == b.connecting_detail
    &&& a.ha_online == b.ha_online
    &&& a.toast_text == b.toast_text
    &&& a.toast_visible == b.toast_visible
    &&& a.overlay == b.overlay
    &&& a.wake_guard == b.wake_guard
}

/// The entity is one that is measured or watched, and has no control on it.
pub open spec fn is_watched(cfg: Config, id: Seq<char>) -> bool {
    let e = cfg.entities;
    ||| id == e.weather@
    ||| id == e.house_power@
    ||| !blank(id) && (id == e.office_fan@ || id == e.servers_power@ || id == e.stove_power@ || id
        == e.car_charge_power@ || id == e.car_battery@ || id == e.water_heater_power@ || id
        == e.washer_power@ || id == e.dryer_power@ || id == e.office_temperature@ || id
        == e.office_humidity@)
    ||| id == e.printer_progress@
    ||| id == e.printer_time_left@
    ||| id == e.printer_power@
    ||| id == e.printer_print_state@
    ||| id == e.printer_klipper_state@
}

/// An entity that is measured or watched shows in the pane that is about it, and every other pane
/// stays as it was. Where one entity stands for several things, the first of them counts: the
/// weather, the house, the fan, the servers, the loads, the air indoors, the printer.
pub proof fn an_entity_shows_in_its_own_pane(u: UiV, id: Seq<char>)
    requires
        !u.frozen,
    ensures
        ({
            let e = u.cfg.entities;
            let w = entity_step(u, id).window;
            let weather = id == e.weather@;
            let house = !weather && id == e.house_power@;
            let fan = !blank(id) && !weather && !house && id == e.office_fan@;
            let servers = !blank(id) && !weather && !house && !fan && id == e.servers_power@;
            let loads = !blank(id) && !weather && !house && !fan && !servers && (id == e.stove_power@ || id
                == e.car_charge_power@ || id == e.car_battery@ || id == e.water_heater_power@ || id
                == e.washer_power@ || id == e.dryer_power@);
            let indoor = !blank(id) && !weather && !house && !fan && !servers && !loads && (id
                == e.office_temperature@ || id == e.office_humidity@);
            let printer = !weather && !house && !fan && !servers && !loads && !indoor && (id
                == e.printer_progress@ || id == e.printer_time_left@ || id == e.printer_power@ || id
                == e.printer_print_state@ || id == e.printer_klipper_state@);
            &&& w.weather == if weather {
                weather_of(u.cfg, at(u.entities, id))
            } else {
                u.window.weather
            }
            &&& w.house_power == if house && !u.house_live {
                power_text(state_figure(at(u.entities, id)))
            } else {
                u.window.house_power
            }
            &&& w.fan == if fan {
                fan_of(at(u.entities, id), u.inflight)
            } else {
                u.window.fan
            }
            &&& w.servers_power == if servers && !u.servers_live {
                power_text(state_figure(at(u.entities, id)))
            } else {
                u.window.servers_power
            }
            &&& w.loads == if loads {
                loads_of(u.cfg, u.car_threshold_w, u.entities)
            } else {
                u.window.loads
            }
            &&& w.indoor == if indoor {
                indoor_of(u.cfg, u.entities)
            } else {
                u.window.indoor
            }
            &&& w.printer == if printer {
                printer_of(u.cfg, u.entities)
            } else {
                u.window.printer
            }
        }),
{
    reveal(shown);
    reveal(refreshed);
    reveal(control_refreshed);
}

/// An entity with a control on it shows in that control, and every other control stays as it was.
/// The lights share one pane, the cameras one select.
pub proof fn an_entity_shows_in_its_own_control(u: UiV, id: Seq<char>)
    requires
        !u.frozen,
    ensures
        ({
            let e = u.cfg.entities;
            let w = entity_step(u, id).window;
            let free = !is_watched(u.cfg, id);
            let lights = free && (id == e.light_ceiling@ || id == e.light_monitor@);
            let grafana = free && !lights && id == e.kiosk_grafana@;
            let cameras = free && !lights && !grafana && !blank(id) && id == e.kiosk_camera@;
            let display = free && !lights && !grafana && !cameras && id == e.kiosk_display_power@;
            &&& w.lights == if lights {
                lights_of(u.cfg, u.entities, u.inflight)
            } else {
                u.window.lights
            }
            &&& w.preset_active == if lights {
                active_preset(u.cfg, u.entities)
            } else {
                u.window.preset_active
            }
            &&& w.grafana == if grafana {
                toggle_of(u.entities, u.inflight, id, ToggleKey::Grafana)
            } else {
                u.window.grafana
            }
            &&& w.cam_street == if cameras {
                camera_of(
                    at(u.entities, id),
                    u.inflight,
                    e.kiosk_camera_street_option@,
                    ToggleKey::CamStreet,
                )
            } else {
                u.window.cam_street
            }
            &&& w.cam_gallery == if cameras {
                camera_of(
                    at(u.entities, id),
                    u.inflight,
                    e.kiosk_camera_gallery_option@,
                    ToggleKey::CamGallery,
                )
            } else {
                u.window.cam_gallery
            }
            &&& w.kiosk_display == if display {
                toggle_of(u.entities, u.inflight, id, ToggleKey::Display)
            } else {
                u.window.kiosk_display
            }
            &&& w.kiosk_display_mode == if display {
                mode_of(at(u.entities, id))
            } else {
                u.window.kiosk_display_mode
            }
            &&& w.preset_pending == u.window.preset_pending
        }),
{
    reveal(shown);
    reveal(refreshed);
    reveal(control_refreshed);
}

/// No entity changes what the window shows of the clock, of the link, of a toast and of the light.
pub proof fn an_entity_leaves_the_frame_alone(u: UiV, id: Seq<char>)
    ensures
        same_frame(entity_step(u, id).window, u.window),
{
    reveal(shown);
    reveal(refreshed);
    reveal(control_refreshed);
}

proof fn lemma_frame_kept(u: UiV, ids: Seq<Seq<char>>)
    ensures
        same_frame(entities_step(u, ids).window, u.window),
    decreases ids.len(),
{
    if ids.len() > 0 {
        let rest = entities_step(u, ids.drop_last());
        lemma_frame_kept(u, ids.drop_last());
        an_entity_leaves_the_frame_alone(rest, ids.last());
    }
}

proof fn lemma_pending_frame(u: UiV)
    ensures
        same_frame(pending_step(u).window, u.window),
        !u.frozen ==> pending_step(u).window.preset_pending == pending_preset(u.inflight),
{
    lemma_frame_kept(u, control_ids(u.cfg));
    lemma_entities_keep(u, control_ids(u.cfg));
    reveal(pending_step);
}

/// A state that comes in is what is known of its entity from then on, and nothing else that is known
/// changes; an entity that goes is no longer known.
pub proof fn a_state_is_what_is_known(u: UiV, id: Seq<char>, m: MeasuredV, other: Seq<char>)
    ensures
        state_step(u, id, m).entities.dom().contains(id),
        state_step(u, id, m).entities[id] == m,
        !removed_step(u, id).entities.dom().contains(id),
        other != id ==> at(state_step(u, id, m).entities, other) == at(u.entities, other),
        other != id ==> at(removed_step(u, id).entities, other) == at(u.entities, other),
        state_step(u, id, m).light == u.light,
        state_step(u, id, m).cfg == u.cfg,
        removed_step(u, id).inflight == u.inflight,
{
    let left = not_waiting_for(u.inflight, id);
    let v = UiV { entities: u.entities.insert(id, m), inflight: left, ..u };
    lemma_pending_keeps(v);
}

/// The calls that wait for an entity are those that are about it: they, and no others, wait no more
/// once its state comes in.
pub proof fn only_calls_about_it_end(v: Seq<InflightV>, id: Seq<char>, c: InflightV)
    ensures
        not_waiting_for(v, id).contains(c) <==> v.contains(c) && !c.entities.contains(id),
    decreases v.len(),
{
    if v.len() > 0 {
        let rest = v.drop_last();
        only_calls_about_it_end(rest, id, c);
        lemma_contains_last(v, c);
        if !v.last().entities.contains(id) {
            let left = not_waiting_for(rest, id);
            lemma_contains_last(left.push(v.last()), c);
            assert(left.push(v.last()).drop_last() =~= left);
        }
    }
}

// ---------------- what a control asks for ----------------

/// A call goes out once, as it was put together, under a request that no other call has had, and
/// with a timer for that request that runs as long as is configured. It is noted under the same
/// request, with the control that it came from and the entities that it is about.
pub proof fn a_call_goes_out_under_its_request(u: UiV, call: ServiceCallV, key: PendingKey)
    requires
        u.next_request < u64::MAX,
        u.cfg.homeassistant.call_timeout_s <= 600,
    ensures
        ({
            let effects = send_effects(u, call);
            let t = send_step(u, call, key);
            let request = (u.next_request + 1) as u64;
            &&& effects.len() == 2
            &&& effects[0] == (EffectV::CallTimer {
                request,
                span: (u.cfg.homeassistant.call_timeout_s * 1_000_000_000) as u64,
            })
            &&& effects[1] matches EffectV::Call(c) && c.request == request && c.domain
                == call.domain && c.service == call.service && c.service_data == call.service_data
                && c.entity_ids == call.entity_ids
            &&& t.next_request == request
            &&& t.inflight.len() == u.inflight.len() + 1
            &&& t.inflight.drop_last() == u.inflight
            &&& t.inflight.last().request == request
            &&& t.inflight.last().key == key
            &&& t.inflight.last().entities == call.entity_ids
            &&& !t.inflight.last().confirmed
            &&& t.entities == u.entities
        }),
{
    let request = (u.next_request + 1) as u64;
    let v = UiV {
        next_request: request,
        inflight: u.inflight.push(
            InflightV { request, key, entities: call.entity_ids, confirmed: false },
        ),
        ..u
    };
    lemma_pending_keeps(v);
    assert(v.inflight.drop_last() =~= u.inflight);
}

/// A call to the lights: this service, this number under this key, over one second.
pub open spec fn dims(call: ServiceCallV, key: Seq<char>, n: nat, ids: Seq<Seq<char>>) -> bool {
    &&& call.domain == "light"@
    &&& call.service == "turn_on"@
    &&& member(call.service_data, key) == Some(JsonV::Number(decimal(n)))
    &&& member(call.service_data, "transition"@) == Some(JsonV::Number(decimal(1)))
    &&& call.entity_ids == ids
}

proof fn lemma_dimming(key: Seq<char>, n: nat)
    requires
        key != "transition"@,
    ensures
        member(crate::ui::dimming(key, n), key) == Some(JsonV::Number(decimal(n))),
        member(crate::ui::dimming(key, n), "transition"@) == Some(JsonV::Number(decimal(1))),
{
    let m = crate::ui::dimming(key, n)->Object_0;
    assert(m[0].0 == key && m[1].0 == "transition"@);
    the_first_member_counts(m, key);
    the_first_member_counts(m, "transition"@);
    assert(member(JsonV::Object(m), key) == Some(m[0].1));
    assert(member(JsonV::Object(m), "transition"@) == Some(m[1].1));
}

/// The presets: the ceiling at its lowest and the monitor at a third, both at half, both full, both
/// off. No other number is a preset.
pub proof fn a_preset_asks_for_its_lights(cfg: Config, i: i32)
    ensures
        ({
            let c = cfg.entities.light_ceiling@;
            let m = cfg.entities.light_monitor@;
            let calls = preset_calls(cfg, i);
            &&& i == 0 ==> calls.len() == 2 && dims(calls[0], "brightness"@, 1, seq![c]) && dims(
                calls[1],
                "brightness_pct"@,
                33,
                seq![m],
            )
            &&& i == 1 ==> calls.len() == 1 && dims(calls[0], "brightness"@, 127, seq![c, m])
            &&& i == 2 ==> calls.len() == 1 && dims(calls[0], "brightness"@, 255, seq![c, m])
            &&& i == 3 ==> calls.len() == 1 && calls[0].domain == "light"@ && calls[0].service
                == "turn_off"@ && calls[0].entity_ids == seq![c, m] && member(
                calls[0].service_data,
                "transition"@,
            ) == Some(JsonV::Number(decimal(1)))
            &&& !(0 <= i <= 3) ==> calls.len() == 0
        }),
{
    reveal_strlit("brightness");
    reveal_strlit("brightness_pct");
    reveal_strlit("transition");
    assert("brightness"@[0] != "transition"@[0]);
    assert("brightness_pct"@[0] != "transition"@[0]);
    lemma_dimming("brightness"@, 1);
    lemma_dimming("brightness"@, 127);
    lemma_dimming("brightness"@, 255);
    lemma_dimming("brightness_pct"@, 33);
    let off = seq![("transition"@, JsonV::Number(decimal(1)))];
    the_first_member_counts(off, "transition"@);
    assert(off[0].0 == "transition"@);
}

/// A preset that was carried out is the one that is shown: its lights, at what it asked for (a third
/// of 255 is 84), match it and no other.
pub proof fn a_preset_that_was_carried_out_is_shown(i: i32)
    requires
        0 <= i <= 3,
    ensures
        ({
            let one = Reading { bits: 0x3ff0_0000_0000_0000 };
            let third = Reading { bits: 0x4055_0000_0000_0000 };
            let half = Reading { bits: 0x405f_c000_0000_0000 };
            let full = Reading { bits: 0x406f_e000_0000_0000 };
            let (ceiling, monitor) = if i == 0 {
                (one, third)
            } else if i == 1 {
                (half, half)
            } else {
                (full, full)
            };
            matching_preset(Some((i != 3, ceiling)), Some((i != 3, monitor))) == i
        }),
{
}

/// The calls of a preset go out in their order, one after the other, each under the next request and
/// each noted under the preset that was pressed.
pub proof fn a_preset_sends_each_of_its_calls(u: UiV, calls: Seq<ServiceCallV>, key: PendingKey)
    requires
        u.next_request + calls.len() <= u64::MAX,
    ensures
        ({
            let (t, effects) = send_all(u, calls, key);
            &&& t.next_request == u.next_request + calls.len()
            &&& t.cfg == u.cfg
            &&& t.inflight.len() == u.inflight.len() + calls.len()
            &&& t.inflight.take(u.inflight.len() as int) == u.inflight
            &&& forall|k: int|
                0 <= k < calls.len() ==> {
                    let c = #[trigger] t.inflight[u.inflight.len() + k];
                    c.request == u.next_request + 1 + k && c.key == key && c.entities
                        == calls[k].entity_ids && !c.confirmed
                }
            &&& effects.len() == 2 * calls.len()
            &&& forall|k: int|
                0 <= k < calls.len() ==> (#[trigger] effects[2 * k + 1] == EffectV::Call(
                    ServiceCallV { request: (u.next_request + 1 + k) as u64, ..calls[k] },
                ))
        }),
    decreases calls.len(),
{
    let (t, effects) = send_all(u, calls, key);
    let n = u.inflight.len() as int;
    if calls.len() == 0 {
        assert(u.inflight.take(n) =~= u.inflight);
    } else {
        let rest = calls.drop_last();
        a_preset_sends_each_of_its_calls(u, rest, key);
        let (prev, before) = send_all(u, rest, key);
        let request = (prev.next_request + 1) as u64;
        let v = UiV {
            next_request: request,
            inflight: prev.inflight.push(
                InflightV { request, key, entities: calls.last().entity_ids, confirmed: false },
            ),
            ..prev
        };
        lemma_pending_keeps(v);
        assert(t.inflight == v.inflight);
        assert(t.inflight.take(n) =~= prev.inflight.take(n));
        assert forall|k: int| 0 <= k < calls.len() implies ({
            let c = #[trigger] t.inflight[n + k];
            c.request == u.next_request + 1 + k && c.key == key && c.entities
                == calls[k].entity_ids && !c.confirmed
        }) by {
            if k < rest.len() {
                assert(t.inflight[n + k] == prev.inflight[n + k]);
                assert(rest[k] == calls[k]);
            }
        }
        assert forall|k: int| 0 <= k < calls.len() implies (#[trigger] effects[2 * k + 1]
            == EffectV::Call(
            ServiceCallV { request: (u.next_request + 1 + k) as u64, ..calls[k] },
        )) by {
            if k < rest.len() {
                assert(effects[2 * k + 1] == before[2 * k + 1]);
                assert(rest[k] == calls[k]);
            } else {
                assert(effects[2 * k + 1] == send_effects(prev, calls.last())[1]);
            }
        }
    }
}

/// The call picks this option of this select.
pub open spec fn picks(call: ServiceCallV, option: Seq<char>, id: Seq<char>) -> bool {
    &&& call.domain == "select"@
    &&& call.service == "select_option"@
    &&& member(call.service_data, "option"@) == Some(JsonV::Text(option))
    &&& call.entity_ids == seq![id]
}

proof fn lemma_option(option: Seq<char>)
    ensures
        member(crate::ui::option_data(option), "option"@) == Some(JsonV::Text(option)),
{
    let m = seq![("option"@, JsonV::Text(option))];
    the_first_member_counts(m, "option"@);
    assert(m[0].0 == "option"@);
}

/// The monitor's button turns it off by the configured option while it is on, and on by the option
/// `on` while it is not.
pub proof fn the_display_button_turns_it_over(u: UiV)
    ensures
        ({
            let id = u.cfg.entities.kiosk_display_power@;
            let on = u.entities.dom().contains(id) && u.entities[id].entity.state == "on"@;
            let call = toggle_call(u, ToggleKey::Display);
            &&& on ==> picks(call, u.cfg.entities.kiosk_display_off_option@, id)
            &&& !on ==> picks(call, "on"@, id)
        }),
{
    lemma_option(u.cfg.entities.kiosk_display_off_option@);
    lemma_option("on"@);
}

/// A camera button picks its own camera, or the option for none while its camera is already shown.
pub proof fn a_camera_button_picks_its_camera(u: UiV, v: Seq<InflightV>)
    ensures
        ({
            let e = u.cfg.entities;
            let m = at(u.entities, e.kiosk_camera@);
            let street = camera_of(m, v, e.kiosk_camera_street_option@, ToggleKey::CamStreet).on;
            let gallery = camera_of(m, v, e.kiosk_camera_gallery_option@, ToggleKey::CamGallery).on;
            &&& picks(
                toggle_call(u, ToggleKey::CamStreet),
                if street {
                    e.kiosk_camera_off_option@
                } else {
                    e.kiosk_camera_street_option@
                },
                e.kiosk_camera@,
            )
            &&& picks(
                toggle_call(u, ToggleKey::CamGallery),
                if gallery {
                    e.kiosk_camera_off_option@
                } else {
                    e.kiosk_camera_gallery_option@
                },
                e.kiosk_camera@,
            )
        }),
{
    lemma_option(u.cfg.entities.kiosk_camera_off_option@);
    lemma_option(u.cfg.entities.kiosk_camera_street_option@);
    lemma_option(u.cfg.entities.kiosk_camera_gallery_option@);
}

/// The buttons of the lights toggle their own light, and that of the kiosk's page switches it off
/// while it is on and on while it is not.
pub proof fn the_other_buttons_turn_over_their_own(u: UiV)
    ensures
        ({
            let e = u.cfg.entities;
            let on = u.entities.dom().contains(e.kiosk_grafana@)
                && u.entities[e.kiosk_grafana@].entity.state == "on"@;
            let ceiling = toggle_call(u, ToggleKey::Ceiling);
            let monitor = toggle_call(u, ToggleKey::Monitor);
            let grafana = toggle_call(u, ToggleKey::Grafana);
            &&& ceiling.domain == "light"@ && ceiling.service == "toggle"@ && ceiling.entity_ids
                == seq![e.light_ceiling@] && ceiling.service_data is Null
            &&& monitor.domain == "light"@ && monitor.service == "toggle"@ && monitor.entity_ids
                == seq![e.light_monitor@] && monitor.service_data is Null
            &&& grafana.domain == "switch"@ && grafana.entity_ids == seq![e.kiosk_grafana@]
                && grafana.service_data is Null
            &&& on ==> grafana.service == "turn_off"@
            &&& !on ==> grafana.service == "turn_on"@
        }),
{
}

/// Each button has its name, and no other name is one.
pub proof fn each_button_has_its_name(key: Seq<char>)
    ensures
        toggle_named("ceiling"@) == Some(ToggleKey::Ceiling),
        toggle_named("monitor"@) == Some(ToggleKey::Monitor),
        toggle_named("grafana"@) == Some(ToggleKey::Grafana),
        toggle_named("cam_street"@) == Some(ToggleKey::CamStreet),
        toggle_named("cam_gallery"@) == Some(ToggleKey::CamGallery),
        toggle_named("display"@) == Some(ToggleKey::Display),
        key != "ceiling"@ && key != "monitor"@ && key != "grafana"@ && key != "cam_street"@ && key
            != "cam_gallery"@ && key != "display"@ ==> toggle_named(key) is None,
{
    reveal_strlit("ceiling");
    reveal_strlit("monitor");
    reveal_strlit("grafana");
    reveal_strlit("cam_street");
    reveal_strlit("cam_gallery");
    reveal_strlit("display");
    assert("cam_street"@.len() == 10 && "cam_gallery"@.len() == 11 && "ceiling"@.len() == 7
        && "monitor"@.len() == 7 && "grafana"@.len() == 7 && "display"@.len() == 7);
    assert("ceiling"@[0] == 'c' && "monitor"@[0] == 'm' && "grafana"@[0] == 'g' && "display"@[0]
        == 'd');
}

/// A button that is pressed sends its call, noted as its own; a name that is no button's does
/// nothing.
pub proof fn a_button_sends_its_own_call(u: UiV, key: Seq<char>)
    ensures
        toggle_named(key) matches Some(k) ==> toggle_step(u, key).0 == send_step(
            u,
            toggle_call(u, k),
            PendingKey::Toggle(k),
        ) && toggle_step(u, key).1 == send_effects(u, toggle_call(u, k)),
        toggle_named(key) is None ==> toggle_step(u, key).0 == u && toggle_step(u, key).1.len() == 0,
{
}

/// The fan slider asks for the percentage that it was released at, moved into 0..=100, of the fan that
/// is configured. Without one it asks for nothing.
pub proof fn the_fan_slider_asks_for_its_percentage(u: UiV, pct: i32)
    ensures
        ({
            let call = fan_call(u.cfg, pct);
            let n = member(call.service_data, "percentage"@);
            &&& call.domain == "fan"@
            &&& call.service == "set_percentage"@
            &&& call.entity_ids == seq![u.cfg.entities.office_fan@]
            &&& 0 <= pct <= 100 ==> n == Some(JsonV::Number(decimal(pct as nat)))
            &&& pct < 0 ==> n == Some(JsonV::Number(decimal(0)))
            &&& pct > 100 ==> n == Some(JsonV::Number(decimal(100)))
            &&& blank(u.cfg.entities.office_fan@) ==> fan_step(u, pct).0 == u && fan_step(
                u,
                pct,
            ).1.len() == 0
            &&& !blank(u.cfg.entities.office_fan@) ==> fan_step(u, pct).0 == send_step(
                u,
                call,
                PendingKey::Fan,
            ) && fan_step(u, pct).1 == send_effects(u, call)
        }),
{
    let m = fan_call(u.cfg, pct).service_data->Object_0;
    the_first_member_counts(m, "percentage"@);
    assert(m[0].0 == "percentage"@);
}

/// An entity that is up to date shows as it would after a refresh.
proof fn lemma_shows(u: UiV, id: Seq<char>)
    requires
        up_to_date(u, id),
        !u.frozen,
    ensures
        entity_step(u, id).window == u.window,
{
}

/// Each control shows at once whether a call of its own is under way, and nothing old: after a call
/// went out, and after one came to its end. So does the preset that waits.
pub proof fn each_control_shows_its_calls(u: UiV)
    requires
        !u.frozen,
    ensures
        ({
            let e = u.cfg.entities;
            let w = pending_step(u).window;
            let lights = |id: Seq<char>| id == e.light_ceiling@ || id == e.light_monitor@;
            let free = |id: Seq<char>| !is_watched(u.cfg, id) && !lights(id);
            &&& !is_watched(u.cfg, e.light_ceiling@) ==> w.lights == lights_of(
                u.cfg,
                u.entities,
                u.inflight,
            )
            &&& free(e.kiosk_grafana@) ==> w.grafana == toggle_of(
                u.entities,
                u.inflight,
                e.kiosk_grafana@,
                ToggleKey::Grafana,
            )
            &&& free(e.kiosk_camera@) && !blank(e.kiosk_camera@) && e.kiosk_camera@
                != e.kiosk_grafana@ ==> w.cam_street == camera_of(
                at(u.entities, e.kiosk_camera@),
                u.inflight,
                e.kiosk_camera_street_option@,
                ToggleKey::CamStreet,
            ) && w.cam_gallery == camera_of(
                at(u.entities, e.kiosk_camera@),
                u.inflight,
                e.kiosk_camera_gallery_option@,
                ToggleKey::CamGallery,
            )
            &&& free(e.kiosk_display_power@) && e.kiosk_display_power@ != e.kiosk_grafana@
                && e.kiosk_display_power@ != e.kiosk_camera@ ==> w.kiosk_display == toggle_of(
                u.entities,
                u.inflight,
                e.kiosk_display_power@,
                ToggleKey::Display,
            )
            &&& !blank(e.office_fan@) && e.office_fan@ != e.weather@ && e.office_fan@
                != e.house_power@ ==> w.fan == fan_of(at(u.entities, e.office_fan@), u.inflight)
            &&& w.preset_pending == pending_preset(u.inflight)
        }),
{
    let e = u.cfg.entities;
    let t = pending_step(u);
    lemma_pending_keeps(u);
    lemma_pending_frame(u);
    lemma_control_shows(u, e.light_ceiling@);
    lemma_control_shows(u, e.kiosk_grafana@);
    lemma_control_shows(u, e.kiosk_camera@);
    lemma_control_shows(u, e.kiosk_display_power@);
    lemma_control_shows(u, e.office_fan@);
    an_entity_shows_in_its_own_control(t, e.light_ceiling@);
    an_entity_shows_in_its_own_control(t, e.kiosk_grafana@);
    an_entity_shows_in_its_own_control(t, e.kiosk_camera@);
    an_entity_shows_in_its_own_control(t, e.kiosk_display_power@);
    an_entity_shows_in_its_own_pane(t, e.office_fan@);
}

proof fn lemma_control_shows(u: UiV, id: Seq<char>)
    requires
        !u.frozen,
        ({
            let e = u.cfg.entities;
            id == e.light_ceiling@ || id == e.kiosk_grafana@ || id == e.kiosk_camera@ || id
                == e.kiosk_display_power@ || id == e.office_fan@
        }),
    ensures
        entity_step(pending_step(u), id).window == pending_step(u).window,
        !pending_step(u).frozen,
{
    the_controls_follow_the_calls(u, id);
    lemma_shows(pending_step(u), id);
}

// ---------------- how calls end ----------------

proof fn lemma_request_place(v: Seq<InflightV>, request: u64)
    ensures
        0 <= request_place(v, request) <= v.len(),
        request_place(v, request) < v.len() ==> v[request_place(v, request)].request == request,
        forall|j: int|
            0 <= j < request_place(v, request) ==> (#[trigger] v[j]).request != request,
    decreases v.len(),
{
    if v.len() > 0 && v[0].request != request {
        let rest = v.drop_first();
        lemma_request_place(rest, request);
        assert forall|j: int| 0 <= j < request_place(v, request) implies (
        #[trigger] v[j]).request != request by {
            if j > 0 {
                assert(v[j] == rest[j - 1]);
            }
        }
    }
}

/// Of the calls under way only those of the request that has ended are dropped.
pub proof fn only_the_call_that_ended_is_dropped(v: Seq<InflightV>, request: u64, c: InflightV)
    ensures
        without_request(v, request).contains(c) <==> v.contains(c) && c.request != request,
    decreases v.len(),
{
    if v.len() > 0 {
        let rest = v.drop_last();
        only_the_call_that_ended_is_dropped(rest, request, c);
        lemma_contains_last(v, c);
        if v.last().request != request {
            let left = without_request(rest, request);
            lemma_contains_last(left.push(v.last()), c);
            assert(left.push(v.last()).drop_last() =~= left);
        }
    }
}

proof fn lemma_contains_last(v: Seq<InflightV>, c: InflightV)
    requires
        v.len() > 0,
    ensures
        v.contains(c) <==> v.drop_last().contains(c) || v.last() == c,
{
    let rest = v.drop_last();
    if v.contains(c) {
        let i = choose|i: int| 0 <= i < v.len() && v[i] == c;
        if i < rest.len() {
            assert(rest[i] == c);
        }
    }
    if rest.contains(c) {
        let i = choose|i: int| 0 <= i < rest.len() && rest[i] == c;
        assert(v[i] == c);
    }
    assert(v[v.len() - 1] == v.last());
}

/// The call at this place is the only one with its request.
pub open spec fn only_with_request(v: Seq<InflightV>, i: int) -> bool {
    0 <= i < v.len() && forall|j: int|
        0 <= j < v.len() && j != i ==> (#[trigger] v[j]).request != v[i].request
}

/// A call that succeeds is noted as confirmed and waits on for the state, without a toast. One that
/// fails is shown with the reason, or as an unknown error.
pub proof fn a_failed_call_is_shown(u: UiV, i: int, error: Option<Seq<char>>)
    requires
        !u.frozen,
        only_with_request(u.inflight, i),
        u.cfg.display.toast_seconds <= 18_000_000_000,
    ensures
        ({
            let request = u.inflight[i].request;
            let good = result_step(u, request, true, error);
            let bad = result_step(u, request, false, error);
            let toast = seq![
                EffectV::ToastTimer((u.cfg.display.toast_seconds * 1_000_000_000) as u64),
            ];
            &&& good.0.inflight.len() == u.inflight.len()
            &&& good.0.inflight[i] == (InflightV { confirmed: true, ..u.inflight[i] })
            &&& forall|j: int|
                0 <= j < u.inflight.len() && j != i ==> good.0.inflight[j] == u.inflight[j]
            &&& good.1.len() == 0
            &&& good.0.window == u.window
            &&& bad.0.window.toast_visible
            &&& error matches Some(why) ==> bad.0.window.toast_text == "Échec : "@ + why
            &&& error is None ==> bad.0.window.toast_text == "Échec : "@ + "erreur inconnue"@
            &&& bad.1 == toast
        }),
{
    let request = u.inflight[i].request;
    lemma_request_place(u.inflight, request);
    let k = request_place(u.inflight, request);
    assert(k == i) by {
        if k < i {
            assert(u.inflight[k].request != request);
        }
    }
    let v = UiV { inflight: without_request(u.inflight, request), ..u };
    let why = match error {
        Some(e) => e,
        None => "erreur inconnue"@,
    };
    lemma_pending_frame(toast_step(v, "Échec : "@ + why));
}

/// A call whose time is up is shown as unanswered, unless it had been answered; one that cannot be
/// handed on is shown as such.
pub proof fn an_unanswered_call_is_shown(u: UiV, i: int)
    requires
        !u.frozen,
        only_with_request(u.inflight, i),
    ensures
        ({
            let request = u.inflight[i].request;
            let (late, effects) = timeout_step(u, request);
            let (unsent, more) = not_sent_step(u, request);
            &&& u.inflight[i].confirmed ==> same_frame(late.window, u.window) && effects.len() == 0
            &&& !u.inflight[i].confirmed ==> late.window.toast_visible && late.window.toast_text
                == "Pas de réponse de Home Assistant"@ && effects.len() == 1
                && effects[0] is ToastTimer
            &&& unsent.window.toast_visible
            &&& unsent.window.toast_text == "Home Assistant indisponible"@
            &&& more.len() == 1 && more[0] is ToastTimer
        }),
{
    let request = u.inflight[i].request;
    lemma_request_place(u.inflight, request);
    let k = request_place(u.inflight, request);
    assert(k == i) by {
        if k < i {
            assert(u.inflight[k].request != request);
        }
    }
    let v = UiV { inflight: without_request(u.inflight, request), ..u };
    lemma_pending_frame(v);
    lemma_pending_frame(toast_step(v, "Pas de réponse de Home Assistant"@));
    lemma_pending_frame(toast_step(v, "Home Assistant indisponible"@));
}

/// The answer to a call that nobody waits for changes nothing.
pub proof fn an_unknown_answer_changes_nothing(u: UiV, request: u64, success: bool, error: Option<Seq<char>>)
    requires
        forall|j: int| 0 <= j < u.inflight.len() ==> (#[trigger] u.inflight[j]).request != request,
    ensures
        result_step(u, request, success, error).0 == u,
        result_step(u, request, success, error).1.len() == 0,
        timeout_step(u, request).0 == u,
        timeout_step(u, request).1.len() == 0,
{
    lemma_request_place(u.inflight, request);
}

// ---------------- the link ----------------

/// The dashboard shows once Home Assistant is connected and the clock is synchronized, and not
/// before; until then the window says what it waits for.
pub proof fn the_dashboard_waits_for_both(u: UiV)
    requires
        !u.frozen,
    ensures
        ({
            let w = connecting_step(u).window;
            &&& w.connecting <==> !u.ha_connected || !u.time_synced
            &&& w.ha_online <==> u.ha_connected
            &&& u.ha_connected && u.time_synced ==> w.connecting_detail.len() == 0
            &&& u.ha_connected && !u.time_synced ==> w.connecting_detail == "HORLOGE NTP"@
            &&& !u.ha_connected && u.time_synced && !u.ha_token_missing ==> w.connecting_detail
                == "HOME ASSISTANT"@
            &&& !u.ha_connected && u.time_synced && u.ha_token_missing ==> w.connecting_detail
                == "HA_TOKEN MANQUANT DANS /etc/barclock.env"@
            &&& !u.ha_connected && !u.time_synced && !u.ha_token_missing ==> w.connecting_detail
                == "HOME ASSISTANT"@ + " · "@ + "HORLOGE NTP"@
            &&& !u.ha_connected && !u.time_synced && u.ha_token_missing ==> w.connecting_detail
                == "HA_TOKEN MANQUANT DANS /etc/barclock.env"@ + " · "@ + "HORLOGE NTP"@
        }),
{
    reveal(connecting_step);
}

// ---------------- the clock ----------------

/// The time is shown in two parts that make it up, of which the second are its last two characters.
pub proof fn the_time_is_shown_in_two_parts(t: Seq<char>)
    requires
        t.len() >= 2,
    ensures
        time_parts(t).0 + time_parts(t).1 == t,
        time_parts(t).1.len() == 2,
{
    assert(time_parts(t).0 + time_parts(t).1 =~= t);
}

/// Each second shows the time, the date, the day in capitals and the time of each extra zone behind
/// its label. Nothing of that changes while the signal is off, and nothing else ever does.
pub proof fn each_second_shows_the_time(u: UiV, c: ClockV)
    requires
        u.last_clock != Some(c),
    ensures
        ({
            let t = tick_step(u, c);
            &&& u.frozen ==> t == u
            &&& !u.frozen ==> {
                &&& t.last_clock == Some(c)
                &&& c.time.len() >= 2 ==> t.window.time_hm + t.window.time_s == c.time
                    && t.window.time_s.len() == 2
                &&& t.window.date == c.date
                &&& t.window.weekday == upper_text(c.weekday)
                &&& t.window.zones.len() == u.window.zones.len()
                &&& forall|i: int|
                    0 <= i < t.window.zones.len() ==> (#[trigger] t.window.zones[i]).0
                        == u.window.zones[i].0
                &&& forall|i: int|
                    0 <= i < t.window.zones.len() && i < c.zones.len() ==> (
                    #[trigger] t.window.zones[i]).1 == c.zones[i].1
                &&& t.window.weather == u.window.weather
                &&& t.window.toast_text == u.window.toast_text
                &&& t.entities == u.entities
                &&& t.light == u.light
            }
        }),
{
    reveal(tick_step);
    reveal(clock_step);
    if c.time.len() >= 2 {
        the_time_is_shown_in_two_parts(c.time);
    }
}

/// The extra zones stand under their labels in capitals, in the order of the configuration.
pub proof fn the_zones_stand_under_their_labels(zones: Seq<Zone>, i: int)
    requires
        0 <= i < zones.len(),
    ensures
        first_rows(zones).len() == zones.len(),
        first_rows(zones)[i].0 == upper_text(zones[i].label@),
        first_rows(zones)[i].1 == "--:--"@,
{
}

// ---------------- the light on the screen ----------------

/// While it is awake the screen is as bright as the light or as is configured for a touch, whichever
/// is brighter.
pub proof fn a_woken_screen_is_no_darker_than_the_light(u: UiV)
    requires
        u.awake,
    ensures
        brightness_now(u) == u.cfg.display.wake_brightness || (u.light.on && brightness_now(u)
            == u.light.brightness),
        u.light.on ==> brightness_now(u) >= u.light.brightness,
        brightness_now(u) >= u.cfg.display.wake_brightness,
        !guarded(u),
{
}

/// A touch wakes the screen instead of operating a control where the screen is darker than what is
/// readable, and only there.
pub proof fn touches_are_guarded_in_the_dark(u: UiV)
    requires
        !u.awake,
    ensures
        !u.light.on && u.cfg.display.readable_threshold > 0 ==> guarded(u),
        u.light.on ==> (guarded(u) <==> u.light.brightness < u.cfg.display.readable_threshold),
{
}

/// A lit screen is as bright as it should be: by the backlight where there is one, which is told the
/// brightness last, and by the overlay where there is none.
pub proof fn a_lit_screen_is_as_bright_as_it_should_be(u: UiV)
    requires
        brightness_now(u) != 0,
    ensures
        ({
            let (t, effects) = screen_step(u);
            &&& u.has_backlight ==> t.window.overlay == Overlay::Clear && effects.last()
                == EffectV::Backlight(brightness_now(u))
            &&& !u.has_backlight ==> t.window.overlay == Overlay::Level(brightness_now(u))
            &&& t.window.wake_guard == guarded(u)
            &&& effects.len() > 0 && effects[0] == EffectV::StopPanelTimer
            &&& u.frozen && u.has_dpms ==> effects.contains(EffectV::Panel(true))
            &&& u.frozen ==> effects.contains(EffectV::Tick)
        }),
{
    reveal(screen_step);
    reveal(thaw_step);
    let effects = screen_step(u).1;
    if u.frozen {
        if u.has_dpms {
            assert(effects[1] == EffectV::Panel(true));
            assert(effects[2] == EffectV::Tick);
        } else {
            assert(effects[1] == EffectV::Tick);
        }
    }
}

/// A screen that goes dark turns black first, with its backlight off, and only then, after the delay
/// that is configured, is its signal on the way to being cut, where it can be.
pub proof fn a_screen_goes_dark_in_steps(u: UiV)
    requires
        brightness_now(u) == 0,
        !u.frozen,
        u.cfg.display.dpms_delay_ms <= 18_000_000_000_000,
    ensures
        ({
            let (t, effects) = screen_step(u);
            let cut = EffectV::FreezeTimer((u.cfg.display.dpms_delay_ms * 1_000_000) as u64);
            &&& t.window.overlay == Overlay::Full
            &&& t.window.wake_guard
            &&& !t.frozen
            &&& effects[0] == EffectV::StopPanelTimer
            &&& effects.contains(EffectV::Backlight(0)) <==> u.has_backlight
            &&& u.has_dpms ==> effects.last() == cut
            &&& !u.has_dpms ==> !effects.contains(cut)
        }),
{
    reveal(screen_step);
    let effects = screen_step(u).1;
    if u.has_backlight {
        assert(effects[1] == EffectV::Backlight(0));
    }
}

/// A touch keeps the screen awake for as long as is configured, from the touch on.
pub proof fn a_touch_starts_the_wake_window(u: UiV)
    requires
        u.cfg.display.wake_seconds <= 18_000_000_000,
    ensures
        wake_step(u).1.len() > 0,
        wake_step(u).1[0] == EffectV::WakeTimer(
            (u.cfg.display.wake_seconds * 1_000_000_000) as u64,
        ),
        wake_step(u).0.awake,
        wake_step(u).0.light == u.light,
{
    showing_the_light_leaves_it_alone(UiV { awake: true, ..u });
}

/// The controller starts with the light that it was given and with nothing known: not connected, not
/// synchronized, no entity, no call, awake for no touch, and its signal on.
pub proof fn the_controller_starts_from_nothing(
    cfg: Config,
    car: Reading,
    dpms: bool,
    backlight: bool,
    light: LightState,
    token_missing: bool,
    touch_test: bool,
)
    ensures
        ({
            let u = new_ui(cfg, car, dpms, backlight, light, token_missing, touch_test);
            &&& u.cfg == cfg && u.car_threshold_w == car && u.has_dpms == dpms && u.has_backlight
                == backlight && u.light == light && u.ha_token_missing == token_missing
            &&& !u.ha_connected && !u.time_synced && !u.awake && !u.frozen && !u.dirty
            &&& !u.house_live && !u.servers_live
            &&& u.entities == Map::<Seq<char>, MeasuredV>::empty()
            &&& u.inflight.len() == 0
            &&& u.last_clock is None
            &&& u.window.touch_test == touch_test
            &&& u.window.indoor_label == upper_text(cfg.general.indoor_label@)
            &&& u.window.zones == first_rows(cfg.clock.zones@)
            &&& !u.window.toast_visible && u.window.preset_active == -1 && u.window.preset_pending
                == -1
        }),
{
}

// ---------------- coming and going ----------------

/// At the start the time is asked for before all else, the light is told of and not remembered again,
/// and the window says what it waits for.
pub proof fn the_start_asks_for_the_time(u: UiV)
    ensures
        ({
            let (t, effects) = start_step(u);
            &&& effects.len() >= 2
            &&& effects[0] == EffectV::Tick
            &&& effects[1] == EffectV::PublishLight(u.light)
            &&& t.light == u.light
            &&& t.entities == u.entities
        }),
{
    let c = connecting_step(u);
    assert(c.light == u.light && c.entities == u.entities) by {
        reveal(connecting_step);
    }
    showing_the_light_leaves_it_alone(c);
}

/// At the end the panel is on, where it could have been turned off. The signal is cut by the same
/// means, and only there.
pub proof fn the_panel_is_left_on(u: UiV)
    ensures
        u.has_dpms ==> shutdown_effects(u) == seq![EffectV::Panel(true)] && cut_effects(u) == seq![
            EffectV::Panel(false),
        ],
        !u.has_dpms ==> shutdown_effects(u).len() == 0 && cut_effects(u).len() == 0,
{
}

/// A link that comes is shown at once. One that goes is shown only after the time that is configured:
/// until then the dashboard stays.
pub proof fn a_link_that_goes_is_given_time(u: UiV)
    requires
        !u.frozen,
        u.cfg.homeassistant.connecting_after_s <= 600,
    ensures
        connected_step(u).ha_connected,
        connected_step(u).window.ha_online,
        connected_step(u).window.connecting <==> !u.time_synced,
        grace_timer(u) == EffectV::DisconnectTimer(
            (u.cfg.homeassistant.connecting_after_s * 1_000_000_000) as u64,
        ),
        !dropped_step(u).ha_connected,
        !dropped_step(u).window.ha_online,
        dropped_step(u).window.connecting,
        dropped_step(u).entities == u.entities,
        synced_step(u).time_synced,
        synced_step(u).window.connecting <==> !u.ha_connected,
{
    reveal(connecting_step);
}

/// A second after the window is frozen the signal can be cut; what the window shows stays.
pub proof fn a_frozen_window_is_cut_after_a_second(u: UiV)
    ensures
        freeze_step(u).0.frozen,
        freeze_step(u).0.window == u.window,
        freeze_step(u).0.light == u.light,
        freeze_step(u).0.entities == u.entities,
        freeze_step(u).1 == seq![EffectV::CutTimer(1_000_000_000)],
{
}

/// After the wake window the screen is as bright as the light again, and dark where that is off.
pub proof fn after_the_wake_window_the_light_counts(u: UiV)
    ensures
        !doze_step(u).0.awake,
        doze_step(u).0.light == u.light,
        !u.light.on && !u.frozen ==> doze_step(u).0.window.overlay == Overlay::Full,
        u.light.on && u.light.brightness > 0 && !u.has_backlight ==> doze_step(u).0.window.overlay
            == Overlay::Level(u.light.brightness),
{
    let v = UiV { awake: false, ..u };
    showing_the_light_leaves_it_alone(v);
    reveal(screen_step);
}

/// A touch on a control starts the wake window over while it is open, and does not open it.
pub proof fn a_control_keeps_the_screen_awake(u: UiV)
    requires
        u.cfg.display.wake_seconds <= 18_000_000_000,
    ensures
        u.awake ==> activity_effects(u) == seq![
            EffectV::WakeTimer((u.cfg.display.wake_seconds * 1_000_000_000) as u64),
        ],
        !u.awake ==> activity_effects(u).len() == 0,
{
}

/// A toast goes after its time, and nothing else does.
pub proof fn a_toast_goes_after_its_time(u: UiV)
    ensures
        !u.frozen ==> !toast_over(u).window.toast_visible && toast_over(u).window == (WindowV {
            toast_visible: false,
            ..u.window
        }),
        u.frozen ==> toast_over(u).window == u.window,
        toast_over(u).inflight == u.inflight,
{
}

/// A window that nothing is known for shows nothing: no text, no light, no button that is there.
pub proof fn an_empty_window_shows_nothing()
    ensures
        ({
            let w = empty_window();
            &&& w.time_hm.len() == 0 && w.date.len() == 0 && w.weekday.len() == 0 && w.zones.len() == 0
            &&& w.house_power.len() == 0 && w.servers_power.len() == 0 && w.indoor.len() == 0
            &&& w.weather.line.len() == 0 && w.weather.icon.len() == 0
            &&& w.printer.status.len() == 0 && !w.printer.active
            &&& !w.loads.stove.configured && !w.loads.car.configured && !w.loads.water_heater.configured
                && !w.loads.washer.configured && !w.loads.dryer.configured
            &&& !w.lights.ceiling.available && !w.lights.monitor.available && !w.grafana.available
                && !w.cam_street.available && !w.cam_gallery.available && !w.kiosk_display.available
            &&& !w.fan.available && !w.connecting && !w.ha_online && !w.toast_visible && !w.wake_guard
                && !w.touch_test
            &&& w.preset_active == -1 && w.preset_pending == -1
            &&& w.overlay == Overlay::Clear
        }),
{
}

} // verus!
