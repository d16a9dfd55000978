//! What holds of the light: what a command makes of it, and how it stands on the broker.
use vstd::prelude::*;
use crate::base_laws::{
    case_is_all_that_is_put_aside, stripping_takes_only_the_run, the_first_member_counts,
};
use crate::config::Mqtt;
use crate::json::{member, natural_of, parsed_bytes, rendered, JsonV};
use crate::laws::pauses_double_up_to_a_minute;
use crate::mqtt_light::{
    changed_actions, command_error_text, command_of, command_read, command_step, connack_step,
    consequence, discovery_json, error_step, failed_once_more, hint_text, lossy_text, new_link,
    no_outage, pkid_place, preview_of, publish_step, refuses, restore_from, restored, retried,
    retry_span, runs_with, state_json, state_publish, status_actions, suback_actions,
    subscribe_sent, tells_light, topics_of, window_closed, ActionV, CommandErrorV, CommandV,
    ConnectFailure, LinkV, Outage, SubscribeCode, MAX_KEEPALIVE_S, MIN_KEEPALIVE_S, OUTAGE_REMINDER,
    RETRY_DELAY, RETRY_DELAY_MAX,
};
use crate::text::{decimal, same_folded, trimmed};
use crate::types::{LightCommandV, LightState};
use crate::ui::{
    commanded, connecting_step, entities_step, lemma_entities_keep, lemma_pending_keeps, light_step,
    screen_step, thaw_step, EffectV, UiV,
};

verus! {

// ---------------- what a command makes of the light ----------------

/// A command turns the light on or off as it says. A brightness that it carries is taken as it is,
/// zero as one; without one the light keeps the brightness that it had, on or off. How long the
/// change may take makes no difference to what the light becomes.
pub proof fn a_command_changes_what_it_names(
    light: LightState,
    on: bool,
    brightness: Option<u8>,
    transition: Option<Seq<char>>,
)
    ensures
        ({
            let l = commanded(light, LightCommandV::Apply { on, brightness, transition });
            &&& l.on == on
            &&& brightness is None ==> l.brightness == light.brightness
            &&& brightness matches Some(b) ==> (b >= 1 ==> l.brightness == b) && (b == 0
                ==> l.brightness == 1)
        }),
{
}

/// A light that is turned off and on again without a brightness is as bright as it was.
pub proof fn off_and_on_again_is_as_bright(light: LightState)
    ensures
        ({
            let off = LightCommandV::Apply { on: false, brightness: None, transition: None };
            let on = LightCommandV::Apply { on: true, brightness: None, transition: None };
            commanded(commanded(light, off), on) == (LightState {
                on: true,
                brightness: light.brightness,
            })
        }),
{
}

/// A restored light is the one that was kept.
pub proof fn a_restored_light_is_the_one_kept(light: LightState, kept: LightState)
    ensures
        commanded(light, LightCommandV::Restore(kept)) == kept,
{
}

proof fn lemma_thaw_keeps(u: UiV)
    ensures
        ({
            let t = thaw_step(u).0;
            t.light == u.light && t.cfg == u.cfg && t.awake == u.awake && t.entities == u.entities
                && t.inflight == u.inflight
        }),
{
    reveal(thaw_step);
    let v = UiV { frozen: false, dirty: false, ..u };
    let c = connecting_step(v);
    assert(c.light == u.light && c.cfg == u.cfg && c.awake == u.awake && c.entities == u.entities
        && c.inflight == u.inflight) by {
        reveal(connecting_step);
    }
    let ids = crate::ha_ws::named(v.cfg.all_ids());
    lemma_entities_keep(c, ids);
    lemma_pending_keeps(entities_step(c, ids));
}

proof fn lemma_thaw_is_quiet(u: UiV)
    ensures
        forall|i: int|
            0 <= i < thaw_step(u).1.len() ==> !(#[trigger] thaw_step(u).1[i] is SaveLight)
                && !(thaw_step(u).1[i] is PublishLight),
{
    reveal(thaw_step);
}

/// Showing the light on the screen changes neither the light nor what is known, and tells nobody of
/// it.
pub proof fn showing_the_light_leaves_it_alone(u: UiV)
    ensures
        screen_step(u).0.light == u.light,
        screen_step(u).0.cfg == u.cfg,
        screen_step(u).0.awake == u.awake,
        screen_step(u).0.entities == u.entities,
        screen_step(u).0.inflight == u.inflight,
        forall|i: int|
            0 <= i < screen_step(u).1.len() ==> !(#[trigger] screen_step(u).1[i] is SaveLight)
                && !(screen_step(u).1[i] is PublishLight),
{
    lemma_thaw_keeps(u);
    lemma_thaw_is_quiet(u);
    reveal(screen_step);
}

/// The light that a command makes is the one that is remembered, the one that Home Assistant is told
/// of, and the one that the screen runs with: each once, remembered first.
pub proof fn a_command_is_remembered_and_told(u: UiV, c: LightCommandV)
    ensures
        ({
            let l = commanded(u.light, c);
            let (t, effects) = light_step(UiV { light: l, ..u }, true);
            &&& t.light == l
            &&& effects.len() >= 2
            &&& effects[0] == EffectV::SaveLight(l)
            &&& effects[1] == EffectV::PublishLight(l)
            &&& forall|i: int|
                2 <= i < effects.len() ==> !(#[trigger] effects[i] is SaveLight)
                    && !(effects[i] is PublishLight)
        }),
{
    let v = UiV { light: commanded(u.light, c), ..u };
    showing_the_light_leaves_it_alone(v);
    let rest = screen_step(v).1;
    let effects = light_step(v, true).1;
    assert forall|i: int| 2 <= i < effects.len() implies !(#[trigger] effects[i] is SaveLight)
        && !(effects[i] is PublishLight) by {
        assert(effects[i] == rest[i - 2]);
    }
}

// ---------------- reading a command ----------------

/// The text says on, or off, in any case.
pub open spec fn says(m: Seq<(Seq<char>, JsonV)>, word: Seq<char>) -> bool {
    member(JsonV::Object(m), "state"@) matches Some(JsonV::Text(t)) && same_folded(t, word)
}

/// A member that is missing, or null, says nothing.
pub open spec fn silent(m: Seq<(Seq<char>, JsonV)>, key: Seq<char>) -> bool {
    member(JsonV::Object(m), key) is None || member(JsonV::Object(m), key) == Some(JsonV::Null)
}

/// A document is a command where it is an object that says on or off, where a brightness is a
/// natural number, and where a transition is a number; and only there.
pub proof fn a_command_is_an_object_that_says_on_or_off(v: JsonV)
    ensures
        !(v is Object) ==> command_of(v) == Err::<CommandV, CommandErrorV>(CommandErrorV::NotObject),
        v matches JsonV::Object(m) ==> {
            let brightness = member(v, "brightness"@);
            let transition = member(v, "transition"@);
            let said = says(m, "ON"@) || says(m, "OFF"@);
            let bright = silent(m, "brightness"@) || natural_of(brightness->0) is Some;
            let timed = silent(m, "transition"@) || transition->0 is Number;
            &&& !said ==> command_of(v) == Err::<CommandV, CommandErrorV>(CommandErrorV::BadState)
            &&& said && !bright ==> command_of(v) == Err::<CommandV, CommandErrorV>(
                CommandErrorV::BadBrightness,
            )
            &&& said && bright && !timed ==> command_of(v) == Err::<CommandV, CommandErrorV>(
                CommandErrorV::BadTransition,
            )
            &&& said && bright && timed ==> command_of(v) is Ok
        },
{
}

/// What a command says is what its document says: on or off, the brightness within 1..=255, the
/// seconds of a transition, of which a negative number is none.
pub proof fn a_command_says_what_its_document_says(v: JsonV, c: CommandV)
    requires
        command_of(v) == Ok::<CommandV, CommandErrorV>(c),
    ensures
        v matches JsonV::Object(m) && {
            let brightness = member(v, "brightness"@);
            let transition = member(v, "transition"@);
            &&& says(m, "ON"@) ==> c.on
            &&& says(m, "OFF"@) ==> !c.on
            &&& silent(m, "brightness"@) <==> c.brightness is None
            &&& !silent(m, "brightness"@) ==> (natural_of(brightness->0) matches Some(n) && (
            c.brightness matches Some(b) && (1 <= n <= 255 ==> b == n) && (n == 0 ==> b == 1) && (n
                > 255 ==> b == 255)))
            &&& silent(m, "transition"@) <==> c.transition is None
            &&& !silent(m, "transition"@) ==> (transition->0 matches JsonV::Number(t) && (
            t.len() > 0 && t[0] == '-' ==> c.transition == Some(seq!['0'])) && (!(t.len() > 0 && t[0]
                == '-') ==> c.transition == Some(t)))
        },
{
    reveal_strlit("ON");
    reveal_strlit("OFF");
    reveal_strlit("0");
    assert("0"@ =~= seq!['0']);
    assert("ON"@.len() == 2 && "OFF"@.len() == 3);
    case_is_all_that_is_put_aside("ON"@, "OFF"@);
    if let JsonV::Object(m) = v {
        if let Some(JsonV::Text(t)) = member(v, "state"@) {
            case_is_all_that_is_put_aside(t, "ON"@);
            case_is_all_that_is_put_aside(t, "OFF"@);
        }
    }
}

/// A retained state is restored as it says; a brightness that it leaves out is the one that the light
/// has.
pub proof fn a_retained_state_is_restored_as_it_says(c: CommandV, current: LightState)
    ensures
        restored(c, current).on == c.on,
        c.brightness matches Some(b) ==> (b >= 1 ==> restored(c, current).brightness == b),
        c.brightness is None && current.brightness >= 1 ==> restored(c, current).brightness
            == current.brightness,
{
}

// ---------------- topics ----------------

/// Slashes at the end of the prefixes make no difference to the topics.
pub proof fn trailing_slashes_do_not_count(a: Mqtt, b: Mqtt)
    requires
        a.unique_id@ == b.unique_id@,
        a.base_topic@ == b.base_topic@.push('/'),
        a.discovery_prefix@ == b.discovery_prefix@.push('/'),
    ensures
        topics_of(a) == topics_of(b),
{
    stripping_takes_only_the_run(b.base_topic@, '/');
    stripping_takes_only_the_run(b.discovery_prefix@, '/');
}

/// The topics stand under their prefixes: what the light says and hears under its own, its
/// announcement under that of the discovery, for a light with its own id.
pub proof fn topics_stand_under_their_prefixes(cfg: Mqtt)
    requires
        cfg.base_topic@.len() > 0,
        cfg.base_topic@.last() != '/',
        cfg.discovery_prefix@.len() > 0,
        cfg.discovery_prefix@.last() != '/',
    ensures
        topics_of(cfg).state == cfg.base_topic@ + "/state"@,
        topics_of(cfg).command == cfg.base_topic@ + "/set"@,
        topics_of(cfg).availability == cfg.base_topic@ + "/availability"@,
        topics_of(cfg).config == cfg.discovery_prefix@ + "/light/"@ + cfg.unique_id@ + "/config"@,
{
}

/// What is announced is what is done: Home Assistant is told to send commands to the topic that every
/// session subscribes to, to read the state where it is published, and to read the availability
/// where it is said; and the id is the light's own.
pub proof fn the_announcement_holds(cfg: Mqtt, l: LinkV, current: LightState, now: u64)
    requires
        l.topics == topics_of(cfg),
    ensures
        ({
            let d = discovery_json(cfg, l.topics);
            let start = connack_step(l, current, now).1;
            &&& member(d, "command_topic"@) == Some(JsonV::Text(l.topics.command))
            &&& member(d, "state_topic"@) == Some(JsonV::Text(l.topics.state))
            &&& member(d, "availability_topic"@) == Some(JsonV::Text(l.topics.availability))
            &&& member(d, "unique_id"@) == Some(JsonV::Text(cfg.unique_id@))
            &&& member(d, "brightness"@) == Some(JsonV::Bool(true))
            &&& member(d, "schema"@) == Some(JsonV::Text("json"@))
            &&& start.contains(ActionV::Subscribe { topic: l.topics.command })
            &&& start.contains(ActionV::Subscribe { topic: l.topics.state })
            &&& start.contains(ActionV::Subscribe { topic: "homeassistant/status"@ })
            &&& start.contains(
                ActionV::Publish { topic: l.topics.availability, payload: "online"@ },
            )
            &&& start.contains(ActionV::Publish { topic: l.topics.config, payload: l.discovery })
            &&& state_publish(l.topics, current) == (ActionV::Publish {
                topic: l.topics.state,
                payload: rendered(state_json(current)),
            })
        }),
{
    reveal_strlit("name");
    reveal_strlit("unique_id");
    reveal_strlit("schema");
    reveal_strlit("state_topic");
    reveal_strlit("command_topic");
    reveal_strlit("availability_topic");
    reveal_strlit("brightness");
    assert("name"@.len() == 4 && "unique_id"@.len() == 9 && "schema"@.len() == 6
        && "state_topic"@.len() == 11 && "command_topic"@.len() == 13 && "availability_topic"@.len()
        == 18 && "brightness"@.len() == 10);
    let d = discovery_json(cfg, l.topics);
    let m = d->Object_0;
    assert(m[0].0 == "name"@ && m[1].0 == "unique_id"@ && m[2].0 == "schema"@ && m[3].0
        == "state_topic"@ && m[4].0 == "command_topic"@ && m[5].0 == "availability_topic"@ && m[6].0
        == "brightness"@);
    the_first_member_counts(m, "unique_id"@);
    the_first_member_counts(m, "schema"@);
    the_first_member_counts(m, "state_topic"@);
    the_first_member_counts(m, "command_topic"@);
    the_first_member_counts(m, "availability_topic"@);
    the_first_member_counts(m, "brightness"@);
    assert(member(d, "unique_id"@) == Some(m[1].1));
    assert(member(d, "schema"@) == Some(m[2].1));
    assert(member(d, "state_topic"@) == Some(m[3].1));
    assert(member(d, "command_topic"@) == Some(m[4].1));
    assert(member(d, "availability_topic"@) == Some(m[5].1));
    assert(member(d, "brightness"@) == Some(m[6].1));
    let start = connack_step(l, current, now).1;
    assert(start[0] == (ActionV::Publish { topic: l.topics.config, payload: l.discovery }));
    assert(start[1] == (ActionV::Publish { topic: l.topics.availability, payload: "online"@ }));
    assert(start[2] == (ActionV::Subscribe { topic: l.topics.command }));
    assert(start[3] == (ActionV::Subscribe { topic: l.topics.state }));
    assert(start[4] == (ActionV::Subscribe { topic: "homeassistant/status"@ }));
}

/// A new link announces the light of its own configuration.
pub proof fn a_new_link_announces_its_own_light(cfg: Mqtt, user: Option<Seq<char>>)
    ensures
        new_link(cfg, user).topics == topics_of(cfg),
        new_link(cfg, user).discovery == rendered(discovery_json(cfg, topics_of(cfg))),
        new_link(cfg, user).host == cfg.host@,
        new_link(cfg, user).port == cfg.port,
        user matches Some(u) ==> new_link(cfg, user).user == u,
        !new_link(cfg, user).connected,
        !new_link(cfg, user).restore_done,
        new_link(cfg, user).retry_at is None,
{
}

// ---------------- deliveries ----------------

/// Some action is a command for the screen.
pub open spec fn commands_the_screen(actions: Seq<ActionV>) -> bool {
    exists|i: int| 0 <= i < actions.len() && #[trigger] actions[i] is Command
}

/// Some action restores a light.
pub open spec fn restores_a_light(actions: Seq<ActionV>) -> bool {
    exists|i: int| 0 <= i < actions.len() && #[trigger] actions[i] is Restore
}

/// A command that is delivered on the command topic, live and not retained, reaches the screen as it
/// was read. Nothing else ever does: no retained delivery, and none on another topic.
pub proof fn commands_reach_the_screen_as_they_are(
    l: LinkV,
    topic: Seq<char>,
    retain: bool,
    payload: Seq<u8>,
    current: LightState,
)
    ensures
        ({
            let (t, actions) = publish_step(l, topic, retain, payload, current);
            let read = command_read(parsed_bytes(payload));
            &&& topic == l.topics.command && !retain ==> (read matches Ok(c) ==> t == l && actions
                == seq![
                ActionV::Command(
                    LightCommandV::Apply {
                        on: c.on,
                        brightness: c.brightness,
                        transition: c.transition,
                    },
                ),
            ])
            &&& commands_the_screen(actions) ==> topic == l.topics.command && !retain && read is Ok
        }),
{
    let actions = publish_step(l, topic, retain, payload, current).1;
    if commands_the_screen(actions) {
        let i = choose|i: int| 0 <= i < actions.len() && #[trigger] actions[i] is Command;
        assert(actions[i] is Command);
    }
}

/// A command that cannot be obeyed is warned about: a retained one once in a session, and one that
/// cannot be read each time.
pub proof fn a_command_that_cannot_be_obeyed_is_warned_about(
    l: LinkV,
    retain: bool,
    payload: Seq<u8>,
    current: LightState,
)
    ensures
        ({
            let (t, actions) = publish_step(l, l.topics.command, retain, payload, current);
            &&& retain && !l.retained_command_warned ==> actions.len() == 1 && actions[0] is Warn
                && t.retained_command_warned
            &&& retain && l.retained_command_warned ==> actions.len() == 0 && t == l
            &&& !retain && command_read(parsed_bytes(payload)) is Err ==> actions.len() == 1
                && actions[0] is Warn && t == l
        }),
{
}

/// Deliveries are told apart by their topics: the status of Home Assistant is taken for what it says,
/// and a topic that is none of the three leads to nothing.
pub proof fn deliveries_are_told_apart_by_their_topics(
    l: LinkV,
    topic: Seq<char>,
    retain: bool,
    payload: Seq<u8>,
    current: LightState,
)
    requires
        topic != l.topics.command,
        topic != l.topics.state,
    ensures
        publish_step(l, topic, retain, payload, current).0 == l,
        topic == "homeassistant/status"@ ==> publish_step(l, topic, retain, payload, current).1
            == status_actions(l, lossy_text(payload), current),
        topic != "homeassistant/status"@ ==> publish_step(
            l,
            topic,
            retain,
            payload,
            current,
        ).1.len() == 0,
{
}

/// The retained state is restored while it is awaited, once: it ends the wait. Nothing else
/// restores a light, and nothing but the state topic ends the wait.
pub proof fn the_retained_state_is_restored_while_awaited(
    l: LinkV,
    topic: Seq<char>,
    retain: bool,
    payload: Seq<u8>,
    current: LightState,
)
    requires
        l.topics.state != l.topics.command,
    ensures
        ({
            let (t, actions) = publish_step(l, topic, retain, payload, current);
            let read = command_read(parsed_bytes(payload));
            let awaited = topic == l.topics.state && retain && l.restore_deadline is Some;
            &&& awaited ==> t.restore_deadline is None && t.restore_done
            &&& !awaited ==> t.restore_deadline == l.restore_deadline && t.restore_done
                == l.restore_done
            &&& awaited ==> (read matches Ok(c) ==> actions == seq![
                ActionV::Restore { restored: restored(c, current), current },
            ])
            &&& awaited && read is Err ==> actions.len() > 0 && actions.last() == state_publish(
                l.topics,
                current,
            )
            &&& restores_a_light(actions) ==> awaited && read is Ok
        }),
{
    let actions = publish_step(l, topic, retain, payload, current).1;
    if restores_a_light(actions) {
        let i = choose|i: int| 0 <= i < actions.len() && #[trigger] actions[i] is Restore;
        assert(actions[i] is Restore);
    }
}

/// When Home Assistant comes online the light is announced again, and told of unless its retained
/// state is awaited. Any other status leads to nothing.
pub proof fn a_restart_of_home_assistant_is_answered(l: LinkV, status: Seq<char>, current: LightState)
    ensures
        trimmed(status) != "online"@ ==> status_actions(l, status, current).len() == 0,
        trimmed(status) == "online"@ ==> {
            let actions = status_actions(l, status, current);
            &&& actions.contains(ActionV::Publish { topic: l.topics.config, payload: l.discovery })
            &&& actions.contains(
                ActionV::Publish { topic: l.topics.availability, payload: "online"@ },
            )
            &&& l.restore_deadline is None ==> actions.len() == 3 && actions[2] == state_publish(
                l.topics,
                current,
            )
            &&& l.restore_deadline is Some ==> actions.len() == 2
        },
{
    if trimmed(status) == "online"@ {
        let actions = status_actions(l, status, current);
        assert(actions[0] == (ActionV::Publish {
            topic: l.topics.config,
            payload: l.discovery,
        }));
        assert(actions[1] == (ActionV::Publish {
            topic: l.topics.availability,
            payload: "online"@,
        }));
    }
}

/// A change of the light is told where the broker is connected and no retained state is awaited.
pub proof fn a_change_is_told_once_connected(l: LinkV, current: LightState)
    ensures
        l.connected && l.restore_deadline is None ==> changed_actions(l, current) == seq![
            ActionV::Publish {
                topic: l.topics.state,
                payload: rendered(state_json(current)),
            },
        ],
        !l.connected || l.restore_deadline is Some ==> changed_actions(l, current).len() == 0,
{
}

// ---------------- sessions and outages ----------------

/// A session that starts has no outage behind it: its next failure waits two seconds again. The
/// first waits a second and a half for the retained state, later ones do not.
pub proof fn a_session_starts_afresh(
    l: LinkV,
    current: LightState,
    error: Seq<char>,
    f: ConnectFailure,
    now: u64,
    then: u64,
)
    requires
        now + 1_500_000_000 <= u64::MAX,
        then + 2_000_000_000 <= u64::MAX,
    ensures
        ({
            let t = connack_step(l, current, now).0;
            let down = error_step(t, error, f, then).0;
            &&& t.connected
            &&& t.sub_pkids.len() == 0
            &&& !t.retained_command_warned
            &&& !l.restore_done ==> t.restore_deadline == Some((now + 1_500_000_000) as u64)
            &&& l.restore_done ==> t.restore_deadline == l.restore_deadline
            &&& t.restore_done == l.restore_done
            &&& down.outage.failures == 1
            &&& down.outage.since == Some(then)
            &&& down.retry_at == Some((then + 2_000_000_000) as u64)
            &&& !down.connected
        }),
{
}

/// An outage lasts from its first failure, and each failure counts.
pub proof fn an_outage_lasts_from_its_first_failure(o: Outage, now: u64)
    requires
        o.failures < u32::MAX,
    ensures
        failed_once_more(o, now).failures == o.failures + 1,
        o.since is Some ==> failed_once_more(o, now).since == o.since,
        o.since is None ==> failed_once_more(o, now).since == Some(now),
{
}

/// Each attempt after a failure waits for the pause that the number of failures asks for, and what
/// is known of the light's topics and of its announcement stays.
pub proof fn a_failure_waits_its_pause(l: LinkV, error: Seq<char>, f: ConnectFailure, now: u64)
    requires
        l.outage.failures < u32::MAX,
        now + 60_000_000_000 <= u64::MAX,
    ensures
        ({
            let t = error_step(l, error, f, now).0;
            &&& t.retry_at == Some((now + retry_span((l.outage.failures + 1) as nat)) as u64)
            &&& t.topics == l.topics
            &&& t.discovery == l.discovery
            &&& t.restore_done == l.restore_done
            &&& t.restore_deadline is None
        }),
{
    pauses_double_up_to_a_minute((l.outage.failures + 1) as nat);
}

proof fn lemma_pkid_place(pkids: Seq<u16>, i: int)
    requires
        0 <= i < pkids.len(),
        forall|j: int| 0 <= j < i ==> #[trigger] pkids[j] != pkids[i],
    ensures
        pkid_place(pkids, pkids[i]) == i,
    decreases i,
{
    if i > 0 {
        assert(pkids[0] != pkids[i]);
        let rest = pkids.drop_first();
        assert forall|j: int| 0 <= j < i - 1 implies #[trigger] rest[j] != rest[i - 1] by {
            assert(rest[j] == pkids[j + 1]);
        }
        lemma_pkid_place(rest, i - 1);
    }
}

/// A refused subscription is warned about by the topic that it was for: the packet ids were sent in
/// the order of the commands, the state and the status of Home Assistant. One that is granted is
/// not warned about.
pub proof fn a_refusal_names_its_topic(l: LinkV, i: int)
    requires
        0 <= i < l.sub_pkids.len(),
        i < 3,
        forall|j: int| 0 <= j < i ==> #[trigger] l.sub_pkids[j] != l.sub_pkids[i],
    ensures
        suback_actions(l, l.sub_pkids[i], false).len() == 0,
        suback_actions(l, l.sub_pkids[i], true) == seq![
            ActionV::Warn(
                "mqtt: the broker refused the subscription to "@ + (if i == 0 {
                    l.topics.command
                } else if i == 1 {
                    l.topics.state
                } else {
                    "homeassistant/status"@
                }) + ": "@ + consequence(i) + "; check the broker ACL for user "@ + l.user,
            ),
        ],
{
    lemma_pkid_place(l.sub_pkids, i);
}

/// A payload is shown by its first 120 characters, with a mark where there are more.
pub proof fn a_payload_is_shown_by_its_start(t: Seq<char>)
    ensures
        t.len() <= 120 ==> preview_of(t) == t,
        t.len() > 120 ==> preview_of(t).len() == 121 && preview_of(t).take(120) == t.take(120)
            && preview_of(t)[120] == '…',
{
    if t.len() > 120 {
        assert(preview_of(t).take(120) =~= t.take(120));
    }
}

/// A packet id stands for the first subscription that was sent under it, and one that was not sent
/// for none.
pub proof fn a_packet_id_stands_for_its_subscription(pkids: Seq<u16>, pkid: u16)
    ensures
        0 <= pkid_place(pkids, pkid) <= pkids.len(),
        pkid_place(pkids, pkid) < pkids.len() ==> pkids[pkid_place(pkids, pkid)] == pkid,
        forall|j: int| 0 <= j < pkid_place(pkids, pkid) ==> #[trigger] pkids[j] != pkid,
    decreases pkids.len(),
{
    if pkids.len() > 0 && pkids[0] != pkid {
        let rest = pkids.drop_first();
        a_packet_id_stands_for_its_subscription(rest, pkid);
        assert forall|j: int| 0 <= j < pkid_place(pkids, pkid) implies #[trigger] pkids[j] != pkid by {
            if j > 0 {
                assert(pkids[j] == rest[j - 1]);
            }
        }
    }
}

/// The first failure of an outage is warned about by what it broke: the connection where there was
/// one, the attempt to reach the broker at its host and port where there was none. In between
/// reminders nothing is said.
pub proof fn an_outage_is_told_by_what_it_broke(
    l: LinkV,
    error: Seq<char>,
    f: ConnectFailure,
    now: u64,
)
    requires
        l.outage.failures == 0,
        l.outage.warned is None,
    ensures
        ({
            let actions = error_step(l, error, f, now).1;
            &&& actions.len() == 1
            &&& l.connected ==> actions[0] == ActionV::Warn(
                "mqtt: connection lost: "@ + error + hint_text(f) + "; reconnecting in "@ + "2s"@,
            )
            &&& !l.connected ==> actions[0] == ActionV::Warn(
                "mqtt: cannot connect to "@ + (l.host + ":"@ + decimal(l.port as nat)) + ": "@ + error
                    + hint_text(f) + "; retrying in "@ + "2s"@,
            )
        }),
{
    reveal_strlit("2s");
    reveal_strlit("s");
    pauses_double_up_to_a_minute(1);
    assert(retry_span(1) == 2_000_000_000);
    assert(decimal(2) =~= seq!['2']);
    assert(decimal(2) + "s"@ =~= "2s"@);
}

/// The light at the start is told of and not remembered again.
pub proof fn the_first_light_is_only_told(u: UiV)
    ensures
        ({
            let effects = light_step(u, false).1;
            &&& effects.len() >= 1
            &&& effects[0] == EffectV::PublishLight(u.light)
            &&& forall|i: int|
                1 <= i < effects.len() ==> !(#[trigger] effects[i] is SaveLight)
                    && !(effects[i] is PublishLight)
        }),
{
    showing_the_light_leaves_it_alone(u);
    let rest = screen_step(u).1;
    let effects = light_step(u, false).1;
    assert forall|i: int| 1 <= i < effects.len() implies !(#[trigger] effects[i] is SaveLight)
        && !(effects[i] is PublishLight) by {
        assert(effects[i] == rest[i - 1]);
    }
}

/// The spans of the link: two seconds to begin with, a minute at the longest, and a reminder every
/// five minutes.
pub proof fn the_spans_of_the_link()
    ensures
        RETRY_DELAY == 2_000_000_000,
        RETRY_DELAY_MAX == 60_000_000_000,
        OUTAGE_REMINDER == 300_000_000_000,
        MIN_KEEPALIVE_S == 5,
        MAX_KEEPALIVE_S == 65535,
{
}

/// An outage that goes on is told again by how long it has lasted and how often it was tried.
pub proof fn a_reminder_tells_how_long_it_has_lasted(
    l: LinkV,
    error: Seq<char>,
    f: ConnectFailure,
    now: u64,
    began: u64,
    warned: u64,
)
    requires
        l.outage.since == Some(began),
        l.outage.warned == Some(warned),
        began <= warned,
        warned + 300_000_000_000 <= now,
        1 <= l.outage.failures < u32::MAX,
    ensures
        ({
            let actions = error_step(l, error, f, now).1;
            let n = (l.outage.failures + 1) as nat;
            &&& actions.len() == 1
            &&& actions[0] == ActionV::Warn(
                "mqtt: still cannot connect to "@ + (l.host + ":"@ + decimal(l.port as nat))
                    + " after "@ + decimal(n) + " attempts ("@ + decimal(
                    ((now - began) / 1_000_000_000) as nat,
                ) + " s): "@ + error + hint_text(f) + "; retrying every "@ + (decimal(
                    (retry_span(n) / 1_000_000_000) as nat,
                ) + "s"@),
            )
        }),
{
    pauses_double_up_to_a_minute((l.outage.failures + 1) as nat);
}

/// Between two reminders nothing is said of an outage.
pub proof fn an_outage_is_quiet_between_reminders(
    l: LinkV,
    error: Seq<char>,
    f: ConnectFailure,
    now: u64,
    warned: u64,
)
    requires
        l.outage.warned == Some(warned),
        now < warned + 300_000_000_000,
    ensures
        error_step(l, error, f, now).1.len() == 0,
{
}

/// Actions make something of the light where they publish it or weigh it against a retained one.
pub proof fn only_two_actions_tell_the_light(l: LinkV, a: ActionV)
    ensures
        tells_light(l, a) <==> a is Restore || (a matches ActionV::Publish { topic, .. } && topic
            == l.topics.state),
{
}

/// A payload restores a light where it is a command, and only there.
pub proof fn only_a_command_restores(
    r: Result<JsonV, Seq<char>>,
    current: LightState,
    v: JsonV,
    e: Seq<char>,
)
    ensures
        restore_from(Err(e), current) is None,
        command_of(v) matches Ok(c) ==> restore_from(Ok(v), current) == Some(restored(c, current)),
        command_of(v) is Err ==> restore_from(Ok(v), current) is None,
        command_read(Err(e)) == Err::<CommandV, CommandErrorV>(CommandErrorV::NotJson(e)),
        command_read(Ok(v)) == command_of(v),
{
}

/// What is wrong with a payload is told in words of its own.
pub proof fn what_is_wrong_is_told_in_words(e: Seq<char>)
    ensures
        command_error_text(CommandErrorV::Retained)
            == "delivered with the retain flag (a stale retained command)"@,
        command_error_text(CommandErrorV::NotJson(e)) == "not JSON ("@ + e + ")"@,
        command_error_text(CommandErrorV::NotObject) == "not a JSON object"@,
        command_error_text(CommandErrorV::BadState) == "\"state\" missing or not \"ON\"/\"OFF\""@,
        command_error_text(CommandErrorV::BadBrightness)
            == "\"brightness\" is not a non-negative integer"@,
        command_error_text(CommandErrorV::BadTransition) == "\"transition\" is not a number"@,
{
}

/// What is lost with a refused subscription is told for each of the three, and what to look at for
/// the connections that are refused.
pub proof fn what_is_lost_is_told(f: ConnectFailure)
    ensures
        consequence(0) == "commands from Home Assistant will never arrive"@,
        consequence(1) == "the retained state cannot be restored at startup"@,
        consequence(2) == "a Home Assistant restart will not trigger a discovery republish"@,
        hint_text(ConnectFailure::BadCredentials)
            == " (check MQTT_USER / MQTT_PASSWORD in /etc/barclock.env)"@,
        hint_text(ConnectFailure::BadClientId) == " (the broker rejects mqtt.client_id)"@,
        hint_text(ConnectFailure::Other) == ""@,
{
}

/// A retained command is warned about once in a session and is never obeyed; any other that cannot be
/// read is warned about each time.
pub proof fn a_retained_command_is_warned_about_once(l: LinkV, e: CommandErrorV, payload: Seq<char>)
    ensures
        ({
            let (t, first) = command_step(l, Err(e), payload);
            let (u, second) = command_step(t, Err(e), payload);
            &&& e is Retained && !l.retained_command_warned ==> first.len() == 1 && first[0] is Warn
                && second.len() == 0
            &&& e is Retained && l.retained_command_warned ==> first.len() == 0
            &&& !(e is Retained) ==> t == l && first.len() == 1 && first[0] is Warn && second == first
        }),
{
}

/// An answer refuses a subscription where one of its codes does, and where it has none.
pub proof fn an_answer_without_a_code_refuses(codes: Seq<SubscribeCode>, i: int)
    ensures
        codes.len() == 0 ==> refuses(codes),
        0 <= i < codes.len() && codes[i] == SubscribeCode::Failure ==> refuses(codes),
        codes.len() > 0 && (forall|k: int|
            0 <= k < codes.len() ==> #[trigger] codes[k] == SubscribeCode::Granted) ==> !refuses(
            codes,
        ),
{
}

/// What is told after a restore is what the process runs with: the restored light where it could be
/// handed on, the light that there was where it could not.
pub proof fn what_is_told_is_what_runs(restored: LightState, current: LightState)
    ensures
        runs_with(restored, current, true) == restored,
        runs_with(restored, current, false) == current,
{
}

/// Once the wait for the retained state is over it is not awaited again, and a change of the light is
/// told again; a pause that is over lets the next attempt be made.
pub proof fn a_wait_ends_for_good(l: LinkV, current: LightState, now: u64)
    ensures
        window_closed(l).restore_deadline is None,
        connack_step(window_closed(l), current, now).0.restore_deadline is None,
        l.connected ==> changed_actions(window_closed(l), current) == seq![
            state_publish(l.topics, current),
        ],
        retried(l).retry_at is None,
        retried(l).outage == l.outage,
{
}

/// The packet ids of the subscriptions are kept in the order of sending, three at the most.
pub proof fn packet_ids_are_kept_in_order(l: LinkV, pkid: u16)
    ensures
        l.sub_pkids.len() < 3 ==> subscribe_sent(l, pkid).sub_pkids == l.sub_pkids.push(pkid),
        l.sub_pkids.len() >= 3 ==> subscribe_sent(l, pkid).sub_pkids == l.sub_pkids,
        subscribe_sent(l, pkid).connected == l.connected,
{
}

/// Without an outage nothing has failed and nothing was warned about: the next failure is the first.
pub proof fn without_an_outage_nothing_has_failed(now: u64)
    ensures
        no_outage().failures == 0,
        no_outage().since is None,
        no_outage().warned is None,
        failed_once_more(no_outage(), now).failures == 1,
        failed_once_more(no_outage(), now).since == Some(now),
        failed_once_more(no_outage(), now).warned == Some(now),
{
}

} // verus!
