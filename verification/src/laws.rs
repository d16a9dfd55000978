//! What holds of the whole, whatever comes in.
use vstd::prelude::*;
use vstd::arithmetic::power2::{lemma_pow2_pos, lemma_pow2_unfold, pow2};
use crate::cli::{lemma_scheme_end, printer_status_of, scheme_end, scheme_split, websocket_url};
use crate::config::{default_config, timezone_error, zones_error, Config, Mqtt, PrinterStatus};
use crate::display::hardware_level;
use crate::ha_ws::{
    call_json, call_result_step, call_step, diffed, doubled, emitting, event_step, failures,
    frame_step, idle, keeps_to, lemma_merge_subscribed, merged, missing, named, pending_place,
    ping_json, ping_step, removals, result_of, sending, spread, subscribe_json, without, SessionV,
    MAX_CONFIG_SECS, SUBSCRIBE_ID,
};
use crate::iotawatt::{
    answered_poll, authority, body_of, endpoint_of, failed_poll, gives_up, head_length, headers_end,
    host_text, lemma_headers_end, EndpointV, PollerV, MAX_POLL_MS, MAX_TIMEOUT_MS, MIN_POLL_MS,
    MIN_TIMEOUT_MS,
};
use crate::json::{
    items_at, lookup, member, members_at, natural_at, rendered, text_at, text_of, JsonV,
};
use crate::map::at;
use crate::mqtt_light::{
    changed_actions, command_delivered, command_of, connack_step, error_step, failed_once_more,
    loudness, publish_step, restored, retry_span, state_publish, status_actions, topics_of, ActionV,
    CommandErrorV, CommandV, ConnectFailure, LinkV, Outage, OutageLog, OUTAGE_REMINDER, RETRY_DELAY,
    RETRY_DELAY_MAX,
};
use crate::number::Reading;
use crate::text::{
    after, begins, blank, decimal, decimal_reads_back, halves, is_digit, last_of, lemma_decimal,
    lemma_first_of, lemma_first_of_is, lemma_last_of, parsed_unsigned, rhalves, stripped_end,
    trimmed, trimmed_end, trimmed_start, white,
};
use crate::time::{clamped, since};
use crate::types::{refused, EntityV, HaEventV, LightState, ServiceCallV};

verus! {

// ---------------- the Home Assistant link ----------------

/// The delay before the attempt after `n` failures in a row.
pub open spec fn nth_delay(min: u64, max: u64, n: nat) -> u64
    decreases n,
{
    if n == 0 {
        min
    } else {
        doubled(nth_delay(min, max, (n - 1) as nat), max)
    }
}

/// While no session is stable, the reconnect delay doubles from `min` with each failure and stays
/// at `max` once it gets there.
pub proof fn delays_double_up_to_the_cap(min: u64, max: u64, n: nat)
    requires
        0 < min <= max,
    ensures
        nth_delay(min, max, n) == if min * pow2(n) > max {
            max as int
        } else {
            min * pow2(n)
        },
    decreases n,
{
    if n == 0 {
        vstd::arithmetic::power2::lemma2_to64();
    } else {
        let m = (n - 1) as nat;
        delays_double_up_to_the_cap(min, max, m);
        lemma_pow2_unfold(n);
        lemma_pow2_pos(m);
        assert(min * pow2(n) == 2 * (min * pow2(m))) by (nonlinear_arith)
            requires
                pow2(n) == 2 * pow2(m),
        ;
        assert(min * pow2(m) >= min) by (nonlinear_arith)
            requires
                pow2(m) >= 1,
                min > 0,
        ;
    }
}

/// Message ids only grow, and whatever is sent under an id is sent under the next one: no id is
/// ever used twice on a connection.
pub proof fn message_ids_are_never_reused(
    s: SessionV,
    frame: JsonV,
    call: ServiceCallV,
    now: u64,
)
    requires
        s.wf(),
        s.next_id < u64::MAX,
    ensures
        ({
            let t = frame_step(s, frame, now);
            t.0.next_id == s.next_id || (t.0.next_id == s.next_id + 1 && t.1 == sending(
                rendered(subscribe_json(s.next_id, s.entity_ids)),
            ))
        }),
        ({
            let t = call_step(s, call);
            (t.0.next_id == s.next_id && t.1.send is None) || (t.0.next_id == s.next_id + 1 && t.1
                == sending(rendered(call_json(s.next_id, call))))
        }),
        ({
            let t = ping_step(s, now);
            (t.0.next_id == s.next_id && t.1 == idle()) || (t.0.next_id == s.next_id + 1 && t.1
                == sending(rendered(ping_json(s.next_id))))
        }),
{
}

/// A call from the screen is either refused at once or sent and left waiting for its answer.
pub proof fn a_call_is_refused_or_waits(s: SessionV, call: ServiceCallV)
    ensures
        ({
            let (t, step) = call_step(s, call);
            ||| (t == s && step.send is None && exists|why: Seq<char>|
                step.emit == seq![#[trigger] refused(call.request, why)])
            ||| (t.pending == s.pending.push((s.next_id, call.request)) && step.send is Some
                && step.emit.len() == 0)
        }),
{
    let (t, step) = call_step(s, call);
    if s.phase != crate::ha_ws::Phase::Live {
        assert(step.emit == seq![refused(call.request, "not connected"@)]);
    } else if s.pending.len() >= crate::ha_ws::MAX_PENDING_CALLS {
        assert(step.emit == seq![refused(call.request, "too many pending calls"@)]);
    }
}

proof fn lemma_place_absent(p: Seq<(u64, u64)>, id: nat)
    requires
        forall|i: int| 0 <= i < p.len() ==> (#[trigger] p[i]).0 != id,
    ensures
        pending_place(p, id) == p.len(),
    decreases p.len(),
{
    if p.len() > 0 {
        assert(p[0].0 != id);
        let t = p.drop_first();
        assert forall|i: int| 0 <= i < t.len() implies (#[trigger] t[i]).0 != id by {
            assert(t[i] == p[i + 1]);
        }
        lemma_place_absent(t, id);
    }
}

proof fn lemma_place_found(p: Seq<(u64, u64)>, id: nat)
    ensures
        0 <= pending_place(p, id) <= p.len(),
        pending_place(p, id) < p.len() ==> p[pending_place(p, id)].0 == id,
    decreases p.len(),
{
    if p.len() > 0 && p[0].0 != id {
        lemma_place_found(p.drop_first(), id);
    }
}

/// A waiting call is answered by its result, with its own request, and only once: a second result
/// under the same id says nothing.
pub proof fn a_waiting_call_is_answered_once(s: SessionV, id: nat, frame: JsonV, again: JsonV)
    requires
        s.wf(),
        pending_place(s.pending, id) < s.pending.len(),
    ensures
        ({
            let (t, step) = call_result_step(s, id, frame);
            let request = s.pending[pending_place(s.pending, id)].1;
            &&& step.emit.len() == 1
            &&& step.emit[0] matches HaEventV::CallResult { request: r, .. } && r == request
            &&& call_result_step(t, id, again) == (t, idle())
        }),
{
    let i = pending_place(s.pending, id);
    lemma_place_found(s.pending, id);
    let (t, step) = call_result_step(s, id, frame);
    assert(t.pending == s.pending.remove(i));
    assert forall|k: int| 0 <= k < t.pending.len() implies (#[trigger] t.pending[k]).0 != id by {
        let j = if k < i {
            k
        } else {
            k + 1
        };
        assert(t.pending[k] == s.pending[j]);
        assert(s.pending[i].0 == id);
        if j < i {
            assert(s.pending[j].0 < s.pending[i].0);
        } else {
            assert(s.pending[i].0 < s.pending[j].0);
        }
    }
    lemma_place_absent(t.pending, id);
}

/// The frame is the result of what went out under this id.
pub open spec fn is_result_of(frame: JsonV, id: nat) -> bool {
    text_at(frame, "type"@) == Some("result"@) && natural_at(frame, "id"@) == Some(id)
}

/// A result frame under any id but the subscription's answers the call that waits under that id,
/// and only it. Where none waits, and when the same frame comes a second time, it has no effect.
pub proof fn a_result_frame_answers_its_call_once(
    s: SessionV,
    id: nat,
    frame: JsonV,
    now: u64,
    later: u64,
)
    requires
        s.wf(),
        is_result_of(frame, id),
        id != SUBSCRIBE_ID,
    ensures
        ({
            let (t, step) = frame_step(s, frame, now);
            let (success, error) = result_of(frame);
            let i = pending_place(s.pending, id);
            &&& i < s.pending.len() ==> {
                &&& s.pending[i].0 == id
                &&& t == (SessionV { pending: s.pending.remove(i), ..s })
                &&& step == emitting(
                    seq![HaEventV::CallResult { request: s.pending[i].1, success, error }],
                )
            }
            &&& (forall|k: int| 0 <= k < s.pending.len() ==> (#[trigger] s.pending[k]).0 != id)
                ==> (t, step) == (s, idle())
            &&& frame_step(t, frame, later) == (t, idle())
        }),
{
    reveal_strlit("result");
    reveal_strlit("auth_required");
    reveal_strlit("auth_ok");
    reveal_strlit("auth_invalid");
    assert("result"@[0] != "auth_required"@[0]);
    assert("result"@[0] != "auth_ok"@[0]);
    assert("result"@[0] != "auth_invalid"@[0]);
    lemma_place_found(s.pending, id);
    if pending_place(s.pending, id) < s.pending.len() {
        a_waiting_call_is_answered_once(s, id, frame, frame);
    }
}

/// When a connection ends, every waiting call is answered, and in the order they were sent: the
/// ids of the calls grow along the answers.
pub proof fn waiting_calls_fail_in_order(s: SessionV, why: Seq<char>, i: int, j: int)
    requires
        s.wf(),
        0 <= i < j < s.pending.len(),
    ensures
        failures(s.pending, why).len() == s.pending.len(),
        failures(s.pending, why)[i] == refused(s.pending[i].1, why),
        failures(s.pending, why)[j] == refused(s.pending[j].1, why),
        s.pending[i].0 < s.pending[j].0,
{
}

/// The entities reported as missing are exactly the subscribed ones that the snapshot does not
/// carry, each once.
pub proof fn missing_entities_are_reported_once(
    ids: Seq<Seq<char>>,
    snapshot: Seq<(Seq<char>, JsonV)>,
)
    ensures
        missing(ids, snapshot).no_duplicates(),
        forall|id: Seq<char>| #[trigger]
            missing(ids, snapshot).contains(id) <==> ids.contains(id) && lookup(snapshot, id) is None,
    decreases ids.len(),
{
    if ids.len() > 0 {
        let rest = ids.drop_last();
        missing_entities_are_reported_once(rest, snapshot);
        let prev = missing(rest, snapshot);
        let all = missing(ids, snapshot);
        let last = ids.last();
        assert forall|id: Seq<char>| #[trigger] all.contains(id) <==> ids.contains(id) && lookup(
            snapshot,
            id,
        ) is None by {
            assert(prev.contains(id) <==> rest.contains(id) && lookup(snapshot, id) is None);
            if ids.contains(id) {
                let k = choose|k: int| 0 <= k < ids.len() && ids[k] == id;
                if k < rest.len() {
                    assert(rest[k] == id);
                }
            }
            if rest.contains(id) {
                let k = choose|k: int| 0 <= k < rest.len() && rest[k] == id;
                assert(ids[k] == id);
            }
            assert(ids[ids.len() - 1] == last);
            if all.len() > prev.len() {
                assert(all =~= prev.push(last));
                assert(all[all.len() - 1] == last);
                if prev.contains(id) {
                    let k = choose|k: int| 0 <= k < prev.len() && prev[k] == id;
                    assert(all[k] == id);
                }
                if all.contains(id) {
                    let k = choose|k: int| 0 <= k < all.len() && all[k] == id;
                    if k < prev.len() {
                        assert(prev[k] == id);
                    }
                }
            }
        }
        if all.len() > prev.len() {
            assert forall|a: int, b: int| 0 <= a < all.len() && 0 <= b < all.len() && a
                != b implies all[a] != all[b] by {
                if a == prev.len() {
                    assert(prev[b] == all[b]);
                } else if b == prev.len() {
                    assert(prev[a] == all[a]);
                } else {
                    assert(prev[a] == all[a]);
                    assert(prev[b] == all[b]);
                }
            }
        }
    }
}

/// The first snapshot of a connection is the only one that removals are read from: every later
/// event reports its own changes and nothing else.
pub proof fn the_snapshot_is_read_once(s: SessionV, snapshot: JsonV, later: JsonV)
    requires
        s.snapshot_pending,
        members_at(snapshot, "a"@) is Some,
    ensures
        ({
            let (t, first) = event_step(s, snapshot);
            let (u, second) = event_step(t, later);
            &&& first.emit == merged(s.entities, s.entity_ids, snapshot).events + removals(
                missing(s.entity_ids, members_at(snapshot, "a"@)->0),
            )
            &&& !t.snapshot_pending
            &&& second.emit == merged(t.entities, t.entity_ids, later).events
            &&& !u.snapshot_pending
        }),
{
}

/// Whatever an event carries, only subscribed entities are kept and only they are reported.
pub proof fn only_subscribed_entities_are_reported(
    entities: Map<Seq<char>, EntityV>,
    subscribed: Seq<Seq<char>>,
    event: JsonV,
)
    requires
        forall|id: Seq<char>| #[trigger] entities.dom().contains(id) ==> subscribed.contains(id),
    ensures
        keeps_to(merged(entities, subscribed, event), subscribed),
{
    lemma_merge_subscribed(entities, subscribed, event);
}

/// Some member sets this key.
spec fn sets(m: Seq<(Seq<char>, JsonV)>, k: Seq<char>) -> bool
    decreases m.len(),
{
    m.len() > 0 && (m.last().0 == k || sets(m.drop_last(), k))
}

/// Some text among the names is this key.
spec fn names_it(names: Seq<JsonV>, k: Seq<char>) -> bool
    decreases names.len(),
{
    names.len() > 0 && (text_of(names.last()) == Some(k) || names_it(names.drop_last(), k))
}

proof fn lemma_spread(
    a: Map<Seq<char>, JsonV>,
    b: Map<Seq<char>, JsonV>,
    m: Seq<(Seq<char>, JsonV)>,
    k: Seq<char>,
)
    ensures
        sets(m, k) ==> at(spread(a, m), k) == at(spread(b, m), k),
        !sets(m, k) ==> at(spread(a, m), k) == at(a, k),
    decreases m.len(),
{
    if m.len() > 0 {
        lemma_spread(a, b, m.drop_last(), k);
    }
}

proof fn lemma_without(base: Map<Seq<char>, JsonV>, names: Seq<JsonV>, k: Seq<char>)
    ensures
        at(without(base, names), k) == if names_it(names, k) {
            None
        } else {
            at(base, k)
        },
    decreases names.len(),
{
    if names.len() > 0 {
        lemma_without(base, names.drop_last(), k);
    }
}

/// Applying one diff twice is applying it once.
pub proof fn a_diff_twice_is_a_diff_once(e: EntityV, diff: JsonV)
    ensures
        diffed(diffed(e, diff), diff) == diffed(e, diff),
{
    let m = match member(diff, "+"@) {
        Some(p) => match members_at(p, "a"@) {
            Some(m) => m,
            None => Seq::empty(),
        },
        None => Seq::empty(),
    };
    let names = match member(diff, "-"@) {
        Some(minus) => match items_at(minus, "a"@) {
            Some(names) => names,
            None => Seq::empty(),
        },
        None => Seq::empty(),
    };
    let one = diffed(e, diff);
    let two = diffed(one, diff);
    assert(one.attributes == without(spread(e.attributes, m), names));
    assert(two.attributes == without(spread(one.attributes, m), names));
    assert forall|k: Seq<char>| at(two.attributes, k) == #[trigger] at(one.attributes, k) by {
        lemma_without(spread(e.attributes, m), names, k);
        lemma_without(spread(one.attributes, m), names, k);
        lemma_spread(e.attributes, one.attributes, m, k);
        lemma_spread(one.attributes, e.attributes, m, k);
    }
    assert(two.attributes =~= one.attributes) by {
        assert forall|k: Seq<char>|
            two.attributes.dom().contains(k) == #[trigger] one.attributes.dom().contains(k) by {
            assert(at(two.attributes, k) == at(one.attributes, k));
        }
        assert forall|k: Seq<char>| #[trigger]
            one.attributes.dom().contains(k) implies two.attributes[k] == one.attributes[k] by {
            assert(at(two.attributes, k) == at(one.attributes, k));
        }
    }
}

// ---------------- the light ----------------

/// A command never carries a brightness of zero, and neither does a restored light.
pub proof fn brightness_is_never_zero(v: JsonV, fallback: LightState)
    ensures
        match command_of(v) {
            Ok(c) => (c.brightness matches Some(b) ==> b >= 1) && restored(c, fallback).brightness
                >= 1,
            Err(_) => true,
        },
{
}

/// A retained command is refused whatever it holds.
pub proof fn retained_commands_are_refused(payload: Seq<u8>)
    ensures
        command_delivered(true, payload) == Err::<CommandV, CommandErrorV>(CommandErrorV::Retained),
{
}

/// Some action publishes to the topic.
pub open spec fn publishes_to(actions: Seq<ActionV>, topic: Seq<char>) -> bool {
    exists|i: int|
        0 <= i < actions.len() && (#[trigger] actions[i] matches ActionV::Publish { topic: t, .. }
            && t == topic)
}

proof fn lemma_topics_differ(cfg: Mqtt)
    ensures
        ({
            let t = topics_of(cfg);
            &&& t.state != t.command
            &&& t.availability != t.command
            &&& t.config != t.command
            &&& t.config != t.state
            &&& t.availability != t.state
        }),
{
    reveal_strlit("/state");
    reveal_strlit("/set");
    reveal_strlit("/availability");
    reveal_strlit("/config");
    let t = topics_of(cfg);
    assert(t.state.last() == 'e');
    assert(t.command.last() == 't');
    assert(t.availability.last() == 'y');
    assert(t.config.last() == 'g');
}

/// The light never publishes to its own command topic, whatever happens: such a publish would come
/// straight back as a command.
pub proof fn never_publishes_commands(
    cfg: Mqtt,
    l: LinkV,
    topic: Seq<char>,
    retain: bool,
    payload: Seq<u8>,
    current: LightState,
    error: Seq<char>,
    f: ConnectFailure,
    now: u64,
)
    requires
        l.topics == topics_of(cfg),
    ensures
        !publishes_to(connack_step(l, current, now).1, l.topics.command),
        !publishes_to(publish_step(l, topic, retain, payload, current).1, l.topics.command),
        !publishes_to(error_step(l, error, f, now).1, l.topics.command),
        !publishes_to(changed_actions(l, current), l.topics.command),
        !publishes_to(seq![state_publish(l.topics, current)], l.topics.command),
        connack_step(l, current, now).0.topics == l.topics,
        publish_step(l, topic, retain, payload, current).0.topics == l.topics,
        error_step(l, error, f, now).0.topics == l.topics,
{
    lemma_topics_differ(cfg);
    let c = connack_step(l, current, now).1;
    assert forall|i: int| 0 <= i < c.len() implies !(#[trigger] c[i] matches ActionV::Publish {
        topic: t,
        ..
    } && t == l.topics.command) by {}
    let p = publish_step(l, topic, retain, payload, current).1;
    assert forall|i: int| 0 <= i < p.len() implies !(#[trigger] p[i] matches ActionV::Publish {
        topic: t,
        ..
    } && t == l.topics.command) by {}
}

/// While the retained state is awaited our own is held back: nothing publishes to the state topic
/// until the window is closed by a retained state or by its end.
pub proof fn state_is_held_back_while_restoring(
    cfg: Mqtt,
    l: LinkV,
    status: Seq<char>,
    current: LightState,
    now: u64,
)
    requires
        l.topics == topics_of(cfg),
    ensures
        l.restore_deadline is Some ==> !publishes_to(changed_actions(l, current), l.topics.state),
        l.restore_deadline is Some ==> !publishes_to(
            status_actions(l, status, current),
            l.topics.state,
        ),
        !l.restore_done ==> !publishes_to(connack_step(l, current, now).1, l.topics.state),
        !l.restore_done ==> connack_step(l, current, now).0.restore_deadline is Some,
{
    lemma_topics_differ(cfg);
    let c = connack_step(l, current, now).1;
    if !l.restore_done {
        assert forall|i: int| 0 <= i < c.len() implies !(#[trigger] c[i] matches ActionV::Publish {
            topic: t,
            ..
        } && t == l.topics.state) by {}
    }
    if l.restore_deadline is Some {
        let p = status_actions(l, status, current);
        assert forall|i: int| 0 <= i < p.len() implies !(#[trigger] p[i] matches ActionV::Publish {
            topic: t,
            ..
        } && t == l.topics.state) by {}
    }
}

/// Every session starts by announcing the light again, its state among it once that is settled.
pub proof fn every_session_announces_the_light(l: LinkV, current: LightState, now: u64)
    ensures
        publishes_to(connack_step(l, current, now).1, l.topics.config),
        publishes_to(connack_step(l, current, now).1, l.topics.availability),
        l.restore_done ==> connack_step(l, current, now).1.last() == state_publish(
            l.topics,
            current,
        ),
{
    let c = connack_step(l, current, now).1;
    assert(c[0] matches ActionV::Publish { topic: t, .. } && t == l.topics.config);
    assert(c[1] matches ActionV::Publish { topic: t, .. } && t == l.topics.availability);
}

/// A connection that drops while the retained state is awaited leaves it awaited: the next session
/// opens the window again.
pub proof fn a_dropped_window_opens_again(
    l: LinkV,
    error: Seq<char>,
    f: ConnectFailure,
    current: LightState,
    now: u64,
    later: u64,
)
    requires
        !l.restore_done,
    ensures
        error_step(l, error, f, now).0.restore_deadline is None,
        connack_step(error_step(l, error, f, now).0, current, later).0.restore_deadline is Some,
{
}

/// Nothing is published about the light while the broker is out of reach.
pub proof fn nothing_is_published_while_disconnected(l: LinkV, current: LightState)
    requires
        !l.connected,
    ensures
        changed_actions(l, current).len() == 0,
{
}

/// The pause before a reconnect doubles from 2 s with each failure and stays at a minute.
pub proof fn pauses_double_up_to_a_minute(failures: nat)
    requires
        failures >= 1,
    ensures
        retry_span(failures) == if RETRY_DELAY * pow2((failures - 1) as nat) > RETRY_DELAY_MAX {
            RETRY_DELAY_MAX as int
        } else {
            RETRY_DELAY * pow2((failures - 1) as nat)
        },
    decreases failures,
{
    if failures == 1 {
        vstd::arithmetic::power2::lemma2_to64();
    } else {
        let m = (failures - 1) as nat;
        pauses_double_up_to_a_minute(m);
        lemma_pow2_unfold(m);
        lemma_pow2_pos((m - 1) as nat);
    }
}

/// An outage is warned about at once, and then no sooner than five minutes after the last warning.
pub proof fn outages_are_warned_about_sparingly(o: Outage, first: u64, second: u64)
    ensures
        o.warned is None ==> loudness(o, first) == OutageLog::First,
        loudness(o, first) != OutageLog::Quiet && since(first, second) < OUTAGE_REMINDER
            ==> loudness(failed_once_more(o, first), second) == OutageLog::Quiet,
        loudness(o, first) != OutageLog::Quiet && since(first, second) >= OUTAGE_REMINDER
            ==> loudness(failed_once_more(o, first), second) == OutageLog::Reminder,
{
}

// ---------------- the energy monitor ----------------

/// The body handed on is never longer than what the response announces.
pub proof fn a_body_is_no_longer_than_announced(raw: Seq<u8>)
    requires
        headers_end(raw) is Some,
        head_length(raw.take(headers_end(raw)->0)) is Some,
    ensures
        body_of(raw).len() <= head_length(raw.take(headers_end(raw)->0))->0,
{
    lemma_headers_end(raw);
}

/// The poller gives up once per outage: after it has, no further failure does so again until the
/// device answers.
pub proof fn the_fallback_comes_once_per_outage(p: PollerV, error: Seq<char>, next: Seq<char>)
    requires
        gives_up(p),
    ensures
        ({
            let q = failed_poll(p, error);
            &&& q.fell_back
            &&& !gives_up(q)
            &&& failed_poll(q, next).fell_back
            &&& !answered_poll(q).fell_back
            &&& answered_poll(q).failures == 0
        }),
{
}

proof fn lemma_trim_start(s: Seq<char>, c: char)
    ensures
        trimmed_start(s).len() > 0 ==> !white(trimmed_start(s)[0]),
        trimmed_start(s).contains(c) ==> s.contains(c),
    decreases s.len(),
{
    if s.len() > 0 && white(s[0]) {
        let t = s.drop_first();
        lemma_trim_start(t, c);
        if t.contains(c) {
            let k = choose|k: int| 0 <= k < t.len() && t[k] == c;
            assert(s[k + 1] == c);
        }
    }
}

proof fn lemma_trim_end(s: Seq<char>, c: char)
    ensures
        trimmed_end(s).len() > 0 ==> !white(trimmed_end(s).last()) && trimmed_end(s)[0] == s[0],
        trimmed_end(s).contains(c) ==> s.contains(c),
    decreases s.len(),
{
    if s.len() > 0 && white(s.last()) {
        let t = s.drop_last();
        lemma_trim_end(t, c);
        if t.contains(c) {
            let k = choose|k: int| 0 <= k < t.len() && t[k] == c;
            assert(s[k] == c);
        }
    }
}

proof fn lemma_trim_tail(x: Seq<char>, y: Seq<char>)
    requires
        x.len() > 0,
        !white(x.last()),
    ensures
        trimmed_end(x + y) == x + trimmed_end(y),
    decreases y.len(),
{
    let s = x + y;
    if y.len() == 0 {
        assert(s =~= x);
        assert(x + trimmed_end(y) =~= x);
    } else {
        assert(s.last() == y.last());
        if white(y.last()) {
            assert(s.drop_last() =~= x + y.drop_last());
            lemma_trim_tail(x, y.drop_last());
        }
    }
}

/// The host of an endpoint that a URL names.
proof fn lemma_named_host(url: Seq<char>)
    ensures
        match endpoint_of(url) {
            Ok(e) => e.0.len() > 0 && !e.0.contains('/') && !white(e.0[0]),
            Err(_) => true,
        },
{
    if let Ok(e) = endpoint_of(url) {
        let s = trimmed(url);
        let rest = match after(s, "http://"@) {
            Some(r) => r,
            None => s,
        };
        let inner = match halves(rest, '/') {
            Some((a, _)) => a,
            None => rest,
        };
        lemma_first_of(rest, '/');
        assert(!inner.contains('/'));
        let started = trimmed_start(inner);
        lemma_trim_start(inner, '/');
        lemma_trim_end(started, '/');
        let a = authority(rest);
        assert(a == trimmed_end(started));
        assert(!a.contains('/'));
        assert(started.len() > 0) by {
            if started.len() == 0 {
                assert(trimmed_end(started) == started);
            }
        }
        assert(!white(a[0]));
        lemma_last_of(a, ':');
        if e.0.contains('/') {
            let k = choose|k: int| 0 <= k < e.0.len() && e.0[k] == '/';
            assert(a[k] == '/');
        }
        assert(e.0[0] == a[0]);
    }
}

/// The text names this endpoint, between a scheme and a path.
spec fn names_endpoint(t: Seq<char>, e: EndpointV) -> bool {
    &&& t.len() > 0
    &&& !t.contains('/')
    &&& trimmed(t) == t
    &&& !white(t[0])
    &&& !white(t.last())
    &&& match rhalves(t, ':') {
        Some((h, p)) => h == e.0 && parsed_unsigned(p, u16::MAX as nat) == Some(e.1 as nat),
        None => e.1 == 80 && t == e.0,
    }
}

/// A host that can be told from what stands around it.
pub open spec fn sound_host(h: Seq<char>) -> bool {
    h.len() > 0 && !h.contains('/') && !white(h[0])
}

proof fn lemma_host_port(h: Seq<char>, port: u16)
    requires
        sound_host(h),
    ensures
        names_endpoint(h + ":"@ + decimal(port as nat), (h, port)),
{
    reveal_strlit(":");
    let t = h + ":"@ + decimal(port as nat);
    let d = decimal(port as nat);
    lemma_decimal(port as nat);
    decimal_reads_back(port as nat, u16::MAX as nat);
    let n = h.len() as int;
    assert(t =~= h + seq![':'] + d);
    assert(t[n] == ':');
    assert forall|k: int| n < k < t.len() implies is_digit(#[trigger] t[k]) by {
        assert(t[k] == d[k - n - 1]);
    }
    assert(is_digit(t.last()));
    lemma_not_blank(t);
    lemma_last_of(t, ':');
    assert(last_of(t, ':') == n);
    assert(t.take(n) =~= h);
    assert(t.skip(n + 1) =~= d);
    if t.contains('/') {
        let k = choose|k: int| 0 <= k < t.len() && t[k] == '/';
        if k < n {
            assert(h[k] == '/');
        } else if k > n {
            assert(is_digit(t[k]));
        }
    }
}

proof fn lemma_named_endpoint(t: Seq<char>, e: EndpointV, path: Seq<char>)
    requires
        names_endpoint(t, e),
        e.0.len() > 0,
    ensures
        endpoint_of(t) == Ok::<EndpointV, Seq<char>>(e),
        endpoint_of("http://"@ + t) == Ok::<EndpointV, Seq<char>>(e),
        endpoint_of("http://"@ + t + "/"@ + path) == Ok::<EndpointV, Seq<char>>(e),
{
    reveal_strlit("http://");
    reveal_strlit("https://");
    reveal_strlit("/");
    // bare
    if begins(t, "http://"@) {
        assert("http://"@[5] == '/');
        assert(t[5] == t.take(7)[5]);
    }
    if begins(t, "https://"@) {
        assert("https://"@[6] == '/');
        assert(t[6] == t.take(8)[6]);
    }
    assert(authority(t) == t);
    // behind the scheme
    let bare = "http://"@ + t;
    assert(bare[0] == 'h' && bare.last() == t.last());
    lemma_not_blank(bare);
    lemma_behind_scheme(bare, t);
    // before a path
    let lead = bare + "/"@;
    let whole = lead + path;
    assert(lead.last() == '/');
    assert(whole[0] == 'h');
    assert(trimmed_start(whole) == whole);
    lemma_trim_tail(lead, path);
    let rest = t + "/"@ + trimmed_end(path);
    assert(trimmed(whole) =~= "http://"@ + rest);
    lemma_behind_scheme(trimmed(whole), rest);
    assert(rest[t.len() as int] == '/');
    assert forall|k: int| 0 <= k < t.len() implies rest[k] != '/' by {
        assert(rest[k] == t[k]);
    }
    lemma_first_of_is(rest, '/', t.len() as int);
    assert(rest.contains('/'));
    assert(rest.take(t.len() as int) =~= t);
}

/// A host and a port are read where they are named, whatever the path behind them: bare or behind
/// `http://`.
pub proof fn a_port_is_read_where_it_is_named(h: Seq<char>, port: u16, path: Seq<char>)
    requires
        sound_host(h),
    ensures
        endpoint_of(h + ":"@ + decimal(port as nat)) == Ok::<EndpointV, Seq<char>>((h, port)),
        endpoint_of("http://"@ + (h + ":"@ + decimal(port as nat))) == Ok::<EndpointV, Seq<char>>(
            (h, port),
        ),
        endpoint_of("http://"@ + (h + ":"@ + decimal(port as nat)) + "/"@ + path) == Ok::<
            EndpointV,
            Seq<char>,
        >((h, port)),
{
    lemma_host_port(h, port);
    lemma_named_endpoint(h + ":"@ + decimal(port as nat), (h, port), path);
}

/// A host that is named without a port is asked on port 80.
pub proof fn a_host_alone_is_asked_on_port_80(h: Seq<char>, path: Seq<char>)
    requires
        sound_host(h),
        !h.contains(':'),
        !white(h.last()),
    ensures
        endpoint_of(h) == Ok::<EndpointV, Seq<char>>((h, 80)),
        endpoint_of("http://"@ + h) == Ok::<EndpointV, Seq<char>>((h, 80)),
        endpoint_of("http://"@ + h + "/"@ + path) == Ok::<EndpointV, Seq<char>>((h, 80)),
{
    lemma_not_blank(h);
    lemma_named_endpoint(h, (h, 80), path);
}

/// An endpoint that a URL names is read back from its own text: bare, behind `http://`, and before
/// any path.
pub proof fn an_endpoint_reads_back(url: Seq<char>, path: Seq<char>)
    requires
        match endpoint_of(url) {
            Ok(e) => e.1 == 80 ==> !e.0.contains(':') && !white(e.0.last()),
            Err(_) => false,
        },
    ensures
        ({
            let e = endpoint_of(url)->Ok_0;
            let t = host_text(e);
            &&& endpoint_of(t) == endpoint_of(url)
            &&& endpoint_of("http://"@ + t) == endpoint_of(url)
            &&& endpoint_of("http://"@ + t + "/"@ + path) == endpoint_of(url)
        }),
{
    let e = endpoint_of(url)->Ok_0;
    lemma_named_host(url);
    if e.1 == 80 {
        a_host_alone_is_asked_on_port_80(e.0, path);
    } else {
        a_port_is_read_where_it_is_named(e.0, e.1, path);
    }
}

/// A port that is no number, or none of sixteen bits, makes no endpoint, and neither does a port
/// without a host.
pub proof fn a_bad_port_makes_no_endpoint(h: Seq<char>, p: Seq<char>)
    requires
        sound_host(h),
        p.len() > 0,
        !p.contains('/'),
        !p.contains(':'),
        !white(p.last()),
        parsed_unsigned(p, 65535) is None,
    ensures
        endpoint_of(h + ":"@ + p) is Err,
        endpoint_of(":"@ + p) is Err,
{
    reveal_strlit(":");
    reveal_strlit("http://");
    reveal_strlit("https://");
    let t = h + ":"@ + p;
    lemma_port_part(h, p);
    lemma_port_part(Seq::empty(), p);
    assert(Seq::<char>::empty() + ":"@ + p =~= ":"@ + p);
    lemma_not_blank(t);
    lemma_not_blank(":"@ + p);
    assert(!begins(t, "http://"@)) by {
        if begins(t, "http://"@) {
            assert(t[5] == t.take(7)[5]);
        }
    }
    assert(!begins(":"@ + p, "http://"@)) by {
        if begins(":"@ + p, "http://"@) {
            assert((":"@ + p)[0] == (":"@ + p).take(7)[0]);
        }
    }
}

/// What stands behind the last colon.
proof fn lemma_port_part(h: Seq<char>, p: Seq<char>)
    requires
        !h.contains('/'),
        !p.contains('/'),
        !p.contains(':'),
    ensures
        rhalves(h + ":"@ + p, ':') == Some((h, p)),
        !(h + ":"@ + p).contains('/'),
{
    reveal_strlit(":");
    let t = h + ":"@ + p;
    let n = h.len() as int;
    assert(t[n] == ':');
    lemma_last_of(t, ':');
    assert(last_of(t, ':') == n) by {
        let k = last_of(t, ':');
        if k > n {
            assert(t[k] == p[k - n - 1]);
            assert(p.contains(p[k - n - 1]));
        }
    }
    assert(t.take(n) =~= h);
    assert(t.skip(n + 1) =~= p);
    if t.contains('/') {
        let k = choose|k: int| 0 <= k < t.len() && t[k] == '/';
        if k < n {
            assert(h[k] == '/');
        } else if k > n {
            assert(p[k - n - 1] == '/');
        }
    }
}

/// No URL behind `https://` is an endpoint.
pub proof fn https_is_refused(rest: Seq<char>)
    requires
        trimmed("https://"@ + rest) == "https://"@ + rest,
    ensures
        endpoint_of("https://"@ + rest) is Err,
{
    assert(("https://"@ + rest).take("https://"@.len() as int) =~= "https://"@);
}

/// What follows the scheme, and that the scheme is the plain one.
proof fn lemma_behind_scheme(s: Seq<char>, rest: Seq<char>)
    requires
        s == "http://"@ + rest,
    ensures
        after(s, "http://"@) == Some(rest),
        !begins(s, "https://"@),
{
    reveal_strlit("http://");
    reveal_strlit("https://");
    assert(s.take(7) =~= "http://"@);
    assert(s.skip(7) =~= rest);
    if begins(s, "https://"@) {
        assert("https://"@[4] == 's');
        assert(s[4] == s.take(8)[4]);
        assert("http://"@[4] == ':');
    }
}

// ---------------- the panel ----------------

/// The backlight's level stays within the hardware's range: never dark, and full for a full light.
pub proof fn hardware_level_is_in_range(level: u8, max: u32)
    requires
        level >= 1,
        max >= 1,
    ensures
        1 <= hardware_level(level, max) <= max,
        hardware_level(255, max) == max,
{
    assert(2 * level * max <= 510 * max) by (nonlinear_arith)
        requires
            level <= 255,
            max >= 1,
    ;
}

// ---------------- addresses and the printer ----------------

proof fn lemma_stripped(s: Seq<char>, c: char)
    ensures
        stripped_end(s, c).len() > 0 ==> stripped_end(s, c).last() != c,
    decreases s.len(),
{
    if s.len() > 0 && s.last() == c {
        lemma_stripped(s.drop_last(), c);
    }
}

/// An address that has been made a WebSocket URL is left alone by making it one again.
pub proof fn normalizing_twice_changes_nothing(address: Seq<char>)
    ensures
        websocket_url(websocket_url(address)) == websocket_url(address),
{
    reveal_strlit("ws");
    reveal_strlit("wss");
    reveal_strlit("http");
    reveal_strlit("://");
    reveal_strlit("/api/websocket");
    let url = stripped_end(address, '/');
    lemma_stripped(address, '/');
    let (plain, rest) = match scheme_split(url) {
        Some((scheme, rest)) => (scheme == "http"@ || scheme == "ws"@, rest),
        None => (false, url),
    };
    let scheme = if plain {
        "ws"@
    } else {
        "wss"@
    };
    let tail = if rest.contains('/') {
        rest
    } else {
        rest + "/api/websocket"@
    };
    let out = websocket_url(address);
    assert(out =~= scheme + "://"@ + tail);
    // the new text does not end in a slash
    if rest.contains('/') {
        let k = choose|k: int| 0 <= k < rest.len() && rest[k] == '/';
        lemma_scheme_end(url);
        assert(rest.last() == url.last());
    }
    assert(out.last() != '/');
    assert(stripped_end(out, '/') == out);
    // and its first `://` is the one behind the scheme
    assert(out[0] == 'w' && out[1] == 's');
    let one = out.drop_first();
    let two = one.drop_first();
    reveal_with_fuel(scheme_end, 5);
    if plain {
        assert(two[0] == ':' && two[1] == '/' && two[2] == '/');
        assert(scheme_end(out) == 2);
    } else {
        let three = two.drop_first();
        assert(two[0] == 's');
        assert(three[0] == ':' && three[1] == '/' && three[2] == '/');
        assert(scheme_end(out) == 3);
    }
    assert(out.take(scheme_end(out)) =~= scheme);
    assert(out.skip(scheme_end(out) + 3) =~= tail);
    assert(tail.contains('/')) by {
        if !rest.contains('/') {
            assert(tail[rest.len() as int] == '/');
        }
    }
    assert("ws"@.len() == 2 && "wss"@.len() == 3 && "http"@.len() == 4);
}

/// A printer whose switch says off is off, whatever else is still being reported; one whose switch
/// says on never is.
pub proof fn the_power_switch_decides(
    klipper: Option<Seq<char>>,
    print: Option<Seq<char>>,
    progress: Option<Reading>,
    hours: Option<Reading>,
    any_available: bool,
)
    ensures
        printer_status_of(Some(false), klipper, print, progress, hours, any_available)
            == PrinterStatus::Off,
        printer_status_of(Some(true), klipper, print, progress, hours, any_available)
            != PrinterStatus::Off,
{
}

// ---------------- the configuration ----------------

/// The built-in configuration breaks no rule, as long as its time zones are known.
pub proof fn defaults_are_sound(cfg: Config)
    requires
        default_config(cfg),
    ensures
        timezone_error(cfg.general.timezone@) is None && zones_error(cfg.clock.zones@) is None
            ==> cfg.problem() is None,
        named(cfg.all_ids()).len() == 22,
{
    reveal_strlit("Rue");
    reveal_strlit("Galerie");
    reveal_strlit("off");
    reveal_strlit("suspend");
    reveal_strlit("on");
    lemma_not_blank("Rue"@);
    lemma_not_blank("Galerie"@);
    lemma_not_blank("off"@);
    lemma_not_blank("suspend"@);
    assert("Rue"@[0] != "off"@[0]);
    assert(blank(cfg.iotawatt.url@)) by {
        assert(trimmed(Seq::<char>::empty()) == Seq::<char>::empty());
    }
    lemma_default_ids(cfg);
}

/// Of a list of ids the blank ones are left out, and the others stay in their order.
pub proof fn blank_ids_are_left_out(a: Seq<Seq<char>>, id: Seq<char>, b: Seq<Seq<char>>)
    ensures
        blank(id) ==> named(a.push(id) + b) == named(a) + named(b),
        !blank(id) ==> named(a.push(id) + b) == named(a).push(id) + named(b),
        named(Seq::<Seq<char>>::empty()).len() == 0,
{
    lemma_named_parts(a.push(id), b);
    assert(a.push(id).drop_last() =~= a);
}

proof fn lemma_named_parts(a: Seq<Seq<char>>, b: Seq<Seq<char>>)
    ensures
        named(a + b) == named(a) + named(b),
    decreases b.len(),
{
    if b.len() == 0 {
        assert(a + b =~= a);
        assert(named(a) + named(b) =~= named(a));
    } else {
        lemma_named_parts(a, b.drop_last());
        assert((a + b).drop_last() =~= a + b.drop_last());
        assert((a + b).last() == b.last());
        assert(named(a + b) =~= named(a) + named(b));
    }
}

proof fn lemma_one_dropped(ids: Seq<Seq<char>>, i: int)
    requires
        0 <= i < ids.len(),
    ensures
        named(ids) == if blank(ids[i]) {
            named(ids.take(i)) + named(ids.skip(i + 1))
        } else {
            named(ids.take(i)).push(ids[i]) + named(ids.skip(i + 1))
        },
{
    let one = ids.take(i + 1);
    assert(ids =~= one + ids.skip(i + 1));
    lemma_named_parts(one, ids.skip(i + 1));
    assert(one.drop_last() =~= ids.take(i));
    assert(one.last() == ids[i]);
}

/// Blanking the field of one entity takes exactly its id out of the subscription: the others stay,
/// in their order.
pub proof fn a_blank_field_drops_exactly_its_id(cfg: Config, blanked: Config, i: int)
    requires
        0 <= i < cfg.all_ids().len(),
        !blank(cfg.all_ids()[i]),
        blank(blanked.all_ids()[i]),
        forall|j: int|
            0 <= j < cfg.all_ids().len() && j != i ==> #[trigger] blanked.all_ids()[j]
                == cfg.all_ids()[j],
    ensures
        ({
            let before = named(cfg.all_ids().take(i));
            let after = named(cfg.all_ids().skip(i + 1));
            &&& named(cfg.all_ids()) == before.push(cfg.all_ids()[i]) + after
            &&& named(blanked.all_ids()) == before + after
        }),
{
    let ids = cfg.all_ids();
    let left = blanked.all_ids();
    assert(ids.len() == left.len());
    lemma_one_dropped(ids, i);
    lemma_one_dropped(left, i);
    assert(left.take(i) =~= ids.take(i));
    assert(left.skip(i + 1) =~= ids.skip(i + 1));
}

/// A sound configuration is taken as it stands: the pace of pings, of reconnecting and of polling
/// that it asks for is the pace that is kept.
pub proof fn sound_timings_are_kept(cfg: Config)
    requires
        cfg.problem() is None,
    ensures
        ({
            let ha = cfg.homeassistant;
            &&& clamped(ha.ping_interval_s, 5, MAX_CONFIG_SECS) == ha.ping_interval_s
            &&& clamped(ha.backoff_min_s, 1, MAX_CONFIG_SECS) == ha.backoff_min_s
            &&& clamped(ha.backoff_max_s, 1, MAX_CONFIG_SECS) == ha.backoff_max_s
            &&& ha.backoff_min_s <= ha.backoff_max_s
        }),
        !blank(cfg.iotawatt.url@) ==> {
            let iw = cfg.iotawatt;
            &&& clamped(iw.poll_interval_ms, MIN_POLL_MS, MAX_POLL_MS) == iw.poll_interval_ms
            &&& clamped(iw.timeout_ms, MIN_TIMEOUT_MS, MAX_TIMEOUT_MS) == iw.timeout_ms
            &&& iw.failures_before_fallback >= 1
        },
{
}

/// A text that neither begins nor ends with white space is what it is when trimmed.
proof fn lemma_not_blank(s: Seq<char>)
    requires
        s.len() > 0,
        !white(s[0]),
        !white(s.last()),
    ensures
        trimmed(s) == s,
        !blank(s),
{
}

proof fn lemma_named_all(ids: Seq<Seq<char>>)
    requires
        forall|i: int| 0 <= i < ids.len() ==> !blank(#[trigger] ids[i]),
    ensures
        named(ids) == ids,
    decreases ids.len(),
{
    if ids.len() > 0 {
        let rest = ids.drop_last();
        assert forall|i: int| 0 <= i < rest.len() implies !blank(#[trigger] rest[i]) by {
            assert(rest[i] == ids[i]);
        }
        lemma_named_all(rest);
        assert(!blank(ids[ids.len() - 1]));
        assert(rest.push(ids.last()) =~= ids);
    }
}

proof fn lemma_default_ids(cfg: Config)
    requires
        default_config(cfg),
    ensures
        named(cfg.all_ids()).len() == 22,
{
    let ids = cfg.all_ids();
    reveal_strlit("weather.sept_iles");
    reveal_strlit("sensor.hydroquebec_w");
    reveal_strlit("sensor.poele_w");
    reveal_strlit("sensor.bureau_lulu_klipper_lulu_progress");
    reveal_strlit("sensor.bureau_lulu_klipper_lulu_print_time_left");
    reveal_strlit("switch.bureau_lulu_klipper_lulu_ender3");
    reveal_strlit("sensor.bureau_lulu_klipper_lulu_current_print_state");
    reveal_strlit("sensor.bureau_lulu_klipper_lulu_printer_state");
    reveal_strlit("light.plafonnier_bureau_lulu");
    reveal_strlit("light.lumieres_ecran_lumiere_bureau");
    reveal_strlit("switch.bureau_lulu_kiosk_grafana_kiosk");
    reveal_strlit("select.bureau_lulu_kiosk_camera");
    reveal_strlit("select.bureau_lulu_kiosk_display_power_mode");
    reveal_strlit("sensor.chevrolet_volt_charge_power");
    reveal_strlit("sensor.chevrolet_volt_ev_battery_level");
    reveal_strlit("sensor.chauffe_eau_w");
    reveal_strlit("sensor.laveuse_power");
    reveal_strlit("sensor.secheuse_w");
    reveal_strlit("sensor.serveurs_w");
    reveal_strlit("fan.office_fan_office_fan");
    reveal_strlit("sensor.thermometre_chambre_gabie_temperature");
    reveal_strlit("sensor.thermometre_chambre_gabie_humidity");
    assert forall|i: int| 0 <= i < ids.len() implies !blank(#[trigger] ids[i]) by {
        lemma_not_blank(ids[i]);
    }
    lemma_named_all(ids);
}

} // verus!
