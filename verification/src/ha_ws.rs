//! The Home Assistant link: frames, the merge of the entity stream, the session on one
//! connection, and the pace of reconnecting.
//!
//! A `Session` lives as long as one WebSocket connection. Each of its `on_*` methods takes one
//! thing that happened and returns a `Step`: the text to send, the events to hand on, and the
//! reason to drop the connection, if any.
use vstd::prelude::*;
use vstd::string::*;
use tokio_tungstenite::tungstenite::client::IntoClientRequest;
use crate::json::{
    Json, JsonV, Members, bool_at, find_member, items_at, lookup, member, members, members_at,
    natural_at, parse, parsed, rendered, render, text_at, text_list, text_of, views,
};
use crate::map::{at, TextMap};
use crate::text;
use crate::text::{decimal, opt_string, opt_text, same, texts};
use crate::time;
use crate::time::{later, since, SECOND};
use crate::types::{
    blank_entity, event_views, refused, EntityState, EntityV, HaEvent, HaEventV, ServiceCall,
    ServiceCallV,
};

verus! {

/// Message id of the one `subscribe_entities` per connection. The per-connection counter starts
/// here and every `call_service` and ping takes the next value.
pub const SUBSCRIBE_ID: u64 = 1;

/// Home Assistant answers `auth` and `subscribe_entities` immediately. Longer than this and the
/// link is dead.
pub const HANDSHAKE_TIMEOUT: u64 = 15_000_000_000;

/// No pong within this: drop and reconnect.
pub const PONG_TIMEOUT: u64 = 10_000_000_000;

/// Safety net against a screen that fires calls faster than Home Assistant answers them.
pub const MAX_PENDING_CALLS: usize = 256;

/// Frame bodies are cut here in logs so that the journal stays readable.
pub const LOG_BODY_CHARS: usize = 512;

/// A session that stayed live this long counts as stable and resets the backoff.
pub const STABLE_SESSION: u64 = 60_000_000_000;

/// Wait after `auth_invalid`: long, and never doubled.
pub const AUTH_RETRY: u64 = 900_000_000_000;

/// No configured span of time counts for more than this many seconds.
pub const MAX_CONFIG_SECS: u64 = 3600;

// ---------------------------------------------------------------------------------------------
// Reconnect policy
// ---------------------------------------------------------------------------------------------

/// How a session ended, as far as the reconnect delay is concerned.
#[derive(Clone, Copy, Debug, PartialEq, Eq, Structural)]
pub enum SessionEnd {
    /// Never went live: connect, handshake or subscribe failed.
    NeverLive,
    /// Was live for this long before the drop.
    Live(u64),
    /// Home Assistant answered `auth_invalid`: the token is wrong until the process restarts.
    AuthRejected,
}

/// Doubling delay from `min` to `max`. It resets to `min` only after a session stayed live for
/// `STABLE_SESSION`. A session that dies sooner keeps the climb going. `auth_invalid` waits
/// `AUTH_RETRY` and leaves the climb where it was.
#[derive(Clone, Copy, Debug, PartialEq, Eq, Structural)]
pub struct Backoff {
    pub min: u64,
    pub max: u64,
    /// Delay of the next failure that does not follow a stable session.
    pub next: u64,
}

/// Twice the delay, up to `max`.
pub open spec fn doubled(delay: u64, max: u64) -> u64 {
    if 2 * delay > max {
        max
    } else {
        (2 * delay) as u64
    }
}

/// A session that was live long enough to reset the climb.
pub open spec fn stable(end: SessionEnd) -> bool {
    end matches SessionEnd::Live(lived) && lived >= STABLE_SESSION
}

/// The delay before the attempt that follows such an end.
pub open spec fn delay_for(b: Backoff, end: SessionEnd) -> u64 {
    if end is AuthRejected {
        AUTH_RETRY
    } else if stable(end) {
        b.min
    } else {
        b.next
    }
}

/// The climb after such an end.
pub open spec fn climbed(b: Backoff, end: SessionEnd) -> Backoff {
    if end is AuthRejected {
        b
    } else {
        Backoff { next: doubled(delay_for(b, end), b.max), ..b }
    }
}

/// What the screen is told of such an end.
pub open spec fn told_of(end: SessionEnd, reason: Seq<char>) -> Option<HaEventV> {
    if end is Live {
        Some(HaEventV::Disconnected { reason })
    } else {
        None
    }
}

/// Such an end is worth a warning: a failure to connect that repeats the last one is not.
pub open spec fn worth_a_warning(
    last: Option<Seq<char>>,
    end: SessionEnd,
    reason: Seq<char>,
) -> bool {
    !(end is NeverLive) || last != Some(reason)
}

/// The failure that is remembered after such an end.
pub open spec fn failure_kept(end: SessionEnd, reason: Seq<char>) -> Option<Seq<char>> {
    if end is Live {
        None
    } else {
        Some(reason)
    }
}

impl Backoff {
    /// The delay stays between `min` and `max`.
    pub open spec fn wf(self) -> bool {
        self.min <= self.next <= self.max
    }

    /// A climb from `min` to `max`, or to `min` where that is larger.
    pub fn new(min: u64, max: u64) -> (r: Backoff)
        ensures
            r.wf(),
            r == (Backoff { min, max: if max < min { min } else { max }, next: min }),
    {
        Backoff { min, max: if max < min { min } else { max }, next: min }
    }

    /// Delay to sleep before the next attempt, given how the last session ended.
    pub fn delay_after(&mut self, end: SessionEnd) -> (r: u64)
        requires
            old(self).wf(),
        ensures
            final(self).wf(),
            final(self).min == old(self).min,
            final(self).max == old(self).max,
            end is AuthRejected ==> r == AUTH_RETRY && *final(self) == *old(self),
            stable(end) ==> r == old(self).min,
            !(end is AuthRejected) && !stable(end) ==> r == old(self).next,
            !(end is AuthRejected) ==> final(self).next == doubled(r, old(self).max),
            r == delay_for(*old(self), end),
            *final(self) == climbed(*old(self), end),
    {
        match end {
            SessionEnd::AuthRejected => AUTH_RETRY,
            SessionEnd::Live(lived) => {
                if lived >= STABLE_SESSION {
                    self.next = self.min;
                }
                self.step()
            },
            SessionEnd::NeverLive => self.step(),
        }
    }

    fn step(&mut self) -> (r: u64)
        requires
            old(self).wf(),
        ensures
            final(self).wf(),
            r == old(self).next,
            *final(self) == (Backoff { next: doubled(r, old(self).max), ..*old(self) }),
    {
        let delay: u64 = self.next;
        self.next = if delay > self.max / 2 { self.max } else { delay * 2 };
        delay
    }
}

/// An event that there may be, by its model.
pub open spec fn opt_event(e: Option<HaEvent>) -> Option<HaEventV> {
    match e {
        Some(e) => Some(e@),
        None => None,
    }
}

/// What the link does between two connections.
pub struct Outcome {
    /// How long to wait before the next attempt.
    pub delay: u64,
    /// What to tell the screen.
    pub event: Option<HaEvent>,
    /// Whether the failure is worth a warning: a reason that repeats is not.
    pub warn: bool,
}

/// The reconnecting side of the link.
pub struct Reconnect {
    pub backoff: Backoff,
    /// The reason of the last failed attempt since the link was last live.
    pub last_failure: Option<String>,
}

impl Reconnect {
    /// Paces the attempts by the configured bounds in seconds, each taken within an hour.
    pub fn new(backoff_min_s: u64, backoff_max_s: u64) -> (r: Reconnect)
        ensures
            r.backoff.wf(),
            r.last_failure is None,
            ({
                let min = time::clamped(backoff_min_s, 1, MAX_CONFIG_SECS) * SECOND;
                let max = time::clamped(backoff_max_s, 1, MAX_CONFIG_SECS) * SECOND;
                r.backoff.min == min && r.backoff.next == min && r.backoff.max == if max < min {
                    min
                } else {
                    max
                }
            }),
    {
        let min = time::seconds(time::clamp(backoff_min_s, 1, MAX_CONFIG_SECS));
        let max = time::seconds(time::clamp(backoff_max_s, 1, MAX_CONFIG_SECS));
        Reconnect { backoff: Backoff::new(min, max), last_failure: None }
    }

    /// A session ended: how long to wait, what to tell the screen, and how loud to be about it.
    pub fn ended(&mut self, end: SessionEnd, reason: String) -> (r: Outcome)
        requires
            old(self).backoff.wf(),
        ensures
            final(self).backoff.wf(),
            final(self).backoff.min == old(self).backoff.min,
            final(self).backoff.max == old(self).backoff.max,
            r.delay == if end is AuthRejected {
                AUTH_RETRY
            } else if stable(end) {
                old(self).backoff.min
            } else {
                old(self).backoff.next
            },
            final(self).backoff.next == if end is AuthRejected {
                old(self).backoff.next
            } else {
                doubled(r.delay, old(self).backoff.max)
            },
            match end {
                SessionEnd::Live(_) => r.event matches Some(e) && e@ == (HaEventV::Disconnected {
                    reason: reason@,
                }),
                _ => r.event is None,
            },
            r.warn == (!(end is NeverLive) || opt_string(old(self).last_failure) != Some(reason@)),
            opt_string(final(self).last_failure) == if end is Live {
                None
            } else {
                Some(reason@)
            },
            r.delay == delay_for(old(self).backoff, end),
            final(self).backoff == climbed(old(self).backoff, end),
            opt_event(r.event) == told_of(end, reason@),
            r.warn == worth_a_warning(opt_string(old(self).last_failure), end, reason@),
            opt_string(final(self).last_failure) == failure_kept(end, reason@),
    {
        let delay = self.backoff.delay_after(end);
        match end {
            SessionEnd::Live(_) => {
                self.last_failure = None;
                Outcome { delay, event: Some(HaEvent::Disconnected { reason }), warn: true }
            },
            SessionEnd::AuthRejected => {
                self.last_failure = Some(reason);
                Outcome { delay, event: None, warn: true }
            },
            SessionEnd::NeverLive => {
                let known = match &self.last_failure {
                    Some(last) => same(last.as_str(), reason.as_str()),
                    None => false,
                };
                self.last_failure = Some(reason);
                Outcome { delay, event: None, warn: !known }
            },
        }
    }
}

/// The span between two pings, from the configured seconds.
pub fn ping_interval(ping_interval_s: u64) -> (r: u64)
    ensures
        r == time::clamped(ping_interval_s, 5, MAX_CONFIG_SECS) * SECOND,
{
    time::seconds(time::clamp(ping_interval_s, 5, MAX_CONFIG_SECS))
}

/// The ids that are not blank. With none left the link must not connect: an empty subscription
/// would stream every entity there is.
pub open spec fn named(ids: Seq<Seq<char>>) -> Seq<Seq<char>>
    decreases ids.len(),
{
    if ids.len() == 0 {
        ids
    } else if text::blank(ids.last()) {
        named(ids.drop_last())
    } else {
        named(ids.drop_last()).push(ids.last())
    }
}

/// The ids to subscribe to.
pub fn subscription_ids(ids: &Vec<String>) -> (r: Vec<String>)
    ensures
        texts(r@) == named(texts(ids@)),
{
    let mut out: Vec<String> = Vec::new();
    let mut i: usize = 0;
    assert(texts(out@) =~= Seq::empty());
    while i < ids.len()
        invariant
            i <= ids@.len(),
            texts(out@) == named(texts(ids@).take(i as int)),
        decreases ids@.len() - i,
    {
        proof {
            let t = texts(ids@).take(i + 1);
            assert(t.drop_last() =~= texts(ids@).take(i as int));
            assert(t.last() == ids@[i as int]@);
        }
        if !text::is_blank(ids[i].as_str()) {
            let ghost before = out@;
            out.push(ids[i].clone());
            assert(texts(out@) =~= texts(before).push(ids@[i as int]@));
        }
        i = i + 1;
    }
    assert(texts(ids@).take(i as int) =~= texts(ids@));
    out
}

// ---------------------------------------------------------------------------------------------
// Frames
// ---------------------------------------------------------------------------------------------

/// `{"type":"auth","access_token":...}`
pub open spec fn auth_json(token: Seq<char>) -> JsonV {
    JsonV::Object(
        seq![("type"@, JsonV::Text("auth"@)), ("access_token"@, JsonV::Text(token))],
    )
}

/// `{"id":...,"type":"subscribe_entities","entity_ids":[...]}`
pub open spec fn subscribe_json(id: u64, entity_ids: Seq<Seq<char>>) -> JsonV {
    JsonV::Object(
        seq![
            ("id"@, JsonV::Number(decimal(id as nat))),
            ("type"@, JsonV::Text("subscribe_entities"@)),
            ("entity_ids"@, text_list(entity_ids)),
        ],
    )
}

/// `{"id":...,"type":"ping"}`
pub open spec fn ping_json(id: u64) -> JsonV {
    JsonV::Object(
        seq![("id"@, JsonV::Number(decimal(id as nat))), ("type"@, JsonV::Text("ping"@))],
    )
}

/// Neither null nor an empty object.
pub open spec fn has_data(data: JsonV) -> bool {
    match data {
        JsonV::Null => false,
        JsonV::Object(m) => m.len() > 0,
        _ => true,
    }
}

/// `{"id":...,"type":"call_service","domain":...,"service":...,"service_data":...,"target":...}`,
/// without the service data where there is none.
pub open spec fn call_json(id: u64, call: ServiceCallV) -> JsonV {
    let head = seq![
        ("id"@, JsonV::Number(decimal(id as nat))),
        ("type"@, JsonV::Text("call_service"@)),
        ("domain"@, JsonV::Text(call.domain)),
        ("service"@, JsonV::Text(call.service)),
    ];
    let data = if has_data(call.service_data) {
        head.push(("service_data"@, call.service_data))
    } else {
        head
    };
    JsonV::Object(
        data.push(
            ("target"@, JsonV::Object(seq![("entity_id"@, text_list(call.entity_ids))])),
        ),
    )
}

/// The `auth` frame as text.
pub fn auth_frame(token: &str) -> (r: String)
    ensures
        r@ == rendered(auth_json(token@)),
{
    let j = Members::new().with("type", Json::text("auth")).with(
        "access_token",
        Json::text(token),
    ).object();
    assert(j@->Object_0 =~= auth_json(token@)->Object_0);
    render(&j)
}

/// The `subscribe_entities` frame.
pub fn subscribe_frame(id: u64, entity_ids: &Vec<String>) -> (r: Json)
    ensures
        r@ == subscribe_json(id, texts(entity_ids@)),
{
    let j = Members::new().with("id", Json::number(id)).with(
        "type",
        Json::text("subscribe_entities"),
    ).with("entity_ids", Json::list(entity_ids)).object();
    assert(j@->Object_0 =~= subscribe_json(id, texts(entity_ids@))->Object_0);
    j
}

/// The `ping` frame.
pub fn ping_frame(id: u64) -> (r: Json)
    ensures
        r@ == ping_json(id),
{
    let j = Members::new().with("id", Json::number(id)).with("type", Json::text("ping")).object();
    assert(j@->Object_0 =~= ping_json(id)->Object_0);
    j
}

/// The `call_service` frame; `service_data` is left out when it is null or an empty object.
pub fn call_service_frame(id: u64, call: &ServiceCall) -> (r: Json)
    ensures
        r@ == call_json(id, call@),
{
    let mut m = Members::new().with("id", Json::number(id)).with(
        "type",
        Json::text("call_service"),
    ).with("domain", Json::text(call.domain.as_str())).with(
        "service",
        Json::text(call.service.as_str()),
    );
    let has = match &call.service_data {
        Json::Null => false,
        Json::Object(o) => {
            proof {
                crate::json::lemma_object_view(*o);
            }
            o.len() > 0
        },
        _ => true,
    };
    if has {
        m = m.with("service_data", call.service_data.clone());
    }
    let target = Members::new().with("entity_id", Json::list(&call.entity_ids)).object();
    let j = m.with("target", target).object();
    assert(target@->Object_0 =~= seq![("entity_id"@, text_list(texts(call.entity_ids@)))]);
    assert(j@->Object_0 =~= call_json(id, call@)->Object_0);
    j
}

/// What a `result` frame says: whether it succeeded, and otherwise `error.message`, or
/// `error.code` where there is no message.
pub open spec fn result_of(frame: JsonV) -> (bool, Option<Seq<char>>) {
    if bool_at(frame, "success"@) == Some(true) {
        (true, None)
    } else {
        match member(frame, "error"@) {
            None => (false, None),
            Some(e) => match text_at(e, "message"@) {
                Some(m) => (false, Some(m)),
                None => (false, text_at(e, "code"@)),
            },
        }
    }
}

/// The text, owned.
fn owned(t: Option<&str>) -> (r: Option<String>)
    ensures
        opt_string(r) == opt_text(t),
{
    match t {
        Some(t) => Some(t.to_string()),
        None => None,
    }
}

/// `(success, error)` of a `result` frame.
pub fn parse_result(frame: &Json) -> (r: (bool, Option<String>))
    ensures
        (r.0, opt_string(r.1)) == result_of(frame@),
{
    match frame.bool_at("success") {
        Some(true) => return (true, None),
        _ => {},
    }
    match frame.get("error") {
        None => (false, None),
        Some(e) => match e.str_at("message") {
            Some(m) => (false, Some(m.to_string())),
            None => (false, owned(e.str_at("code"))),
        },
    }
}

// ---------------------------------------------------------------------------------------------
// The entity merge
// ---------------------------------------------------------------------------------------------

/// States are texts. A bare number or truth value is tolerated, anything else is not a state.
pub open spec fn scalar_text(j: JsonV) -> Option<Seq<char>> {
    match j {
        JsonV::Text(t) => Some(t),
        JsonV::Number(t) => Some(t),
        JsonV::Bool(b) => Some(if b { "true"@ } else { "false"@ }),
        _ => None,
    }
}

/// The state under a key.
pub open spec fn scalar_at(j: JsonV, key: Seq<char>) -> Option<Seq<char>> {
    match member(j, key) {
        Some(v) => scalar_text(v),
        None => None,
    }
}

/// `base` with the members set in it, in order.
pub open spec fn spread(base: Map<Seq<char>, JsonV>, m: Seq<(Seq<char>, JsonV)>) -> Map<
    Seq<char>,
    JsonV,
>
    decreases m.len(),
{
    if m.len() == 0 {
        base
    } else {
        spread(base, m.drop_last()).insert(m.last().0, m.last().1)
    }
}

/// `base` without the attributes that the texts among `names` name.
pub open spec fn without(base: Map<Seq<char>, JsonV>, names: Seq<JsonV>) -> Map<Seq<char>, JsonV>
    decreases names.len(),
{
    if names.len() == 0 {
        base
    } else {
        match text_of(names.last()) {
            Some(name) => without(base, names.drop_last()).remove(name),
            None => without(base, names.drop_last()),
        }
    }
}

/// `{"s": state, "a": {attributes}, ...}` is this entity.
pub open spec fn whole_entity(j: JsonV) -> EntityV {
    EntityV {
        state: match scalar_at(j, "s"@) {
            Some(s) => s,
            None => Seq::empty(),
        },
        attributes: match members_at(j, "a"@) {
            Some(m) => spread(Map::empty(), m),
            None => Map::empty(),
        },
    }
}

/// `e` after `{"+": {"s"?, "a"?: {...}, ...}, "-": {"a": [names]}}`. Either key may be absent and
/// anything malformed is skipped.
pub open spec fn diffed(e: EntityV, diff: JsonV) -> EntityV {
    let plus = match member(diff, "+"@) {
        Some(p) => EntityV {
            state: match scalar_at(p, "s"@) {
                Some(s) => s,
                None => e.state,
            },
            attributes: match members_at(p, "a"@) {
                Some(m) => spread(e.attributes, m),
                None => e.attributes,
            },
        },
        None => e,
    };
    match member(diff, "-"@) {
        Some(minus) => match items_at(minus, "a"@) {
            Some(names) => EntityV { attributes: without(plus.attributes, names), ..plus },
            None => plus,
        },
        None => plus,
    }
}

/// The text of a state.
pub fn scalar_string(v: &Json) -> (r: Option<String>)
    ensures
        opt_string(r) == scalar_text(v@),
{
    match v {
        Json::Text(t) => Some(t.clone()),
        Json::Number(t) => Some(t.clone()),
        Json::Bool(b) => Some(if *b { "true".to_string() } else { "false".to_string() }),
        _ => None,
    }
}

fn scalar_string_at(v: &Json, key: &str) -> (r: Option<String>)
    ensures
        opt_string(r) == scalar_at(v@, key@),
{
    match v.get(key) {
        Some(v) => scalar_string(v),
        None => None,
    }
}

/// Sets the members in the map, in order.
fn spread_into(map: &mut TextMap<Json>, m: &Vec<(String, Json)>)
    ensures
        final(map)@ == spread(old(map)@, members(m@)),
{
    let ghost base = map@;
    let mut i: usize = 0;
    while i < m.len()
        invariant
            i <= m@.len(),
            map@ == spread(base, members(m@).take(i as int)),
        decreases m@.len() - i,
    {
        proof {
            let t = members(m@).take(i + 1);
            assert(t.drop_last() =~= members(m@).take(i as int));
            assert(t.last() == (m@[i as int].0@, m@[i as int].1@));
        }
        let v = m[i].1.clone();
        map.insert(m[i].0.clone(), v);
        i = i + 1;
    }
    assert(members(m@).take(i as int) =~= members(m@));
}

/// Removes from the map what the texts among `names` name.
fn remove_from(map: &mut TextMap<Json>, names: &Vec<Json>)
    ensures
        final(map)@ == without(old(map)@, views(names@)),
{
    let ghost base = map@;
    let mut i: usize = 0;
    while i < names.len()
        invariant
            i <= names@.len(),
            map@ == without(base, views(names@).take(i as int)),
        decreases names@.len() - i,
    {
        proof {
            let t = views(names@).take(i + 1);
            assert(t.drop_last() =~= views(names@).take(i as int));
            assert(t.last() == names@[i as int]@);
        }
        match names[i].as_str() {
            Some(name) => {
                let _ = map.remove(name);
            },
            None => {},
        }
        i = i + 1;
    }
    assert(views(names@).take(i as int) =~= views(names@));
}

/// A whole entity from its compressed form.
pub fn full_state(v: &Json) -> (r: EntityState)
    ensures
        r@ == whole_entity(v@),
{
    let state = match scalar_string_at(v, "s") {
        Some(s) => s,
        None => String::new(),
    };
    let mut attributes = TextMap::new();
    match v.object_at("a") {
        Some(m) => spread_into(&mut attributes, m),
        None => {},
    }
    let r = EntityState { state, attributes };
    assert(r@ =~= whole_entity(v@));
    r
}

/// Merges a diff into an entity.
pub fn apply_diff(entity: &mut EntityState, diff: &Json)
    ensures
        final(entity)@ == diffed(old(entity)@, diff@),
{
    match diff.get("+") {
        Some(plus) => {
            match scalar_string_at(plus, "s") {
                Some(s) => entity.state = s,
                None => {},
            }
            match plus.object_at("a") {
                Some(m) => spread_into(&mut entity.attributes, m),
                None => {},
            }
        },
        None => {},
    }
    match diff.get("-") {
        Some(minus) => match minus.array_at("a") {
            Some(names) => remove_from(&mut entity.attributes, names),
            None => {},
        },
        None => {},
    }
    assert(entity@ =~= diffed(old(entity)@, diff@));
}

/// The entities heard about, and the events that report how they came to be so.
pub struct Merge {
    pub entities: Map<Seq<char>, EntityV>,
    pub events: Seq<HaEventV>,
}

/// After the `a` part: each subscribed entity is replaced whole, and reported.
pub open spec fn add_all(
    m: Merge,
    subscribed: Seq<Seq<char>>,
    added: Seq<(Seq<char>, JsonV)>,
) -> Merge
    decreases added.len(),
{
    if added.len() == 0 {
        m
    } else {
        let prev = add_all(m, subscribed, added.drop_last());
        let (entity_id, full) = added.last();
        if subscribed.contains(entity_id) {
            Merge {
                entities: prev.entities.insert(entity_id, whole_entity(full)),
                events: prev.events.push(
                    HaEventV::StateChanged { entity_id, state: whole_entity(full) },
                ),
            }
        } else {
            prev
        }
    }
}

/// What is known of an entity so far.
pub open spec fn known(entities: Map<Seq<char>, EntityV>, entity_id: Seq<char>) -> EntityV {
    match at(entities, entity_id) {
        Some(e) => e,
        None => blank_entity(),
    }
}

/// After the `c` part: each subscribed entity is merged with its diff, and reported.
pub open spec fn change_all(
    m: Merge,
    subscribed: Seq<Seq<char>>,
    changed: Seq<(Seq<char>, JsonV)>,
) -> Merge
    decreases changed.len(),
{
    if changed.len() == 0 {
        m
    } else {
        let prev = change_all(m, subscribed, changed.drop_last());
        let (entity_id, diff) = changed.last();
        if subscribed.contains(entity_id) {
            let state = diffed(known(prev.entities, entity_id), diff);
            Merge {
                entities: prev.entities.insert(entity_id, state),
                events: prev.events.push(HaEventV::StateChanged { entity_id, state }),
            }
        } else {
            prev
        }
    }
}

/// After the `r` part: each subscribed entity is forgotten, and reported.
pub open spec fn remove_all(m: Merge, subscribed: Seq<Seq<char>>, removed: Seq<JsonV>) -> Merge
    decreases removed.len(),
{
    if removed.len() == 0 {
        m
    } else {
        let prev = remove_all(m, subscribed, removed.drop_last());
        match text_of(removed.last()) {
            Some(entity_id) => if subscribed.contains(entity_id) {
                Merge {
                    entities: prev.entities.remove(entity_id),
                    events: prev.events.push(HaEventV::StateRemoved { entity_id }),
                }
            } else {
                prev
            },
            None => prev,
        }
    }
}

/// One compressed event (`a` add or replace, `c` change, `r` remove) applied to the entities:
/// what they become, and the events in order.
pub open spec fn merged(
    entities: Map<Seq<char>, EntityV>,
    subscribed: Seq<Seq<char>>,
    event: JsonV,
) -> Merge {
    let start = Merge { entities, events: Seq::empty() };
    let added = match members_at(event, "a"@) {
        Some(m) => add_all(start, subscribed, m),
        None => start,
    };
    let changed = match members_at(event, "c"@) {
        Some(m) => change_all(added, subscribed, m),
        None => added,
    };
    match items_at(event, "r"@) {
        Some(r) => remove_all(changed, subscribed, r),
        None => changed,
    }
}

/// Whether the id is among the ids.
pub fn contains(ids: &Vec<String>, id: &str) -> (r: bool)
    ensures
        r == texts(ids@).contains(id@),
{
    let mut i: usize = 0;
    while i < ids.len()
        invariant
            i <= ids@.len(),
            forall|k: int| 0 <= k < i ==> (#[trigger] texts(ids@)[k]) != id@,
        decreases ids@.len() - i,
    {
        assert(texts(ids@)[i as int] == ids@[i as int]@);
        if same(ids[i].as_str(), id) {
            return true;
        }
        i = i + 1;
    }
    false
}

fn apply_added(
    entities: &mut TextMap<EntityState>,
    subscribed: &Vec<String>,
    m: &Vec<(String, Json)>,
    out: &mut Vec<HaEvent>,
)
    ensures
        (Merge { entities: final(entities)@, events: event_views(final(out)@) }) == add_all(
            Merge { entities: old(entities)@, events: event_views(old(out)@) },
            texts(subscribed@),
            members(m@),
        ),
{
    let ghost start = Merge { entities: entities@, events: event_views(out@) };
    let mut i: usize = 0;
    while i < m.len()
        invariant
            i <= m@.len(),
            (Merge { entities: entities@, events: event_views(out@) }) == add_all(
                start,
                texts(subscribed@),
                members(m@).take(i as int),
            ),
        decreases m@.len() - i,
    {
        proof {
            let t = members(m@).take(i + 1);
            assert(t.drop_last() =~= members(m@).take(i as int));
            assert(t.last() == (m@[i as int].0@, m@[i as int].1@));
        }
        let entity_id = m[i].0.clone();
        if contains(subscribed, entity_id.as_str()) {
            let state = full_state(&m[i].1);
            let ghost before = out@;
            entities.insert(entity_id.clone(), state.clone());
            let event = HaEvent::StateChanged { entity_id, state };
            out.push(event);
            assert(event_views(out@) =~= event_views(before).push(event@));
        }
        i = i + 1;
    }
    assert(members(m@).take(i as int) =~= members(m@));
}

fn apply_changed(
    entities: &mut TextMap<EntityState>,
    subscribed: &Vec<String>,
    m: &Vec<(String, Json)>,
    out: &mut Vec<HaEvent>,
)
    ensures
        (Merge { entities: final(entities)@, events: event_views(final(out)@) }) == change_all(
            Merge { entities: old(entities)@, events: event_views(old(out)@) },
            texts(subscribed@),
            members(m@),
        ),
{
    let ghost start = Merge { entities: entities@, events: event_views(out@) };
    let mut i: usize = 0;
    while i < m.len()
        invariant
            i <= m@.len(),
            (Merge { entities: entities@, events: event_views(out@) }) == change_all(
                start,
                texts(subscribed@),
                members(m@).take(i as int),
            ),
        decreases m@.len() - i,
    {
        proof {
            let t = members(m@).take(i + 1);
            assert(t.drop_last() =~= members(m@).take(i as int));
            assert(t.last() == (m@[i as int].0@, m@[i as int].1@));
        }
        let entity_id = m[i].0.clone();
        if contains(subscribed, entity_id.as_str()) {
            let ghost was = entities@;
            let mut state = match entities.remove(entity_id.as_str()) {
                Some(e) => e,
                None => EntityState::default(),
            };
            assert(state@ == known(was, entity_id@));
            apply_diff(&mut state, &m[i].1);
            let ghost before = out@;
            entities.insert(entity_id.clone(), state.clone());
            assert(entities@ =~= was.insert(entity_id@, state@));
            let event = HaEvent::StateChanged { entity_id, state };
            out.push(event);
            assert(event_views(out@) =~= event_views(before).push(event@));
        }
        i = i + 1;
    }
    assert(members(m@).take(i as int) =~= members(m@));
}

fn apply_removed(
    entities: &mut TextMap<EntityState>,
    subscribed: &Vec<String>,
    removed: &Vec<Json>,
    out: &mut Vec<HaEvent>,
)
    ensures
        (Merge { entities: final(entities)@, events: event_views(final(out)@) }) == remove_all(
            Merge { entities: old(entities)@, events: event_views(old(out)@) },
            texts(subscribed@),
            views(removed@),
        ),
{
    let ghost start = Merge { entities: entities@, events: event_views(out@) };
    let mut i: usize = 0;
    while i < removed.len()
        invariant
            i <= removed@.len(),
            (Merge { entities: entities@, events: event_views(out@) }) == remove_all(
                start,
                texts(subscribed@),
                views(removed@).take(i as int),
            ),
        decreases removed@.len() - i,
    {
        proof {
            let t = views(removed@).take(i + 1);
            assert(t.drop_last() =~= views(removed@).take(i as int));
            assert(t.last() == removed@[i as int]@);
        }
        match removed[i].as_str() {
            Some(entity_id) => {
                if contains(subscribed, entity_id) {
                    let _ = entities.remove(entity_id);
                    let ghost before = out@;
                    let event = HaEvent::StateRemoved { entity_id: entity_id.to_string() };
                    out.push(event);
                    assert(event_views(out@) =~= event_views(before).push(event@));
                }
            },
            None => {},
        }
        i = i + 1;
    }
    assert(views(removed@).take(i as int) =~= views(removed@));
}

/// Applies one compressed event to `entities`, keeping only subscribed ids, and returns the
/// events for the screen in order.
pub fn apply_event(
    entities: &mut TextMap<EntityState>,
    subscribed: &Vec<String>,
    event: &Json,
) -> (out: Vec<HaEvent>)
    ensures
        (Merge { entities: final(entities)@, events: event_views(out@) }) == merged(
            old(entities)@,
            texts(subscribed@),
            event@,
        ),
{
    let mut out: Vec<HaEvent> = Vec::new();
    assert(event_views(out@) =~= Seq::empty());
    match event.object_at("a") {
        Some(m) => apply_added(entities, subscribed, m, &mut out),
        None => {},
    }
    match event.object_at("c") {
        Some(m) => apply_changed(entities, subscribed, m, &mut out),
        None => {},
    }
    match event.array_at("r") {
        Some(r) => apply_removed(entities, subscribed, r, &mut out),
        None => {},
    }
    out
}

/// The subscribed ids, in subscription order and each once, that a snapshot does not carry.
pub open spec fn missing(ids: Seq<Seq<char>>, snapshot: Seq<(Seq<char>, JsonV)>) -> Seq<Seq<char>>
    decreases ids.len(),
{
    if ids.len() == 0 {
        Seq::empty()
    } else {
        let prev = missing(ids.drop_last(), snapshot);
        let id = ids.last();
        if lookup(snapshot, id) is None && !prev.contains(id) {
            prev.push(id)
        } else {
            prev
        }
    }
}

/// The reports that these entities are gone.
pub open spec fn removals(ids: Seq<Seq<char>>) -> Seq<HaEventV> {
    ids.map_values(|id: Seq<char>| HaEventV::StateRemoved { entity_id: id })
}

/// The subscribed ids, in subscription order and each once, that a snapshot does not carry.
fn missing_ids(entity_ids: &Vec<String>, snapshot: &Vec<(String, Json)>) -> (gone: Vec<String>)
    ensures
        texts(gone@) == missing(texts(entity_ids@), members(snapshot@)),
{
    let mut gone: Vec<String> = Vec::new();
    let mut i: usize = 0;
    assert(texts(gone@) =~= Seq::empty());
    while i < entity_ids.len()
        invariant
            i <= entity_ids@.len(),
            texts(gone@) == missing(texts(entity_ids@).take(i as int), members(snapshot@)),
        decreases entity_ids@.len() - i,
    {
        proof {
            let t = texts(entity_ids@).take(i + 1);
            assert(t.drop_last() =~= texts(entity_ids@).take(i as int));
            assert(t.last() == entity_ids@[i as int]@);
        }
        let id = entity_ids[i].as_str();
        if find_member(snapshot, id).is_none() && !contains(&gone, id) {
            let ghost was = gone@;
            gone.push(id.to_string());
            assert(texts(gone@) =~= texts(was).push(id@));
        }
        i = i + 1;
    }
    assert(texts(entity_ids@).take(i as int) =~= texts(entity_ids@));
    gone
}

/// The reports that these entities are gone.
fn removal_events(ids: &Vec<String>) -> (out: Vec<HaEvent>)
    ensures
        event_views(out@) == removals(texts(ids@)),
{
    let mut out: Vec<HaEvent> = Vec::new();
    let mut i: usize = 0;
    assert(event_views(out@) =~= removals(texts(ids@)).take(0));
    while i < ids.len()
        invariant
            i <= ids@.len(),
            event_views(out@) == removals(texts(ids@)).take(i as int),
        decreases ids@.len() - i,
    {
        let ghost before = out@;
        let event = HaEvent::StateRemoved { entity_id: ids[i].clone() };
        out.push(event);
        proof {
            assert(event_views(out@) =~= event_views(before).push(event@));
            assert(removals(texts(ids@)).take(i + 1) =~= removals(texts(ids@)).take(
                i as int,
            ).push(event@));
        }
        i = i + 1;
    }
    assert(removals(texts(ids@)).take(i as int) =~= removals(texts(ids@)));
    out
}

/// What the journal says of entities that a snapshot does not carry.
fn missing_line(ids: &Vec<String>) -> (r: Option<Report>)
    ensures
        opt_report(r) == missing_report(texts(ids@)),
{
    if ids.len() == 0 {
        return None;
    }
    let mut m = text::decimal_text(ids.len() as u64);
    m.append(" subscribed entities are missing from Home Assistant, shown as unavailable: ");
    m.append(text::join(ids, ", ").as_str());
    Some(Report::Warn(m))
}

/// A removal for every subscribed id (subscription order, duplicates once) that a snapshot (`a`
/// of the first event of a connection) does not carry.
pub fn missing_from_snapshot(entity_ids: &Vec<String>, snapshot: &Vec<(String, Json)>) -> (out: Vec<
    HaEvent,
>)
    ensures
        event_views(out@) == removals(missing(texts(entity_ids@), members(snapshot@))),
{
    removal_events(&missing_ids(entity_ids, snapshot))
}

// ---------------------------------------------------------------------------------------------
// Where to connect
// ---------------------------------------------------------------------------------------------

/// The scheme, the host and the port that a URL names.
pub type UriV = (Option<Seq<char>>, Option<Seq<char>>, Option<u16>);

/// What `tungstenite` makes of a URL: the parts of the request's URI, or the message of its error
/// with those of its causes behind it.
pub uninterp spec fn client_uri(url: Seq<char>) -> Result<UriV, Seq<char>>;

/// The parts of a URI.
#[derive(Debug, PartialEq)]
pub struct UriParts {
    pub scheme: Option<String>,
    pub host: Option<String>,
    pub port: Option<u16>,
}

impl View for UriParts {
    type V = UriV;

    open spec fn view(&self) -> UriV {
        (opt_string(self.scheme), opt_string(self.host), self.port)
    }
}

/// Reading a URL gave these parts.
pub open spec fn uri_reads(r: Result<UriV, Seq<char>>, parts: UriV) -> bool {
    match r {
        Ok(p) => p == parts,
        Err(_) => false,
    }
}

/// Reading a URL failed with this message.
pub open spec fn uri_fails(r: Result<UriV, Seq<char>>, message: Seq<char>) -> bool {
    match r {
        Ok(_) => false,
        Err(m) => m == message,
    }
}

/// Calls `into_client_request` of `tungstenite` on the URL and reads the request's URI with
/// `scheme_str`, `host` and `port_u16` of `http`; an error is written out with its causes by
/// `anyhow`. What they give is named by `client_uri`; the key that the request also carries is
/// random, and is not among the parts.
#[verifier::external_body]
fn request_parts(url: &str) -> (r: Result<UriParts, String>)
    ensures
        match r {
            Ok(p) => uri_reads(client_uri(url@), p@),
            Err(e) => uri_fails(client_uri(url@), e@),
        },
{
    let request = url.into_client_request().map_err(
        |e| format!("{:#}", anyhow::Error::new(e)),
    )?;
    let uri = request.uri();
    Ok(UriParts {
        scheme: uri.scheme_str().map(str::to_string),
        host: uri.host().map(str::to_string),
        port: uri.port_u16(),
    })
}

/// Where to connect, and whether through TLS.
#[derive(Debug, PartialEq)]
pub struct Target {
    pub secure: bool,
    pub host: String,
    pub port: u16,
}

/// A scheme as an error message shows it.
pub open spec fn scheme_text(scheme: Option<Seq<char>>) -> Seq<char> {
    match scheme {
        Some(s) => "Some("@ + text::debug_text(text::lowered(s)) + ")"@,
        None => "None"@,
    }
}

/// The host without the brackets of an IPv6 address.
pub open spec fn bare_host(host: Seq<char>) -> Seq<char> {
    text::stripped_end(text::stripped_start(host, '['), ']')
}

/// What is wrong with the parts of a URL, if anything.
pub open spec fn target_error(parts: UriV) -> Option<Seq<char>> {
    if !(parts.0 matches Some(s) && (text::lowered(s) == "wss"@ || text::lowered(s) == "ws"@)) {
        Some(
            "homeassistant.url scheme "@ + scheme_text(parts.0) + " is not ws:// or wss://"@,
        )
    } else if !(parts.1 matches Some(h) && bare_host(h).len() > 0) {
        Some("homeassistant.url has no host"@)
    } else {
        None
    }
}

/// Where the parts of a sound URL lead: through TLS for `wss`, to the port given, or the scheme's.
pub open spec fn target_is(t: Target, parts: UriV) -> bool {
    let secure = text::lowered(parts.0->0) == "wss"@;
    &&& t.secure == secure
    &&& t.host@ == bare_host(parts.1->0)
    &&& t.port == match parts.2 {
        Some(p) => p,
        None => if secure {
            443
        } else {
            80
        },
    }
}

/// `s` with its ASCII capitals made small.
fn lowercase(s: &str) -> (r: String)
    ensures
        r@ == text::lowered(s@),
{
    let cs = text::chars_of(s);
    let mut out = String::new();
    let mut i: usize = 0;
    while i < cs.len()
        invariant
            i <= cs@.len(),
            cs@ == s@,
            out@ == text::lowered(s@).take(i as int),
        decreases cs@.len() - i,
    {
        out.push(text::to_lower(cs[i]));
        assert(out@ =~= text::lowered(s@).take(i + 1));
        i = i + 1;
    }
    assert(text::lowered(s@).take(i as int) =~= text::lowered(s@));
    out
}

/// The target that the parts of a URL name, or why they name none.
pub fn target_of(parts: &UriParts) -> (r: Result<Target, String>)
    ensures
        match r {
            Ok(t) => target_error(parts@) is None && target_is(t, parts@),
            Err(e) => target_error(parts@) == Some(e@),
        },
{
    let scheme = match &parts.scheme {
        Some(s) => Some(lowercase(s.as_str())),
        None => None,
    };
    let secure = match &scheme {
        Some(s) => {
            if same(s.as_str(), "wss") {
                true
            } else if same(s.as_str(), "ws") {
                false
            } else {
                let mut e = "homeassistant.url scheme ".to_string();
                e.append("Some(");
                let q = text::quoted(s.as_str());
                e.append(q.as_str());
                e.append(")");
                e.append(" is not ws:// or wss://");
                assert(e@ =~= target_error(parts@)->0);
                return Err(e);
            }
        },
        None => {
            let mut e = "homeassistant.url scheme ".to_string();
            e.append("None");
            e.append(" is not ws:// or wss://");
            return Err(e);
        },
    };
    match &parts.host {
        Some(h) => {
            let bare = text::strip_end(text::strip_start(h.as_str(), '['), ']');
            if bare.unicode_len() == 0 {
                return Err("homeassistant.url has no host".to_string());
            }
            let port: u16 = match parts.port {
                Some(p) => p,
                None => if secure {
                    443
                } else {
                    80
                },
            };
            Ok(Target { secure, host: bare.to_string(), port })
        },
        None => Err("homeassistant.url has no host".to_string()),
    }
}

/// The target of a URL, or why there is none.
pub fn connect_target(url: &str) -> (r: Result<Target, String>)
    ensures
        match r {
            Ok(t) => match client_uri(url@) {
                Ok(p) => target_error(p) is None && target_is(t, p),
                Err(_) => false,
            },
            Err(e) => match client_uri(url@) {
                Ok(p) => target_error(p) == Some(e@),
                Err(m) => e@ == "invalid homeassistant.url: "@ + m,
            },
        },
{
    match request_parts(url) {
        Ok(parts) => target_of(&parts),
        Err(e) => Err(text::concat("invalid homeassistant.url: ", e.as_str())),
    }
}

/// How an upgrade to WebSocket failed.
#[derive(Debug, PartialEq)]
pub enum UpgradeError {
    /// The server answered with this HTTP status, as code and as text (`403 Forbidden`).
    Http { code: u16, status: String },
    /// Anything else, by its message.
    Other(String),
}

/// The reason of a failed WebSocket upgrade, for people. An HTTP 403 gets the IP-ban hint: that is
/// what Home Assistant answers to every request once the address is listed in `ip_bans.yaml`.
pub open spec fn upgrade_text(e: UpgradeError) -> Seq<char> {
    match e {
        UpgradeError::Http { code, status } => "WebSocket handshake rejected with HTTP "@ + status@
            + if code == 403 {
            ": this IP may be banned by Home Assistant after repeated failed logins (remove it from ip_bans.yaml next to configuration.yaml and restart Home Assistant)"@
        } else {
            Seq::empty()
        },
        UpgradeError::Other(m) => "WebSocket handshake: "@ + m@,
    }
}

/// The reason of a failed WebSocket upgrade.
pub fn handshake_failure(e: &UpgradeError) -> (r: String)
    ensures
        r@ == upgrade_text(*e),
{
    match e {
        UpgradeError::Http { code, status } => {
            let mut reason = text::concat("WebSocket handshake rejected with HTTP ", status.as_str());
            if *code == 403 {
                reason.append(
                    ": this IP may be banned by Home Assistant after repeated failed logins (remove it from ip_bans.yaml next to configuration.yaml and restart Home Assistant)",
                );
            }
            assert(reason@ =~= upgrade_text(*e));
            reason
        },
        UpgradeError::Other(m) => text::concat("WebSocket handshake: ", m.as_str()),
    }
}

/// How a connection was never made, or broke off, below the session.
#[derive(Debug, PartialEq)]
pub enum LinkFault {
    /// Connecting took longer than this many seconds.
    ConnectTimeout(u64),
    /// The socket was closed.
    Closed,
    /// The socket failed, with this message.
    Socket(String),
    /// The answer to a WebSocket ping could not be flushed.
    Flush(String),
    /// A text could not be sent.
    Send(String),
}

/// The reason that a fault is reported as.
pub open spec fn fault_text(f: LinkFault) -> Seq<char> {
    match f {
        LinkFault::ConnectTimeout(s) => "connect timed out after "@ + decimal(s as nat) + "s"@,
        LinkFault::Closed => "connection closed"@,
        LinkFault::Socket(e) => "socket error: "@ + e@,
        LinkFault::Flush(e) => "pong flush failed: "@ + e@,
        LinkFault::Send(e) => "send failed: "@ + e@,
    }
}

/// The reason that a fault is reported as.
pub fn fault_reason(f: &LinkFault) -> (r: String)
    ensures
        r@ == fault_text(*f),
{
    match f {
        LinkFault::ConnectTimeout(s) => {
            let mut m = text::concat(
                "connect timed out after ",
                text::decimal_text(*s).as_str(),
            );
            m.append("s");
            m
        },
        LinkFault::Closed => "connection closed".to_string(),
        LinkFault::Socket(e) => text::concat("socket error: ", e.as_str()),
        LinkFault::Flush(e) => text::concat("pong flush failed: ", e.as_str()),
        LinkFault::Send(e) => text::concat("send failed: ", e.as_str()),
    }
}

// ---------------------------------------------------------------------------------------------
// Session
// ---------------------------------------------------------------------------------------------

/// How far a connection has come.
#[derive(Clone, Copy, Debug, PartialEq, Eq, Structural)]
pub enum Phase {
    AwaitAuthRequired,
    AwaitAuthOk,
    AwaitSubscribed,
    Live,
}

/// A line for the journal that somebody should see.
#[derive(Debug, PartialEq)]
pub enum Report {
    Warn(String),
    /// Nothing works until somebody acts on it.
    Error(String),
}

/// The model of a `Report`.
#[verifier::ext_equal]
pub enum ReportV {
    Warn(Seq<char>),
    Error(Seq<char>),
}

impl View for Report {
    type V = ReportV;

    open spec fn view(&self) -> ReportV {
        match self {
            Report::Warn(t) => ReportV::Warn(t@),
            Report::Error(t) => ReportV::Error(t@),
        }
    }
}

/// A report that there may be, by its model.
pub open spec fn opt_report(r: Option<Report>) -> Option<ReportV> {
    match r {
        Some(r) => Some(r@),
        None => None,
    }
}

/// What a session asks for: a text to send, events to hand on, a line for the journal, a reason to
/// drop the connection.
#[derive(Debug, PartialEq)]
pub struct Step {
    pub send: Option<String>,
    pub emit: Vec<HaEvent>,
    pub report: Option<Report>,
    pub end: Option<String>,
}

/// The model of a `Step`.
#[verifier::ext_equal]
pub struct StepV {
    pub send: Option<Seq<char>>,
    pub emit: Seq<HaEventV>,
    pub report: Option<ReportV>,
    pub end: Option<Seq<char>>,
}

impl View for Step {
    type V = StepV;

    open spec fn view(&self) -> StepV {
        StepV {
            send: opt_string(self.send),
            emit: event_views(self.emit@),
            report: opt_report(self.report),
            end: opt_string(self.end),
        }
    }
}

/// Nothing to do.
pub open spec fn idle() -> StepV {
    StepV { send: None, emit: Seq::empty(), report: None, end: None }
}

/// A text to send.
pub open spec fn sending(t: Seq<char>) -> StepV {
    StepV { send: Some(t), emit: Seq::empty(), report: None, end: None }
}

/// Events to hand on.
pub open spec fn emitting(events: Seq<HaEventV>) -> StepV {
    StepV { send: None, emit: events, report: None, end: None }
}

/// A reason to drop the connection.
pub open spec fn ending(reason: Seq<char>) -> StepV {
    StepV { send: None, emit: Seq::empty(), report: None, end: Some(reason) }
}

/// The step, with a line for the journal.
pub open spec fn reporting(step: StepV, report: Option<ReportV>) -> StepV {
    StepV { report, ..step }
}

impl Step {
    /// Nothing to do.
    pub fn idle() -> (r: Step)
        ensures
            r@ == idle(),
    {
        let r = Step { send: None, emit: Vec::new(), report: None, end: None };
        assert(r@ =~= idle());
        r
    }

    fn sending(t: String) -> (r: Step)
        ensures
            r@ == sending(t@),
    {
        let r = Step { send: Some(t), emit: Vec::new(), report: None, end: None };
        assert(r@ =~= sending(t@));
        r
    }

    fn emitting(emit: Vec<HaEvent>) -> (r: Step)
        ensures
            r@ == emitting(event_views(emit@)),
    {
        Step { send: None, emit, report: None, end: None }
    }

    fn emitting_one(e: HaEvent) -> (r: Step)
        ensures
            r@ == emitting(seq![e@]),
    {
        let mut emit: Vec<HaEvent> = Vec::new();
        emit.push(e);
        assert(event_views(emit@) =~= seq![e@]);
        Step { send: None, emit, report: None, end: None }
    }

    fn ending(reason: String) -> (r: Step)
        ensures
            r@ == ending(reason@),
    {
        let r = Step { send: None, emit: Vec::new(), report: None, end: Some(reason) };
        assert(r@ =~= ending(reason@));
        r
    }

    fn reporting(self, report: Option<Report>) -> (r: Step)
        ensures
            r@ == reporting(self@, opt_report(report)),
    {
        Step { send: self.send, emit: self.emit, report, end: self.end }
    }
}

/// Everything that lives exactly as long as one WebSocket connection.
#[derive(Debug)]
pub struct Session {
    pub token: String,
    /// The subscribed ids, in subscription order.
    pub entity_ids: Vec<String>,
    pub phase: Phase,
    /// Next message id: strictly increasing per connection, shared by subscribe, calls and pings.
    pub next_id: u64,
    /// Merged state of every subscribed entity heard about on this connection.
    pub entities: TextMap<EntityState>,
    /// Message id and `ServiceCall::request` of every unanswered call, in the order of sending.
    pub pending: Vec<(u64, u64)>,
    /// Id of the ping whose pong is awaited.
    pub ping_outstanding: Option<u64>,
    /// Handshake deadline before going live, pong deadline after a ping, `None` = nothing to wait
    /// for.
    pub deadline: Option<u64>,
    /// When this connection went live, `None` until then.
    pub live_since: Option<u64>,
    /// Home Assistant answered `auth_invalid` on this connection.
    pub auth_rejected: bool,
    /// The first `a` event of the connection is still to come. It is complete for every subscribed
    /// entity that exists, so a subscribed id absent from it vanished while the link was down.
    pub snapshot_pending: bool,
}

/// The model of a `Session`.
#[verifier::ext_equal]
pub struct SessionV {
    pub token: Seq<char>,
    pub entity_ids: Seq<Seq<char>>,
    pub phase: Phase,
    pub next_id: u64,
    pub entities: Map<Seq<char>, EntityV>,
    pub pending: Seq<(u64, u64)>,
    pub ping_outstanding: Option<u64>,
    pub deadline: Option<u64>,
    pub live_since: Option<u64>,
    pub auth_rejected: bool,
    pub snapshot_pending: bool,
}

impl View for Session {
    type V = SessionV;

    open spec fn view(&self) -> SessionV {
        SessionV {
            token: self.token@,
            entity_ids: texts(self.entity_ids@),
            phase: self.phase,
            next_id: self.next_id,
            entities: self.entities@,
            pending: self.pending@,
            ping_outstanding: self.ping_outstanding,
            deadline: self.deadline,
            live_since: self.live_since,
            auth_rejected: self.auth_rejected,
            snapshot_pending: self.snapshot_pending,
        }
    }
}

impl SessionV {
    /// Every unanswered call and ping has an id that was handed out, in increasing order, and none
    /// is before the subscription; only subscribed entities are known.
    pub open spec fn wf(self) -> bool {
        &&& self.next_id >= SUBSCRIBE_ID
        &&& self.phase == Phase::AwaitAuthRequired || self.phase == Phase::AwaitAuthOk
            ==> self.next_id == SUBSCRIBE_ID
        &&& forall|i: int, j: int|
            #![trigger self.pending[i], self.pending[j]]
            0 <= i < j < self.pending.len() ==> self.pending[i].0 < self.pending[j].0
        &&& forall|i: int|
            0 <= i < self.pending.len() ==> (#[trigger] self.pending[i]).0 < self.next_id
        &&& self.pending.len() <= MAX_PENDING_CALLS
        &&& self.ping_outstanding matches Some(p) ==> p < self.next_id
        &&& forall|id: Seq<char>| #[trigger]
            self.entities.dom().contains(id) ==> self.entity_ids.contains(id)
    }
}

/// A connection at its start.
pub open spec fn fresh(token: Seq<char>, entity_ids: Seq<Seq<char>>) -> SessionV {
    SessionV {
        token,
        entity_ids,
        phase: Phase::AwaitAuthRequired,
        next_id: SUBSCRIBE_ID,
        entities: Map::empty(),
        pending: Seq::empty(),
        ping_outstanding: None,
        deadline: None,
        live_since: None,
        auth_rejected: false,
        snapshot_pending: true,
    }
}

/// The place of the unanswered call with this message id, or the number of calls.
pub open spec fn pending_place(p: Seq<(u64, u64)>, id: nat) -> int
    decreases p.len(),
{
    if p.len() == 0 || p[0].0 == id {
        0
    } else {
        1 + pending_place(p.drop_first(), id)
    }
}

/// How a session ended, for the reconnect policy: a rejected token counts before all else.
pub open spec fn end_of(s: SessionV, now: u64) -> SessionEnd {
    if s.auth_rejected {
        SessionEnd::AuthRejected
    } else {
        match s.live_since {
            Some(at) => SessionEnd::Live(since(at, now)),
            None => SessionEnd::NeverLive,
        }
    }
}

/// The outcome of the subscription.
pub open spec fn subscribe_result_step(s: SessionV, frame: JsonV, now: u64) -> (SessionV, StepV) {
    let (success, error) = result_of(frame);
    if !success {
        let why = match error {
            Some(e) => e,
            None => "unknown error"@,
        };
        (s, ending("subscribe_entities failed: "@ + why))
    } else if s.phase == Phase::Live {
        (s, idle())
    } else {
        (
            SessionV { phase: Phase::Live, deadline: None, live_since: Some(now), ..s },
            emitting(seq![HaEventV::Connected]),
        )
    }
}

/// The outcome of a call: it is answered once, and only if it was waiting for an answer.
pub open spec fn call_result_step(s: SessionV, id: nat, frame: JsonV) -> (SessionV, StepV) {
    let i = pending_place(s.pending, id);
    if i < s.pending.len() {
        let (success, error) = result_of(frame);
        (
            SessionV { pending: s.pending.remove(i), ..s },
            emitting(
                seq![HaEventV::CallResult { request: s.pending[i].1, success, error }],
            ),
        )
    } else {
        (s, idle())
    }
}

/// What the journal says of entities that a snapshot does not carry.
pub open spec fn missing_report(ids: Seq<Seq<char>>) -> Option<ReportV> {
    if ids.len() == 0 {
        None
    } else {
        Some(
            ReportV::Warn(
                decimal(ids.len())
                    + " subscribed entities are missing from Home Assistant, shown as unavailable: "@
                    + text::joined(ids, ", "@),
            ),
        )
    }
}

/// One event body: it is merged and every change reported. With the first `a` of the connection,
/// the snapshot, the subscribed ids missing from it are reported as removed, after the rest, and
/// listed in the journal.
pub open spec fn event_step(s: SessionV, event: JsonV) -> (SessionV, StepV) {
    let m = merged(s.entities, s.entity_ids, event);
    match members_at(event, "a"@) {
        Some(snapshot) if s.snapshot_pending => (
            SessionV { entities: m.entities, snapshot_pending: false, ..s },
            reporting(
                emitting(m.events + removals(missing(s.entity_ids, snapshot))),
                missing_report(missing(s.entity_ids, snapshot)),
            ),
        ),
        _ => (SessionV { entities: m.entities, ..s }, emitting(m.events)),
    }
}

/// What the journal says of a rejected token.
pub open spec fn rejection_text(frame: JsonV) -> Seq<char> {
    "Home Assistant rejected the access token: "@ + (match text_at(frame, "message"@) {
        Some(m) => m,
        None => "no message"@,
    }) + ". Fix HA_TOKEN in /etc/barclock.env and restart barclock"@
}

/// One frame from Home Assistant.
pub open spec fn frame_step(s: SessionV, frame: JsonV, now: u64) -> (SessionV, StepV) {
    let kind = match text_at(frame, "type"@) {
        Some(k) => k,
        None => Seq::empty(),
    };
    let id = natural_at(frame, "id"@);
    if kind == "auth_required"@ {
        if s.phase != Phase::AwaitAuthRequired {
            (s, idle())
        } else {
            (
                SessionV {
                    phase: Phase::AwaitAuthOk,
                    deadline: Some(later(now, HANDSHAKE_TIMEOUT)),
                    ..s
                },
                sending(rendered(auth_json(s.token))),
            )
        }
    } else if kind == "auth_ok"@ {
        if s.phase != Phase::AwaitAuthOk {
            (s, idle())
        } else {
            (
                SessionV {
                    phase: Phase::AwaitSubscribed,
                    next_id: (s.next_id + 1) as u64,
                    deadline: Some(later(now, HANDSHAKE_TIMEOUT)),
                    ..s
                },
                sending(rendered(subscribe_json(s.next_id, s.entity_ids))),
            )
        }
    } else if kind == "auth_invalid"@ {
        (
            SessionV { auth_rejected: true, ..s },
            reporting(
                ending("authentication failed (HA_TOKEN rejected)"@),
                Some(ReportV::Error(rejection_text(frame))),
            ),
        )
    } else if kind == "result"@ {
        match id {
            Some(id) => if id == SUBSCRIBE_ID {
                subscribe_result_step(s, frame, now)
            } else {
                call_result_step(s, id, frame)
            },
            None => (s, idle()),
        }
    } else if kind == "event"@ {
        match member(frame, "event"@) {
            Some(event) if id == Some(SUBSCRIBE_ID as nat) => event_step(s, event),
            _ => (s, idle()),
        }
    } else if kind == "pong"@ {
        match s.ping_outstanding {
            Some(p) if id == Some(p as nat) => (
                SessionV { ping_outstanding: None, deadline: None, ..s },
                idle(),
            ),
            _ => (s, idle()),
        }
    } else {
        (s, idle())
    }
}

/// One text from the socket, as it was read: what is not JSON is warned about and ignored.
pub open spec fn read_step(
    s: SessionV,
    read: Result<JsonV, Seq<char>>,
    t: Seq<char>,
    now: u64,
) -> (SessionV, StepV) {
    match read {
        Ok(frame) => frame_step(s, frame, now),
        Err(e) => (
            s,
            reporting(
                idle(),
                Some(
                    ReportV::Warn("ignoring non-JSON frame ("@ + e + "): "@ + excerpt_of(t)),
                ),
            ),
        ),
    }
}

/// One text from the socket.
pub open spec fn text_step(s: SessionV, t: Seq<char>, now: u64) -> (SessionV, StepV) {
    read_step(s, parsed(t), t, now)
}

/// One service call from the screen: refused unless the session is live and has room for it.
pub open spec fn call_step(s: SessionV, call: ServiceCallV) -> (SessionV, StepV) {
    if s.phase != Phase::Live {
        (s, emitting(seq![refused(call.request, "not connected"@)]))
    } else if s.pending.len() >= MAX_PENDING_CALLS {
        (
            s,
            reporting(
                emitting(seq![refused(call.request, "too many pending calls"@)]),
                Some(
                    ReportV::Warn(
                        decimal(s.pending.len()) + " service calls unanswered by Home Assistant"@,
                    ),
                ),
            ),
        )
    } else {
        (
            SessionV {
                next_id: (s.next_id + 1) as u64,
                pending: s.pending.push((s.next_id, call.request)),
                ..s
            },
            sending(rendered(call_json(s.next_id, call))),
        )
    }
}

/// Time for a ping: one at a time, and only on a live session.
pub open spec fn ping_step(s: SessionV, now: u64) -> (SessionV, StepV) {
    if s.phase != Phase::Live || s.ping_outstanding is Some {
        (s, idle())
    } else {
        (
            SessionV {
                next_id: (s.next_id + 1) as u64,
                ping_outstanding: Some(s.next_id),
                deadline: Some(later(now, PONG_TIMEOUT)),
                ..s
            },
            sending(rendered(ping_json(s.next_id))),
        )
    }
}

/// The answers to every unanswered call, in the order the calls were sent.
pub open spec fn failures(pending: Seq<(u64, u64)>, why: Seq<char>) -> Seq<HaEventV> {
    pending.map_values(|p: (u64, u64)| refused(p.1, why))
}

/// A message from the socket, as far as the session reads it.
#[derive(Debug, PartialEq)]
pub enum Incoming {
    Text(String),
    /// A binary message, a WebSocket ping or pong: nothing that the session reads.
    Other,
    /// The peer closed the connection, with a code and a reason or without.
    Close(Option<(String, String)>),
}

/// One message from the socket.
pub open spec fn message_step(s: SessionV, m: Incoming, now: u64) -> (SessionV, StepV) {
    match m {
        Incoming::Text(t) => text_step(s, t@, now),
        Incoming::Other => (s, idle()),
        Incoming::Close(Some((code, reason))) => (
            s,
            ending("closed by server ("@ + code@ + " "@ + text::debug_text(reason@) + ")"@),
        ),
        Incoming::Close(None) => (s, ending("closed by server"@)),
    }
}

/// The name of a phase.
pub open spec fn phase_text(p: Phase) -> Seq<char> {
    match p {
        Phase::AwaitAuthRequired => "AwaitAuthRequired"@,
        Phase::AwaitAuthOk => "AwaitAuthOk"@,
        Phase::AwaitSubscribed => "AwaitSubscribed"@,
        Phase::Live => "Live"@,
    }
}

/// The reason to drop a connection whose deadline has passed.
pub open spec fn deadline_text(p: Phase) -> Seq<char> {
    match p {
        Phase::Live => "no pong within 10s"@,
        _ => "handshake timed out in phase "@ + phase_text(p),
    }
}

/// A call that cannot be carried out is answered at once.
pub fn reject(call: &ServiceCall, why: &str) -> (r: HaEvent)
    ensures
        r@ == refused(call.request, why@),
{
    HaEvent::CallResult { request: call.request, success: false, error: Some(why.to_string()) }
}

fn find_pending(p: &Vec<(u64, u64)>, id: u64) -> (r: usize)
    ensures
        r == pending_place(p@, id as nat),
        r <= p@.len(),
{
    let mut i: usize = 0;
    assert(p@.skip(0) =~= p@);
    while i < p.len()
        invariant
            i <= p@.len(),
            pending_place(p@, id as nat) == i + pending_place(p@.skip(i as int), id as nat),
        decreases p@.len() - i,
    {
        assert(p@.skip(i as int)[0] == p@[i as int]);
        if p[i].0 == id {
            return i;
        }
        assert(p@.skip(i as int).drop_first() =~= p@.skip(i + 1));
        i = i + 1;
    }
    i
}

/// Every entity known is subscribed, and so is every entity that an event speaks of.
pub open spec fn keeps_to(m: Merge, subscribed: Seq<Seq<char>>) -> bool {
    &&& forall|id: Seq<char>| #[trigger] m.entities.dom().contains(id) ==> subscribed.contains(id)
    &&& forall|i: int| 0 <= i < m.events.len() ==> speaks_of(#[trigger] m.events[i], subscribed)
}

/// The event reports a change of one of these entities.
pub open spec fn speaks_of(e: HaEventV, subscribed: Seq<Seq<char>>) -> bool {
    match e {
        HaEventV::StateChanged { entity_id, .. } => subscribed.contains(entity_id),
        HaEventV::StateRemoved { entity_id } => subscribed.contains(entity_id),
        _ => false,
    }
}

proof fn lemma_add_subscribed(m: Merge, subscribed: Seq<Seq<char>>, added: Seq<(Seq<char>, JsonV)>)
    requires
        keeps_to(m, subscribed),
    ensures
        keeps_to(add_all(m, subscribed, added), subscribed),
    decreases added.len(),
{
    if added.len() > 0 {
        lemma_add_subscribed(m, subscribed, added.drop_last());
    }
}

proof fn lemma_change_subscribed(
    m: Merge,
    subscribed: Seq<Seq<char>>,
    changed: Seq<(Seq<char>, JsonV)>,
)
    requires
        keeps_to(m, subscribed),
    ensures
        keeps_to(change_all(m, subscribed, changed), subscribed),
    decreases changed.len(),
{
    if changed.len() > 0 {
        lemma_change_subscribed(m, subscribed, changed.drop_last());
    }
}

proof fn lemma_remove_subscribed(m: Merge, subscribed: Seq<Seq<char>>, removed: Seq<JsonV>)
    requires
        keeps_to(m, subscribed),
    ensures
        keeps_to(remove_all(m, subscribed, removed), subscribed),
    decreases removed.len(),
{
    if removed.len() > 0 {
        lemma_remove_subscribed(m, subscribed, removed.drop_last());
    }
}

/// Merging an event keeps to the subscribed entities.
pub proof fn lemma_merge_subscribed(
    entities: Map<Seq<char>, EntityV>,
    subscribed: Seq<Seq<char>>,
    event: JsonV,
)
    requires
        forall|id: Seq<char>| #[trigger] entities.dom().contains(id) ==> subscribed.contains(id),
    ensures
        keeps_to(merged(entities, subscribed, event), subscribed),
{
    let start = Merge { entities, events: Seq::empty() };
    let added = match members_at(event, "a"@) {
        Some(m) => add_all(start, subscribed, m),
        None => start,
    };
    if let Some(m) = members_at(event, "a"@) {
        lemma_add_subscribed(start, subscribed, m);
    }
    let changed = match members_at(event, "c"@) {
        Some(m) => change_all(added, subscribed, m),
        None => added,
    };
    if let Some(m) = members_at(event, "c"@) {
        lemma_change_subscribed(added, subscribed, m);
    }
    if let Some(r) = items_at(event, "r"@) {
        lemma_remove_subscribed(changed, subscribed, r);
    }
}

impl Session {
    /// A session on a new connection.
    pub fn new(token: &str, entity_ids: &Vec<String>) -> (r: Session)
        ensures
            r@ == fresh(token@, texts(entity_ids@)),
            r@.wf(),
    {
        let r = Session {
            token: token.to_string(),
            entity_ids: copy_texts(entity_ids),
            phase: Phase::AwaitAuthRequired,
            next_id: SUBSCRIBE_ID,
            entities: TextMap::new(),
            pending: Vec::new(),
            ping_outstanding: None,
            deadline: None,
            live_since: None,
            auth_rejected: false,
            snapshot_pending: true,
        };
        assert(r@ =~= fresh(token@, texts(entity_ids@)));
        r
    }

    /// The connection is up: the handshake has until the deadline.
    pub fn start(&mut self, now: u64)
        ensures
            final(self)@ == (SessionV {
                deadline: Some(later(now, HANDSHAKE_TIMEOUT)),
                ..old(self)@
            }),
    {
        self.deadline = Some(time::after(now, HANDSHAKE_TIMEOUT));
    }

    /// How this session ended, for the reconnect policy.
    pub fn end(&self, now: u64) -> (r: SessionEnd)
        ensures
            r == end_of(self@, now),
    {
        if self.auth_rejected {
            SessionEnd::AuthRejected
        } else {
            match self.live_since {
                Some(at) => SessionEnd::Live(time::elapsed(at, now)),
                None => SessionEnd::NeverLive,
            }
        }
    }

    fn next_id(&mut self) -> (id: u64)
        requires
            old(self).next_id < u64::MAX,
        ensures
            id == old(self).next_id,
            final(self)@ == (SessionV { next_id: (id + 1) as u64, ..old(self)@ }),
    {
        let id: u64 = self.next_id;
        self.next_id = id + 1;
        id
    }

    /// Fails every unanswered call, in the order they were sent, with `why`.
    pub fn fail_pending(&mut self, why: &str) -> (out: Vec<HaEvent>)
        ensures
            final(self)@ == (SessionV { pending: Seq::empty(), ..old(self)@ }),
            event_views(out@) == failures(old(self).pending@, why@),
    {
        let mut out: Vec<HaEvent> = Vec::new();
        let mut i: usize = 0;
        while i < self.pending.len()
            invariant
                i <= self.pending@.len(),
                event_views(out@) == failures(self.pending@, why@).take(i as int),
            decreases self.pending@.len() - i,
        {
            let ghost before = out@;
            let e = HaEvent::CallResult {
                request: self.pending[i].1,
                success: false,
                error: Some(why.to_string()),
            };
            out.push(e);
            proof {
                assert(event_views(out@) =~= event_views(before).push(e@));
                assert(failures(self.pending@, why@).take(i + 1) =~= failures(
                    self.pending@,
                    why@,
                ).take(i as int).push(e@));
            }
            i = i + 1;
        }
        assert(failures(self.pending@, why@).take(i as int) =~= failures(self.pending@, why@));
        self.pending = Vec::new();
        out
    }

    /// One message from the socket.
    pub fn on_message(&mut self, m: &Incoming, now: u64) -> (step: Step)
        requires
            old(self)@.wf(),
        ensures
            (final(self)@, step@) == message_step(old(self)@, *m, now),
            final(self)@.wf(),
    {
        match m {
            Incoming::Text(t) => self.on_text(t.as_str(), now),
            Incoming::Other => Step::idle(),
            Incoming::Close(Some((code, reason))) => {
                let mut e = text::concat("closed by server (", code.as_str());
                e.append(" ");
                let q = text::quoted(reason.as_str());
                e.append(q.as_str());
                e.append(")");
                Step::ending(e)
            },
            Incoming::Close(None) => Step::ending("closed by server".to_string()),
        }
    }

    /// One text from the socket.
    pub fn on_text(&mut self, t: &str, now: u64) -> (step: Step)
        requires
            old(self)@.wf(),
        ensures
            (final(self)@, step@) == text_step(old(self)@, t@, now),
            final(self)@.wf(),
    {
        match parse(t) {
            Ok(frame) => self.on_frame(&frame, now),
            Err(e) => {
                let mut m = text::concat("ignoring non-JSON frame (", e.as_str());
                m.append("): ");
                m.append(excerpt(t).as_str());
                Step::idle().reporting(Some(Report::Warn(m)))
            },
        }
    }

    /// One frame from Home Assistant.
    pub fn on_frame(&mut self, frame: &Json, now: u64) -> (step: Step)
        requires
            old(self)@.wf(),
        ensures
            (final(self)@, step@) == frame_step(old(self)@, frame@, now),
            final(self)@.wf(),
    {
        let kind = match frame.str_at("type") {
            Some(k) => k,
            None => "",
        };
        proof {
            reveal_strlit("");
            assert(""@ =~= Seq::empty());
        }
        let id = frame.u64_at("id");
        if same(kind, "auth_required") {
            match self.phase {
                Phase::AwaitAuthRequired => {
                    self.phase = Phase::AwaitAuthOk;
                    self.deadline = Some(time::after(now, HANDSHAKE_TIMEOUT));
                    Step::sending(auth_frame(self.token.as_str()))
                },
                _ => Step::idle(),
            }
        } else if same(kind, "auth_ok") {
            match self.phase {
                Phase::AwaitAuthOk => {
                    let id = self.next_id();
                    self.phase = Phase::AwaitSubscribed;
                    self.deadline = Some(time::after(now, HANDSHAKE_TIMEOUT));
                    let f = subscribe_frame(id, &self.entity_ids);
                    Step::sending(render(&f))
                },
                _ => Step::idle(),
            }
        } else if same(kind, "auth_invalid") {
            self.auth_rejected = true;
            let mut m = text::concat(
                "Home Assistant rejected the access token: ",
                match frame.str_at("message") {
                    Some(m) => m,
                    None => "no message",
                },
            );
            m.append(". Fix HA_TOKEN in /etc/barclock.env and restart barclock");
            Step::ending("authentication failed (HA_TOKEN rejected)".to_string()).reporting(
                Some(Report::Error(m)),
            )
        } else if same(kind, "result") {
            match id {
                Some(id) => if id == SUBSCRIBE_ID {
                    self.on_subscribe_result(frame, now)
                } else {
                    self.on_call_result(id, frame)
                },
                None => Step::idle(),
            }
        } else if same(kind, "event") {
            match frame.get("event") {
                Some(event) => match id {
                    Some(id) => if id == SUBSCRIBE_ID {
                        self.on_event(event)
                    } else {
                        Step::idle()
                    },
                    None => Step::idle(),
                },
                None => Step::idle(),
            }
        } else if same(kind, "pong") {
            match (id, self.ping_outstanding) {
                (Some(id), Some(p)) => {
                    if id == p {
                        self.ping_outstanding = None;
                        self.deadline = None;
                    }
                },
                _ => {},
            }
            Step::idle()
        } else {
            Step::idle()
        }
    }

    /// The answer to `subscribe_entities`.
    pub fn on_subscribe_result(&mut self, frame: &Json, now: u64) -> (step: Step)
        requires
            old(self)@.wf(),
        ensures
            (final(self)@, step@) == subscribe_result_step(old(self)@, frame@, now),
            final(self)@.wf(),
    {
        let (success, error) = parse_result(frame);
        if !success {
            let why = match error {
                Some(e) => e,
                None => "unknown error".to_string(),
            };
            return Step::ending(text::concat("subscribe_entities failed: ", why.as_str()));
        }
        match self.phase {
            Phase::Live => Step::idle(),
            _ => {
                self.phase = Phase::Live;
                self.deadline = None;
                self.live_since = Some(now);
                Step::emitting_one(HaEvent::Connected)
            },
        }
    }

    /// The answer to a call.
    fn on_call_result(&mut self, id: u64, frame: &Json) -> (step: Step)
        requires
            old(self)@.wf(),
        ensures
            (final(self)@, step@) == call_result_step(old(self)@, id as nat, frame@),
            final(self)@.wf(),
    {
        let i = find_pending(&self.pending, id);
        if i < self.pending.len() {
            let ghost s0 = self@;
            let ghost was = s0.pending;
            let (_, request) = self.pending.remove(i);
            let (success, error) = parse_result(frame);
            assert(self@.wf()) by {
                assert(self@.pending =~= was.remove(i as int));
                assert(self@.entities == s0.entities);
                assert forall|a: int, b: int|
                    #![trigger self@.pending[a], self@.pending[b]]
                    0 <= a < b < self@.pending.len() implies self@.pending[a].0
                    < self@.pending[b].0 by {
                    let x = if a < i { a } else { a + 1 };
                    let y = if b < i { b } else { b + 1 };
                    assert(self@.pending[a] == was[x]);
                    assert(self@.pending[b] == was[y]);
                }
                assert forall|a: int| 0 <= a < self@.pending.len() implies (
                #[trigger] self@.pending[a]).0 < self@.next_id by {
                    let x = if a < i { a } else { a + 1 };
                    assert(self@.pending[a] == was[x]);
                }
            }
            Step::emitting_one(HaEvent::CallResult { request, success, error })
        } else {
            Step::idle()
        }
    }

    /// One event body: merges it and reports every change. The first `a` of the connection is the
    /// snapshot: subscribed ids missing from it are reported as removed, after the rest.
    pub fn on_event(&mut self, event: &Json) -> (step: Step)
        requires
            old(self)@.wf(),
        ensures
            (final(self)@, step@) == event_step(old(self)@, event@),
            final(self)@.wf(),
    {
        let ghost s = self@;
        let mut changes = apply_event(&mut self.entities, &self.entity_ids, event);
        proof {
            lemma_merge_subscribed(s.entities, s.entity_ids, event@);
            assert(self@.entities == merged(s.entities, s.entity_ids, event@).entities);
            assert(self@.wf());
        }
        if self.snapshot_pending {
            match event.object_at("a") {
                Some(snapshot) => {
                    self.snapshot_pending = false;
                    let ids = missing_ids(&self.entity_ids, snapshot);
                    let mut gone = removal_events(&ids);
                    let ghost a = changes@;
                    let ghost b = gone@;
                    changes.append(&mut gone);
                    assert(event_views(changes@) =~= event_views(a) + event_views(b));
                    return Step::emitting(changes).reporting(missing_line(&ids));
                },
                None => {},
            }
        }
        Step::emitting(changes)
    }

    /// One service call from the screen.
    pub fn on_call(&mut self, call: &ServiceCall) -> (step: Step)
        requires
            old(self)@.wf(),
            old(self).next_id < u64::MAX,
        ensures
            (final(self)@, step@) == call_step(old(self)@, call@),
            final(self)@.wf(),
    {
        match self.phase {
            Phase::Live => {},
            _ => {
                return Step::emitting_one(reject(call, "not connected"));
            },
        }
        if self.pending.len() >= MAX_PENDING_CALLS {
            let mut m = text::decimal_text(self.pending.len() as u64);
            m.append(" service calls unanswered by Home Assistant");
            return Step::emitting_one(reject(call, "too many pending calls")).reporting(
                Some(Report::Warn(m)),
            );
        }
        let id = self.next_id();
        self.pending.push((id, call.request));
        let f = call_service_frame(id, call);
        Step::sending(render(&f))
    }

    /// Time for a ping.
    pub fn on_ping_tick(&mut self, now: u64) -> (step: Step)
        requires
            old(self)@.wf(),
            old(self).next_id < u64::MAX,
        ensures
            (final(self)@, step@) == ping_step(old(self)@, now),
            final(self)@.wf(),
    {
        match self.phase {
            Phase::Live => {},
            _ => {
                return Step::idle();
            },
        }
        if self.ping_outstanding.is_some() {
            return Step::idle();
        }
        let id = self.next_id();
        self.ping_outstanding = Some(id);
        self.deadline = Some(time::after(now, PONG_TIMEOUT));
        let f = ping_frame(id);
        Step::sending(render(&f))
    }

    /// The deadline has passed: why the connection is dropped.
    pub fn on_deadline(&self) -> (r: String)
        ensures
            r@ == deadline_text(self.phase),
    {
        match self.phase {
            Phase::AwaitAuthRequired => text::concat(
                "handshake timed out in phase ",
                "AwaitAuthRequired",
            ),
            Phase::AwaitAuthOk => text::concat("handshake timed out in phase ", "AwaitAuthOk"),
            Phase::AwaitSubscribed => text::concat(
                "handshake timed out in phase ",
                "AwaitSubscribed",
            ),
            Phase::Live => "no pong within 10s".to_string(),
        }
    }
}

/// The same texts again.
pub fn copy_texts(v: &Vec<String>) -> (r: Vec<String>)
    ensures
        texts(r@) == texts(v@),
{
    let mut out: Vec<String> = Vec::new();
    let mut i: usize = 0;
    while i < v.len()
        invariant
            i <= v@.len(),
            out@.len() == i,
            forall|k: int| 0 <= k < i ==> (#[trigger] out@[k])@ == v@[k]@,
        decreases v@.len() - i,
    {
        out.push(v[i].clone());
        i = i + 1;
    }
    assert(texts(out@) =~= texts(v@));
    out
}

// ---------------------------------------------------------------------------------------------
// For the log
// ---------------------------------------------------------------------------------------------

/// How many members or items a value has.
pub open spec fn size_of_json(j: JsonV) -> nat {
    match j {
        JsonV::Object(m) => m.len(),
        JsonV::Array(s) => s.len(),
        _ => 0,
    }
}

/// ` key=count` for a part of an event that is there.
pub open spec fn count_text(event: JsonV, key: Seq<char>) -> Seq<char> {
    match member(event, key) {
        Some(v) => " "@ + key + "="@ + decimal(size_of_json(v)),
        None => Seq::empty(),
    }
}

/// One line about a frame: its type, its id, and what an event or a result carries.
pub open spec fn described(frame: JsonV) -> Seq<char> {
    let kind = match text_at(frame, "type"@) {
        Some(k) => k,
        None => "?"@,
    };
    let id = match natural_at(frame, "id"@) {
        Some(n) => " id="@ + decimal(n),
        None => Seq::empty(),
    };
    let rest = if kind == "event"@ {
        match member(frame, "event"@) {
            Some(e) => count_text(e, "a"@) + count_text(e, "c"@) + count_text(e, "r"@),
            None => Seq::empty(),
        }
    } else if kind == "result"@ {
        " success="@ + if bool_at(frame, "success"@) == Some(true) {
            "true"@
        } else {
            "false"@
        }
    } else {
        Seq::empty()
    };
    kind + id + rest
}

fn push_count(s: &mut String, event: &Json, key: &str)
    ensures
        final(s)@ == old(s)@ + count_text(event@, key@),
{
    match event.get(key) {
        Some(v) => {
            let n: u64 = match v {
                Json::Object(m) => {
                    proof {
                        crate::json::lemma_object_view(*m);
                    }
                    m.len() as u64
                },
                Json::Array(a) => {
                    proof {
                        crate::json::lemma_array_view(*a);
                    }
                    a.len() as u64
                },
                _ => 0,
            };
            s.append(" ");
            s.append(key);
            s.append("=");
            text::push_decimal(s, n);
        },
        None => {},
    }
    assert(s@ =~= old(s)@ + count_text(event@, key@));
}

/// One line about a frame.
pub fn describe(frame: &Json) -> (r: String)
    ensures
        r@ == described(frame@),
{
    let kind = match frame.str_at("type") {
        Some(k) => k,
        None => "?",
    };
    let mut s = kind.to_string();
    match frame.u64_at("id") {
        Some(id) => {
            s.append(" id=");
            text::push_decimal(&mut s, id);
        },
        None => {},
    }
    if same(kind, "event") {
        match frame.get("event") {
            Some(e) => {
                push_count(&mut s, e, "a");
                push_count(&mut s, e, "c");
                push_count(&mut s, e, "r");
            },
            None => {},
        }
    } else if same(kind, "result") {
        s.append(" success=");
        match frame.bool_at("success") {
            Some(true) => s.append("true"),
            _ => s.append("false"),
        }
    }
    assert(s@ =~= described(frame@));
    s
}

/// The first `LOG_BODY_CHARS` characters, and how many bytes there are in all.
pub open spec fn excerpt_of(t: Seq<char>) -> Seq<char> {
    if t.len() <= LOG_BODY_CHARS {
        t
    } else {
        t.take(LOG_BODY_CHARS as int) + "… ("@ + decimal(vstd::utf8::encode_utf8(t).len())
            + " bytes)"@
    }
}

/// A frame body as the log shows it.
pub fn excerpt(t: &str) -> (r: String)
    ensures
        r@ == excerpt_of(t@),
{
    if t.unicode_len() <= LOG_BODY_CHARS {
        return t.to_string();
    }
    let mut s = t.substring_char(0, LOG_BODY_CHARS).to_string();
    s.append("… (");
    text::push_decimal(&mut s, t.as_bytes().len() as u64);
    s.append(" bytes)");
    assert(t@.subrange(0, LOG_BODY_CHARS as int) =~= t@.take(LOG_BODY_CHARS as int));
    assert(s@ =~= excerpt_of(t@));
    s
}

} // verus!
