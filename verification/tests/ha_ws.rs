use barclock::ha_ws::{
    apply_diff, apply_event, auth_frame, call_service_frame, connect_target, describe, excerpt,
    fault_reason, handshake_failure, missing_from_snapshot, parse_result, ping_frame, ping_interval,
    reject, subscribe_frame, subscription_ids, target_of, Backoff, Incoming, LinkFault, Phase,
    Reconnect, Report, Session, SessionEnd, Target, UpgradeError, UriParts, AUTH_RETRY, HANDSHAKE_TIMEOUT, LOG_BODY_CHARS,
    MAX_PENDING_CALLS, PONG_TIMEOUT, STABLE_SESSION, SUBSCRIBE_ID,
};
use barclock::json::{parse, render, Json};
use barclock::map::TextMap;
use barclock::types::{EntityState, HaEvent, ServiceCall};
use tokio_tungstenite::tungstenite::http::Response;
use tokio_tungstenite::tungstenite::Error as WsError;

fn json(t: &str) -> Json {
    parse(t).unwrap()
}

fn subs(ids: &[&str]) -> Vec<String> {
    ids.iter().map(|s| s.to_string()).collect()
}

fn attrs(pairs: &[(&str, Json)]) -> TextMap<Json> {
    let mut m = TextMap::new();
    for (k, v) in pairs {
        m.insert(k.to_string(), v.clone());
    }
    m
}

fn light(state: &str, brightness: u64) -> EntityState {
    EntityState {
        state: state.into(),
        attributes: attrs(&[("brightness", Json::number(brightness)), ("friendly_name", Json::text("Plafonnier"))]),
    }
}

fn bare(state: &str) -> EntityState {
    EntityState { state: state.into(), attributes: TextMap::new() }
}

fn changed(id: &str, state: EntityState) -> HaEvent {
    HaEvent::StateChanged { entity_id: id.into(), state }
}

fn removed(id: &str) -> HaEvent {
    HaEvent::StateRemoved { entity_id: id.into() }
}

fn known_light() -> (TextMap<EntityState>, Vec<String>) {
    let mut map = TextMap::new();
    map.insert("light.a".to_string(), light("on", 50));
    (map, subs(&["light.a", "sensor.a", "sensor.b"]))
}

/// The same members, whatever their order.
fn same_json(a: &Json, t: &str) {
    assert_eq!(render(a), render(&json(t)));
}

#[test]
fn add_replaces_the_whole_entity() {
    let (mut map, subs) = known_light();
    let ev = json(r#"{"a": {"light.a": {"s": "off", "a": {"color_mode": "brightness"}, "lc": 1.0, "lu": 1.0, "c": "ctx"}}}"#);
    let out = apply_event(&mut map, &subs, &ev);
    let expected = EntityState { state: "off".into(), attributes: attrs(&[("color_mode", Json::text("brightness"))]) };
    assert_eq!(out, vec![changed("light.a", expected.clone())]);
    assert_eq!(map.get("light.a"), Some(&expected));
}

#[test]
fn change_with_plus_only_merges_state_and_attributes() {
    let (mut map, subs) = known_light();
    let ev = json(
        r#"{"c": {"light.a": {"+": {"s": "on", "a": {"brightness": 200, "effect": "none"}, "lu": 2.0,
            "c": {"id": "x", "parent_id": null, "user_id": null}}}}}"#,
    );
    let out = apply_event(&mut map, &subs, &ev);
    let expected = EntityState {
        state: "on".into(),
        attributes: attrs(&[
            ("brightness", Json::number(200)),
            ("friendly_name", Json::text("Plafonnier")),
            ("effect", Json::text("none")),
        ]),
    };
    assert_eq!(out, vec![changed("light.a", expected.clone())]);
    assert_eq!(map.get("light.a").unwrap(), &expected);
}

#[test]
fn change_with_minus_only_removes_attributes() {
    let (mut map, subs) = known_light();
    let ev = json(r#"{"c": {"light.a": {"-": {"a": ["brightness", "not_there"]}}}}"#);
    let out = apply_event(&mut map, &subs, &ev);
    let expected = EntityState { state: "on".into(), attributes: attrs(&[("friendly_name", Json::text("Plafonnier"))]) };
    assert_eq!(out, vec![changed("light.a", expected.clone())]);
    assert_eq!(map.get("light.a").unwrap(), &expected);
}

#[test]
fn state_only_change_keeps_attributes() {
    let (mut map, subs) = known_light();
    let ev = json(r#"{"c": {"light.a": {"+": {"s": "off", "lu": 3.0, "c": "ctx"}}}}"#);
    let out = apply_event(&mut map, &subs, &ev);
    let expected = light("off", 50);
    assert_eq!(out, vec![changed("light.a", expected.clone())]);
    assert_eq!(map.get("light.a").unwrap(), &expected);
}

#[test]
fn multiple_entities_in_one_event_emit_in_order() {
    let (mut map, subs) = known_light();
    let ev = json(
        r#"{"a": {
            "sensor.a": {"s": "1.5", "a": {"unit_of_measurement": "W"}},
            "sensor.b": {"s": "unavailable", "a": {}}
        }}"#,
    );
    let out = apply_event(&mut map, &subs, &ev);
    assert_eq!(
        out,
        vec![
            changed(
                "sensor.a",
                EntityState { state: "1.5".into(), attributes: attrs(&[("unit_of_measurement", Json::text("W"))]) }
            ),
            changed("sensor.b", bare("unavailable")),
        ]
    );
    assert_eq!(map.keys().len(), 3);
    assert_eq!(map.get("sensor.a").unwrap().state.trim().parse::<f64>(), Ok(1.5));
}

#[test]
fn remove_drops_entity_and_ignores_unknown_ids() {
    let (mut map, subs) = known_light();
    let ev = json(r#"{"r": ["light.a", "light.unsubscribed", 7, null]}"#);
    let out = apply_event(&mut map, &subs, &ev);
    assert_eq!(out, vec![removed("light.a")]);
    assert!(map.is_empty());
}

#[test]
fn change_for_unseen_entity_creates_it() {
    let (mut map, subs) = known_light();
    let ev = json(r#"{"c": {"sensor.a": {"+": {"s": "42"}}}}"#);
    let out = apply_event(&mut map, &subs, &ev);
    assert_eq!(out, vec![changed("sensor.a", bare("42"))]);
}

#[test]
fn unsubscribed_and_malformed_input_never_panics() {
    let (mut map, subs) = known_light();
    assert!(apply_event(&mut map, &subs, &json(r#"{"a": {"light.other": {"s": "on", "a": {}}}}"#)).is_empty());
    assert!(apply_event(&mut map, &subs, &json(r#""string""#)).is_empty());
    assert!(apply_event(&mut map, &subs, &json(r#"{"a": [1, 2], "c": 5, "r": {"x": 1}}"#)).is_empty());
    // Garbage inside a diff leaves the entity untouched but still reports it.
    let out = apply_event(&mut map, &subs, &json(r#"{"c": {"light.a": {"+": "garbage", "-": {"a": "notalist"}}}}"#));
    assert_eq!(out, vec![changed("light.a", light("on", 50))]);
    assert_eq!(map.keys().len(), 1);
}

#[test]
fn bare_scalars_are_tolerated_as_states() {
    let (mut map, subs) = known_light();
    let ev = json(r#"{"a": {"light.a": {"s": true}, "sensor.a": {"s": 1.50}, "sensor.b": {"s": [1]}}}"#);
    let out = apply_event(&mut map, &subs, &ev);
    assert_eq!(out, vec![changed("light.a", bare("true")), changed("sensor.a", bare("1.5")), changed("sensor.b", bare(""))]);
}

#[test]
fn call_service_frame_with_data() {
    let call = ServiceCall {
        request: 9,
        domain: "light".into(),
        service: "turn_on".into(),
        service_data: json(r#"{"brightness_pct": 50}"#),
        entity_ids: vec!["light.a".into(), "light.b".into()],
    };
    let frame = call_service_frame(7, &call);
    same_json(
        &frame,
        r#"{
            "id": 7, "type": "call_service", "domain": "light", "service": "turn_on",
            "service_data": {"brightness_pct": 50},
            "target": {"entity_id": ["light.a", "light.b"]}
        }"#,
    );
}

#[test]
fn call_service_frame_without_data() {
    let mut call = ServiceCall {
        request: 1,
        domain: "switch".into(),
        service: "toggle".into(),
        service_data: Json::Null,
        entity_ids: vec!["switch.a".into()],
    };
    let expected = r#"{"id": 3, "type": "call_service", "domain": "switch", "service": "toggle",
        "target": {"entity_id": ["switch.a"]}}"#;
    same_json(&call_service_frame(3, &call), expected);
    call.service_data = json("{}");
    same_json(&call_service_frame(3, &call), expected);
    assert!(call_service_frame(3, &call).get("service_data").is_none());
}

#[test]
fn result_parsing() {
    assert_eq!(parse_result(&json(r#"{"id": 2, "type": "result", "success": true, "result": null}"#)), (true, None));
    assert_eq!(
        parse_result(&json(
            r#"{"id": 2, "type": "result", "success": false,
            "error": {"code": "not_found", "message": "Service light.nope not found."}}"#
        )),
        (false, Some("Service light.nope not found.".into()))
    );
    assert_eq!(
        parse_result(&json(r#"{"id": 2, "type": "result", "success": false, "error": {"code": "unknown_error"}}"#)),
        (false, Some("unknown_error".into()))
    );
    assert_eq!(parse_result(&json(r#"{"id": 2, "type": "result", "success": false}"#)), (false, None));
    assert_eq!(parse_result(&json(r#"{"id": 2, "type": "result"}"#)), (false, None));
}

#[test]
fn handshake_frames() {
    let auth = json(&auth_frame("s3cret"));
    same_json(&auth, r#"{"type": "auth", "access_token": "s3cret"}"#);
    let ids = vec!["light.a".to_string(), "sensor.b".to_string()];
    same_json(
        &subscribe_frame(SUBSCRIBE_ID, &ids),
        r#"{"id": 1, "type": "subscribe_entities", "entity_ids": ["light.a", "sensor.b"]}"#,
    );
    same_json(&ping_frame(12), r#"{"id": 12, "type": "ping"}"#);
}

#[test]
fn log_helpers() {
    let ev = json(r#"{"id": 1, "type": "event", "event": {"c": {"light.a": {}}, "r": ["x", "y"]}}"#);
    assert_eq!(describe(&ev), "event id=1 c=1 r=2");
    assert_eq!(describe(&json(r#"{"id": 4, "type": "result", "success": true}"#)), "result id=4 success=true");
    assert_eq!(describe(&json("null")), "?");
    let long = "é".repeat(LOG_BODY_CHARS + 3);
    let cut = excerpt(&long);
    assert!(cut.starts_with(&"é".repeat(LOG_BODY_CHARS)));
    assert!(cut.ends_with(&format!("… ({} bytes)", long.len())));
    assert_eq!(excerpt("short"), "short");
}

// ---- reconnect policy ----

fn secs(s: u64) -> u64 {
    s * 1_000_000_000
}

#[test]
fn backoff_doubles_to_max_while_never_live() {
    let mut b = Backoff::new(secs(1), secs(30));
    let delays: Vec<u64> = (0..8).map(|_| b.delay_after(SessionEnd::NeverLive) / secs(1)).collect();
    assert_eq!(delays, vec![1, 2, 4, 8, 16, 30, 30, 30]);
}

#[test]
fn backoff_keeps_climbing_when_the_session_died_young() {
    // Connected, then a deterministic drop within seconds, forever.
    let mut b = Backoff::new(secs(1), secs(30));
    let delays: Vec<u64> = (0..7).map(|_| b.delay_after(SessionEnd::Live(secs(3))) / secs(1)).collect();
    assert_eq!(delays, vec![1, 2, 4, 8, 16, 30, 30]);
    // Just under the stability bar still counts as unstable.
    assert_eq!(b.delay_after(SessionEnd::Live(STABLE_SESSION - 1_000_000)), secs(30));
}

#[test]
fn backoff_resets_after_a_stable_session() {
    let mut b = Backoff::new(secs(1), secs(30));
    for _ in 0..5 {
        b.delay_after(SessionEnd::NeverLive);
    }
    assert_eq!(b.delay_after(SessionEnd::NeverLive), secs(30));
    assert_eq!(b.delay_after(SessionEnd::Live(STABLE_SESSION)), secs(1));
    assert_eq!(b.delay_after(SessionEnd::Live(secs(5))), secs(2));
    assert_eq!(b.delay_after(SessionEnd::Live(secs(3600))), secs(1));
}

#[test]
fn auth_rejected_waits_long_without_doubling() {
    let mut b = Backoff::new(secs(1), secs(30));
    assert_eq!(b.delay_after(SessionEnd::NeverLive), secs(1));
    assert_eq!(b.delay_after(SessionEnd::AuthRejected), AUTH_RETRY);
    assert_eq!(b.delay_after(SessionEnd::AuthRejected), AUTH_RETRY);
    assert!(AUTH_RETRY >= secs(15 * 60));
    // The climb resumes where it was, it's neither reset nor advanced by a rejected token.
    assert_eq!(b.delay_after(SessionEnd::NeverLive), secs(2));
}

#[test]
fn backoff_tolerates_inverted_bounds() {
    let mut b = Backoff::new(secs(10), secs(2));
    assert_eq!(b.delay_after(SessionEnd::NeverLive), secs(10));
    assert_eq!(b.delay_after(SessionEnd::NeverLive), secs(10));
}

#[test]
fn backoff_does_not_overflow() {
    let mut b = Backoff::new(u64::MAX / 2 + 1, u64::MAX);
    assert_eq!(b.delay_after(SessionEnd::NeverLive), u64::MAX / 2 + 1);
    assert_eq!(b.delay_after(SessionEnd::NeverLive), u64::MAX);
}

#[test]
fn a_repeated_reason_is_warned_about_once() {
    let mut r = Reconnect::new(0, 99_999);
    assert_eq!(r.backoff, Backoff::new(secs(1), secs(3600)));
    let o = r.ended(SessionEnd::NeverLive, "refused".into());
    assert!(o.warn && o.event.is_none());
    assert_eq!(o.delay, secs(1));
    assert!(!r.ended(SessionEnd::NeverLive, "refused".into()).warn);
    assert!(r.ended(SessionEnd::NeverLive, "no route".into()).warn);
    let o = r.ended(SessionEnd::Live(secs(1)), "lost".into());
    assert_eq!(o.event, Some(HaEvent::Disconnected { reason: "lost".into() }));
    assert!(r.ended(SessionEnd::NeverLive, "no route".into()).warn);
    let o = r.ended(SessionEnd::AuthRejected, "token".into());
    assert_eq!(o.delay, AUTH_RETRY);
    assert!(o.warn && o.event.is_none());
    assert_eq!(ping_interval(1), secs(5));
    assert_eq!(ping_interval(30), secs(30));
    assert_eq!(ping_interval(u64::MAX), secs(3600));
}

#[test]
fn blank_ids_are_not_subscribed_to() {
    assert_eq!(subscription_ids(&subs(&["a", " ", "", "b"])), subs(&["a", "b"]));
    assert!(subscription_ids(&subs(&["\t"])).is_empty());
}

#[test]
fn session_end_reflects_auth_and_liveness() {
    let ids = vec!["light.a".to_string()];
    let mut s = Session::new("t", &ids);
    assert_eq!(s.end(secs(9)), SessionEnd::NeverLive);
    s.live_since = Some(secs(9));
    assert!(matches!(s.end(secs(9) + 7), SessionEnd::Live(d) if d < secs(5)));
    assert_eq!(s.end(secs(69)), SessionEnd::Live(secs(60)));
    // auth_invalid wins even if the flags disagree.
    s.auth_rejected = true;
    assert_eq!(s.end(secs(9)), SessionEnd::AuthRejected);
}

// ---- handshake failures ----

/// What an upgrade error says, as far as the reason needs it.
fn upgrade(e: &WsError) -> UpgradeError {
    match e {
        WsError::Http(response) => UpgradeError::Http {
            code: response.status().as_u16(),
            status: response.status().to_string(),
        },
        other => UpgradeError::Other(other.to_string()),
    }
}

#[test]
fn http_403_upgrade_gets_the_ip_ban_hint() {
    let forbidden = Response::builder().status(403).body(None).unwrap();
    let reason = handshake_failure(&upgrade(&WsError::Http(Box::new(forbidden))));
    assert!(reason.starts_with("WebSocket handshake rejected with HTTP 403"), "{reason}");
    assert!(reason.contains("ip_bans.yaml"), "{reason}");
    assert!(reason.contains("banned"), "{reason}");

    let not_found = Response::builder().status(404).body(None).unwrap();
    let reason = handshake_failure(&upgrade(&WsError::Http(Box::new(not_found))));
    assert_eq!(reason, "WebSocket handshake rejected with HTTP 404 Not Found");

    let reason = handshake_failure(&upgrade(&WsError::ConnectionClosed));
    assert!(reason.starts_with("WebSocket handshake: "), "{reason}");
    assert!(!reason.contains("banned"));
}

// ---- where to connect ----

#[test]
fn targets_come_from_urls() {
    let t = |secure: bool, host: &str, port: u16| Ok(Target { secure, host: host.into(), port });
    assert_eq!(connect_target("wss://ha.example/api/websocket"), t(true, "ha.example", 443));
    assert_eq!(connect_target("ws://ha.example:8123/api/websocket"), t(false, "ha.example", 8123));
    assert_eq!(connect_target("WS://ha.example"), t(false, "ha.example", 80));
    assert_eq!(connect_target("ws://[::1]:8123/x"), t(false, "::1", 8123));
    assert_eq!(
        connect_target("http://ha.example/"),
        Err("homeassistant.url scheme Some(\"http\") is not ws:// or wss://".into())
    );
    assert_eq!(
        connect_target("not a url"),
        Err("invalid homeassistant.url: HTTP format error: invalid uri character: invalid uri character".into())
    );
    assert_eq!(
        connect_target("/no/host"),
        Err("invalid homeassistant.url: URL error: No host name in the URL: No host name in the URL".into())
    );
    let parts = |s: Option<&str>, h: Option<&str>| UriParts {
        scheme: s.map(|s| s.to_string()),
        host: h.map(|h| h.to_string()),
        port: None,
    };
    assert_eq!(
        target_of(&parts(None, Some("h"))),
        Err("homeassistant.url scheme None is not ws:// or wss://".into())
    );
    assert_eq!(target_of(&parts(Some("wss"), None)), Err("homeassistant.url has no host".into()));
    assert_eq!(target_of(&parts(Some("wss"), Some("[]"))), Err("homeassistant.url has no host".into()));
}

// ---- snapshot pruning ----

#[test]
fn missing_from_snapshot_is_in_subscription_order_without_duplicates() {
    let ids = subs(&["light.a", "sensor.a", "sensor.b", "light.a", "switch.c"]);
    let snapshot = json(r#"{"sensor.a": {"s": "1"}, "light.unsubscribed": {"s": "on"}}"#);
    let out = missing_from_snapshot(&ids, snapshot.as_object().unwrap());
    assert_eq!(out, vec![removed("light.a"), removed("sensor.b"), removed("switch.c")]);
    let full = json(r#"{"light.a": {}, "sensor.a": {}, "sensor.b": {}, "switch.c": {}}"#);
    assert!(missing_from_snapshot(&ids, full.as_object().unwrap()).is_empty());
    assert!(missing_from_snapshot(&vec![], snapshot.as_object().unwrap()).is_empty());
}

#[test]
fn first_snapshot_of_a_session_reports_vanished_entities_once() {
    let ids = subs(&["light.a", "sensor.a", "sensor.b"]);
    let mut s = Session::new("t", &ids);

    // A `c` before the snapshot (can't happen on the wire, but must not consume the snapshot).
    let step = s.on_event(&json(r#"{"c": {"sensor.a": {"+": {"s": "1"}}}}"#));
    assert_eq!(step.emit, vec![changed("sensor.a", bare("1"))]);
    assert!(s.snapshot_pending);

    // The snapshot: light.a was renamed while we were away. Adds first, then the removals.
    let step = s.on_event(&json(r#"{"a": {"sensor.a": {"s": "2", "a": {}}, "sensor.b": {"s": "3", "a": {}}}}"#));
    assert_eq!(step.emit, vec![changed("sensor.a", bare("2")), changed("sensor.b", bare("3")), removed("light.a")]);
    assert!(!s.snapshot_pending);
    assert!(!s.entities.contains_key("light.a"));

    // A later `a` (entity created again) is a plain add: nothing else is pruned.
    let step = s.on_event(&json(r#"{"a": {"light.a": {"s": "on", "a": {}}}}"#));
    assert_eq!(step.emit, vec![changed("light.a", bare("on"))]);

    // An empty snapshot on a fresh session prunes everything, in subscription order.
    let mut s = Session::new("t", &ids);
    let step = s.on_event(&json(r#"{"a": {}}"#));
    assert_eq!(step.emit, vec![removed("light.a"), removed("sensor.a"), removed("sensor.b")]);
    assert_eq!(
        step.report,
        Some(Report::Warn(
            "3 subscribed entities are missing from Home Assistant, shown as unavailable: light.a, sensor.a, sensor.b".into()
        ))
    );
    // A malformed `a` isn't a snapshot and leaves the pruning for the real one.
    let mut s = Session::new("t", &ids);
    let step = s.on_event(&json(r#"{"a": [1, 2]}"#));
    assert!(step.emit.is_empty());
    assert!(s.snapshot_pending);
}

// ---- a whole session ----

fn call(request: u64) -> ServiceCall {
    ServiceCall {
        request,
        domain: "light".into(),
        service: "toggle".into(),
        service_data: Json::Null,
        entity_ids: vec!["light.a".into()],
    }
}

fn live() -> Session {
    let mut s = Session::new("t0k", &subs(&["light.a"]));
    s.start(0);
    s.on_text(r#"{"type":"auth_required"}"#, 0);
    s.on_text(r#"{"type":"auth_ok","ha_version":"1"}"#, 0);
    s.on_text(r#"{"id":1,"type":"result","success":true,"result":null}"#, secs(1));
    s
}

#[test]
fn a_session_from_handshake_to_live() {
    let mut s = Session::new("t0k", &subs(&["light.a"]));
    s.start(100);
    assert_eq!(s.deadline, Some(100 + HANDSHAKE_TIMEOUT));
    assert_eq!(s.on_deadline(), "handshake timed out in phase AwaitAuthRequired");
    // nothing but auth_required gets the token
    let step = s.on_text("not json", 5);
    assert_eq!((step.send, step.end), (None, None));
    assert!(matches!(step.report, Some(Report::Warn(t))
        if t.starts_with("ignoring non-JSON frame (expected ident") && t.ends_with("): not json")));
    assert_eq!(s.on_text(r#"{"type":"auth_ok"}"#, 5).send, None);
    let step = s.on_text(r#"{"type":"auth_required"}"#, 5);
    assert_eq!(step.send.as_deref(), Some(r#"{"access_token":"t0k","type":"auth"}"#));
    assert_eq!(s.phase, Phase::AwaitAuthOk);
    assert_eq!(s.on_text(r#"{"type":"auth_required"}"#, 6).send, None);
    let step = s.on_text(r#"{"type":"auth_ok"}"#, 7);
    assert_eq!(step.send.as_deref(), Some(r#"{"entity_ids":["light.a"],"id":1,"type":"subscribe_entities"}"#));
    assert_eq!(s.next_id, 2);
    assert_eq!(s.on_call(&call(4)).emit, vec![reject(&call(4), "not connected")]);
    let step = s.on_text(r#"{"id":1,"type":"result","success":true}"#, 8);
    assert_eq!(step.emit, vec![HaEvent::Connected]);
    assert_eq!((s.phase, s.deadline, s.live_since), (Phase::Live, None, Some(8)));
    // a duplicate says nothing
    assert!(s.on_text(r#"{"id":1,"type":"result","success":true}"#, 9).emit.is_empty());
    assert_eq!(s.live_since, Some(8));
    assert_eq!(s.on_deadline(), "no pong within 10s");
}

#[test]
fn a_rejected_token_ends_the_session() {
    let mut s = Session::new("t", &subs(&["light.a"]));
    let step = s.on_text(r#"{"type":"auth_invalid","message":"no"}"#, 0);
    assert_eq!(step.end.as_deref(), Some("authentication failed (HA_TOKEN rejected)"));
    assert_eq!(
        step.report,
        Some(Report::Error(
            "Home Assistant rejected the access token: no. Fix HA_TOKEN in /etc/barclock.env and restart barclock".into()
        ))
    );
    assert_eq!(s.end(secs(5)), SessionEnd::AuthRejected);
    assert!(matches!(s.on_text(r#"{"type":"auth_invalid"}"#, 0).report, Some(Report::Error(t))
        if t.starts_with("Home Assistant rejected the access token: no message. ")));
}

#[test]
fn faults_in_words() {
    assert_eq!(fault_reason(&LinkFault::ConnectTimeout(20)), "connect timed out after 20s");
    assert_eq!(fault_reason(&LinkFault::Closed), "connection closed");
    assert_eq!(fault_reason(&LinkFault::Socket("x".into())), "socket error: x");
    assert_eq!(fault_reason(&LinkFault::Flush("x".into())), "pong flush failed: x");
    assert_eq!(fault_reason(&LinkFault::Send("x".into())), "send failed: x");
}

#[test]
fn a_diff_twice_is_a_diff_once() {
    let diff = json(r#"{"+":{"s":"on","a":{"x":1,"y":2}},"-":{"a":["y","z",3]}}"#);
    let mut once = EntityState { state: "off".into(), attributes: attrs(&[("z", json("0")), ("w", json("5"))]) };
    apply_diff(&mut once, &diff);
    assert_eq!(once, EntityState { state: "on".into(), attributes: attrs(&[("x", json("1")), ("w", json("5"))]) });
    let mut twice = once.clone();
    apply_diff(&mut twice, &diff);
    assert_eq!(twice, once);
}

#[test]
fn a_refused_subscription_ends_the_session() {
    let mut s = Session::new("t", &subs(&["light.a"]));
    let step = s.on_text(r#"{"id":1,"type":"result","success":false,"error":{"message":"nope"}}"#, 0);
    assert_eq!(step.end.as_deref(), Some("subscribe_entities failed: nope"));
    let step = s.on_text(r#"{"id":1,"type":"result"}"#, 0);
    assert_eq!(step.end.as_deref(), Some("subscribe_entities failed: unknown error"));
}

#[test]
fn calls_are_answered_once_and_failed_in_order() {
    let mut s = live();
    let step = s.on_call(&call(70));
    assert_eq!(
        step.send.as_deref(),
        Some(r#"{"domain":"light","id":2,"service":"toggle","target":{"entity_id":["light.a"]},"type":"call_service"}"#)
    );
    s.on_call(&call(60));
    s.on_call(&call(50));
    assert_eq!(s.pending, vec![(2, 70), (3, 60), (4, 50)]);
    let step = s.on_text(r#"{"id":3,"type":"result","success":true}"#, 0);
    assert_eq!(step.emit, vec![HaEvent::CallResult { request: 60, success: true, error: None }]);
    let again = s.on_text(r#"{"id":3,"type":"result","success":true}"#, 0);
    assert!(again.emit.is_empty() && again.send.is_none() && again.end.is_none());
    assert_eq!(s.pending, vec![(2, 70), (4, 50)]);
    assert!(s.on_text(r#"{"id":9,"type":"result","success":true}"#, 0).emit.is_empty());
    assert_eq!(s.fail_pending("disconnected"), vec![reject(&call(70), "disconnected"), reject(&call(50), "disconnected")]);
    assert!(s.pending.is_empty());
    for i in 0..MAX_PENDING_CALLS as u64 {
        assert!(s.on_call(&call(i)).send.is_some());
    }
    let step = s.on_call(&call(999));
    assert_eq!(step.emit, vec![reject(&call(999), "too many pending calls")]);
    assert_eq!(step.report, Some(Report::Warn("256 service calls unanswered by Home Assistant".into())));
    assert_eq!(step.send, None);
}

#[test]
fn one_ping_at_a_time() {
    let mut s = live();
    let step = s.on_ping_tick(secs(9));
    assert_eq!(step.send.as_deref(), Some(r#"{"id":2,"type":"ping"}"#));
    assert_eq!(s.deadline, Some(secs(9) + PONG_TIMEOUT));
    assert_eq!(s.on_ping_tick(secs(10)).send, None);
    s.on_text(r#"{"id":7,"type":"pong"}"#, secs(10));
    assert_eq!(s.ping_outstanding, Some(2));
    s.on_text(r#"{"id":2,"type":"pong"}"#, secs(10));
    assert_eq!((s.ping_outstanding, s.deadline), (None, None));
    assert!(s.on_ping_tick(secs(11)).send.is_some());
    let mut early = Session::new("t", &subs(&["light.a"]));
    assert_eq!(early.on_ping_tick(0).send, None);
}

#[test]
fn messages_other_than_text() {
    let mut s = live();
    assert_eq!(s.on_message(&Incoming::Other, 0).end, None);
    let step = s.on_message(&Incoming::Close(Some(("Normal".into(), "by\"e".into()))), 0);
    assert_eq!(step.end.as_deref(), Some("closed by server (Normal \"by\\\"e\")"));
    assert_eq!(s.on_message(&Incoming::Close(None), 0).end.as_deref(), Some("closed by server"));
    let event = Incoming::Text(r#"{"id":1,"type":"event","event":{"c":{"light.a":{"+":{"s":"on"}}}}}"#.into());
    assert_eq!(s.on_message(&event, 0).emit, vec![changed("light.a", bare("on"))]);
    // events of another subscription, or without a body, are ignored
    assert!(s.on_text(r#"{"id":2,"type":"event","event":{"r":["light.a"]}}"#, 0).emit.is_empty());
    assert!(s.on_text(r#"{"id":1,"type":"event"}"#, 0).emit.is_empty());
}
