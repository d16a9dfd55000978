use barclock::config::Mqtt;
use barclock::json::{parse as parse_json, render, Json};
use barclock::mqtt_light::{
    clamp_brightness, clamp_keepalive, connect_hint, decode_command, discovery_payload,
    parse_command, payload_preview, refusal_consequence, refusal_reason, retry_delay, state_payload,
    subscription_refused, Action, Command, CommandError, ConnectFailure, LightLink, Outage,
    OutageLog, SubscribeCode, SubscribePkids, Topics, LOG_PAYLOAD_CHARS, MIN_KEEPALIVE_S,
    RESTORE_WINDOW, SUBSCRIPTIONS, SW_VERSION,
};
use barclock::types::{LightCommand, LightState};

fn cfg() -> Mqtt {
    Mqtt::default()
}

fn parse(s: &str) -> Result<Command, CommandError> {
    parse_command(s.as_bytes())
}

fn seconds(c: &Command) -> Option<f32> {
    c.transition.as_ref().map(|t| t.parse().unwrap())
}

#[test]
fn topics_follow_the_config() {
    let t = Topics::from_cfg(&cfg());
    assert_eq!(t.config, "homeassistant/light/barclock_display/config");
    assert_eq!(t.state, "barclock/display/state");
    assert_eq!(t.command, "barclock/display/set");
    assert_eq!(t.availability, "barclock/display/availability");

    let custom = Mqtt {
        discovery_prefix: "ha/".into(),
        base_topic: "bar/clock/".into(),
        unique_id: "bar_1".into(),
        ..Mqtt::default()
    };
    let t = Topics::from_cfg(&custom);
    assert_eq!(t.config, "ha/light/bar_1/config");
    assert_eq!(t.state, "bar/clock/state");
    assert_eq!(t.command, "bar/clock/set");
    assert_eq!(t.availability, "bar/clock/availability");
}

#[test]
fn subscriptions_are_issued_in_a_fixed_order() {
    let t = Topics::from_cfg(&cfg());
    assert_eq!(
        t.subscriptions(),
        ["barclock/display/set", "barclock/display/state", "homeassistant/status"]
    );
    // Every slot has a consequence text for the refusal warn. Out of range never panics.
    for i in 0..SUBSCRIPTIONS {
        assert_ne!(refusal_consequence(i), "unknown subscription");
    }
    assert_eq!(refusal_consequence(SUBSCRIPTIONS), "unknown subscription");
    assert_eq!(refusal_consequence(usize::MAX), "unknown subscription");
}

#[test]
fn suback_pkids_map_back_to_the_issue_order() {
    let mut subs = SubscribePkids::default();
    assert_eq!(subs.index_of(7), None);
    assert!(subs.sent(7));
    assert!(subs.sent(8));
    assert!(subs.sent(9));
    // A fourth subscribe was never issued: refused, nothing overwritten.
    assert!(!subs.sent(10));
    assert_eq!(subs.index_of(7), Some(0));
    assert_eq!(subs.index_of(8), Some(1));
    assert_eq!(subs.index_of(9), Some(2));
    assert_eq!(subs.index_of(10), None);
    assert_eq!(subs.index_of(0), None);
    // A new session starts from scratch (the broker may reuse packet ids).
    subs.reset();
    assert_eq!(subs.index_of(8), None);
    assert!(subs.sent(8));
    assert_eq!(subs.index_of(8), Some(0));
}

#[test]
fn subscription_refusal_is_detected() {
    let (failure, granted) = (SubscribeCode::Failure, SubscribeCode::Granted);
    assert!(!subscription_refused(&[granted]));
    assert!(!subscription_refused(&[granted, granted]));
    assert!(subscription_refused(&[failure]));
    assert!(subscription_refused(&[granted, failure]));
    assert!(subscription_refused(&[]));
}

#[test]
fn keepalive_is_clamped_to_the_wire_range() {
    assert_eq!(clamp_keepalive(0), MIN_KEEPALIVE_S);
    assert_eq!(clamp_keepalive(4), MIN_KEEPALIVE_S);
    assert_eq!(clamp_keepalive(5), 5);
    assert_eq!(clamp_keepalive(30), 30);
    assert_eq!(clamp_keepalive(65535), 65535);
    // 65536 would go on the wire as 0 ("no keepalive"), 65537 as 1 s.
    assert_eq!(clamp_keepalive(65536), 65535);
    assert_eq!(clamp_keepalive(65537), 65535);
    assert_eq!(clamp_keepalive(u64::MAX), 65535);
}

fn s(secs: u64) -> u64 {
    secs * 1_000_000_000
}

#[test]
fn retry_delay_doubles_up_to_the_cap() {
    assert_eq!(retry_delay(0), s(2));
    assert_eq!(retry_delay(1), s(2));
    assert_eq!(retry_delay(2), s(4));
    assert_eq!(retry_delay(3), s(8));
    assert_eq!(retry_delay(4), s(16));
    assert_eq!(retry_delay(5), s(32));
    assert_eq!(retry_delay(6), s(60));
    assert_eq!(retry_delay(7), s(60));
    assert_eq!(retry_delay(1_000), s(60));
    assert_eq!(retry_delay(u32::MAX), s(60));
}

#[test]
fn outage_warns_first_then_reminds_every_five_minutes() {
    let t0 = s(1_000_000);
    let mut outage = Outage::new();
    assert_eq!(outage.elapsed(t0), 0);

    assert_eq!(outage.failed(t0), (s(2), OutageLog::First));
    assert_eq!(outage.failed(t0 + s(2)), (s(4), OutageLog::Quiet));
    assert_eq!(outage.failed(t0 + s(6)), (s(8), OutageLog::Quiet));
    assert_eq!(outage.failed(t0 + s(14)), (s(16), OutageLog::Quiet));
    assert_eq!(outage.failed(t0 + s(30)), (s(32), OutageLog::Quiet));
    assert_eq!(outage.failed(t0 + s(62)), (s(60), OutageLog::Quiet));
    // Just short of the reminder period since the first warn: still quiet.
    assert_eq!(outage.failed(t0 + s(299)), (s(60), OutageLog::Quiet));
    assert_eq!(outage.failed(t0 + s(300)), (s(60), OutageLog::Reminder));
    assert_eq!(outage.failures, 8);
    assert_eq!(outage.elapsed(t0 + s(300)), s(300));
    // The reminder period restarts from the reminder, not from the first warn.
    assert_eq!(outage.failed(t0 + s(360)), (s(60), OutageLog::Quiet));
    assert_eq!(outage.failed(t0 + s(599)), (s(60), OutageLog::Quiet));
    assert_eq!(outage.failed(t0 + s(600)), (s(60), OutageLog::Reminder));
    // Time never going backwards isn't assumed either.
    assert_eq!(outage.failed(t0), (s(60), OutageLog::Quiet));

    // ConnAck: the next outage starts over with a warn and a 2 s retry.
    outage.reset();
    assert_eq!(outage, Outage::new());
    assert_eq!(outage.failed(t0 + s(900)), (s(2), OutageLog::First));
    assert_eq!(outage.elapsed(t0 + s(901)), s(1));
}

#[test]
fn retained_commands_are_refused_before_parsing() {
    let live = decode_command(false, br#"{"state":"ON","brightness":5}"#).unwrap();
    assert_eq!(live, Command { on: true, brightness: Some(5), transition: None });
    assert_eq!(
        decode_command(true, br#"{"state":"ON","brightness":5}"#),
        Err(CommandError::Retained)
    );
    // The retain flag alone decides. The content isn't even looked at.
    assert_eq!(decode_command(true, b"garbage"), Err(CommandError::Retained));
    assert_eq!(decode_command(true, b""), Err(CommandError::Retained));
    assert!(matches!(decode_command(false, b"garbage"), Err(CommandError::NotJson(_))));
    assert!(!CommandError::Retained.message().is_empty());
}

#[test]
fn command_on_with_brightness() {
    let cmd = parse(r#"{"state":"ON","brightness":128}"#).unwrap();
    assert_eq!(cmd, Command { on: true, brightness: Some(128), transition: None });
    assert_eq!(
        cmd.into_set(),
        LightCommand::Apply { on: true, brightness: Some(128), transition: None }
    );
}

#[test]
fn command_on_without_brightness() {
    let cmd = parse(r#"{"state":"ON"}"#).unwrap();
    assert_eq!(cmd, Command { on: true, brightness: None, transition: None });
    // A null brightness is the same as an absent one.
    assert_eq!(parse(r#"{"state":"ON","brightness":null}"#).unwrap(), cmd);
}

#[test]
fn command_off() {
    let cmd = parse(r#"{"state":"OFF"}"#).unwrap();
    assert_eq!(cmd, Command { on: false, brightness: None, transition: None });
    assert_eq!(parse(r#"{"state":"OFF","brightness":10}"#).unwrap().brightness, Some(10));
}

#[test]
fn command_state_is_case_insensitive_and_extra_keys_are_ignored() {
    assert!(parse(r#"{"state":"on","color_mode":"brightness","effect":"none"}"#).unwrap().on);
    assert!(!parse(r#"{"state":"Off"}"#).unwrap().on);
}

#[test]
fn command_brightness_zero_counts_as_one() {
    assert_eq!(parse(r#"{"state":"ON","brightness":0}"#).unwrap().brightness, Some(1));
    assert_eq!(clamp_brightness(0), 1);
    assert_eq!(clamp_brightness(1), 1);
    assert_eq!(clamp_brightness(255), 255);
}

#[test]
fn command_brightness_above_255_is_clamped() {
    assert_eq!(parse(r#"{"state":"ON","brightness":999}"#).unwrap().brightness, Some(255));
    assert_eq!(
        parse(r#"{"state":"ON","brightness":18446744073709551615}"#).unwrap().brightness,
        Some(255)
    );
    assert_eq!(clamp_brightness(u64::MAX), 255);
}

#[test]
fn command_transition() {
    let cmd = parse(r#"{"state":"ON","brightness":200,"transition":2.5}"#).unwrap();
    assert_eq!(seconds(&cmd), Some(2.5));
    // Integers are numbers too, negatives are floored at zero.
    assert_eq!(seconds(&parse(r#"{"state":"OFF","transition":3}"#).unwrap()), Some(3.0));
    assert_eq!(seconds(&parse(r#"{"state":"OFF","transition":-1}"#).unwrap()), Some(0.0));
    assert_eq!(seconds(&parse(r#"{"state":"OFF","transition":null}"#).unwrap()), None);
}

#[test]
fn command_garbage_is_rejected() {
    assert!(matches!(parse(""), Err(CommandError::NotJson(_))));
    assert!(matches!(parse("hello"), Err(CommandError::NotJson(_))));
    assert!(matches!(parse(r#"{"state":"ON""#), Err(CommandError::NotJson(_))));
    assert!(matches!(parse_command(&[0xff, 0xfe, 0x00]), Err(CommandError::NotJson(_))));
    assert_eq!(parse("[1,2,3]"), Err(CommandError::NotObject));
    assert_eq!(parse("42"), Err(CommandError::NotObject));
    assert_eq!(parse("{}"), Err(CommandError::BadState));
    assert_eq!(parse(r#"{"brightness":10}"#), Err(CommandError::BadState));
    assert_eq!(parse(r#"{"state":"DIM"}"#), Err(CommandError::BadState));
}

#[test]
fn command_wrong_types_are_rejected() {
    assert_eq!(parse(r#"{"state":true}"#), Err(CommandError::BadState));
    assert_eq!(parse(r#"{"state":1}"#), Err(CommandError::BadState));
    assert_eq!(parse(r#"{"state":"ON","brightness":"128"}"#), Err(CommandError::BadBrightness));
    assert_eq!(parse(r#"{"state":"ON","brightness":-1}"#), Err(CommandError::BadBrightness));
    assert_eq!(parse(r#"{"state":"ON","brightness":12.5}"#), Err(CommandError::BadBrightness));
    assert_eq!(parse(r#"{"state":"ON","brightness":[1]}"#), Err(CommandError::BadBrightness));
    assert_eq!(parse(r#"{"state":"ON","transition":"fast"}"#), Err(CommandError::BadTransition));
    assert_eq!(parse(r#"{"state":"ON","transition":{}}"#), Err(CommandError::BadTransition));
    // Every error has a human message for the warn line.
    for e in [
        CommandError::Retained,
        CommandError::NotJson("x".into()),
        CommandError::NotObject,
        CommandError::BadState,
        CommandError::BadBrightness,
        CommandError::BadTransition,
    ] {
        assert!(!e.message().is_empty());
    }
    assert_eq!(CommandError::NotJson("x".into()).message(), "not JSON (x)");
}

#[test]
fn discovery_payload_has_every_key() {
    let cfg = cfg();
    let topics = Topics::from_cfg(&cfg);
    let doc = discovery_payload(&cfg, &topics);
    let text = render(&doc);
    let parsed = parse_json(&text).unwrap();
    assert_eq!(render(&parsed), text);

    let at = |j: &Json, k: &str| j.get(k).unwrap().clone();
    let text_at = |j: &Json, k: &str| j.str_at(k).unwrap().to_string();
    assert_eq!(at(&parsed, "name"), Json::Null);
    assert_eq!(text_at(&parsed, "unique_id"), "barclock_display");
    assert_eq!(text_at(&parsed, "schema"), "json");
    assert_eq!(text_at(&parsed, "state_topic"), "barclock/display/state");
    assert_eq!(text_at(&parsed, "command_topic"), "barclock/display/set");
    assert_eq!(text_at(&parsed, "availability_topic"), "barclock/display/availability");
    assert_eq!(parsed.bool_at("brightness"), Some(true));
    assert_eq!(at(&parsed, "supported_color_modes"), parse_json(r#"["brightness"]"#).unwrap());
    // No `retain`: Home Assistant must never retain its commands (they would be ignored).
    assert!(parsed.get("retain").is_none());

    let device = at(&parsed, "device");
    assert_eq!(at(&device, "identifiers"), parse_json(r#"["barclock_display"]"#).unwrap());
    assert_eq!(text_at(&device, "name"), "Bar display");
    assert_eq!(text_at(&device, "manufacturer"), "barclock");
    assert_eq!(text_at(&device, "model"), "Raspberry Pi Zero 2W + 1920x480 bar");
    assert_eq!(text_at(&device, "sw_version"), SW_VERSION);
    assert_eq!(text_at(&device, "suggested_area"), "Bureau Lulu");
    assert_eq!(device.as_object().unwrap().len(), 6);

    let origin = at(&parsed, "origin");
    assert_eq!(text_at(&origin, "name"), "barclock");
    assert_eq!(text_at(&origin, "sw_version"), SW_VERSION);
    assert_eq!(origin.as_object().unwrap().len(), 2);

    assert_eq!(parsed.as_object().unwrap().len(), 10);
    assert!(!SW_VERSION.is_empty());
}

#[test]
fn state_payload_on_and_off() {
    let on = state_payload(LightState { on: true, brightness: 200 });
    assert_eq!(parse_json(&on), parse_json(r#"{"state": "ON", "brightness": 200}"#));

    let off = state_payload(LightState { on: false, brightness: 37 });
    assert_eq!(parse_json(&off), parse_json(r#"{"state": "OFF", "brightness": 37}"#));

    // A brightness of 0 never goes on the wire.
    let zero = parse_json(&state_payload(LightState { on: true, brightness: 0 })).unwrap();
    assert_eq!(zero.u64_at("brightness"), Some(1));

    // Our own state payload parses back as a restore.
    let restored = parse(&state_payload(LightState { on: false, brightness: 37 }))
        .unwrap()
        .restore(LightState::default());
    assert_eq!(restored, LightState { on: false, brightness: 37 });
}

#[test]
fn restore_keeps_the_fallback_brightness_when_missing() {
    let fallback = LightState { on: true, brightness: 90 };
    let restored = parse(r#"{"state":"OFF"}"#).unwrap().restore(fallback);
    assert_eq!(restored, LightState { on: false, brightness: 90 });
    let restored = parse(r#"{"state":"ON","brightness":0}"#).unwrap().restore(fallback);
    assert_eq!(restored, LightState { on: true, brightness: 1 });
}

#[test]
fn restored_state_is_what_goes_on_the_wire() {
    // Retained OFF/37 on the broker, local default ON/255: the state published at the end of the
    // window must be the restored one, never the pre-restore local value.
    let current = LightState::default();
    let retained = state_payload(LightState { on: false, brightness: 37 });
    let restored = parse(&retained).unwrap().restore(current);
    assert_ne!(restored, current);
    let wire = parse_json(&state_payload(restored)).unwrap();
    assert_eq!(wire, parse_json(r#"{"state": "OFF", "brightness": 37}"#).unwrap());
}

#[test]
fn payload_preview_is_bounded_and_lossy() {
    assert_eq!(payload_preview(b"abc"), "abc");
    assert_eq!(payload_preview(&[0xff, b'x']), "\u{fffd}x");
    let long = "y".repeat(LOG_PAYLOAD_CHARS * 3);
    let preview = payload_preview(long.as_bytes());
    assert_eq!(preview.chars().count(), LOG_PAYLOAD_CHARS + 1);
    assert!(preview.ends_with('…'));
}

#[test]
fn refusals_and_hints_in_words() {
    assert_eq!(refusal_reason("a/b"), "request queue full or event loop gone");
    assert_eq!(refusal_reason("a/+"), "invalid topic");
    assert_eq!(refusal_reason("a/#"), "invalid topic");
    assert!(connect_hint(ConnectFailure::BadCredentials).contains("MQTT_PASSWORD"));
    assert!(connect_hint(ConnectFailure::BadClientId).contains("client_id"));
    assert_eq!(connect_hint(ConnectFailure::Other), "");
}

// ---- the link ----

fn publish(topic: &str, payload: &str) -> Action {
    Action::Publish { topic: topic.into(), payload: payload.into() }
}

fn subscribe(topic: &str) -> Action {
    Action::Subscribe { topic: topic.into() }
}

const STATE: &str = "barclock/display/state";
const SET: &str = "barclock/display/set";

fn link() -> LightLink {
    LightLink::new(&cfg(), Some("bob"))
}

#[test]
fn the_first_session_waits_for_the_retained_state() {
    let ours = LightState::default();
    let mut l = link();
    let out = l.on_connack(ours, s(1));
    let discovery = l.discovery.clone();
    let start = vec![
        publish("homeassistant/light/barclock_display/config", &discovery),
        publish("barclock/display/availability", "online"),
        subscribe(SET),
        subscribe(STATE),
        subscribe("homeassistant/status"),
    ];
    assert_eq!(out, start);
    assert_eq!(l.restore_deadline, Some(s(1) + RESTORE_WINDOW));
    // held back, and live messages on the state topic do not count
    assert!(l.on_state_changed(ours).is_empty());
    assert!(l.on_publish(STATE, false, br#"{"state":"OFF"}"#, ours).is_empty());
    assert_eq!(l.on_publish("homeassistant/status", false, b" online\n", ours).len(), 2);
    assert_eq!(
        l.on_publish(STATE, true, br#"{"state":"OFF"}"#, ours),
        vec![Action::Restore { restored: LightState { on: false, brightness: 255 }, current: ours }]
    );
    assert_eq!((l.restore_deadline, l.restore_done), (None, true));
    let theirs = LightState { on: false, brightness: 255 };
    assert_eq!(l.restore_sent(theirs, ours, true), publish(STATE, r#"{"brightness":255,"state":"OFF"}"#));
    assert_eq!(l.restore_sent(theirs, ours, false), publish(STATE, r#"{"brightness":255,"state":"ON"}"#));
    // after the window the topic only echoes our own publishes
    assert!(l.on_publish(STATE, true, br#"{"state":"ON"}"#, theirs).is_empty());
    assert_eq!(l.on_publish("homeassistant/status", false, b"online", theirs).len(), 3);
    assert!(l.on_publish("homeassistant/status", false, b"offline", theirs).is_empty());
    assert!(l.on_publish("elsewhere", false, b"online", theirs).is_empty());
    // a later session publishes at once
    let out = l.on_connack(theirs, s(9));
    assert_eq!(out.len(), 6);
    assert_eq!(out[5], publish(STATE, r#"{"brightness":255,"state":"OFF"}"#));
}

#[test]
fn an_unreadable_retained_state_keeps_ours() {
    let ours = LightState { on: true, brightness: 9 };
    let mut l = link();
    l.on_connack(ours, 0);
    assert_eq!(
        l.on_publish(STATE, true, b"[]", ours),
        vec![
            Action::Warn("mqtt: retained state is unreadable (not a JSON object), keeping ours payload=[]".into()),
            publish(STATE, r#"{"brightness":9,"state":"ON"}"#),
        ]
    );
    let mut l = link();
    l.on_connack(ours, 0);
    assert_eq!(l.on_restore_timeout(ours), vec![publish(STATE, r#"{"brightness":9,"state":"ON"}"#)]);
    assert!(l.restore_done);
    assert_eq!(l.on_state_changed(ours), vec![publish(STATE, r#"{"brightness":9,"state":"ON"}"#)]);
}

#[test]
fn commands_reach_the_screen() {
    let ours = LightState::default();
    let mut l = link();
    assert_eq!(
        l.on_publish(SET, false, br#"{"state":"on","brightness":0,"transition":1}"#, ours),
        vec![Action::Command(LightCommand::Apply { on: true, brightness: Some(1), transition: Some("1".into()) })]
    );
    let warn = l.on_publish(SET, true, b"x", ours);
    assert_eq!(warn.len(), 1);
    assert!(matches!(&warn[0], Action::Warn(t)
        if t.ends_with("mosquitto_pub -r -n -t 'barclock/display/set' topic=barclock/display/set payload=x")));
    assert!(l.on_publish(SET, true, b"x", ours).is_empty());
    assert_eq!(
        l.on_publish(SET, false, b"{}", ours),
        vec![Action::Warn(
            "mqtt: ignoring command: \"state\" missing or not \"ON\"/\"OFF\" topic=barclock/display/set payload={}".into()
        )]
    );
}

#[test]
fn decoded_deliveries_are_acted_on() {
    let ours = LightState { on: true, brightness: 9 };
    let mut l = link();
    l.on_connack(ours, 0);
    let off = Command { on: false, brightness: Some(40), transition: None };
    assert_eq!(
        l.on_command(Ok(off.clone()), "p"),
        vec![Action::Command(LightCommand::Apply { on: false, brightness: Some(40), transition: None })]
    );
    assert_eq!(l.on_command(Err(CommandError::Retained), "p").len(), 1);
    assert!(l.on_command(Err(CommandError::Retained), "p").is_empty());
    assert_eq!(
        l.on_command(Err(CommandError::NotObject), "[1]"),
        vec![Action::Warn(
            "mqtt: ignoring command: not a JSON object topic=barclock/display/set payload=[1]".into()
        )]
    );
    // the window is open: Home Assistant coming online gets no state yet
    assert_eq!(l.on_status("online", ours).len(), 2);
    assert_eq!(
        l.on_retained_state(Ok(off), "p", ours),
        vec![Action::Restore { restored: LightState { on: false, brightness: 40 }, current: ours }]
    );
    assert!(l.restore_done);
    assert_eq!(l.on_status("\tonline ", ours)[2], publish(STATE, r#"{"brightness":9,"state":"ON"}"#));
    assert!(l.on_status("Online", ours).is_empty());
    assert!(l.tells_the_light(&l.on_status("online", ours)));
    assert!(!l.tells_the_light(&vec![subscribe(STATE), publish(SET, "x")]));
    assert!(l.tells_the_light(&vec![Action::Restore { restored: ours, current: ours }]));
}

#[test]
fn refused_subscriptions_name_what_is_lost() {
    let mut l = link();
    assert!(l.on_subscribe_sent(11) && l.on_subscribe_sent(12) && l.on_subscribe_sent(13));
    assert!(!l.on_subscribe_sent(14));
    assert!(l.on_suback(11, &[SubscribeCode::Granted]).is_empty());
    assert_eq!(
        l.on_suback(12, &[SubscribeCode::Failure]),
        vec![Action::Warn(
            "mqtt: the broker refused the subscription to barclock/display/state: the retained state cannot be restored at startup; check the broker ACL for user bob".into()
        )]
    );
    assert_eq!(
        l.on_suback(99, &[]),
        vec![Action::Warn(
            "mqtt: the broker refused the subscription to <unknown>: unknown subscription; check the broker ACL for user bob".into()
        )]
    );
    assert_eq!(LightLink::new(&cfg(), None).user, "<anonymous>");
}

#[test]
fn outages_are_paced() {
    let mut l = link();
    assert!(l.may_poll());
    let out = l.on_error("refused", ConnectFailure::BadClientId, s(10));
    assert_eq!(
        out,
        vec![Action::Warn(
            "mqtt: cannot connect to homeassistant.local:1883: refused (the broker rejects mqtt.client_id); retrying in 2s".into()
        )]
    );
    assert_eq!(l.retry_at, Some(s(12)));
    assert!(!l.may_poll());
    l.on_retry();
    assert!(l.may_poll());
    assert!(l.on_error("refused", ConnectFailure::Other, s(12)).is_empty());
    assert_eq!(l.retry_at, Some(s(16)));
    assert_eq!(
        l.on_error("refused", ConnectFailure::Other, s(310)),
        vec![Action::Warn(
            "mqtt: still cannot connect to homeassistant.local:1883 after 3 attempts (300 s): refused; retrying every 8s".into()
        )]
    );
    l.on_retry();
    l.on_connack(LightState::default(), s(400));
    assert_eq!(
        l.on_error("gone", ConnectFailure::Other, s(401)),
        vec![Action::Warn("mqtt: connection lost: gone; reconnecting in 2s".into())]
    );
    // a window that was open dies with the connection and reopens with the next
    assert_eq!((l.restore_deadline, l.restore_done), (None, false));
    assert!(l.on_state_changed(LightState::default()).is_empty());
    l.on_retry();
    assert_eq!(l.on_connack(LightState::default(), s(500)).len(), 5);
    assert_eq!(l.restore_deadline, Some(s(500) + RESTORE_WINDOW));
}
