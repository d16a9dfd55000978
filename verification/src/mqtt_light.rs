//! The "Bar display" light on MQTT, so that the panel shows up in Home Assistant.
//!
//! `LightLink` is the light's side of the broker connection. Each of its `on_*` methods takes one
//! thing that happened and returns what to do about it, in order.
use vstd::prelude::*;
use vstd::string::*;
use crate::config::Mqtt;
use crate::json::{
    canonical, canonical_members, lookup, members_of, natural, natural_of, parse_bytes,
    parsed_bytes, plain, put, reads, render, rendered, sorted, find_member, members, Json, JsonV,
    Members,
};
use crate::text;
use crate::text::{
    before, concat, decimal, lowered, opt_string, push_decimal, same, same_folded, stripped_end,
};
use crate::time;
use crate::time::{clamped, later, since, SECOND};
use crate::types::{lit, LightCommand, LightCommandV, LightState};

verus! {

/// The version announced to Home Assistant.
pub const SW_VERSION: &'static str = "0.1.0";

/// Home Assistant's birth and will topic (`online` / `offline`), whatever the discovery prefix.
pub const HA_STATUS_TOPIC: &'static str = "homeassistant/status";

/// A keepalive of zero is refused by the client, and anything below this is pointless on a LAN.
pub const MIN_KEEPALIVE_S: u64 = 5;

/// The CONNECT packet carries the keepalive in sixteen bits.
pub const MAX_KEEPALIVE_S: u64 = 65535;

/// How long the first session waits for the broker's retained state before publishing ours.
pub const RESTORE_WINDOW: u64 = 1_500_000_000;

/// Pause after the first connection error of an outage. Doubles on every further failure.
pub const RETRY_DELAY: u64 = 2_000_000_000;

/// Longest pause between two reconnect attempts.
pub const RETRY_DELAY_MAX: u64 = 60_000_000_000;

/// A still-failing outage is warned about again this often (the first failure warns at once).
pub const OUTAGE_REMINDER: u64 = 300_000_000_000;

/// Longest payload excerpt that ends up in a log line.
pub const LOG_PAYLOAD_CHARS: usize = 120;

/// Subscriptions issued after every connection.
pub const SUBSCRIPTIONS: usize = 3;

// ---------------- topics ----------------

/// The MQTT topics derived from the configuration.
#[derive(Clone, Debug, PartialEq, Eq)]
pub struct Topics {
    /// `<discovery_prefix>/light/<unique_id>/config` (retained discovery payload).
    pub config: String,
    /// `<base_topic>/state` (retained, our own publishes only).
    pub state: String,
    /// `<base_topic>/set` (commands from Home Assistant; only ever subscribed to, a publish of
    /// ours would come straight back as a command).
    pub command: String,
    /// `<base_topic>/availability` (retained `online`, last will `offline`).
    pub availability: String,
}

/// The model of the topics.
#[verifier::ext_equal]
pub struct TopicsV {
    pub config: Seq<char>,
    pub state: Seq<char>,
    pub command: Seq<char>,
    pub availability: Seq<char>,
}

impl View for Topics {
    type V = TopicsV;

    open spec fn view(&self) -> TopicsV {
        TopicsV {
            config: self.config@,
            state: self.state@,
            command: self.command@,
            availability: self.availability@,
        }
    }
}

/// The topics of a configuration; slashes at the end of the prefixes do not count.
pub open spec fn topics_of(cfg: Mqtt) -> TopicsV {
    let base = stripped_end(cfg.base_topic@, '/');
    TopicsV {
        config: stripped_end(cfg.discovery_prefix@, '/') + "/light/"@ + cfg.unique_id@
            + "/config"@,
        state: base + "/state"@,
        command: base + "/set"@,
        availability: base + "/availability"@,
    }
}

impl TopicsV {
    /// What every session subscribes to, in the order the subscribes are issued.
    pub open spec fn subscribed(self) -> Seq<Seq<char>> {
        seq![self.command, self.state, HA_STATUS_TOPIC@]
    }
}

impl Topics {
    /// The topics of a configuration.
    pub fn from_cfg(cfg: &Mqtt) -> (r: Topics)
        ensures
            r@ == topics_of(*cfg),
    {
        let base = text::strip_end(cfg.base_topic.as_str(), '/');
        let mut config = text::strip_end(cfg.discovery_prefix.as_str(), '/').to_string();
        config.append("/light/");
        config.append(cfg.unique_id.as_str());
        config.append("/config");
        Topics {
            config,
            state: concat(base, "/state"),
            command: concat(base, "/set"),
            availability: concat(base, "/availability"),
        }
    }

    /// What every session subscribes to, in the order the subscribes are issued. The answers are
    /// mapped back to this order (`SubscribePkids`).
    pub fn subscriptions(&self) -> (r: [&str; SUBSCRIPTIONS])
        ensures
            r@.map_values(|t: &str| t@) == self@.subscribed(),
    {
        let r = [self.command.as_str(), self.state.as_str(), HA_STATUS_TOPIC];
        assert(r@.map_values(|t: &str| t@) =~= self@.subscribed());
        r
    }
}

/// What the light loses when the subscription at `index` is refused by the broker.
pub open spec fn consequence(index: int) -> Seq<char> {
    if index == 0 {
        "commands from Home Assistant will never arrive"@
    } else if index == 1 {
        "the retained state cannot be restored at startup"@
    } else if index == 2 {
        "a Home Assistant restart will not trigger a discovery republish"@
    } else {
        "unknown subscription"@
    }
}

/// What the light loses when the subscription at `index` is refused by the broker.
pub fn refusal_consequence(index: usize) -> (r: &'static str)
    ensures
        r@ == consequence(index as int),
{
    if index == 0 {
        "commands from Home Assistant will never arrive"
    } else if index == 1 {
        "the retained state cannot be restored at startup"
    } else if index == 2 {
        "a Home Assistant restart will not trigger a discovery republish"
    } else {
        "unknown subscription"
    }
}

/// Maps the answers of one session back to the topics subscribed to: the packet ids of the
/// subscribes that were sent, in issue order.
#[derive(Clone, Debug, PartialEq, Eq)]
pub struct SubscribePkids {
    pkids: Vec<u16>,
}

impl View for SubscribePkids {
    type V = Seq<u16>;

    closed spec fn view(&self) -> Seq<u16> {
        self.pkids@
    }
}

/// The place of the first `pkid`, or the number of packet ids.
pub open spec fn pkid_place(pkids: Seq<u16>, pkid: u16) -> int
    decreases pkids.len(),
{
    if pkids.len() == 0 || pkids[0] == pkid {
        0
    } else {
        1 + pkid_place(pkids.drop_first(), pkid)
    }
}

impl Default for SubscribePkids {
    /// Nothing sent yet.
    fn default() -> (r: SubscribePkids)
        ensures
            r@ == Seq::<u16>::empty(),
    {
        SubscribePkids { pkids: Vec::new() }
    }
}

impl SubscribePkids {
    /// A new session starts from scratch (the broker may reuse packet ids).
    pub fn reset(&mut self)
        ensures
            final(self)@ == Seq::<u16>::empty(),
    {
        self.pkids = Vec::new();
    }

    /// Records the packet id of the next subscribe that was sent, `false` when more were sent than
    /// this session issued (nothing is recorded then).
    pub fn sent(&mut self, pkid: u16) -> (r: bool)
        ensures
            r == (old(self)@.len() < SUBSCRIPTIONS),
            final(self)@ == if old(self)@.len() < SUBSCRIPTIONS {
                old(self)@.push(pkid)
            } else {
                old(self)@
            },
    {
        if self.pkids.len() < SUBSCRIPTIONS {
            self.pkids.push(pkid);
            true
        } else {
            false
        }
    }

    /// Index (in subscription order) of the subscribe that an answer with `pkid` is about.
    pub fn index_of(&self, pkid: u16) -> (r: Option<usize>)
        ensures
            match r {
                Some(i) => i == pkid_place(self@, pkid) && i < self@.len(),
                None => pkid_place(self@, pkid) == self@.len(),
            },
    {
        let mut i: usize = 0;
        assert(self.pkids@.skip(0) =~= self.pkids@);
        while i < self.pkids.len()
            invariant
                i <= self.pkids@.len(),
                pkid_place(self.pkids@, pkid) == i + pkid_place(self.pkids@.skip(i as int), pkid),
            decreases self.pkids@.len() - i,
        {
            assert(self.pkids@.skip(i as int)[0] == self.pkids@[i as int]);
            if self.pkids[i] == pkid {
                return Some(i);
            }
            assert(self.pkids@.skip(i as int).drop_first() =~= self.pkids@.skip(i + 1));
            i = i + 1;
        }
        None
    }
}

/// How the broker answered one subscription.
#[derive(Clone, Copy, Debug, PartialEq, Eq, Structural)]
pub enum SubscribeCode {
    Granted,
    Failure,
}

/// The answer refuses the subscription.
pub open spec fn refuses(codes: Seq<SubscribeCode>) -> bool {
    codes.len() == 0 || codes.contains(SubscribeCode::Failure)
}

/// `true` when an answer refuses the subscription. An answer without any code is a protocol
/// violation and counts as refused too.
pub fn subscription_refused(codes: &[SubscribeCode]) -> (r: bool)
    ensures
        r == (codes@.len() == 0 || codes@.contains(SubscribeCode::Failure)),
        r == refuses(codes@),
{
    if codes.len() == 0 {
        return true;
    }
    let mut i: usize = 0;
    while i < codes.len()
        invariant
            i <= codes@.len(),
            forall|k: int| 0 <= k < i ==> codes@[k] != SubscribeCode::Failure,
        decreases codes@.len() - i,
    {
        match codes[i] {
            SubscribeCode::Failure => {
                assert(codes@[i as int] == SubscribeCode::Failure);
                return true;
            },
            SubscribeCode::Granted => {},
        }
        i = i + 1;
    }
    false
}

/// The keepalive actually used for a configured one, within what the CONNECT packet can carry.
pub fn clamp_keepalive(secs: u64) -> (r: u64)
    ensures
        r == clamped(secs, MIN_KEEPALIVE_S, MAX_KEEPALIVE_S),
{
    time::clamp(secs, MIN_KEEPALIVE_S, MAX_KEEPALIVE_S)
}

// ---------------- outages ----------------

/// Pause before the attempt that follows `failures` failures in a row: 2 s, then twice as long
/// each time, up to a minute.
pub open spec fn retry_span(failures: nat) -> nat
    decreases failures,
{
    if failures <= 1 {
        RETRY_DELAY as nat
    } else if 2 * retry_span((failures - 1) as nat) > RETRY_DELAY_MAX {
        RETRY_DELAY_MAX as nat
    } else {
        2 * retry_span((failures - 1) as nat)
    }
}

proof fn lemma_retry_capped(failures: nat)
    requires
        failures >= 6,
    ensures
        retry_span(failures) == RETRY_DELAY_MAX,
    decreases failures,
{
    if failures == 6 {
        reveal_with_fuel(retry_span, 7);
    } else {
        lemma_retry_capped((failures - 1) as nat);
    }
}

/// Pause before the attempt that follows `failures` failures in a row.
pub fn retry_delay(failures: u32) -> (r: u64)
    ensures
        r == retry_span(failures as nat),
{
    proof {
        reveal_with_fuel(retry_span, 6);
        if failures >= 6 {
            lemma_retry_capped(failures as nat);
        }
    }
    if failures <= 1 {
        RETRY_DELAY
    } else if failures == 2 {
        RETRY_DELAY * 2
    } else if failures == 3 {
        RETRY_DELAY * 4
    } else if failures == 4 {
        RETRY_DELAY * 8
    } else if failures == 5 {
        RETRY_DELAY * 16
    } else {
        RETRY_DELAY_MAX
    }
}

/// How loud to log one more failed connection attempt.
#[derive(Clone, Copy, Debug, PartialEq, Eq, Structural)]
pub enum OutageLog {
    /// First failure of this outage: warn.
    First,
    /// The outage has gone on for another `OUTAGE_REMINDER`: warn again.
    Reminder,
    /// Retrying quietly.
    Quiet,
}

/// Reconnect pacing for one outage: exponential backoff plus a periodic reminder in the log.
#[derive(Clone, Copy, Debug, PartialEq, Eq, Structural)]
pub struct Outage {
    /// Failed attempts in a row since the last connection.
    pub failures: u32,
    /// When the outage started (its first failure).
    pub since: Option<u64>,
    /// When it was last warned about.
    pub warned: Option<u64>,
}

/// No outage.
pub open spec fn no_outage() -> Outage {
    Outage { failures: 0, since: None, warned: None }
}

/// How loud one more failure at `now` is.
pub open spec fn loudness(o: Outage, now: u64) -> OutageLog {
    match o.warned {
        None => OutageLog::First,
        Some(at) => if since(at, now) >= OUTAGE_REMINDER {
            OutageLog::Reminder
        } else {
            OutageLog::Quiet
        },
    }
}

/// The outage after one more failure at `now`.
pub open spec fn failed_once_more(o: Outage, now: u64) -> Outage {
    Outage {
        failures: if o.failures == u32::MAX {
            o.failures
        } else {
            (o.failures + 1) as u32
        },
        since: match o.since {
            Some(at) => Some(at),
            None => Some(now),
        },
        warned: if loudness(o, now) == OutageLog::Quiet {
            o.warned
        } else {
            Some(now)
        },
    }
}

impl Outage {
    /// No outage.
    pub fn new() -> (r: Outage)
        ensures
            r == no_outage(),
    {
        Outage { failures: 0, since: None, warned: None }
    }

    /// Records one more failure at `now`: the pause before the next attempt and how to log it.
    pub fn failed(&mut self, now: u64) -> (r: (u64, OutageLog))
        ensures
            *final(self) == failed_once_more(*old(self), now),
            r.0 == retry_span(final(self).failures as nat),
            r.1 == loudness(*old(self), now),
    {
        if self.failures < u32::MAX {
            self.failures = self.failures + 1;
        }
        if self.since.is_none() {
            self.since = Some(now);
        }
        let log = match self.warned {
            None => OutageLog::First,
            Some(at) => if time::elapsed(at, now) >= OUTAGE_REMINDER {
                OutageLog::Reminder
            } else {
                OutageLog::Quiet
            },
        };
        match log {
            OutageLog::Quiet => {},
            _ => {
                self.warned = Some(now);
            },
        }
        (retry_delay(self.failures), log)
    }

    /// How long the outage has lasted.
    pub fn elapsed(&self, now: u64) -> (r: u64)
        ensures
            r == match self.since {
                Some(at) => since(at, now),
                None => 0,
            },
    {
        match self.since {
            Some(at) => time::elapsed(at, now),
            None => 0,
        }
    }

    /// Back to no outage.
    pub fn reset(&mut self)
        ensures
            *final(self) == no_outage(),
    {
        *self = Outage::new();
    }
}

// ---------------- commands ----------------

/// A decoded `{"state":...,"brightness":...,"transition":...}` payload (commands and the retained
/// state share the format).
#[derive(Clone, Debug, PartialEq)]
pub struct Command {
    pub on: bool,
    /// Already clamped to 1..=255.
    pub brightness: Option<u8>,
    /// Seconds, as a JSON number, never negative.
    pub transition: Option<String>,
}

/// The model of a `Command`.
#[verifier::ext_equal]
pub struct CommandV {
    pub on: bool,
    pub brightness: Option<u8>,
    pub transition: Option<Seq<char>>,
}

impl View for Command {
    type V = CommandV;

    open spec fn view(&self) -> CommandV {
        CommandV {
            on: self.on,
            brightness: self.brightness,
            transition: opt_string(self.transition),
        }
    }
}

/// The light state that a retained payload describes. A missing brightness keeps `fallback`'s.
pub open spec fn restored(c: CommandV, fallback: LightState) -> LightState {
    LightState {
        on: c.on,
        brightness: lit(
            match c.brightness {
                Some(b) => b,
                None => fallback.brightness,
            },
        ),
    }
}

impl Command {
    /// The command for the screen.
    pub fn into_set(self) -> (r: LightCommand)
        ensures
            r@ == (LightCommandV::Apply {
                on: self.on,
                brightness: self.brightness,
                transition: self@.transition,
            }),
    {
        LightCommand::Apply {
            on: self.on,
            brightness: self.brightness,
            transition: self.transition,
        }
    }

    /// The light state that a retained payload describes.
    pub fn restore(&self, fallback: LightState) -> (r: LightState)
        ensures
            r == restored(self@, fallback),
    {
        let b: u8 = match self.brightness {
            Some(b) => b,
            None => fallback.brightness,
        };
        LightState { on: self.on, brightness: if b == 0 { 1 } else { b } }
    }
}

/// Why a payload was ignored.
#[derive(Clone, Debug, PartialEq, Eq)]
pub enum CommandError {
    /// Delivered with the broker's retain flag: a leftover, not a live command. It would be
    /// re-applied after every reconnect.
    Retained,
    NotJson(String),
    NotObject,
    BadState,
    BadBrightness,
    BadTransition,
}

/// The model of a `CommandError`.
#[verifier::ext_equal]
pub enum CommandErrorV {
    Retained,
    NotJson(Seq<char>),
    NotObject,
    BadState,
    BadBrightness,
    BadTransition,
}

impl View for CommandError {
    type V = CommandErrorV;

    open spec fn view(&self) -> CommandErrorV {
        match self {
            CommandError::Retained => CommandErrorV::Retained,
            CommandError::NotJson(e) => CommandErrorV::NotJson(e@),
            CommandError::NotObject => CommandErrorV::NotObject,
            CommandError::BadState => CommandErrorV::BadState,
            CommandError::BadBrightness => CommandErrorV::BadBrightness,
            CommandError::BadTransition => CommandErrorV::BadTransition,
        }
    }
}

/// The words for an error.
pub open spec fn command_error_text(e: CommandErrorV) -> Seq<char> {
    match e {
        CommandErrorV::Retained => "delivered with the retain flag (a stale retained command)"@,
        CommandErrorV::NotJson(e) => "not JSON ("@ + e + ")"@,
        CommandErrorV::NotObject => "not a JSON object"@,
        CommandErrorV::BadState => "\"state\" missing or not \"ON\"/\"OFF\""@,
        CommandErrorV::BadBrightness => "\"brightness\" is not a non-negative integer"@,
        CommandErrorV::BadTransition => "\"transition\" is not a number"@,
    }
}

impl CommandError {
    /// The error in words.
    pub fn message(&self) -> (r: String)
        ensures
            r@ == command_error_text(self@),
    {
        match self {
            CommandError::Retained => "delivered with the retain flag (a stale retained command)".to_string(),
            CommandError::NotJson(e) => {
                let mut m = concat("not JSON (", e.as_str());
                m.append(")");
                m
            },
            CommandError::NotObject => "not a JSON object".to_string(),
            CommandError::BadState => "\"state\" missing or not \"ON\"/\"OFF\"".to_string(),
            CommandError::BadBrightness => "\"brightness\" is not a non-negative integer".to_string(),
            CommandError::BadTransition => "\"transition\" is not a number".to_string(),
        }
    }
}

/// 0 counts as 1, anything above 255 is 255.
pub open spec fn brightness_for(raw: nat) -> u8 {
    if raw == 0 {
        1
    } else if raw > 255 {
        255
    } else {
        raw as u8
    }
}

/// 0 counts as 1, anything above 255 is 255.
pub fn clamp_brightness(raw: u64) -> (r: u8)
    ensures
        r == brightness_for(raw as nat),
        r >= 1,
{
    if raw == 0 {
        1
    } else if raw > 255 {
        255
    } else {
        raw as u8
    }
}

/// What `"state"` says: on or off, in any case, or neither.
pub open spec fn state_member(m: Seq<(Seq<char>, JsonV)>) -> Option<bool> {
    match lookup(m, "state"@) {
        Some(JsonV::Text(t)) => if same_folded(t, "ON"@) {
            Some(true)
        } else if same_folded(t, "OFF"@) {
            Some(false)
        } else {
            None
        },
        _ => None,
    }
}

/// What `"brightness"` says: nothing where it is absent or null, `None` where it is no natural
/// number.
pub open spec fn brightness_member(m: Seq<(Seq<char>, JsonV)>) -> Option<Option<u8>> {
    match lookup(m, "brightness"@) {
        None => Some(None),
        Some(JsonV::Null) => Some(None),
        Some(v) => match natural_of(v) {
            Some(n) => Some(Some(brightness_for(n))),
            None => None,
        },
    }
}

/// A number of seconds, where a negative one counts as zero.
pub open spec fn seconds_text(t: Seq<char>) -> Seq<char> {
    if t.len() > 0 && t[0] == '-' {
        "0"@
    } else {
        t
    }
}

/// What `"transition"` says: nothing where it is absent or null, `None` where it is no number.
pub open spec fn transition_member(m: Seq<(Seq<char>, JsonV)>) -> Option<Option<Seq<char>>> {
    match lookup(m, "transition"@) {
        None => Some(None),
        Some(JsonV::Null) => Some(None),
        Some(JsonV::Number(t)) => Some(Some(seconds_text(t))),
        Some(_) => None,
    }
}

/// The command that a JSON value is.
pub open spec fn command_of(v: JsonV) -> Result<CommandV, CommandErrorV> {
    match members_of(v) {
        None => Err(CommandErrorV::NotObject),
        Some(m) => match state_member(m) {
            None => Err(CommandErrorV::BadState),
            Some(on) => match brightness_member(m) {
                None => Err(CommandErrorV::BadBrightness),
                Some(brightness) => match transition_member(m) {
                    None => Err(CommandErrorV::BadTransition),
                    Some(transition) => Ok(CommandV { on, brightness, transition }),
                },
            },
        },
    }
}

/// The command that reading a payload gave.
pub open spec fn command_read(r: Result<JsonV, Seq<char>>) -> Result<CommandV, CommandErrorV> {
    match r {
        Ok(v) => command_of(v),
        Err(e) => Err(CommandErrorV::NotJson(e)),
    }
}

/// A command or the reason why there is none, by their models.
pub open spec fn command_view(r: Result<Command, CommandError>) -> Result<CommandV, CommandErrorV> {
    match r {
        Ok(c) => Ok(c@),
        Err(e) => Err(e@),
    }
}

/// The command that a JSON value is.
pub fn command_from(value: &Json) -> (r: Result<Command, CommandError>)
    ensures
        command_view(r) == command_of(value@),
{
    let m = match value.as_object() {
        Some(m) => m,
        None => {
            return Err(CommandError::NotObject);
        },
    };
    let on = match find_member(m, "state") {
        Some(Json::Text(t)) => {
            if text::eq_ignore_case(t.as_str(), "ON") {
                true
            } else if text::eq_ignore_case(t.as_str(), "OFF") {
                false
            } else {
                return Err(CommandError::BadState);
            }
        },
        _ => {
            return Err(CommandError::BadState);
        },
    };
    let brightness = match find_member(m, "brightness") {
        None => None,
        Some(Json::Null) => None,
        Some(v) => match v.as_u64() {
            Some(n) => Some(clamp_brightness(n)),
            None => {
                return Err(CommandError::BadBrightness);
            },
        },
    };
    let transition = match find_member(m, "transition") {
        None => None,
        Some(Json::Null) => None,
        Some(Json::Number(t)) => {
            let cs = text::chars_of(t.as_str());
            if cs.len() > 0 && cs[0] == '-' {
                Some("0".to_string())
            } else {
                Some(t.clone())
            }
        },
        Some(_) => {
            return Err(CommandError::BadTransition);
        },
    };
    Ok(Command { on, brightness, transition })
}

/// Reads a command or state payload.
pub fn parse_command(payload: &[u8]) -> (r: Result<Command, CommandError>)
    ensures
        command_view(r) == command_read(parsed_bytes(payload@)),
{
    match parse_bytes(payload) {
        Ok(v) => command_from(&v),
        Err(e) => Err(CommandError::NotJson(e)),
    }
}

/// What a delivery on the command topic says: a retained one is refused whatever it holds.
pub open spec fn command_delivered(retain: bool, payload: Seq<u8>) -> Result<
    CommandV,
    CommandErrorV,
> {
    if retain {
        Err(CommandErrorV::Retained)
    } else {
        command_read(parsed_bytes(payload))
    }
}

/// Decodes a delivery on the command topic.
pub fn decode_command(retain: bool, payload: &[u8]) -> (r: Result<Command, CommandError>)
    ensures
        command_view(r) == command_delivered(retain, payload@),
{
    if retain {
        return Err(CommandError::Retained);
    }
    parse_command(payload)
}

// ---------------- payloads ----------------

/// The discovery document. The name is null on purpose: the light is the device's only entity, so
/// it takes the device name.
pub open spec fn discovery_json(cfg: Mqtt, topics: TopicsV) -> JsonV {
    let id = JsonV::Text(cfg.unique_id@);
    let device = JsonV::Object(
        seq![
            ("identifiers"@, JsonV::Array(seq![id])),
            ("name"@, JsonV::Text(cfg.device_name@)),
            ("manufacturer"@, JsonV::Text("barclock"@)),
            ("model"@, JsonV::Text("Raspberry Pi Zero 2W + 1920x480 bar"@)),
            ("sw_version"@, JsonV::Text(SW_VERSION@)),
            ("suggested_area"@, JsonV::Text(cfg.suggested_area@)),
        ],
    );
    let origin = JsonV::Object(
        seq![
            ("name"@, JsonV::Text("barclock"@)),
            ("sw_version"@, JsonV::Text(SW_VERSION@)),
        ],
    );
    JsonV::Object(
        seq![
            ("name"@, JsonV::Null),
            ("unique_id"@, id),
            ("schema"@, JsonV::Text("json"@)),
            ("state_topic"@, JsonV::Text(topics.state)),
            ("command_topic"@, JsonV::Text(topics.command)),
            ("availability_topic"@, JsonV::Text(topics.availability)),
            ("brightness"@, JsonV::Bool(true)),
            ("supported_color_modes"@, JsonV::Array(seq![JsonV::Text("brightness"@)])),
            ("device"@, device),
            ("origin"@, origin),
        ],
    )
}

/// A list of one text.
fn list_of_one(t: &str) -> (r: Json)
    ensures
        r@ == JsonV::Array(seq![JsonV::Text(t@)]),
{
    let mut v: Vec<Json> = Vec::new();
    v.push(Json::text(t));
    proof {
        crate::json::lemma_array_view(v);
        assert(crate::json::views(v@) =~= seq![JsonV::Text(t@)]);
    }
    Json::Array(v)
}

/// The retained discovery document for `<discovery_prefix>/light/<unique_id>/config`.
pub fn discovery_payload(cfg: &Mqtt, topics: &Topics) -> (r: Json)
    ensures
        r@ == discovery_json(*cfg, topics@),
{
    let device = Members::new().with("identifiers", list_of_one(cfg.unique_id.as_str())).with(
        "name",
        Json::text(cfg.device_name.as_str()),
    ).with("manufacturer", Json::text("barclock")).with(
        "model",
        Json::text("Raspberry Pi Zero 2W + 1920x480 bar"),
    ).with("sw_version", Json::text(SW_VERSION)).with(
        "suggested_area",
        Json::text(cfg.suggested_area.as_str()),
    ).object();
    let origin = Members::new().with("name", Json::text("barclock")).with(
        "sw_version",
        Json::text(SW_VERSION),
    ).object();
    let r = Members::new().with("name", Json::Null).with(
        "unique_id",
        Json::text(cfg.unique_id.as_str()),
    ).with("schema", Json::text("json")).with(
        "state_topic",
        Json::text(topics.state.as_str()),
    ).with("command_topic", Json::text(topics.command.as_str())).with(
        "availability_topic",
        Json::text(topics.availability.as_str()),
    ).with("brightness", Json::Bool(true)).with(
        "supported_color_modes",
        list_of_one("brightness"),
    ).with("device", device).with("origin", origin).object();
    proof {
        let want = discovery_json(*cfg, topics@);
        assert(device@->Object_0 =~= want->Object_0[8].1->Object_0);
        assert(origin@->Object_0 =~= want->Object_0[9].1->Object_0);
        assert(r@->Object_0 =~= want->Object_0);
    }
    r
}

/// `{"state":"ON"|"OFF","brightness":1..255}`
pub open spec fn state_json(state: LightState) -> JsonV {
    JsonV::Object(
        seq![
            ("state"@, JsonV::Text(if state.on { "ON"@ } else { "OFF"@ })),
            ("brightness"@, JsonV::Number(decimal(lit(state.brightness) as nat))),
        ],
    )
}

/// The state document as it is written, with its members in key order.
proof fn lemma_state_canonical(state: LightState)
    ensures
        canonical(state_json(state)) == JsonV::Object(
            seq![
                ("brightness"@, JsonV::Number(decimal(lit(state.brightness) as nat))),
                ("state"@, JsonV::Text(if state.on { "ON"@ } else { "OFF"@ })),
            ],
        ),
        plain(canonical(state_json(state)), 127),
{
    let on = ("state"@, JsonV::Text(if state.on { "ON"@ } else { "OFF"@ }));
    let n = lit(state.brightness) as u64;
    let b = ("brightness"@, JsonV::Number(decimal(n as nat)));
    let m = seq![on, b];
    assert(natural(decimal(n as nat)));
    reveal_with_fuel(canonical_members, 3);
    assert(m.drop_last() =~= seq![on]);
    assert(seq![on].drop_last() =~= Seq::empty());
    assert(canonical_members(m) =~= m);
    reveal_strlit("state");
    reveal_strlit("brightness");
    assert("brightness"@[0] == 'b' && "state"@[0] == 's');
    reveal_with_fuel(sorted, 3);
    reveal_with_fuel(put, 2);
    assert(before("brightness"@, "state"@));
    assert(sorted(seq![on]) =~= seq![on]);
    assert(sorted(m) =~= seq![b, on]);
    reveal_with_fuel(plain, 3);
}

/// The state document that was written reads back as a restore of that state.
pub proof fn state_document_restores(state: LightState, fallback: LightState)
    ensures
        match command_of(canonical(state_json(state))) {
            Ok(c) => restored(c, fallback) == (LightState {
                on: state.on,
                brightness: lit(state.brightness),
            }),
            Err(_) => false,
        },
{
    lemma_state_canonical(state);
    let v = canonical(state_json(state));
    let m = v->Object_0;
    reveal_strlit("state");
    reveal_strlit("brightness");
    reveal_strlit("transition");
    reveal_strlit("ON");
    reveal_strlit("OFF");
    assert("state"@.len() != "brightness"@.len());
    assert("transition"@[0] != "brightness"@[0]);
    assert("transition"@.len() != "state"@.len());
    reveal_with_fuel(lookup, 3);
    assert(m.drop_first() =~= seq![m[1]]);
    assert(m.drop_first().drop_first() =~= Seq::empty());
    assert(lookup(m, "state"@) == Some(m[1].1));
    assert(lookup(m, "brightness"@) == Some(m[0].1));
    assert(lookup(m, "transition"@) is None);
    assert(lowered("OFF"@).len() != lowered("ON"@).len());
    text::decimal_reads_back(lit(state.brightness) as nat, u64::MAX as nat);
}

/// The state document as text. Read again, it restores that state whatever ours is.
pub fn state_payload(state: LightState) -> (r: String)
    ensures
        r@ == rendered(state_json(state)),
        forall|fallback: LightState|
            match #[trigger] restore_from(parsed_bytes(vstd::utf8::encode_utf8(r@)), fallback) {
                Some(s) => s == (LightState { on: state.on, brightness: lit(state.brightness) }),
                None => false,
            },
{
    let b: u64 = if state.brightness == 0 {
        1
    } else {
        state.brightness as u64
    };
    let j = Members::new().with("state", Json::text(if state.on { "ON" } else { "OFF" })).with(
        "brightness",
        Json::number(b),
    ).object();
    assert(j@->Object_0 =~= state_json(state)->Object_0);
    let r = render(&j);
    proof {
        lemma_state_canonical(state);
        assert forall|fallback: LightState|
            match #[trigger] restore_from(parsed_bytes(vstd::utf8::encode_utf8(r@)), fallback) {
                Some(s) => s == (LightState { on: state.on, brightness: lit(state.brightness) }),
                None => false,
            } by {
            state_document_restores(state, fallback);
        }
    }
    r
}

/// The state that reading a retained payload gave, if any.
pub open spec fn restore_from(r: Result<JsonV, Seq<char>>, fallback: LightState) -> Option<
    LightState,
> {
    match command_read(r) {
        Ok(c) => Some(restored(c, fallback)),
        Err(_) => None,
    }
}

/// The text of bytes, with the replacement character for what is not UTF-8.
pub uninterp spec fn lossy_text(bytes: Seq<u8>) -> Seq<char>;

/// Calls `String::from_utf8_lossy` of std: the text is named by `lossy_text`. Bytes that are the
/// UTF-8 form of a text give that text.
#[verifier::external_body]
fn from_utf8_lossy(b: &[u8]) -> (r: String)
    ensures
        r@ == lossy_text(b@),
        vstd::utf8::valid_utf8(b@) ==> r@ == vstd::utf8::decode_utf8(b@),
{
    String::from_utf8_lossy(b).to_string()
}

/// The first characters of a text, and a mark where there are more.
pub open spec fn preview_of(t: Seq<char>) -> Seq<char> {
    if t.len() <= LOG_PAYLOAD_CHARS {
        t
    } else {
        t.take(LOG_PAYLOAD_CHARS as int).push('…')
    }
}

/// The first characters of a text, and a mark where there are more.
pub fn preview(t: &str) -> (r: String)
    ensures
        r@ == preview_of(t@),
{
    if t.unicode_len() <= LOG_PAYLOAD_CHARS {
        return t.to_string();
    }
    let mut s = t.substring_char(0, LOG_PAYLOAD_CHARS).to_string();
    assert(t@.subrange(0, LOG_PAYLOAD_CHARS as int) =~= t@.take(LOG_PAYLOAD_CHARS as int));
    s.push('…');
    s
}

/// Payload text for log lines (payloads come from the network).
pub fn payload_preview(payload: &[u8]) -> (r: String)
    ensures
        r@ == preview_of(lossy_text(payload@)),
{
    let t = from_utf8_lossy(payload);
    preview(t.as_str())
}

/// `rumqttc::valid_topic`: a topic to publish to holds neither wildcard.
pub assume_specification[ rumqttc::valid_topic ](topic: &str) -> (r: bool)
    ensures
        r == (!topic@.contains('+') && !topic@.contains('#')),
;

/// Why a publish or a subscribe was refused by the client.
pub fn refusal_reason(topic: &str) -> (r: &'static str)
    ensures
        r@ == if topic@.contains('+') || topic@.contains('#') {
            "invalid topic"@
        } else {
            "request queue full or event loop gone"@
        },
{
    if rumqttc::valid_topic(topic) {
        "request queue full or event loop gone"
    } else {
        "invalid topic"
    }
}

/// Why a connection failed, as far as there is advice for it.
#[derive(Clone, Copy, Debug, PartialEq, Eq, Structural)]
pub enum ConnectFailure {
    /// Refused for its user name or password, or for want of authorization.
    BadCredentials,
    /// Refused for its client id.
    BadClientId,
    Other,
}

/// Extra guidance for a refused connection.
pub open spec fn hint_text(f: ConnectFailure) -> Seq<char> {
    match f {
        ConnectFailure::BadCredentials => " (check MQTT_USER / MQTT_PASSWORD in /etc/barclock.env)"@,
        ConnectFailure::BadClientId => " (the broker rejects mqtt.client_id)"@,
        ConnectFailure::Other => ""@,
    }
}

/// Extra guidance for a refused connection.
pub fn connect_hint(f: ConnectFailure) -> (r: &'static str)
    ensures
        r@ == hint_text(f),
{
    match f {
        ConnectFailure::BadCredentials => " (check MQTT_USER / MQTT_PASSWORD in /etc/barclock.env)",
        ConnectFailure::BadClientId => " (the broker rejects mqtt.client_id)",
        ConnectFailure::Other => "",
    }
}

// ---------------- the link ----------------

/// One thing to do. Every publish is retained and delivered at least once.
#[derive(Debug, PartialEq)]
pub enum Action {
    Publish { topic: String, payload: String },
    Subscribe { topic: String },
    /// A command for the screen.
    Command(LightCommand),
    /// A retained state to hand to the screen. `LightLink::restore_sent` takes it from there.
    Restore { restored: LightState, current: LightState },
    /// A line for the journal that somebody should see.
    Warn(String),
}

/// The model of an `Action`.
#[verifier::ext_equal]
pub enum ActionV {
    Publish { topic: Seq<char>, payload: Seq<char> },
    Subscribe { topic: Seq<char> },
    Command(LightCommandV),
    Restore { restored: LightState, current: LightState },
    Warn(Seq<char>),
}

impl View for Action {
    type V = ActionV;

    open spec fn view(&self) -> ActionV {
        match self {
            Action::Publish { topic, payload } => ActionV::Publish {
                topic: topic@,
                payload: payload@,
            },
            Action::Subscribe { topic } => ActionV::Subscribe { topic: topic@ },
            Action::Command(c) => ActionV::Command(c@),
            Action::Restore { restored, current } => ActionV::Restore {
                restored: *restored,
                current: *current,
            },
            Action::Warn(t) => ActionV::Warn(t@),
        }
    }
}

/// The models of a list of actions.
pub open spec fn action_views(v: Seq<Action>) -> Seq<ActionV> {
    v.map_values(|a: Action| a@)
}

/// The light's side of the broker connection.
#[derive(Debug)]
pub struct LightLink {
    pub topics: Topics,
    /// The discovery document, as text.
    pub discovery: String,
    pub host: String,
    pub port: u16,
    /// Who the link is to the broker, for the journal.
    pub user: String,
    pub connected: bool,
    /// Paces the retries and the warnings of an outage.
    pub outage: Outage,
    /// Holds the next attempt back until the backoff has elapsed.
    pub retry_at: Option<u64>,
    pub sub_pkids: SubscribePkids,
    /// A retained command was warned about in this session.
    pub retained_command_warned: bool,
    /// The restore window is open until then.
    pub restore_deadline: Option<u64>,
    /// The restore window has closed once, so that later sessions skip it. A drop during the
    /// window reopens it with the next session.
    pub restore_done: bool,
}

/// The model of a `LightLink`.
#[verifier::ext_equal]
pub struct LinkV {
    pub topics: TopicsV,
    pub discovery: Seq<char>,
    pub host: Seq<char>,
    pub port: u16,
    pub user: Seq<char>,
    pub connected: bool,
    pub outage: Outage,
    pub retry_at: Option<u64>,
    pub sub_pkids: Seq<u16>,
    pub retained_command_warned: bool,
    pub restore_deadline: Option<u64>,
    pub restore_done: bool,
}

impl View for LightLink {
    type V = LinkV;

    open spec fn view(&self) -> LinkV {
        LinkV {
            topics: self.topics@,
            discovery: self.discovery@,
            host: self.host@,
            port: self.port,
            user: self.user@,
            connected: self.connected,
            outage: self.outage,
            retry_at: self.retry_at,
            sub_pkids: self.sub_pkids@,
            retained_command_warned: self.retained_command_warned,
            restore_deadline: self.restore_deadline,
            restore_done: self.restore_done,
        }
    }
}

/// The link before its first connection.
pub open spec fn new_link(cfg: Mqtt, user: Option<Seq<char>>) -> LinkV {
    LinkV {
        topics: topics_of(cfg),
        discovery: rendered(discovery_json(cfg, topics_of(cfg))),
        host: cfg.host@,
        port: cfg.port,
        user: match user {
            Some(u) => u,
            None => "<anonymous>"@,
        },
        connected: false,
        outage: no_outage(),
        retry_at: None,
        sub_pkids: Seq::empty(),
        retained_command_warned: false,
        restore_deadline: None,
        restore_done: false,
    }
}

/// The state, published.
pub open spec fn state_publish(t: TopicsV, state: LightState) -> ActionV {
    ActionV::Publish { topic: t.state, payload: rendered(state_json(state)) }
}

/// Discovery and availability, published.
pub open spec fn announcement(l: LinkV) -> Seq<ActionV> {
    seq![
        ActionV::Publish { topic: l.topics.config, payload: l.discovery },
        ActionV::Publish { topic: l.topics.availability, payload: "online"@ },
    ]
}

/// The broker accepted the connection: announce the light and subscribe. The first session gives
/// the broker's retained state a chance to arrive before it publishes ours.
pub open spec fn connack_step(l: LinkV, current: LightState, now: u64) -> (LinkV, Seq<ActionV>) {
    let up = LinkV {
        connected: true,
        outage: no_outage(),
        sub_pkids: Seq::empty(),
        retained_command_warned: false,
        ..l
    };
    let start = announcement(l) + l.topics.subscribed().map_values(
        |t: Seq<char>| ActionV::Subscribe { topic: t },
    );
    if l.restore_done {
        (up, start.push(state_publish(l.topics, current)))
    } else {
        (LinkV { restore_deadline: Some(later(now, RESTORE_WINDOW)), ..up }, start)
    }
}

/// The broker answered a subscription: a refusal is warned about, with what is lost by it.
pub open spec fn suback_actions(l: LinkV, pkid: u16, refused: bool) -> Seq<ActionV> {
    let i = pkid_place(l.sub_pkids, pkid);
    let known = i < l.sub_pkids.len() && i < SUBSCRIPTIONS;
    let topic = if known {
        l.topics.subscribed()[i]
    } else {
        "<unknown>"@
    };
    let lost = if i < l.sub_pkids.len() {
        consequence(i)
    } else {
        consequence(SUBSCRIPTIONS as int)
    };
    if refused {
        seq![
            ActionV::Warn(
                "mqtt: the broker refused the subscription to "@ + topic + ": "@ + lost
                    + "; check the broker ACL for user "@ + l.user,
            ),
        ]
    } else {
        Seq::empty()
    }
}

/// What a delivery on the command topic leads to: a command goes to the screen, anything else is
/// warned about with the start of its payload, a retained one once per session.
pub open spec fn command_step(
    l: LinkV,
    delivered: Result<CommandV, CommandErrorV>,
    payload: Seq<char>,
) -> (LinkV, Seq<ActionV>) {
    let shown = " topic="@ + l.topics.command + " payload="@ + preview_of(payload);
    match delivered {
        Ok(c) => (
            l,
            seq![
                ActionV::Command(
                    LightCommandV::Apply {
                        on: c.on,
                        brightness: c.brightness,
                        transition: c.transition,
                    },
                ),
            ],
        ),
        Err(CommandErrorV::Retained) => if l.retained_command_warned {
            (l, Seq::empty())
        } else {
            (
                LinkV { retained_command_warned: true, ..l },
                seq![
                    ActionV::Warn(
                        "mqtt: ignoring a retained command (stale, it would be re-applied after every reconnect); clear it with an empty retained publish: mosquitto_pub -r -n -t '"@
                            + l.topics.command + "'"@ + shown,
                    ),
                ],
            )
        },
        Err(e) => (
            l,
            seq![ActionV::Warn("mqtt: ignoring command: "@ + command_error_text(e) + shown)],
        ),
    }
}

/// What the retained state leads to: it closes the restore window. What is published then is the
/// state the process runs with from now on: the restored one, or ours when the retained payload is
/// unusable, which is warned about with the start of that payload.
pub open spec fn retained_step(
    l: LinkV,
    retained: Result<CommandV, CommandErrorV>,
    payload: Seq<char>,
    current: LightState,
) -> (LinkV, Seq<ActionV>) {
    let closed = LinkV { restore_deadline: None, restore_done: true, ..l };
    match retained {
        Ok(c) => (closed, seq![ActionV::Restore { restored: restored(c, current), current }]),
        Err(e) => (
            closed,
            seq![
                ActionV::Warn(
                    "mqtt: retained state is unreadable ("@ + command_error_text(e)
                        + "), keeping ours payload="@ + preview_of(payload),
                ),
                state_publish(l.topics, current),
            ],
        ),
    }
}

/// What Home Assistant's status leads to: when it comes online, everything is announced again,
/// with the state unless the restore window is open.
pub open spec fn status_actions(l: LinkV, status: Seq<char>, current: LightState) -> Seq<ActionV> {
    if text::trimmed(status) == "online"@ {
        if l.restore_deadline is None {
            announcement(l).push(state_publish(l.topics, current))
        } else {
            announcement(l)
        }
    } else {
        Seq::empty()
    }
}

/// A delivery. On the state topic only a retained one counts, while the restore window is open.
pub open spec fn publish_step(
    l: LinkV,
    topic: Seq<char>,
    retain: bool,
    payload: Seq<u8>,
    current: LightState,
) -> (LinkV, Seq<ActionV>) {
    if topic == l.topics.command {
        command_step(l, command_delivered(retain, payload), lossy_text(payload))
    } else if topic == l.topics.state {
        if l.restore_deadline is None || !retain {
            (l, Seq::empty())
        } else {
            retained_step(l, command_read(parsed_bytes(payload)), lossy_text(payload), current)
        }
    } else if topic == HA_STATUS_TOPIC@ {
        (l, status_actions(l, lossy_text(payload), current))
    } else {
        (l, Seq::empty())
    }
}

/// A span of whole seconds, in words.
pub open spec fn span_text(span: u64) -> Seq<char> {
    decimal((span / SECOND) as nat) + "s"@
}

/// What the journal says about a failed connection.
pub open spec fn outage_text(l: LinkV, o: Outage, error: Seq<char>, hint: Seq<char>, now: u64) -> Option<
    Seq<char>,
> {
    let delay = span_text(retry_span(o.failures as nat) as u64);
    let peer = l.host + ":"@ + decimal(l.port as nat);
    match loudness(l.outage, now) {
        OutageLog::First => if l.connected {
            Some("mqtt: connection lost: "@ + error + hint + "; reconnecting in "@ + delay)
        } else {
            Some(
                "mqtt: cannot connect to "@ + peer + ": "@ + error + hint + "; retrying in "@
                    + delay,
            )
        },
        OutageLog::Reminder => Some(
            "mqtt: still cannot connect to "@ + peer + " after "@ + decimal(o.failures as nat)
                + " attempts ("@ + decimal(
                (match o.since {
                    Some(at) => since(at, now),
                    None => 0,
                } / SECOND) as nat,
            ) + " s): "@ + error + hint + "; retrying every "@ + delay,
        ),
        OutageLog::Quiet => None,
    }
}

/// The connection failed or was lost: an open restore window dies with it, and the next attempt
/// waits for the backoff.
pub open spec fn error_step(l: LinkV, error: Seq<char>, f: ConnectFailure, now: u64) -> (
    LinkV,
    Seq<ActionV>,
) {
    let o = failed_once_more(l.outage, now);
    (
        LinkV {
            connected: false,
            outage: o,
            retry_at: Some(later(now, retry_span(o.failures as nat) as u64)),
            restore_deadline: None,
            ..l
        },
        match outage_text(l, o, error, hint_text(f), now) {
            Some(t) => seq![ActionV::Warn(t)],
            None => Seq::empty(),
        },
    )
}

/// The light changed on our side: published unless the link is down or still waits for the
/// retained state.
pub open spec fn changed_actions(l: LinkV, current: LightState) -> Seq<ActionV> {
    if l.restore_deadline is None && l.connected {
        seq![state_publish(l.topics, current)]
    } else {
        Seq::empty()
    }
}

/// The light that the process runs with once a restored one was handed on, or could not be.
pub open spec fn runs_with(restored: LightState, current: LightState, sent: bool) -> LightState {
    if sent {
        restored
    } else {
        current
    }
}

/// After the wait for the retained state.
pub open spec fn window_closed(l: LinkV) -> LinkV {
    LinkV { restore_deadline: None, restore_done: true, ..l }
}

/// The backoff has elapsed.
pub open spec fn retried(l: LinkV) -> LinkV {
    LinkV { retry_at: None, ..l }
}

/// A subscribe was sent with this packet id.
pub open spec fn subscribe_sent(l: LinkV, pkid: u16) -> LinkV {
    LinkV {
        sub_pkids: if l.sub_pkids.len() < SUBSCRIPTIONS {
            l.sub_pkids.push(pkid)
        } else {
            l.sub_pkids
        },
        ..l
    }
}

/// The action makes something of the light on our side.
pub open spec fn tells_light(l: LinkV, a: ActionV) -> bool {
    match a {
        ActionV::Restore { .. } => true,
        ActionV::Publish { topic, .. } => topic == l.topics.state,
        _ => false,
    }
}

impl Action {
    fn publish(topic: &str, payload: &str) -> (r: Action)
        ensures
            r@ == (ActionV::Publish { topic: topic@, payload: payload@ }),
    {
        Action::Publish { topic: topic.to_string(), payload: payload.to_string() }
    }
}

/// One more action.
fn push(out: &mut Vec<Action>, a: Action)
    ensures
        action_views(final(out)@) == action_views(old(out)@).push(a@),
{
    let ghost was = out@;
    out.push(a);
    assert(action_views(out@) =~= action_views(was).push(a@));
}

/// No action.
fn nothing() -> (r: Vec<Action>)
    ensures
        action_views(r@) == Seq::<ActionV>::empty(),
{
    let r: Vec<Action> = Vec::new();
    assert(action_views(r@) =~= Seq::<ActionV>::empty());
    r
}

/// One action.
fn one(a: Action) -> (r: Vec<Action>)
    ensures
        action_views(r@) == seq![a@],
{
    let mut r = nothing();
    push(&mut r, a);
    assert(action_views(r@) =~= seq![a@]);
    r
}

impl LightLink {
    /// The link before its first connection. Without a user the broker is reached anonymously.
    pub fn new(cfg: &Mqtt, user: Option<&str>) -> (r: LightLink)
        ensures
            r@ == new_link(*cfg, text::opt_text(user)),
    {
        let topics = Topics::from_cfg(cfg);
        let doc = discovery_payload(cfg, &topics);
        let discovery = render(&doc);
        LightLink {
            topics,
            discovery,
            host: cfg.host.clone(),
            port: cfg.port,
            user: match user {
                Some(u) => u.to_string(),
                None => "<anonymous>".to_string(),
            },
            connected: false,
            outage: Outage::new(),
            retry_at: None,
            sub_pkids: SubscribePkids::default(),
            retained_command_warned: false,
            restore_deadline: None,
            restore_done: false,
        }
    }

    fn state_action(&self, state: LightState) -> (r: Action)
        ensures
            r@ == state_publish(self.topics@, state),
    {
        let payload = state_payload(state);
        Action::publish(self.topics.state.as_str(), payload.as_str())
    }

    fn announce(&self) -> (r: Vec<Action>)
        ensures
            action_views(r@) == announcement(self@),
    {
        let mut out = nothing();
        push(&mut out, Action::publish(self.topics.config.as_str(), self.discovery.as_str()));
        push(&mut out, Action::publish(self.topics.availability.as_str(), "online"));
        assert(action_views(out@) =~= announcement(self@));
        out
    }

    /// Whether the next attempt may be made now.
    pub fn may_poll(&self) -> (r: bool)
        ensures
            r == (self.retry_at is None),
    {
        self.retry_at.is_none()
    }

    /// The broker accepted the connection.
    pub fn on_connack(&mut self, current: LightState, now: u64) -> (out: Vec<Action>)
        ensures
            (final(self)@, action_views(out@)) == connack_step(old(self)@, current, now),
    {
        self.connected = true;
        self.outage.reset();
        self.sub_pkids.reset();
        self.retained_command_warned = false;
        let mut out = self.announce();
        push(&mut out, Action::Subscribe { topic: self.topics.command.clone() });
        push(&mut out, Action::Subscribe { topic: self.topics.state.clone() });
        push(&mut out, Action::Subscribe { topic: HA_STATUS_TOPIC.to_string() });
        proof {
            let l = old(self)@;
            let subs = l.topics.subscribed().map_values(
                |t: Seq<char>| ActionV::Subscribe { topic: t },
            );
            assert(subs =~= seq![
                ActionV::Subscribe { topic: l.topics.command },
                ActionV::Subscribe { topic: l.topics.state },
                ActionV::Subscribe { topic: HA_STATUS_TOPIC@ },
            ]);
            assert(action_views(out@) =~= announcement(l) + subs);
        }
        if self.restore_done {
            let a = self.state_action(current);
            push(&mut out, a);
        } else {
            self.restore_deadline = Some(time::after(now, RESTORE_WINDOW));
        }
        out
    }

    /// The broker answered a subscription.
    pub fn on_suback(&self, pkid: u16, codes: &[SubscribeCode]) -> (out: Vec<Action>)
        ensures
            action_views(out@) == suback_actions(
                self@,
                pkid,
                codes@.len() == 0 || codes@.contains(SubscribeCode::Failure),
            ),
            action_views(out@) == suback_actions(self@, pkid, refuses(codes@)),
    {
        if !subscription_refused(codes) {
            return nothing();
        }
        let index = self.sub_pkids.index_of(pkid);
        let mut m = "mqtt: the broker refused the subscription to ".to_string();
        match index {
            Some(i) => {
                if i == 0 {
                    m.append(self.topics.command.as_str());
                } else if i == 1 {
                    m.append(self.topics.state.as_str());
                } else if i == 2 {
                    m.append(HA_STATUS_TOPIC);
                } else {
                    m.append("<unknown>");
                }
                m.append(": ");
                m.append(refusal_consequence(i));
            },
            None => {
                m.append("<unknown>");
                m.append(": ");
                m.append(refusal_consequence(SUBSCRIPTIONS));
            },
        }
        m.append("; check the broker ACL for user ");
        m.append(self.user.as_str());
        one(Action::Warn(m))
    }

    /// A subscribe left with this packet id, `false` when it is none of this session's.
    pub fn on_subscribe_sent(&mut self, pkid: u16) -> (r: bool)
        ensures
            r == (old(self)@.sub_pkids.len() < SUBSCRIPTIONS),
            final(self)@ == (LinkV {
                sub_pkids: if r {
                    old(self)@.sub_pkids.push(pkid)
                } else {
                    old(self)@.sub_pkids
                },
                ..old(self)@
            }),
            final(self)@ == subscribe_sent(old(self)@, pkid),
    {
        self.sub_pkids.sent(pkid)
    }

    /// A delivery.
    pub fn on_publish(
        &mut self,
        topic: &str,
        retain: bool,
        payload: &[u8],
        current: LightState,
    ) -> (out: Vec<Action>)
        ensures
            (final(self)@, action_views(out@)) == publish_step(
                old(self)@,
                topic@,
                retain,
                payload@,
                current,
            ),
    {
        if same(topic, self.topics.command.as_str()) {
            let shown = from_utf8_lossy(payload);
            self.on_command(decode_command(retain, payload), shown.as_str())
        } else if same(topic, self.topics.state.as_str()) {
            if self.restore_deadline.is_none() || !retain {
                nothing()
            } else {
                let shown = from_utf8_lossy(payload);
                self.on_retained_state(parse_command(payload), shown.as_str(), current)
            }
        } else if same(topic, HA_STATUS_TOPIC) {
            let status = from_utf8_lossy(payload);
            self.on_status(status.as_str(), current)
        } else {
            nothing()
        }
    }

    /// What was delivered on the command topic, and its payload as text.
    pub fn on_command(&mut self, delivered: Result<Command, CommandError>, payload: &str) -> (out:
        Vec<Action>)
        ensures
            (final(self)@, action_views(out@)) == command_step(
                old(self)@,
                command_view(delivered),
                payload@,
            ),
    {
        match delivered {
            Ok(c) => one(Action::Command(c.into_set())),
            Err(CommandError::Retained) => {
                if self.retained_command_warned {
                    nothing()
                } else {
                    self.retained_command_warned = true;
                    let mut m =
                        "mqtt: ignoring a retained command (stale, it would be re-applied after every reconnect); clear it with an empty retained publish: mosquitto_pub -r -n -t '".to_string();
                    m.append(self.topics.command.as_str());
                    m.append("'");
                    m.append(self.shown_payload(payload).as_str());
                    one(Action::Warn(m))
                }
            },
            Err(e) => {
                let mut m = concat("mqtt: ignoring command: ", e.message().as_str());
                m.append(self.shown_payload(payload).as_str());
                one(Action::Warn(m))
            },
        }
    }

    /// The command topic and the start of a payload, for the journal.
    fn shown_payload(&self, payload: &str) -> (r: String)
        ensures
            r@ == " topic="@ + self.topics.command@ + " payload="@ + preview_of(payload@),
    {
        let mut m = concat(" topic=", self.topics.command.as_str());
        m.append(" payload=");
        m.append(preview(payload).as_str());
        m
    }

    /// The retained state that the restore window was open for, and its payload as text.
    pub fn on_retained_state(
        &mut self,
        retained: Result<Command, CommandError>,
        payload: &str,
        current: LightState,
    ) -> (out: Vec<Action>)
        ensures
            (final(self)@, action_views(out@)) == retained_step(
                old(self)@,
                command_view(retained),
                payload@,
                current,
            ),
    {
        self.restore_deadline = None;
        self.restore_done = true;
        match retained {
            Ok(c) => one(Action::Restore { restored: c.restore(current), current }),
            Err(e) => {
                let mut m = concat("mqtt: retained state is unreadable (", e.message().as_str());
                m.append("), keeping ours payload=");
                m.append(preview(payload).as_str());
                let mut out = one(Action::Warn(m));
                let a = self.state_action(current);
                push(&mut out, a);
                proof {
                    let want = retained_step(
                        old(self)@,
                        command_view(retained),
                        payload@,
                        current,
                    ).1;
                    assert(action_views(out@) =~= want);
                }
                out
            },
        }
    }

    /// Whether the actions make something of the light on our side: they publish it, or weigh it
    /// against a retained one.
    pub fn tells_the_light(&self, actions: &Vec<Action>) -> (r: bool)
        ensures
            r == exists|i: int|
                0 <= i < actions@.len() && tells_light(self@, (#[trigger] actions@[i])@),
    {
        let mut i: usize = 0;
        while i < actions.len()
            invariant
                i <= actions@.len(),
                forall|k: int| 0 <= k < i ==> !tells_light(self@, (#[trigger] actions@[k])@),
            decreases actions@.len() - i,
        {
            let tells = match &actions[i] {
                Action::Restore { .. } => true,
                Action::Publish { topic, .. } => same(topic.as_str(), self.topics.state.as_str()),
                _ => false,
            };
            if tells {
                assert(tells_light(self@, actions@[i as int]@));
                return true;
            }
            i = i + 1;
        }
        false
    }

    /// Home Assistant's status.
    pub fn on_status(&self, status: &str, current: LightState) -> (out: Vec<Action>)
        ensures
            action_views(out@) == status_actions(self@, status@, current),
    {
        if same(text::trim(status), "online") {
            let mut out = self.announce();
            if self.restore_deadline.is_none() {
                let a = self.state_action(current);
                push(&mut out, a);
            }
            out
        } else {
            nothing()
        }
    }

    /// The restored state reached the screen, or the screen is gone: what is published is what the
    /// process runs with.
    pub fn restore_sent(&self, restored: LightState, current: LightState, sent: bool) -> (a: Action)
        ensures
            a@ == state_publish(self@.topics, if sent { restored } else { current }),
            a@ == state_publish(self@.topics, runs_with(restored, current, sent)),
    {
        self.state_action(if sent { restored } else { current })
    }

    /// The connection failed or was lost.
    pub fn on_error(&mut self, error: &str, f: ConnectFailure, now: u64) -> (out: Vec<Action>)
        ensures
            (final(self)@, action_views(out@)) == error_step(old(self)@, error@, f, now),
    {
        let ghost l = self@;
        self.restore_deadline = None;
        let (delay, log) = self.outage.failed(now);
        let ghost o = self.outage;
        let mut delay_text = text::decimal_text(delay / SECOND);
        delay_text.append("s");
        let out = match log {
            OutageLog::First => {
                let mut m = String::new();
                if self.connected {
                    m.append("mqtt: connection lost: ");
                } else {
                    m.append("mqtt: cannot connect to ");
                    m.append(self.host.as_str());
                    m.append(":");
                    push_decimal(&mut m, self.port as u64);
                    m.append(": ");
                }
                m.append(error);
                m.append(connect_hint(f));
                m.append(if self.connected { "; reconnecting in " } else { "; retrying in " });
                m.append(delay_text.as_str());
                assert(m@ =~= outage_text(l, o, error@, hint_text(f), now)->0);
                one(Action::Warn(m))
            },
            OutageLog::Reminder => {
                let mut m = "mqtt: still cannot connect to ".to_string();
                m.append(self.host.as_str());
                m.append(":");
                push_decimal(&mut m, self.port as u64);
                m.append(" after ");
                push_decimal(&mut m, self.outage.failures as u64);
                m.append(" attempts (");
                push_decimal(&mut m, self.outage.elapsed(now) / SECOND);
                m.append(" s): ");
                m.append(error);
                m.append(connect_hint(f));
                m.append("; retrying every ");
                m.append(delay_text.as_str());
                assert(m@ =~= outage_text(l, o, error@, hint_text(f), now)->0);
                one(Action::Warn(m))
            },
            OutageLog::Quiet => nothing(),
        };
        self.connected = false;
        self.retry_at = Some(time::after(now, delay));
        out
    }

    /// The backoff has elapsed.
    pub fn on_retry(&mut self)
        ensures
            final(self)@ == (LinkV { retry_at: None, ..old(self)@ }),
            final(self)@ == retried(old(self)@),
    {
        self.retry_at = None;
    }

    /// The light changed on our side.
    pub fn on_state_changed(&self, current: LightState) -> (out: Vec<Action>)
        ensures
            action_views(out@) == changed_actions(self@, current),
    {
        if self.restore_deadline.is_none() && self.connected {
            one(self.state_action(current))
        } else {
            nothing()
        }
    }

    /// No retained state came within the restore window: ours is published.
    pub fn on_restore_timeout(&mut self, current: LightState) -> (out: Vec<Action>)
        ensures
            final(self)@ == (LinkV {
                restore_deadline: None,
                restore_done: true,
                ..old(self)@
            }),
            action_views(out@) == seq![state_publish(old(self)@.topics, current)],
            final(self)@ == window_closed(old(self)@),
    {
        self.restore_deadline = None;
        self.restore_done = true;
        one(self.state_action(current))
    }
}

} // verus!
