//! What the networking side and the screen tell each other.
use vstd::prelude::*;
use vstd::string::*;
use crate::json::{Json, JsonV, text_of};
use crate::map::{at, TextMap};
use crate::text;

verus! {

/// One Home Assistant entity, as merged from the compressed stream of changes.
#[derive(Debug, PartialEq)]
pub struct EntityState {
    /// `"on"`, `"off"`, `"12.5"`, `"sunny"`, `"unavailable"`, ...
    pub state: String,
    pub attributes: TextMap<Json>,
}

/// The model of an `EntityState`.
#[verifier::ext_equal]
pub struct EntityV {
    pub state: Seq<char>,
    pub attributes: Map<Seq<char>, JsonV>,
}

impl View for EntityState {
    type V = EntityV;

    open spec fn view(&self) -> EntityV {
        EntityV { state: self.state@, attributes: self.attributes@ }
    }
}

/// An entity of which nothing is known yet.
pub open spec fn blank_entity() -> EntityV {
    EntityV { state: Seq::empty(), attributes: Map::empty() }
}

impl Default for EntityState {
    /// An entity of which nothing is known yet.
    fn default() -> (r: EntityState)
        ensures
            r@ == blank_entity(),
    {
        EntityState { state: String::new(), attributes: TextMap::new() }
    }
}

impl Clone for EntityState {
    /// The same state again.
    fn clone(&self) -> (r: EntityState)
        ensures
            r@ == self@,
    {
        EntityState { state: self.state.clone(), attributes: self.attributes.clone() }
    }
}

/// Any state but `unavailable`, `unknown` and the empty one.
pub open spec fn available(state: Seq<char>) -> bool {
    state.len() > 0 && state != "unavailable"@ && state != "unknown"@
}

/// The text that the attribute `key` holds.
pub open spec fn text_attribute(e: EntityV, key: Seq<char>) -> Option<Seq<char>> {
    match at(e.attributes, key) {
        Some(v) => text_of(v),
        None => None,
    }
}

impl EntityState {
    /// The text of an attribute.
    pub fn attr_str(&self, key: &str) -> (r: Option<&str>)
        ensures
            text::opt_text(r) == text_attribute(self@, key@),
    {
        match self.attributes.get(key) {
            Some(v) => v.as_str(),
            None => None,
        }
    }

    /// `false` for `unavailable` and `unknown`, and for an empty state.
    pub fn is_available(&self) -> (r: bool)
        ensures
            r == available(self.state@),
    {
        let s = self.state.as_str();
        s.unicode_len() > 0 && !text::same(s, "unavailable") && !text::same(s, "unknown")
    }

    /// Whether the state is `on`.
    pub fn is_on(&self) -> (r: bool)
        ensures
            r == (self.state@ == "on"@),
    {
        text::same(self.state.as_str(), "on")
    }
}

/// From the Home Assistant link to the screen.
#[derive(Debug, PartialEq)]
pub enum HaEvent {
    /// Authenticated and subscribed. The initial snapshot follows as `StateChanged` events.
    Connected,
    /// Connection dropped. The link keeps reconnecting on its own.
    Disconnected { reason: String },
    /// Full merged state of an entity after an add or a change.
    StateChanged { entity_id: String, state: EntityState },
    /// The entity disappeared from the subscription.
    StateRemoved { entity_id: String },
    /// Outcome of a `ServiceCall` (`request` echoes `ServiceCall::request`).
    CallResult { request: u64, success: bool, error: Option<String> },
}

/// The model of a `HaEvent`.
#[verifier::ext_equal]
pub enum HaEventV {
    Connected,
    Disconnected { reason: Seq<char> },
    StateChanged { entity_id: Seq<char>, state: EntityV },
    StateRemoved { entity_id: Seq<char> },
    CallResult { request: u64, success: bool, error: Option<Seq<char>> },
}

impl View for HaEvent {
    type V = HaEventV;

    open spec fn view(&self) -> HaEventV {
        match self {
            HaEvent::Connected => HaEventV::Connected,
            HaEvent::Disconnected { reason } => HaEventV::Disconnected { reason: reason@ },
            HaEvent::StateChanged { entity_id, state } => HaEventV::StateChanged {
                entity_id: entity_id@,
                state: state@,
            },
            HaEvent::StateRemoved { entity_id } => HaEventV::StateRemoved { entity_id: entity_id@ },
            HaEvent::CallResult { request, success, error } => HaEventV::CallResult {
                request: *request,
                success: *success,
                error: text::opt_string(*error),
            },
        }
    }
}

/// The models of a list of events.
pub open spec fn event_views(v: Seq<HaEvent>) -> Seq<HaEventV> {
    v.map_values(|e: HaEvent| e@)
}

/// The answer to a call that was not carried out.
pub open spec fn refused(request: u64, why: Seq<char>) -> HaEventV {
    HaEventV::CallResult { request, success: false, error: Some(why) }
}

/// From the screen to the Home Assistant link: one `call_service` command.
#[derive(Debug, PartialEq, Clone)]
pub struct ServiceCall {
    /// Correlation id chosen by the screen, echoed back in `HaEvent::CallResult`.
    pub request: u64,
    pub domain: String,
    pub service: String,
    /// JSON object, or null when there is no service data.
    pub service_data: Json,
    /// `target.entity_id`
    pub entity_ids: Vec<String>,
}

/// The model of a `ServiceCall`.
#[verifier::ext_equal]
pub struct ServiceCallV {
    pub request: u64,
    pub domain: Seq<char>,
    pub service: Seq<char>,
    pub service_data: JsonV,
    pub entity_ids: Seq<Seq<char>>,
}

impl View for ServiceCall {
    type V = ServiceCallV;

    open spec fn view(&self) -> ServiceCallV {
        ServiceCallV {
            request: self.request,
            domain: self.domain@,
            service: self.service@,
            service_data: self.service_data@,
            entity_ids: text::texts(self.entity_ids@),
        }
    }
}

/// The "Bar display" light as seen by Home Assistant.
#[derive(Clone, Copy, Debug, PartialEq, Eq, Structural)]
pub struct LightState {
    pub on: bool,
    /// 1..=255. Kept at its last value while `on == false`.
    pub brightness: u8,
}

impl Default for LightState {
    /// On, at full brightness.
    fn default() -> (r: LightState)
        ensures
            r == (LightState { on: true, brightness: 255 }),
    {
        LightState { on: true, brightness: 255 }
    }
}

/// A brightness of zero counts as one.
pub open spec fn lit(b: u8) -> u8 {
    if b == 0 {
        1
    } else {
        b
    }
}

impl LightState {
    /// The same light at brightness `b`, where zero counts as one.
    pub fn with_brightness(self, b: u8) -> (r: LightState)
        ensures
            r == (LightState { on: self.on, brightness: lit(b) }),
    {
        LightState { on: self.on, brightness: if b == 0 { 1 } else { b } }
    }
}

/// From the MQTT side to the screen.
#[derive(Clone, Debug, PartialEq)]
pub enum LightCommand {
    /// A command from Home Assistant (`<base_topic>/set`). The transition is in seconds, as a
    /// JSON number, never negative.
    Apply { on: bool, brightness: Option<u8>, transition: Option<String> },
    /// The retained state found on the broker at startup.
    Restore(LightState),
}

/// The model of a `LightCommand`.
#[verifier::ext_equal]
pub enum LightCommandV {
    Apply { on: bool, brightness: Option<u8>, transition: Option<Seq<char>> },
    Restore(LightState),
}

impl View for LightCommand {
    type V = LightCommandV;

    open spec fn view(&self) -> LightCommandV {
        match self {
            LightCommand::Apply { on, brightness, transition } => LightCommandV::Apply {
                on: *on,
                brightness: *brightness,
                transition: text::opt_string(*transition),
            },
            LightCommand::Restore(s) => LightCommandV::Restore(*s),
        }
    }
}

} // verus!
