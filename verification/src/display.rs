//! The panel: its power, an optional backlight, the clock check and the remembered brightness.
use vstd::prelude::*;
use vstd::string::*;
use crate::text::{
    before, begins, decimal, decimal_text, is_before, is_digit, lemma_before_chain,
    lemma_before_itself, lemma_decimal, parse_unsigned, parsed_unsigned, push_decimal, same,
    split_words, strip_prefix, texts, trim, trimmed, white, word_len, words,
};
use crate::types::LightState;

verus! {

// ---------------- panel power ----------------

/// One property of a display connector.
#[derive(Clone, Debug, PartialEq, Eq)]
pub struct Property {
    /// Its name, where it is readable.
    pub name: Option<String>,
    pub value: u64,
}

/// One display connector.
#[derive(Clone, Debug, PartialEq, Eq)]
pub struct Connector {
    /// The kind of interface: `HDMI-A`.
    pub interface: String,
    pub interface_id: u32,
    pub connected: bool,
    pub properties: Vec<Property>,
}

/// The property is the legacy power switch.
pub open spec fn is_dpms(p: Property) -> bool {
    p.name matches Some(n) && n@ == "DPMS"@
}

/// The place of the first power switch among the properties, or their number.
pub open spec fn dpms_place(props: Seq<Property>) -> int
    decreases props.len(),
{
    if props.len() == 0 || is_dpms(props[0]) {
        0
    } else {
        1 + dpms_place(props.drop_first())
    }
}

/// The connector has a display on it, and a power switch.
pub open spec fn switchable(c: Connector) -> bool {
    c.connected && dpms_place(c.properties@) < c.properties@.len()
}

/// The place of the first connector that can be switched, or their number.
pub open spec fn switchable_place(cs: Seq<Connector>) -> int
    decreases cs.len(),
{
    if cs.len() == 0 || switchable(cs[0]) {
        0
    } else {
        1 + switchable_place(cs.drop_first())
    }
}

fn find_dpms(props: &Vec<Property>) -> (r: usize)
    ensures
        r == dpms_place(props@),
        r <= props@.len(),
        r < props@.len() ==> is_dpms(props@[r as int]),
{
    let mut i: usize = 0;
    assert(props@.skip(0) =~= props@);
    while i < props.len()
        invariant
            i <= props@.len(),
            dpms_place(props@) == i + dpms_place(props@.skip(i as int)),
        decreases props@.len() - i,
    {
        assert(props@.skip(i as int)[0] == props@[i as int]);
        let found = match &props[i].name {
            Some(n) => same(n.as_str(), "DPMS"),
            None => false,
        };
        if found {
            return i;
        }
        assert(props@.skip(i as int).drop_first() =~= props@.skip(i + 1));
        i = i + 1;
    }
    i
}

/// The power of the connected panel.
#[derive(Clone, Debug, PartialEq, Eq)]
pub struct Dpms {
    pub connector_name: String,
    /// Whether the panel is powered.
    pub on: bool,
}

/// `HDMI-A-1`
pub open spec fn connector_text(c: Connector) -> Seq<char> {
    c.interface@ + "-"@ + decimal(c.interface_id as nat)
}

/// What is written to turn the panel on or off, nothing where it already is.
pub open spec fn power_request(is_on: bool, on: bool) -> Option<u64> {
    if is_on == on {
        None
    } else if on {
        Some(0)
    } else {
        Some(3)
    }
}

/// The power switch says that the panel is on.
pub open spec fn powered(value: u64) -> bool {
    value == 0
}

impl Dpms {
    /// The first connector with a display on it and a power switch: its place, the place of the
    /// switch among its properties, and its power.
    pub fn discover(connectors: &Vec<Connector>) -> (r: Option<(usize, usize, Dpms)>)
        ensures
            match r {
                Some((c, p, d)) => {
                    &&& c == switchable_place(connectors@)
                    &&& c < connectors@.len()
                    &&& p == dpms_place(connectors@[c as int].properties@)
                    &&& p < connectors@[c as int].properties@.len()
                    &&& d.connector_name@ == connector_text(connectors@[c as int])
                    &&& d.on == (connectors@[c as int].properties@[p as int].value == 0)
                    &&& d.on == powered(connectors@[c as int].properties@[p as int].value)
                },
                None => switchable_place(connectors@) == connectors@.len(),
            },
    {
        let mut i: usize = 0;
        assert(connectors@.skip(0) =~= connectors@);
        while i < connectors.len()
            invariant
                i <= connectors@.len(),
                switchable_place(connectors@) == i + switchable_place(connectors@.skip(i as int)),
            decreases connectors@.len() - i,
        {
            assert(connectors@.skip(i as int)[0] == connectors@[i as int]);
            let p = find_dpms(&connectors[i].properties);
            if connectors[i].connected && p < connectors[i].properties.len() {
                let mut name = connectors[i].interface.clone();
                name.append("-");
                push_decimal(&mut name, connectors[i].interface_id as u64);
                let on = connectors[i].properties[p].value == 0;
                return Some((i, p, Dpms { connector_name: name, on }));
            }
            assert(connectors@.skip(i as int).drop_first() =~= connectors@.skip(i + 1));
            i = i + 1;
        }
        None
    }

    /// The value to write for the panel to be on (0) or off (3), nothing where it already is.
    pub fn request(&self, on: bool) -> (r: Option<u64>)
        ensures
            r == if self.on == on {
                None::<u64>
            } else if on {
                Some(0u64)
            } else {
                Some(3u64)
            },
            r == power_request(self.on, on),
    {
        if self.on == on {
            None
        } else if on {
            Some(0)
        } else {
            Some(3)
        }
    }

    /// The value was written.
    pub fn set_on(&mut self, on: bool)
        ensures
            final(self).on == on,
            final(self).connector_name == old(self).connector_name,
    {
        self.on = on;
    }

    /// Whether the panel is powered.
    pub fn is_on(&self) -> (r: bool)
        ensures
            r == self.on,
    {
        self.on
    }
}

/// Whether an open file is a display card.
pub fn is_card(path: &str) -> (r: bool)
    ensures
        r == begins(path@, "/dev/dri/card"@),
{
    strip_prefix(path, "/dev/dri/card").is_some()
}

/// Whether a display has to be attached before the window is made.
pub fn needs_display(backend: &str) -> (r: bool)
    ensures
        r == begins(backend@, "linuxkms"@),
{
    strip_prefix(backend, "linuxkms").is_some()
}

/// Some status says that a display is attached.
pub open spec fn attached(statuses: Seq<Seq<char>>) -> bool {
    exists|i: int| 0 <= i < statuses.len() && trimmed(#[trigger] statuses[i]) == "connected"@
}

/// Whether some connector's status says that a display is attached.
pub fn any_connected(statuses: &Vec<String>) -> (r: bool)
    ensures
        r == exists|i: int|
            0 <= i < statuses@.len() && trimmed((#[trigger] statuses@[i])@) == "connected"@,
        r == attached(texts(statuses@)),
{
    let mut i: usize = 0;
    while i < statuses.len()
        invariant
            i <= statuses@.len(),
            forall|k: int|
                0 <= k < i ==> trimmed((#[trigger] statuses@[k])@) != "connected"@,
        decreases statuses@.len() - i,
    {
        if same(trim(statuses[i].as_str()), "connected") {
            assert(trimmed(statuses@[i as int]@) == "connected"@);
            assert(trimmed(texts(statuses@)[i as int]) == "connected"@);
            return true;
        }
        i = i + 1;
    }
    assert forall|k: int| 0 <= k < texts(statuses@).len() implies trimmed(
        #[trigger] texts(statuses@)[k],
    ) != "connected"@ by {
        assert(trimmed(statuses@[k]@) != "connected"@);
    }
    false
}

/// How long to sleep between two looks for a display, in seconds.
pub const DISPLAY_POLL_S: u64 = 2;

/// What to do about a display that may not be attached.
#[derive(Clone, Copy, Debug, PartialEq, Eq, Structural)]
pub enum DisplayWait {
    /// It was attached from the start.
    Ready,
    /// It was attached while waiting: give the kernel a moment to publish its modes.
    Settle,
    /// Look again after `DISPLAY_POLL_S`. Every half minute somebody should be told.
    Wait { warn: bool },
}

/// What to do after waiting for so many seconds.
pub open spec fn wait_for(connected: bool, waited_s: u64) -> DisplayWait {
    if !connected {
        DisplayWait::Wait { warn: waited_s % 30 == 0 }
    } else if waited_s > 0 {
        DisplayWait::Settle
    } else {
        DisplayWait::Ready
    }
}

/// What to do after waiting for so many seconds.
pub fn display_wait(connected: bool, waited_s: u64) -> (r: DisplayWait)
    ensures
        r == if !connected {
            DisplayWait::Wait { warn: waited_s % 30 == 0 }
        } else if waited_s > 0 {
            DisplayWait::Settle
        } else {
            DisplayWait::Ready
        },
        r == wait_for(connected, waited_s),
{
    if !connected {
        DisplayWait::Wait { warn: waited_s % 30 == 0 }
    } else if waited_s > 0 {
        DisplayWait::Settle
    } else {
        DisplayWait::Ready
    }
}

// ---------------- backlight ----------------

/// A backlight of the system, when the panel exposes one.
#[derive(Clone, Debug, PartialEq, Eq)]
pub struct Backlight {
    dir: String,
    max: u32,
    has_bl_power: bool,
}

/// One value to write to a file of the backlight.
#[derive(Clone, Debug, PartialEq, Eq)]
pub struct BacklightWrite {
    pub file: String,
    pub value: String,
}

/// The files and what they are to hold, by their characters.
pub open spec fn write_views(v: Seq<BacklightWrite>) -> Seq<(Seq<char>, Seq<char>)> {
    v.map_values(|w: BacklightWrite| (w.file@, w.value@))
}

/// The level of the hardware for a level of 1..=255: scaled to the hardware's range, rounded to
/// the nearest, never below 1.
pub open spec fn hardware_level(level: u8, max: u32) -> int {
    let scaled = (2 * level * max + 255) / 510;
    if scaled < 1 {
        1
    } else {
        scaled
    }
}

/// What is written for a level: 0 turns the backlight off.
pub open spec fn backlight_writes(level: u8, max: u32, has_bl_power: bool) -> Seq<
    (Seq<char>, Seq<char>),
> {
    let power = ("bl_power"@, if level == 0 { "4"@ } else { "0"@ });
    let brightness = (
        "brightness"@,
        if level == 0 {
            "0"@
        } else {
            decimal(hardware_level(level, max) as nat)
        },
    );
    if has_bl_power {
        seq![power, brightness]
    } else {
        seq![brightness]
    }
}

/// No name in the list comes before this one.
pub open spec fn is_first(names: Seq<Seq<char>>, i: int) -> bool {
    &&& 0 <= i < names.len()
    &&& forall|k: int| 0 <= k < names.len() ==> !before(#[trigger] names[k], names[i])
}

/// The first of the names in their order, if there is any.
pub fn first_name(names: &Vec<String>) -> (r: Option<usize>)
    ensures
        match r {
            Some(i) => is_first(texts(names@), i as int),
            None => names@.len() == 0,
        },
{
    if names.len() == 0 {
        return None;
    }
    let mut best: usize = 0;
    let mut i: usize = 1;
    proof {
        lemma_before_itself(names@[0]@);
    }
    while i < names.len()
        invariant
            best < i <= names@.len(),
            forall|k: int| 0 <= k < i ==> !before(#[trigger] texts(names@)[k], texts(names@)[best as int]),
        decreases names@.len() - i,
    {
        let ghost t = texts(names@);
        proof {
            lemma_before_itself(t[i as int]);
        }
        if is_before(names[i].as_str(), names[best].as_str()) {
            proof {
                assert forall|k: int| 0 <= k < i + 1 implies !before(#[trigger] t[k], t[i as int]) by {
                    if before(t[k], t[i as int]) {
                        lemma_before_chain(t[k], t[i as int], t[best as int]);
                    }
                }
            }
            best = i;
        }
        i = i + 1;
    }
    Some(best)
}

impl Backlight {
    /// The directory, the highest level, and whether there is a power file.
    pub closed spec fn parts(self) -> (Seq<char>, u32, bool) {
        (self.dir@, self.max, self.has_bl_power)
    }

    /// The backlight in a directory, given what its `max_brightness` holds and whether there is a
    /// `bl_power`. None where that is no number.
    pub fn discover(dir: &str, max_brightness: &str, has_bl_power: bool) -> (r: Option<Backlight>)
        ensures
            match parsed_unsigned(trimmed(max_brightness@), u32::MAX as nat) {
                Some(max) => r matches Some(b) && b.parts() == (
                    dir@,
                    (if max == 0 { 1nat } else { max }) as u32,
                    has_bl_power,
                ),
                None => r is None,
            },
    {
        match parse_unsigned(trim(max_brightness), u32::MAX as u64) {
            Some(max) => Some(
                Backlight {
                    dir: dir.to_string(),
                    max: if max == 0 { 1 } else { max as u32 },
                    has_bl_power,
                },
            ),
            None => None,
        }
    }

    /// The directory of the backlight.
    pub fn path(&self) -> (r: &str)
        ensures
            r@ == self.parts().0,
    {
        self.dir.as_str()
    }

    /// What to write for a level, in order. 0 turns the backlight off, 1..=255 is scaled to the
    /// hardware range (never below 1).
    pub fn set(&self, level: u8) -> (r: Vec<BacklightWrite>)
        ensures
            write_views(r@) == backlight_writes(level, self.parts().1, self.parts().2),
    {
        let mut out: Vec<BacklightWrite> = Vec::new();
        let value = if level == 0 {
            "0".to_string()
        } else {
            let max = self.max;
            assert(2 * level * max <= 2 * 255 * 0xffff_ffff) by (nonlinear_arith)
                requires
                    level <= 255,
                    max <= 0xffff_ffff,
            ;
            let scaled: u64 = (2 * (level as u64) * (max as u64) + 255) / 510;
            decimal_text(if scaled < 1 { 1 } else { scaled })
        };
        if self.has_bl_power {
            let power = if level == 0 { "4".to_string() } else { "0".to_string() };
            out.push(BacklightWrite { file: "bl_power".to_string(), value: power });
        }
        out.push(BacklightWrite { file: "brightness".to_string(), value });
        assert(write_views(out@) =~= backlight_writes(level, self.max, self.has_bl_power));
        out
    }
}

// ---------------- clock check ----------------

/// The kernel clock is synchronized, by what `adjtimex` answered or by the marker.
pub open spec fn synchronized(rc: i32, status: i32, marker: bool) -> bool {
    if rc >= 0 {
        rc != 5 && (status & 0x40) == 0
    } else {
        marker
    }
}

/// Whether the kernel clock is synchronized: by the answer of `adjtimex` and the status bits it
/// gave, or where it failed by the marker file of the time service.
pub fn time_is_synced(rc: i32, status: i32, marker: bool) -> (r: bool)
    ensures
        r == if rc >= 0 {
            rc != 5 && (status & 0x40) == 0
        } else {
            marker
        },
        r == synchronized(rc, status, marker),
{
    if rc >= 0 {
        rc != 5 && (status & 0x40) == 0
    } else {
        marker
    }
}

// ---------------- the remembered light ----------------

/// The state that a text remembers: `on 255`, `off 120`. Anything else is forgotten.
pub open spec fn remembered(t: Seq<char>) -> Option<LightState> {
    let w = words(t);
    if w.len() < 2 || !(w[0] == "on"@ || w[0] == "off"@) {
        None
    } else {
        match parsed_unsigned(w[1], 255) {
            Some(b) => if b == 0 {
                None
            } else {
                Some(LightState { on: w[0] == "on"@, brightness: b as u8 })
            },
            None => None,
        }
    }
}

/// The text that remembers a state.
pub open spec fn memory_of(s: LightState) -> Seq<char> {
    (if s.on {
        "on"@
    } else {
        "off"@
    }) + " "@ + decimal(s.brightness as nat) + "\n"@
}

/// Reads the remembered state.
pub fn load_light_state(t: &str) -> (r: Option<LightState>)
    ensures
        r == remembered(t@),
{
    let w = split_words(t);
    if w.len() < 2 {
        return None;
    }
    assert(words(t@)[0] == w@[0]@);
    assert(words(t@)[1] == w@[1]@);
    let on = if same(w[0].as_str(), "on") {
        true
    } else if same(w[0].as_str(), "off") {
        proof {
            reveal_strlit("on");
            reveal_strlit("off");
        }
        false
    } else {
        return None;
    };
    match parse_unsigned(w[1].as_str(), 255) {
        Some(b) => if b == 0 {
            None
        } else {
            Some(LightState { on, brightness: b as u8 })
        },
        None => None,
    }
}

/// Writes the state to remember.
pub fn save_light_state(s: LightState) -> (r: String)
    ensures
        r@ == memory_of(s),
{
    let mut t = if s.on { "on".to_string() } else { "off".to_string() };
    t.append(" ");
    push_decimal(&mut t, s.brightness as u64);
    t.append("\n");
    t
}

/// A word, a blank, another word and a blank are two words.
proof fn lemma_two_words(a: Seq<char>, x: char, b: Seq<char>, y: char)
    requires
        a.len() > 0,
        b.len() > 0,
        white(x),
        white(y),
        forall|i: int| 0 <= i < a.len() ==> !white(#[trigger] a[i]),
        forall|i: int| 0 <= i < b.len() ==> !white(#[trigger] b[i]),
    ensures
        words(a + seq![x] + b + seq![y]) == seq![a, b],
{
    let s = a + seq![x] + b + seq![y];
    let rest = seq![x] + b + seq![y];
    lemma_word_ends(a, rest);
    assert(s =~= a + rest);
    assert(s.take(a.len() as int) =~= a);
    assert(s.skip(a.len() as int) =~= rest);
    let tail = b + seq![y];
    assert(rest.drop_first() =~= tail);
    lemma_word_ends(b, seq![y]);
    assert(tail.take(b.len() as int) =~= b);
    assert(tail.skip(b.len() as int) =~= seq![y]);
    let last = seq![y];
    assert(last.drop_first() =~= Seq::empty());
    assert(words(Seq::<char>::empty()) =~= Seq::empty());
    assert(words(last) =~= Seq::empty());
    assert(words(tail) =~= seq![b]);
    assert(words(rest) =~= seq![b]);
    assert(words(s) =~= seq![a, b]);
}

/// A word ends where white space begins.
proof fn lemma_word_ends(a: Seq<char>, rest: Seq<char>)
    requires
        rest.len() > 0,
        white(rest[0]),
        forall|i: int| 0 <= i < a.len() ==> !white(#[trigger] a[i]),
    ensures
        word_len(a + rest) == a.len(),
    decreases a.len(),
{
    let s = a + rest;
    if a.len() > 0 {
        assert(s[0] == a[0]);
        assert(s.drop_first() =~= a.drop_first() + rest);
        assert forall|i: int| 0 <= i < a.drop_first().len() implies !white(
            #[trigger] a.drop_first()[i],
        ) by {
            assert(a.drop_first()[i] == a[i + 1]);
        }
        lemma_word_ends(a.drop_first(), rest);
    } else {
        assert(s =~= rest);
    }
}

/// What is saved is what is loaded: the state of a light, whose brightness is never zero, survives
/// a restart.
pub proof fn saved_light_is_remembered(s: LightState)
    requires
        s.brightness >= 1,
    ensures
        remembered(memory_of(s)) == Some(s),
{
    reveal_strlit("on");
    reveal_strlit("off");
    reveal_strlit(" ");
    reveal_strlit("\n");
    let a = if s.on {
        "on"@
    } else {
        "off"@
    };
    let b = decimal(s.brightness as nat);
    lemma_decimal(s.brightness as nat);
    assert forall|i: int| 0 <= i < a.len() implies !white(#[trigger] a[i]) by {}
    assert forall|i: int| 0 <= i < b.len() implies !white(#[trigger] b[i]) by {
        assert(is_digit(b[i]));
    }
    lemma_two_words(a, ' ', b, '\n');
    assert(" "@ =~= seq![' ']);
    assert("\n"@ =~= seq!['\n']);
    assert(memory_of(s) =~= a + seq![' '] + b + seq!['\n']);
    assert(words(memory_of(s)) == seq![a, b]);
    assert("on"@.len() != "off"@.len());
}

} // verus!
