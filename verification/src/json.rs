//! JSON values, read and written with `serde_json`.
//!
//! A `Json` holds what a JSON text says: a number by its text, an object by its members in order.
//! `JsonV` is its mathematical model, which the contracts speak of.
use vstd::prelude::*;
use vstd::string::*;
use crate::text;

verus! {

/// A JSON value.
#[derive(Debug, PartialEq)]
pub enum Json {
    Null,
    Bool(bool),
    /// A number, by its text: `15`, `-3`, `1.5`.
    Number(String),
    Text(String),
    Array(Vec<Json>),
    /// The members of an object, in order.
    Object(Vec<(String, Json)>),
}

/// The model of a `Json`.
#[verifier::ext_equal]
pub enum JsonV {
    Null,
    Bool(bool),
    Number(Seq<char>),
    Text(Seq<char>),
    Array(Seq<JsonV>),
    Object(Seq<(Seq<char>, JsonV)>),
}

/// What a `Json` models.
pub open spec fn json_view(j: Json) -> JsonV
    decreases j,
{
    match j {
        Json::Null => JsonV::Null,
        Json::Bool(b) => JsonV::Bool(b),
        Json::Number(t) => JsonV::Number(t@),
        Json::Text(t) => JsonV::Text(t@),
        Json::Array(v) => JsonV::Array(
            Seq::new(
                v@.len(),
                |i: int|
                    if 0 <= i < v@.len() {
                        json_view(v@[i])
                    } else {
                        JsonV::Null
                    },
            ),
        ),
        Json::Object(m) => JsonV::Object(
            Seq::new(
                m@.len(),
                |i: int|
                    if 0 <= i < m@.len() {
                        (m@[i].0@, json_view(m@[i].1))
                    } else {
                        (Seq::empty(), JsonV::Null)
                    },
            ),
        ),
    }
}

impl View for Json {
    type V = JsonV;

    open spec fn view(&self) -> JsonV {
        json_view(*self)
    }
}

/// The models of a list of values.
pub open spec fn views(v: Seq<Json>) -> Seq<JsonV> {
    Seq::new(v.len(), |i: int| v[i]@)
}

/// The models of the members of an object.
pub open spec fn members(m: Seq<(String, Json)>) -> Seq<(Seq<char>, JsonV)> {
    Seq::new(m.len(), |i: int| (m[i].0@, m[i].1@))
}

/// An array models the list of its items' models.
pub broadcast proof fn lemma_array_view(v: Vec<Json>)
    ensures
        #[trigger] json_view(Json::Array(v)) == JsonV::Array(views(v@)),
{
    assert(json_view(Json::Array(v))->Array_0 =~= views(v@));
}

/// An object models the list of its members' models.
pub broadcast proof fn lemma_object_view(m: Vec<(String, Json)>)
    ensures
        #[trigger] json_view(Json::Object(m)) == JsonV::Object(members(m@)),
{
    assert(json_view(Json::Object(m))->Object_0 =~= members(m@));
}

impl Clone for Json {
    /// The same value again.
    fn clone(&self) -> (r: Self)
        ensures
            r@ == self@,
        decreases self@,
    {
        match self {
            Json::Null => Json::Null,
            Json::Bool(b) => Json::Bool(*b),
            Json::Number(t) => Json::Number(t.clone()),
            Json::Text(t) => Json::Text(t.clone()),
            Json::Array(v) => {
                let mut out: Vec<Json> = Vec::new();
                let mut i: usize = 0;
                while i < v.len()
                    invariant
                        *self == Json::Array(*v),
                        i <= v@.len(),
                        out@.len() == i,
                        forall|k: int| 0 <= k < i ==> (#[trigger] out@[k])@ == v@[k]@,
                    decreases v@.len() - i,
                {
                    proof {
                        lemma_array_view(*v);
                        assert(views(v@)[i as int] == v@[i as int]@);
                        assert(decreases_to!(self@ => self@->Array_0[i as int]));
                    }
                    let x = v[i].clone();
                    out.push(x);
                    i = i + 1;
                }
                proof {
                    lemma_array_view(*v);
                    lemma_array_view(out);
                    assert(views(out@) =~= views(v@));
                }
                Json::Array(out)
            },
            Json::Object(m) => {
                let mut out: Vec<(String, Json)> = Vec::new();
                let mut i: usize = 0;
                while i < m.len()
                    invariant
                        *self == Json::Object(*m),
                        i <= m@.len(),
                        out@.len() == i,
                        forall|k: int|
                            0 <= k < i ==> (#[trigger] out@[k]).0@ == m@[k].0@ && out@[k].1@
                                == m@[k].1@,
                    decreases m@.len() - i,
                {
                    proof {
                        lemma_object_view(*m);
                        assert(members(m@)[i as int].1 == m@[i as int].1@);
                        assert(decreases_to!(self@ => self@->Object_0[i as int].1));
                    }
                    let x = m[i].1.clone();
                    out.push((m[i].0.clone(), x));
                    i = i + 1;
                }
                proof {
                    lemma_object_view(*m);
                    lemma_object_view(out);
                    assert(members(out@) =~= members(m@));
                }
                Json::Object(out)
            },
        }
    }
}

// ---------------- serde_json ----------------

/// The value type of `serde_json`.
#[verifier::external_type_specification]
#[verifier::external_body]
pub struct ExValue(serde_json::Value);

/// What a `serde_json` value holds: the members of an object in the order of their keys, a number
/// by the text that it is written with.
pub uninterp spec fn json_of(v: serde_json::Value) -> JsonV;

/// One level of a `serde_json` value.
enum Node {
    Null,
    Bool(bool),
    Number(String),
    Text(String),
    Array(Vec<serde_json::Value>),
    Object(Vec<(String, serde_json::Value)>),
}

spec fn node_json(n: Node) -> JsonV {
    match n {
        Node::Null => JsonV::Null,
        Node::Bool(b) => JsonV::Bool(b),
        Node::Number(t) => JsonV::Number(t@),
        Node::Text(t) => JsonV::Text(t@),
        Node::Array(v) => JsonV::Array(v@.map_values(|x: serde_json::Value| json_of(x))),
        Node::Object(m) => JsonV::Object(
            m@.map_values(|p: (String, serde_json::Value)| (p.0@, json_of(p.1))),
        ),
    }
}

/// Takes a `serde_json::Value` apart by its variants; a number is written out with its `Display`,
/// an object walked in key order.
#[verifier::external_body]
fn peel(v: serde_json::Value) -> (n: Node)
    ensures
        node_json(n) == json_of(v),
{
    match v {
        serde_json::Value::Null => Node::Null,
        serde_json::Value::Bool(b) => Node::Bool(b),
        serde_json::Value::Number(n) => Node::Number(n.to_string()),
        serde_json::Value::String(s) => Node::Text(s),
        serde_json::Value::Array(a) => Node::Array(a),
        serde_json::Value::Object(m) => Node::Object(m.into_iter().collect()),
    }
}

/// The `Json` that holds what `v` holds.
fn decode(v: serde_json::Value) -> (j: Json)
    ensures
        j@ == json_of(v),
    decreases json_of(v),
{
    match peel(v) {
        Node::Null => Json::Null,
        Node::Bool(b) => Json::Bool(b),
        Node::Number(t) => Json::Number(t),
        Node::Text(t) => Json::Text(t),
        Node::Array(a) => {
            let ghost items = a@;
            let mut rest = a;
            let mut out: Vec<Json> = Vec::new();
            while rest.len() > 0
                invariant
                    json_of(v) == JsonV::Array(items.map_values(|x: serde_json::Value| json_of(x))),
                    rest@ == items.take(rest@.len() as int),
                    rest@.len() <= items.len(),
                    out@.len() == items.len() - rest@.len(),
                    forall|k: int|
                        0 <= k < out@.len() ==> (#[trigger] out@[k])@ == json_of(
                            items[items.len() - 1 - k],
                        ),
                decreases rest@.len(),
            {
                let last = rest.pop().unwrap();
                let ghost n = rest@.len() as int;
                proof {
                    assert(last == items[n]);
                    let s = json_of(v)->Array_0;
                    assert(s[n] == json_of(last));
                    assert(decreases_to!(json_of(v) => s[n]));
                }
                let j = decode(last);
                out.push(j);
            }
            let back = reversed(out);
            proof {
                lemma_array_view(back);
                assert(views(back@) =~= json_of(v)->Array_0);
            }
            Json::Array(back)
        },
        Node::Object(m) => {
            let ghost items = m@;
            let mut rest = m;
            let mut out: Vec<(String, Json)> = Vec::new();
            while rest.len() > 0
                invariant
                    json_of(v) == JsonV::Object(
                        items.map_values(|p: (String, serde_json::Value)| (p.0@, json_of(p.1))),
                    ),
                    rest@ == items.take(rest@.len() as int),
                    rest@.len() <= items.len(),
                    out@.len() == items.len() - rest@.len(),
                    forall|k: int|
                        0 <= k < out@.len() ==> (#[trigger] out@[k]).0@ == items[items.len() - 1 - k].0@
                            && out@[k].1@ == json_of(items[items.len() - 1 - k].1),
                decreases rest@.len(),
            {
                let (key, last) = rest.pop().unwrap();
                let ghost n = rest@.len() as int;
                proof {
                    assert((key, last) == items[n]);
                    let s = json_of(v)->Object_0;
                    assert(s[n] == (key@, json_of(last)));
                    assert(decreases_to!(json_of(v) => s[n].1));
                }
                let j = decode(last);
                out.push((key, j));
            }
            let back = reversed(out);
            proof {
                lemma_object_view(back);
                assert(members(back@) =~= json_of(v)->Object_0);
            }
            Json::Object(back)
        },
    }
}

/// The items in the opposite order.
fn reversed<T>(v: Vec<T>) -> (r: Vec<T>)
    ensures
        r@ == v@.reverse(),
{
    let ghost items = v@;
    let mut rest = v;
    let mut out: Vec<T> = Vec::new();
    while rest.len() > 0
        invariant
            rest@ == items.take(rest@.len() as int),
            rest@.len() <= items.len(),
            out@ == items.reverse().take(items.len() - rest@.len()),
        decreases rest@.len(),
    {
        let x = rest.pop().unwrap();
        out.push(x);
        assert(out@ =~= items.reverse().take(items.len() - rest@.len()));
    }
    out
}

/// What `serde_json` reads from a text: the value, or the message of its error.
pub uninterp spec fn parsed(text: Seq<char>) -> Result<JsonV, Seq<char>>;

/// What `serde_json` reads from bytes: the value, or the message of its error.
pub uninterp spec fn parsed_bytes(bytes: Seq<u8>) -> Result<JsonV, Seq<char>>;

/// The text that `serde_json` writes for a value.
pub uninterp spec fn json_text(j: JsonV) -> Seq<char>;

/// The value that `serde_json` makes of a text that should be a number: that number, or null.
pub uninterp spec fn number_read(text: Seq<char>) -> JsonV;

/// Reading gave the value `j`.
pub open spec fn reads(r: Result<JsonV, Seq<char>>, j: JsonV) -> bool {
    match r {
        Ok(v) => v == j,
        Err(_) => false,
    }
}

/// Reading failed with the message `e`.
pub open spec fn fails(r: Result<JsonV, Seq<char>>, e: Seq<char>) -> bool {
    match r {
        Ok(_) => false,
        Err(m) => m == e,
    }
}

/// The outcome of reading JSON, with the value by its model.
pub open spec fn parse_view(r: Result<Json, String>) -> Result<JsonV, Seq<char>> {
    match r {
        Ok(j) => Ok(j@),
        Err(e) => Err(e@),
    }
}

/// Calls `serde_json::from_str`: the result is named by `parsed`, the error taken by its message.
#[verifier::external_body]
fn value_from_str(s: &str) -> (r: Result<serde_json::Value, String>)
    ensures
        match r {
            Ok(v) => reads(parsed(s@), json_of(v)),
            Err(e) => fails(parsed(s@), e@),
        },
{
    serde_json::from_str(s).map_err(|e: serde_json::Error| e.to_string())
}

/// Calls `serde_json::from_slice`: the result is named by `parsed_bytes`, the error taken by its
/// message.
#[verifier::external_body]
fn value_from_slice(b: &[u8]) -> (r: Result<serde_json::Value, String>)
    ensures
        match r {
            Ok(v) => reads(parsed_bytes(b@), json_of(v)),
            Err(e) => fails(parsed_bytes(b@), e@),
        },
{
    serde_json::from_slice(b).map_err(|e: serde_json::Error| e.to_string())
}

/// Reads a JSON text.
pub fn parse(s: &str) -> (r: Result<Json, String>)
    ensures
        parse_view(r) == parsed(s@),
{
    match value_from_str(s) {
        Ok(v) => Ok(decode(v)),
        Err(e) => Err(e),
    }
}

/// Reads JSON bytes.
pub fn parse_bytes(b: &[u8]) -> (r: Result<Json, String>)
    ensures
        parse_view(r) == parsed_bytes(b@),
{
    match value_from_slice(b) {
        Ok(v) => Ok(decode(v)),
        Err(e) => Err(e),
    }
}

/// `m` with the member `key`: in its place by key, over an earlier one of that key.
pub open spec fn put(m: Seq<(Seq<char>, JsonV)>, key: Seq<char>, v: JsonV) -> Seq<
    (Seq<char>, JsonV),
>
    decreases m.len(),
{
    if m.len() == 0 {
        seq![(key, v)]
    } else if m[0].0 == key {
        seq![(key, v)] + m.drop_first()
    } else if text::before(key, m[0].0) {
        seq![(key, v)] + m
    } else {
        seq![m[0]] + put(m.drop_first(), key, v)
    }
}

/// The members in the order of their keys, the last of each key kept.
pub open spec fn sorted(m: Seq<(Seq<char>, JsonV)>) -> Seq<(Seq<char>, JsonV)>
    decreases m.len(),
{
    if m.len() == 0 {
        m
    } else {
        put(sorted(m.drop_last()), m.last().0, m.last().1)
    }
}

/// A natural number of 64 bits, in decimal.
pub open spec fn natural(t: Seq<char>) -> bool {
    exists|n: u64| t == #[trigger] text::decimal(n as nat)
}

spec fn built(n: Node) -> JsonV {
    match n {
        Node::Number(t) => number_read(t@),
        Node::Object(m) => JsonV::Object(
            sorted(m@.map_values(|p: (String, serde_json::Value)| (p.0@, json_of(p.1)))),
        ),
        _ => node_json(n),
    }
}

/// Puts a `serde_json::Value` together. A number is read from its text with `serde_json::from_str`
/// (null where that fails; a natural number keeps its text), and an object is collected into
/// `serde_json::Map`, which keeps the last member of each key and orders them by key.
#[verifier::external_body]
fn build(n: Node) -> (v: serde_json::Value)
    ensures
        json_of(v) == built(n),
        n matches Node::Number(t) ==> json_of(v) == number_read(t@),
        n matches Node::Number(t) ==> (natural(t@) ==> json_of(v) == JsonV::Number(t@)),
{
    match n {
        Node::Null => serde_json::Value::Null,
        Node::Bool(b) => serde_json::Value::Bool(b),
        Node::Number(t) => {
            serde_json::from_str(&t).map_or(serde_json::Value::Null, serde_json::Value::Number)
        },
        Node::Text(s) => serde_json::Value::String(s),
        Node::Array(a) => serde_json::Value::Array(a),
        Node::Object(m) => serde_json::Value::Object(m.into_iter().collect()),
    }
}

/// The value as it is written: members in key order, numbers as `serde_json` reads them.
pub open spec fn canonical(j: JsonV) -> JsonV
    decreases j,
{
    match j {
        JsonV::Number(t) => if natural(t) {
            j
        } else {
            number_read(t)
        },
        JsonV::Array(s) => JsonV::Array(canonical_items(s)),
        JsonV::Object(m) => JsonV::Object(sorted(canonical_members(m))),
        _ => j,
    }
}

/// The items as they are written.
pub open spec fn canonical_items(s: Seq<JsonV>) -> Seq<JsonV>
    decreases s,
{
    if s.len() == 0 {
        Seq::empty()
    } else {
        canonical_items(s.drop_last()).push(canonical(s.last()))
    }
}

/// The members as they are written, in the given order.
pub open spec fn canonical_members(m: Seq<(Seq<char>, JsonV)>) -> Seq<(Seq<char>, JsonV)>
    decreases m,
{
    if m.len() == 0 {
        Seq::empty()
    } else {
        canonical_members(m.drop_last()).push((m.last().0, canonical(m.last().1)))
    }
}

/// No number but naturals, and at most `depth` arrays and objects inside one another.
pub open spec fn plain(j: JsonV, depth: nat) -> bool
    decreases depth,
{
    match j {
        JsonV::Number(t) => natural(t),
        JsonV::Array(s) => depth > 0 && forall|i: int|
            0 <= i < s.len() ==> plain(#[trigger] s[i], (depth - 1) as nat),
        JsonV::Object(m) => depth > 0 && forall|i: int|
            0 <= i < m.len() ==> plain((#[trigger] m[i]).1, (depth - 1) as nat),
        _ => true,
    }
}

/// Calls `serde_json::Value::to_string`: the text is named by `json_text`. Read again, it gives
/// the same value, where no number is fractional or negative and the value is not nested beyond
/// the 127 levels that `serde_json` reads.
#[verifier::external_body]
fn value_to_string(v: &serde_json::Value) -> (s: String)
    ensures
        s@ == json_text(json_of(*v)),
        plain(json_of(*v), 127) ==> reads(parsed(s@), json_of(*v)),
        plain(json_of(*v), 127) ==> reads(parsed_bytes(vstd::utf8::encode_utf8(s@)), json_of(*v)),
{
    v.to_string()
}

/// The `serde_json` value of `j`.
fn encode(j: &Json) -> (v: serde_json::Value)
    ensures
        json_of(v) == canonical(j@),
    decreases j@,
{
    match j {
        Json::Null => build(Node::Null),
        Json::Bool(b) => build(Node::Bool(*b)),
        Json::Number(t) => build(Node::Number(t.clone())),
        Json::Text(t) => build(Node::Text(t.clone())),
        Json::Array(a) => {
            let mut out: Vec<serde_json::Value> = Vec::new();
            let mut i: usize = 0;
            assert(out@.map_values(|x: serde_json::Value| json_of(x)) =~= Seq::empty());
            while i < a.len()
                invariant
                    *j == Json::Array(*a),
                    i <= a@.len(),
                    out@.map_values(|x: serde_json::Value| json_of(x)) == canonical_items(
                        views(a@).take(i as int),
                    ),
                decreases a@.len() - i,
            {
                proof {
                    lemma_array_view(*a);
                    assert(views(a@)[i as int] == a@[i as int]@);
                    assert(decreases_to!(j@ => j@->Array_0[i as int]));
                }
                let x = encode(&a[i]);
                let ghost f = |x: serde_json::Value| json_of(x);
                let ghost done = out@.map_values(f);
                out.push(x);
                proof {
                    assert(views(a@).take(i + 1).drop_last() =~= views(a@).take(i as int));
                    assert(out@.map_values(f) =~= done.push(json_of(x)));
                }
                i = i + 1;
            }
            proof {
                lemma_array_view(*a);
                assert(views(a@).take(i as int) =~= views(a@));
            }
            build(Node::Array(out))
        },
        Json::Object(m) => {
            let mut out: Vec<(String, serde_json::Value)> = Vec::new();
            let mut i: usize = 0;
            assert(out@.map_values(|p: (String, serde_json::Value)| (p.0@, json_of(p.1)))
                =~= Seq::empty());
            while i < m.len()
                invariant
                    *j == Json::Object(*m),
                    i <= m@.len(),
                    out@.map_values(|p: (String, serde_json::Value)| (p.0@, json_of(p.1)))
                        == canonical_members(members(m@).take(i as int)),
                decreases m@.len() - i,
            {
                proof {
                    lemma_object_view(*m);
                    assert(members(m@)[i as int].1 == m@[i as int].1@);
                    assert(decreases_to!(j@ => j@->Object_0[i as int].1));
                }
                let x = encode(&m[i].1);
                let ghost f = |p: (String, serde_json::Value)| (p.0@, json_of(p.1));
                let ghost done = out@.map_values(f);
                let key = m[i].0.clone();
                out.push((key, x));
                proof {
                    assert(members(m@).take(i + 1).drop_last() =~= members(m@).take(i as int));
                    assert(out@.map_values(f) =~= done.push((key@, json_of(x))));
                }
                i = i + 1;
            }
            proof {
                lemma_object_view(*m);
                assert(members(m@).take(i as int) =~= members(m@));
            }
            build(Node::Object(out))
        },
    }
}

/// The text of a value.
pub open spec fn rendered(j: JsonV) -> Seq<char> {
    json_text(canonical(j))
}

/// Writes a value as JSON text.
pub fn render(j: &Json) -> (s: String)
    ensures
        s@ == rendered(j@),
        plain(canonical(j@), 127) ==> reads(parsed(s@), canonical(j@)),
        plain(canonical(j@), 127) ==> reads(parsed_bytes(vstd::utf8::encode_utf8(s@)), canonical(j@)),
{
    let v = encode(j);
    value_to_string(&v)
}

// ---------------- looking inside ----------------

/// The first member with this key.
pub open spec fn lookup(m: Seq<(Seq<char>, JsonV)>, key: Seq<char>) -> Option<JsonV>
    decreases m.len(),
{
    if m.len() == 0 {
        None
    } else if m[0].0 == key {
        Some(m[0].1)
    } else {
        lookup(m.drop_first(), key)
    }
}

/// The member of an object; nothing for any other value.
pub open spec fn member(j: JsonV, key: Seq<char>) -> Option<JsonV> {
    match j {
        JsonV::Object(m) => lookup(m, key),
        _ => None,
    }
}

/// The text that the value is.
pub open spec fn text_of(j: JsonV) -> Option<Seq<char>> {
    match j {
        JsonV::Text(t) => Some(t),
        _ => None,
    }
}

/// The truth value that the value is.
pub open spec fn bool_of(j: JsonV) -> Option<bool> {
    match j {
        JsonV::Bool(b) => Some(b),
        _ => None,
    }
}

/// The natural number of 64 bits that the value is.
pub open spec fn natural_of(j: JsonV) -> Option<nat> {
    match j {
        JsonV::Number(t) => text::parsed_unsigned(t, u64::MAX as nat),
        _ => None,
    }
}

/// The items of an array.
pub open spec fn items_of(j: JsonV) -> Option<Seq<JsonV>> {
    match j {
        JsonV::Array(s) => Some(s),
        _ => None,
    }
}

/// The members of an object.
pub open spec fn members_of(j: JsonV) -> Option<Seq<(Seq<char>, JsonV)>> {
    match j {
        JsonV::Object(m) => Some(m),
        _ => None,
    }
}

/// The text under a key.
pub open spec fn text_at(j: JsonV, key: Seq<char>) -> Option<Seq<char>> {
    match member(j, key) {
        Some(v) => text_of(v),
        None => None,
    }
}

/// The natural number under a key.
pub open spec fn natural_at(j: JsonV, key: Seq<char>) -> Option<nat> {
    match member(j, key) {
        Some(v) => natural_of(v),
        None => None,
    }
}

/// The truth value under a key.
pub open spec fn bool_at(j: JsonV, key: Seq<char>) -> Option<bool> {
    match member(j, key) {
        Some(v) => bool_of(v),
        None => None,
    }
}

/// The members of the object under a key.
pub open spec fn members_at(j: JsonV, key: Seq<char>) -> Option<Seq<(Seq<char>, JsonV)>> {
    match member(j, key) {
        Some(v) => members_of(v),
        None => None,
    }
}

/// The items of the array under a key.
pub open spec fn items_at(j: JsonV, key: Seq<char>) -> Option<Seq<JsonV>> {
    match member(j, key) {
        Some(v) => items_of(v),
        None => None,
    }
}

/// Finds the first member with this key.
pub fn find_member<'a>(m: &'a Vec<(String, Json)>, key: &str) -> (r: Option<&'a Json>)
    ensures
        match r {
            Some(v) => lookup(members(m@), key@) == Some(v@),
            None => lookup(members(m@), key@) is None,
        },
{
    let mut i: usize = 0;
    assert(members(m@).skip(0) =~= members(m@));
    while i < m.len()
        invariant
            i <= m@.len(),
            lookup(members(m@), key@) == lookup(members(m@).skip(i as int), key@),
        decreases m@.len() - i,
    {
        let ghost rest = members(m@).skip(i as int);
        assert(rest[0] == (m@[i as int].0@, m@[i as int].1@));
        if text::same(m[i].0.as_str(), key) {
            return Some(&m[i].1);
        }
        assert(rest.drop_first() =~= members(m@).skip(i + 1));
        i = i + 1;
    }
    None
}

impl Json {
    /// The member under `key`, where this is an object that has it.
    pub fn get(&self, key: &str) -> (r: Option<&Json>)
        ensures
            match r {
                Some(v) => member(self@, key@) == Some(v@),
                None => member(self@, key@) is None,
            },
    {
        match self {
            Json::Object(m) => {
                proof {
                    lemma_object_view(*m);
                }
                find_member(m, key)
            },
            _ => None,
        }
    }

    /// The text, where this is one.
    pub fn as_str(&self) -> (r: Option<&str>)
        ensures
            text::opt_text(r) == text_of(self@),
    {
        match self {
            Json::Text(t) => Some(t.as_str()),
            _ => None,
        }
    }

    /// The truth value, where this is one.
    pub fn as_bool(&self) -> (r: Option<bool>)
        ensures
            r == bool_of(self@),
    {
        match self {
            Json::Bool(b) => Some(*b),
            _ => None,
        }
    }

    /// The natural number, where this is one of 64 bits.
    pub fn as_u64(&self) -> (r: Option<u64>)
        ensures
            text::number_view(r) == natural_of(self@),
    {
        match self {
            Json::Number(t) => text::parse_unsigned(t.as_str(), u64::MAX),
            _ => None,
        }
    }

    /// The items, where this is an array.
    pub fn as_array(&self) -> (r: Option<&Vec<Json>>)
        ensures
            match r {
                Some(v) => items_of(self@) == Some(views(v@)),
                None => items_of(self@) is None,
            },
    {
        match self {
            Json::Array(v) => {
                proof {
                    lemma_array_view(*v);
                }
                Some(v)
            },
            _ => None,
        }
    }

    /// The members, where this is an object.
    pub fn as_object(&self) -> (r: Option<&Vec<(String, Json)>>)
        ensures
            match r {
                Some(m) => members_of(self@) == Some(members(m@)),
                None => members_of(self@) is None,
            },
    {
        match self {
            Json::Object(m) => {
                proof {
                    lemma_object_view(*m);
                }
                Some(m)
            },
            _ => None,
        }
    }

    /// The text under `key`.
    pub fn str_at(&self, key: &str) -> (r: Option<&str>)
        ensures
            text::opt_text(r) == text_at(self@, key@),
    {
        match self.get(key) {
            Some(v) => v.as_str(),
            None => None,
        }
    }

    /// The natural number under `key`.
    pub fn u64_at(&self, key: &str) -> (r: Option<u64>)
        ensures
            text::number_view(r) == natural_at(self@, key@),
    {
        match self.get(key) {
            Some(v) => v.as_u64(),
            None => None,
        }
    }

    /// The truth value under `key`.
    pub fn bool_at(&self, key: &str) -> (r: Option<bool>)
        ensures
            r == bool_at(self@, key@),
    {
        match self.get(key) {
            Some(v) => v.as_bool(),
            None => None,
        }
    }

    /// The members of the object under `key`.
    pub fn object_at(&self, key: &str) -> (r: Option<&Vec<(String, Json)>>)
        ensures
            match r {
                Some(m) => members_at(self@, key@) == Some(members(m@)),
                None => members_at(self@, key@) is None,
            },
    {
        match self.get(key) {
            Some(v) => v.as_object(),
            None => None,
        }
    }

    /// The items of the array under `key`.
    pub fn array_at(&self, key: &str) -> (r: Option<&Vec<Json>>)
        ensures
            match r {
                Some(v) => items_at(self@, key@) == Some(views(v@)),
                None => items_at(self@, key@) is None,
            },
    {
        match self.get(key) {
            Some(v) => v.as_array(),
            None => None,
        }
    }

    /// A text as JSON.
    pub fn text(s: &str) -> (r: Json)
        ensures
            r@ == JsonV::Text(s@),
    {
        Json::Text(s.to_string())
    }

    /// A natural number as JSON.
    pub fn number(n: u64) -> (r: Json)
        ensures
            r@ == JsonV::Number(text::decimal(n as nat)),
    {
        Json::Number(text::decimal_text(n))
    }

    /// A list of texts as JSON.
    pub fn list(v: &Vec<String>) -> (r: Json)
        ensures
            r@ == text_list(text::texts(v@)),
    {
        let mut out: Vec<Json> = Vec::new();
        let mut i: usize = 0;
        while i < v.len()
            invariant
                i <= v@.len(),
                out@.len() == i,
                forall|k: int| 0 <= k < i ==> (#[trigger] out@[k])@ == JsonV::Text(v@[k]@),
            decreases v@.len() - i,
        {
            out.push(Json::text(v[i].as_str()));
            i = i + 1;
        }
        proof {
            lemma_array_view(out);
            assert(views(out@) =~= text_list(text::texts(v@))->Array_0);
        }
        Json::Array(out)
    }
}

/// A list of texts.
pub open spec fn text_list(t: Seq<Seq<char>>) -> JsonV {
    JsonV::Array(t.map_values(|s: Seq<char>| JsonV::Text(s)))
}

/// An object being put together, member by member.
pub struct Members {
    pub list: Vec<(String, Json)>,
}

impl View for Members {
    type V = Seq<(Seq<char>, JsonV)>;

    open spec fn view(&self) -> Seq<(Seq<char>, JsonV)> {
        members(self.list@)
    }
}

impl Members {
    /// No members yet.
    pub fn new() -> (r: Members)
        ensures
            r@ == Seq::<(Seq<char>, JsonV)>::empty(),
    {
        let r = Members { list: Vec::new() };
        assert(r@ =~= Seq::<(Seq<char>, JsonV)>::empty());
        r
    }

    /// One more member.
    pub fn with(self, key: &str, v: Json) -> (r: Members)
        ensures
            r@ == self@.push((key@, v@)),
    {
        let mut list = self.list;
        list.push((key.to_string(), v));
        let r = Members { list };
        assert(r@ =~= self@.push((key@, v@)));
        r
    }

    /// The object of these members.
    pub fn object(self) -> (r: Json)
        ensures
            r@ == JsonV::Object(self@),
    {
        proof {
            lemma_object_view(self.list);
        }
        Json::Object(self.list)
    }
}

} // verus!
