//! What holds of the Home Assistant link: how entities follow the stream of changes, and how a
//! connection goes.
use vstd::prelude::*;
use vstd::arithmetic::power2::{lemma_pow2_pos, lemma_pow2_unfold, pow2};
use crate::base_laws::{
    decimal_is_read_up_to_the_bound, stripping_takes_only_the_run,
    stripping_the_start_takes_only_the_run, the_first_member_counts,
};
use crate::ha_ws::{
    add_all, auth_json, call_json, call_step, change_all, climbed, count_text, deadline_text,
    delay_for, described, diffed, doubled, emitting, end_of, ending, excerpt_of, failure_kept,
    fault_text, frame_step, fresh, has_data, idle, known, merged, message_step, missing,
    missing_report, ping_json, ping_step, read_step, removals, remove_all, result_of, sending,
    spread, stable, subscribe_json, target_error, target_is, told_of, upgrade_text, whole_entity,
    without, worth_a_warning, Backoff, Incoming, LinkFault, Merge, Phase, ReportV, SessionEnd,
    SessionV, StepV, Target, UpgradeError, UriV, AUTH_RETRY,
};
use crate::json::{
    items_at, member, members_at, natural_at, parsed, rendered, text_at, text_list, JsonV,
};
use crate::map::at;
use crate::text::{debug_text, decimal, lowered, stripped_end, stripped_start};
use crate::types::{blank_entity, refused, text_attribute, EntityV, HaEventV, ServiceCallV};

verus! {

// ---------------- one entity ----------------

/// The member at this place is the last with its key.
pub open spec fn last_with_key(m: Seq<(Seq<char>, JsonV)>, i: int) -> bool {
    0 <= i < m.len() && forall|j: int| i < j < m.len() ==> (#[trigger] m[j]).0 != m[i].0
}

/// Some member has this key.
pub open spec fn has_key(m: Seq<(Seq<char>, JsonV)>, k: Seq<char>) -> bool {
    exists|i: int| 0 <= i < m.len() && (#[trigger] m[i]).0 == k
}

/// A diff sets this attribute: its `+` has attributes, and this one is among them.
pub open spec fn sets_attribute(diff: JsonV, k: Seq<char>) -> bool {
    member(diff, "+"@) matches Some(plus) && (member(plus, "a"@) matches Some(JsonV::Object(m))
        && has_key(m, k))
}

/// A diff drops this attribute: its `-` names it.
pub open spec fn drops_attribute(diff: JsonV, k: Seq<char>) -> bool {
    member(diff, "-"@) matches Some(minus) && (member(minus, "a"@) matches Some(JsonV::Array(n))
        && n.contains(JsonV::Text(k)))
}

proof fn lemma_spread_one(base: Map<Seq<char>, JsonV>, m: Seq<(Seq<char>, JsonV)>, i: int)
    requires
        last_with_key(m, i),
    ensures
        at(spread(base, m), m[i].0) == Some(m[i].1),
    decreases m.len(),
{
    let rest = m.drop_last();
    if i < rest.len() {
        assert(m[m.len() - 1].0 != m[i].0);
        assert forall|j: int| i < j < rest.len() implies (#[trigger] rest[j]).0 != rest[i].0 by {
            assert(rest[j] == m[j]);
        }
        lemma_spread_one(base, rest, i);
    }
}

proof fn lemma_spread_none(
    base: Map<Seq<char>, JsonV>,
    m: Seq<(Seq<char>, JsonV)>,
    k: Seq<char>,
)
    requires
        !has_key(m, k),
    ensures
        at(spread(base, m), k) == at(base, k),
    decreases m.len(),
{
    if m.len() > 0 {
        lemma_key_of_rest(m, k);
        lemma_spread_none(base, m.drop_last(), k);
    }
}

proof fn lemma_without_at(base: Map<Seq<char>, JsonV>, names: Seq<JsonV>, k: Seq<char>)
    ensures
        names.contains(JsonV::Text(k)) ==> at(without(base, names), k) is None,
        !names.contains(JsonV::Text(k)) ==> at(without(base, names), k) == at(base, k),
    decreases names.len(),
{
    if names.len() > 0 {
        let rest = names.drop_last();
        lemma_without_at(base, rest, k);
        if rest.contains(JsonV::Text(k)) {
            let i = choose|i: int| 0 <= i < rest.len() && rest[i] == JsonV::Text(k);
            assert(names[i] == JsonV::Text(k));
        }
        if names.contains(JsonV::Text(k)) {
            let i = choose|i: int| 0 <= i < names.len() && names[i] == JsonV::Text(k);
            if i < rest.len() {
                assert(rest[i] == names[i]);
            }
        } else {
            assert(names[names.len() - 1] != JsonV::Text(k));
        }
    }
}

/// Every attribute that a diff carries has the carried value afterwards, whether or not a state
/// comes with it, unless the same diff drops it.
pub proof fn a_diff_sets_what_it_carries(
    e: EntityV,
    diff: JsonV,
    plus: JsonV,
    m: Seq<(Seq<char>, JsonV)>,
    i: int,
)
    requires
        member(diff, "+"@) == Some(plus),
        member(plus, "a"@) == Some(JsonV::Object(m)),
        last_with_key(m, i),
        !drops_attribute(diff, m[i].0),
    ensures
        at(diffed(e, diff).attributes, m[i].0) == Some(m[i].1),
{
    lemma_spread_one(e.attributes, m, i);
    if let Some(minus) = member(diff, "-"@) {
        if let Some(names) = items_at(minus, "a"@) {
            lemma_without_at(spread(e.attributes, m), names, m[i].0);
        }
    }
}

/// Every attribute that a diff neither sets nor drops stays as it was.
pub proof fn a_diff_keeps_the_rest(e: EntityV, diff: JsonV, k: Seq<char>)
    requires
        !sets_attribute(diff, k),
        !drops_attribute(diff, k),
    ensures
        at(diffed(e, diff).attributes, k) == at(e.attributes, k),
{
    let mid = match member(diff, "+"@) {
        Some(p) => match members_at(p, "a"@) {
            Some(m) => spread(e.attributes, m),
            None => e.attributes,
        },
        None => e.attributes,
    };
    if let Some(p) = member(diff, "+"@) {
        if let Some(m) = members_at(p, "a"@) {
            lemma_spread_none(e.attributes, m, k);
        }
    }
    if let Some(minus) = member(diff, "-"@) {
        if let Some(names) = items_at(minus, "a"@) {
            lemma_without_at(mid, names, k);
        }
    }
}

/// Every attribute that a diff drops is gone, even where the same diff sets it.
pub proof fn a_diff_drops_what_it_names(e: EntityV, diff: JsonV, k: Seq<char>)
    requires
        drops_attribute(diff, k),
    ensures
        !diffed(e, diff).attributes.dom().contains(k),
{
    let mid = match member(diff, "+"@) {
        Some(p) => match members_at(p, "a"@) {
            Some(m) => spread(e.attributes, m),
            None => e.attributes,
        },
        None => e.attributes,
    };
    let names = items_at(member(diff, "-"@)->0, "a"@)->0;
    lemma_without_at(mid, names, k);
}

/// The state after a diff is the one that it carries, text or number as it is written; without one
/// it stays, whatever the diff does to the attributes.
pub proof fn a_diff_sets_the_state_it_carries(e: EntityV, diff: JsonV)
    ensures
        member(diff, "+"@) is None ==> diffed(e, diff).state == e.state,
        member(diff, "+"@) matches Some(plus) ==> {
            &&& member(plus, "s"@) matches Some(JsonV::Text(t)) ==> diffed(e, diff).state == t
            &&& member(plus, "s"@) matches Some(JsonV::Number(t)) ==> diffed(e, diff).state == t
            &&& member(plus, "s"@) == Some(JsonV::Bool(true)) ==> diffed(e, diff).state == "true"@
            &&& member(plus, "s"@) == Some(JsonV::Bool(false)) ==> diffed(e, diff).state == "false"@
            &&& member(plus, "s"@) is None ==> diffed(e, diff).state == e.state
            &&& member(plus, "s"@) == Some(JsonV::Null) ==> diffed(e, diff).state == e.state
            &&& member(plus, "s"@) matches Some(JsonV::Array(_)) ==> diffed(e, diff).state == e.state
            &&& member(plus, "s"@) matches Some(JsonV::Object(_)) ==> diffed(e, diff).state == e.state
        },
{
}

/// An entity that comes whole is what the message says and nothing else: the state that it carries,
/// none where it carries none, and exactly its attributes.
pub proof fn a_whole_entity_is_what_it_carries(j: JsonV, k: Seq<char>)
    ensures
        member(j, "s"@) matches Some(JsonV::Text(t)) ==> whole_entity(j).state == t,
        member(j, "s"@) matches Some(JsonV::Number(t)) ==> whole_entity(j).state == t,
        member(j, "s"@) is None ==> whole_entity(j).state.len() == 0,
        member(j, "a"@) matches Some(JsonV::Object(m)) ==> {
            &&& whole_entity(j).attributes.dom().contains(k) <==> has_key(m, k)
            &&& forall|i: int|
                #![trigger m[i]]
                last_with_key(m, i) && m[i].0 == k ==> whole_entity(j).attributes[k] == m[i].1
        },
        !(member(j, "a"@) matches Some(JsonV::Object(_))) ==> !whole_entity(
            j,
        ).attributes.dom().contains(k),
{
    if let Some(m) = members_at(j, "a"@) {
        if has_key(m, k) {
            let i = choose|i: int| 0 <= i < m.len() && (#[trigger] m[i]).0 == k;
            let l = lemma_last_key(m, i);
            lemma_spread_one(Map::empty(), m, l);
            assert forall|n: int|
                #![trigger m[n]]
                last_with_key(m, n) && m[n].0 == k implies whole_entity(j).attributes[k] == m[n].1 by {
                lemma_spread_one(Map::empty(), m, n);
            }
        } else {
            lemma_spread_none(Map::empty(), m, k);
        }
    }
}

/// Among the members with one key there is a last.
proof fn lemma_last_key(m: Seq<(Seq<char>, JsonV)>, i: int) -> (l: int)
    requires
        0 <= i < m.len(),
    ensures
        i <= l,
        last_with_key(m, l),
        m[l].0 == m[i].0,
    decreases m.len() - i,
{
    if last_with_key(m, i) {
        i
    } else {
        let j = choose|j: int| i < j < m.len() && (#[trigger] m[j]).0 == m[i].0;
        lemma_last_key(m, j)
    }
}

// ---------------- all entities ----------------

proof fn lemma_added_none(
    m: Merge,
    subscribed: Seq<Seq<char>>,
    added: Seq<(Seq<char>, JsonV)>,
    id: Seq<char>,
)
    requires
        !subscribed.contains(id) || !has_key(added, id),
    ensures
        at(add_all(m, subscribed, added).entities, id) == at(m.entities, id),
    decreases added.len(),
{
    if added.len() > 0 {
        lemma_key_of_rest(added, id);
        lemma_added_none(m, subscribed, added.drop_last(), id);
    }
}

proof fn lemma_added_one(
    m: Merge,
    subscribed: Seq<Seq<char>>,
    added: Seq<(Seq<char>, JsonV)>,
    i: int,
)
    requires
        last_with_key(added, i),
        subscribed.contains(added[i].0),
    ensures
        at(add_all(m, subscribed, added).entities, added[i].0) == Some(whole_entity(added[i].1)),
    decreases added.len(),
{
    let rest = added.drop_last();
    if i < rest.len() {
        assert(added[added.len() - 1].0 != added[i].0);
        assert forall|j: int| i < j < rest.len() implies (#[trigger] rest[j]).0 != rest[i].0 by {
            assert(rest[j] == added[j]);
        }
        lemma_added_one(m, subscribed, rest, i);
    }
}

proof fn lemma_changed_none(
    m: Merge,
    subscribed: Seq<Seq<char>>,
    changed: Seq<(Seq<char>, JsonV)>,
    id: Seq<char>,
)
    requires
        !subscribed.contains(id) || !has_key(changed, id),
    ensures
        at(change_all(m, subscribed, changed).entities, id) == at(m.entities, id),
    decreases changed.len(),
{
    if changed.len() > 0 {
        lemma_key_of_rest(changed, id);
        lemma_changed_none(m, subscribed, changed.drop_last(), id);
    }
}

proof fn lemma_changed_one(
    m: Merge,
    subscribed: Seq<Seq<char>>,
    changed: Seq<(Seq<char>, JsonV)>,
    i: int,
)
    requires
        only_with_key(changed, i),
        subscribed.contains(changed[i].0),
    ensures
        at(change_all(m, subscribed, changed).entities, changed[i].0) == Some(
            diffed(known(m.entities, changed[i].0), changed[i].1),
        ),
    decreases changed.len(),
{
    let rest = changed.drop_last();
    let id = changed[i].0;
    if i < rest.len() {
        assert(changed[changed.len() - 1].0 != id);
        assert forall|j: int| 0 <= j < rest.len() && j != i implies (#[trigger] rest[j]).0
            != rest[i].0 by {
            assert(rest[j] == changed[j]);
        }
        lemma_changed_one(m, subscribed, rest, i);
    } else {
        assert(!has_key(rest, id)) by {
            if has_key(rest, id) {
                let j = choose|j: int| 0 <= j < rest.len() && (#[trigger] rest[j]).0 == id;
                assert(changed[j].0 == id);
            }
        }
        lemma_changed_none(m, subscribed, rest, id);
    }
}

proof fn lemma_removed_at(
    m: Merge,
    subscribed: Seq<Seq<char>>,
    removed: Seq<JsonV>,
    id: Seq<char>,
)
    ensures
        subscribed.contains(id) && removed.contains(JsonV::Text(id)) ==> at(
            remove_all(m, subscribed, removed).entities,
            id,
        ) is None,
        !subscribed.contains(id) || !removed.contains(JsonV::Text(id)) ==> at(
            remove_all(m, subscribed, removed).entities,
            id,
        ) == at(m.entities, id),
    decreases removed.len(),
{
    if removed.len() > 0 {
        let rest = removed.drop_last();
        lemma_removed_at(m, subscribed, rest, id);
        let t = JsonV::Text(id);
        if rest.contains(t) {
            let i = choose|i: int| 0 <= i < rest.len() && rest[i] == t;
            assert(removed[i] == t);
        }
        if removed.contains(t) {
            let i = choose|i: int| 0 <= i < removed.len() && removed[i] == t;
            if i < rest.len() {
                assert(rest[i] == t);
            }
        } else {
            assert(removed[removed.len() - 1] != t);
        }
    }
}

/// The member at this place is the only one with its key.
pub open spec fn only_with_key(m: Seq<(Seq<char>, JsonV)>, i: int) -> bool {
    0 <= i < m.len() && forall|j: int|
        0 <= j < m.len() && j != i ==> (#[trigger] m[j]).0 != m[i].0
}

proof fn lemma_key_of_rest(m: Seq<(Seq<char>, JsonV)>, k: Seq<char>)
    requires
        m.len() > 0,
    ensures
        has_key(m.drop_last(), k) ==> has_key(m, k),
        !has_key(m, k) ==> m.last().0 != k,
{
    let rest = m.drop_last();
    if has_key(rest, k) {
        let i = choose|i: int| 0 <= i < rest.len() && (#[trigger] rest[i]).0 == k;
        assert(m[i].0 == k);
    }
    if m.last().0 == k {
        assert(m[m.len() - 1].0 == k);
    }
}

/// The part of an event under this key, where it is an object.
pub open spec fn part(event: JsonV, key: Seq<char>) -> Seq<(Seq<char>, JsonV)> {
    match member(event, key) {
        Some(JsonV::Object(m)) => m,
        _ => Seq::empty(),
    }
}

/// The items of an event under this key, where it is an array.
pub open spec fn items(event: JsonV, key: Seq<char>) -> Seq<JsonV> {
    match member(event, key) {
        Some(JsonV::Array(s)) => s,
        _ => Seq::empty(),
    }
}

proof fn lemma_merged(
    entities: Map<Seq<char>, EntityV>,
    subscribed: Seq<Seq<char>>,
    event: JsonV,
)
    ensures
        ({
            let start = Merge { entities, events: Seq::empty() };
            let added = add_all(start, subscribed, part(event, "a"@));
            let changed = change_all(added, subscribed, part(event, "c"@));
            merged(entities, subscribed, event) == remove_all(changed, subscribed, items(event, "r"@))
        }),
{
}

/// An entity that an event does not speak of stays as it was, and so does one that is not
/// subscribed to.
pub proof fn an_event_leaves_the_others_alone(
    entities: Map<Seq<char>, EntityV>,
    subscribed: Seq<Seq<char>>,
    event: JsonV,
    id: Seq<char>,
)
    requires
        !subscribed.contains(id) || (!has_key(part(event, "a"@), id) && !has_key(
            part(event, "c"@),
            id,
        ) && !items(event, "r"@).contains(JsonV::Text(id))),
    ensures
        at(merged(entities, subscribed, event).entities, id) == at(entities, id),
{
    let start = Merge { entities, events: Seq::empty() };
    let added = add_all(start, subscribed, part(event, "a"@));
    let changed = change_all(added, subscribed, part(event, "c"@));
    lemma_merged(entities, subscribed, event);
    lemma_added_none(start, subscribed, part(event, "a"@), id);
    lemma_changed_none(added, subscribed, part(event, "c"@), id);
    lemma_removed_at(changed, subscribed, items(event, "r"@), id);
}

/// A subscribed entity that an event adds is what the event carries of it, whatever was known of it
/// before.
pub proof fn an_added_entity_is_taken_whole(
    entities: Map<Seq<char>, EntityV>,
    subscribed: Seq<Seq<char>>,
    event: JsonV,
    i: int,
)
    requires
        last_with_key(part(event, "a"@), i),
        subscribed.contains(part(event, "a"@)[i].0),
        !has_key(part(event, "c"@), part(event, "a"@)[i].0),
        !items(event, "r"@).contains(JsonV::Text(part(event, "a"@)[i].0)),
    ensures
        at(merged(entities, subscribed, event).entities, part(event, "a"@)[i].0) == Some(
            whole_entity(part(event, "a"@)[i].1),
        ),
{
    let a = part(event, "a"@);
    let id = a[i].0;
    let start = Merge { entities, events: Seq::empty() };
    let added = add_all(start, subscribed, a);
    let changed = change_all(added, subscribed, part(event, "c"@));
    lemma_merged(entities, subscribed, event);
    lemma_added_one(start, subscribed, a, i);
    lemma_changed_none(added, subscribed, part(event, "c"@), id);
    lemma_removed_at(changed, subscribed, items(event, "r"@), id);
}

/// A subscribed entity that an event changes is what was known of it, with the diff on top: nothing
/// is known of an entity that was never heard of.
pub proof fn a_changed_entity_builds_on_what_was_known(
    entities: Map<Seq<char>, EntityV>,
    subscribed: Seq<Seq<char>>,
    event: JsonV,
    i: int,
)
    requires
        only_with_key(part(event, "c"@), i),
        subscribed.contains(part(event, "c"@)[i].0),
        !has_key(part(event, "a"@), part(event, "c"@)[i].0),
        !items(event, "r"@).contains(JsonV::Text(part(event, "c"@)[i].0)),
    ensures
        ({
            let (id, diff) = part(event, "c"@)[i];
            let now = at(merged(entities, subscribed, event).entities, id);
            if entities.dom().contains(id) {
                now == Some(diffed(entities[id], diff))
            } else {
                now == Some(
                    diffed(EntityV { state: Seq::empty(), attributes: Map::empty() }, diff),
                )
            }
        }),
{
    let c = part(event, "c"@);
    let id = c[i].0;
    let start = Merge { entities, events: Seq::empty() };
    let added = add_all(start, subscribed, part(event, "a"@));
    let changed = change_all(added, subscribed, c);
    lemma_merged(entities, subscribed, event);
    lemma_added_none(start, subscribed, part(event, "a"@), id);
    lemma_changed_one(added, subscribed, c, i);
    lemma_removed_at(changed, subscribed, items(event, "r"@), id);
}

/// A subscribed entity that an event removes is gone, even where the same event adds or changes it.
pub proof fn a_removed_entity_is_gone(
    entities: Map<Seq<char>, EntityV>,
    subscribed: Seq<Seq<char>>,
    event: JsonV,
    id: Seq<char>,
)
    requires
        subscribed.contains(id),
        items(event, "r"@).contains(JsonV::Text(id)),
    ensures
        !merged(entities, subscribed, event).entities.dom().contains(id),
{
    let start = Merge { entities, events: Seq::empty() };
    let added = add_all(start, subscribed, part(event, "a"@));
    let changed = change_all(added, subscribed, part(event, "c"@));
    lemma_merged(entities, subscribed, event);
    lemma_removed_at(changed, subscribed, items(event, "r"@), id);
}

/// The entities of somebody who only hears the reports.
pub open spec fn replayed(entities: Map<Seq<char>, EntityV>, events: Seq<HaEventV>) -> Map<
    Seq<char>,
    EntityV,
>
    decreases events.len(),
{
    if events.len() == 0 {
        entities
    } else {
        let before = replayed(entities, events.drop_last());
        match events.last() {
            HaEventV::StateChanged { entity_id, state } => before.insert(entity_id, state),
            HaEventV::StateRemoved { entity_id } => before.remove(entity_id),
            _ => before,
        }
    }
}

proof fn lemma_one_more(entities: Map<Seq<char>, EntityV>, events: Seq<HaEventV>, e: HaEventV)
    ensures
        replayed(entities, events.push(e)) == match e {
            HaEventV::StateChanged { entity_id, state } => replayed(entities, events).insert(
                entity_id,
                state,
            ),
            HaEventV::StateRemoved { entity_id } => replayed(entities, events).remove(entity_id),
            _ => replayed(entities, events),
        },
{
    assert(events.push(e).drop_last() =~= events);
}

proof fn lemma_added_reports(
    entities: Map<Seq<char>, EntityV>,
    m: Merge,
    subscribed: Seq<Seq<char>>,
    added: Seq<(Seq<char>, JsonV)>,
)
    requires
        replayed(entities, m.events) == m.entities,
    ensures
        ({
            let t = add_all(m, subscribed, added);
            &&& replayed(entities, t.events) == t.entities
            &&& (forall|i: int| 0 <= i < added.len() ==> subscribed.contains((#[trigger] added[i]).0))
                ==> t.events.len() == m.events.len() + added.len()
        }),
    decreases added.len(),
{
    if added.len() > 0 {
        let rest = added.drop_last();
        lemma_added_reports(entities, m, subscribed, rest);
        let prev = add_all(m, subscribed, rest);
        lemma_one_more(
            entities,
            prev.events,
            HaEventV::StateChanged {
                entity_id: added.last().0,
                state: whole_entity(added.last().1),
            },
        );
        if forall|i: int| 0 <= i < added.len() ==> subscribed.contains((#[trigger] added[i]).0) {
            assert forall|i: int| 0 <= i < rest.len() implies subscribed.contains(
                (#[trigger] rest[i]).0,
            ) by {
                assert(rest[i] == added[i]);
            }
            assert(subscribed.contains(added[added.len() - 1].0));
        }
    }
}

proof fn lemma_changed_reports(
    entities: Map<Seq<char>, EntityV>,
    m: Merge,
    subscribed: Seq<Seq<char>>,
    changed: Seq<(Seq<char>, JsonV)>,
)
    requires
        replayed(entities, m.events) == m.entities,
    ensures
        ({
            let t = change_all(m, subscribed, changed);
            &&& replayed(entities, t.events) == t.entities
            &&& (forall|i: int|
                0 <= i < changed.len() ==> subscribed.contains((#[trigger] changed[i]).0))
                ==> t.events.len() == m.events.len() + changed.len()
        }),
    decreases changed.len(),
{
    if changed.len() > 0 {
        let rest = changed.drop_last();
        lemma_changed_reports(entities, m, subscribed, rest);
        let prev = change_all(m, subscribed, rest);
        let (id, diff) = changed.last();
        lemma_one_more(
            entities,
            prev.events,
            HaEventV::StateChanged {
                entity_id: id,
                state: diffed(known(prev.entities, id), diff),
            },
        );
        if forall|i: int| 0 <= i < changed.len() ==> subscribed.contains((#[trigger] changed[i]).0) {
            assert forall|i: int| 0 <= i < rest.len() implies subscribed.contains(
                (#[trigger] rest[i]).0,
            ) by {
                assert(rest[i] == changed[i]);
            }
            assert(subscribed.contains(changed[changed.len() - 1].0));
        }
    }
}

proof fn lemma_removed_reports(
    entities: Map<Seq<char>, EntityV>,
    m: Merge,
    subscribed: Seq<Seq<char>>,
    removed: Seq<JsonV>,
)
    requires
        replayed(entities, m.events) == m.entities,
    ensures
        ({
            let t = remove_all(m, subscribed, removed);
            &&& replayed(entities, t.events) == t.entities
            &&& (forall|i: int|
                0 <= i < removed.len() ==> names_one_of(#[trigger] removed[i], subscribed))
                ==> t.events.len() == m.events.len() + removed.len()
        }),
    decreases removed.len(),
{
    if removed.len() > 0 {
        let rest = removed.drop_last();
        lemma_removed_reports(entities, m, subscribed, rest);
        let prev = remove_all(m, subscribed, rest);
        if let JsonV::Text(id) = removed.last() {
            lemma_one_more(entities, prev.events, HaEventV::StateRemoved { entity_id: id });
        }
        if forall|i: int| 0 <= i < removed.len() ==> names_one_of(#[trigger] removed[i], subscribed) {
            assert forall|i: int| 0 <= i < rest.len() implies names_one_of(
                #[trigger] rest[i],
                subscribed,
            ) by {
                assert(rest[i] == removed[i]);
            }
            assert(names_one_of(removed[removed.len() - 1], subscribed));
        }
    }
}

/// The value is the id of one of these entities.
pub open spec fn names_one_of(j: JsonV, ids: Seq<Seq<char>>) -> bool {
    j matches JsonV::Text(id) && ids.contains(id)
}

/// Whoever hears the reports of an event in their order, and starts from the same entities, knows
/// the same as the link does afterwards. Nothing that an event says of subscribed entities goes
/// unreported.
pub proof fn what_is_reported_is_what_is_known(
    entities: Map<Seq<char>, EntityV>,
    subscribed: Seq<Seq<char>>,
    event: JsonV,
)
    ensures
        ({
            let m = merged(entities, subscribed, event);
            &&& replayed(entities, m.events) == m.entities
            &&& (forall|i: int|
                0 <= i < part(event, "a"@).len() ==> subscribed.contains(
                    (#[trigger] part(event, "a"@)[i]).0,
                )) && (forall|i: int|
                0 <= i < part(event, "c"@).len() ==> subscribed.contains(
                    (#[trigger] part(event, "c"@)[i]).0,
                )) && (forall|i: int|
                0 <= i < items(event, "r"@).len() ==> names_one_of(
                    #[trigger] items(event, "r"@)[i],
                    subscribed,
                )) ==> m.events.len() == part(event, "a"@).len() + part(event, "c"@).len() + items(
                event,
                "r"@,
            ).len()
        }),
{
    let start = Merge { entities, events: Seq::empty() };
    let added = add_all(start, subscribed, part(event, "a"@));
    let changed = change_all(added, subscribed, part(event, "c"@));
    lemma_merged(entities, subscribed, event);
    lemma_added_reports(entities, start, subscribed, part(event, "a"@));
    lemma_changed_reports(entities, added, subscribed, part(event, "c"@));
    lemma_removed_reports(entities, changed, subscribed, items(event, "r"@));
}

// ---------------- frames ----------------

/// The frame of a call says what is called: its own id, the domain and the service, the data where
/// there is any, and the entities in their order.
pub proof fn a_call_says_what_is_called(id: u64, call: ServiceCallV)
    ensures
        ({
            let j = call_json(id, call);
            &&& natural_at(j, "id"@) == Some(id as nat)
            &&& text_at(j, "type"@) == Some("call_service"@)
            &&& text_at(j, "domain"@) == Some(call.domain)
            &&& text_at(j, "service"@) == Some(call.service)
            &&& call.service_data is Null ==> member(j, "service_data"@) is None
            &&& call.service_data matches JsonV::Object(m) ==> (m.len() == 0 ==> member(
                j,
                "service_data"@,
            ) is None)
            &&& call.service_data matches JsonV::Object(m) ==> (m.len() > 0 ==> member(
                j,
                "service_data"@,
            ) == Some(call.service_data))
            &&& member(j, "target"@) matches Some(t) && lists(t, "entity_id"@, call.entity_ids)
        }),
{
    reveal_strlit("id");
    reveal_strlit("type");
    reveal_strlit("domain");
    reveal_strlit("service");
    reveal_strlit("service_data");
    reveal_strlit("target");
    reveal_strlit("entity_id");
    decimal_is_read_up_to_the_bound(id as nat, u64::MAX as nat);
    let j = call_json(id, call);
    let m = j->Object_0;
    let n = m.len() - 1;
    assert("id"@.len() == 2 && "type"@.len() == 4 && "domain"@.len() == 6 && "service"@.len() == 7
        && "service_data"@.len() == 12 && "target"@.len() == 6);
    assert("domain"@[0] != "target"@[0]);
    assert(m[0].0 == "id"@ && m[1].0 == "type"@ && m[2].0 == "domain"@ && m[3].0 == "service"@);
    assert(m[n].0 == "target"@);
    the_first_member_counts(m, "id"@);
    the_first_member_counts(m, "type"@);
    the_first_member_counts(m, "domain"@);
    the_first_member_counts(m, "service"@);
    the_first_member_counts(m, "service_data"@);
    the_first_member_counts(m, "target"@);
    assert(member(j, "id"@) == Some(m[0].1));
    assert(member(j, "type"@) == Some(m[1].1));
    assert(member(j, "domain"@) == Some(m[2].1));
    assert(member(j, "service"@) == Some(m[3].1));
    assert(member(j, "target"@) == Some(m[n].1));
    if has_data(call.service_data) {
        assert(m[4] == ("service_data"@, call.service_data));
        assert(member(j, "service_data"@) == Some(m[4].1));
    } else {
        assert(n == 4);
        assert(member(j, "service_data"@) is None);
    }
    lemma_listed(call.entity_ids);
}

/// The member under the key is the list of these texts.
pub open spec fn lists(j: JsonV, key: Seq<char>, ids: Seq<Seq<char>>) -> bool {
    member(j, key) matches Some(JsonV::Array(s)) && s.len() == ids.len() && forall|i: int|
        0 <= i < ids.len() ==> #[trigger] s[i] == JsonV::Text(ids[i])
}

proof fn lemma_listed(ids: Seq<Seq<char>>)
    ensures
        lists(JsonV::Object(seq![("entity_id"@, text_list(ids))]), "entity_id"@, ids),
{
    let m = seq![("entity_id"@, text_list(ids))];
    the_first_member_counts(m, "entity_id"@);
    assert(m[0].0 == "entity_id"@);
    assert(member(JsonV::Object(m), "entity_id"@) == Some(m[0].1));
}

/// The frames of the handshake and of a ping say what they are for: the token for the one who asks
/// for it, the entities to subscribe to in their order, and the id that the answer will carry.
pub proof fn the_other_frames_say_what_they_are_for(
    id: u64,
    token: Seq<char>,
    ids: Seq<Seq<char>>,
)
    ensures
        text_at(auth_json(token), "type"@) == Some("auth"@),
        text_at(auth_json(token), "access_token"@) == Some(token),
        natural_at(subscribe_json(id, ids), "id"@) == Some(id as nat),
        text_at(subscribe_json(id, ids), "type"@) == Some("subscribe_entities"@),
        lists(subscribe_json(id, ids), "entity_ids"@, ids),
        natural_at(ping_json(id), "id"@) == Some(id as nat),
        text_at(ping_json(id), "type"@) == Some("ping"@),
{
    reveal_strlit("id");
    reveal_strlit("type");
    reveal_strlit("access_token");
    reveal_strlit("entity_ids");
    decimal_is_read_up_to_the_bound(id as nat, u64::MAX as nat);
    assert("id"@.len() == 2 && "type"@.len() == 4 && "access_token"@.len() == 12
        && "entity_ids"@.len() == 10);
    let a = auth_json(token)->Object_0;
    assert(a[0].0 == "type"@ && a[1].0 == "access_token"@);
    the_first_member_counts(a, "type"@);
    the_first_member_counts(a, "access_token"@);
    assert(member(auth_json(token), "access_token"@) == Some(a[1].1));
    let s = subscribe_json(id, ids)->Object_0;
    assert(s[0].0 == "id"@ && s[1].0 == "type"@ && s[2].0 == "entity_ids"@);
    the_first_member_counts(s, "id"@);
    the_first_member_counts(s, "type"@);
    the_first_member_counts(s, "entity_ids"@);
    assert(member(subscribe_json(id, ids), "type"@) == Some(s[1].1));
    assert(member(subscribe_json(id, ids), "entity_ids"@) == Some(s[2].1));
    let p = ping_json(id)->Object_0;
    assert(p[0].0 == "id"@ && p[1].0 == "type"@);
    the_first_member_counts(p, "id"@);
    the_first_member_counts(p, "type"@);
    assert(member(ping_json(id), "type"@) == Some(p[1].1));
}

/// A result is a success where it says so, and only there. A failure is explained by the message of
/// its error, by its code where there is no message, and by nothing where there is neither.
pub proof fn a_result_says_how_it_went(frame: JsonV)
    ensures
        result_of(frame).0 <==> member(frame, "success"@) == Some(JsonV::Bool(true)),
        result_of(frame).0 ==> result_of(frame).1 is None,
        !result_of(frame).0 ==> (member(frame, "error"@) matches Some(e) ==> {
            &&& member(e, "message"@) matches Some(JsonV::Text(m)) ==> result_of(frame).1 == Some(m)
            &&& !(member(e, "message"@) matches Some(JsonV::Text(_))) ==> (member(
                e,
                "code"@,
            ) matches Some(JsonV::Text(c)) ==> result_of(frame).1 == Some(c))
        }),
        member(frame, "error"@) is None ==> result_of(frame).1 is None,
{
}

// ---------------- one connection ----------------

/// The frame is of this kind.
pub open spec fn is_kind(frame: JsonV, kind: Seq<char>) -> bool {
    member(frame, "type"@) == Some(JsonV::Text(kind))
}

/// The frame carries this id.
pub open spec fn has_id(frame: JsonV, id: nat) -> bool {
    natural_at(frame, "id"@) == Some(id)
}

proof fn lemma_kinds_differ()
    ensures
        "auth_required"@ != "auth_ok"@,
        "auth_required"@ != "auth_invalid"@,
        "auth_required"@ != "result"@,
        "auth_required"@ != "event"@,
        "auth_required"@ != "pong"@,
        "auth_ok"@ != "auth_invalid"@,
        "auth_ok"@ != "result"@,
        "auth_ok"@ != "event"@,
        "auth_ok"@ != "pong"@,
        "auth_invalid"@ != "result"@,
        "auth_invalid"@ != "event"@,
        "auth_invalid"@ != "pong"@,
        "result"@ != "event"@,
        "result"@ != "pong"@,
        "event"@ != "pong"@,
        "auth_required"@.len() > 0,
        "auth_ok"@.len() > 0,
        "auth_invalid"@.len() > 0,
        "result"@.len() > 0,
        "event"@.len() > 0,
        "pong"@.len() > 0,
{
    reveal_strlit("auth_required");
    reveal_strlit("auth_ok");
    reveal_strlit("auth_invalid");
    reveal_strlit("result");
    reveal_strlit("event");
    reveal_strlit("pong");
    assert("auth_required"@.len() == 13 && "auth_ok"@.len() == 7 && "auth_invalid"@.len() == 12
        && "result"@.len() == 6 && "event"@.len() == 5 && "pong"@.len() == 4);
}

/// The token goes out when it is asked for at the start of a connection, the subscription once the
/// token is accepted, each with fifteen seconds for the answer. Neither goes out at any other time:
/// what else a frame asks for, nothing is sent for it.
pub proof fn the_handshake_goes_step_by_step(s: SessionV, frame: JsonV, now: u64)
    requires
        now + 15_000_000_000 <= u64::MAX,
        s.next_id < u64::MAX,
    ensures
        ({
            let (t, step) = frame_step(s, frame, now);
            let asked = s.phase == Phase::AwaitAuthRequired && is_kind(frame, "auth_required"@);
            let accepted = s.phase == Phase::AwaitAuthOk && is_kind(frame, "auth_ok"@);
            &&& asked ==> {
                &&& step.send == Some(rendered(auth_json(s.token)))
                &&& t.phase == Phase::AwaitAuthOk
                &&& t.deadline == Some((now + 15_000_000_000) as u64)
                &&& t.next_id == s.next_id
            }
            &&& accepted ==> {
                &&& step.send == Some(rendered(subscribe_json(s.next_id, s.entity_ids)))
                &&& t.phase == Phase::AwaitSubscribed
                &&& t.deadline == Some((now + 15_000_000_000) as u64)
                &&& t.next_id == s.next_id + 1
            }
            &&& !asked && !accepted ==> step.send is None && t.next_id == s.next_id
        }),
{
    lemma_kinds_differ();
}

/// A connection goes live with the success of its subscription and with nothing else; the screen is
/// told once, and from then on the connection stays live as long as it lasts.
pub proof fn a_connection_goes_live_once_subscribed(s: SessionV, frame: JsonV, now: u64)
    ensures
        ({
            let (t, step) = frame_step(s, frame, now);
            let subscribed = is_kind(frame, "result"@) && has_id(frame, 1) && member(
                frame,
                "success"@,
            ) == Some(JsonV::Bool(true));
            &&& s.phase != Phase::Live ==> {
                &&& t.phase == Phase::Live <==> subscribed
                &&& subscribed ==> {
                    &&& step.emit == seq![HaEventV::Connected]
                    &&& t.live_since == Some(now)
                    &&& t.deadline is None
                    &&& step.end is None
                }
                &&& !subscribed ==> t.live_since == s.live_since
            }
            &&& s.phase == Phase::Live ==> t.phase == Phase::Live && t.live_since == s.live_since
        }),
{
    lemma_kinds_differ();
}

/// A connection ends by itself for two reasons: the token is refused, which is remembered as such,
/// or the subscription fails.
pub proof fn a_connection_ends_for_a_reason(s: SessionV, frame: JsonV, now: u64)
    ensures
        ({
            let (t, step) = frame_step(s, frame, now);
            let rejected = is_kind(frame, "auth_invalid"@);
            let failed = is_kind(frame, "result"@) && has_id(frame, 1) && member(
                frame,
                "success"@,
            ) != Some(JsonV::Bool(true));
            &&& step.end is Some <==> rejected || failed
            &&& rejected ==> t.auth_rejected && end_of(t, now) == SessionEnd::AuthRejected
            &&& !rejected ==> t.auth_rejected == s.auth_rejected
        }),
{
    lemma_kinds_differ();
}

/// A connection that ends has been live since it went live, or never was; a refused token counts
/// before that.
pub proof fn a_connection_lasts_from_going_live(s: SessionV, now: u64)
    ensures
        s.auth_rejected ==> end_of(s, now) == SessionEnd::AuthRejected,
        !s.auth_rejected && s.live_since is None ==> end_of(s, now) == SessionEnd::NeverLive,
        !s.auth_rejected ==> (s.live_since matches Some(at) ==> (at <= now ==> end_of(s, now)
            == SessionEnd::Live((now - at) as u64))),
{
}

/// A ping waits ten seconds for the pong with its own id. That pong ends the wait and changes
/// nothing else; a pong with another id, or with none, does not; and while one is awaited no other
/// ping goes out.
pub proof fn a_ping_waits_for_its_own_pong(s: SessionV, frame: JsonV, now: u64, then: u64)
    requires
        s.wf(),
        s.phase == Phase::Live,
        s.ping_outstanding is None,
        s.next_id < u64::MAX,
        now + 10_000_000_000 <= u64::MAX,
        is_kind(frame, "pong"@),
    ensures
        ({
            let (t, step) = ping_step(s, now);
            &&& step.send == Some(rendered(ping_json(s.next_id)))
            &&& t.deadline == Some((now + 10_000_000_000) as u64)
            &&& ping_step(t, then) == (t, idle())
            &&& has_id(frame, s.next_id as nat) ==> frame_step(t, frame, then) == (
                SessionV { deadline: None, next_id: (s.next_id + 1) as u64, ..s },
                idle(),
            )
            &&& !has_id(frame, s.next_id as nat) ==> frame_step(t, frame, then) == (t, idle())
        }),
{
    lemma_kinds_differ();
}

/// No ping goes out before the connection is live.
pub proof fn no_ping_before_going_live(s: SessionV, now: u64)
    requires
        s.phase != Phase::Live,
    ensures
        ping_step(s, now) == (s, idle()),
{
}

/// Frames that come at the wrong time, that are of no known kind, or that answer nothing that was
/// asked, change nothing and ask for nothing: a second success of the subscription, a question for
/// the token or its acceptance out of turn, an event of something else.
pub proof fn frames_out_of_turn_change_nothing(s: SessionV, frame: JsonV, now: u64)
    ensures
        ({
            let t = frame_step(s, frame, now);
            let subscribed = is_kind(frame, "result"@) && has_id(frame, 1) && member(
                frame,
                "success"@,
            ) == Some(JsonV::Bool(true));
            &&& subscribed && s.phase == Phase::Live ==> t == (s, idle())
            &&& is_kind(frame, "result"@) && natural_at(frame, "id"@) is None ==> t == (s, idle())
            &&& is_kind(frame, "auth_required"@) && s.phase != Phase::AwaitAuthRequired ==> t == (
                s,
                idle(),
            )
            &&& is_kind(frame, "auth_ok"@) && s.phase != Phase::AwaitAuthOk ==> t == (s, idle())
            &&& is_kind(frame, "event"@) && (!has_id(frame, 1) || member(frame, "event"@) is None)
                ==> t == (s, idle())
            &&& is_kind(frame, "pong"@) && s.ping_outstanding is None ==> t == (s, idle())
            &&& !is_kind(frame, "auth_required"@) && !is_kind(frame, "auth_ok"@) && !is_kind(
                frame,
                "auth_invalid"@,
            ) && !is_kind(frame, "result"@) && !is_kind(frame, "event"@) && !is_kind(frame, "pong"@)
                ==> t == (s, idle())
        }),
{
    lemma_kinds_differ();
}

/// An event of the subscription reports what it changed, in its order, and asks for nothing to be
/// sent. Behind the first snapshot, which it ends the wait for, come those that it left out.
pub proof fn an_event_reports_what_it_changed(s: SessionV, frame: JsonV, event: JsonV, now: u64)
    requires
        is_kind(frame, "event"@),
        has_id(frame, 1),
        member(frame, "event"@) == Some(event),
    ensures
        ({
            let (t, step) = frame_step(s, frame, now);
            let m = merged(s.entities, s.entity_ids, event);
            let whole = member(event, "a"@);
            &&& step.send is None && step.end is None
            &&& t.phase == s.phase && t.pending == s.pending && t.deadline == s.deadline
            &&& s.snapshot_pending ==> (whole matches Some(JsonV::Object(a)) ==> {
                &&& step.emit == m.events + removals(missing(s.entity_ids, a))
                &&& !t.snapshot_pending
            })
            &&& !s.snapshot_pending || !(whole matches Some(JsonV::Object(_))) ==> {
                &&& step.emit == m.events
                &&& step.report is None
                &&& t.snapshot_pending == s.snapshot_pending
            }
        }),
{
    lemma_kinds_differ();
}

/// The entities change with the events of the subscription and with nothing else.
pub proof fn only_events_change_entities(s: SessionV, frame: JsonV, now: u64)
    ensures
        ({
            let (t, step) = frame_step(s, frame, now);
            let event = member(frame, "event"@);
            let told = is_kind(frame, "event"@) && has_id(frame, 1) && event is Some;
            &&& told ==> t.entities == merged(s.entities, s.entity_ids, event->0).entities
            &&& !told ==> t.entities == s.entities && t.snapshot_pending == s.snapshot_pending
            &&& t.entity_ids == s.entity_ids
            &&& t.token == s.token
        }),
{
    lemma_kinds_differ();
}

/// What is not JSON, and what is not text, is passed over: nothing is sent, nothing is reported to
/// the screen, and the connection goes on as it was. A close ends it.
pub proof fn what_cannot_be_read_is_passed_over(
    s: SessionV,
    t: Seq<char>,
    why: Seq<char>,
    closed: Option<(String, String)>,
    now: u64,
)
    ensures
        ({
            let (u, step) = read_step(s, Err(why), t, now);
            u == s && step.send is None && step.emit.len() == 0 && step.end is None
        }),
        message_step(s, Incoming::Other, now) == (s, idle()),
        ({
            let (u, step) = message_step(s, Incoming::Close(closed), now);
            u == s && step.send is None && step.emit.len() == 0 && step.end is Some
        }),
{
}

/// A call goes out where the connection is live and fewer than 256 calls wait for their answers, and
/// only there; it goes out with its own data under an id of its own.
pub proof fn a_call_goes_out_on_a_live_connection(s: SessionV, call: ServiceCallV)
    requires
        s.next_id < u64::MAX,
    ensures
        ({
            let (t, step) = call_step(s, call);
            let free = s.phase == Phase::Live && s.pending.len() < 256;
            &&& free ==> step.send == Some(rendered(call_json(s.next_id, call)))
                && t.pending == s.pending.push((s.next_id, call.request)) && t.next_id == s.next_id
                + 1 && step.emit.len() == 0
            &&& !free ==> t == s && step.send is None && step.emit.len() == 1 && (
            step.emit[0] matches HaEventV::CallResult { request, success, error } && request
                == call.request && !success && error is Some)
        }),
{
}

// ---------------- where to connect ----------------

/// A `wss` address leads through TLS, to port 443 where none is named; a `ws` address does not, and
/// leads to port 80. A port that is named is the one. No other scheme leads anywhere.
pub proof fn the_scheme_decides_on_tls(
    scheme: Seq<char>,
    host: Option<Seq<char>>,
    port: Option<u16>,
    t: Target,
)
    ensures
        ({
            let parts: UriV = (Some(scheme), host, port);
            &&& lowered(scheme) != "wss"@ && lowered(scheme) != "ws"@ ==> target_error(parts) is Some
            &&& host is None ==> target_error(parts) is Some
            &&& target_error((None, host, port)) is Some
            &&& target_error(parts) is None && target_is(t, parts) ==> {
                &&& t.secure <==> lowered(scheme) == "wss"@
                &&& port matches Some(p) ==> t.port == p
                &&& port is None && t.secure ==> t.port == 443
                &&& port is None && !t.secure ==> t.port == 80
            }
        }),
{
    reveal_strlit("ws");
    reveal_strlit("wss");
    assert("ws"@.len() == 2 && "wss"@.len() == 3);
}

/// The host is the one that the address names, without the brackets of an IPv6 address.
pub proof fn the_host_is_the_one_named(scheme: Seq<char>, host: Seq<char>, port: Option<u16>, t: Target)
    requires
        host.len() > 0,
        host[0] != '[',
        host.last() != ']',
        target_is(t, (Some(scheme), Some(host), port)),
    ensures
        t.host@ == host,
{
}

// ---------------- reconnecting ----------------

/// A connection counts as stable once it has been live for a minute; one that was live for less, that
/// never was, or whose token was refused does not.
pub proof fn a_minute_makes_a_connection_stable(lived: u64)
    ensures
        stable(SessionEnd::Live(lived)) <==> lived >= 60_000_000_000,
        !stable(SessionEnd::NeverLive),
        !stable(SessionEnd::AuthRejected),
        AUTH_RETRY == 900_000_000_000,
{
}

/// The climb after so many failures in a row, none of which followed a stable connection.
pub open spec fn failed_times(b: Backoff, ends: Seq<SessionEnd>) -> Backoff
    decreases ends.len(),
{
    if ends.len() == 0 {
        b
    } else {
        climbed(failed_times(b, ends.drop_last()), ends.last())
    }
}

/// However the connections fail, as long as none of them was stable and no token was refused, the
/// delay is the shortest at first, then twice as long each time, and the longest once it would get
/// beyond that.
pub proof fn the_delay_climbs_with_each_failure(b: Backoff, ends: Seq<SessionEnd>, end: SessionEnd)
    requires
        0 < b.min <= b.max,
        b.next == b.min,
        forall|i: int|
            0 <= i < ends.len() ==> !stable(#[trigger] ends[i]) && !(ends[i] is AuthRejected),
        !stable(end),
        !(end is AuthRejected),
    ensures
        delay_for(failed_times(b, ends), end) == if b.min * pow2(ends.len()) > b.max {
            b.max as int
        } else {
            b.min * pow2(ends.len())
        },
        failed_times(b, ends).min == b.min,
        failed_times(b, ends).max == b.max,
    decreases ends.len(),
{
    if ends.len() == 0 {
        vstd::arithmetic::power2::lemma2_to64();
    } else {
        let rest = ends.drop_last();
        let n = ends.len();
        let m = rest.len();
        assert(!stable(ends[n - 1]) && !(ends[n - 1] is AuthRejected));
        assert forall|i: int| 0 <= i < rest.len() implies !stable(#[trigger] rest[i]) && !(
        rest[i] is AuthRejected) by {
            assert(rest[i] == ends[i]);
        }
        the_delay_climbs_with_each_failure(b, rest, ends.last());
        lemma_pow2_unfold(n);
        lemma_pow2_pos(m);
        assert(b.min * pow2(n) == 2 * (b.min * pow2(m))) by (nonlinear_arith)
            requires
                pow2(n) == 2 * pow2(m),
        ;
        assert(b.min * pow2(m) >= b.min) by (nonlinear_arith)
            requires
                pow2(m) >= 1,
                b.min > 0,
        ;
    }
}

/// After a stable connection the climb starts over: the shortest delay, and then twice that. A
/// refused token waits a quarter of an hour, and leaves the climb where it was.
pub proof fn a_stable_connection_starts_the_climb_over(b: Backoff, lived: u64)
    requires
        b.wf(),
        lived >= 60_000_000_000,
        2 * b.min <= b.max,
    ensures
        delay_for(b, SessionEnd::Live(lived)) == b.min,
        delay_for(climbed(b, SessionEnd::Live(lived)), SessionEnd::NeverLive) == 2 * b.min,
        delay_for(b, SessionEnd::AuthRejected) == 900_000_000_000,
        climbed(b, SessionEnd::AuthRejected) == b,
{
}

/// The screen is told of the end of a connection that was live, with the reason, and of no other.
/// A failure to connect is warned about once for as long as its reason repeats; every other end is
/// warned about.
pub proof fn an_end_is_told_and_warned_about(
    end: SessionEnd,
    last: Option<Seq<char>>,
    reason: Seq<char>,
    other: Seq<char>,
)
    ensures
        end is Live ==> told_of(end, reason) == Some(HaEventV::Disconnected { reason }),
        !(end is Live) ==> told_of(end, reason) is None,
        !(end is NeverLive) ==> worth_a_warning(last, end, reason),
        worth_a_warning(None, end, reason),
        failure_kept(SessionEnd::NeverLive, reason) == Some(reason),
        !worth_a_warning(
            failure_kept(SessionEnd::NeverLive, reason),
            SessionEnd::NeverLive,
            reason,
        ),
        other != reason ==> worth_a_warning(
            failure_kept(SessionEnd::NeverLive, reason),
            SessionEnd::NeverLive,
            other,
        ),
        end is Live ==> failure_kept(end, reason) is None,
{
}

/// A delay that is doubled is twice as long, and no longer than the longest.
pub proof fn a_delay_is_doubled_up_to_the_longest(delay: u64, max: u64)
    requires
        delay <= max,
    ensures
        2 * delay <= max ==> doubled(delay, max) == 2 * delay,
        2 * delay > max ==> doubled(delay, max) == max,
        delay <= doubled(delay, max) <= max,
{
}

// ---------------- for the journal ----------------

/// The entities that are gone are reported each, in their order.
pub proof fn each_missing_entity_is_reported(ids: Seq<Seq<char>>, i: int)
    requires
        0 <= i < ids.len(),
    ensures
        removals(ids).len() == ids.len(),
        removals(ids)[i] == (HaEventV::StateRemoved { entity_id: ids[i] }),
        missing_report(ids) matches Some(ReportV::Warn(_)),
        missing_report(Seq::<Seq<char>>::empty()) is None,
{
}

/// A refused upgrade is told with its status, and with a hint at a ban where that is 403 and only
/// there.
pub proof fn a_ban_is_hinted_at(code: u16, status: String)
    ensures
        ({
            let said = "WebSocket handshake rejected with HTTP "@ + status@;
            let t = upgrade_text(UpgradeError::Http { code, status });
            &&& t.take(said.len() as int) == said
            &&& code != 403 ==> t == said
            &&& code == 403 ==> t.len() > said.len()
        }),
{
    reveal_strlit(
        ": this IP may be banned by Home Assistant after repeated failed logins (remove it from ip_bans.yaml next to configuration.yaml and restart Home Assistant)",
    );
    let said = "WebSocket handshake rejected with HTTP "@ + status@;
    let t = upgrade_text(UpgradeError::Http { code, status });
    assert(t.take(said.len() as int) =~= said);
    if code != 403 {
        assert(t =~= said);
    }
}

/// A text is shown in the journal by its first 512 characters, with a mark where there are more.
pub proof fn a_body_is_shown_by_its_start(t: Seq<char>)
    ensures
        t.len() <= 512 ==> excerpt_of(t) == t,
        t.len() > 512 ==> excerpt_of(t).len() > 512 && excerpt_of(t).take(512) == t.take(512),
{
    if t.len() > 512 {
        reveal_strlit("… (");
        assert(excerpt_of(t).take(512) =~= t.take(512));
    }
}

/// A live connection that misses its deadline missed a pong; any other did not finish its handshake.
pub proof fn a_missed_deadline_has_its_reason(p: Phase)
    ensures
        p == Phase::Live ==> deadline_text(p) == "no pong within 10s"@,
        p == Phase::AwaitAuthRequired ==> deadline_text(p) == "handshake timed out in phase "@
            + "AwaitAuthRequired"@,
        p == Phase::AwaitAuthOk ==> deadline_text(p) == "handshake timed out in phase "@
            + "AwaitAuthOk"@,
        p == Phase::AwaitSubscribed ==> deadline_text(p) == "handshake timed out in phase "@
            + "AwaitSubscribed"@,
{
}

/// An IPv6 address in brackets is asked without them.
pub proof fn brackets_are_left_out(h: Seq<char>, port: Option<u16>, scheme: Seq<char>, t: Target)
    requires
        h.len() > 0,
        h[0] != '[',
        h.last() != ']',
        target_is(t, (Some(scheme), Some(seq!['['] + h + seq![']']), port)),
    ensures
        t.host@ == h,
{
    let all = seq!['['] + h + seq![']'];
    stripping_the_start_takes_only_the_run(all, '[');
    let inner = stripped_start(all, '[');
    assert(all[1] == h[0]);
    assert(inner =~= h + seq![']']) by {
        let n = all.len() - inner.len();
        if n == 0 {
            assert(all[0] == '[');
            assert(all[n] == '[');
        } else if n > 1 {
            assert(all[1] == '[');
        }
    }
    stripping_takes_only_the_run(h, ']');
    assert(h.push(']') =~= h + seq![']']);
    assert(stripped_end(h, ']') == h);
}

/// A text from the socket is read as JSON, and the frame that it is answered as a frame.
pub proof fn a_text_is_answered_as_its_frame(s: SessionV, t: String, frame: JsonV, now: u64)
    requires
        parsed(t@) == Ok::<JsonV, Seq<char>>(frame),
    ensures
        message_step(s, Incoming::Text(t), now) == frame_step(s, frame, now),
{
}

/// What breaks a connection is told in words: what happened, and how long it took or what was said.
pub proof fn a_fault_is_told_in_words(secs: u64, e: String)
    ensures
        fault_text(LinkFault::ConnectTimeout(secs)) == "connect timed out after "@ + decimal(
            secs as nat,
        ) + "s"@,
        fault_text(LinkFault::Closed) == "connection closed"@,
        fault_text(LinkFault::Socket(e)) == "socket error: "@ + e@,
        fault_text(LinkFault::Flush(e)) == "pong flush failed: "@ + e@,
        fault_text(LinkFault::Send(e)) == "send failed: "@ + e@,
{
}

/// A refused token is told with the message that came with it, as an error that somebody has to act
/// on.
pub proof fn a_refused_token_is_told_as_an_error(s: SessionV, frame: JsonV, now: u64)
    requires
        is_kind(frame, "auth_invalid"@),
    ensures
        ({
            let report = frame_step(s, frame, now).1.report;
            let tail = ". Fix HA_TOKEN in /etc/barclock.env and restart barclock"@;
            &&& member(frame, "message"@) matches Some(JsonV::Text(m)) ==> report == Some(
                ReportV::Error("Home Assistant rejected the access token: "@ + m + tail),
            )
            &&& member(frame, "message"@) is None ==> report == Some(
                ReportV::Error("Home Assistant rejected the access token: "@ + "no message"@ + tail),
            )
        }),
{
    lemma_kinds_differ();
}

/// A frame is described by its kind and its id, an event by the sizes of its parts, a result by how
/// it went.
pub proof fn a_frame_is_described_by_what_it_is(frame: JsonV, kind: Seq<char>, id: nat)
    requires
        is_kind(frame, kind),
        has_id(frame, id),
    ensures
        ({
            let lead = kind + (" id="@ + decimal(id));
            let won = member(frame, "success"@) == Some(JsonV::Bool(true));
            &&& kind != "event"@ && kind != "result"@ ==> described(frame) == lead
            &&& kind == "result"@ && won ==> described(frame) == lead + (" success="@ + "true"@)
            &&& kind == "result"@ && !won ==> described(frame) == lead + (" success="@ + "false"@)
            &&& kind == "event"@ ==> (member(frame, "event"@) matches Some(e) ==> described(frame)
                == lead + (count_text(e, "a"@) + count_text(e, "c"@) + count_text(e, "r"@)))
        }),
{
    lemma_kinds_differ();
    assert(described(frame) =~= described(frame) + Seq::<char>::empty());
}

/// A part of an event is counted where it is there: the members of an object, the items of an array.
pub proof fn a_part_is_counted_where_it_is(event: JsonV, key: Seq<char>)
    ensures
        member(event, key) is None ==> count_text(event, key).len() == 0,
        member(event, key) matches Some(JsonV::Object(m)) ==> count_text(event, key) == " "@ + key
            + "="@ + decimal(m.len()),
        member(event, key) matches Some(JsonV::Array(s)) ==> count_text(event, key) == " "@ + key
            + "="@ + decimal(s.len()),
{
}

/// A connection starts with its token and the entities to subscribe to, and with nothing else: nothing
/// said, nothing known, nothing waited for, and the snapshot still to come.
pub proof fn a_connection_starts_with_nothing_known(token: Seq<char>, ids: Seq<Seq<char>>, now: u64)
    ensures
        ({
            let s = fresh(token, ids);
            &&& s.token == token
            &&& s.entity_ids == ids
            &&& s.phase == Phase::AwaitAuthRequired
            &&& s.next_id == 1
            &&& s.entities == Map::<Seq<char>, EntityV>::empty()
            &&& s.pending.len() == 0
            &&& s.ping_outstanding is None && s.deadline is None && s.live_since is None
            &&& !s.auth_rejected
            &&& s.snapshot_pending
            &&& end_of(s, now) == SessionEnd::NeverLive
        }),
{
}

/// A step does what it is for and nothing else: none of it, a text to send, events to hand on, an end.
pub proof fn a_step_does_one_thing(t: Seq<char>, events: Seq<HaEventV>, request: u64)
    ensures
        idle().send is None && idle().emit.len() == 0 && idle().report is None && idle().end is None,
        sending(t) == (StepV { send: Some(t), ..idle() }),
        emitting(events) == (StepV { emit: events, ..idle() }),
        ending(t) == (StepV { end: Some(t), ..idle() }),
        refused(request, t) == (HaEventV::CallResult { request, success: false, error: Some(t) }),
{
}

/// Nothing is known of an entity at first: no state and no attribute.
pub proof fn nothing_is_known_of_an_entity_at_first()
    ensures
        blank_entity().state.len() == 0,
        blank_entity().attributes == Map::<Seq<char>, JsonV>::empty(),
{
}

/// The text of an attribute is the text that it holds; one that is missing or holds something else
/// has none.
pub proof fn an_attribute_is_read_as_text(e: EntityV, key: Seq<char>)
    ensures
        !e.attributes.dom().contains(key) ==> text_attribute(e, key) is None,
        e.attributes.dom().contains(key) ==> {
            &&& e.attributes[key] matches JsonV::Text(t) ==> text_attribute(e, key) == Some(t)
            &&& !(e.attributes[key] is Text) ==> text_attribute(e, key) is None
        },
{
}

/// An address that leads nowhere is refused for its scheme, which is named, or for want of a host.
pub proof fn an_address_is_refused_for_a_reason(
    scheme: Seq<char>,
    host: Option<Seq<char>>,
    port: Option<u16>,
)
    ensures
        lowered(scheme) != "ws"@ && lowered(scheme) != "wss"@ ==> target_error(
            (Some(scheme), host, port),
        ) == Some(
            "homeassistant.url scheme "@ + ("Some("@ + debug_text(lowered(scheme)) + ")"@)
                + " is not ws:// or wss://"@,
        ),
        target_error((None, host, port)) == Some(
            "homeassistant.url scheme "@ + "None"@ + " is not ws:// or wss://"@,
        ),
        lowered(scheme) == "wss"@ ==> target_error((Some(scheme), None, port)) == Some(
            "homeassistant.url has no host"@,
        ),
{
}

} // verus!
