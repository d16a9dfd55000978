//! A map from texts to values.
use vstd::prelude::*;
use crate::json::Json;
use crate::text;

verus! {

/// A map with text keys: its entries are in the order of their keys, no two under the same.
#[derive(Debug, PartialEq)]
pub struct TextMap<V> {
    entries: Vec<(String, V)>,
}

/// Each key comes before those that follow it.
spec fn ascending<V>(e: Seq<(String, V)>) -> bool {
    forall|i: int, j: int|
        0 <= i < j < e.len() ==> text::before((#[trigger] e[i]).0@, (#[trigger] e[j]).0@)
}

impl<V> TextMap<V> {
    #[verifier::type_invariant]
    spec fn wf(self) -> bool {
        ascending(self.entries@)
    }
}

/// The value of the first entry with key `k`.
spec fn found<V: View>(e: Seq<(String, V)>, k: Seq<char>) -> Option<V::V>
    decreases e.len(),
{
    if e.len() == 0 {
        None
    } else if e[0].0@ == k {
        Some(e[0].1@)
    } else {
        found(e.drop_first(), k)
    }
}

/// The place of the first entry with key `k`, or the number of entries.
spec fn place<V>(e: Seq<(String, V)>, k: Seq<char>) -> int
    decreases e.len(),
{
    if e.len() == 0 || e[0].0@ == k {
        0
    } else {
        1 + place(e.drop_first(), k)
    }
}

impl<V: View> View for TextMap<V> {
    type V = Map<Seq<char>, V::V>;

    closed spec fn view(&self) -> Map<Seq<char>, V::V> {
        Map::new(
            |k: Seq<char>| found(self.entries@, k) is Some,
            |k: Seq<char>| found(self.entries@, k)->0,
        )
    }
}

/// The value under `k`, where there is one.
pub open spec fn at<T>(m: Map<Seq<char>, T>, k: Seq<char>) -> Option<T> {
    if m.dom().contains(k) {
        Some(m[k])
    } else {
        None
    }
}

proof fn lemma_place<V: View>(e: Seq<(String, V)>, k: Seq<char>)
    ensures
        0 <= place(e, k) <= e.len(),
        place(e, k) < e.len() <==> found(e, k) is Some,
        place(e, k) < e.len() ==> e[place(e, k)].0@ == k && found(e, k) == Some(
            e[place(e, k)].1@,
        ),
    decreases e.len(),
{
    if e.len() > 0 && e[0].0@ != k {
        lemma_place(e.drop_first(), k);
    }
}

proof fn lemma_update<V: View>(e: Seq<(String, V)>, i: int, p: (String, V), k: Seq<char>)
    requires
        0 <= i < e.len(),
        place(e, p.0@) == i,
        e[i].0@ == p.0@,
    ensures
        found(e.update(i, p), k) == if k == p.0@ {
            Some(p.1@)
        } else {
            found(e, k)
        },
    decreases e.len(),
{
    if i > 0 {
        assert(e.update(i, p).drop_first() =~= e.drop_first().update(i - 1, p));
        lemma_update(e.drop_first(), i - 1, p, k);
    } else {
        assert(e.update(0, p).drop_first() =~= e.drop_first());
    }
}

proof fn lemma_insert<V: View>(e: Seq<(String, V)>, i: int, p: (String, V), k: Seq<char>)
    requires
        0 <= i <= e.len(),
        found(e, p.0@) is None,
    ensures
        found(e.insert(i, p), k) == if k == p.0@ {
            Some(p.1@)
        } else {
            found(e, k)
        },
    decreases e.len(),
{
    if i > 0 {
        assert(e.insert(i, p).drop_first() =~= e.drop_first().insert(i - 1, p));
        assert(e.insert(i, p)[0] == e[0]);
        lemma_insert(e.drop_first(), i - 1, p, k);
    } else {
        assert(e.insert(0, p).drop_first() =~= e);
    }
}

proof fn lemma_remove<V: View>(e: Seq<(String, V)>, i: int, k: Seq<char>)
    requires
        0 <= i < e.len(),
        ascending(e),
    ensures
        found(e.remove(i), k) == if k == e[i].0@ {
            None
        } else {
            found(e, k)
        },
    decreases e.len(),
{
    if i > 0 {
        assert(e.remove(i).drop_first() =~= e.drop_first().remove(i - 1));
        assert(e.remove(i)[0] == e[0]);
        assert(text::before(e[0].0@, e[i].0@));
        text::lemma_before_itself(e[0].0@);
        lemma_ascending_rest(e);
        lemma_remove(e.drop_first(), i - 1, k);
    } else {
        assert(e.remove(0) =~= e.drop_first());
        lemma_first_is_only(e);
    }
}

proof fn lemma_ascending_rest<V>(e: Seq<(String, V)>)
    requires
        e.len() > 0,
        ascending(e),
    ensures
        ascending(e.drop_first()),
{
    assert forall|i: int, j: int| 0 <= i < j < e.drop_first().len() implies text::before(
        (#[trigger] e.drop_first()[i]).0@,
        (#[trigger] e.drop_first()[j]).0@,
    ) by {
        assert(e.drop_first()[i] == e[i + 1] && e.drop_first()[j] == e[j + 1]);
    }
}

/// No other entry has the key of the first.
proof fn lemma_first_is_only<V: View>(e: Seq<(String, V)>)
    requires
        e.len() > 0,
        ascending(e),
    ensures
        found(e.drop_first(), e[0].0@) is None,
{
    let rest = e.drop_first();
    let k = e[0].0@;
    lemma_place(rest, k);
    if place(rest, k) < rest.len() {
        assert(rest[place(rest, k)] == e[place(rest, k) + 1]);
        text::lemma_before_itself(k);
    }
}

/// An entry set between those before it and those after it keeps the order.
proof fn lemma_insert_ascending<V>(e: Seq<(String, V)>, i: int, p: (String, V))
    requires
        0 <= i <= e.len(),
        ascending(e),
        forall|j: int| 0 <= j < i ==> text::before((#[trigger] e[j]).0@, p.0@),
        i < e.len() ==> text::before(p.0@, e[i].0@),
    ensures
        ascending(e.insert(i, p)),
{
    let n = e.insert(i, p);
    assert forall|a: int, b: int| 0 <= a < b < n.len() implies text::before(
        (#[trigger] n[a]).0@,
        (#[trigger] n[b]).0@,
    ) by {
        if a < i && b > i {
            assert(n[a] == e[a] && n[b] == e[b - 1]);
        } else if a < i && b < i {
            assert(n[a] == e[a] && n[b] == e[b]);
        } else if a < i {
            assert(n[a] == e[a]);
        } else if a > i {
            assert(n[a] == e[a - 1] && n[b] == e[b - 1]);
        } else {
            assert(n[b] == e[b - 1]);
            if b - 1 > i {
                text::lemma_before_chain(p.0@, e[i].0@, e[b - 1].0@);
            }
        }
    }
}

proof fn lemma_remove_ascending<V>(e: Seq<(String, V)>, i: int)
    requires
        0 <= i < e.len(),
        ascending(e),
    ensures
        ascending(e.remove(i)),
{
    let n = e.remove(i);
    assert forall|a: int, b: int| 0 <= a < b < n.len() implies text::before(
        (#[trigger] n[a]).0@,
        (#[trigger] n[b]).0@,
    ) by {
        assert(n[a] == e[if a < i { a } else { a + 1 }]);
        assert(n[b] == e[if b < i { b } else { b + 1 }]);
    }
}

/// Where the first entry with key `k` stands.
fn find<V: View>(e: &Vec<(String, V)>, k: &str) -> (r: usize)
    ensures
        r == place(e@, k@),
        r <= e@.len(),
{
    let mut i: usize = 0;
    assert(e@.skip(0) =~= e@);
    while i < e.len()
        invariant
            i <= e@.len(),
            place(e@, k@) == i + place(e@.skip(i as int), k@),
        decreases e@.len() - i,
    {
        let ghost rest = e@.skip(i as int);
        assert(rest[0] == e@[i as int]);
        if text::same(e[i].0.as_str(), k) {
            return i;
        }
        assert(rest.drop_first() =~= e@.skip(i + 1));
        i = i + 1;
    }
    i
}

impl<V: View> TextMap<V> {
    /// A map without entries.
    pub fn new() -> (r: Self)
        ensures
            r@ == Map::<Seq<char>, V::V>::empty(),
    {
        let r = TextMap { entries: Vec::new() };
        assert(r@ =~= Map::<Seq<char>, V::V>::empty());
        r
    }

    /// The value under `key`.
    pub fn get(&self, key: &str) -> (r: Option<&V>)
        ensures
            match r {
                Some(v) => at(self@, key@) == Some(v@),
                None => at(self@, key@) is None,
            },
    {
        let i = find(&self.entries, key);
        proof {
            lemma_place(self.entries@, key@);
        }
        if i < self.entries.len() {
            Some(&self.entries[i].1)
        } else {
            None
        }
    }

    /// Whether there is a value under `key`.
    pub fn contains_key(&self, key: &str) -> (r: bool)
        ensures
            r == self@.dom().contains(key@),
    {
        self.get(key).is_some()
    }

    /// Whether there is no value at all.
    pub fn is_empty(&self) -> (r: bool)
        ensures
            r == (self@ == Map::<Seq<char>, V::V>::empty()),
    {
        if self.entries.len() == 0 {
            assert(self@ =~= Map::<Seq<char>, V::V>::empty());
            true
        } else {
            proof {
                let k = self.entries@[0].0@;
                assert(found(self.entries@, k) is Some);
                assert(self@.dom().contains(k));
            }
            false
        }
    }

    /// The keys, in order.
    pub fn keys(&self) -> (r: Vec<String>)
        ensures
            forall|k: Seq<char>|
                self@.dom().contains(k) <==> #[trigger] text::texts(r@).contains(k),
            forall|i: int, j: int|
                0 <= i < j < r@.len() ==> text::before((#[trigger] r@[i])@, (#[trigger] r@[j])@),
    {
        proof {
            use_type_invariant(self);
        }
        let mut out: Vec<String> = Vec::new();
        let mut i: usize = 0;
        while i < self.entries.len()
            invariant
                i <= self.entries@.len(),
                out@.len() == i,
                forall|j: int| 0 <= j < i ==> (#[trigger] out@[j])@ == self.entries@[j].0@,
            decreases self.entries@.len() - i,
        {
            out.push(self.entries[i].0.clone());
            i = i + 1;
        }
        proof {
            assert forall|k: Seq<char>|
                self@.dom().contains(k) <==> #[trigger] text::texts(out@).contains(k) by {
                lemma_place(self.entries@, k);
                let p = place(self.entries@, k);
                if p < self.entries@.len() {
                    assert(text::texts(out@)[p] == k);
                }
                if text::texts(out@).contains(k) {
                    let j = choose|j: int| 0 <= j < out@.len() && text::texts(out@)[j] == k;
                    assert(out@[j]@ == k);
                    lemma_found_at(self.entries@, j);
                }
            }
        }
        out
    }

    /// Sets the value under `key`.
    pub fn insert(&mut self, key: String, value: V)
        ensures
            final(self)@ == old(self)@.insert(key@, value@),
    {
        proof {
            use_type_invariant(&*self);
        }
        let ghost e = self.entries@;
        let ghost m = self@;
        let ghost p = (key, value);
        let mut entries: Vec<(String, V)> = Vec::new();
        std::mem::swap(&mut entries, &mut self.entries);
        let i = find(&entries, key.as_str());
        proof {
            lemma_place(e, key@);
        }
        if i < entries.len() {
            entries.set(i, (key, value));
            proof {
                assert forall|k: Seq<char>| found(entries@, k) == if k == p.0@ {
                    Some(p.1@)
                } else {
                    found(e, k)
                } by {
                    lemma_update(e, i as int, p, k);
                }
                assert(ascending(entries@));
            }
        } else {
            let mut j: usize = 0;
            while j < entries.len() && text::is_before(entries[j].0.as_str(), key.as_str())
                invariant
                    j <= entries@.len(),
                    forall|l: int| 0 <= l < j ==> text::before((#[trigger] entries@[l]).0@, key@),
                decreases entries@.len() - j,
            {
                j = j + 1;
            }
            proof {
                if j < e.len() {
                    text::lemma_before_total(e[j as int].0@, key@);
                    lemma_found_at(e, j as int);
                }
                lemma_insert_ascending(e, j as int, p);
            }
            entries.insert(j, (key, value));
            proof {
                assert forall|k: Seq<char>| found(entries@, k) == if k == p.0@ {
                    Some(p.1@)
                } else {
                    found(e, k)
                } by {
                    lemma_insert(e, j as int, p, k);
                }
            }
        }
        self.entries = entries;
        assert(self@ =~= m.insert(p.0@, p.1@));
    }

    /// Takes the value under `key` out of the map.
    pub fn remove(&mut self, key: &str) -> (r: Option<V>)
        ensures
            final(self)@ == old(self)@.remove(key@),
            match r {
                Some(v) => at(old(self)@, key@) == Some(v@),
                None => at(old(self)@, key@) is None,
            },
    {
        proof {
            use_type_invariant(&*self);
        }
        let ghost m = self@;
        let ghost e = self.entries@;
        let i = find(&self.entries, key);
        proof {
            lemma_place(e, key@);
        }
        if i >= self.entries.len() {
            assert(self@ =~= m.remove(key@));
            return None;
        }
        let mut entries: Vec<(String, V)> = Vec::new();
        std::mem::swap(&mut entries, &mut self.entries);
        let (_, v) = entries.remove(i);
        proof {
            lemma_remove_ascending(e, i as int);
            assert forall|k: Seq<char>| found(entries@, k) == if k == key@ {
                None
            } else {
                found(e, k)
            } by {
                lemma_remove(e, i as int, k);
            }
        }
        self.entries = entries;
        assert(self@ =~= m.remove(key@));
        Some(v)
    }
}

proof fn lemma_found_at<V: View>(e: Seq<(String, V)>, j: int)
    requires
        0 <= j < e.len(),
    ensures
        found(e, e[j].0@) is Some,
    decreases e.len(),
{
    if j > 0 && e[0].0@ != e[j].0@ {
        lemma_found_at(e.drop_first(), j - 1);
    }
}

/// The same map again, where values are cloned to what they model.
fn copy<V: View + Clone>(m: &TextMap<V>) -> (r: TextMap<V>)
    requires
        forall|a: V, b: V| #[trigger] cloned(a, b) ==> a@ == b@,
    ensures
        r@ == m@,
{
    proof {
        use_type_invariant(m);
    }
    let mut entries: Vec<(String, V)> = Vec::new();
    let mut i: usize = 0;
    while i < m.entries.len()
        invariant
            forall|a: V, b: V| #[trigger] cloned(a, b) ==> a@ == b@,
            i <= m.entries@.len(),
            entries@.len() == i,
            forall|j: int|
                0 <= j < i ==> (#[trigger] entries@[j]).0@ == m.entries@[j].0@ && entries@[j].1@
                    == m.entries@[j].1@,
        decreases m.entries@.len() - i,
    {
        let v = m.entries[i].1.clone();
        assert(cloned(m.entries@[i as int].1, v));
        entries.push((m.entries[i].0.clone(), v));
        i = i + 1;
    }
    let r = TextMap { entries };
    proof {
        assert forall|k: Seq<char>| found(r.entries@, k) == found(m.entries@, k) by {
            lemma_found_alike(r.entries@, m.entries@, k);
        }
        assert(r@ =~= m@);
    }
    r
}

impl Clone for TextMap<Json> {
    /// The same map again.
    fn clone(&self) -> (r: Self)
        ensures
            r@ == self@,
    {
        copy(self)
    }
}

impl Clone for TextMap<String> {
    /// The same map again.
    fn clone(&self) -> (r: Self)
        ensures
            r@ == self@,
    {
        copy(self)
    }
}

proof fn lemma_found_alike<V: View>(a: Seq<(String, V)>, b: Seq<(String, V)>, k: Seq<char>)
    requires
        a.len() == b.len(),
        forall|j: int| 0 <= j < a.len() ==> (#[trigger] a[j]).0@ == b[j].0@ && a[j].1@ == b[j].1@,
    ensures
        found(a, k) == found(b, k),
    decreases a.len(),
{
    if a.len() > 0 {
        assert(a[0].0@ == b[0].0@);
        assert forall|j: int| 0 <= j < a.drop_first().len() implies (#[trigger] a.drop_first()[j]).0@
            == b.drop_first()[j].0@ && a.drop_first()[j].1@ == b.drop_first()[j].1@ by {
            assert(a.drop_first()[j] == a[j + 1]);
            assert(a[j + 1].0@ == b[j + 1].0@);
        }
        lemma_found_alike(a.drop_first(), b.drop_first(), k);
    }
}

} // verus!
