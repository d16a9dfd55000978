//! What holds of the parts that everything else is made of: texts, JSON values, readings, moments.
use vstd::prelude::*;
use crate::json::{
    bool_at, bool_of, canonical, canonical_items, canonical_members, items_at, items_of, lookup,
    member, members_at, members_of, natural, natural_at, natural_of, put, sorted, text_at, text_of,
    JsonV,
};
use crate::map::at;
use crate::number::{above, is_nan, within_unit, Fraction, Reading};
use crate::text::{
    after, before, begins, blank, decimal, digit, halves, is_digit, joined, lemma_before_chain,
    lemma_before_itself, lemma_before_total, lemma_decimal, lemma_first_of, lemma_first_of_is,
    lemma_last_of, lines_of, lower, lowered, parsed_unsigned, replaced, rhalves, same_folded,
    signed_decimal, stripped_end, stripped_start, trimmed, trimmed_end, trimmed_start, white,
    without_cr, word_len, words,
};
use crate::time::{clamped, later, millis_span, since, span_of};

verus! {

// ---------------- white space ----------------

/// All of it is white space.
pub open spec fn all_white(s: Seq<char>) -> bool {
    forall|i: int| 0 <= i < s.len() ==> white(#[trigger] s[i])
}

/// Among the characters of ASCII the blank and the five controls from tab to carriage return are
/// white space, and nothing else is.
pub proof fn ascii_white_space(c: char)
    requires
        c as u32 <= 0x7f,
    ensures
        white(c) <==> c == ' ' || c == '\t' || c == '\n' || c == '\r' || c as u32 == 0x0b || c as u32
            == 0x0c,
{
}

proof fn lemma_trimmed_start(s: Seq<char>) -> (n: int)
    ensures
        0 <= n <= s.len(),
        trimmed_start(s) == s.skip(n),
        all_white(s.take(n)),
        n < s.len() ==> !white(s[n]),
    decreases s.len(),
{
    if s.len() > 0 && white(s[0]) {
        let t = s.drop_first();
        let n = lemma_trimmed_start(t);
        assert(t.skip(n) =~= s.skip(n + 1));
        let lead = s.take(n + 1);
        assert forall|i: int| 0 <= i < lead.len() implies white(#[trigger] lead[i]) by {
            if i > 0 {
                assert(lead[i] == t.take(n)[i - 1]);
            }
        }
        n + 1
    } else {
        assert(s.skip(0) =~= s);
        0
    }
}

proof fn lemma_trimmed_end(s: Seq<char>) -> (n: int)
    ensures
        0 <= n <= s.len(),
        trimmed_end(s) == s.take(n),
        all_white(s.skip(n)),
        n > 0 ==> !white(s[n - 1]),
    decreases s.len(),
{
    if s.len() > 0 && white(s.last()) {
        let t = s.drop_last();
        let n = lemma_trimmed_end(t);
        assert(t.take(n) =~= s.take(n));
        let tail = s.skip(n);
        assert forall|i: int| 0 <= i < tail.len() implies white(#[trigger] tail[i]) by {
            if i < tail.len() - 1 {
                assert(tail[i] == t.skip(n)[i]);
            }
        }
        n
    } else {
        assert(s.take(s.len() as int) =~= s);
        s.len() as int
    }
}

/// Trimming takes away white space at either end, all of it and nothing else.
pub proof fn trimming_takes_only_white_space(s: Seq<char>)
    ensures
        exists|i: int, j: int|
            #![trigger s.subrange(i, j)]
            0 <= i <= j <= s.len() && trimmed(s) == s.subrange(i, j) && all_white(s.take(i))
                && all_white(s.skip(j)),
        trimmed(s).len() > 0 ==> !white(trimmed(s)[0]) && !white(trimmed(s).last()),
{
    let i = lemma_trimmed_start(s);
    let t = trimmed_start(s);
    let n = lemma_trimmed_end(t);
    let j = i + n;
    assert(t.take(n) =~= s.subrange(i, j));
    let tail = s.skip(j);
    assert forall|k: int| 0 <= k < tail.len() implies white(#[trigger] tail[k]) by {
        assert(tail[k] == t.skip(n)[k]);
    }
    assert(trimmed(s) == s.subrange(i, j) && all_white(s.take(i)) && all_white(s.skip(j)));
    if n > 0 {
        assert(trimmed(s)[0] == s[i]);
        assert(trimmed(s).last() == t[n - 1]);
    }
}

/// A text is blank where all of it is white space, and only there.
pub proof fn blank_is_all_white_space(s: Seq<char>)
    ensures
        blank(s) <==> all_white(s),
{
    trimming_takes_only_white_space(s);
    let (i, j) = choose|i: int, j: int|
        #![trigger s.subrange(i, j)]
        0 <= i <= j <= s.len() && trimmed(s) == s.subrange(i, j) && all_white(s.take(i))
            && all_white(s.skip(j));
    if blank(s) {
        assert(i == j);
        assert forall|k: int| 0 <= k < s.len() implies white(#[trigger] s[k]) by {
            if k < i {
                assert(s.take(i)[k] == s[k]);
            } else {
                assert(s.skip(j)[k - j] == s[k]);
            }
        }
    } else {
        assert(trimmed(s)[0] == s[i]);
    }
}

// ---------------- case ----------------

/// Two characters are the same, or the capital and the small form of one ASCII letter.
pub open spec fn same_letter(a: char, b: char) -> bool {
    ||| a == b
    ||| 'A' <= a <= 'Z' && b as u32 == a as u32 + 32
    ||| 'A' <= b <= 'Z' && a as u32 == b as u32 + 32
}

/// Texts are the same, case aside, where they are equally long and the same letter by letter.
pub proof fn case_is_all_that_is_put_aside(a: Seq<char>, b: Seq<char>)
    ensures
        same_folded(a, b) <==> a.len() == b.len() && forall|i: int|
            0 <= i < a.len() ==> same_letter(#[trigger] a[i], b[i]),
{
    if same_folded(a, b) {
        assert(lowered(a).len() == lowered(b).len());
        assert forall|i: int| 0 <= i < a.len() implies same_letter(#[trigger] a[i], b[i]) by {
            assert(lowered(a)[i] == lower(a[i]));
            assert(lowered(b)[i] == lower(b[i]));
        }
    }
    if a.len() == b.len() && forall|i: int|
        0 <= i < a.len() ==> same_letter(#[trigger] a[i], b[i]) {
        assert forall|i: int| 0 <= i < a.len() implies lower(#[trigger] a[i]) == lower(b[i]) by {
            assert(same_letter(a[i], b[i]));
        }
        assert(lowered(a) =~= lowered(b));
    }
}

// ---------------- splitting ----------------

/// A text is split at its first character of a kind: the parts around it make up the text, and the
/// first has none of it.
pub proof fn halves_part_at_the_first(s: Seq<char>, c: char)
    ensures
        match halves(s, c) {
            Some((a, b)) => s == a.push(c) + b && !a.contains(c),
            None => !s.contains(c),
        },
{
    lemma_first_of(s, c);
    if let Some((a, b)) = halves(s, c) {
        assert(s =~= a.push(c) + b);
    }
}

/// A text is split at its last character of a kind: the parts around it make up the text, and the
/// second has none of it.
pub proof fn rhalves_part_at_the_last(s: Seq<char>, c: char)
    ensures
        match rhalves(s, c) {
            Some((a, b)) => s == a.push(c) + b && !b.contains(c),
            None => !s.contains(c),
        },
{
    lemma_last_of(s, c);
    if let Some((a, b)) = rhalves(s, c) {
        assert(s =~= a.push(c) + b);
    }
}

/// What follows a prefix is what it takes to make up the text.
pub proof fn a_prefix_and_the_rest_make_the_text(s: Seq<char>, p: Seq<char>, rest: Seq<char>)
    ensures
        after(p + rest, p) == Some(rest),
        after(s, p) matches Some(t) ==> s == p + t,
        begins(s, p) <==> after(s, p) is Some,
{
    assert((p + rest).take(p.len() as int) =~= p);
    assert((p + rest).skip(p.len() as int) =~= rest);
    if let Some(t) = after(s, p) {
        assert(s =~= p + t);
    }
}

/// Stripping takes away the run of one character at the end, all of it and nothing else.
pub proof fn stripping_takes_only_the_run(s: Seq<char>, c: char)
    ensures
        stripped_end(s, c).len() > 0 ==> stripped_end(s, c).last() != c,
        stripped_end(s, c).len() <= s.len(),
        stripped_end(s, c) == s.take(stripped_end(s, c).len() as int),
        forall|i: int| stripped_end(s, c).len() <= i < s.len() ==> #[trigger] s[i] == c,
        stripped_end(s.push(c), c) == stripped_end(s, c),
    decreases s.len(),
{
    assert(s.push(c).drop_last() =~= s);
    if s.len() > 0 && s.last() == c {
        let t = s.drop_last();
        stripping_takes_only_the_run(t, c);
        assert(t.take(stripped_end(t, c).len() as int) =~= s.take(
            stripped_end(t, c).len() as int,
        ));
        assert forall|i: int| stripped_end(s, c).len() <= i < s.len() implies #[trigger] s[i]
            == c by {
            if i < t.len() {
                assert(t[i] == s[i]);
            }
        }
    } else {
        assert(s.take(s.len() as int) =~= s);
    }
}

/// Stripping takes away the run of one character at the start, all of it and nothing else.
pub proof fn stripping_the_start_takes_only_the_run(s: Seq<char>, c: char)
    ensures
        ({
            let n = s.len() - stripped_start(s, c).len();
            &&& 0 <= n
            &&& stripped_start(s, c) == s.skip(n)
            &&& forall|i: int| 0 <= i < n ==> #[trigger] s[i] == c
            &&& n < s.len() ==> s[n] != c
        }),
    decreases s.len(),
{
    if s.len() > 0 && s[0] == c {
        let t = s.drop_first();
        stripping_the_start_takes_only_the_run(t, c);
        let n = t.len() - stripped_start(t, c).len();
        assert(t.skip(n) =~= s.skip(n + 1));
        assert forall|i: int| 0 <= i < n + 1 implies #[trigger] s[i] == c by {
            if i > 0 {
                assert(t[i - 1] == s[i]);
            }
        }
    } else {
        assert(s.skip(0) =~= s);
    }
}

/// Replacing changes each character of the one kind and leaves every other in its place.
pub proof fn replacing_changes_one_kind(s: Seq<char>, from: char, to: char, i: int)
    requires
        0 <= i < s.len(),
    ensures
        replaced(s, from, to).len() == s.len(),
        s[i] == from ==> replaced(s, from, to)[i] == to,
        s[i] != from ==> replaced(s, from, to)[i] == s[i],
{
}

proof fn lemma_word(a: Seq<char>, rest: Seq<char>)
    requires
        forall|i: int| 0 <= i < a.len() ==> !white(#[trigger] a[i]),
        rest.len() > 0 ==> white(rest[0]),
    ensures
        word_len(a + rest) == a.len(),
    decreases a.len(),
{
    if a.len() == 0 {
        assert(a + rest =~= rest);
    } else {
        let t = a.drop_first();
        assert((a + rest).drop_first() =~= t + rest);
        assert(!white(a[0]));
        assert forall|i: int| 0 <= i < t.len() implies !white(#[trigger] t[i]) by {
            assert(t[i] == a[i + 1]);
        }
        lemma_word(t, rest);
    }
}

/// A run of characters that are not white space is one word, and what follows it behind white space
/// are the others. White space at the start of a text does not count.
pub proof fn words_are_the_runs_between_white_space(a: Seq<char>, w: char, rest: Seq<char>)
    requires
        a.len() > 0,
        forall|i: int| 0 <= i < a.len() ==> !white(#[trigger] a[i]),
        white(w),
    ensures
        words(a) == seq![a],
        words(a.push(w) + rest) == seq![a] + words(rest),
        words(seq![w] + rest) == words(rest),
        words(Seq::<char>::empty()).len() == 0,
{
    let none = Seq::<char>::empty();
    lemma_word(a, none);
    assert(a + none =~= a);
    assert(!white(a[0]));
    assert(a.take(a.len() as int) =~= a);
    assert(a.skip(a.len() as int) =~= none);
    assert(words(none) =~= Seq::empty());
    assert(words(a) =~= seq![a]);
    let tail = seq![w] + rest;
    lemma_word(a, tail);
    let s = a.push(w) + rest;
    assert(s =~= a + tail);
    assert(s.take(a.len() as int) =~= a);
    assert(s.skip(a.len() as int) =~= tail);
    assert(tail.drop_first() =~= rest);
    assert(s[0] == a[0]);
    assert(words(tail) == words(rest));
    assert(words(s) == seq![a] + words(tail));
}

/// What stands before the first line feed is the first line, without the carriage return that ends
/// it, and the others follow. A text without a line feed is one line, as it stands.
pub proof fn lines_end_at_line_feeds(a: Seq<char>, rest: Seq<char>)
    requires
        !a.contains('\n'),
    ensures
        lines_of(a.push('\n') + rest) == seq![without_cr(a)] + lines_of(rest),
        a.len() > 0 ==> lines_of(a) == seq![a],
        lines_of(Seq::<char>::empty()).len() == 0,
        without_cr(a.push('\r')) == a,
        a.len() > 0 && a.last() != '\r' ==> without_cr(a) == a,
{
    let s = a.push('\n') + rest;
    let n = a.len() as int;
    assert forall|i: int| 0 <= i < n implies s[i] != '\n' by {
        assert(s[i] == a[i]);
        assert(a.contains(a[i]));
    }
    assert(s[n] == '\n');
    lemma_first_of_is(s, '\n', n);
    assert(s.take(n) =~= a);
    assert(s.skip(n + 1) =~= rest);
    lemma_first_of(a, '\n');
    assert(a.push('\r').drop_last() =~= a);
}

/// Joined texts stand in their order, with the separator between any two of them and nowhere else.
pub proof fn joining_puts_the_separator_between(
    parts: Seq<Seq<char>>,
    next: Seq<char>,
    sep: Seq<char>,
)
    ensures
        joined(seq![next], sep) == next,
        parts.len() > 0 ==> joined(parts.push(next), sep) == joined(parts, sep) + sep + next,
        joined(Seq::<Seq<char>>::empty(), sep).len() == 0,
{
    assert(parts.push(next).drop_last() =~= parts);
}

// ---------------- numbers in decimal ----------------

/// Numbers are written in the ten digits, the one after the other, most significant first: ten times
/// a number and some units is that number with one digit behind it.
pub proof fn decimal_grows_by_one_digit(n: nat, d: nat)
    requires
        d < 10,
    ensures
        decimal(d).len() == 1,
        decimal(d)[0] as u32 == '0' as u32 + d,
        n > 0 ==> decimal((10 * n + d) as nat) == decimal(n) + decimal(d),
{
    if n > 0 {
        let m = (10 * n + d) as nat;
        assert(m / 10 == n && m % 10 == d);
        assert(decimal(n) + decimal(d) =~= decimal(n).push(digit(d as int)));
    }
}

/// A number is read back from its decimal form where it is within the bound, with a plus sign or
/// without, and refused where it is beyond it.
pub proof fn decimal_is_read_up_to_the_bound(n: nat, max: nat)
    ensures
        n <= max ==> parsed_unsigned(decimal(n), max) == Some(n),
        n <= max ==> parsed_unsigned(seq!['+'] + decimal(n), max) == Some(n),
        n > max ==> parsed_unsigned(decimal(n), max) is None,
{
    lemma_decimal(n);
    let t = seq!['+'] + decimal(n);
    assert(t.drop_first() =~= decimal(n));
}

/// Nothing but digits behind at most one plus sign is a number.
pub proof fn only_digits_are_a_number(s: Seq<char>, max: nat, i: int)
    requires
        0 <= i < s.len(),
        !('0' <= s[i] <= '9'),
        i > 0 || s[0] != '+',
    ensures
        parsed_unsigned(s, max) is None,
{
    if s[0] == '+' {
        let t = s.drop_first();
        assert(t[i - 1] == s[i]);
    } else {
        assert(!is_digit(s[i]));
    }
}

/// A negative number is its magnitude behind a minus sign; any other has no sign.
pub proof fn a_sign_stands_before_the_digits(n: int)
    ensures
        n >= 0 ==> signed_decimal(n) == decimal(n as nat),
        n < 0 ==> signed_decimal(n) == seq!['-'] + decimal((-n) as nat),
{
}

// ---------------- order of texts ----------------

/// Texts are ordered by the first character in which they differ, and one that begins another comes
/// before it.
pub proof fn the_first_difference_decides(p: Seq<char>, a: char, x: Seq<char>, b: char, y: Seq<char>)
    ensures
        a != b ==> (before(p.push(a) + x, p.push(b) + y) <==> a < b),
        before(p, p.push(a) + x),
        !before(p.push(a) + x, p),
    decreases p.len(),
{
    let s = p.push(a) + x;
    let t = p.push(b) + y;
    if p.len() > 0 {
        let q = p.drop_first();
        the_first_difference_decides(q, a, x, b, y);
        assert(s.drop_first() =~= q.push(a) + x);
        assert(t.drop_first() =~= q.push(b) + y);
        assert(s[0] == p[0] && t[0] == p[0]);
    } else {
        assert(s[0] == a && t[0] == b);
    }
}

// ---------------- JSON ----------------

/// The member of an object under a key is the first with that key; a value that is no object has no
/// members.
pub proof fn the_first_member_counts(m: Seq<(Seq<char>, JsonV)>, key: Seq<char>)
    ensures
        forall|i: int|
            #![trigger m[i]]
            0 <= i < m.len() && m[i].0 == key && (forall|j: int|
                0 <= j < i ==> (#[trigger] m[j]).0 != key) ==> member(JsonV::Object(m), key)
                == Some(m[i].1),
        (forall|j: int| 0 <= j < m.len() ==> (#[trigger] m[j]).0 != key) ==> member(
            JsonV::Object(m),
            key,
        ) is None,
        forall|v: JsonV| !(v is Object) ==> #[trigger] member(v, key) is None,
    decreases m.len(),
{
    if m.len() > 0 {
        let rest = m.drop_first();
        the_first_member_counts(rest, key);
        assert forall|i: int|
            #![trigger m[i]]
            0 <= i < m.len() && m[i].0 == key && (forall|j: int|
                0 <= j < i ==> (#[trigger] m[j]).0 != key) implies lookup(m, key) == Some(
            m[i].1,
        ) by {
            if i > 0 {
                assert(m[0].0 != key);
                assert(rest[i - 1] == m[i]);
                assert forall|j: int| 0 <= j < i - 1 implies (#[trigger] rest[j]).0 != key by {
                    assert(rest[j] == m[j + 1]);
                }
                assert(member(JsonV::Object(rest), key) == Some(rest[i - 1].1));
            }
        }
        if forall|j: int| 0 <= j < m.len() ==> (#[trigger] m[j]).0 != key {
            assert(m[0].0 != key);
            assert forall|j: int| 0 <= j < rest.len() implies (#[trigger] rest[j]).0 != key by {
                assert(rest[j] == m[j + 1]);
            }
            assert(member(JsonV::Object(rest), key) is None);
        }
    }
}

/// A map has a value under exactly its own keys.
pub proof fn a_map_has_values_under_its_keys(m: Map<Seq<char>, JsonV>, k: Seq<char>)
    ensures
        m.dom().contains(k) ==> at(m, k) == Some(m[k]),
        !m.dom().contains(k) ==> at(m, k) is None,
{
}

/// A JSON value is the text, the truth value, the items or the members of its own kind and of no
/// other.
pub proof fn a_value_is_of_one_kind(v: JsonV)
    ensures
        v matches JsonV::Text(t) ==> text_of(v) == Some(t),
        !(v is Text) ==> text_of(v) is None,
        v matches JsonV::Bool(b) ==> bool_of(v) == Some(b),
        !(v is Bool) ==> bool_of(v) is None,
        v matches JsonV::Array(s) ==> items_of(v) == Some(s),
        !(v is Array) ==> items_of(v) is None,
        v matches JsonV::Object(m) ==> members_of(v) == Some(m),
        !(v is Object) ==> members_of(v) is None,
{
}

/// What stands under a key is read from the member with that key, and is missing where there is no
/// such member.
pub proof fn a_value_is_read_under_its_key(j: JsonV, key: Seq<char>)
    ensures
        member(j, key) matches Some(v) ==> {
            &&& text_at(j, key) == text_of(v)
            &&& bool_at(j, key) == bool_of(v)
            &&& natural_at(j, key) == natural_of(v)
            &&& items_at(j, key) == items_of(v)
            &&& members_at(j, key) == members_of(v)
        },
        member(j, key) is None ==> {
            &&& text_at(j, key) is None
            &&& bool_at(j, key) is None
            &&& natural_at(j, key) is None
            &&& items_at(j, key) is None
            &&& members_at(j, key) is None
        },
{
}

/// The natural number that a JSON number is written as.
pub proof fn a_natural_is_read_from_its_number(n: u64, v: JsonV)
    ensures
        natural_of(JsonV::Number(decimal(n as nat))) == Some(n as nat),
        !(v is Number) ==> natural_of(v) is None,
{
    decimal_is_read_up_to_the_bound(n as nat, u64::MAX as nat);
}

/// The keys stand in their order, each once.
pub open spec fn keys_ascend(m: Seq<(Seq<char>, JsonV)>) -> bool {
    forall|i: int, j: int|
        #![trigger m[i], m[j]]
        0 <= i < j < m.len() ==> before(m[i].0, m[j].0)
}

proof fn lemma_put(m: Seq<(Seq<char>, JsonV)>, key: Seq<char>, v: JsonV)
    requires
        keys_ascend(m),
    ensures
        keys_ascend(put(m, key, v)),
        forall|k: Seq<char>| #[trigger]
            lookup(put(m, key, v), k) == if k == key {
                Some(v)
            } else {
                lookup(m, k)
            },
        forall|i: int|
            0 <= i < put(m, key, v).len() ==> (#[trigger] put(m, key, v)[i]).0 == key || exists|
                j: int,
            |
                0 <= j < m.len() && m[j].0 == put(m, key, v)[i].0,
    decreases m.len(),
{
    let r = put(m, key, v);
    if m.len() == 0 {
        assert(r.drop_first() =~= m);
    } else if m[0].0 == key {
        let rest = m.drop_first();
        assert(r.drop_first() =~= rest);
        assert forall|i: int, j: int|
            #![trigger r[i], r[j]]
            0 <= i < j < r.len() implies before(r[i].0, r[j].0) by {
            assert(r[i].0 == m[i].0 && r[j].0 == m[j].0);
        }
        assert forall|i: int| 0 <= i < r.len() implies (#[trigger] r[i]).0 == key || exists|j: int|
            0 <= j < m.len() && m[j].0 == r[i].0 by {
            assert(m[i].0 == r[i].0);
        }
    } else if before(key, m[0].0) {
        assert(r.drop_first() =~= m);
        assert forall|i: int, j: int|
            #![trigger r[i], r[j]]
            0 <= i < j < r.len() implies before(r[i].0, r[j].0) by {
            assert(r[j] == m[j - 1]);
            if i > 0 {
                assert(r[i] == m[i - 1]);
            } else if j > 1 {
                lemma_before_chain(key, m[0].0, m[j - 1].0);
            }
        }
        assert forall|i: int| 0 <= i < r.len() implies (#[trigger] r[i]).0 == key || exists|j: int|
            0 <= j < m.len() && m[j].0 == r[i].0 by {
            if i > 0 {
                assert(m[i - 1].0 == r[i].0);
            }
        }
        lemma_absent_before(m, key);
    } else {
        let rest = m.drop_first();
        assert forall|i: int, j: int|
            #![trigger rest[i], rest[j]]
            0 <= i < j < rest.len() implies before(rest[i].0, rest[j].0) by {
            assert(rest[i] == m[i + 1] && rest[j] == m[j + 1]);
        }
        lemma_put(rest, key, v);
        lemma_before_total(key, m[0].0);
        let q = put(rest, key, v);
        assert(r.drop_first() =~= q);
        assert forall|i: int, j: int|
            #![trigger r[i], r[j]]
            0 <= i < j < r.len() implies before(r[i].0, r[j].0) by {
            assert(r[j] == q[j - 1]);
            if i > 0 {
                assert(r[i] == q[i - 1]);
            } else if q[j - 1].0 != key {
                let k = choose|k: int| 0 <= k < rest.len() && rest[k].0 == q[j - 1].0;
                assert(m[k + 1] == rest[k]);
            }
        }
        assert forall|i: int| 0 <= i < r.len() implies (#[trigger] r[i]).0 == key || exists|j: int|
            0 <= j < m.len() && m[j].0 == r[i].0 by {
            if i == 0 {
                assert(m[0].0 == r[0].0);
            } else {
                assert(r[i] == q[i - 1]);
                if q[i - 1].0 != key {
                    let k = choose|k: int| 0 <= k < rest.len() && rest[k].0 == q[i - 1].0;
                    assert(m[k + 1].0 == r[i].0);
                }
            }
        }
        assert forall|k: Seq<char>| #[trigger] lookup(r, k) == if k == key {
            Some(v)
        } else {
            lookup(m, k)
        } by {
            assert(lookup(q, k) == if k == key {
                Some(v)
            } else {
                lookup(rest, k)
            });
        }
    }
}

/// A key before the first is not among those in order.
proof fn lemma_absent_before(m: Seq<(Seq<char>, JsonV)>, key: Seq<char>)
    requires
        keys_ascend(m),
        m.len() > 0,
        before(key, m[0].0),
    ensures
        lookup(m, key) is None,
{
    the_first_member_counts(m, key);
    assert forall|j: int| 0 <= j < m.len() implies (#[trigger] m[j]).0 != key by {
        if j > 0 {
            lemma_before_chain(key, m[0].0, m[j].0);
        }
        lemma_before_itself(key);
    }
}

proof fn lemma_sorted(m: Seq<(Seq<char>, JsonV)>)
    ensures
        keys_ascend(sorted(m)),
    decreases m.len(),
{
    if m.len() > 0 {
        lemma_sorted(m.drop_last());
        lemma_put(sorted(m.drop_last()), m.last().0, m.last().1);
    }
}

/// An object is written with its keys in order, each once, and under each key the last value that
/// was given for it.
pub proof fn an_object_is_written_by_its_keys(m: Seq<(Seq<char>, JsonV)>, i: int)
    requires
        0 <= i < m.len(),
        forall|j: int| i < j < m.len() ==> (#[trigger] m[j]).0 != m[i].0,
    ensures
        keys_ascend(sorted(m)),
        lookup(sorted(m), m[i].0) == Some(m[i].1),
    decreases m.len(),
{
    let rest = m.drop_last();
    lemma_sorted(rest);
    lemma_put(sorted(rest), m.last().0, m.last().1);
    if i < rest.len() {
        assert(m[m.len() - 1].0 != m[i].0);
        assert forall|j: int| i < j < rest.len() implies (#[trigger] rest[j]).0 != rest[i].0 by {
            assert(rest[j] == m[j]);
        }
        an_object_is_written_by_its_keys(rest, i);
    }
}

/// Nothing is written under a key that was not given.
pub proof fn no_other_key_is_written(m: Seq<(Seq<char>, JsonV)>, k: Seq<char>)
    requires
        forall|j: int| 0 <= j < m.len() ==> (#[trigger] m[j]).0 != k,
    ensures
        lookup(sorted(m), k) is None,
    decreases m.len(),
{
    if m.len() > 0 {
        let rest = m.drop_last();
        assert(m[m.len() - 1].0 != k);
        assert forall|j: int| 0 <= j < rest.len() implies (#[trigger] rest[j]).0 != k by {
            assert(rest[j] == m[j]);
        }
        no_other_key_is_written(rest, k);
        lemma_sorted(rest);
        lemma_put(sorted(rest), m.last().0, m.last().1);
    }
}

proof fn lemma_written_members(m: Seq<(Seq<char>, JsonV)>)
    ensures
        canonical_members(m).len() == m.len(),
        forall|i: int|
            0 <= i < m.len() ==> #[trigger] canonical_members(m)[i] == (m[i].0, canonical(m[i].1)),
    decreases m.len(),
{
    if m.len() > 0 {
        let rest = m.drop_last();
        lemma_written_members(rest);
        assert forall|i: int| 0 <= i < m.len() implies #[trigger] canonical_members(m)[i] == (
            m[i].0,
            canonical(m[i].1),
        ) by {
            if i < rest.len() {
                assert(canonical_members(m)[i] == canonical_members(rest)[i]);
                assert(rest[i] == m[i]);
            }
        }
    }
}

/// The member of an object is written as it is, under its own key; of several with one key the last.
pub proof fn a_member_is_written_under_its_key(m: Seq<(Seq<char>, JsonV)>, i: int)
    requires
        0 <= i < m.len(),
        forall|j: int| i < j < m.len() ==> (#[trigger] m[j]).0 != m[i].0,
    ensures
        member(canonical(JsonV::Object(m)), m[i].0) == Some(canonical(m[i].1)),
{
    let w = canonical_members(m);
    lemma_written_members(m);
    assert(w[i] == (m[i].0, canonical(m[i].1)));
    assert forall|j: int| i < j < w.len() implies (#[trigger] w[j]).0 != w[i].0 by {
        assert(w[j] == (m[j].0, canonical(m[j].1)));
    }
    an_object_is_written_by_its_keys(w, i);
}

/// Texts, truth values, null and natural numbers are written as they are, the items of an array in
/// their order.
pub proof fn a_value_is_written_as_it_is(j: JsonV, i: int)
    ensures
        j is Text || j is Bool || j is Null ==> canonical(j) == j,
        j matches JsonV::Number(t) ==> (natural(t) ==> canonical(j) == j),
        j matches JsonV::Array(s) ==> (canonical(j) matches JsonV::Array(t) && t.len() == s.len() && (
        0 <= i < s.len() ==> t[i] == canonical(s[i]))),
    decreases j,
{
    if let JsonV::Array(s) = j {
        lemma_items(s, i);
    }
}

proof fn lemma_items(s: Seq<JsonV>, i: int)
    ensures
        canonical_items(s).len() == s.len(),
        0 <= i < s.len() ==> canonical_items(s)[i] == canonical(s[i]),
    decreases s.len(),
{
    if s.len() > 0 {
        lemma_items(s.drop_last(), i);
    }
}

// ---------------- readings ----------------

/// Numbers compare as they should: of two positive ones the one with the greater bits is above the
/// other, of two negative ones the one with the lesser, a negative one is never above a positive
/// one, and both zeros are one number. What is not a number compares with nothing.
pub proof fn readings_compare_as_numbers(a: Reading, b: Reading)
    ensures
        is_nan(a) || is_nan(b) ==> !above(a, b),
        a.bits > 0x7ff0_0000_0000_0000 && a.bits < 0x8000_0000_0000_0000 ==> is_nan(a),
        a.bits > 0xfff0_0000_0000_0000 ==> is_nan(a),
        a.bits <= 0x7ff0_0000_0000_0000 && b.bits <= 0x7ff0_0000_0000_0000 ==> (above(a, b)
            <==> a.bits > b.bits),
        0x8000_0000_0000_0000 <= a.bits <= 0xfff0_0000_0000_0000 && 0x8000_0000_0000_0000 <= b.bits
            <= 0xfff0_0000_0000_0000 ==> (above(a, b) <==> a.bits < b.bits),
        0x8000_0000_0000_0000 <= a.bits <= 0xfff0_0000_0000_0000 && b.bits <= 0x7ff0_0000_0000_0000
            ==> !above(a, b),
        a.bits <= 0x7ff0_0000_0000_0000 && 0x8000_0000_0000_0000 <= b.bits <= 0xfff0_0000_0000_0000
            ==> (above(a, b) <==> a.bits != 0 || b.bits != 0x8000_0000_0000_0000),
{
}

/// Fractions of one are those from zero, of either sign, up to one and no other.
pub proof fn a_fraction_lies_between_zero_and_one(f: Fraction)
    ensures
        f.bits < 0x8000_0000 ==> (within_unit(f) <==> f.bits <= 0x3f80_0000),
        f.bits > 0x8000_0000 ==> !within_unit(f),
        f.bits == 0x8000_0000 ==> within_unit(f),
{
}

// ---------------- moments ----------------

/// A moment so long after another is that long after it, as far as moments go.
pub proof fn moments_add_up(now: u64, span: u64)
    ensures
        now + span <= u64::MAX ==> later(now, span) == now + span && since(now, later(now, span))
            == span,
        later(now, span) >= now,
        since(later(now, span), now) == 0,
{
}

/// So many seconds are a thousand times as many milliseconds, and a second is a milliard of
/// nanoseconds.
pub proof fn seconds_and_milliseconds(n: u64)
    requires
        n * 1_000_000_000 <= u64::MAX,
    ensures
        span_of(n) == n * 1_000_000_000,
        millis_span(n) == n * 1_000_000,
        span_of(n) == 1000 * millis_span(n),
{
}

/// A value is moved no further than it must be: it stays where it is within the bounds, and goes to
/// the nearer of them where it is not.
pub proof fn clamping_moves_no_further_than_it_must(v: u64, low: u64, high: u64)
    requires
        low <= high,
    ensures
        low <= clamped(v, low, high) <= high,
        low <= v <= high ==> clamped(v, low, high) == v,
        v < low ==> clamped(v, low, high) == low,
        v > high ==> clamped(v, low, high) == high,
{
}

} // verus!
