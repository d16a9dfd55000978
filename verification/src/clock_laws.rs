//! What holds of the clock's texts, at every moment and in every zone.
use vstd::prelude::*;
use crate::clock::{
    civil_time, clock_text, day_at, next_tick, short_time, two, year_text, zeros, zone_times, Civil,
    Weekday,
};
use crate::text::{all_digits, decimal, digit, digit_value, digits_value, is_digit, lemma_decimal};

verus! {

// ---------------- the day of the week ----------------

/// The days of the week follow each other as they do in the calendar, from Monday on.
pub proof fn days_follow_each_other(n: u32)
    requires
        n < 6,
    ensures
        day_at(0) == Weekday::Mon,
        day_at(n) == Weekday::Mon ==> day_at((n + 1) as u32) == Weekday::Tue,
        day_at(n) == Weekday::Tue ==> day_at((n + 1) as u32) == Weekday::Wed,
        day_at(n) == Weekday::Wed ==> day_at((n + 1) as u32) == Weekday::Thu,
        day_at(n) == Weekday::Thu ==> day_at((n + 1) as u32) == Weekday::Fri,
        day_at(n) == Weekday::Fri ==> day_at((n + 1) as u32) == Weekday::Sat,
        day_at(n) == Weekday::Sat ==> day_at((n + 1) as u32) == Weekday::Sun,
        day_at(n) != Weekday::Sun,
{
}

/// The week in French, from Monday on.
pub open spec fn french_week() -> Seq<Seq<char>> {
    seq![
        "Lundi"@,
        "Mardi"@,
        "Mercredi"@,
        "Jeudi"@,
        "Vendredi"@,
        "Samedi"@,
        "Dimanche"@,
    ]
}

/// The week in English, from Monday on.
pub open spec fn english_week() -> Seq<Seq<char>> {
    seq![
        "Monday"@,
        "Tuesday"@,
        "Wednesday"@,
        "Thursday"@,
        "Friday"@,
        "Saturday"@,
        "Sunday"@,
    ]
}

/// The clock names the day that the calendar has: so many days after Monday, so far down the week
/// in the language that is asked for.
pub proof fn the_day_has_its_own_name(
    local: Civil,
    zones: Seq<(Seq<char>, Civil)>,
    lang: Seq<char>,
)
    requires
        local.sound(),
    ensures
        lang == "fr"@ ==> clock_text(local, zones, lang).weekday == french_week()[local.weekday as int],
        lang != "fr"@ ==> clock_text(local, zones, lang).weekday == english_week()[local.weekday as int],
{
}

// ---------------- the digits ----------------

proof fn lemma_digit(d: int)
    requires
        0 <= d < 10,
    ensures
        is_digit(digit(d)),
        digit_value(digit(d)) == d,
{
}

proof fn lemma_two(n: u32)
    requires
        n < 100,
    ensures
        two(n).len() == 2,
        all_digits(two(n)),
        digits_value(two(n)) == n,
{
    lemma_digit((n / 10) as int);
    lemma_digit((n % 10) as int);
    let s = two(n);
    assert(s.drop_last() =~= seq![digit((n / 10) as int)]);
    assert(s.drop_last().drop_last() =~= Seq::<char>::empty());
    reveal_with_fuel(digits_value, 3);
}

proof fn lemma_zeros(n: int, s: Seq<char>)
    requires
        all_digits(s),
    ensures
        zeros(n).len() == if n > 0 {
            n
        } else {
            0
        },
        all_digits(zeros(n) + s),
        digits_value(zeros(n) + s) == digits_value(s),
    decreases s.len(), n,
{
    if s.len() > 0 {
        let rest = s.drop_last();
        assert forall|i: int| 0 <= i < rest.len() implies is_digit(#[trigger] rest[i]) by {
            assert(rest[i] == s[i]);
        }
        lemma_zeros(n, rest);
        let all = zeros(n) + s;
        assert(all.drop_last() =~= zeros(n) + rest);
        assert(all.last() == s.last());
        assert forall|i: int| 0 <= i < all.len() implies is_digit(#[trigger] all[i]) by {
            if i < all.len() - 1 {
                assert(all[i] == (zeros(n) + rest)[i]);
            } else {
                assert(all[i] == s[s.len() - 1]);
            }
        }
    } else if n > 0 {
        lemma_zeros(n - 1, s);
        assert(zeros(n - 1) + s =~= zeros(n - 1));
        let all = zeros(n) + s;
        assert(all =~= zeros(n - 1).push('0'));
        assert(all.drop_last() =~= zeros(n - 1));
        assert forall|i: int| 0 <= i < all.len() implies is_digit(#[trigger] all[i]) by {
            if i < all.len() - 1 {
                assert(all[i] == (zeros(n - 1) + s)[i]);
            }
        }
    } else {
        assert(zeros(n) + s =~= s);
    }
}

proof fn lemma_decimal_len(n: nat)
    requires
        n < 10000,
    ensures
        1 <= decimal(n).len() <= 4,
{
    reveal_with_fuel(decimal, 5);
}

/// The time is read back from the clock: hours, minutes and seconds, each in two digits, with
/// colons between them.
pub proof fn the_time_reads_back(local: Civil, zones: Seq<(Seq<char>, Civil)>, lang: Seq<char>)
    requires
        local.sound(),
    ensures
        ({
            let t = clock_text(local, zones, lang).time;
            &&& t.len() == 8
            &&& t[2] == ':' && t[5] == ':'
            &&& all_digits(t.subrange(0, 2)) && digits_value(t.subrange(0, 2)) == local.hour
            &&& all_digits(t.subrange(3, 5)) && digits_value(t.subrange(3, 5)) == local.minute
            &&& all_digits(t.subrange(6, 8)) && digits_value(t.subrange(6, 8)) == local.second
        }),
{
    reveal_strlit(":");
    let t = clock_text(local, zones, lang).time;
    lemma_two(local.hour);
    lemma_two(local.minute);
    lemma_two(local.second);
    assert(t.subrange(0, 2) =~= two(local.hour));
    assert(t.subrange(3, 5) =~= two(local.minute));
    assert(t.subrange(6, 8) =~= two(local.second));
}

/// The date is read back from the clock: the day and the month in two digits, the year in four,
/// with slashes between them.
pub proof fn the_date_reads_back(local: Civil, zones: Seq<(Seq<char>, Civil)>, lang: Seq<char>)
    requires
        local.sound(),
        0 <= local.year <= 9999,
    ensures
        ({
            let d = clock_text(local, zones, lang).date;
            &&& d.len() == 10
            &&& d[2] == '/' && d[5] == '/'
            &&& all_digits(d.subrange(0, 2)) && digits_value(d.subrange(0, 2)) == local.day
            &&& all_digits(d.subrange(3, 5)) && digits_value(d.subrange(3, 5)) == local.month
            &&& all_digits(d.subrange(6, 10)) && digits_value(d.subrange(6, 10)) == local.year
        }),
{
    reveal_strlit("/");
    let d = clock_text(local, zones, lang).date;
    let y = local.year as nat;
    lemma_two(local.day);
    lemma_two(local.month);
    lemma_decimal(y);
    lemma_decimal_len(y);
    lemma_zeros(4 - decimal(y).len(), decimal(y));
    assert(year_text(local.year).len() == 4);
    assert(d.subrange(0, 2) =~= two(local.day));
    assert(d.subrange(3, 5) =~= two(local.month));
    assert(d.subrange(6, 10) =~= year_text(local.year));
}

// ---------------- the extra zones ----------------

/// Each extra zone keeps its label and its place, and shows the hours and minutes of its own
/// clock.
pub proof fn each_zone_shows_its_own_time(
    local: Civil,
    zones: Seq<(Seq<char>, Civil)>,
    lang: Seq<char>,
    i: int,
)
    requires
        0 <= i < zones.len(),
        zones[i].1.sound(),
    ensures
        ({
            let rows = clock_text(local, zones, lang).zones;
            let t = rows[i].1;
            &&& rows.len() == zones.len()
            &&& rows[i].0 == zones[i].0
            &&& t.len() == 5
            &&& t[2] == ':'
            &&& all_digits(t.subrange(0, 2)) && digits_value(t.subrange(0, 2)) == zones[i].1.hour
            &&& all_digits(t.subrange(3, 5)) && digits_value(t.subrange(3, 5)) == zones[i].1.minute
        }),
{
    reveal_strlit(":");
    let t = short_time(zones[i].1);
    lemma_two(zones[i].1.hour);
    lemma_two(zones[i].1.minute);
    assert(t.subrange(0, 2) =~= two(zones[i].1.hour));
    assert(t.subrange(3, 5) =~= two(zones[i].1.minute));
}

/// What the extra zones show is told of each zone for itself, at the one moment that is asked for,
/// and of all of them or of none.
pub proof fn each_zone_is_told_for_itself(
    secs: i64,
    zones: Seq<(String, chrono_tz::Tz)>,
)
    ensures
        match zone_times(secs, zones) {
            Some(v) => v.len() == zones.len() && forall|i: int|
                #![trigger v[i]]
                #![trigger zones[i]]
                0 <= i < zones.len() ==> v[i].0 == zones[i].0@ && civil_time(secs, zones[i].1) == Some(
                    v[i].1,
                ),
            None => exists|i: int|
                0 <= i < zones.len() && civil_time(secs, (#[trigger] zones[i]).1) is None,
        },
    decreases zones.len(),
{
    if zones.len() > 0 {
        let rest = zones.drop_last();
        each_zone_is_told_for_itself(secs, rest);
        match zone_times(secs, rest) {
            Some(w) => {
                if civil_time(secs, zones.last().1) is None {
                    assert(civil_time(secs, zones[zones.len() - 1].1) is None);
                } else {
                    let v = zone_times(secs, zones)->0;
                    assert forall|i: int| 0 <= i < zones.len() implies v[i].0 == zones[i].0@
                        && civil_time(secs, zones[i].1) == Some(v[i].1) by {
                        if i < rest.len() {
                            assert(rest[i] == zones[i]);
                            assert(v[i] == w[i]);
                        }
                    }
                }
            },
            None => {
                let i = choose|i: int|
                    0 <= i < rest.len() && civil_time(secs, (#[trigger] rest[i]).1) is None;
                assert(zones[i] == rest[i]);
            },
        }
    }
}

/// The next tick comes five milliseconds after the next whole second.
pub proof fn the_next_tick_comes_just_after_the_second(nanos: u32)
    ensures
        nanos < 1_000_000_000 ==> nanos + next_tick(nanos) == 1_000_000_000 + 5_000_000,
        nanos >= 1_000_000_000 ==> next_tick(nanos) == 5_000_000,
{
}

} // verus!
