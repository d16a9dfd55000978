//! Wall-clock text: the big local time, the date line and the extra time zones.
use vstd::prelude::*;
use vstd::string::*;
use chrono::{Datelike, Timelike};
use crate::text::{decimal, digit, same, texts};

verus! {

/// A day of the week.
#[derive(Clone, Copy, Debug, PartialEq, Eq, Structural)]
pub enum Weekday {
    Mon,
    Tue,
    Wed,
    Thu,
    Fri,
    Sat,
    Sun,
}

/// A moment as the calendar and the clocks of some place show it.
#[derive(Clone, Copy, Debug, PartialEq, Eq, Structural)]
pub struct Civil {
    pub year: i32,
    pub month: u32,
    pub day: u32,
    pub hour: u32,
    pub minute: u32,
    pub second: u32,
    /// Days since Monday.
    pub weekday: u32,
}

impl Civil {
    /// Each part within its range.
    pub open spec fn sound(self) -> bool {
        &&& 1 <= self.month <= 12
        &&& 1 <= self.day <= 31
        &&& self.hour < 24
        &&& self.minute < 60
        &&& self.second < 60
        &&& self.weekday < 7
    }
}

/// What the calendar and the clocks of a zone show so many seconds after the start of 1970 in UTC,
/// where `chrono` can tell.
pub uninterp spec fn civil_time(secs: i64, tz: chrono_tz::Tz) -> Option<Civil>;

/// Calls `DateTime::from_timestamp` and `with_timezone` of `chrono` and reads the parts of the
/// result. They are named by `civil_time`, and each lies within its range.
#[verifier::external_body]
fn civil(secs: i64, tz: chrono_tz::Tz) -> (r: Option<Civil>)
    ensures
        r == civil_time(secs, tz),
        r matches Some(c) ==> c.sound(),
{
    let t = chrono::DateTime::from_timestamp(secs, 0)?.with_timezone(&tz);
    Some(Civil {
        year: t.year(),
        month: t.month(),
        day: t.day(),
        hour: t.hour(),
        minute: t.minute(),
        second: t.second(),
        weekday: t.weekday().num_days_from_monday(),
    })
}

/// The clock's texts.
#[derive(Clone, Debug, PartialEq, Eq)]
pub struct ClockText {
    /// `HH:MM:SS`
    pub time: String,
    /// `dd/mm/yyyy`
    pub date: String,
    /// Localized weekday name, capitalized.
    pub weekday: String,
    /// `(label, HH:MM)` for every configured extra zone, in configuration order.
    pub zones: Vec<(String, String)>,
}

/// The model of the clock's texts.
#[verifier::ext_equal]
pub struct ClockV {
    pub time: Seq<char>,
    pub date: Seq<char>,
    pub weekday: Seq<char>,
    pub zones: Seq<(Seq<char>, Seq<char>)>,
}

/// Labels and times by their characters.
pub open spec fn zone_views(v: Seq<(String, String)>) -> Seq<(Seq<char>, Seq<char>)> {
    v.map_values(|z: (String, String)| (z.0@, z.1@))
}

impl View for ClockText {
    type V = ClockV;

    open spec fn view(&self) -> ClockV {
        ClockV {
            time: self.time@,
            date: self.date@,
            weekday: self.weekday@,
            zones: zone_views(self.zones@),
        }
    }
}

/// Two digits.
pub open spec fn two(n: u32) -> Seq<char> {
    seq![digit((n / 10) as int), digit((n % 10) as int)]
}

/// So many zeros.
pub open spec fn zeros(n: int) -> Seq<char>
    decreases n,
{
    if n <= 0 {
        Seq::empty()
    } else {
        zeros(n - 1).push('0')
    }
}

/// A year, filled up with zeros to four characters, the sign of one before the year zero among
/// them.
pub open spec fn year_text(y: i32) -> Seq<char> {
    if y < 0 {
        seq!['-'] + zeros(3 - decimal((-y) as nat).len()) + decimal((-y) as nat)
    } else {
        zeros(4 - decimal(y as nat).len()) + decimal(y as nat)
    }
}

/// The day of the week that comes so many days after Monday.
pub open spec fn day_at(n: u32) -> Weekday {
    if n == 0 {
        Weekday::Mon
    } else if n == 1 {
        Weekday::Tue
    } else if n == 2 {
        Weekday::Wed
    } else if n == 3 {
        Weekday::Thu
    } else if n == 4 {
        Weekday::Fri
    } else if n == 5 {
        Weekday::Sat
    } else {
        Weekday::Sun
    }
}

/// The name of a day: French for `"fr"`, English for anything else.
pub open spec fn day_text(day: Weekday, lang: Seq<char>) -> Seq<char> {
    if lang == "fr"@ {
        match day {
            Weekday::Mon => "Lundi"@,
            Weekday::Tue => "Mardi"@,
            Weekday::Wed => "Mercredi"@,
            Weekday::Thu => "Jeudi"@,
            Weekday::Fri => "Vendredi"@,
            Weekday::Sat => "Samedi"@,
            Weekday::Sun => "Dimanche"@,
        }
    } else {
        match day {
            Weekday::Mon => "Monday"@,
            Weekday::Tue => "Tuesday"@,
            Weekday::Wed => "Wednesday"@,
            Weekday::Thu => "Thursday"@,
            Weekday::Fri => "Friday"@,
            Weekday::Sat => "Saturday"@,
            Weekday::Sun => "Sunday"@,
        }
    }
}

/// The name of a day.
pub fn weekday_name(day: Weekday, lang: &str) -> (r: &'static str)
    ensures
        r@ == day_text(day, lang@),
{
    if same(lang, "fr") {
        match day {
            Weekday::Mon => "Lundi",
            Weekday::Tue => "Mardi",
            Weekday::Wed => "Mercredi",
            Weekday::Thu => "Jeudi",
            Weekday::Fri => "Vendredi",
            Weekday::Sat => "Samedi",
            Weekday::Sun => "Dimanche",
        }
    } else {
        match day {
            Weekday::Mon => "Monday",
            Weekday::Tue => "Tuesday",
            Weekday::Wed => "Wednesday",
            Weekday::Thu => "Thursday",
            Weekday::Fri => "Friday",
            Weekday::Sat => "Saturday",
            Weekday::Sun => "Sunday",
        }
    }
}

/// `HH:MM`
pub open spec fn short_time(c: Civil) -> Seq<char> {
    two(c.hour) + ":"@ + two(c.minute)
}

/// The clock's texts from what the places show.
pub open spec fn clock_text(
    local: Civil,
    zones: Seq<(Seq<char>, Civil)>,
    lang: Seq<char>,
) -> ClockV {
    ClockV {
        time: two(local.hour) + ":"@ + two(local.minute) + ":"@ + two(local.second),
        date: two(local.day) + "/"@ + two(local.month) + "/"@ + year_text(local.year),
        weekday: day_text(day_at(local.weekday), lang),
        zones: zones.map_values(|z: (Seq<char>, Civil)| (z.0, short_time(z.1))),
    }
}

fn push_two(out: &mut String, n: u32)
    requires
        n < 100,
    ensures
        final(out)@ == old(out)@ + two(n),
{
    let tens: u8 = (n / 10) as u8;
    let ones: u8 = (n % 10) as u8;
    out.push((48 + tens) as char);
    out.push((48 + ones) as char);
    assert(out@ =~= old(out)@ + two(n));
}

fn push_zeros(out: &mut String, n: usize)
    ensures
        final(out)@ == old(out)@ + zeros(n as int),
{
    let ghost start = out@;
    let mut i: usize = 0;
    assert(out@ =~= start + zeros(0));
    while i < n
        invariant
            i <= n,
            out@ == start + zeros(i as int),
        decreases n - i,
    {
        out.push('0');
        assert(out@ =~= start + zeros(i + 1));
        i = i + 1;
    }
}

fn push_year(out: &mut String, y: i32)
    ensures
        final(out)@ == old(out)@ + year_text(y),
{
    let magnitude: u64 = if y < 0 {
        (-(y as i64)) as u64
    } else {
        y as u64
    };
    let digits = crate::text::decimal_text(magnitude);
    let len = digits.as_str().unicode_len();
    let width: usize = if y < 0 {
        out.push('-');
        3
    } else {
        4
    };
    if len < width {
        push_zeros(out, width - len);
    }
    out.append(digits.as_str());
    assert(zeros(width - len) =~= zeros(if len < width { width - len } else { 0 }));
    assert(out@ =~= old(out)@ + year_text(y));
}

fn day_from(n: u32) -> (r: Weekday)
    ensures
        r == day_at(n),
{
    if n == 0 {
        Weekday::Mon
    } else if n == 1 {
        Weekday::Tue
    } else if n == 2 {
        Weekday::Wed
    } else if n == 3 {
        Weekday::Thu
    } else if n == 4 {
        Weekday::Fri
    } else if n == 5 {
        Weekday::Sat
    } else {
        Weekday::Sun
    }
}

/// `HH:MM`
pub fn short_text(c: Civil) -> (r: String)
    requires
        c.sound(),
    ensures
        r@ == short_time(c),
{
    let mut t = String::new();
    push_two(&mut t, c.hour);
    t.append(":");
    push_two(&mut t, c.minute);
    assert(t@ =~= short_time(c));
    t
}

/// Labels with what the places show.
pub open spec fn civil_views(v: Seq<(String, Civil)>) -> Seq<(Seq<char>, Civil)> {
    v.map_values(|z: (String, Civil)| (z.0@, z.1))
}

/// The clock's texts from what the places show.
pub fn render_civil(local: Civil, zones: &Vec<(String, Civil)>, lang: &str) -> (r: ClockText)
    requires
        local.sound(),
        forall|i: int| 0 <= i < zones@.len() ==> (#[trigger] zones@[i]).1.sound(),
    ensures
        r@ == clock_text(local, civil_views(zones@), lang@),
{
    let mut time = String::new();
    push_two(&mut time, local.hour);
    time.append(":");
    push_two(&mut time, local.minute);
    time.append(":");
    push_two(&mut time, local.second);
    let mut date = String::new();
    push_two(&mut date, local.day);
    date.append("/");
    push_two(&mut date, local.month);
    date.append("/");
    push_year(&mut date, local.year);
    let weekday = weekday_name(day_from(local.weekday), lang).to_string();
    let mut out: Vec<(String, String)> = Vec::new();
    let mut i: usize = 0;
    while i < zones.len()
        invariant
            i <= zones@.len(),
            out@.len() == i,
            forall|k: int| 0 <= k < zones@.len() ==> (#[trigger] zones@[k]).1.sound(),
            forall|k: int|
                0 <= k < i ==> (#[trigger] out@[k]).0@ == zones@[k].0@ && out@[k].1@ == short_time(
                    zones@[k].1,
                ),
        decreases zones@.len() - i,
    {
        let t = short_text(zones[i].1);
        out.push((zones[i].0.clone(), t));
        i = i + 1;
    }
    let r = ClockText { time, date, weekday, zones: out };
    proof {
        let want = clock_text(local, civil_views(zones@), lang@);
        assert(r@.time =~= want.time);
        assert(r@.date =~= want.date);
        assert(r@.zones =~= want.zones);
    }
    r
}

/// What each zone shows, where `chrono` can tell for all of them.
pub open spec fn zone_times(secs: i64, zones: Seq<(String, chrono_tz::Tz)>) -> Option<
    Seq<(Seq<char>, Civil)>,
>
    decreases zones.len(),
{
    if zones.len() == 0 {
        Some(Seq::empty())
    } else {
        match (zone_times(secs, zones.drop_last()), civil_time(secs, zones.last().1)) {
            (Some(v), Some(c)) => Some(v.push((zones.last().0@, c))),
            _ => None,
        }
    }
}

/// What each zone shows, `None` where `chrono` cannot tell for one of them.
pub fn zone_clocks(secs: i64, zones: &Vec<(String, chrono_tz::Tz)>) -> (r: Option<
    Vec<(String, Civil)>,
>)
    ensures
        match r {
            Some(v) => zone_times(secs, zones@) == Some(civil_views(v@)) && forall|k: int|
                0 <= k < v@.len() ==> (#[trigger] v@[k]).1.sound(),
            None => zone_times(secs, zones@) is None,
        },
{
    let mut v: Vec<(String, Civil)> = Vec::new();
    let mut i: usize = 0;
    assert(civil_views(v@) =~= Seq::empty());
    while i < zones.len()
        invariant
            i <= zones@.len(),
            v@.len() == i,
            forall|k: int| 0 <= k < v@.len() ==> (#[trigger] v@[k]).1.sound(),
            zone_times(secs, zones@.take(i as int)) == Some(civil_views(v@)),
        decreases zones@.len() - i,
    {
        let ghost t = zones@.take(i + 1);
        assert(t.drop_last() =~= zones@.take(i as int));
        assert(t.last() == zones@[i as int]);
        match civil(secs, zones[i].1) {
            Some(c) => {
                let ghost before = v@;
                v.push((zones[i].0.clone(), c));
                assert(civil_views(v@) =~= civil_views(before).push((zones@[i as int].0@, c)));
            },
            None => {
                proof {
                    lemma_zone_times(secs, zones@, i + 1);
                }
                return None;
            },
        }
        i = i + 1;
    }
    assert(zones@.take(i as int) =~= zones@);
    Some(v)
}

/// The clock's texts so many seconds after the start of 1970 in UTC. `None` for a moment that
/// `chrono` cannot tell.
pub fn render(secs: i64, tz: chrono_tz::Tz, zones: &Vec<(String, chrono_tz::Tz)>, lang: &str) -> (r:
    Option<ClockText>)
    ensures
        match (civil_time(secs, tz), zone_times(secs, zones@)) {
            (Some(local), Some(z)) => r matches Some(t) && t@ == clock_text(local, z, lang@),
            _ => r is None,
        },
{
    match (civil(secs, tz), zone_clocks(secs, zones)) {
        (Some(local), Some(v)) => Some(render_civil(local, &v, lang)),
        _ => None,
    }
}

/// A zone that cannot be told leaves the whole untold.
proof fn lemma_zone_times(secs: i64, zones: Seq<(String, chrono_tz::Tz)>, n: int)
    requires
        0 <= n <= zones.len(),
        zone_times(secs, zones.take(n)) is None,
    ensures
        zone_times(secs, zones) is None,
    decreases zones.len() - n,
{
    if n < zones.len() {
        assert(zones.take(n + 1).drop_last() =~= zones.take(n));
        lemma_zone_times(secs, zones, n + 1);
    } else {
        assert(zones.take(n) =~= zones);
    }
}

/// The time until just after the next whole second.
pub open spec fn next_tick(subsec_nanos: u32) -> u64 {
    if subsec_nanos < 1_000_000_000 {
        (1_000_000_000 - subsec_nanos + 5_000_000) as u64
    } else {
        5_000_000
    }
}

/// Time until the next whole second, given the nanoseconds since the last one, plus a small guard
/// so that the tick lands just after it.
pub fn until_next_second(subsec_nanos: u32) -> (r: u64)
    ensures
        r == if subsec_nanos < 1_000_000_000 {
            1_000_000_000 - subsec_nanos + 5_000_000
        } else {
            5_000_000
        },
        r == next_tick(subsec_nanos),
{
    if subsec_nanos < 1_000_000_000 {
        1_000_000_000 - (subsec_nanos as u64) + 5_000_000
    } else {
        5_000_000
    }
}

} // verus!
