//! Timed reveal of secrets (entry codes, PINs), computed from the stay's
//! check-in instant and the property's time zone.
//!
//! Instants are Unix timestamps in seconds (UTC). With the `Always` timing
//! secrets are revealed even without a check-in; with any other timing they
//! stay hidden until the check-in is known and the reveal instant is reached.
//! Calendar facts (year, weekday, start of a date) come from `chrono`.

use chrono::{Datelike, Timelike};
use vstd::prelude::*;

use crate::text::{ascii_lower, blank, chars_of, decimal_of, push_decimal, str_eq, trim, trim_str};

verus! {

/// When secrets become visible.
#[derive(Debug, Clone, Copy, PartialEq, Eq, Structural)]
pub enum RevealTiming {
    Always,
    HoursBefore24,
    DayBefore16h,
    AtCheckin,
}

/// Whether secrets are visible now, and from when.
#[derive(Debug, Clone, Copy, PartialEq, Eq, Structural)]
pub struct RevealDecision {
    pub revealed: bool,
    pub available_from: Option<i64>,
}

/// Seconds in a day.
pub const DAY: i64 = 86400;

/// The year of an instant, as `chrono` reads it in UTC (`None` outside the
/// range of `chrono` dates).
pub uninterp spec fn utc_year_of(ts: i64) -> Option<i32>;

/// `DateTime::<Utc>::from_timestamp(ts, 0).map(|d| d.year())`.
#[verifier::external_body]
fn utc_year(ts: i64) -> (r: Option<i32>)
    ensures
        r == utc_year_of(ts),
{
    match chrono::DateTime::<chrono::Utc>::from_timestamp(ts, 0) {
        Some(d) => Some(d.year()),
        None => None,
    }
}

/// The instant a date starts (00:00 UTC), as `chrono` computes it (`None`
/// for an invalid or out-of-range date).
pub uninterp spec fn date_start_of(year: i32, month: u32, day: u32) -> Option<i64>;

/// `NaiveDate::from_ymd_opt(year, month, day)` at 00:00, as a UTC timestamp.
#[verifier::external_body]
fn date_start(year: i32, month: u32, day: u32) -> (r: Option<i64>)
    ensures
        r == date_start_of(year, month, day),
{
    match chrono::NaiveDate::from_ymd_opt(year, month, day) {
        Some(d) => Some(d.and_time(chrono::NaiveTime::MIN).and_utc().timestamp()),
        None => None,
    }
}

/// Days since Sunday (0 for Sunday .. 6 for Saturday) of an instant's UTC
/// date (`None` outside the range of `chrono` dates).
pub uninterp spec fn weekday_of(ts: i64) -> Option<u32>;

/// `DateTime::<Utc>::from_timestamp(ts, 0)` and its weekday's
/// `num_days_from_sunday`, which `chrono` documents as `0..=6`.
#[verifier::external_body]
fn weekday(ts: i64) -> (r: Option<u32>)
    ensures
        r == weekday_of(ts),
        r matches Some(w) ==> w < 7,
{
    match chrono::DateTime::<chrono::Utc>::from_timestamp(ts, 0) {
        Some(d) => Some(d.weekday().num_days_from_sunday()),
        None => None,
    }
}

/// 01:00 UTC on the last Sunday of a month (when every date involved
/// exists).
pub open spec fn last_sunday_0100(year: i32, month: u32) -> Option<i64> {
    match date_start_of(year, (month + 1) as u32, 1) {
        Some(next) => {
            let last = next - DAY;
            if i64::MIN <= last {
                match weekday_of(last as i64) {
                    Some(w) => {
                        let t = last - w * DAY + 3600;
                        if i64::MIN <= t <= i64::MAX {
                            Some(t as i64)
                        } else {
                            None
                        }
                    },
                    None => None,
                }
            } else {
                None
            }
        },
        None => None,
    }
}

fn last_sunday_of_month(year: i32, month: u32) -> (r: Option<i64>)
    requires
        month < 12,
    ensures
        r == last_sunday_0100(year, month),
{
    let next = match date_start(year, month + 1, 1) {
        Some(n) => n,
        None => return None,
    };
    let last = match next.checked_sub(DAY) {
        Some(l) => l,
        None => return None,
    };
    let w = match weekday(last) {
        Some(w) => w,
        None => return None,
    };
    let t: i128 = last as i128 - (w as i128) * 86400 + 3600;
    if t < i64::MIN as i128 || t > i64::MAX as i128 {
        None
    } else {
        Some(t as i64)
    }
}

/// Central European offset (seconds east of UTC) at an instant: summer time
/// (+2 h) from the last Sunday of March 01:00 UTC to the last Sunday of
/// October 01:00 UTC, +1 h otherwise.
pub open spec fn cest_offset(at: i64) -> int {
    match utc_year_of(at) {
        Some(y) => match (last_sunday_0100(y, 3), last_sunday_0100(y, 10)) {
            (Some(start), Some(end)) => if start <= at && at < end {
                7200
            } else {
                3600
            },
            _ => 3600,
        },
        None => 3600,
    }
}

fn europe_cest_offset(at: i64) -> (r: i64)
    ensures
        r == cest_offset(at),
{
    let y = match utc_year(at) {
        Some(y) => y,
        None => return 3600,
    };
    match (last_sunday_of_month(y, 3), last_sunday_of_month(y, 10)) {
        (Some(start), Some(end)) => if start <= at && at < end {
            7200
        } else {
            3600
        },
        _ => 3600,
    }
}

/// The zones that follow Central European time.
pub open spec fn is_cet_zone(name: Seq<char>) -> bool {
    ||| name == "Europe/Paris"@
    ||| name == "Europe/Berlin"@
    ||| name == "Europe/Madrid"@
    ||| name == "Europe/Rome"@
    ||| name == "Europe/Brussels"@
    ||| name == "Europe/Amsterdam"@
    ||| name == "Europe/Vienna"@
    ||| name == "Europe/Zurich"@
    ||| name == "Europe/Luxembourg"@
    ||| name == "Europe/Monaco"@
    ||| name == "Europe/Oslo"@
    ||| name == "Europe/Stockholm"@
    ||| name == "Europe/Copenhagen"@
    ||| name == "Europe/Prague"@
    ||| name == "Europe/Warsaw"@
    ||| name == "Europe/Budapest"@
    ||| name == "Europe/Zagreb"@
    ||| name == "Europe/Ljubljana"@
    ||| name == "Europe/Bratislava"@
    ||| name == "Europe/Belgrade"@
    ||| name == "Europe/Sarajevo"@
    ||| name == "Europe/Skopje"@
    ||| name == "Europe/Podgorica"@
    ||| name == "Europe/Tirane"@
    ||| name == "Europe/Andorra"@
    ||| name == "Europe/Malta"@
    ||| name == "Europe/Vatican"@
    ||| name == "Europe/San_Marino"@
    ||| name == "Arctic/Longyearbyen"@
}

/// One of the zones that follow Central European time.
pub fn is_europe_cest_zone(name: &str) -> (r: bool)
    ensures
        r == is_cet_zone(name@),
{
    str_eq(name, "Europe/Paris") || str_eq(name, "Europe/Berlin") || str_eq(name, "Europe/Madrid")
        || str_eq(name, "Europe/Rome") || str_eq(name, "Europe/Brussels") || str_eq(
        name,
        "Europe/Amsterdam",
    ) || str_eq(name, "Europe/Vienna") || str_eq(name, "Europe/Zurich") || str_eq(
        name,
        "Europe/Luxembourg",
    ) || str_eq(name, "Europe/Monaco") || str_eq(name, "Europe/Oslo") || str_eq(
        name,
        "Europe/Stockholm",
    ) || str_eq(name, "Europe/Copenhagen") || str_eq(name, "Europe/Prague") || str_eq(
        name,
        "Europe/Warsaw",
    ) || str_eq(name, "Europe/Budapest") || str_eq(name, "Europe/Zagreb") || str_eq(
        name,
        "Europe/Ljubljana",
    ) || str_eq(name, "Europe/Bratislava") || str_eq(name, "Europe/Belgrade") || str_eq(
        name,
        "Europe/Sarajevo",
    ) || str_eq(name, "Europe/Skopje") || str_eq(name, "Europe/Podgorica") || str_eq(
        name,
        "Europe/Tirane",
    ) || str_eq(name, "Europe/Andorra") || str_eq(name, "Europe/Malta") || str_eq(
        name,
        "Europe/Vatican",
    ) || str_eq(name, "Europe/San_Marino") || str_eq(name, "Arctic/Longyearbyen")
}

/// The text lowercased in ASCII.
pub open spec fn lowered(s: Seq<char>) -> Seq<char> {
    s.map_values(|c: char| ascii_lower(c))
}

/// A UTC zone name, in any ASCII case.
pub open spec fn is_utc_name(name: Seq<char>) -> bool {
    let l = lowered(name);
    l == "utc"@ || l == "etc/utc"@ || l == "gmt"@
}

/// Offset (seconds east of UTC) of a zone at an instant: Central European
/// zones follow summer time, UTC and every other name are UTC.
pub open spec fn zone_offset(tz: Seq<char>, at: i64) -> int {
    let name = trim(tz);
    if name.len() == 0 || is_utc_name(name) {
        0
    } else if is_cet_zone(name) {
        cest_offset(at)
    } else {
        0
    }
}

fn lowered_exec(s: &str) -> (r: String)
    ensures
        r@ == lowered(s@),
{
    let c = chars_of(s);
    let mut out = String::new();
    let mut i: usize = 0;
    while i < c.len()
        invariant
            c@ == s@,
            i <= c@.len(),
            out@ == lowered(c@.subrange(0, i as int)),
        decreases c.len() - i,
    {
        crate::text::push_char(&mut out, crate::text::to_ascii_lower(c[i]));
        i = i + 1;
        assert(out@ =~= lowered(c@.subrange(0, i as int)));
    }
    assert(c@.subrange(0, i as int) =~= c@);
    out
}

/// Offset (seconds east of UTC) of a zone at an instant.
pub fn offset_for_iana(tz: &str, at: i64) -> (r: i64)
    ensures
        r == zone_offset(tz@, at),
{
    let name = trim_str(tz);
    if name.unicode_len() == 0 {
        return 0;
    }
    let l = lowered_exec(name);
    if str_eq(l.as_str(), "utc") || str_eq(l.as_str(), "etc/utc") || str_eq(l.as_str(), "gmt") {
        return 0;
    }
    if is_europe_cest_zone(name) {
        europe_cest_offset(at)
    } else {
        0
    }
}

/// Floor division by a day.
pub open spec fn day_floor(t: int) -> int {
    if t >= 0 {
        t / 86400
    } else {
        -((-t + 86399) / 86400)
    }
}

/// A zone name longer than the UTC names, with no surrounding whitespace:
/// its offset is Central European time when it is one of those zones, UTC
/// otherwise.
proof fn lemma_listed_zone(name: Seq<char>, at: i64)
    requires
        name.len() > 7,
        !crate::text::is_ws(name[0]),
        !crate::text::is_ws(name.last()),
    ensures
        zone_offset(name, at) == (if is_cet_zone(name) { cest_offset(at) } else { 0 }),
{
    reveal_strlit("utc");
    reveal_strlit("etc/utc");
    reveal_strlit("gmt");
    assert(crate::text::trim_start(name) == name);
    assert(crate::text::trim_end(name) == name);
    assert(lowered(name).len() == name.len());
}

/// Central European zones share one clock: every zone named as following
/// Central European time (Paris, Berlin, Madrid, Rome, ...) has, at every
/// instant, the offset of Europe/Paris, which is one hour (winter) or two
/// hours (summer) east of UTC.
pub proof fn lemma_central_european_zones(at: i64)
    ensures
        zone_offset("Europe/Paris"@, at) == 3600 || zone_offset("Europe/Paris"@, at) == 7200,
        zone_offset("Europe/Berlin"@, at) == zone_offset("Europe/Paris"@, at),
        zone_offset("Europe/Madrid"@, at) == zone_offset("Europe/Paris"@, at),
        zone_offset("Europe/Rome"@, at) == zone_offset("Europe/Paris"@, at),
        zone_offset("Europe/Brussels"@, at) == zone_offset("Europe/Paris"@, at),
        zone_offset("Europe/Amsterdam"@, at) == zone_offset("Europe/Paris"@, at),
        zone_offset("Europe/Vienna"@, at) == zone_offset("Europe/Paris"@, at),
        zone_offset("Europe/Zurich"@, at) == zone_offset("Europe/Paris"@, at),
        zone_offset("Europe/Luxembourg"@, at) == zone_offset("Europe/Paris"@, at),
        zone_offset("Europe/Monaco"@, at) == zone_offset("Europe/Paris"@, at),
        zone_offset("Europe/Oslo"@, at) == zone_offset("Europe/Paris"@, at),
        zone_offset("Europe/Stockholm"@, at) == zone_offset("Europe/Paris"@, at),
        zone_offset("Europe/Copenhagen"@, at) == zone_offset("Europe/Paris"@, at),
        zone_offset("Europe/Prague"@, at) == zone_offset("Europe/Paris"@, at),
        zone_offset("Europe/Warsaw"@, at) == zone_offset("Europe/Paris"@, at),
        zone_offset("Europe/Budapest"@, at) == zone_offset("Europe/Paris"@, at),
        zone_offset("Europe/Zagreb"@, at) == zone_offset("Europe/Paris"@, at),
        zone_offset("Europe/Ljubljana"@, at) == zone_offset("Europe/Paris"@, at),
        zone_offset("Europe/Bratislava"@, at) == zone_offset("Europe/Paris"@, at),
        zone_offset("Europe/Belgrade"@, at) == zone_offset("Europe/Paris"@, at),
        zone_offset("Europe/Sarajevo"@, at) == zone_offset("Europe/Paris"@, at),
        zone_offset("Europe/Skopje"@, at) == zone_offset("Europe/Paris"@, at),
        zone_offset("Europe/Podgorica"@, at) == zone_offset("Europe/Paris"@, at),
        zone_offset("Europe/Tirane"@, at) == zone_offset("Europe/Paris"@, at),
        zone_offset("Europe/Andorra"@, at) == zone_offset("Europe/Paris"@, at),
        zone_offset("Europe/Malta"@, at) == zone_offset("Europe/Paris"@, at),
        zone_offset("Europe/Vatican"@, at) == zone_offset("Europe/Paris"@, at),
        zone_offset("Europe/San_Marino"@, at) == zone_offset("Europe/Paris"@, at),
        zone_offset("Arctic/Longyearbyen"@, at) == zone_offset("Europe/Paris"@, at),
{
    reveal_strlit("Europe/Paris");
    reveal_strlit("Europe/Berlin");
    reveal_strlit("Europe/Madrid");
    reveal_strlit("Europe/Rome");
    reveal_strlit("Europe/Brussels");
    reveal_strlit("Europe/Amsterdam");
    reveal_strlit("Europe/Vienna");
    reveal_strlit("Europe/Zurich");
    reveal_strlit("Europe/Luxembourg");
    reveal_strlit("Europe/Monaco");
    reveal_strlit("Europe/Oslo");
    reveal_strlit("Europe/Stockholm");
    reveal_strlit("Europe/Copenhagen");
    reveal_strlit("Europe/Prague");
    reveal_strlit("Europe/Warsaw");
    reveal_strlit("Europe/Budapest");
    reveal_strlit("Europe/Zagreb");
    reveal_strlit("Europe/Ljubljana");
    reveal_strlit("Europe/Bratislava");
    reveal_strlit("Europe/Belgrade");
    reveal_strlit("Europe/Sarajevo");
    reveal_strlit("Europe/Skopje");
    reveal_strlit("Europe/Podgorica");
    reveal_strlit("Europe/Tirane");
    reveal_strlit("Europe/Andorra");
    reveal_strlit("Europe/Malta");
    reveal_strlit("Europe/Vatican");
    reveal_strlit("Europe/San_Marino");
    reveal_strlit("Arctic/Longyearbyen");
    lemma_listed_zone("Europe/Paris"@, at);
    lemma_listed_zone("Europe/Berlin"@, at);
    lemma_listed_zone("Europe/Madrid"@, at);
    lemma_listed_zone("Europe/Rome"@, at);
    lemma_listed_zone("Europe/Brussels"@, at);
    lemma_listed_zone("Europe/Amsterdam"@, at);
    lemma_listed_zone("Europe/Vienna"@, at);
    lemma_listed_zone("Europe/Zurich"@, at);
    lemma_listed_zone("Europe/Luxembourg"@, at);
    lemma_listed_zone("Europe/Monaco"@, at);
    lemma_listed_zone("Europe/Oslo"@, at);
    lemma_listed_zone("Europe/Stockholm"@, at);
    lemma_listed_zone("Europe/Copenhagen"@, at);
    lemma_listed_zone("Europe/Prague"@, at);
    lemma_listed_zone("Europe/Warsaw"@, at);
    lemma_listed_zone("Europe/Budapest"@, at);
    lemma_listed_zone("Europe/Zagreb"@, at);
    lemma_listed_zone("Europe/Ljubljana"@, at);
    lemma_listed_zone("Europe/Bratislava"@, at);
    lemma_listed_zone("Europe/Belgrade"@, at);
    lemma_listed_zone("Europe/Sarajevo"@, at);
    lemma_listed_zone("Europe/Skopje"@, at);
    lemma_listed_zone("Europe/Podgorica"@, at);
    lemma_listed_zone("Europe/Tirane"@, at);
    lemma_listed_zone("Europe/Andorra"@, at);
    lemma_listed_zone("Europe/Malta"@, at);
    lemma_listed_zone("Europe/Vatican"@, at);
    lemma_listed_zone("Europe/San_Marino"@, at);
    lemma_listed_zone("Arctic/Longyearbyen"@, at);
}

/// Reveal instants depend on the zone only through its offsets: two zones
/// with the same offset at every instant reveal at the same instant.
pub proof fn lemma_same_offsets_same_reveal(timing: RevealTiming, checkin: i64, a: Seq<char>, b: Seq<char>)
    requires
        forall|at: i64| #[trigger] zone_offset(a, at) == zone_offset(b, at),
    ensures
        reveal_instant(timing, checkin, a) == reveal_instant(timing, checkin, b),
{
    assert(zone_offset(a, checkin) == zone_offset(b, checkin));
    let local = checkin + zone_offset(a, checkin);
    let naive = (day_floor(local) - 1) * 86400 + 16 * 3600;
    if i64::MIN <= naive <= i64::MAX {
        assert(zone_offset(a, naive as i64) == zone_offset(b, naive as i64));
    }
}

/// Berlin and Paris reveal the codes at the same instant for every timing
/// and check-in (16:00 local the day before is 16:00 in both).
pub proof fn lemma_berlin_reveals_as_paris(timing: RevealTiming, checkin: i64)
    ensures
        reveal_instant(timing, checkin, "Europe/Berlin"@) == reveal_instant(timing, checkin, "Europe/Paris"@),
{
    assert forall|at: i64| #[trigger] zone_offset("Europe/Berlin"@, at) == zone_offset("Europe/Paris"@, at) by {
        lemma_central_european_zones(at);
    }
    lemma_same_offsets_same_reveal(timing, checkin, "Europe/Berlin"@, "Europe/Paris"@);
}

/// 16:00 local time on the day before the check-in's local date, as a UTC
/// instant: the local date uses the offset at check-in, the result the
/// offset at that local time read as UTC.
pub open spec fn day_before_16h(checkin: i64, tz: Seq<char>) -> Option<i64> {
    let local = checkin + zone_offset(tz, checkin);
    let naive = (day_floor(local) - 1) * 86400 + 16 * 3600;
    if i64::MIN <= naive <= i64::MAX {
        let r = naive - zone_offset(tz, naive as i64);
        if i64::MIN <= r <= i64::MAX {
            Some(r as i64)
        } else {
            None
        }
    } else {
        None
    }
}

/// The reveal instant of a timing for a check-in.
pub open spec fn reveal_instant(timing: RevealTiming, checkin: i64, tz: Seq<char>) -> Option<i64> {
    match timing {
        RevealTiming::Always => None,
        RevealTiming::HoursBefore24 => if checkin - 86400 >= i64::MIN {
            Some((checkin - 86400) as i64)
        } else {
            None
        },
        RevealTiming::AtCheckin => Some(checkin),
        RevealTiming::DayBefore16h => day_before_16h(checkin, tz),
    }
}

proof fn lemma_day_floor_of_day(q: int)
    ensures
        day_floor(q * 86400 + 57600) == q,
        (q * 86400 + 57600) % 86400 == 57600,
{
    let t = q * 86400 + 57600;
    if t >= 0 {
        assert(t / 86400 == q) by (nonlinear_arith)
            requires
                t == q * 86400 + 57600,
                t >= 0,
        ;
    } else {
        assert((-t + 86399) / 86400 == -q) by (nonlinear_arith)
            requires
                t == q * 86400 + 57600,
                t < 0,
        ;
    }
    assert(t % 86400 == 57600) by (nonlinear_arith)
        requires
            t == q * 86400 + 57600,
    ;
}

proof fn lemma_zone_offset_values(tz: Seq<char>, at: i64)
    ensures
        zone_offset(tz, at) == 0 || zone_offset(tz, at) == 3600 || zone_offset(tz, at) == 7200,
{
}

/// The fixed timings: 24 hours before reveals one day before the check-in
/// instant, at check-in reveals at the check-in instant, whatever the zone;
/// `Always` has no instant.
pub proof fn lemma_fixed_reveal_instants(checkin: i64, tz: Seq<char>)
    ensures
        checkin >= i64::MIN + 86400 ==> reveal_instant(RevealTiming::HoursBefore24, checkin, tz) == Some(
            (checkin - 86400) as i64,
        ),
        reveal_instant(RevealTiming::AtCheckin, checkin, tz) == Some(checkin),
        reveal_instant(RevealTiming::Always, checkin, tz) is None,
{
}

/// Day before at 16:00 is local time: where the zone keeps one offset `k`
/// around the check-in (the days before it and the day after), the reveal
/// instant, read in local time, is 16:00 on the day before the check-in's
/// local date. Away from the ends of the `i64` range there is always such
/// an instant.
pub proof fn lemma_day_before_16h_is_local(checkin: i64, tz: Seq<char>, k: int)
    requires
        forall|at: i64| checkin - 3 * 86400 <= at <= checkin + 86400 ==> #[trigger] zone_offset(tz, at) == k,
    ensures
        reveal_instant(RevealTiming::DayBefore16h, checkin, tz) matches Some(r) ==> {
            &&& (r + k) % 86400 == 57600
            &&& day_floor(r + k) == day_floor(checkin + k) - 1
        },
        i64::MIN + 3 * 86400 <= checkin <= i64::MAX - 86400 ==> reveal_instant(
            RevealTiming::DayBefore16h,
            checkin,
            tz,
        ) is Some,
{
    assert(zone_offset(tz, checkin) == k);
    lemma_zone_offset_values(tz, checkin);
    let d = day_floor(checkin + k);
    let naive = (d - 1) * 86400 + 16 * 3600;
    lemma_day_floor_of_day(d);
    // The local day starts within a day before the local check-in.
    assert(d * 86400 <= checkin + k < d * 86400 + 86400) by {
        let t = checkin + k;
        if t >= 0 {
            assert(d == t / 86400);
            assert(d * 86400 <= t < d * 86400 + 86400) by (nonlinear_arith)
                requires
                    d == t / 86400,
                    t >= 0,
            ;
        } else {
            assert(d == -((-t + 86399) / 86400));
            assert(d * 86400 <= t < d * 86400 + 86400) by (nonlinear_arith)
                requires
                    d == -((-t + 86399) / 86400),
                    t < 0,
            ;
        }
    }
    assert(checkin - 3 * 86400 <= naive <= checkin + 86400);
    if i64::MIN <= naive <= i64::MAX {
        assert(zone_offset(tz, naive as i64) == k);
        lemma_day_floor_of_day(d - 1);
    }
}

/// The reveal decision: always revealed with `Always`; otherwise hidden
/// without a check-in, and revealed once `now` reaches the reveal instant.
pub open spec fn reveal_decision(timing: RevealTiming, now: i64, checkin: Option<i64>, tz: Seq<char>) -> RevealDecision {
    if timing == RevealTiming::Always {
        RevealDecision { revealed: true, available_from: None }
    } else {
        match checkin {
            None => RevealDecision { revealed: false, available_from: None },
            Some(c) => match reveal_instant(timing, c, tz) {
                None => RevealDecision { revealed: false, available_from: None },
                Some(at) => RevealDecision { revealed: now >= at, available_from: Some(at) },
            },
        }
    }
}

fn day_floor_exec(t: i64) -> (r: i64)
    ensures
        r == day_floor(t as int),
{
    if t >= 0 {
        t / DAY
    } else {
        let u: i128 = -(t as i128) + 86399;
        -((u / 86400) as i64)
    }
}

/// 16:00 local on the day before the check-in's local date (see
/// [`day_before_16h`]).
pub fn day_before_16h_exec(checkin: i64, tz: &str) -> (r: Option<i64>)
    ensures
        r == day_before_16h(checkin, tz@),
{
    let off = offset_for_iana(tz, checkin);
    let local: i128 = checkin as i128 + off as i128;
    let ghost l = checkin + zone_offset(tz@, checkin);
    assert(-7200 <= zone_offset(tz@, checkin) <= 7200);
    let d: i128 = if local >= 0 {
        local / 86400
    } else {
        -((-local + 86399) / 86400)
    };
    let naive: i128 = (d - 1) * 86400 + 16 * 3600;
    if naive < i64::MIN as i128 || naive > i64::MAX as i128 {
        return None;
    }
    let n64 = naive as i64;
    let off2 = offset_for_iana(tz, n64);
    let r: i128 = naive - off2 as i128;
    if r < i64::MIN as i128 || r > i64::MAX as i128 {
        None
    } else {
        Some(r as i64)
    }
}

/// The reveal instant of a timing for a check-in (see [`reveal_instant`]).
pub fn reveal_at(timing: RevealTiming, checkin: i64, tz: &str) -> (r: Option<i64>)
    ensures
        r == reveal_instant(timing, checkin, tz@),
{
    match timing {
        RevealTiming::Always => None,
        RevealTiming::HoursBefore24 => checkin.checked_sub(DAY),
        RevealTiming::AtCheckin => Some(checkin),
        RevealTiming::DayBefore16h => day_before_16h_exec(checkin, tz),
    }
}

/// The reveal decision (see [`reveal_decision`]).
pub fn evaluate_reveal(timing: RevealTiming, now: i64, checkin: Option<i64>, tz: &str) -> (r: RevealDecision)
    ensures
        r == reveal_decision(timing, now, checkin, tz@),
{
    if timing == RevealTiming::Always {
        return RevealDecision { revealed: true, available_from: None };
    }
    let c = match checkin {
        Some(c) => c,
        None => return RevealDecision { revealed: false, available_from: None },
    };
    match reveal_at(timing, c, tz) {
        None => RevealDecision { revealed: false, available_from: None },
        Some(at) => RevealDecision { revealed: now >= at, available_from: Some(at) },
    }
}

/// The fail-safe of the reveal: `Always` reveals, even without a check-in;
/// any other timing hides the secrets while the check-in is unknown, and a
/// decision with an instant reveals exactly from that instant on.
pub proof fn lemma_reveal_fail_safe(timing: RevealTiming, now: i64, checkin: Option<i64>, tz: Seq<char>)
    ensures
        timing == RevealTiming::Always ==> reveal_decision(timing, now, checkin, tz).revealed,
        timing != RevealTiming::Always && checkin is None ==> !reveal_decision(timing, now, checkin, tz).revealed
            && reveal_decision(timing, now, checkin, tz).available_from is None,
        timing != RevealTiming::Always ==> (reveal_decision(timing, now, checkin, tz).revealed <==> (
        reveal_decision(timing, now, checkin, tz).available_from matches Some(at) && now >= at)),
{
}

/// Once revealed, secrets stay revealed: the decision for a later instant
/// (same timing, check-in and zone) reveals too, from the same instant.
pub proof fn lemma_reveal_stays(timing: RevealTiming, now: i64, later: i64, checkin: Option<i64>, tz: Seq<char>)
    requires
        now <= later,
        reveal_decision(timing, now, checkin, tz).revealed,
    ensures
        reveal_decision(timing, later, checkin, tz).revealed,
        reveal_decision(timing, later, checkin, tz).available_from == reveal_decision(
            timing,
            now,
            checkin,
            tz,
        ).available_from,
{
}

/// Year, month, day, hour and minute of an instant in UTC, as `chrono`
/// reads them (`None` outside the range of `chrono` dates).
pub uninterp spec fn utc_parts_of(ts: i64) -> Option<(i32, u32, u32, u32, u32)>;

/// `DateTime::<Utc>::from_timestamp(ts, 0)` and its calendar fields, which
/// `chrono` documents as month `1..=12`, day `1..=31`, hour `0..=23`, minute
/// `0..=59`.
#[verifier::external_body]
fn utc_parts(ts: i64) -> (r: Option<(i32, u32, u32, u32, u32)>)
    ensures
        r == utc_parts_of(ts),
        r matches Some(p) ==> 1 <= p.1 <= 12 && 1 <= p.2 <= 31 && p.3 < 24 && p.4 < 60,
{
    match chrono::DateTime::<chrono::Utc>::from_timestamp(ts, 0) {
        Some(d) => Some((d.year(), d.month(), d.day(), d.hour(), d.minute())),
        None => None,
    }
}

/// Calendar fields of an instant in the zone's local time.
pub open spec fn local_parts(at: i64, tz: Seq<char>) -> Option<(i32, u32, u32, u32, u32)> {
    let local = at + zone_offset(tz, at);
    if i64::MIN <= local <= i64::MAX {
        utc_parts_of(local as i64)
    } else {
        None
    }
}

/// Calendar fields of an instant in the zone's local time.
pub fn local_parts_exec(at: i64, tz: &str) -> (r: Option<(i32, u32, u32, u32, u32)>)
    ensures
        r == local_parts(at, tz@),
        r matches Some(p) ==> 1 <= p.1 <= 12 && 1 <= p.2 <= 31 && p.3 < 24 && p.4 < 60,
{
    let off = offset_for_iana(tz, at);
    let local: i128 = at as i128 + off as i128;
    if local < i64::MIN as i128 || local > i64::MAX as i128 {
        return None;
    }
    utc_parts(local as i64)
}

/// Two-digit text of a number below 100 (`{:02}`).
pub open spec fn two_digits(n: nat) -> Seq<char> {
    if n < 10 {
        "0"@ + decimal_of(n)
    } else {
        decimal_of(n)
    }
}

/// Decimal text of a year (a `-` before a negative one).
pub open spec fn year_text(y: int) -> Seq<char> {
    if y < 0 {
        "-"@ + decimal_of((-y) as nat)
    } else {
        decimal_of(y as nat)
    }
}

/// `dd/mm/yyyy hh:mm`.
pub open spec fn parts_text(p: (i32, u32, u32, u32, u32)) -> Seq<char> {
    two_digits(p.2 as nat) + "/"@ + two_digits(p.1 as nat) + "/"@ + year_text(p.0 as int) + " "@
        + two_digits(p.3 as nat) + ":"@ + two_digits(p.4 as nat)
}

fn push_two_digits(s: &mut String, n: u32)
    requires
        n < 100,
    ensures
        final(s)@ == old(s)@ + two_digits(n as nat),
{
    if n < 10 {
        s.append("0");
    }
    push_decimal(s, n as usize);
    assert(s@ =~= old(s)@ + two_digits(n as nat));
}

/// The date and time of a reveal instant as `dd/mm/yyyy hh:mm` (fields of
/// `chrono`, each below 100 but the year).
pub fn format_parts(p: (i32, u32, u32, u32, u32)) -> (r: String)
    requires
        p.1 < 100,
        p.2 < 100,
        p.3 < 100,
        p.4 < 100,
    ensures
        r@ == parts_text(p),
{
    let mut s = String::new();
    push_two_digits(&mut s, p.2);
    s.append("/");
    push_two_digits(&mut s, p.1);
    s.append("/");
    if p.0 < 0 {
        s.append("-");
        let a: i64 = 0 - (p.0 as i64);
        push_decimal(&mut s, a as usize);
    } else {
        push_decimal(&mut s, p.0 as usize);
    }
    s.append(" ");
    push_two_digits(&mut s, p.3);
    s.append(":");
    push_two_digits(&mut s, p.4);
    assert(s@ =~= parts_text(p));
    s
}

/// The local date and time of an instant in the zone, `dd/mm/yyyy hh:mm`
/// (`None` outside the range of `chrono` dates).
pub open spec fn available_from_text(at: i64, tz: Seq<char>) -> Option<Seq<char>> {
    match local_parts(at, tz) {
        Some(p) => Some(parts_text(p)),
        None => None,
    }
}

/// The local date and time of a reveal instant (see [`available_from_text`]).
pub fn format_available_from(available_from: i64, property_timezone: &str) -> (r: Option<String>)
    ensures
        r.deep_view() == available_from_text(available_from, property_timezone@),
{
    match local_parts_exec(available_from, property_timezone) {
        Some(p) => Some(format_parts(p)),
        None => None,
    }
}

} // verus!
