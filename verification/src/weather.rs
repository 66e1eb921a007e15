//! The integer and text side of the watering estimate: locating the
//! current hour in an hourly forecast, the window of hours a metric sums
//! over, and the cap on watering cycles.
use vstd::prelude::*;
use crate::text::{
    append_chars, chars_of, decimal, digit_char, digit_value, is_digit, string_of, to_decimal_padded,
    zero_pad,
};

verus! {

/// The magnitude of an offset in seconds.
pub open spec fn abs_seconds(s: i32) -> nat {
    if s < 0 {
        (-(s as int)) as nat
    } else {
        s as nat
    }
}

/// The suffix that turns a forecast's local time stamp (`YYYY-MM-DDTHH:MM`)
/// into RFC 3339: `:00`, the hours of the UTC offset with sign (truncated
/// toward zero, at least two digits), `:`, and the minutes of the offset
/// (magnitude, two digits) — `format!(":00{:+03}:{:02}", hours, minutes.abs())`.
pub open spec fn utc_offset_suffix(utc_offset_seconds: i32) -> Seq<char> {
    let a: nat = abs_seconds(utc_offset_seconds);
    let h: nat = a / 3600;
    let m: nat = (a % 3600) / 60;
    seq![':', '0', '0'] + seq![if utc_offset_seconds < 0 && h > 0 { '-' } else { '+' }] + zero_pad(
        decimal(h),
        2,
    ) + seq![':'] + zero_pad(decimal(m), 2)
}

/// Renders the RFC 3339 suffix for a UTC offset given in seconds.
pub fn utc_offset_string(utc_offset_seconds: i32) -> (res: String)
    ensures
        res@ == utc_offset_suffix(utc_offset_seconds),
{
    let a: u64 = if utc_offset_seconds < 0 {
        (-(utc_offset_seconds as i64)) as u64
    } else {
        utc_offset_seconds as u64
    };
    let h: u64 = a / 3600;
    let m: u64 = (a % 3600) / 60;
    let mut out: Vec<char> = Vec::new();
    out.push(':');
    out.push('0');
    out.push('0');
    if utc_offset_seconds < 0 && h > 0 {
        out.push('-');
    } else {
        out.push('+');
    }
    let hs = to_decimal_padded(h, 2);
    append_chars(&mut out, &hs);
    out.push(':');
    let ms = to_decimal_padded(m, 2);
    append_chars(&mut out, &ms);
    assert(out@ =~= utc_offset_suffix(utc_offset_seconds));
    string_of(&out)
}

/// A forecast time stamp with the RFC 3339 suffix of the UTC offset.
pub fn adjusted_date_with_offset(date: &str, utc_offset_seconds: i32) -> (res: String)
    ensures
        res@ == date@ + utc_offset_suffix(utc_offset_seconds),
{
    let mut out = chars_of(date);
    let suffix = utc_offset_string(utc_offset_seconds);
    let sc = chars_of(suffix.as_str());
    append_chars(&mut out, &sc);
    string_of(&out)
}

/// What an RFC 3339 text denotes: the instant, as UTC seconds since the
/// epoch and nanoseconds within the second, and the UTC offset in seconds;
/// `None` when it does not parse.
pub uninterp spec fn rfc3339_parse(text: Seq<char>) -> Option<(i64, u32, i32)>;

/// Whether two digits stand at positions `i` and `i + 1`.
pub open spec fn digits_at(t: Seq<char>, i: int) -> bool {
    is_digit(t[i]) && is_digit(t[i + 1])
}

/// The value of the two digits at positions `i` and `i + 1`.
pub open spec fn two_digits_at(t: Seq<char>, i: int) -> int {
    two_digit_value(t[i], t[i + 1])
}

/// A plain local time stamp `YYYY-MM-DDTHH:MM` with month 01–12, day
/// 01–28 (a day every month has), hour 00–23 and minute 00–59.
pub open spec fn is_plain_minute_stamp(t: Seq<char>) -> bool {
    &&& t.len() == 16
    &&& digits_at(t, 0) && digits_at(t, 2) && t[4] == '-'
    &&& digits_at(t, 5) && t[7] == '-' && digits_at(t, 8) && t[10] == 'T'
    &&& digits_at(t, 11) && t[13] == ':' && digits_at(t, 14)
    &&& 1 <= two_digits_at(t, 5) <= 12 && 1 <= two_digits_at(t, 8) <= 28
    &&& two_digits_at(t, 11) <= 23 && two_digits_at(t, 14) <= 59
}

/// The offset written in a plain RFC 3339 text `<minute stamp>:SS<offset>`
/// (seconds 00–59, a numeric offset); `None` for any other text.
pub open spec fn plain_rfc3339_offset(t: Seq<char>) -> Option<int> {
    if t.len() == 25 && is_plain_minute_stamp(t.subrange(0, 16)) && t[16] == ':' && digits_at(
        t,
        17,
    ) && two_digits_at(t, 17) <= 59 {
        rfc3339_numoffset(t.subrange(19, 25))
    } else {
        None
    }
}

/// `chrono::DateTime::parse_from_rfc3339`, reduced to the instant it
/// denotes (`timestamp`, `timestamp_subsec_nanos`) and its offset
/// (`offset().local_minus_utc()`); two texts compare equal as date-times
/// exactly when their instants are equal. A plain text
/// `YYYY-MM-DDTHH:MM:SS±hh:mm` with valid fields (day at most 28) parses,
/// with the written offset.
#[verifier::external_body]
fn parse_rfc3339(text: &str) -> (res: Option<(i64, u32, i32)>)
    ensures
        res == rfc3339_parse(text@),
        plain_rfc3339_offset(text@) is Some ==> res is Some && (res->0).2 == plain_rfc3339_offset(
            text@,
        )->0,
{
    match chrono::DateTime::parse_from_rfc3339(text) {
        Ok(d) => Some((d.timestamp(), d.timestamp_subsec_nanos(), d.offset().local_minus_utc())),
        Err(_) => None,
    }
}

/// The instant of a parse result.
pub open spec fn instant_of(p: Option<(i64, u32, i32)>) -> Option<(i64, u32)> {
    match p {
        Some(v) => Some((v.0, v.1)),
        None => None,
    }
}

/// Parses a forecast time stamp given the forecast's UTC offset. A plain
/// time stamp and a whole-minute offset of less than a day (not a negative
/// offset of less than an hour, whose sign the hour field drops) parse, and
/// the parse reports exactly that offset.
pub fn parse_forecast_time(time: &str, utc_offset_seconds: i32) -> (res: Option<(i64, u32, i32)>)
    ensures
        res == rfc3339_parse(time@ + utc_offset_suffix(utc_offset_seconds)),
        is_plain_minute_stamp(time@) && utc_offset_seconds % 60 == 0 && -86400
            < utc_offset_seconds < 86400 && (utc_offset_seconds >= 0 || utc_offset_seconds
            <= -3600) ==> (res matches Some(p) && p.2 == utc_offset_seconds),
{
    let stamp = adjusted_date_with_offset(time, utc_offset_seconds);
    proof {
        if is_plain_minute_stamp(time@) && utc_offset_seconds % 60 == 0 && -86400
            < utc_offset_seconds < 86400 && (utc_offset_seconds >= 0 || utc_offset_seconds
            <= -3600) {
            law_offset_suffix_denotes_offset(utc_offset_seconds);
            let suffix = utc_offset_suffix(utc_offset_seconds);
            let t = stamp@;
            assert(t.subrange(0, 16) =~= time@);
            assert(t.subrange(19, 25) =~= suffix.subrange(3, 9));
            assert(t[16] == suffix[0]);
            assert(t[17] == suffix[1]);
            assert(t[18] == suffix[2]);
            assert(suffix.subrange(0, 3)[0] == ':');
            assert(suffix.subrange(0, 3)[1] == '0');
            assert(suffix.subrange(0, 3)[2] == '0');
            assert(digit_value('0') == 0);
            assert(plain_rfc3339_offset(t) == Some(utc_offset_seconds as int));
        }
    }
    parse_rfc3339(stamp.as_str())
}

/// Whether `i` is the first position of `now` in `instants`.
pub open spec fn is_first_match(instants: Seq<Option<(i64, u32)>>, now: (i64, u32), i: int) -> bool {
    &&& 0 <= i < instants.len()
    &&& instants[i] == Some(now)
    &&& forall|j: int| 0 <= j < i ==> instants[j] != Some(now)
}

/// Whether `now` does not occur in `instants`.
pub open spec fn no_match(instants: Seq<Option<(i64, u32)>>, now: (i64, u32)) -> bool {
    forall|j: int| 0 <= j < instants.len() ==> instants[j] != Some(now)
}

/// The first position at which the parsed instants equal `now`.
pub fn first_matching_instant(instants: &Vec<Option<(i64, u32)>>, now: (i64, u32)) -> (res: Option<usize>)
    ensures
        res matches Some(i) ==> is_first_match(instants@, now, i as int),
        res is None ==> no_match(instants@, now),
{
    let mut i: usize = 0;
    while i < instants.len()
        invariant
            i <= instants@.len(),
            forall|j: int| 0 <= j < i ==> instants@[j] != Some(now),
        decreases instants.len() - i,
    {
        let matches = match instants[i] {
            Some(t) => t.0 == now.0 && t.1 == now.1,
            None => false,
        };
        if matches {
            return Some(i);
        }
        i = i + 1;
    }
    None
}

/// The instants that the time stamps of an hourly forecast denote, given
/// the forecast's UTC offset.
pub open spec fn forecast_instants(times: Seq<String>, utc_offset_seconds: i32) -> Seq<Option<(i64, u32)>> {
    times.map_values(
        |t: String| instant_of(rfc3339_parse(t@ + utc_offset_suffix(utc_offset_seconds))),
    )
}

/// The position of the hour `now` (UTC seconds and nanoseconds) among the
/// hourly time stamps of a forecast; `None` when the forecast has no
/// hourly data or no time stamp denotes that instant.
pub fn find_current_hourly_index(hourly_times: Option<&Vec<String>>, utc_offset_seconds: i32, now: (i64, u32)) -> (res: Option<usize>)
    ensures
        hourly_times is None ==> res is None,
        hourly_times matches Some(times) ==> {
            &&& res matches Some(i) ==> is_first_match(forecast_instants(times@, utc_offset_seconds), now, i as int)
            &&& res is None ==> no_match(forecast_instants(times@, utc_offset_seconds), now)
        },
{
    let times = match hourly_times {
        Some(t) => t,
        None => return None,
    };
    let mut instants: Vec<Option<(i64, u32)>> = Vec::new();
    let mut i: usize = 0;
    while i < times.len()
        invariant
            i <= times@.len(),
            instants@ =~= forecast_instants(times@, utc_offset_seconds).subrange(0, i as int),
        decreases times.len() - i,
    {
        let parsed = parse_forecast_time(times[i].as_str(), utc_offset_seconds);
        let instant = match parsed {
            Some(p) => Some((p.0, p.1)),
            None => None,
        };
        instants.push(instant);
        i = i + 1;
    }
    assert(instants@ =~= forecast_instants(times@, utc_offset_seconds));
    first_matching_instant(&instants, now)
}

/// The inclusive window of hourly positions that a metric sums over:
/// `range_hours` before `index` (clamped at 0) when negative, else
/// `range_hours` after it.
pub open spec fn metric_window_spec(index: usize, range_hours: isize) -> (int, int) {
    if range_hours < 0 {
        let lo: int = index - (-range_hours);
        (if lo < 0 { 0 } else { lo }, index as int)
    } else {
        (index as int, index + range_hours)
    }
}

/// The inclusive bounds of the hourly window around `index` in a series
/// of `len` readings; `None` when the window reaches past the last reading.
pub fn metric_window(index: usize, range_hours: isize, len: usize) -> (res: Option<(usize, usize)>)
    ensures
        res is Some <==> metric_window_spec(index, range_hours).1 < len,
        res matches Some(w) ==> w.0 as int == metric_window_spec(index, range_hours).0
            && w.1 as int == metric_window_spec(index, range_hours).1,
        range_hours < 0 ==> (res matches Some(w) ==> w.1 == index && w.0 == (if index
            >= -range_hours {
            index + range_hours
        } else {
            0int
        })),
        range_hours >= 0 ==> (res matches Some(w) ==> w.0 == index && w.1 == index + range_hours),
{
    if range_hours < 0 {
        let back: u128 = (-(range_hours as i128)) as u128;
        let lo: usize = if (index as u128) < back {
            0
        } else {
            ((index as u128) - back) as usize
        };
        if index < len {
            Some((lo, index))
        } else {
            None
        }
    } else {
        let hi: u128 = (index as u128) + (range_hours as u128);
        if hi < (len as u128) {
            Some((index, hi as usize))
        } else {
            None
        }
    }
}

/// The most watering cycles one run performs.
pub const MAX_CYCLES: usize = 10;

/// The number of watering cycles: none when the water budget shows a
/// surplus, else the cycles needed to make up the deficit, at most
/// [`MAX_CYCLES`].
pub fn watering_cycles(surplus: bool, needed: usize) -> (res: usize)
    ensures
        res == if surplus {
            0
        } else if needed < MAX_CYCLES {
            needed
        } else {
            MAX_CYCLES
        },
{
    if surplus {
        0
    } else if needed < MAX_CYCLES {
        needed
    } else {
        MAX_CYCLES
    }
}

} // verus!

verus! {

/// The value of two decimal digits.
pub open spec fn two_digit_value(a: char, b: char) -> int {
    digit_value(a) * 10 + digit_value(b)
}

/// The offset in seconds that an RFC 3339 `time-numoffset` denotes:
/// `+` or `-`, two-digit hour (00–23), `:`, two-digit minute (00–59).
pub open spec fn rfc3339_numoffset(t: Seq<char>) -> Option<int> {
    if t.len() == 6 && (t[0] == '+' || t[0] == '-') && is_digit(t[1]) && is_digit(t[2]) && t[3]
        == ':' && is_digit(t[4]) && is_digit(t[5]) && two_digit_value(t[1], t[2]) <= 23
        && two_digit_value(t[4], t[5]) <= 59 {
        let magnitude = two_digit_value(t[1], t[2]) * 3600 + two_digit_value(t[4], t[5]) * 60;
        Some(if t[0] == '-' { -magnitude } else { magnitude })
    } else {
        None
    }
}

proof fn lemma_two_digits(n: nat)
    requires
        n < 100,
    ensures
        zero_pad(decimal(n), 2).len() == 2,
        is_digit(zero_pad(decimal(n), 2)[0]),
        is_digit(zero_pad(decimal(n), 2)[1]),
        two_digit_value(zero_pad(decimal(n), 2)[0], zero_pad(decimal(n), 2)[1]) == n,
{
    let hi = digit_char((n / 10) as int);
    let lo = digit_char((n % 10) as int);
    assert(digit_value(hi) == n / 10);
    assert(digit_value(lo) == n % 10);
    if n < 10 {
        assert(decimal(n) == seq![digit_char(n as int)]);
        assert(zero_pad(decimal(n), 2) =~= seq!['0', lo]);
    } else {
        assert(decimal(n / 10) == seq![hi]);
        assert(zero_pad(decimal(n), 2) =~= seq![hi, lo]);
    }
}

/// The suffix renders the offset it is given: for a whole number of
/// minutes of less than a day that is not a negative offset of less than an
/// hour (whose sign the hour field drops), the suffix is `:00` followed by
/// an RFC 3339 numeric offset denoting exactly `utc_offset_seconds`.
pub proof fn law_offset_suffix_denotes_offset(utc_offset_seconds: i32)
    requires
        utc_offset_seconds % 60 == 0,
        -86400 < utc_offset_seconds < 86400,
        utc_offset_seconds >= 0 || utc_offset_seconds <= -3600,
    ensures
        utc_offset_suffix(utc_offset_seconds).len() == 9,
        utc_offset_suffix(utc_offset_seconds).subrange(0, 3) == seq![':', '0', '0'],
        rfc3339_numoffset(utc_offset_suffix(utc_offset_seconds).subrange(3, 9)) == Some(
            utc_offset_seconds as int,
        ),
{
    let s = utc_offset_seconds;
    let a = abs_seconds(s);
    let h = a / 3600;
    let m = (a % 3600) / 60;
    assert(a % 60 == 0);
    assert(a == h * 3600 + m * 60) by (nonlinear_arith)
        requires
            a % 60 == 0,
            h == a / 3600,
            m == (a % 3600) / 60,
            a >= 0,
    {
        vstd::arithmetic::div_mod::lemma_fundamental_div_mod(a as int, 3600);
        vstd::arithmetic::div_mod::lemma_fundamental_div_mod((a % 3600) as int, 60);
        vstd::arithmetic::div_mod::lemma_mod_mod(a as int, 60, 60);
        vstd::arithmetic::div_mod::lemma_mod_breakdown(a as int, 60, 60);
    }
    assert(h <= 23);
    assert(m <= 59);
    lemma_two_digits(h);
    lemma_two_digits(m);
    let t = utc_offset_suffix(s).subrange(3, 9);
    let hp = zero_pad(decimal(h), 2);
    let mp = zero_pad(decimal(m), 2);
    assert(utc_offset_suffix(s) =~= seq![':', '0', '0'] + seq![
        if s < 0 && h > 0 { '-' } else { '+' },
    ] + hp + seq![':'] + mp);
    assert(t =~= seq![if s < 0 && h > 0 { '-' } else { '+' }, hp[0], hp[1], ':', mp[0], mp[1]]);
    if s < 0 {
        assert(h > 0);
    }
}

} // verus!

verus! {

/// The window of a metric spans `range_hours` hours on one side of
/// `index`: for a negative range it ends at `index` and starts `-range_hours`
/// positions earlier, or at 0 when `index` is closer to the start; for a
/// non-negative range it starts at `index` and ends `range_hours` later.
pub proof fn law_metric_window(index: usize, range_hours: isize)
    ensures
        range_hours < 0 ==> metric_window_spec(index, range_hours).1 == index,
        range_hours < 0 && index >= -range_hours ==> metric_window_spec(index, range_hours).0
            == index + range_hours && metric_window_spec(index, range_hours).1
            - metric_window_spec(index, range_hours).0 == -range_hours,
        range_hours < 0 && index < -range_hours ==> metric_window_spec(index, range_hours).0 == 0,
        range_hours >= 0 ==> metric_window_spec(index, range_hours).0 == index
            && metric_window_spec(index, range_hours).1 - metric_window_spec(index, range_hours).0
            == range_hours,
{
}

/// The window is always inside `0..=` its end and never longer than
/// `|range_hours| + 1` readings.
pub proof fn law_metric_window_bounds(index: usize, range_hours: isize)
    ensures
        0 <= metric_window_spec(index, range_hours).0 <= metric_window_spec(index, range_hours).1,
        metric_window_spec(index, range_hours).1 - metric_window_spec(index, range_hours).0 <= (
        if range_hours < 0 {
            -range_hours
        } else {
            range_hours as int
        }),
{
}

} // verus!
