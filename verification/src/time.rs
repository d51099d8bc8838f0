//! Time service: the current instant, elapsed minutes between instants,
//! and timezone resolution.
//!
//! An instant is modelled as whole seconds since the Unix epoch (`i64`),
//! which is what the rest of the library computes with; the timezone
//! database itself stays inside `chrono_tz` behind trusted declarations.

use vstd::prelude::*;
use crate::error::{self, Error};
use chrono::TimeZone;
use vstd::string::{StrSliceExecFns, StringExecFns};

verus! {

/// The timezone type of `chrono_tz`, opaque to the verifier; values of it
/// are produced and consumed only through the trusted items below.
#[verifier::external_type_specification]
#[verifier::external_body]
pub struct ExTz(chrono_tz::Tz);

/// Relies on chrono's `Utc::now` and `DateTime::timestamp`: the current
/// UTC instant as whole seconds since the Unix epoch. Nothing is assumed
/// of the clock's value; callers treat it as an arbitrary instant.
#[verifier::external_body]
pub fn now() -> i64 {
    chrono::Utc::now().timestamp()
}

/// Whole minutes by which `now` lies after `past`, truncated toward zero;
/// negative when `past` lies in the future.
pub open spec fn age_minutes(past: int, now: int) -> int {
    if now >= past {
        (now - past) / 60
    } else {
        -((past - now) / 60)
    }
}

/// How far in the past an instant is, in whole minutes.
/// Positive in the past, negative in the future.
pub fn age_in_minutes(past: i64, now: i64) -> (r: i64)
    requires
        -0x7fff_ffff_ffff_ffff <= now as int - past as int <= 0x7fff_ffff_ffff_ffff,
    ensures
        r == age_minutes(past as int, now as int),
{
    if now >= past {
        let diff: u64 = (now - past) as u64;
        (diff / 60) as i64
    } else {
        let diff: u64 = (past - now) as u64;
        -((diff / 60) as i64)
    }
}

/// The zone a timezone name resolves to in the compiled timezone table.
pub uninterp spec fn tz_of(name: Seq<char>) -> Option<chrono_tz::Tz>;

/// Relies on chrono_tz's `FromStr` for `Tz`: a lookup of the zone name in
/// the timezone table compiled into the crate, a function of the name
/// alone.
#[verifier::external_body]
fn parse_tz(name: &str) -> (r: Option<chrono_tz::Tz>)
    ensures
        r == tz_of(name@),
{
    name.parse::<chrono_tz::Tz>().ok()
}

/// Relies on std's `String::push`, which vstd leaves unspecified: appends
/// one character.
#[verifier::external_body]
pub(crate) fn push_char(s: &mut String, c: char)
    ensures
        final(s)@ == old(s)@.push(c),
{
    s.push(c);
}

/// Whitespace, as the offset-string parser understands it.
pub open spec fn is_space(c: char) -> bool {
    c == ' ' || c == '\t' || c == '\n' || c == '\r'
}

/// A decimal digit.
pub open spec fn is_digit(c: char) -> bool {
    48 <= c as int <= 57
}

/// The value of a decimal digit character.
pub open spec fn digit_val(c: char) -> int {
    c as int - 48
}

/// The character of a decimal digit value.
pub open spec fn digit_char(d: int) -> char {
    if d == 0 {
        '0'
    } else if d == 1 {
        '1'
    } else if d == 2 {
        '2'
    } else if d == 3 {
        '3'
    } else if d == 4 {
        '4'
    } else if d == 5 {
        '5'
    } else if d == 6 {
        '6'
    } else if d == 7 {
        '7'
    } else if d == 8 {
        '8'
    } else {
        '9'
    }
}

/// The string without its leading whitespace.
pub open spec fn skip_spaces(s: Seq<char>) -> Seq<char>
    decreases s.len(),
{
    if s.len() > 0 && is_space(s[0]) {
        skip_spaces(s.drop_first())
    } else {
        s
    }
}

/// The maximal non-whitespace prefix of the string.
pub open spec fn take_token(s: Seq<char>) -> Seq<char>
    decreases s.len(),
{
    if s.len() > 0 && !is_space(s[0]) {
        seq![s[0]] + take_token(s.drop_first())
    } else {
        Seq::empty()
    }
}

/// The string without its maximal non-whitespace prefix.
pub open spec fn skip_token(s: Seq<char>) -> Seq<char>
    decreases s.len(),
{
    if s.len() > 0 && !is_space(s[0]) {
        skip_token(s.drop_first())
    } else {
        s
    }
}

/// The second whitespace-separated token of the string, if there is one.
pub open spec fn second_token(s: Seq<char>) -> Option<Seq<char>> {
    let rest = skip_spaces(skip_token(skip_spaces(s)));
    let tok = take_token(rest);
    if tok.len() == 0 {
        None
    } else {
        Some(tok)
    }
}

/// The token without a trailing ":00", if it carries one.
pub open spec fn strip_colon_zero(t: Seq<char>) -> Seq<char> {
    if t.len() >= 3 && t[t.len() - 3] == ':' && t[t.len() - 2] == '0' && t[t.len() - 1] == '0' {
        t.take(t.len() - 3)
    } else {
        t
    }
}

/// Every character is a decimal digit.
pub open spec fn all_digits(t: Seq<char>) -> bool {
    forall|i: int| 0 <= i < t.len() ==> is_digit(#[trigger] t[i])
}

/// The value of a string of decimal digits.
pub open spec fn digits_value(t: Seq<char>) -> int
    decreases t.len(),
{
    if t.len() == 0 {
        0
    } else {
        digits_value(t.drop_last()) * 10 + digit_val(t.last())
    }
}

/// The hour offset named by a "±H[:00]"-style token; `None` unless the
/// token is an optional sign followed by digits worth at most 99, with an
/// optional ":00" suffix.
pub open spec fn gmt_offset_num(t0: Seq<char>) -> Option<int> {
    let t = strip_colon_zero(t0);
    let neg = t.len() > 0 && t[0] == '-';
    let digs = if t.len() > 0 && (t[0] == '-' || t[0] == '+') {
        t.drop_first()
    } else {
        t
    };
    if digs.len() == 0 || !all_digits(digs) || digits_value(digs) > 99 {
        None
    } else if neg {
        Some(-digits_value(digs))
    } else {
        Some(digits_value(digs))
    }
}

/// The fixed-offset zone name for an hour offset: the "Etc/GMT" zones
/// carry the opposite sign convention.
pub open spec fn gmt_zone_name(n: int) -> Seq<char> {
    let mag = if n < 0 {
        -n
    } else {
        n
    };
    let sign = if n < 0 {
        seq!['+']
    } else {
        seq!['-']
    };
    let digits = if mag < 10 {
        seq![digit_char(mag)]
    } else {
        seq![digit_char(mag / 10), digit_char(mag % 10)]
    };
    "Etc/GMT"@ + sign + digits
}

/// The zone an offset string such as "GMT -7:00" falls back to: the
/// fixed-offset zone of the hour offset in its second token.
pub open spec fn gmt_fallback_tz(s: Seq<char>) -> Option<chrono_tz::Tz> {
    match second_token(s) {
        None => None,
        Some(t) => match gmt_offset_num(t) {
            None => None,
            Some(n) => tz_of(gmt_zone_name(n)),
        },
    }
}

/// What a timezone string resolves to: its own name in the timezone
/// table, or else the fixed-offset zone of a "GMT ±H[:00]"-style string.
pub open spec fn resolve_timezone_spec(s: Seq<char>) -> Option<chrono_tz::Tz> {
    match tz_of(s) {
        Some(t) => Some(t),
        None => gmt_fallback_tz(s),
    }
}

/// Whitespace, decided on one character.
fn is_space_exec(c: char) -> (r: bool)
    ensures
        r == is_space(c),
{
    c == ' ' || c == '\t' || c == '\n' || c == '\r'
}

/// The index where the leading whitespace run starting at `from` ends.
fn skip_spaces_idx(s: &str, from: usize) -> (r: usize)
    requires
        from <= s@.len(),
    ensures
        from <= r <= s@.len(),
        skip_spaces(s@.skip(from as int)) == s@.skip(r as int),
{
    let len = s.unicode_len();
    let mut i: usize = from;
    while i < len && is_space_exec(s.get_char(i))
        invariant
            from <= i <= len,
            len == s@.len(),
            skip_spaces(s@.skip(from as int)) == skip_spaces(s@.skip(i as int)),
        decreases len - i,
    {
        proof {
            assert(s@.skip(i as int).drop_first() =~= s@.skip(i as int + 1));
        }
        i += 1;
    }
    i
}

/// The index where the non-whitespace run starting at `from` ends.
fn skip_token_idx(s: &str, from: usize) -> (r: usize)
    requires
        from <= s@.len(),
    ensures
        from <= r <= s@.len(),
        skip_token(s@.skip(from as int)) == s@.skip(r as int),
{
    let len = s.unicode_len();
    let mut i: usize = from;
    while i < len && !is_space_exec(s.get_char(i))
        invariant
            from <= i <= len,
            len == s@.len(),
            skip_token(s@.skip(from as int)) == skip_token(s@.skip(i as int)),
        decreases len - i,
    {
        proof {
            assert(s@.skip(i as int).drop_first() =~= s@.skip(i as int + 1));
        }
        i += 1;
    }
    i
}

/// The non-whitespace token starting at `from`.
fn take_token_exec(s: &str, from: usize) -> (r: String)
    requires
        from <= s@.len(),
    ensures
        r@ == take_token(s@.skip(from as int)),
{
    let len = s.unicode_len();
    let mut out = String::new();
    let mut i: usize = from;
    while i < len && !is_space_exec(s.get_char(i))
        invariant
            from <= i <= len,
            len == s@.len(),
            out@ + take_token(s@.skip(i as int)) == take_token(s@.skip(from as int)),
        decreases len - i,
    {
        let c = s.get_char(i);
        proof {
            assert(s@.skip(i as int).drop_first() =~= s@.skip(i as int + 1));
            assert(out@ + (seq![c] + take_token(s@.skip(i as int + 1))) =~= out@.push(c)
                + take_token(s@.skip(i as int + 1)));
        }
        push_char(&mut out, c);
        i += 1;
    }
    proof {
        assert(out@ + take_token(s@.skip(i as int)) =~= out@);
    }
    out
}

/// The second whitespace-separated token of the string.
fn second_token_exec(s: &str) -> (r: Option<String>)
    ensures
        match r {
            Some(t) => second_token(s@) == Some(t@),
            None => second_token(s@) is None,
        },
{
    proof {
        assert(s@.skip(0) =~= s@);
    }
    let i0 = skip_spaces_idx(s, 0);
    let i1 = skip_token_idx(s, i0);
    let i2 = skip_spaces_idx(s, i1);
    let tok = take_token_exec(s, i2);
    if tok.unicode_len() == 0 {
        None
    } else {
        Some(tok)
    }
}

/// Digit values grow with the digits: a prefix is worth no more than the
/// whole.
proof fn lemma_digits_prefix_le(t: Seq<char>, k: int)
    requires
        all_digits(t),
        0 <= k <= t.len(),
    ensures
        0 <= digits_value(t.take(k)) <= digits_value(t),
    decreases t.len(),
{
    if t.len() == 0 {
        assert(t.take(k) =~= t);
    } else if k == t.len() {
        assert(t.take(k) =~= t);
        lemma_digits_prefix_le(t.drop_last(), t.len() - 1);
        assert(t.drop_last().take(t.len() - 1) =~= t.drop_last());
    } else {
        lemma_digits_prefix_le(t.drop_last(), k);
        assert(t.drop_last().take(k) =~= t.take(k));
    }
}

/// The hour offset named by a "±H[:00]"-style token.
fn parse_gmt_offset(t: &str) -> (r: Option<i32>)
    ensures
        match r {
            Some(n) => gmt_offset_num(t@) == Some(n as int) && -99 <= n <= 99,
            None => gmt_offset_num(t@) is None,
        },
{
    let len = t.unicode_len();
    let end: usize = if len >= 3 && t.get_char(len - 3) == ':' && t.get_char(len - 2) == '0'
        && t.get_char(len - 1) == '0' {
        len - 3
    } else {
        len
    };
    let ghost stripped: Seq<char> = strip_colon_zero(t@);
    proof {
        assert(stripped =~= t@.take(end as int));
    }
    let neg = end > 0 && t.get_char(0) == '-';
    let start: usize = if end > 0 && (t.get_char(0) == '-' || t.get_char(0) == '+') {
        1
    } else {
        0
    };
    let ghost digs: Seq<char> = t@.subrange(start as int, end as int);
    proof {
        if t@.take(end as int).len() > 0 && (t@.take(end as int)[0] == '-' || t@.take(end as int)[0]
            == '+') {
            assert(stripped.drop_first() =~= digs);
        } else {
            assert(stripped =~= digs);
        }
    }
    if start >= end {
        proof {
            assert(digs.len() == 0);
        }
        return None;
    }
    proof {
        assert((digs.len() == 0 || !all_digits(digs) || digits_value(digs) > 99) ==> gmt_offset_num(
            t@,
        ) is None);
        assert((digs.len() > 0 && all_digits(digs) && digits_value(digs) <= 99) ==> gmt_offset_num(
            t@,
        ) == Some(
            if neg {
                -digits_value(digs)
            } else {
                digits_value(digs)
            },
        ));
    }
    let mut acc: u32 = 0;
    let mut i: usize = start;
    while i < end
        invariant
            start <= i <= end,
            end <= t@.len(),
            start < end,
            digs == t@.subrange(start as int, end as int),
            (digs.len() == 0 || !all_digits(digs) || digits_value(digs) > 99) ==> gmt_offset_num(
                t@,
            ) is None,
            (digs.len() > 0 && all_digits(digs) && digits_value(digs) <= 99) ==> gmt_offset_num(t@)
                == Some(
                if neg {
                    -digits_value(digs)
                } else {
                    digits_value(digs)
                },
            ),
            forall|j: int| 0 <= j < i - start ==> is_digit(#[trigger] digs[j]),
            acc == digits_value(digs.take(i - start as int)),
            acc <= 99,
        decreases end - i,
    {
        let c = t.get_char(i);
        let v = c as u32;
        proof {
            assert(digs[i - start as int] == t@[i as int]);
        }
        if v < 48 || v > 57 {
            proof {
                assert(!is_digit(digs[i - start as int]));
                assert(!all_digits(digs));
            }
            return None;
        }
        let d = v - 48;
        let next = acc * 10 + d;
        proof {
            assert(digs.take(i + 1 - start as int).drop_last() =~= digs.take(i - start as int));
            assert(digs.take(i + 1 - start as int).last() == digs[i - start as int]);
            assert(digits_value(digs.take(i + 1 - start as int)) == acc * 10 + digit_val(
                digs[i - start as int],
            ));
            assert(digit_val(digs[i - start as int]) == d);
        }
        if next > 99 {
            proof {
                assert(all_digits(digs.take(i + 1 - start as int))) by {
                    assert(forall|j: int|
                        0 <= j < i + 1 - start ==> is_digit(
                            #[trigger] digs.take(i + 1 - start as int)[j],
                        ));
                }
                lemma_digits_prefix_le_if_all(digs, i + 1 - start as int);
                assert(gmt_offset_num(t@) is None);
            }
            return None;
        }
        acc = next;
        i += 1;
    }
    proof {
        assert(digs.take(i - start as int) =~= digs);
        assert(all_digits(digs));
    }
    if neg {
        Some(-(acc as i32))
    } else {
        Some(acc as i32)
    }
}

/// If the whole string is digits, a prefix is worth no more than the
/// whole; stated so the early-exit in the parser can use it knowing only
/// that the prefix so far is digits.
proof fn lemma_digits_prefix_le_if_all(t: Seq<char>, k: int)
    requires
        0 <= k <= t.len(),
        all_digits(t.take(k)),
    ensures
        all_digits(t) ==> digits_value(t.take(k)) <= digits_value(t),
{
    if all_digits(t) {
        lemma_digits_prefix_le(t, k);
    }
}

/// The character of one digit value.
fn digit_char_exec(d: u32) -> (r: char)
    requires
        d <= 9,
    ensures
        r == digit_char(d as int),
{
    match d {
        0u32 => '0',
        1u32 => '1',
        2u32 => '2',
        3u32 => '3',
        4u32 => '4',
        5u32 => '5',
        6u32 => '6',
        7u32 => '7',
        8u32 => '8',
        _ => '9',
    }
}

/// The fixed-offset zone name for an hour offset.
fn gmt_zone_name_exec(n: i32) -> (r: String)
    requires
        -99 <= n <= 99,
    ensures
        r@ == gmt_zone_name(n as int),
{
    let mut name = "Etc/GMT".to_owned();
    let mag: u32 = if n < 0 {
        push_char(&mut name, '+');
        (-n) as u32
    } else {
        push_char(&mut name, '-');
        n as u32
    };
    let ghost with_sign: Seq<char> = name@;
    if mag < 10 {
        push_char(&mut name, digit_char_exec(mag));
        proof {
            assert(name@ =~= gmt_zone_name(n as int));
        }
    } else {
        push_char(&mut name, digit_char_exec(mag / 10));
        push_char(&mut name, digit_char_exec(mag % 10));
        proof {
            assert(name@ =~= gmt_zone_name(n as int));
        }
    }
    name
}

/// The fixed-offset zone for an offset string such as "GMT -7:00";
/// rejected with a `ParseError`-style failure when the string has no
/// second token, the token is not an hour offset, or no such zone exists.
fn parse_gmt_to_timezone(gmt: &str) -> (r: Result<chrono_tz::Tz, Error>)
    ensures
        match r {
            Ok(t) => gmt_fallback_tz(gmt@) == Some(t),
            Err(e) => {
                &&& gmt_fallback_tz(gmt@) is None
                &&& e.code == error::INTERNAL_SERVER_ERROR
                &&& e.source@ == "parse_timezone"@
            },
        },
{
    match second_token_exec(gmt) {
        None => Err(error::new("parse_timezone", "Could not get offset")),
        Some(tok) => match parse_gmt_offset(tok.as_str()) {
            None => Err(error::new("parse_timezone", "Offset is not a whole hour")),
            Some(n) => match parse_tz(gmt_zone_name_exec(n).as_str()) {
                Some(tz) => Ok(tz),
                None => Err(error::new("parse_timezone", "No such fixed-offset zone")),
            },
        },
    }
}

/// Resolves a timezone string: an IANA name directly, or else a
/// "GMT ±H[:00]"-style offset as the matching fixed-offset zone.
pub fn timezone_from_str(timezone: &str) -> (r: Result<chrono_tz::Tz, Error>)
    ensures
        match r {
            Ok(t) => resolve_timezone_spec(timezone@) == Some(t),
            Err(e) => {
                &&& resolve_timezone_spec(timezone@) is None
                &&& e.code == error::INTERNAL_SERVER_ERROR
                &&& e.source@ == "parse_timezone"@
            },
        },
{
    match parse_tz(timezone) {
        Some(tz) => Ok(tz),
        None => parse_gmt_to_timezone(timezone),
    }
}

/// The Unix timestamp of a local calendar time in a zone, or `None` when
/// the fields are invalid or that local time does not exist (or is
/// ambiguous) in the zone.
pub uninterp spec fn zone_timestamp(
    tz: chrono_tz::Tz,
    year: int,
    month: int,
    day: int,
    hour: int,
    minute: int,
    second: int,
) -> Option<int>;

/// Relies on chrono's `TimeZone::with_ymd_and_hms` on a `chrono_tz::Tz`
/// and on `DateTime::timestamp`: the Unix timestamp of a local calendar
/// time in a zone, a function of the zone (whose rules are compiled into
/// the crate) and the fields alone.
#[verifier::external_body]
fn local_timestamp(
    tz: &chrono_tz::Tz,
    year: i32,
    month: u32,
    day: u32,
    hour: u32,
    minute: u32,
    second: u32,
) -> (r: Option<i64>)
    ensures
        match r {
            Some(v) => zone_timestamp(
                *tz,
                year as int,
                month as int,
                day as int,
                hour as int,
                minute as int,
                second as int,
            ) == Some(v as int),
            None => zone_timestamp(
                *tz,
                year as int,
                month as int,
                day as int,
                hour as int,
                minute as int,
                second as int,
            ) is None,
        },
{
    match tz.with_ymd_and_hms(year, month, day, hour, minute, second) {
        chrono::LocalResult::Single(dt) => Some(dt.timestamp()),
        chrono::LocalResult::Ambiguous(_, _) => None,
        chrono::LocalResult::None => None,
    }
}

/// A leap year of the proleptic Gregorian calendar.
pub open spec fn is_leap_year(y: int) -> bool {
    (y % 4 == 0 && y % 100 != 0) || y % 400 == 0
}

/// Days in a month of the proleptic Gregorian calendar.
pub open spec fn days_in_month(y: int, m: int) -> int {
    if m == 4 || m == 6 || m == 9 || m == 11 {
        30
    } else if m == 2 {
        if is_leap_year(y) {
            29
        } else {
            28
        }
    } else {
        31
    }
}

/// A calendar date the date parser accepts: four-digit year, real month
/// and day.
pub open spec fn valid_date(y: int, m: int, d: int) -> bool {
    &&& 0 <= y <= 9999
    &&& 1 <= m <= 12
    &&& 1 <= d <= days_in_month(y, m)
}

/// A time of day.
pub open spec fn valid_time(h: int, mi: int, s: int) -> bool {
    &&& 0 <= h <= 23
    &&& 0 <= mi <= 59
    &&& 0 <= s <= 59
}

/// Days between a calendar date and the Unix epoch, by era arithmetic
/// over the proleptic Gregorian calendar (years shifted so every
/// intermediate value stays non-negative).
pub open spec fn days_from_civil(y: int, m: int, d: int) -> int {
    let yy = if m <= 2 {
        y + 399
    } else {
        y + 400
    };
    let era = yy / 400;
    let yoe = yy % 400;
    let mp = if m > 2 {
        m - 3
    } else {
        m + 9
    };
    let doy = (153 * mp + 2) / 5 + d - 1;
    let doe = yoe * 365 + yoe / 4 - yoe / 100 + doy;
    era * 146097 + doe - 719468 - 146097
}

/// The Unix timestamp of a UTC calendar time.
pub open spec fn utc_timestamp(y: int, m: int, d: int, h: int, mi: int, s: int) -> int {
    days_from_civil(y, m, d) * 86400 + h * 3600 + mi * 60 + s
}

/// Days between a calendar date and the Unix epoch.
fn days_from_civil_exec(y: u32, m: u32, d: u32) -> (r: i64)
    requires
        y <= 9999,
        1 <= m <= 12,
        1 <= d <= 31,
    ensures
        r == days_from_civil(y as int, m as int, d as int),
        -865565 <= r <= 2940000,
{
    let yy: u64 = if m <= 2 {
        y as u64 + 399
    } else {
        y as u64 + 400
    };
    let era: u64 = yy / 400;
    let yoe: u64 = yy % 400;
    let mp: u64 = if m > 2 {
        (m - 3) as u64
    } else {
        (m + 9) as u64
    };
    let doy: u64 = (153 * mp + 2) / 5 + d as u64 - 1;
    let doe: u64 = yoe * 365 + yoe / 4 - yoe / 100 + doy;
    (era * 146097 + doe) as i64 - 719468 - 146097
}

/// One digit of a string, by position.
fn digit_at(s: &str, i: usize) -> (r: Option<u32>)
    requires
        i < s@.len(),
    ensures
        match r {
            Some(d) => is_digit(s@[i as int]) && d == digit_val(s@[i as int]),
            None => !is_digit(s@[i as int]),
        },
{
    let c = s.get_char(i);
    let v = c as u32;
    if 48 <= v && v <= 57 {
        Some(v - 48)
    } else {
        None
    }
}

/// A two-digit number of a string, by position.
fn read_two(s: &str, at: usize) -> (r: Option<u32>)
    requires
        at + 2 <= s@.len(),
        at + 2 <= usize::MAX,
    ensures
        match r {
            Some(v) => {
                &&& is_digit(s@[at as int])
                &&& is_digit(s@[at as int + 1])
                &&& v == digit_val(s@[at as int]) * 10 + digit_val(s@[at as int + 1])
            },
            None => !(is_digit(s@[at as int]) && is_digit(s@[at as int + 1])),
        },
{
    match (digit_at(s, at), digit_at(s, at + 1)) {
        (Some(a), Some(b)) => Some(a * 10 + b),
        _ => None,
    }
}

/// A date string has four year digits, a dash, two month digits, a dash,
/// and two day digits.
pub open spec fn date_shape(s: Seq<char>) -> bool {
    &&& s.len() >= 10
    &&& is_digit(s[0])
    &&& is_digit(s[1])
    &&& is_digit(s[2])
    &&& is_digit(s[3])
    &&& s[4] == '-'
    &&& is_digit(s[5])
    &&& is_digit(s[6])
    &&& s[7] == '-'
    &&& is_digit(s[8])
    &&& is_digit(s[9])
}

/// The year digits of a date string.
pub open spec fn date_year(s: Seq<char>) -> int {
    digit_val(s[0]) * 1000 + digit_val(s[1]) * 100 + digit_val(s[2]) * 10 + digit_val(s[3])
}

/// The month digits of a date string.
pub open spec fn date_month(s: Seq<char>) -> int {
    digit_val(s[5]) * 10 + digit_val(s[6])
}

/// The day digits of a date string.
pub open spec fn date_day(s: Seq<char>) -> int {
    digit_val(s[8]) * 10 + digit_val(s[9])
}

/// The calendar date a ten-character date-only string parses to, if it is
/// well-shaped and names a real date.
pub open spec fn parse_date_spec(s: Seq<char>) -> Option<(int, int, int)> {
    if s.len() == 10 && date_shape(s) && valid_date(date_year(s), date_month(s), date_day(s)) {
        Some((date_year(s), date_month(s), date_day(s)))
    } else {
        None
    }
}

/// A parsed calendar date.
#[derive(Debug, Clone, Copy, PartialEq, Eq, Structural)]
pub struct Date {
    pub year: u32,
    pub month: u32,
    pub day: u32,
}

/// Days in a month of the proleptic Gregorian calendar.
fn days_in_month_exec(y: u32, m: u32) -> (r: u32)
    requires
        1 <= m <= 12,
    ensures
        r == days_in_month(y as int, m as int),
{
    if m == 4 || m == 6 || m == 9 || m == 11 {
        30
    } else if m == 2 {
        if (y % 4 == 0 && y % 100 != 0) || y % 400 == 0 {
            29
        } else {
            28
        }
    } else {
        31
    }
}

/// Parses a "YYYY-MM-DD" date string; any other shape, or a date that
/// does not exist, fails with a `ParseError`-style failure.
pub fn parse_date(raw: &str) -> (r: Result<Date, Error>)
    ensures
        match r {
            Ok(d) => parse_date_spec(raw@) == Some((d.year as int, d.month as int, d.day as int)),
            Err(e) => {
                &&& parse_date_spec(raw@) is None
                &&& e.code == error::INTERNAL_SERVER_ERROR
                &&& e.source@ == "time"@
            },
        },
{
    if raw.unicode_len() != 10 {
        return Err(error::new("time", "A date string has ten characters"));
    }
    if raw.get_char(4) != '-' || raw.get_char(7) != '-' {
        return Err(error::new("time", "A date string is dash-separated"));
    }
    let hi = match read_two(raw, 0) {
        Some(v) => v,
        None => {
            return Err(error::new("time", "Year is not numeric"));
        },
    };
    let lo = match read_two(raw, 2) {
        Some(v) => v,
        None => {
            return Err(error::new("time", "Year is not numeric"));
        },
    };
    let year = hi * 100 + lo;
    let month = match read_two(raw, 5) {
        Some(v) => v,
        None => {
            return Err(error::new("time", "Month is not numeric"));
        },
    };
    let day = match read_two(raw, 8) {
        Some(v) => v,
        None => {
            return Err(error::new("time", "Day is not numeric"));
        },
    };
    if month < 1 || month > 12 {
        return Err(error::new("time", "No such month"));
    }
    if day < 1 || day > days_in_month_exec(year, month) {
        return Err(error::new("time", "No such day"));
    }
    Ok(Date { year, month, day })
}

/// A date-time string extends a date string with 'T' and a colon-separated
/// time of day.
pub open spec fn time_shape(s: Seq<char>) -> bool {
    &&& s.len() >= 19
    &&& date_shape(s)
    &&& s[10] == 'T'
    &&& is_digit(s[11])
    &&& is_digit(s[12])
    &&& s[13] == ':'
    &&& is_digit(s[14])
    &&& is_digit(s[15])
    &&& s[16] == ':'
    &&& is_digit(s[17])
    &&& is_digit(s[18])
}

/// The hour digits of a date-time string.
pub open spec fn time_hour(s: Seq<char>) -> int {
    digit_val(s[11]) * 10 + digit_val(s[12])
}

/// The minute digits of a date-time string.
pub open spec fn time_minute(s: Seq<char>) -> int {
    digit_val(s[14]) * 10 + digit_val(s[15])
}

/// The second digits of a date-time string.
pub open spec fn time_second(s: Seq<char>) -> int {
    digit_val(s[17]) * 10 + digit_val(s[18])
}

/// Whether a string is a well-shaped date-time naming a real date and a
/// real time of day.
pub open spec fn valid_datetime_fields(s: Seq<char>) -> bool {
    &&& time_shape(s)
    &&& valid_date(date_year(s), date_month(s), date_day(s))
    &&& valid_time(time_hour(s), time_minute(s), time_second(s))
}

/// The instant a raw date or date-time string names in a zone: ten
/// characters are a date-only value read as 23:59 local time; nineteen a
/// naive local date-time; twenty a UTC date-time with a trailing 'Z'; any
/// other length fails.
pub open spec fn parse_datetime_spec(s: Seq<char>, tz: chrono_tz::Tz) -> Option<int> {
    if s.len() == 10 {
        match parse_date_spec(s) {
            Some(ymd) => zone_timestamp(tz, ymd.0, ymd.1, ymd.2, 23, 59, 0),
            None => None,
        }
    } else if s.len() == 19 {
        if valid_datetime_fields(s) {
            zone_timestamp(
                tz,
                date_year(s),
                date_month(s),
                date_day(s),
                time_hour(s),
                time_minute(s),
                time_second(s),
            )
        } else {
            None
        }
    } else if s.len() == 20 {
        if valid_datetime_fields(s) && s[19] == 'Z' {
            Some(
                utc_timestamp(
                    date_year(s),
                    date_month(s),
                    date_day(s),
                    time_hour(s),
                    time_minute(s),
                    time_second(s),
                ),
            )
        } else {
            None
        }
    } else {
        None
    }
}

/// The date and time-of-day fields of a nineteen-character date-time
/// prefix, checked to name a real date and time.
fn parse_datetime_fields(raw: &str) -> (r: Result<(Date, u32, u32, u32), Error>)
    requires
        raw@.len() >= 19,
    ensures
        match r {
            Ok(f) => {
                &&& valid_datetime_fields(raw@)
                &&& f.0.year as int == date_year(raw@)
                &&& f.0.month as int == date_month(raw@)
                &&& f.0.day as int == date_day(raw@)
                &&& f.1 as int == time_hour(raw@)
                &&& f.2 as int == time_minute(raw@)
                &&& f.3 as int == time_second(raw@)
            },
            Err(e) => {
                &&& !valid_datetime_fields(raw@)
                &&& e.code == error::INTERNAL_SERVER_ERROR
                &&& e.source@ == "time"@
            },
        },
{
    if raw.get_char(4) != '-' || raw.get_char(7) != '-' || raw.get_char(10) != 'T' || raw.get_char(
        13,
    ) != ':' || raw.get_char(16) != ':' {
        return Err(error::new("time", "Not a date-time string"));
    }
    let hi = match read_two(raw, 0) {
        Some(v) => v,
        None => {
            return Err(error::new("time", "Year is not numeric"));
        },
    };
    let lo = match read_two(raw, 2) {
        Some(v) => v,
        None => {
            return Err(error::new("time", "Year is not numeric"));
        },
    };
    let year = hi * 100 + lo;
    let month = match read_two(raw, 5) {
        Some(v) => v,
        None => {
            return Err(error::new("time", "Month is not numeric"));
        },
    };
    let day = match read_two(raw, 8) {
        Some(v) => v,
        None => {
            return Err(error::new("time", "Day is not numeric"));
        },
    };
    let hour = match read_two(raw, 11) {
        Some(v) => v,
        None => {
            return Err(error::new("time", "Hour is not numeric"));
        },
    };
    let minute = match read_two(raw, 14) {
        Some(v) => v,
        None => {
            return Err(error::new("time", "Minute is not numeric"));
        },
    };
    let second = match read_two(raw, 17) {
        Some(v) => v,
        None => {
            return Err(error::new("time", "Second is not numeric"));
        },
    };
    if month < 1 || month > 12 {
        return Err(error::new("time", "No such month"));
    }
    if day < 1 || day > days_in_month_exec(year, month) {
        return Err(error::new("time", "No such day"));
    }
    if hour > 23 || minute > 59 || second > 59 {
        return Err(error::new("time", "No such time of day"));
    }
    Ok((Date { year, month, day }, hour, minute, second))
}

/// Parses a raw date or date-time string to the instant it names in the
/// given zone: ten characters are a date-only value read as 23:59 local
/// time, nineteen a naive local date-time, twenty a UTC date-time with a
/// trailing 'Z'; any other length fails with a `ParseError`-style
/// failure.
pub fn parse_datetime(raw: &str, timezone: &chrono_tz::Tz) -> (r: Result<i64, Error>)
    ensures
        match r {
            Ok(ts) => parse_datetime_spec(raw@, *timezone) == Some(ts as int),
            Err(e) => {
                &&& parse_datetime_spec(raw@, *timezone) is None
                &&& e.code == error::INTERNAL_SERVER_ERROR
                &&& e.source@ == "time"@
            },
        },
{
    let len = raw.unicode_len();
    if len == 10 {
        let date = match parse_date(raw) {
            Ok(d) => d,
            Err(e) => {
                return Err(e);
            },
        };
        match local_timestamp(timezone, date.year as i32, date.month, date.day, 23, 59, 0) {
            Some(ts) => Ok(ts),
            None => Err(error::new("time", "No such local time in this zone")),
        }
    } else if len == 19 {
        let (date, hour, minute, second) = match parse_datetime_fields(raw) {
            Ok(f) => f,
            Err(e) => {
                return Err(e);
            },
        };
        match local_timestamp(timezone, date.year as i32, date.month, date.day, hour, minute, second) {
            Some(ts) => Ok(ts),
            None => Err(error::new("time", "No such local time in this zone")),
        }
    } else if len == 20 {
        let (date, hour, minute, second) = match parse_datetime_fields(raw) {
            Ok(f) => f,
            Err(e) => {
                return Err(e);
            },
        };
        if raw.get_char(19) != 'Z' {
            return Err(error::new("time", "A twenty-character date-time ends in Z"));
        }
        let days = days_from_civil_exec(date.year, date.month, date.day);
        Ok(days * 86400 + (hour as i64) * 3600 + (minute as i64) * 60 + second as i64)
    } else {
        Err(error::new("time", "Not a date or date-time string"))
    }
}

} // verus!
