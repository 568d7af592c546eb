//! Dates of the proleptic Gregorian calendar and UTC timestamps.
use vstd::prelude::*;
use crate::text::{push_char, push_padded, push_padded_signed, padded_signed, zero_pad, decimal};

verus! {

pub open spec fn is_leap(y: int) -> bool {
    y % 4 == 0 && (y % 100 != 0 || y % 400 == 0)
}

pub open spec fn days_in_month(y: int, m: int) -> int {
    if m == 2 {
        if is_leap(y) {
            29
        } else {
            28
        }
    } else if m == 4 || m == 6 || m == 9 || m == 11 {
        30
    } else {
        31
    }
}

/// Days of year `y` before the first of month `m`.
pub open spec fn days_before_month(y: int, m: int) -> int
    decreases m,
{
    if m <= 1 {
        0
    } else {
        days_before_month(y, m - 1) + days_in_month(y, m - 1)
    }
}

/// Number of leap years before year `y`, counted from year 1 (negative for earlier years).
pub open spec fn leap_years_before(y: int) -> int {
    (y - 1) / 4 - (y - 1) / 100 + (y - 1) / 400
}

/// Days from 1970-01-01 to the date `y-m-d`.
pub open spec fn days_from_epoch(y: int, m: int, d: int) -> int {
    365 * (y - 1970) + (leap_years_before(y) - leap_years_before(1970)) + days_before_month(y, m)
        + d - 1
}

pub open spec fn valid_date(y: int, m: int, d: int) -> bool {
    1 <= m <= 12 && 1 <= d <= days_in_month(y, m)
}

proof fn lemma_div_unique(x: int, c: int, q: int)
    requires
        c > 0,
        c * q <= x < c * q + c,
    ensures
        x / c == q,
        x % c == x - c * q,
{
    vstd::arithmetic::div_mod::lemma_fundamental_div_mod(x, c);
    let q0 = x / c;
    let r0 = x % c;
    assert(x == c * q0 + r0);
    assert(0 <= r0 < c);
    if q0 < q {
        assert(c * q0 + c <= c * q) by (nonlinear_arith)
            requires
                q0 < q,
                c > 0,
        ;
    } else if q0 > q {
        assert(c * q + c <= c * q0) by (nonlinear_arith)
            requires
                q0 > q,
                c > 0,
        ;
    }
}

/// A year has 365 days, plus one when it is a leap year.
pub proof fn lemma_leap_step(y: int)
    ensures
        leap_years_before(y + 1) - leap_years_before(y) == if is_leap(y) {
            1int
        } else {
            0int
        },
{
    let a = (y - 1) / 4;
    let b = (y - 1) / 100;
    let c = (y - 1) / 400;
    vstd::arithmetic::div_mod::lemma_fundamental_div_mod(y - 1, 4);
    vstd::arithmetic::div_mod::lemma_fundamental_div_mod(y - 1, 100);
    vstd::arithmetic::div_mod::lemma_fundamental_div_mod(y - 1, 400);
    vstd::arithmetic::div_mod::lemma_fundamental_div_mod(y, 4);
    vstd::arithmetic::div_mod::lemma_fundamental_div_mod(y, 100);
    vstd::arithmetic::div_mod::lemma_fundamental_div_mod(y, 400);
    if (y - 1) % 4 == 3 {
        lemma_div_unique(y, 4, a + 1);
    } else {
        lemma_div_unique(y, 4, a);
    }
    if (y - 1) % 100 == 99 {
        lemma_div_unique(y, 100, b + 1);
    } else {
        lemma_div_unique(y, 100, b);
    }
    if (y - 1) % 400 == 399 {
        lemma_div_unique(y, 400, c + 1);
    } else {
        lemma_div_unique(y, 400, c);
    }
}


/// Offset of the first day of month index `mp` (0 = March, ..., 11 = February) in a
/// year that starts on March 1.
pub open spec fn march_month_start(mp: int) -> int {
    (153 * mp + 2) / 5
}

proof fn lemma_era_split(doe: int) -> (r: (int, int, int, int))
    requires
        0 <= doe <= 146096,
    ensures
        0 <= r.0 <= 3,
        0 <= r.1 <= 24,
        0 <= r.2 <= 3,
        0 <= r.3 <= 365,
        doe == 36524 * r.0 + 1461 * r.1 + 365 * r.2 + r.3,
        r.3 == 365 ==> r.2 == 3 && (r.1 < 24 || r.0 == 3),
        (doe - doe / 1460 + doe / 36524 - doe / 146096) / 365 == 100 * r.0 + 4 * r.1 + r.2,
{
    vstd::arithmetic::div_mod::lemma_fundamental_div_mod(doe, 36524);
    let k1 = doe / 36524;
    assert(0 <= k1 <= 4);
    let c = if k1 > 3 { 3 } else { k1 };
    let rem = doe - 36524 * c;
    assert(0 <= rem <= 36524);
    assert(c < 3 ==> rem < 36524);
    vstd::arithmetic::div_mod::lemma_fundamental_div_mod(rem, 1461);
    let b = rem / 1461;
    assert(0 <= b <= 24);
    let r2 = rem - 1461 * b;
    assert(0 <= r2 <= 1460);
    vstd::arithmetic::div_mod::lemma_fundamental_div_mod(r2, 365);
    let k3 = r2 / 365;
    assert(0 <= k3 <= 4);
    let a = if k3 > 3 { 3 } else { k3 };
    let dy = r2 - 365 * a;
    assert(0 <= dy <= 365);
    // the quotients of the formula
    let e2: int = if doe == 146096 { 1 } else { 0 };
    lemma_div_unique(doe, 36524, c + e2);
    lemma_div_unique(doe, 146096, e2);
    let t = 24 * c + b + 365 * a + dy;
    let e1: int = if t >= 1460 { 1 } else { 0 };
    lemma_div_unique(doe, 1460, 25 * c + b + e1);
    let q = doe - doe / 1460 + doe / 36524 - doe / 146096;
    let s = dy - e1 + e2 - e2;
    assert(q == 365 * (100 * c + 4 * b + a) + s);
    assert(0 <= s <= 364);
    lemma_div_unique(q, 365, 100 * c + 4 * b + a);
    (c, b, a, dy)
}

proof fn lemma_month_split(dy: int)
    requires
        0 <= dy <= 365,
    ensures
        0 <= (5 * dy + 2) / 153 <= 11,
        march_month_start((5 * dy + 2) / 153) <= dy,
        dy < march_month_start((5 * dy + 2) / 153 + 1),
{
    if dy < 31 {
        lemma_div_unique(5 * dy + 2, 153, 0);
    } else if dy < 61 {
        lemma_div_unique(5 * dy + 2, 153, 1);
    } else if dy < 92 {
        lemma_div_unique(5 * dy + 2, 153, 2);
    } else if dy < 122 {
        lemma_div_unique(5 * dy + 2, 153, 3);
    } else if dy < 153 {
        lemma_div_unique(5 * dy + 2, 153, 4);
    } else if dy < 184 {
        lemma_div_unique(5 * dy + 2, 153, 5);
    } else if dy < 214 {
        lemma_div_unique(5 * dy + 2, 153, 6);
    } else if dy < 245 {
        lemma_div_unique(5 * dy + 2, 153, 7);
    } else if dy < 275 {
        lemma_div_unique(5 * dy + 2, 153, 8);
    } else if dy < 306 {
        lemma_div_unique(5 * dy + 2, 153, 9);
    } else if dy < 337 {
        lemma_div_unique(5 * dy + 2, 153, 10);
    } else {
        lemma_div_unique(5 * dy + 2, 153, 11);
    }
}

proof fn lemma_days_before_month_table(y: int)
    ensures
        days_before_month(y, 1) == 0,
        days_before_month(y, 2) == 31,
        days_before_month(y, 3) == 59 + if is_leap(y) { 1int } else { 0int },
        forall|mp: int|
            0 <= mp <= 9 ==> #[trigger] days_before_month(y, mp + 3) == 59 + (if is_leap(y) {
                1int
            } else {
                0int
            }) + march_month_start(mp),
{
    reveal_with_fuel(days_before_month, 13);
    let l: int = if is_leap(y) { 1 } else { 0 };
    assert(days_before_month(y, 3) == 59 + l);
    assert(days_before_month(y, 4) == 90 + l);
    assert(days_before_month(y, 5) == 120 + l);
    assert(days_before_month(y, 6) == 151 + l);
    assert(days_before_month(y, 7) == 181 + l);
    assert(days_before_month(y, 8) == 212 + l);
    assert(days_before_month(y, 9) == 243 + l);
    assert(days_before_month(y, 10) == 273 + l);
    assert(days_before_month(y, 11) == 304 + l);
    assert(days_before_month(y, 12) == 334 + l);
    assert forall|mp: int|
        0 <= mp <= 9 implies #[trigger] days_before_month(y, mp + 3) == 59 + l + march_month_start(
        mp,
    ) by {
        if mp == 0 {
        } else if mp == 1 {
        } else if mp == 2 {
        } else if mp == 3 {
        } else if mp == 4 {
        } else if mp == 5 {
        } else if mp == 6 {
        } else if mp == 7 {
        } else if mp == 8 {
        } else {
        }
    }
}

/// The date computed from day number `z` by the steps of `civil_from_days` is a
/// valid date whose day number is `z`.
proof fn lemma_civil(z: int, era: int, doe: int, yoe: int, doy: int, mp: int, d: int, m: int, year: int)
    requires
        era == (z + 719468) / 146097,
        doe == z + 719468 - era * 146097,
        yoe == (doe - doe / 1460 + doe / 36524 - doe / 146096) / 365,
        doy == doe - (365 * yoe + yoe / 4 - yoe / 100),
        mp == (5 * doy + 2) / 153,
        d == doy - march_month_start(mp) + 1,
        m == if mp < 10 { mp + 3 } else { mp - 9 },
        year == if m <= 2 { yoe + era * 400 + 1 } else { yoe + era * 400 },
    ensures
        0 <= doe <= 146096,
        0 <= yoe <= 399,
        0 <= doy <= 365,
        0 <= mp <= 11,
        valid_date(year, m, d),
        days_from_epoch(year, m, d) == z,
{
    vstd::arithmetic::div_mod::lemma_fundamental_div_mod(z + 719468, 146097);
    assert(0 <= doe <= 146096);
    let (c, b, a, dy) = lemma_era_split(doe);
    assert(yoe == 100 * c + 4 * b + a);
    lemma_div_unique(yoe, 4, 25 * c + b);
    lemma_div_unique(yoe, 100, c);
    assert(doy == dy);
    lemma_month_split(doy);
    let y0 = yoe + era * 400;
    // leap-year count up to the year that holds the March of this date
    lemma_div_unique(y0, 4, 100 * era + 25 * c + b);
    lemma_div_unique(y0, 100, 4 * era + c);
    lemma_div_unique(y0, 400, era);
    assert(leap_years_before(y0 + 1) == 97 * era + 24 * c + b);
    assert(leap_years_before(1970) == 477);
    lemma_days_before_month_table(y0);
    lemma_days_before_month_table(y0 + 1);
    lemma_leap_step(y0);
    if mp == 11 && doy == 365 {
        // February 29: the year that holds this February is a leap year
        assert(a == 3);
        if b < 24 {
            lemma_div_unique(y0 + 1, 4, 100 * era + 25 * c + b + 1);
            lemma_div_unique(y0 + 1, 100, 4 * era + c);
        } else {
            assert(c == 3);
            lemma_div_unique(y0 + 1, 4, 100 * era + 100);
            lemma_div_unique(y0 + 1, 400, era + 1);
        }
        assert(is_leap(y0 + 1));
    }
    if mp < 10 {
        assert(days_before_month(y0, m) == 59 + (if is_leap(y0) { 1int } else { 0int })
            + march_month_start(mp));
    }
}

proof fn lemma_civil_ranges(doe: int)
    requires
        0 <= doe <= 146096,
    ensures
        0 <= (doe - doe / 1460 + doe / 36524 - doe / 146096) / 365 <= 399,
        0 <= doe - (365 * ((doe - doe / 1460 + doe / 36524 - doe / 146096) / 365) + ((doe - doe
            / 1460 + doe / 36524 - doe / 146096) / 365) / 4 - ((doe - doe / 1460 + doe / 36524
            - doe / 146096) / 365) / 100) <= 365,
{
    let (c, b, a, dy) = lemma_era_split(doe);
    let yoe = 100 * c + 4 * b + a;
    lemma_div_unique(yoe, 4, 25 * c + b);
    lemma_div_unique(yoe, 100, c);
}

/// The date `(year, month, day)` of day `z` counted from 1970-01-01.
pub open spec fn is_date_of_day(z: int, r: (int, int, int)) -> bool {
    valid_date(r.0, r.1, r.2) && days_from_epoch(r.0, r.1, r.2) == z
}

/// Converts a day number (days since 1970-01-01, negative before it) to the
/// proleptic Gregorian date `(year, month, day)`.
pub fn civil_from_days(z: i64) -> (r: (i64, u32, u32))
    requires
        z <= i64::MAX - 719_468,
        z + 719_468 >= i64::MIN + 146_096,
    ensures
        is_date_of_day(z as int, (r.0 as int, r.1 as int, r.2 as int)),
{
    let zp = z + 719_468;
    let era: i64 = if zp >= 0 {
        zp / 146_097
    } else {
        -(((-zp) + 146_096) / 146_097)
    };
    proof {
        if zp < 0 {
            vstd::arithmetic::div_mod::lemma_fundamental_div_mod((-zp) + 146_096, 146_097);
            vstd::arithmetic::div_mod::lemma_fundamental_div_mod(zp as int, 146_097);
            let k = ((-zp) + 146_096) / 146_097;
            lemma_div_unique(zp as int, 146_097, -k);
        }
        vstd::arithmetic::div_mod::lemma_fundamental_div_mod(zp as int, 146_097);
        assert(era == (zp as int) / 146_097);
    }
    proof {
        vstd::arithmetic::div_mod::lemma_fundamental_div_mod(zp as int, 146_097);
        assert(146_097 * era <= zp < 146_097 * era + 146_097);
        assert(-63_200_000_000_000 <= era <= 63_200_000_000_000) by (nonlinear_arith)
            requires
                146_097 * era <= zp < 146_097 * era + 146_097,
                i64::MIN <= zp <= i64::MAX,
        ;
    }
    let doe = (zp - era * 146_097) as u64;
    assert(doe <= 146_096);
    let yoe = (doe - doe / 1460 + doe / 36_524 - doe / 146_096) / 365;
    proof {
        lemma_civil_ranges(doe as int);
    }
    let y = yoe as i64 + era * 400;
    let doy = doe - (365 * yoe + yoe / 4 - yoe / 100);
    assert(doy <= 365);
    let mp = (5 * doy + 2) / 153;
    assert(mp <= 11);
    let d = (doy - (153 * mp + 2) / 5 + 1) as u32;
    let m = if mp < 10 {
        mp + 3
    } else {
        mp - 9
    } as u32;
    proof {
        lemma_civil(
            z as int,
            era as int,
            doe as int,
            yoe as int,
            doy as int,
            mp as int,
            d as int,
            m as int,
            if m <= 2 { y + 1 } else { y as int },
        );
    }
    (if m <= 2 { y + 1 } else { y }, m, d)
}

proof fn lemma_dbm_mono(y: int, m1: int, m2: int)
    requires
        1 <= m1 < m2,
    ensures
        days_before_month(y, m1) + days_in_month(y, m1) <= days_before_month(y, m2),
    decreases m2 - m1,
{
    if m2 > m1 + 1 {
        lemma_dbm_mono(y, m1, m2 - 1);
    }
}

proof fn lemma_within_year(y: int, m: int, d: int)
    requires
        valid_date(y, m, d),
    ensures
        days_from_epoch(y, 1, 1) <= days_from_epoch(y, m, d) < days_from_epoch(y + 1, 1, 1),
{
    reveal_with_fuel(days_before_month, 14);
    lemma_leap_step(y);
    if m < 12 {
        lemma_dbm_mono(y, m, 12);
    }
    assert(days_before_month(y, 12) + 31 == 365 + if is_leap(y) { 1int } else { 0int });
}

proof fn lemma_years_ordered(y1: int, y2: int)
    requires
        y1 < y2,
    ensures
        days_from_epoch(y1 + 1, 1, 1) <= days_from_epoch(y2, 1, 1),
    decreases y2 - y1,
{
    if y2 > y1 + 1 {
        lemma_years_ordered(y1, y2 - 1);
        lemma_leap_step(y2 - 1);
    }
}

/// Different valid dates have different day numbers: a day number has at most one date.
pub proof fn lemma_date_unique(y1: int, m1: int, d1: int, y2: int, m2: int, d2: int)
    requires
        valid_date(y1, m1, d1),
        valid_date(y2, m2, d2),
        days_from_epoch(y1, m1, d1) == days_from_epoch(y2, m2, d2),
    ensures
        y1 == y2 && m1 == m2 && d1 == d2,
{
    lemma_within_year(y1, m1, d1);
    lemma_within_year(y2, m2, d2);
    if y1 < y2 {
        lemma_years_ordered(y1, y2);
    } else if y2 < y1 {
        lemma_years_ordered(y2, y1);
    }
    assert(y1 == y2);
    if m1 < m2 {
        lemma_dbm_mono(y1, m1, m2);
    } else if m2 < m1 {
        lemma_dbm_mono(y1, m2, m1);
    }
}

/// The date of day number `z` (days since 1970-01-01).
pub open spec fn date_of_day(z: int) -> (int, int, int) {
    choose|t: (int, int, int)| is_date_of_day(z, t)
}

/// `secs` (Unix seconds, UTC) as `YYYY-MM-DD HH:MM:SS`, the year printed as `{:04}`.
pub open spec fn utc_text(secs: int) -> Seq<char> {
    let date = date_of_day(secs / 86400);
    let rem = secs % 86400;
    padded_signed(date.0, 4) + seq!['-'] + zero_pad(decimal(date.1 as nat), 2) + seq!['-']
        + zero_pad(decimal(date.2 as nat), 2) + seq![' '] + zero_pad(decimal((rem / 3600) as nat), 2)
        + seq![':'] + zero_pad(decimal(((rem % 3600) / 60) as nat), 2) + seq![':'] + zero_pad(
        decimal((rem % 60) as nat),
        2,
    )
}

/// Formats a Unix time in seconds as UTC `YYYY-MM-DD HH:MM:SS`.
pub fn format_utc(secs: i64) -> (r: String)
    ensures
        r@ == utc_text(secs as int),
{
    let mut days = secs / 86400;
    let mut rem = secs % 86400;
    if rem < 0 {
        days = days - 1;
        rem = rem + 86400;
    }
    proof {
        vstd::arithmetic::div_mod::lemma_fundamental_div_mod(secs as int, 86400);
        lemma_div_unique(secs as int, 86400, days as int);
        assert(days <= 106_751_991_167_301);
        assert(days >= -106_751_991_167_301);
    }
    let (y, m, d) = civil_from_days(days);
    proof {
        let t = (y as int, m as int, d as int);
        assert(is_date_of_day(days as int, t));
        let c = date_of_day(days as int);
        lemma_date_unique(t.0, t.1, t.2, c.0, c.1, c.2);
    }
    let mut out = String::new();
    push_padded_signed(&mut out, y, 4);
    push_char(&mut out, '-');
    push_padded(&mut out, m as u64, 2);
    push_char(&mut out, '-');
    push_padded(&mut out, d as u64, 2);
    push_char(&mut out, ' ');
    push_padded(&mut out, (rem / 3600) as u64, 2);
    push_char(&mut out, ':');
    push_padded(&mut out, ((rem % 3600) / 60) as u64, 2);
    push_char(&mut out, ':');
    push_padded(&mut out, (rem % 60) as u64, 2);
    proof {
        assert(out@ =~= utc_text(secs as int));
    }
    out
}

/// Seconds since the Unix epoch on the system clock (`SystemTime::now`), or 0 when the
/// clock is before the epoch. Nothing is promised of the value: it is the time.
#[verifier::external_body]
fn unix_time_secs() -> u64 {
    std::time::SystemTime::now()
        .duration_since(std::time::UNIX_EPOCH)
        .unwrap_or_default()
        .as_secs()
}

/// The current UTC time as `YYYY-MM-DD HH:MM:SS`.
pub fn now_iso() -> (r: String)
    ensures
        exists|secs: i64| r@ == utc_text(secs as int),
{
    let secs = unix_time_secs() as i64;
    format_utc(secs)
}

} // verus!
