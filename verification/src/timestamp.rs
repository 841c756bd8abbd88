//! Windows-epoch timestamps: a 64-bit count of units since
//! 1601-01-01T00:00:00Z — 100-nanosecond ticks for most columns, 10-microsecond
//! units for the record-time column. Decoding converts through a verified
//! proleptic-Gregorian calendar; a negative count is out of range and fails
//! rather than wrapping.

use vstd::prelude::*;
use vstd::string::StringExecFns;

use crate::error::Error;
use crate::fmt::{dec_of, i64_to_dec, push_char, zero_pad, append_dec_u64_padded};

verus! {

pub open spec fn is_leap_year(y: int) -> bool {
    y % 4 == 0 && (y % 100 != 0 || y % 400 == 0)
}

pub open spec fn days_in_year(y: int) -> int {
    if is_leap_year(y) {
        366
    } else {
        365
    }
}

pub open spec fn days_in_month(y: int, m: int) -> int {
    if m == 2 {
        if is_leap_year(y) {
            29
        } else {
            28
        }
    } else if m == 4 || m == 6 || m == 9 || m == 11 {
        30
    } else {
        31
    }
}

/// Days from the first of January of `y` to the first of month `m`.
pub open spec fn month_days_before(y: int, m: int) -> int
    decreases m,
{
    if m <= 1 {
        0
    } else {
        month_days_before(y, m - 1) + days_in_month(y, m - 1)
    }
}

/// Days from 1601-01-01 to the first of January of `y`.
pub open spec fn year_days_before(y: int) -> int
    decreases y,
{
    if y <= 1601 {
        0
    } else {
        year_days_before(y - 1) + days_in_year(y - 1)
    }
}

/// The day number (days since 1601-01-01) of a civil date.
pub open spec fn days_from_civil(y: int, m: int, d: int) -> int {
    year_days_before(y) + month_days_before(y, m) + (d - 1)
}

/// Peel whole years off a day count, starting at year `y`.
pub open spec fn spec_year_split(days: int, y: int) -> (int, int)
    decreases days,
{
    if days < days_in_year(y) {
        (y, days)
    } else {
        spec_year_split(days - days_in_year(y), y + 1)
    }
}

/// Peel whole months off a day count within year `y`, starting at month `m`.
pub open spec fn spec_month_split(days: int, y: int, m: int) -> (int, int)
    decreases 12 - m,
{
    if m >= 12 || days < days_in_month(y, m) {
        (m, days)
    } else {
        spec_month_split(days - days_in_month(y, m), y, m + 1)
    }
}

/// The civil date of a day number: (year, month, day).
pub open spec fn spec_civil_from_days(days: int) -> (int, int, int) {
    let (y, rem_y) = spec_year_split(days, 1601);
    let (m, rem_m) = spec_month_split(rem_y, y, 1);
    (y, m, rem_m + 1)
}

/// A civil calendar date.
#[derive(Clone, Copy, PartialEq, Eq, Structural, Debug)]
pub struct CivilDate {
    pub year: u64,
    pub month: u8,
    pub day: u8,
}

fn is_leap_year_x(y: u64) -> (r: bool)
    ensures
        r == is_leap_year(y as int),
{
    y % 4 == 0 && (y % 100 != 0 || y % 400 == 0)
}

fn days_in_year_x(y: u64) -> (r: u64)
    ensures
        r == days_in_year(y as int),
{
    if is_leap_year_x(y) {
        366
    } else {
        365
    }
}

fn days_in_month_x(y: u64, m: u8) -> (r: u64)
    ensures
        r == days_in_month(y as int, m as int),
{
    if m == 2 {
        if is_leap_year_x(y) {
            29
        } else {
            28
        }
    } else if m == 4 || m == 6 || m == 9 || m == 11 {
        30
    } else {
        31
    }
}

/// Convert a day number (days since 1601-01-01) to its civil date.
pub fn civil_from_days(days: u64) -> (r: CivilDate)
    ensures
        (r.year as int, r.month as int, r.day as int) == spec_civil_from_days(days as int),
        1601 <= r.year,
        1 <= r.month <= 12,
        1 <= r.day <= 31,
{
    let mut y: u64 = 1601;
    let mut rem: u64 = days;
    loop
        invariant
            1601 <= y,
            rem <= days,
            365 * (y as int - 1601) <= days as int - rem as int,
            spec_year_split(days as int, 1601) == spec_year_split(rem as int, y as int),
        ensures
            1601 <= y,
            rem < days_in_year(y as int),
            spec_year_split(days as int, 1601) == (y as int, rem as int),
        decreases rem,
    {
        let diy = days_in_year_x(y);
        if rem < diy {
            break;
        }
        proof {
            assert(y as int - 1601 <= days as int / 365) by (nonlinear_arith)
                requires
                    365 * (y as int - 1601) <= days as int,
            ;
        }
        rem = rem - diy;
        y = y + 1;
    }
    let ghost rem_y = rem as int;
    let mut m: u8 = 1;
    loop
        invariant
            1 <= m <= 12,
            rem < 366,
            month_days_before(y as int, m as int) + rem as int == rem_y,
            rem_y < days_in_year(y as int),
            spec_month_split(rem_y, y as int, 1) == spec_month_split(
                rem as int,
                y as int,
                m as int,
            ),
        ensures
            1 <= m <= 12,
            month_days_before(y as int, m as int) + rem as int == rem_y,
            rem_y < days_in_year(y as int),
            m as int >= 12 || rem < days_in_month(y as int, m as int),
            spec_month_split(rem_y, y as int, 1) == (m as int, rem as int),
        decreases 12 - m,
    {
        let dim = days_in_month_x(y, m);
        if m >= 12 || rem < dim {
            break;
        }
        rem = rem - dim;
        m = m + 1;
    }
    proof {
        if m == 12 {
            lemma_full_year_months(y as int);
            assert(rem < 31);
        }
    }
    CivilDate { year: y, month: m, day: (rem + 1) as u8 }
}

/// The months of a year sum to its day count.
pub proof fn lemma_full_year_months(y: int)
    ensures
        month_days_before(y, 12) + days_in_month(y, 12) == days_in_year(y),
{
    reveal_with_fuel(month_days_before, 13);
}

/// The rendered timestamp: `YYYY-MM-DDTHH:MM:SSZ`, fields zero-padded.
pub open spec fn rfc3339_string(y: int, m: int, d: int, h: int, mi: int, s: int) -> Seq<char> {
    zero_pad(dec_of(y as nat), 4) + seq!['-'] + zero_pad(dec_of(m as nat), 2) + seq!['-']
        + zero_pad(dec_of(d as nat), 2) + seq!['T'] + zero_pad(dec_of(h as nat), 2) + seq![':']
        + zero_pad(dec_of(mi as nat), 2) + seq![':'] + zero_pad(dec_of(s as nat), 2) + seq!['Z']
}

/// The rendered form of a count of seconds since 1601-01-01T00:00:00Z.
pub open spec fn spec_rfc3339_of_seconds(secs: int) -> Seq<char> {
    let days = secs / 86400;
    let tod = secs % 86400;
    let civil = spec_civil_from_days(days);
    rfc3339_string(civil.0, civil.1, civil.2, tod / 3600, (tod % 3600) / 60, tod % 60)
}

/// Render a count of seconds since 1601-01-01T00:00:00Z.
pub fn rfc3339_of_seconds(secs: u64) -> (r: String)
    ensures
        r@ == spec_rfc3339_of_seconds(secs as int),
{
    let days = secs / 86400;
    let tod = secs % 86400;
    let civil = civil_from_days(days);
    let h = tod / 3600;
    let mi = (tod % 3600) / 60;
    let s = tod % 60;
    let mut out = String::new();
    append_dec_u64_padded(&mut out, civil.year, 4);
    push_char(&mut out, '-');
    append_dec_u64_padded(&mut out, civil.month as u64, 2);
    push_char(&mut out, '-');
    append_dec_u64_padded(&mut out, civil.day as u64, 2);
    push_char(&mut out, 'T');
    append_dec_u64_padded(&mut out, h, 2);
    push_char(&mut out, ':');
    append_dec_u64_padded(&mut out, mi, 2);
    push_char(&mut out, ':');
    append_dec_u64_padded(&mut out, s, 2);
    push_char(&mut out, 'Z');
    proof {
        assert(out@ =~= spec_rfc3339_of_seconds(secs as int));
    }
    out
}

/// Seconds between 1601-01-01T00:00:00Z and 1970-01-01T00:00:00Z.
pub const UNIX_EPOCH_OFFSET_SECONDS: u64 = 11644473600;

/// Anything that renders as an RFC 3339 timestamp.
pub trait ToRfc3339 {
    fn to_rfc3339(&self) -> String;
}

/// A timestamp column value: 100-nanosecond ticks since 1601-01-01T00:00:00Z.
/// Holds a non-negative tick count by construction.
#[derive(Clone, Copy, PartialEq, Eq, Structural, Debug)]
pub struct WindowsFileTime {
    ticks: i64,
}

impl WindowsFileTime {
    /// The tick count is never negative.
    #[verifier::type_invariant]
    pub closed spec fn wf(self) -> bool {
        self.ticks >= 0
    }

    /// The tick count this value carries.
    pub closed spec fn spec_ticks(self) -> int {
        self.ticks as int
    }

    /// Seconds since 1601-01-01T00:00:00Z.
    pub open spec fn spec_seconds(self) -> int {
        self.spec_ticks() / 10000000
    }

    /// Accept a tick count; a negative count is out of range.
    pub fn from_ticks(ticks: i64) -> (r: Result<WindowsFileTime, Error>)
        ensures
            (ticks >= 0 ==> (r matches Ok(t) && t.spec_ticks() == ticks)),
            (ticks < 0 ==> (r matches Err(e) && e is IntegerConversionError)),
    {
        if ticks >= 0 {
            Ok(WindowsFileTime { ticks })
        } else {
            Err(Error::IntegerConversionError {
                value: i64_to_dec(ticks),
                intended_type: String::from_str("timestamp tick count"),
            })
        }
    }

    /// The tick count.
    pub fn ticks(&self) -> (r: i64)
        ensures
            r == self.spec_ticks(),
    {
        self.ticks
    }

    /// Seconds since 1970-01-01T00:00:00Z; negative before it.
    pub fn unix_timestamp(&self) -> (r: i64)
        ensures
            r == self.spec_seconds() - UNIX_EPOCH_OFFSET_SECONDS,
    {
        proof {
            use_type_invariant(self);
        }
        self.ticks / 10000000 - 11644473600
    }

    /// Render as `YYYY-MM-DDTHH:MM:SSZ`.
    pub fn rfc3339(&self) -> (r: String)
        ensures
            r@ == spec_rfc3339_of_seconds(self.spec_seconds()),
    {
        proof {
            use_type_invariant(self);
        }
        rfc3339_of_seconds((self.ticks / 10000000) as u64)
    }
}

impl ToRfc3339 for WindowsFileTime {
    fn to_rfc3339(&self) -> String {
        self.rfc3339()
    }
}

/// The record-time column value: 10-microsecond units since
/// 1601-01-01T00:00:00Z. Holds a non-negative unit count by construction.
#[derive(Clone, Copy, PartialEq, Eq, Structural, Debug)]
pub struct DatabaseTime {
    units: i64,
}

impl DatabaseTime {
    /// The unit count is never negative.
    #[verifier::type_invariant]
    pub closed spec fn wf(self) -> bool {
        self.units >= 0
    }

    /// The unit count this value carries.
    pub closed spec fn spec_units(self) -> int {
        self.units as int
    }

    /// Seconds since 1601-01-01T00:00:00Z.
    pub open spec fn spec_seconds(self) -> int {
        self.spec_units() / 100000
    }

    /// Accept a unit count; a negative count is out of range.
    pub fn from_units(units: i64) -> (r: Result<DatabaseTime, Error>)
        ensures
            (units >= 0 ==> (r matches Ok(t) && t.spec_units() == units)),
            (units < 0 ==> (r matches Err(e) && e is IntegerConversionError)),
    {
        if units >= 0 {
            Ok(DatabaseTime { units })
        } else {
            Err(Error::IntegerConversionError {
                value: i64_to_dec(units),
                intended_type: String::from_str("timestamp unit count"),
            })
        }
    }

    /// Seconds since 1970-01-01T00:00:00Z; negative before it.
    pub fn unix_timestamp(&self) -> (r: i64)
        ensures
            r == self.spec_seconds() - UNIX_EPOCH_OFFSET_SECONDS,
    {
        proof {
            use_type_invariant(self);
        }
        self.units / 100000 - 11644473600
    }

    /// Render as `YYYY-MM-DDTHH:MM:SSZ`.
    pub fn rfc3339(&self) -> (r: String)
        ensures
            r@ == spec_rfc3339_of_seconds(self.spec_seconds()),
    {
        proof {
            use_type_invariant(self);
        }
        rfc3339_of_seconds((self.units / 100000) as u64)
    }
}

impl ToRfc3339 for DatabaseTime {
    fn to_rfc3339(&self) -> String {
        self.rfc3339()
    }
}

/// Tick count zero is the epoch itself: it renders as 1601-01-01T00:00:00Z.
pub proof fn lemma_epoch_renders_as_origin()
    ensures
        spec_rfc3339_of_seconds(0) == "1601-01-01T00:00:00Z"@,
{
    reveal_strlit("1601-01-01T00:00:00Z");
    assert(spec_year_split(0, 1601) == (1601int, 0int));
    assert(spec_month_split(0, 1601, 1) == (1int, 0int));
    assert(spec_civil_from_days(0) == (1601int, 1int, 1int));
    assert(dec_of(1601) =~= seq!['1', '6', '0', '1']) by {
        reveal_with_fuel(dec_of, 5);
    }
    assert(dec_of(1) =~= seq!['1']) by {
        reveal_with_fuel(dec_of, 2);
    }
    assert(dec_of(0) =~= seq!['0']) by {
        reveal_with_fuel(dec_of, 2);
    }
    assert(spec_rfc3339_of_seconds(0) =~= "1601-01-01T00:00:00Z"@);
}

} // verus!
