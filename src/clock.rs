use vstd::prelude::*;

use crate::text::{string_of, is_digit};

verus! {

/// A moment in UTC, as its calendar fields.
pub struct UtcTime {
    pub year: i32,
    pub month: u32,
    pub day: u32,
    pub hour: u32,
    pub minute: u32,
    pub second: u32,
    /// Nanoseconds since the whole second; from 1,000,000,000 on, the
    /// moment lies in a leap second.
    pub nanosecond: u32,
}

impl UtcTime {
    /// The fields lie in their calendar ranges.
    pub open spec fn wf(&self) -> bool {
        1 <= self.month <= 12 && 1 <= self.day <= 31 && self.hour < 24 && self.minute < 60
            && self.second < 60 && self.nanosecond < 2_000_000_000 && (self.nanosecond
            >= 1_000_000_000 ==> self.second == 59)
    }

    /// The second as a timestamp shows it: 60 within a leap second.
    pub open spec fn shown_second(&self) -> nat {
        (self.second + self.nanosecond / 1_000_000_000) as nat
    }
}

/// Relies on std's `SystemTime::now` and `SystemTime::duration_since`: the
/// whole seconds and the nanoseconds since 1970 began, or none where the
/// clock reads an earlier time.
#[verifier::external_body]
fn seconds_since_epoch() -> (r: Option<(u64, u32)>) {
    match std::time::SystemTime::now().duration_since(std::time::UNIX_EPOCH) {
        Ok(d) => Some((d.as_secs(), d.subsec_nanos())),
        Err(_) => None,
    }
}

/// Relies on chrono's `DateTime::<Utc>::from_timestamp`, none for a moment it
/// cannot represent, and on the `Datelike` / `Timelike` accessors, which give
/// the month in 1..=12, the day in 1..=31, the hour in 0..=23, the minute and
/// the second in 0..=59, and the nanosecond below 2,000,000,000, at or above
/// 1,000,000,000 only in a leap second, whose second is 59.
#[verifier::external_body]
fn utc_fields(secs: i64, nanos: u32) -> (r: Option<UtcTime>)
    ensures
        r matches Some(t) ==> t.wf(),
{
    match chrono::DateTime::<chrono::Utc>::from_timestamp(secs, nanos) {
        Some(now) => Some(UtcTime {
            year: chrono::Datelike::year(&now),
            month: chrono::Datelike::month(&now),
            day: chrono::Datelike::day(&now),
            hour: chrono::Timelike::hour(&now),
            minute: chrono::Timelike::minute(&now),
            second: chrono::Timelike::second(&now),
            nanosecond: chrono::Timelike::nanosecond(&now),
        }),
        None => None,
    }
}

/// The current moment in UTC, or none where the clock cannot be read as one.
fn utc_now() -> (r: Option<UtcTime>)
    ensures
        r matches Some(t) ==> t.wf(),
{
    match seconds_since_epoch() {
        Some((secs, nanos)) => {
            if secs <= i64::MAX as u64 {
                utc_fields(secs as i64, nanos)
            } else {
                None
            }
        },
        None => None,
    }
}

/// Whether `y` is a leap year of the Gregorian calendar.
pub open spec fn is_leap_year(y: int) -> bool {
    (y % 4 == 0 && y % 100 != 0) || y % 400 == 0
}

/// Whether month `m` of year `y` has a day `d`.
pub open spec fn is_calendar_date(y: int, m: int, d: int) -> bool {
    1 <= m <= 12 && 1 <= d && d <= if m == 2 {
        if is_leap_year(y) {
            29int
        } else {
            28int
        }
    } else if m == 4 || m == 6 || m == 9 || m == 11 {
        30int
    } else {
        31int
    }
}

/// Relies on chrono's `NaiveDate::from_ymd_opt` and `and_hms_nano_opt`, none
/// for a date or a time that does not exist, and on `format` with
/// `%Y%m%d%H%M%S`: the year as `%Y` writes it (four digits for the years 0 to
/// 9999, else a sign and at least four digits), then month, day, hour, minute
/// and second in two digits each, the second being 60 within a leap second.
#[verifier::external_body]
fn chrono_timestamp(t: &UtcTime) -> (r: Option<String>)
    ensures
        r matches Some(s) ==> s@ == timestamp(*t),
        t.wf() && 1 <= t.year <= 9999 && is_calendar_date(t.year as int, t.month as int, t.day as int)
            ==> r is Some,
{
    let date = match chrono::NaiveDate::from_ymd_opt(t.year, t.month, t.day) {
        Some(d) => d,
        None => return None,
    };
    match date.and_hms_nano_opt(t.hour, t.minute, t.second, t.nanosecond) {
        Some(dt) => Some(dt.format("%Y%m%d%H%M%S").to_string()),
        None => None,
    }
}

/// The character of a decimal digit.
pub open spec fn digit_char(d: int) -> char {
    ((d + 48) as u8) as char
}

/// The decimal digits of a natural number, without leading zeros.
pub open spec fn digits(n: nat) -> Seq<char>
    decreases n,
{
    if n < 10 {
        seq![digit_char(n as int)]
    } else {
        digits(n / 10) + seq![digit_char((n % 10) as int)]
    }
}

/// The decimal digits of `n`, with zeros in front up to `width` characters.
pub open spec fn padded(n: nat, width: nat) -> Seq<char> {
    if digits(n).len() >= width {
        digits(n)
    } else {
        Seq::new((width - digits(n).len()) as nat, |i: int| '0') + digits(n)
    }
}

/// An integer in decimal, with `-` in front of a negative one.
pub open spec fn decimal(n: int) -> Seq<char> {
    if n < 0 {
        seq!['-'] + digits((-n) as nat)
    } else {
        digits(n as nat)
    }
}

/// A year in a timestamp: four digits for the years 0 to 9999, else a sign
/// and at least four digits.
pub open spec fn year_field(y: int) -> Seq<char> {
    if 0 <= y <= 9999 {
        padded(y as nat, 4)
    } else if y < 0 {
        seq!['-'] + padded((-y) as nat, 4)
    } else {
        seq!['+'] + padded(y as nat, 4)
    }
}

/// The timestamp `YYYYMMDDhhmmss` of a moment.
pub open spec fn timestamp(t: UtcTime) -> Seq<char> {
    year_field(t.year as int) + padded(t.month as nat, 2) + padded(t.day as nat, 2) + padded(
        t.hour as nat,
        2,
    ) + padded(t.minute as nat, 2) + padded(t.shown_second(), 2)
}

/// The name under which an existing `LICENSE` is kept at moment `t`.
pub open spec fn backup_name(t: UtcTime) -> Seq<char> {
    "LICENSE.bak."@ + timestamp(t)
}

fn push_digits(n: u64, out: &mut Vec<char>)
    ensures
        final(out)@ == old(out)@ + digits(n as nat),
    decreases n,
{
    if n >= 10 {
        push_digits(n / 10, out);
    }
    let d: u8 = (n % 10) as u8;
    out.push((d + 48) as char);
    assert(final(out)@ =~= old(out)@ + digits(n as nat));
}

/// An integer in decimal, as `Display` writes it.
pub fn year_text(year: i32) -> (r: String)
    ensures
        r@ == decimal(year as int),
{
    let mut out: Vec<char> = Vec::new();
    if year < 0 {
        out.push('-');
        let m: u64 = (0 - (year as i64)) as u64;
        push_digits(m, &mut out);
    } else {
        push_digits(year as u64, &mut out);
    }
    assert(out@ =~= decimal(year as int));
    string_of(&out)
}

/// The name under which an existing `LICENSE` is kept at moment `t`; none
/// where `t` is no moment of the calendar.
pub fn backup_file_name(t: &UtcTime) -> (r: Option<String>)
    ensures
        r matches Some(s) ==> s@ == backup_name(*t),
        t.wf() && 1 <= t.year <= 9999 && is_calendar_date(t.year as int, t.month as int, t.day as int)
            ==> r is Some,
{
    match chrono_timestamp(t) {
        Some(stamp) => {
            let mut r = String::from_str("LICENSE.bak.");
            r.append(stamp.as_str());
            Some(r)
        },
        None => None,
    }
}

proof fn lemma_digits_are_digits(n: nat)
    ensures
        forall|k: int| 0 <= k < digits(n).len() ==> is_digit(#[trigger] digits(n)[k]),
        n < 10 ==> digits(n).len() == 1,
        10 <= n < 100 ==> digits(n).len() == 2,
        100 <= n < 1000 ==> digits(n).len() == 3,
        1000 <= n < 10000 ==> digits(n).len() == 4,
    decreases n,
{
    if n >= 10 {
        lemma_digits_are_digits(n / 10);
        let d = (n % 10) as int;
        assert(is_digit(digit_char(d)));
        assert forall|k: int| 0 <= k < digits(n).len() implies is_digit(#[trigger] digits(n)[k]) by {
            if k < digits(n / 10).len() {
                assert(digits(n)[k] == digits(n / 10)[k]);
            }
        }
    } else {
        assert(is_digit(digit_char(n as int)));
    }
}

proof fn lemma_padded_digits(n: nat, width: nat)
    requires
        width == 2 ==> n < 100,
        width == 4 ==> n < 10000,
        width == 2 || width == 4,
    ensures
        padded(n, width).len() == width,
        forall|k: int| 0 <= k < width ==> is_digit(#[trigger] padded(n, width)[k]),
{
    lemma_digits_are_digits(n);
    let p = padded(n, width);
    let zeros = (width - digits(n).len()) as nat;
    assert forall|k: int| 0 <= k < width implies is_digit(#[trigger] p[k]) by {
        if k >= zeros {
            assert(p[k] == digits(n)[k - zeros]);
        }
    }
}

/// For the years 0 to 9999, the timestamp in a backup name is fourteen
/// digits.
pub proof fn backup_timestamp_is_fourteen_digits(t: UtcTime)
    requires
        t.wf(),
        0 <= t.year <= 9999,
    ensures
        backup_name(t) == "LICENSE.bak."@ + timestamp(t),
        timestamp(t).len() == 14,
        forall|k: int| 0 <= k < 14 ==> is_digit(#[trigger] timestamp(t)[k]),
{
    lemma_padded_digits(t.year as nat, 4);
    lemma_padded_digits(t.month as nat, 2);
    lemma_padded_digits(t.day as nat, 2);
    lemma_padded_digits(t.hour as nat, 2);
    lemma_padded_digits(t.minute as nat, 2);
    assert(t.shown_second() < 100);
    lemma_padded_digits(t.shown_second(), 2);
    let s = timestamp(t);
    let y = padded(t.year as nat, 4);
    let mo = padded(t.month as nat, 2);
    let d = padded(t.day as nat, 2);
    let h = padded(t.hour as nat, 2);
    let mi = padded(t.minute as nat, 2);
    let se = padded(t.shown_second(), 2);
    assert forall|k: int| 0 <= k < 14 implies is_digit(#[trigger] s[k]) by {
        if k < 4 {
            assert(s[k] == y[k]);
        } else if k < 6 {
            assert(s[k] == mo[k - 4]);
        } else if k < 8 {
            assert(s[k] == d[k - 6]);
        } else if k < 10 {
            assert(s[k] == h[k - 8]);
        } else if k < 12 {
            assert(s[k] == mi[k - 10]);
        } else {
            assert(s[k] == se[k - 12]);
        }
    }
}

/// The current year in UTC, in decimal; none where the clock cannot be read.
pub fn get_current_year() -> (r: Option<String>)
    ensures
        r matches Some(s) ==> exists|t: UtcTime| t.wf() && s@ == decimal(t.year as int),
{
    match utc_now() {
        Some(now) => Some(year_text(now.year)),
        None => None,
    }
}

/// The name under which an existing `LICENSE` is kept, now; none where the
/// clock cannot be read as a moment of the calendar.
pub fn current_backup_name() -> (r: Option<String>)
    ensures
        r matches Some(s) ==> exists|t: UtcTime| t.wf() && s@ == backup_name(t),
{
    match utc_now() {
        Some(now) => backup_file_name(&now),
        None => None,
    }
}

} // verus!
