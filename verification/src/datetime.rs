//! The temporal value model: canonical date, time, datetime and duration
//! representations, constructed from byte strings via an external grammar
//! parser or from integer timestamps, and normalized into plain fields.

use vstd::prelude::*;
use vstd::math::abs;
use strum::EnumMessage;
use crate::errors::{ErrorKind, ValError, single_error_kind};

verus! {

/// A calendar date.
#[derive(Debug, Clone, Copy, PartialEq, Eq, Structural)]
pub struct RawDate {
    /// Year: four digits.
    pub year: u16,
    /// Month: 1 to 12.
    pub month: u8,
    /// Day: 1 to 28, 29, 30 or 31, depending on month and year.
    pub day: u8,
}

/// A time of day.
#[derive(Debug, Clone, Copy, PartialEq, Eq, Structural)]
pub struct RawTime {
    /// Hour: 0 to 23.
    pub hour: u8,
    /// Minute: 0 to 59.
    pub minute: u8,
    /// Second: 0 to 59.
    pub second: u8,
    /// Microsecond: 0 to 999999.
    pub microsecond: u32,
}

impl RawTime {
    /// Field ranges of a well-formed time of day.
    pub open spec fn wf(&self) -> bool {
        self.hour < 24 && self.minute < 60 && self.second < 60 && self.microsecond < 1_000_000
    }
}

/// A date with a time of day and an optional timezone offset in seconds.
/// An absent offset (a naive value) is distinct from a zero offset (UTC).
#[derive(Debug, Clone, Copy, PartialEq, Eq, Structural)]
pub struct RawDateTime {
    pub date: RawDate,
    pub time: RawTime,
    pub offset: Option<i32>,
}

/// A signed duration, stored as a sign flag and unsigned day, second-of-day
/// and microsecond magnitudes.
#[derive(Debug, Clone, Copy, PartialEq, Eq, Structural)]
pub struct RawDuration {
    /// Whether the duration is non-negative.
    pub positive: bool,
    /// Days: 0 to 999999999.
    pub day: u32,
    /// Second of day: 0 to 86399.
    pub second: u32,
    /// Microsecond: 0 to 999999.
    pub microsecond: u32,
}

impl RawDuration {
    /// Field ranges of a well-formed duration.
    pub open spec fn wf(&self) -> bool {
        self.day <= 999_999_999 && self.second < 86_400 && self.microsecond < 1_000_000
    }
}

/// The magnitude of a duration in microseconds.
pub open spec fn duration_total_microseconds(d: RawDuration) -> int {
    (d.day * 86_400 + d.second) * 1_000_000 + d.microsecond
}

/// The time of day reached `second` seconds and `microsecond` microseconds
/// after midnight, for `second < 86400` and `microsecond < 1000000`.
pub open spec fn time_of_seconds(second: int, microsecond: int) -> RawTime {
    RawTime {
        hour: (second / 3600) as u8,
        minute: ((second % 3600) / 60) as u8,
        second: (second % 60) as u8,
        microsecond: microsecond as u32,
    }
}

/// Whether `seconds` and `microseconds` are both nonzero with opposite signs,
/// which makes them meaningless as one duration.
pub open spec fn duration_signs_mismatch(seconds: int, microseconds: int) -> bool {
    seconds != 0 && microseconds != 0 && ((seconds > 0) != (microseconds > 0))
}

/// The day count that `seconds` and `microseconds` of one sign amount to.
pub open spec fn duration_day_count(seconds: int, microseconds: int) -> int {
    (abs(seconds) as int + abs(microseconds) as int / 1_000_000) / 86_400
}

/// The duration that `seconds` and `microseconds` of one sign amount to,
/// meaningful when its day count is at most 999999999.
pub open spec fn duration_from_parts(seconds: int, microseconds: int) -> RawDuration {
    let s2 = abs(seconds) as int + abs(microseconds) as int / 1_000_000;
    RawDuration {
        positive: seconds >= 0,
        day: (s2 / 86_400) as u32,
        second: (s2 % 86_400) as u32,
        microsecond: (abs(microseconds) as int % 1_000_000) as u32,
    }
}

/// The duration that the external normalizer builds from raw day, second and
/// microsecond values: microseconds carry into seconds, seconds into days.
pub open spec fn normalized_duration(positive: bool, day: int, second: int, microsecond: int) -> RawDuration {
    let s2 = second + microsecond / 1_000_000;
    RawDuration {
        positive,
        day: (day + s2 / 86_400) as u32,
        second: (s2 % 86_400) as u32,
        microsecond: (microsecond % 1_000_000) as u32,
    }
}

/// What the external grammar parses a date byte string to, if anything.
pub uninterp spec fn date_parse_of(bytes: Seq<u8>) -> Option<RawDate>;

/// What the external grammar parses a time byte string to, if anything.
pub uninterp spec fn time_parse_of(bytes: Seq<u8>) -> Option<RawTime>;

/// What the external grammar parses a datetime byte string to, if anything.
pub uninterp spec fn datetime_parse_of(bytes: Seq<u8>) -> Option<RawDateTime>;

/// What the external grammar parses a duration byte string to, if anything.
pub uninterp spec fn duration_parse_of(bytes: Seq<u8>) -> Option<RawDuration>;

/// The datetime that a unix timestamp plus a microsecond remainder denotes,
/// if it lies in the externally supported range.
pub uninterp spec fn datetime_of_timestamp(timestamp: int, microsecond: int) -> Option<RawDateTime>;

/// The canonical text form of a duration with the given sign and magnitudes.
pub uninterp spec fn duration_iso_of(positive: bool, day: int, second: int, microsecond: int) -> Seq<char>;

/// The diagnostic token of the external grammar for a parse failure.
#[verifier::external_type_specification]
#[verifier::external_body]
pub struct ExParseError(speedate::ParseError);

/// Relies on strum's `EnumMessage::get_documentation`, which speedate derives
/// on `ParseError`: the human-readable text of one diagnostic token.
#[verifier::external_body]
fn parse_error_message(e: &speedate::ParseError) -> String {
    e.get_documentation().unwrap_or_default().to_string()
}

/// Relies on speedate::Date::parse_bytes: `YYYY-MM-DD`, within documented
/// field ranges, or a diagnostic.
#[verifier::external_body]
fn parse_date_bytes(bytes: &[u8]) -> (r: Result<RawDate, speedate::ParseError>)
    ensures
        (r is Ok) == (date_parse_of(bytes@) is Some),
        (r matches Ok(d) ==> date_parse_of(bytes@) == Some(d)),
{
    match speedate::Date::parse_bytes(bytes) {
        Ok(d) => Ok(RawDate { year: d.year, month: d.month, day: d.day }),
        Err(e) => Err(e),
    }
}

/// Relies on speedate::Time::parse_bytes: `HH:MM`, `HH:MM:SS` and fractional
/// forms, within documented field ranges, or a diagnostic.
#[verifier::external_body]
fn parse_time_bytes(bytes: &[u8]) -> (r: Result<RawTime, speedate::ParseError>)
    ensures
        (r is Ok) == (time_parse_of(bytes@) is Some),
        (r matches Ok(t) ==> time_parse_of(bytes@) == Some(t) && t.wf()),
{
    match speedate::Time::parse_bytes(bytes) {
        Ok(t) => Ok(RawTime { hour: t.hour, minute: t.minute, second: t.second, microsecond: t.microsecond }),
        Err(e) => Err(e),
    }
}

/// Relies on speedate::DateTime::parse_bytes: an ISO-8601 datetime with an
/// optional timezone offset in seconds, or a diagnostic.
#[verifier::external_body]
fn parse_datetime_bytes(bytes: &[u8]) -> (r: Result<RawDateTime, speedate::ParseError>)
    ensures
        (r is Ok) == (datetime_parse_of(bytes@) is Some),
        (r matches Ok(dt) ==> datetime_parse_of(bytes@) == Some(dt) && dt.time.wf()),
{
    match speedate::DateTime::parse_bytes(bytes) {
        Ok(dt) => Ok(RawDateTime {
            date: RawDate { year: dt.date.year, month: dt.date.month, day: dt.date.day },
            time: RawTime {
                hour: dt.time.hour,
                minute: dt.time.minute,
                second: dt.time.second,
                microsecond: dt.time.microsecond,
            },
            offset: dt.offset,
        }),
        Err(e) => Err(e),
    }
}

/// Relies on speedate::Duration::parse_bytes: an ISO-8601 duration or the
/// `HH:MM:SS`-like forms, normalized to documented field ranges, or a
/// diagnostic.
#[verifier::external_body]
fn parse_duration_bytes(bytes: &[u8]) -> (r: Result<RawDuration, speedate::ParseError>)
    ensures
        (r is Ok) == (duration_parse_of(bytes@) is Some),
        (r matches Ok(d) ==> duration_parse_of(bytes@) == Some(d) && d.wf()),
{
    match speedate::Duration::parse_bytes(bytes) {
        Ok(d) => Ok(RawDuration { positive: d.positive, day: d.day, second: d.second, microsecond: d.microsecond }),
        Err(e) => Err(e),
    }
}

/// Relies on speedate::Time::from_timestamp: carries whole seconds out of the
/// microsecond argument, then fails exactly when the second count reaches one
/// day; on success the fields are the second count split at 3600 and 60.
#[verifier::external_body]
fn time_from_timestamp(timestamp_second: u32, timestamp_microsecond: u32) -> (r: Result<RawTime, speedate::ParseError>)
    ensures
        (r is Ok) == (timestamp_second + timestamp_microsecond / 1_000_000 < 86_400),
        (r matches Ok(t) ==> t == time_of_seconds(
            timestamp_second + timestamp_microsecond as int / 1_000_000,
            (timestamp_microsecond % 1_000_000) as int,
        )),
{
    match speedate::Time::from_timestamp(timestamp_second, timestamp_microsecond) {
        Ok(t) => Ok(RawTime { hour: t.hour, minute: t.minute, second: t.second, microsecond: t.microsecond }),
        Err(e) => Err(e),
    }
}

/// Relies on speedate::Duration::new: normalizes raw day, second and
/// microsecond values by carrying, and fails exactly when a carry overflows
/// `u32` or the day count exceeds 999999999.
#[verifier::external_body]
fn duration_new(positive: bool, day: u32, second: u32, microsecond: u32) -> (r: Result<RawDuration, speedate::ParseError>)
    ensures
        (r is Ok) == (second + microsecond / 1_000_000 <= u32::MAX
            && day + (second + microsecond / 1_000_000) / 86_400 <= 999_999_999),
        (r matches Ok(d) ==> d == normalized_duration(positive, day as int, second as int, microsecond as int)),
{
    match speedate::Duration::new(positive, day, second, microsecond) {
        Ok(d) => Ok(RawDuration { positive: d.positive, day: d.day, second: d.second, microsecond: d.microsecond }),
        Err(e) => Err(e),
    }
}

/// Relies on speedate::DateTime::from_timestamp: the documented
/// timestamp-to-datetime conversion, producing a value without an offset, or
/// a diagnostic outside the supported range.
#[verifier::external_body]
fn datetime_from_timestamp(timestamp: i64, timestamp_microsecond: u32) -> (r: Result<RawDateTime, speedate::ParseError>)
    ensures
        (r is Ok) == (datetime_of_timestamp(timestamp as int, timestamp_microsecond as int) is Some),
        (r matches Ok(dt) ==> datetime_of_timestamp(timestamp as int, timestamp_microsecond as int) == Some(dt)
            && dt.offset is None
            && dt.time.wf()),
{
    match speedate::DateTime::from_timestamp(timestamp, timestamp_microsecond) {
        Ok(dt) => Ok(RawDateTime {
            date: RawDate { year: dt.date.year, month: dt.date.month, day: dt.date.day },
            time: RawTime {
                hour: dt.time.hour,
                minute: dt.time.minute,
                second: dt.time.second,
                microsecond: dt.time.microsecond,
            },
            offset: dt.offset,
        }),
        Err(e) => Err(e),
    }
}

/// Relies on speedate's `Display` for `Duration`: the ISO-8601 text of a
/// duration, a function of its four fields alone, never empty.
#[verifier::external_body]
pub(crate) fn duration_to_iso(d: &RawDuration) -> (r: String)
    ensures
        r@ == duration_iso_of(d.positive, d.day as int, d.second as int, d.microsecond as int),
        r@.len() > 0,
{
    let sd = speedate::Duration {
        positive: d.positive,
        day: d.day,
        second: d.second,
        microsecond: d.microsecond,
    };
    sd.to_string()
}

/// Parses a date from bytes, or reports the grammar's diagnostic as a
/// date-parsing line error.
pub fn bytes_as_date(bytes: &[u8]) -> (r: Result<RawDate, ValError>)
    ensures
        (r is Ok) == (date_parse_of(bytes@) is Some),
        (r matches Ok(d) ==> date_parse_of(bytes@) == Some(d)),
        (r matches Err(e) ==> single_error_kind(e) matches Some(k) && k matches ErrorKind::DateParsing { .. }),
{
    match parse_date_bytes(bytes) {
        Ok(d) => Ok(d),
        Err(e) => Err(ValError::new(ErrorKind::DateParsing { error: parse_error_message(&e) })),
    }
}

/// Parses a time of day from bytes, or reports the grammar's diagnostic as a
/// time-parsing line error.
pub fn bytes_as_time(bytes: &[u8]) -> (r: Result<RawTime, ValError>)
    ensures
        (r is Ok) == (time_parse_of(bytes@) is Some),
        (r matches Ok(t) ==> time_parse_of(bytes@) == Some(t) && t.wf()),
        (r matches Err(e) ==> single_error_kind(e) matches Some(k) && k matches ErrorKind::TimeParsing { .. }),
{
    match parse_time_bytes(bytes) {
        Ok(t) => Ok(t),
        Err(e) => Err(ValError::new(ErrorKind::TimeParsing { error: parse_error_message(&e) })),
    }
}

/// Parses a datetime from bytes, or reports the grammar's diagnostic as a
/// datetime-parsing line error.
pub fn bytes_as_datetime(bytes: &[u8]) -> (r: Result<RawDateTime, ValError>)
    ensures
        (r is Ok) == (datetime_parse_of(bytes@) is Some),
        (r matches Ok(dt) ==> datetime_parse_of(bytes@) == Some(dt) && dt.time.wf()),
        (r matches Err(e) ==> single_error_kind(e) matches Some(k) && k matches ErrorKind::DateTimeParsing { .. }),
{
    match parse_datetime_bytes(bytes) {
        Ok(dt) => Ok(dt),
        Err(e) => Err(ValError::new(ErrorKind::DateTimeParsing { error: parse_error_message(&e) })),
    }
}

/// Parses a duration from bytes, or reports the grammar's diagnostic as a
/// duration-parsing line error.
pub fn bytes_as_timedelta(bytes: &[u8]) -> (r: Result<RawDuration, ValError>)
    ensures
        (r is Ok) == (duration_parse_of(bytes@) is Some),
        (r matches Ok(d) ==> duration_parse_of(bytes@) == Some(d) && d.wf()),
        (r matches Err(e) ==> single_error_kind(e) matches Some(k) && k matches ErrorKind::TimeDeltaParsing { .. }),
{
    match parse_duration_bytes(bytes) {
        Ok(d) => Ok(d),
        Err(e) => Err(ValError::new(ErrorKind::TimeDeltaParsing { error: parse_error_message(&e) })),
    }
}

/// Builds a datetime from an integer unix timestamp and a microsecond
/// remainder, or reports the grammar's diagnostic as a datetime-parsing
/// line error.
pub fn int_as_datetime(timestamp: i64, timestamp_microseconds: u32) -> (r: Result<RawDateTime, ValError>)
    ensures
        (r is Ok) == (datetime_of_timestamp(timestamp as int, timestamp_microseconds as int) is Some),
        (r matches Ok(dt) ==> datetime_of_timestamp(timestamp as int, timestamp_microseconds as int) == Some(dt)
            && dt.offset is None
            && dt.time.wf()),
        (r matches Err(e) ==> single_error_kind(e) matches Some(k) && k matches ErrorKind::DateTimeParsing { .. }),
{
    match datetime_from_timestamp(timestamp, timestamp_microseconds) {
        Ok(dt) => Ok(dt),
        Err(e) => Err(ValError::new(ErrorKind::DateTimeParsing { error: parse_error_message(&e) })),
    }
}

/// The timestamp clamped to the largest `u32` value, so that an oversized
/// second count is rejected by the one canonical range check.
pub open spec fn clamped_time_seconds(timestamp: int) -> int {
    if timestamp > u32::MAX { u32::MAX as int } else { timestamp }
}

/// Builds a time of day from a non-negative second count and a microsecond
/// remainder. Negative seconds are rejected outright; seconds beyond `u32`
/// are clamped first so that the range check reports them.
pub fn int_as_time(timestamp: i64, timestamp_microseconds: u32) -> (r: Result<RawTime, ValError>)
    ensures
        timestamp < 0 ==> (r matches Err(e) && single_error_kind(e) matches Some(k)
            && k matches ErrorKind::TimeParsing { error } && error@ == "time in seconds must be positive"@),
        timestamp >= 0 ==> (r is Ok) == (
            clamped_time_seconds(timestamp as int) + timestamp_microseconds / 1_000_000 < 86_400
        ),
        (r matches Ok(t) ==> timestamp >= 0 && t == time_of_seconds(
            clamped_time_seconds(timestamp as int) + timestamp_microseconds as int / 1_000_000,
            (timestamp_microseconds % 1_000_000) as int,
        )),
        timestamp >= 0 && r is Err ==> (r matches Err(e) && single_error_kind(e) matches Some(k)
            && k matches ErrorKind::TimeParsing { .. }),
{
    if timestamp < 0 {
        return Err(ValError::new(ErrorKind::TimeParsing {
            error: "time in seconds must be positive".to_owned(),
        }));
    }
    let t: u32 = if timestamp > u32::MAX as i64 { u32::MAX } else { timestamp as u32 };
    match time_from_timestamp(t, timestamp_microseconds) {
        Ok(time) => Ok(time),
        Err(e) => Err(ValError::new(ErrorKind::TimeParsing { error: parse_error_message(&e) })),
    }
}

/// Builds a duration from signed seconds and microseconds. The two must not
/// have opposite nonzero signs; the sign is taken from `seconds` (non-negative
/// when `seconds` is zero), and the magnitudes are stored normalized.
pub fn int_as_duration(seconds: i64, microseconds: i64) -> (r: Result<RawDuration, ErrorKind>)
    ensures
        (r is Ok) == (!duration_signs_mismatch(seconds as int, microseconds as int)
            && duration_day_count(seconds as int, microseconds as int) <= 999_999_999),
        (r matches Ok(d) ==> d == duration_from_parts(seconds as int, microseconds as int) && d.wf()),
        duration_signs_mismatch(seconds as int, microseconds as int)
            ==> (r matches Err(k) && k matches ErrorKind::TimeDeltaParsing { error }
                && error@ == "input is too short"@),
        !duration_signs_mismatch(seconds as int, microseconds as int)
            && duration_day_count(seconds as int, microseconds as int) > 999_999_999
            ==> (r matches Err(k) && k matches ErrorKind::TimeDeltaParsing { error }
                && error@ == "numeric times may not exceed 86,399 seconds"@),
{
    if seconds != 0 && microseconds != 0 && ((seconds > 0) != (microseconds > 0)) {
        return Err(ErrorKind::TimeDeltaParsing { error: "input is too short".to_owned() });
    }
    let positive = seconds >= 0;
    let s_abs: u64 = if seconds >= 0 { seconds as u64 } else { (-(seconds as i128)) as u64 };
    let m_abs: u64 = if microseconds >= 0 { microseconds as u64 } else { (-(microseconds as i128)) as u64 };
    proof {
        assert(s_abs == abs(seconds as int));
        assert(m_abs == abs(microseconds as int));
        vstd::arithmetic::div_mod::lemma_div_is_ordered(
            m_abs as int, 9_223_372_036_854_775_808, 1_000_000);
        vstd::arithmetic::div_mod::lemma_fundamental_div_mod_converse(
            9_223_372_036_854_775_808, 1_000_000, 9_223_372_036_854, 775_808);
    }
    let s2: u64 = s_abs + m_abs / 1_000_000;
    let m2: u32 = (m_abs % 1_000_000) as u32;
    let day: u64 = s2 / 86_400;
    if day > 999_999_999 {
        return Err(ErrorKind::TimeDeltaParsing {
            error: "numeric times may not exceed 86,399 seconds".to_owned(),
        });
    }
    let second: u32 = (s2 % 86_400) as u32;
    proof {
        vstd::arithmetic::div_mod::lemma_basic_div_specific_divisor(1_000_000);
        vstd::arithmetic::div_mod::lemma_basic_div_specific_divisor(86_400);
        vstd::arithmetic::div_mod::lemma_mod_bound(s2 as int, 86_400);
        vstd::arithmetic::div_mod::lemma_mod_bound(m_abs as int, 1_000_000);
        vstd::arithmetic::div_mod::lemma_small_mod(second as nat, 86_400);
        vstd::arithmetic::div_mod::lemma_small_mod(m2 as nat, 1_000_000);
        assert(second / 86_400 == 0 && m2 / 1_000_000 == 0);
    }
    match duration_new(positive, day as u32, second, m2) {
        Ok(d) => Ok(d),
        Err(_) => vstd::pervasive::unreached(),
    }
}

/// Law: for seconds and microseconds of one sign (or with one of them zero)
/// within the representable day range, the duration they build carries the
/// exact total magnitude in microseconds, and the sign of `seconds`.
pub proof fn lemma_duration_round_trip(seconds: int, microseconds: int)
    requires
        !duration_signs_mismatch(seconds, microseconds),
        duration_day_count(seconds, microseconds) <= 999_999_999,
    ensures
        duration_total_microseconds(duration_from_parts(seconds, microseconds))
            == abs(seconds) * 1_000_000 + abs(microseconds),
        duration_from_parts(seconds, microseconds).positive == (seconds >= 0),
{
    let a = abs(seconds) as int;
    let b = abs(microseconds) as int;
    let s2 = a + b / 1_000_000;
    vstd::arithmetic::div_mod::lemma_fundamental_div_mod(s2, 86_400);
    vstd::arithmetic::div_mod::lemma_fundamental_div_mod(b, 1_000_000);
    let d = duration_from_parts(seconds, microseconds);
    assert(0 <= s2 % 86_400 < 86_400 && 0 <= b % 1_000_000 < 1_000_000) by {
        vstd::arithmetic::div_mod::lemma_mod_bound(s2, 86_400);
        vstd::arithmetic::div_mod::lemma_mod_bound(b, 1_000_000);
    }
    assert(d.day == s2 / 86_400 && d.second == s2 % 86_400 && d.microsecond == b % 1_000_000);
    assert((s2 / 86_400 * 86_400 + s2 % 86_400) * 1_000_000 + b % 1_000_000
        == a * 1_000_000 + (b / 1_000_000 * 1_000_000 + b % 1_000_000)) by {
        assert(s2 / 86_400 * 86_400 + s2 % 86_400 == s2);
    }
}

/// Builds the duration that a host timedelta's normalized day, second and
/// microsecond fields denote: `days` may be negative, while `seconds` and
/// `microseconds` are non-negative remainders below one day and one second.
/// A negative total with a nonzero microsecond remainder is excluded: it
/// cannot be expressed with one sign.
pub fn timedelta_parts_as_duration(days: i64, seconds: i64, microseconds: i64) -> (r: RawDuration)
    requires
        -999_999_999 <= days <= 999_999_999,
        0 <= seconds < 86_400,
        0 <= microseconds < 1_000_000,
        days * 86_400 + seconds < 0 ==> microseconds == 0,
    ensures
        r == duration_from_parts(days * 86_400 + seconds, microseconds as int),
        r.wf(),
{
    proof {
        assert(-86_399_999_913_600 <= days * 86_400 <= 86_399_999_913_600) by (nonlinear_arith)
            requires
                -999_999_999 <= days <= 999_999_999,
        ;
    }
    let total: i64 = days * 86_400 + seconds;
    let r = int_as_duration(total, microseconds);
    proof {
        let t = total as int;
        let m = microseconds as int;
        assert(!duration_signs_mismatch(t, m));
        assert(abs(t) <= 86_399_999_999_999);
        assert(duration_day_count(t, m) <= 999_999_999) by {
            vstd::arithmetic::div_mod::lemma_basic_div_specific_divisor(1_000_000);
            assert(abs(m) / 1_000_000 == 0);
            vstd::arithmetic::div_mod::lemma_div_is_ordered(
                abs(t) as int, 86_399_999_999_999, 86_400);
            vstd::arithmetic::div_mod::lemma_fundamental_div_mod_converse(
                86_399_999_999_999, 86_400, 999_999_999, 86_399);
        }
    }
    match r {
        Ok(d) => d,
        Err(_) => vstd::pervasive::unreached(),
    }
}

/// Builds the datetime at midnight of `date`, without an offset.
pub fn date_as_datetime(date: &RawDate) -> (r: RawDateTime)
    ensures
        r == (RawDateTime {
            date: *date,
            time: RawTime { hour: 0, minute: 0, second: 0, microsecond: 0 },
            offset: None,
        }),
{
    RawDateTime {
        date: *date,
        time: RawTime { hour: 0, minute: 0, second: 0, microsecond: 0 },
        offset: None,
    }
}

/// The decimal digit character for `d` between 0 and 9.
pub open spec fn digit_char(d: int) -> char {
    if d == 0 { '0' } else if d == 1 { '1' } else if d == 2 { '2' } else if d == 3 { '3' }
    else if d == 4 { '4' } else if d == 5 { '5' } else if d == 6 { '6' } else if d == 7 { '7' }
    else if d == 8 { '8' } else { '9' }
}

/// The two-digit, zero-padded decimal text of `n` between 0 and 99.
pub open spec fn two_digits_seq(n: int) -> Seq<char> {
    seq![digit_char(n / 10), digit_char(n % 10)]
}

/// The text form of a timezone offset of `seconds`: `UTC` for zero, else a
/// sign and the whole hours and minutes of the magnitude, two digits each.
pub open spec fn offset_str_spec(seconds: int) -> Seq<char> {
    if seconds == 0 {
        seq!['U', 'T', 'C']
    } else {
        let mins = abs(seconds) as int / 60;
        (if seconds > 0 { seq!['+'] } else { seq!['-'] })
            + two_digits_seq(mins / 60) + seq![':'] + two_digits_seq(mins % 60)
    }
}

pub(crate) fn push_digit(s: &mut String, d: u32)
    requires
        d < 10,
    ensures
        final(s)@ == old(s)@.push(digit_char(d as int)),
{
    proof {
        reveal_strlit("0");
        reveal_strlit("1");
        reveal_strlit("2");
        reveal_strlit("3");
        reveal_strlit("4");
        reveal_strlit("5");
        reveal_strlit("6");
        reveal_strlit("7");
        reveal_strlit("8");
        reveal_strlit("9");
    }
    match d {
        0 => s.append("0"),
        1 => s.append("1"),
        2 => s.append("2"),
        3 => s.append("3"),
        4 => s.append("4"),
        5 => s.append("5"),
        6 => s.append("6"),
        7 => s.append("7"),
        8 => s.append("8"),
        _ => s.append("9"),
    }
    proof {
        assert(s@ =~= old(s)@.push(digit_char(d as int)));
    }
}

fn push_two_digits(s: &mut String, n: u32)
    requires
        n < 100,
    ensures
        final(s)@ == old(s)@ + two_digits_seq(n as int),
{
    push_digit(s, n / 10);
    push_digit(s, n % 10);
    proof {
        assert(s@ =~= old(s)@ + two_digits_seq(n as int));
    }
}

/// A fixed-offset timezone, held as whole seconds east of UTC, strictly
/// within one day either way. Built lazily, only when a raw datetime with an
/// offset is handed back to the host.
#[derive(Debug, Clone, Copy, PartialEq, Eq, Structural)]
pub struct TzInfo {
    seconds: i32,
}

impl TzInfo {
    /// The stored offset in seconds.
    pub closed spec fn spec_seconds(&self) -> int {
        self.seconds as int
    }

    /// The offset lies strictly within one day either way.
    pub closed spec fn wf(&self) -> bool {
        -86_400 < self.seconds < 86_400
    }

    pub fn new(seconds: i32) -> (r: TzInfo)
        requires
            -86_400 < seconds < 86_400,
        ensures
            r.spec_seconds() == seconds,
            r.wf(),
    {
        TzInfo { seconds }
    }

    /// The offset as a duration, as the host's offset accessor reports it.
    pub fn utcoffset(&self) -> (r: RawDuration)
        requires
            self.wf(),
        ensures
            r == duration_from_parts(self.spec_seconds(), 0),
    {
        proof {
            vstd::arithmetic::div_mod::lemma_basic_div_specific_divisor(86_400);
            vstd::arithmetic::div_mod::lemma_basic_div_specific_divisor(1_000_000);
        }
        match int_as_duration(self.seconds as i64, 0) {
            Ok(d) => d,
            Err(_) => vstd::pervasive::unreached(),
        }
    }

    /// A daylight-saving adjustment is never reported for a fixed offset.
    pub fn dst(&self) -> (r: Option<RawDuration>)
        ensures
            r is None,
    {
        None
    }

    /// The name of the timezone: its offset text.
    pub fn tzname(&self) -> (r: String)
        requires
            self.wf(),
        ensures
            r@ == offset_str_spec(self.spec_seconds()),
    {
        self.offset_string()
    }

    /// The description of the timezone: its offset text in parentheses.
    pub fn repr_string(&self) -> (r: String)
        requires
            self.wf(),
        ensures
            r@ == "TzInfo("@ + offset_str_spec(self.spec_seconds()) + ")"@,
    {
        let mut s = "TzInfo(".to_owned();
        let inner = self.offset_string();
        s.append(inner.as_str());
        s.append(")");
        proof {
            reveal_strlit("TzInfo(");
            reveal_strlit(")");
        }
        s
    }

    /// The offset text: `UTC` for a zero offset, else a signed `HH:MM` form
    /// computed from whole minutes.
    pub fn offset_string(&self) -> (r: String)
        requires
            self.wf(),
        ensures
            r@ == offset_str_spec(self.spec_seconds()),
    {
        if self.seconds == 0 {
            let mut s = String::new();
            s.append("UTC");
            proof {
                reveal_strlit("UTC");
                assert(s@ =~= offset_str_spec(self.spec_seconds()));
            }
            s
        } else {
            let mut s = String::new();
            if self.seconds > 0 {
                s.append("+");
                proof {
                    reveal_strlit("+");
                }
            } else {
                s.append("-");
                proof {
                    reveal_strlit("-");
                }
            }
            let s_abs: u32 = if self.seconds > 0 {
                self.seconds as u32
            } else {
                (-(self.seconds as i64)) as u32
            };
            let mins: u32 = s_abs / 60;
            push_two_digits(&mut s, mins / 60);
            s.append(":");
            push_two_digits(&mut s, mins % 60);
            proof {
                reveal_strlit(":");
                assert(s@ =~= offset_str_spec(self.spec_seconds()));
            }
            s
        }
    }
}

} // verus!
