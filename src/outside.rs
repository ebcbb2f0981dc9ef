//! Calls into outside crates, each behind a contract.

use vstd::prelude::*;

use chrono::Datelike;

verus! {

/// Whether `c` has a meaning of its own in a regular expression.
pub open spec fn is_regex_meta(c: char) -> bool {
    c == '\\' || c == '.' || c == '+' || c == '*' || c == '?' || c == '(' || c == ')' || c == '|'
        || c == '[' || c == ']' || c == '{' || c == '}' || c == '^' || c == '$' || c == '#' || c == '&'
        || c == '-' || c == '~'
}

/// `s` with a backslash put before each meta character.
pub open spec fn regex_escaped(s: Seq<char>) -> Seq<char>
    decreases s.len(),
{
    if s.len() == 0 {
        Seq::empty()
    } else {
        regex_escaped(s.drop_last()) + if is_regex_meta(s.last()) {
            seq!['\\', s.last()]
        } else {
            seq![s.last()]
        }
    }
}

/// Relies on regex::escape: every meta character is prefixed with a backslash,
/// every other character is kept.
#[verifier::external_body]
pub(crate) fn escape_regex(s: &str) -> (r: String)
    ensures
        r@ == regex_escaped(s@),
{
    regex::escape(s)
}

pub open spec fn is_hex_digit(c: char) -> bool {
    ('0' <= c && c <= '9') || ('a' <= c && c <= 'f') || ('A' <= c && c <= 'F')
}

/// Whether `s` is the text of an object id: 24 hexadecimal digits.
pub open spec fn is_object_id_text(s: Seq<char>) -> bool {
    s.len() == 24 && forall|i: int| 0 <= i < s.len() ==> is_hex_digit(#[trigger] s[i])
}

pub open spec fn lower_hex_digit(c: char) -> char {
    if 'A' <= c && c <= 'F' {
        ((c as u32) + 32) as char
    } else {
        c
    }
}

/// Relies on bson's ObjectId::parse_str, which accepts exactly 24 hexadecimal digits,
/// and ObjectId::to_hex, which writes the 12 bytes back in lower-case digits.
#[verifier::external_body]
pub(crate) fn object_id_hex(s: &str) -> (r: Option<String>)
    ensures
        r is Some <==> is_object_id_text(s@),
        r matches Some(h) ==> h@ == s@.map_values(|c: char| lower_hex_digit(c)),
{
    bson::oid::ObjectId::parse_str(s).ok().map(|o| o.to_hex())
}

/// Year, month and day that chrono reads from `s` with the format `%Y-%m-%d`.
pub uninterp spec fn parsed_date(s: Seq<char>) -> Option<(int, int, int)>;

/// Whether year, month and day name a day of the proleptic Gregorian calendar.
pub open spec fn is_leap_year(y: int) -> bool {
    (y % 4 == 0 && y % 100 != 0) || y % 400 == 0
}

pub open spec fn days_in_month(y: int, m: int) -> int {
    if m == 2 {
        if is_leap_year(y) {
            29
        } else {
            28
        }
    } else if m == 4 || m == 6 || m == 9 || m == 11 {
        30
    } else {
        31
    }
}

/// A calendar day within the years chrono represents.
pub open spec fn is_valid_ymd(y: int, m: int, d: int) -> bool {
    &&& -262143 <= y <= 262142
    &&& 1 <= m <= 12
    &&& 1 <= d <= days_in_month(y, m)
}

/// Relies on chrono's NaiveDate::parse_from_str with the format `%Y-%m-%d`; a date
/// that chrono returns is a valid day of its calendar range.
#[verifier::external_body]
pub(crate) fn parse_date(s: &str) -> (r: Option<(i32, u32, u32)>)
    ensures
        r matches Some((y, m, d)) ==> parsed_date(s@) == Some((y as int, m as int, d as int))
            && is_valid_ymd(y as int, m as int, d as int),
        r is None ==> parsed_date(s@) is None,
{
    chrono::NaiveDate::parse_from_str(s, "%Y-%m-%d").ok().map(|d| (d.year(), d.month(), d.day()))
}

/// The instant at 00:00:00 UTC of a calendar day, in milliseconds since the
/// Unix epoch, as chrono computes it.
pub uninterp spec fn day_start_millis(y: int, m: int, d: int) -> int;

/// Relies on chrono's NaiveDate::from_ymd_opt, which gives a date for every valid
/// day of its year range, then NaiveDate::and_hms_opt at midnight, taken in UTC,
/// and DateTime::timestamp_millis.
#[verifier::external_body]
pub(crate) fn day_start(y: i32, m: u32, d: u32) -> (r: i64)
    requires
        is_valid_ymd(y as int, m as int, d as int),
    ensures
        r as int == day_start_millis(y as int, m as int, d as int),
{
    chrono::NaiveDate::from_ymd_opt(y, m, d).unwrap().and_hms_opt(0, 0, 0).unwrap().and_utc().timestamp_millis()
}

/// The instant that chrono reads from an RFC 3339 text, as milliseconds since the
/// Unix epoch in UTC.
pub uninterp spec fn rfc3339_millis(s: Seq<char>) -> Option<int>;

/// Relies on chrono's DateTime::parse_from_rfc3339, then DateTime::timestamp_millis
/// of the instant in UTC.
#[verifier::external_body]
pub(crate) fn parse_datetime_millis(s: &str) -> (r: Option<i64>)
    ensures
        r matches Some(ms) ==> rfc3339_millis(s@) == Some(ms as int),
        r is None ==> rfc3339_millis(s@) is None,
{
    chrono::DateTime::parse_from_rfc3339(s).ok().map(|d| d.with_timezone(&chrono::Utc).timestamp_millis())
}

/// The canonical text of the decimal that rust_decimal reads from `s`.
pub uninterp spec fn decimal_text(s: Seq<char>) -> Option<Seq<char>>;

/// Relies on rust_decimal's Decimal::from_str and its Display.
#[verifier::external_body]
pub(crate) fn parse_decimal(s: &str) -> (r: Option<String>)
    ensures
        r matches Some(t) ==> decimal_text(s@) == Some(t@),
        r is None ==> decimal_text(s@) is None,
{
    <rust_decimal::Decimal as std::str::FromStr>::from_str(s).ok().map(|d| d.to_string())
}

/// The plural that Inflector forms of a word.
pub uninterp spec fn plural_of(s: Seq<char>) -> Seq<char>;

/// Relies on inflector's string::pluralize::to_plural.
#[verifier::external_body]
pub(crate) fn to_plural(s: &str) -> (r: String)
    ensures
        r@ == plural_of(s@),
{
    inflector::string::pluralize::to_plural(s)
}

/// The kebab-case form that Inflector gives a name.
pub uninterp spec fn kebab_of(s: Seq<char>) -> Seq<char>;

/// Relies on inflector's cases::kebabcase::to_kebab_case.
#[verifier::external_body]
pub(crate) fn to_kebab_case(s: &str) -> (r: String)
    ensures
        r@ == kebab_of(s@),
{
    inflector::cases::kebabcase::to_kebab_case(s)
}

/// The lower-case form of a text under Unicode's rules.
pub uninterp spec fn lower_of(s: Seq<char>) -> Seq<char>;

/// Relies on str::to_lowercase, whose result depends on the characters alone.
#[verifier::external_body]
pub(crate) fn to_lowercase(s: &str) -> (r: String)
    ensures
        r@ == lower_of(s@),
{
    s.to_lowercase()
}

} // verus!
