//! The date, the time and fresh identities, as text.
use vstd::prelude::*;

use crate::text::is_digit;

verus! {

/// A date such as `2026-09-22` and a time such as `23-14-05`.
pub struct Stamp {
    pub date: String,
    pub time: String,
}

/// Whether two decimal digits stand at a place.
pub open spec fn two_digits(s: Seq<char>, at: int) -> bool {
    is_digit(s[at]) && is_digit(s[at + 1])
}

/// Whether a text is a year: four digits or more, which may have a sign before them.
pub open spec fn year_text(s: Seq<char>) -> bool {
    s.len() >= 4 && forall|i: int|
        0 <= i < s.len() ==> is_digit(#[trigger] s[i]) || i == 0 && (s[i] == '-' || s[i] == '+')
}

/// Whether a text is a date: the year, the month and the day with hyphens between them.
pub open spec fn date_text(s: Seq<char>) -> bool {
    let n = s.len() - 6;
    &&& n >= 4
    &&& year_text(s.take(n))
    &&& s[n] == '-' && two_digits(s, n + 1)
    &&& s[n + 3] == '-' && two_digits(s, n + 4)
}

/// Whether a text is a time: the hour, the minute and the second with hyphens between
/// them.
pub open spec fn time_text(s: Seq<char>) -> bool {
    &&& s.len() == 8
    &&& two_digits(s, 0) && s[2] == '-'
    &&& two_digits(s, 3) && s[5] == '-'
    &&& two_digits(s, 6)
}

/// Calls `chrono::Local::now` and formats the time as `%Y-%m-%d` and as
/// `%H-%M-%S`: digits with hyphens between them, with a sign before a year that
/// has not four digits. Which time it is depends on the clock.
#[verifier::external_body]
pub(crate) fn now_stamp() -> (r: Stamp)
    ensures
        date_text(r.date@),
        time_text(r.time@),
{
    let now = chrono::Local::now();
    Stamp { date: now.format("%Y-%m-%d").to_string(), time: now.format("%H-%M-%S").to_string() }
}

/// Whether a text is a time of day: the hour, the minute and the second with colons
/// between them.
pub open spec fn hour_text(s: Seq<char>) -> bool {
    &&& s.len() == 8
    &&& two_digits(s, 0) && s[2] == ':'
    &&& two_digits(s, 3) && s[5] == ':'
    &&& two_digits(s, 6)
}

/// Whether a text is a fraction of a second: nothing, or a point and three, six or nine
/// digits.
pub open spec fn fraction_text(s: Seq<char>) -> bool {
    s.len() == 0 || (s.len() == 4 || s.len() == 7 || s.len() == 10) && s[0] == '.' && forall|i: int|
        1 <= i < s.len() ==> is_digit(#[trigger] s[i])
}

/// Whether a text is the distance of a time zone from universal time: a sign, the hours
/// and the minutes with a colon between them.
pub open spec fn offset_text(s: Seq<char>) -> bool {
    &&& s.len() == 6
    &&& s[0] == '+' || s[0] == '-'
    &&& two_digits(s, 1) && s[3] == ':'
    &&& two_digits(s, 4)
}

/// An instant, written out of its parts.
pub open spec fn instant(
    date: Seq<char>,
    hour: Seq<char>,
    fraction: Seq<char>,
    offset: Seq<char>,
) -> Seq<char> {
    date + seq!['T'] + hour + fraction + offset
}

/// Whether a text is an instant: the date, the time of day and the time zone.
pub open spec fn instant_text(s: Seq<char>) -> bool {
    exists|date: Seq<char>, hour: Seq<char>, fraction: Seq<char>, offset: Seq<char>|
        date_text(date) && hour_text(hour) && fraction_text(fraction) && offset_text(offset) && s
            == #[trigger] instant(date, hour, fraction, offset)
}

/// Calls `chrono::Local::now` and `to_rfc3339`, which writes the date, the letter `T`, the
/// time with a fraction where the second is not whole, and the time zone. Which instant it
/// is depends on the clock.
#[verifier::external_body]
pub(crate) fn now_rfc3339() -> (r: String)
    ensures
        instant_text(r@),
{
    chrono::Local::now().to_rfc3339()
}

/// Whether a character is a hexadecimal digit, lower case, or a hyphen.
pub open spec fn in_id(c: char) -> bool {
    '0' <= c <= '9' || 'a' <= c <= 'f' || c == '-'
}

/// Whether a text is an identity: hexadecimal digits in five groups with hyphens between
/// them.
pub open spec fn id_text(s: Seq<char>) -> bool {
    &&& s.len() == 36
    &&& forall|i: int| 0 <= i < s.len() ==> in_id(#[trigger] s[i])
    &&& s[8] == '-' && s[13] == '-' && s[18] == '-' && s[23] == '-'
    &&& s[14] == '4'
}

/// Calls `uuid::Uuid::new_v4` and writes it in its usual form: 36 characters,
/// hexadecimal digits in lower case in five groups with hyphens between them, the
/// third of which begins with the version. Which digits is left to chance.
#[verifier::external_body]
pub(crate) fn new_id() -> (r: String)
    ensures
        id_text(r@),
{
    uuid::Uuid::new_v4().to_string()
}

} // verus!
