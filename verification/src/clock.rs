use vstd::prelude::*;

use crate::entry::ClipboardEntry;

verus! {

/// One decimal digit character.
pub open spec fn is_dec_digit(c: char) -> bool {
    c == '0' || c == '1' || c == '2' || c == '3' || c == '4' || c == '5' || c == '6' || c == '7'
        || c == '8' || c == '9'
}

/// The fixed textual form of a captured calendar date: the text ends in the
/// six characters `-MM-DD` with two-digit month and day fields, and before
/// them the year stands as digits, at least four of them, with a sign in
/// front only of a year outside 0 to 9999.
pub open spec fn is_date_token(s: Seq<char>) -> bool {
    &&& s.len() >= 10
    &&& s[s.len() - 6] == '-'
    &&& s[s.len() - 3] == '-'
    &&& is_dec_digit(s[s.len() - 5])
    &&& is_dec_digit(s[s.len() - 4])
    &&& is_dec_digit(s[s.len() - 2])
    &&& is_dec_digit(s[s.len() - 1])
    &&& forall|i: int| 0 < i < s.len() - 6 ==> is_dec_digit(#[trigger] s[i])
    &&& (is_dec_digit(s[0]) || s[0] == '+' || s[0] == '-')
}

/// The fixed textual form of a captured wall-clock time: exactly `HH:MM:SS`.
pub open spec fn is_time_token(s: Seq<char>) -> bool {
    &&& s.len() == 8
    &&& s[2] == ':'
    &&& s[5] == ':'
    &&& is_dec_digit(s[0])
    &&& is_dec_digit(s[1])
    &&& is_dec_digit(s[3])
    &&& is_dec_digit(s[4])
    &&& is_dec_digit(s[6])
    &&& is_dec_digit(s[7])
}

/// Relies on chrono::Local::now together with chrono::NaiveDate's textual
/// form (`YYYY-MM-DD`, with a sign and further year digits only outside
/// years 0 to 9999) and chrono's `%H:%M:%S` formatting (each field two
/// digits, zero-padded). Which moment the two texts name depends on the
/// clock, so only their shape is promised.
#[verifier::external_body]
fn local_date_time() -> (r: (String, String))
    ensures
        is_date_token(r.0@),
        is_time_token(r.1@),
{
    let now = chrono::Local::now();
    (now.date_naive().to_string(), now.time().format("%H:%M:%S").to_string())
}

/// Stamp one piece of clipboard text with the current local date and time,
/// in their fixed textual forms.
pub fn capture_entry(content: String) -> (e: ClipboardEntry)
    ensures
        e.content@ == content@,
        is_date_token(e.date@),
        is_time_token(e.time@),
{
    let (date, time) = local_date_time();
    ClipboardEntry { date, time, content }
}

} // verus!
