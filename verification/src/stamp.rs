//! Times and identifiers.
use vstd::prelude::*;

#[allow(unused_imports)]
use crate::text::is_lower_hex;

verus! {

/// Whether a text has the shape of a time in UTC with milliseconds: three digits after a point,
/// and `Z` at the end.
pub open spec fn utc_millis(text: Seq<char>) -> bool {
    &&& text.len() >= 24
    &&& text[text.len() - 5] == '.'
    &&& '0' <= text[text.len() - 4] <= '9'
    &&& '0' <= text[text.len() - 3] <= '9'
    &&& '0' <= text[text.len() - 2] <= '9'
    &&& text.last() == 'Z'
}

/// Calls chrono's `Utc::now` and `DateTime::to_rfc3339_opts` with milliseconds and `Z`. The
/// contract claims the shape of the text; which time it is, the clock says.
#[verifier::external_body]
pub(crate) fn now() -> (text: String)
    ensures
        utc_millis(text@),
{
    chrono::Utc::now().to_rfc3339_opts(chrono::SecondsFormat::Millis, true)
}

/// Whether a text has the shape of a hyphenated UUID in lowercase.
pub open spec fn uuid_text(text: Seq<char>) -> bool {
    text.len() == 36 && forall|i: int|
        0 <= i < 36 ==> if i == 8 || i == 13 || i == 18 || i == 23 {
            (#[trigger] text[i]) == '-'
        } else {
            is_lower_hex(text[i])
        }
}

/// Calls uuid's `Uuid::now_v7` and prints the identifier with hyphens. The contract claims the
/// shape of the text; the clock and chance decide the rest.
#[verifier::external_body]
pub(crate) fn new_id() -> (id: String)
    ensures
        uuid_text(id@),
{
    uuid::Uuid::now_v7().to_string()
}

/// Whether a text is made of 32 lowercase hexadecimal digits.
pub open spec fn hex_id(text: Seq<char>) -> bool {
    text.len() == 32 && forall|i: int| 0 <= i < 32 ==> is_lower_hex(#[trigger] text[i])
}

/// Calls uuid's `Uuid::now_v7` and `Uuid::simple`, which prints the identifier without hyphens.
/// The contract claims the shape of the text; the clock and chance decide the rest.
#[verifier::external_body]
pub(crate) fn new_hex_id() -> (id: String)
    ensures
        hex_id(id@),
{
    uuid::Uuid::now_v7().simple().to_string()
}

/// The time of an RFC 3339 text at an offset from UTC in seconds, printed by a pattern; or why
/// the text is no such time.
pub uninterp spec fn time_at_offset(text: Seq<char>, offset: i32, pattern: Seq<char>) -> Result<
    Seq<char>,
    Seq<char>,
>;

/// Calls chrono's `DateTime::parse_from_rfc3339`, `with_timezone` and `format`. The contract names
/// the result as a function of the text, the offset and the pattern. A pattern that chrono does
/// not know makes printing panic, and an offset of a day or more is none; both are left out.
#[verifier::external_body]
fn shifted_time(text: &str, offset: i32, pattern: &str) -> (result: Result<String, String>)
    requires
        -86400 < offset < 86400,
        pattern@ == "%Y-%m-%d %H:%M:%S"@,
    ensures
        match result {
            Ok(time) => time_at_offset(text@, offset, pattern@) == Ok::<Seq<char>, Seq<char>>(
                time@,
            ),
            Err(reason) => time_at_offset(text@, offset, pattern@) == Err::<Seq<char>, Seq<char>>(
                reason@,
            ),
        },
{
    let zone = chrono::FixedOffset::east_opt(offset).unwrap();
    match chrono::DateTime::parse_from_rfc3339(text) {
        Ok(time) => Ok(time.with_timezone(&zone).format(pattern).to_string()),
        Err(error) => Err(error.to_string()),
    }
}

/// The time of an RFC 3339 text in China, eight hours ahead of UTC, to the second.
pub fn china_datetime(text: &str) -> (result: Result<String, String>)
    ensures
        match result {
            Ok(time) => time_at_offset(text@, 28800, "%Y-%m-%d %H:%M:%S"@) == Ok::<
                Seq<char>,
                Seq<char>,
            >(time@),
            Err(reason) => time_at_offset(text@, 28800, "%Y-%m-%d %H:%M:%S"@) == Err::<
                Seq<char>,
                Seq<char>,
            >(reason@),
        },
{
    shifted_time(text, 28800, "%Y-%m-%d %H:%M:%S")
}

} // verus!
