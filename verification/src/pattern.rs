//! Regular expressions.
use vstd::prelude::*;

verus! {

/// Why a text is no regular expression, where it is none.
pub uninterp spec fn pattern_error(pattern: Seq<char>) -> Option<Seq<char>>;

/// Whether a regular expression matches somewhere in a text; `None` where the pattern is none.
pub uninterp spec fn pattern_match(pattern: Seq<char>, text: Seq<char>) -> Option<bool>;

/// The pattern of project identifiers.
pub const PROJECT_ID_PATTERN: &'static str = "^[a-z0-9][a-z0-9-]{0,63}$";

/// The pattern of full repository names.
pub const REPOSITORY_PATTERN: &'static str = "^[A-Za-z0-9_.-]+/[A-Za-z0-9_.-]+$";

/// The pattern of package and program names.
pub const NAME_PATTERN: &'static str = "^[A-Za-z0-9][A-Za-z0-9_.-]*$";

/// Whether a character is a lowercase ASCII letter or a digit.
pub open spec fn lower_or_digit(c: char) -> bool {
    'a' <= c <= 'z' || '0' <= c <= '9'
}

/// Whether a character is an ASCII letter or a digit.
pub open spec fn letter_or_digit(c: char) -> bool {
    lower_or_digit(c) || 'A' <= c <= 'Z'
}

/// Whether a character may stand in a name: an ASCII letter, a digit, `_`, `.` or `-`.
pub open spec fn name_char(c: char) -> bool {
    letter_or_digit(c) || c == '_' || c == '.' || c == '-'
}

/// Whether a text is a project identifier: 1 to 64 lowercase letters, digits and hyphens, with no
/// hyphen first.
pub open spec fn project_id_text(text: Seq<char>) -> bool {
    &&& 1 <= text.len() <= 64
    &&& lower_or_digit(text[0])
    &&& forall|i: int| 0 <= i < text.len() ==> lower_or_digit(#[trigger] text[i]) || text[i] == '-'
}

/// Whether a text is made of name characters and not empty.
pub open spec fn name_chars(text: Seq<char>) -> bool {
    text.len() > 0 && forall|i: int| 0 <= i < text.len() ==> name_char(#[trigger] text[i])
}

/// Whether a text is a full repository name: two names with a slash between them.
pub open spec fn repository_text(text: Seq<char>) -> bool {
    exists|i: int|
        0 <= i < text.len() && (#[trigger] text[i]) == '/' && name_chars(text.take(i)) && name_chars(
            text.skip(i + 1),
        )
}

/// Whether a text is the name of a package or program: name characters, a letter or digit first.
pub open spec fn name_text(text: Seq<char>) -> bool {
    name_chars(text) && letter_or_digit(text[0])
}

/// Calls regex's `Regex::new` and prints the error, if any. The contract names the result as a
/// function of the pattern.
#[verifier::external_body]
pub(crate) fn invalid_pattern(pattern: &str) -> (error: Option<String>)
    ensures
        error.deep_view() == pattern_error(pattern@),
{
    match regex::Regex::new(pattern) {
        Ok(_) => None,
        Err(error) => Some(error.to_string()),
    }
}

/// Calls regex's `Regex::new` and `Regex::is_match`. The contract names the result as a function
/// of the pattern and the text, which there is none of exactly for an invalid pattern, and says
/// what the three patterns above match by regex's syntax: character classes of ASCII ranges,
/// repetitions, and anchors at the two ends of the text.
#[verifier::external_body]
pub(crate) fn matches_pattern(pattern: &str, text: &str) -> (matched: Option<bool>)
    ensures
        matched == pattern_match(pattern@, text@),
        matched is None <==> pattern_error(pattern@) is Some,
        pattern@ == PROJECT_ID_PATTERN@ ==> matched == Some(project_id_text(text@)),
        pattern@ == REPOSITORY_PATTERN@ ==> matched == Some(repository_text(text@)),
        pattern@ == NAME_PATTERN@ ==> matched == Some(name_text(text@)),
{
    match regex::Regex::new(pattern) {
        Ok(expression) => Some(expression.is_match(text)),
        Err(_) => None,
    }
}

/// Whether a tag matches a pattern; an invalid pattern matches nothing.
pub fn tag_matches(pattern: &str, tag: &str) -> (matched: bool)
    ensures
        matched == (pattern_match(pattern@, tag@) == Some(true)),
{
    match matches_pattern(pattern, tag) {
        Some(matched) => matched,
        None => false,
    }
}

/// Whether a text is a project identifier.
pub fn is_project_id(text: &str) -> (valid: bool)
    ensures
        valid == project_id_text(text@),
{
    match matches_pattern(PROJECT_ID_PATTERN, text) {
        Some(matched) => matched,
        None => false,
    }
}

/// Whether a text is a full repository name.
pub fn is_repository_name(text: &str) -> (valid: bool)
    ensures
        valid == repository_text(text@),
{
    match matches_pattern(REPOSITORY_PATTERN, text) {
        Some(matched) => matched,
        None => false,
    }
}

/// Whether a text is the name of a package or program.
pub fn is_name(text: &str) -> (valid: bool)
    ensures
        valid == name_text(text@),
{
    match matches_pattern(NAME_PATTERN, text) {
        Some(matched) => matched,
        None => false,
    }
}

} // verus!
