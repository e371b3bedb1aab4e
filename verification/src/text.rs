//! Text helpers: building messages, comparing strings, and printing numbers.
use vstd::prelude::*;

pub mod laws;

verus! {

/// The text that Rust's `{:?}` prints for a string: its characters in double quotes, with
/// quotes, backslashes and unprintable characters escaped.
pub uninterp spec fn str_debug(text: Seq<char>) -> Seq<char>;

/// Calls std's `Debug` formatting of `str`. The contract names its result as a function of the
/// characters alone; which characters are escaped, and how, is left to std.
#[verifier::external_body]
pub(crate) fn debug_text(text: &str) -> (quoted: String)
    ensures
        quoted@ == str_debug(text@),
{
    format!("{:?}", text)
}

/// The characters of a string, in order.
pub fn chars_of(text: &str) -> (chars: Vec<char>)
    ensures
        chars@ == text@,
{
    let mut chars: Vec<char> = Vec::new();
    for c in it: text.chars()
        invariant
            chars@ == it.seq().take(it.index() as int),
    {
        chars.push(c);
    }
    chars
}

/// Whether two strings hold the same characters.
pub fn text_eq(left: &str, right: &str) -> (equal: bool)
    ensures
        equal == (left@ == right@),
{
    left.to_owned() == right.to_owned()
}

/// Whether two optional strings are both absent, or both present with the same characters.
pub fn opt_text_eq(left: &Option<String>, right: &Option<String>) -> (equal: bool)
    ensures
        equal == (left.deep_view() == right.deep_view()),
{
    match (left, right) {
        (Some(a), Some(b)) => text_eq(a.as_str(), b.as_str()),
        (None, None) => true,
        _ => false,
    }
}

/// A copy of an optional string.
pub fn opt_text_copy(value: &Option<String>) -> (copy: Option<String>)
    ensures
        copy == *value,
{
    match value {
        Some(text) => Some(text.clone()),
        None => None,
    }
}

/// A copy of a list of strings.
pub fn texts_copy(values: &Vec<String>) -> (copy: Vec<String>)
    ensures
        copy@ == values@,
        copy.deep_view() == values.deep_view(),
{
    let mut copy: Vec<String> = Vec::new();
    let mut i: usize = 0;
    while i < values.len()
        invariant
            i <= values.len(),
            copy@ == values@.take(i as int),
        decreases values.len() - i,
    {
        copy.push(values[i].clone());
        i += 1;
    }
    assert(copy@ == values@);
    assert(copy.deep_view() =~= values.deep_view());
    copy
}

/// The strings of a slice as an owned list.
pub fn text_list(parts: &[&str]) -> (list: Vec<String>)
    ensures
        list.deep_view() == parts@.map_values(|part: &str| part@),
{
    let mut list: Vec<String> = Vec::new();
    let mut i: usize = 0;
    while i < parts.len()
        invariant
            i <= parts.len(),
            list.len() == i,
            forall|j: int| 0 <= j < i ==> (#[trigger] list[j])@ == parts@[j]@,
        decreases parts.len() - i,
    {
        list.push(parts[i].to_owned());
        i += 1;
    }
    assert(list.deep_view() =~= parts@.map_values(|part: &str| part@));
    list
}

/// Two strings, one after the other.
pub fn cat2(a: &str, b: &str) -> (text: String)
    ensures
        text@ == a@ + b@,
{
    let mut text = a.to_owned();
    text.append(b);
    text
}

/// Three strings, one after the other.
pub fn cat3(a: &str, b: &str, c: &str) -> (text: String)
    ensures
        text@ == a@ + b@ + c@,
{
    let mut text = cat2(a, b);
    text.append(c);
    text
}

/// Four strings, one after the other.
pub fn cat4(a: &str, b: &str, c: &str, d: &str) -> (text: String)
    ensures
        text@ == a@ + b@ + c@ + d@,
{
    let mut text = cat3(a, b, c);
    text.append(d);
    text
}

/// Five strings, one after the other.
pub fn cat5(a: &str, b: &str, c: &str, d: &str, e: &str) -> (text: String)
    ensures
        text@ == a@ + b@ + c@ + d@ + e@,
{
    let mut text = cat4(a, b, c, d);
    text.append(e);
    text
}

/// Six strings, one after the other.
pub fn cat6(a: &str, b: &str, c: &str, d: &str, e: &str, f: &str) -> (text: String)
    ensures
        text@ == a@ + b@ + c@ + d@ + e@ + f@,
{
    let mut text = cat5(a, b, c, d, e);
    text.append(f);
    text
}

/// The character of a decimal (or octal) digit.
pub open spec fn digit_char(digit: nat) -> char {
    (('0' as u32) + digit) as char
}

fn digit_text(digit: u64) -> (text: &'static str)
    requires
        digit < 10,
    ensures
        text@ == seq![digit_char(digit as nat)],
{
    proof {
        reveal_strlit("0");
        reveal_strlit("1");
        reveal_strlit("2");
        reveal_strlit("3");
        reveal_strlit("4");
        reveal_strlit("5");
        reveal_strlit("6");
        reveal_strlit("7");
        reveal_strlit("8");
        reveal_strlit("9");
    }
    let text: &'static str = if digit == 0 {
        "0"
    } else if digit == 1 {
        "1"
    } else if digit == 2 {
        "2"
    } else if digit == 3 {
        "3"
    } else if digit == 4 {
        "4"
    } else if digit == 5 {
        "5"
    } else if digit == 6 {
        "6"
    } else if digit == 7 {
        "7"
    } else if digit == 8 {
        "8"
    } else {
        "9"
    };
    assert(text@ =~= seq![digit_char(digit as nat)]);
    text
}

/// The decimal digits of a number, without leading zeros.
pub open spec fn decimal(number: nat) -> Seq<char>
    decreases number,
{
    if number < 10 {
        seq![digit_char(number)]
    } else {
        decimal(number / 10).push(digit_char(number % 10))
    }
}

/// Prints a number in decimal.
pub fn decimal_text(number: u64) -> (text: String)
    ensures
        text@ == decimal(number as nat),
    decreases number,
{
    if number < 10 {
        digit_text(number).to_owned()
    } else {
        let mut text = decimal_text(number / 10);
        text.append(digit_text(number % 10));
        assert(text@ =~= decimal((number / 10) as nat).push(digit_char((number % 10) as nat)));
        text
    }
}

/// The decimal digits of an integer, after a minus sign where it is negative.
pub open spec fn signed_decimal(number: int) -> Seq<char> {
    if number < 0 {
        "-"@ + decimal((-number) as nat)
    } else {
        decimal(number as nat)
    }
}

/// Prints an integer in decimal.
pub fn signed_decimal_text(number: i64) -> (text: String)
    ensures
        text@ == signed_decimal(number as int),
{
    if number < 0 {
        let magnitude: u64 = (-(number as i128)) as u64;
        cat2("-", decimal_text(magnitude).as_str())
    } else {
        decimal_text(number as u64)
    }
}

/// The text that `{:?}` prints for an optional exit status.
pub open spec fn exit_status_debug(status: Option<i32>) -> Seq<char> {
    match status {
        Some(code) => "Some("@ + signed_decimal(code as int) + ")"@,
        None => "None"@,
    }
}

/// Prints an optional exit status as `{:?}` does.
pub fn exit_status_text(status: Option<i32>) -> (text: String)
    ensures
        text@ == exit_status_debug(status),
{
    match status {
        Some(code) => cat3("Some(", signed_decimal_text(code as i64).as_str(), ")"),
        None => "None".to_owned(),
    }
}

/// Three permission digits in octal, padded with zeros to a width of four.
pub open spec fn mode_octal(mode: nat) -> Seq<char> {
    seq!['0', digit_char(mode / 64), digit_char(mode / 8 % 8), digit_char(mode % 8)]
}

/// Prints permission bits as `{:04o}` does.
pub fn mode_octal_text(mode: u32) -> (text: String)
    requires
        mode < 512,
    ensures
        text@ == mode_octal(mode as nat),
{
    let text = cat4(
        "0",
        digit_text((mode / 64) as u64),
        digit_text((mode / 8 % 8) as u64),
        digit_text((mode % 8) as u64),
    );
    proof {
        reveal_strlit("0");
    }
    assert(text@ =~= mode_octal(mode as nat));
    text
}

/// The texts of a list, with a separator between each two neighbours.
pub open spec fn joined(parts: Seq<Seq<char>>, separator: Seq<char>) -> Seq<char>
    decreases parts.len(),
{
    if parts.len() == 0 {
        Seq::empty()
    } else if parts.len() == 1 {
        parts[0]
    } else {
        joined(parts.drop_last(), separator) + separator + parts.last()
    }
}

/// Joins the strings of a list with a separator.
pub fn join_texts(parts: &Vec<String>, separator: &str) -> (text: String)
    ensures
        text@ == joined(parts.deep_view(), separator@),
{
    let mut text = String::new();
    let mut i: usize = 0;
    while i < parts.len()
        invariant
            i <= parts.len(),
            text@ == joined(parts.deep_view().take(i as int), separator@),
        decreases parts.len() - i,
    {
        if i > 0 {
            text.append(separator);
        }
        text.append(parts[i].as_str());
        assert(parts.deep_view().take(i + 1).drop_last() =~= parts.deep_view().take(i as int));
        if i == 0 {
            assert(text@ =~= parts.deep_view()[0]);
        }
        i += 1;
    }
    assert(parts.deep_view().take(i as int) =~= parts.deep_view());
    text
}

/// Whether a text begins with another.
pub open spec fn begins_with(text: Seq<char>, prefix: Seq<char>) -> bool {
    prefix.len() <= text.len() && text.take(prefix.len() as int) == prefix
}

/// Whether a text ends with another.
pub open spec fn ends_with(text: Seq<char>, suffix: Seq<char>) -> bool {
    suffix.len() <= text.len() && text.skip(text.len() - suffix.len()) == suffix
}

/// What follows a prefix, where the text has that prefix.
pub fn strip_prefix(text: &str, prefix: &str) -> (rest: Option<String>)
    ensures
        rest is Some <==> begins_with(text@, prefix@),
        rest matches Some(rest) ==> rest@ == text@.skip(prefix@.len() as int),
{
    let text_len: usize = text.unicode_len();
    let prefix_len: usize = prefix.unicode_len();
    if prefix_len <= text_len && text_eq(text.substring_char(0, prefix_len), prefix) {
        assert(text@.subrange(0, prefix_len as int) =~= text@.take(prefix_len as int));
        let rest = text.substring_char(prefix_len, text_len);
        assert(rest@ =~= text@.skip(prefix_len as int));
        Some(rest.to_owned())
    } else {
        assert(prefix_len <= text_len ==> text@.subrange(0, prefix_len as int) =~= text@.take(
            prefix_len as int,
        ));
        None
    }
}

/// Whether a string ends with another.
pub fn has_suffix(text: &str, suffix: &str) -> (found: bool)
    ensures
        found == ends_with(text@, suffix@),
{
    let text_len: usize = text.unicode_len();
    let suffix_len: usize = suffix.unicode_len();
    if suffix_len <= text_len {
        let tail = text.substring_char(text_len - suffix_len, text_len);
        assert(tail@ =~= text@.skip(text_len - suffix_len));
        text_eq(tail, suffix)
    } else {
        false
    }
}

/// The code points of Unicode's control category.
pub open spec fn is_control(c: char) -> bool {
    (c as u32) <= 0x1f || 0x7f <= (c as u32) <= 0x9f
}

/// Whether a text holds a control character.
pub open spec fn has_control(text: Seq<char>) -> bool {
    exists|i: int| 0 <= i < text.len() && is_control(#[trigger] text[i])
}

/// Whether a string holds a control character.
pub fn contains_control(text: &str) -> (found: bool)
    ensures
        found == has_control(text@),
{
    let chars = chars_of(text);
    let mut i: usize = 0;
    while i < chars.len()
        invariant
            i <= chars.len(),
            chars@ == text@,
            forall|j: int| 0 <= j < i ==> !is_control(#[trigger] text@[j]),
        decreases chars.len() - i,
    {
        let code: u32 = chars[i] as u32;
        if code <= 0x1f || (0x7f <= code && code <= 0x9f) {
            assert(is_control(text@[i as int]));
            return true;
        }
        i += 1;
    }
    false
}

/// Whether a character is a lowercase hexadecimal digit.
pub open spec fn is_lower_hex(c: char) -> bool {
    '0' <= c <= '9' || 'a' <= c <= 'f'
}

/// Whether a character is a hexadecimal digit.
pub open spec fn is_hex(c: char) -> bool {
    is_lower_hex(c) || 'A' <= c <= 'F'
}

/// Whether a text is a Git object identifier: 40 hexadecimal digits.
pub open spec fn object_id(text: Seq<char>) -> bool {
    text.len() == 40 && forall|i: int| 0 <= i < text.len() ==> is_hex(#[trigger] text[i])
}

/// Whether a text is a Git object identifier in lowercase.
pub open spec fn lower_object_id(text: Seq<char>) -> bool {
    text.len() == 40 && forall|i: int| 0 <= i < text.len() ==> is_lower_hex(#[trigger] text[i])
}

/// Whether a string is a Git object identifier.
pub fn is_object_id(text: &str) -> (valid: bool)
    ensures
        valid == object_id(text@),
{
    let chars = chars_of(text);
    if chars.len() != 40 {
        return false;
    }
    let mut i: usize = 0;
    while i < chars.len()
        invariant
            i <= chars.len(),
            chars@ == text@,
            forall|j: int| 0 <= j < i ==> is_hex(#[trigger] text@[j]),
        decreases chars.len() - i,
    {
        let c: char = chars[i];
        if !(('0' <= c && c <= '9') || ('a' <= c && c <= 'f') || ('A' <= c && c <= 'F')) {
            return false;
        }
        i += 1;
    }
    true
}

/// Whether a string is a Git object identifier in lowercase.
pub fn is_lower_object_id(text: &str) -> (valid: bool)
    ensures
        valid == lower_object_id(text@),
{
    let chars = chars_of(text);
    if chars.len() != 40 {
        return false;
    }
    let mut i: usize = 0;
    while i < chars.len()
        invariant
            i <= chars.len(),
            chars@ == text@,
            forall|j: int| 0 <= j < i ==> is_lower_hex(#[trigger] text@[j]),
        decreases chars.len() - i,
    {
        let c: char = chars[i];
        if !(('0' <= c && c <= '9') || ('a' <= c && c <= 'f')) {
            return false;
        }
        i += 1;
    }
    true
}

/// The code points with Unicode's `White_Space` property.
pub open spec fn is_white_space(c: char) -> bool {
    let code = c as u32;
    ||| 0x09 <= code <= 0x0d
    ||| code == 0x20
    ||| code == 0x85
    ||| code == 0xa0
    ||| code == 0x1680
    ||| 0x2000 <= code <= 0x200a
    ||| code == 0x2028
    ||| code == 0x2029
    ||| code == 0x202f
    ||| code == 0x205f
    ||| code == 0x3000
}

fn white_space(c: char) -> (found: bool)
    ensures
        found == is_white_space(c),
{
    let code: u32 = c as u32;
    (0x09 <= code && code <= 0x0d) || code == 0x20 || code == 0x85 || code == 0xa0 || code == 0x1680
        || (0x2000 <= code && code <= 0x200a) || code == 0x2028 || code == 0x2029 || code == 0x202f
        || code == 0x205f || code == 0x3000
}

/// A text without its leading and trailing white space.
pub open spec fn trimmed(text: Seq<char>) -> Seq<char>
    decreases text.len(),
{
    if text.len() == 0 {
        text
    } else if is_white_space(text[0]) {
        trimmed(text.drop_first())
    } else if is_white_space(text.last()) {
        trimmed(text.drop_last())
    } else {
        text
    }
}

/// Removes leading and trailing white space.
pub fn trim(text: &str) -> (result: String)
    ensures
        result@ == trimmed(text@),
{
    let chars = chars_of(text);
    let mut start: usize = 0;
    let mut end: usize = chars.len();
    assert(chars@.subrange(0, end as int) =~= text@);
    while start < end && white_space(chars[start])
        invariant
            start <= end <= chars.len(),
            chars@ == text@,
            trimmed(text@.subrange(start as int, end as int)) == trimmed(text@),
        decreases end - start,
    {
        assert(text@.subrange(start as int, end as int).drop_first() =~= text@.subrange(
            start + 1,
            end as int,
        ));
        start += 1;
    }
    while start < end && white_space(chars[end - 1])
        invariant
            start <= end <= chars.len(),
            chars@ == text@,
            start < end ==> !is_white_space(text@[start as int]),
            trimmed(text@.subrange(start as int, end as int)) == trimmed(text@),
        decreases end - start,
    {
        assert(text@.subrange(start as int, end as int).drop_last() =~= text@.subrange(
            start as int,
            end - 1,
        ));
        end -= 1;
    }
    text.substring_char(start, end).to_owned()
}

/// The order of two texts by their first differing code point; a proper prefix comes first.
pub open spec fn text_less(left: Seq<char>, right: Seq<char>) -> bool
    decreases left.len(),
{
    if right.len() == 0 {
        false
    } else if left.len() == 0 {
        true
    } else if left[0] == right[0] {
        text_less(left.drop_first(), right.drop_first())
    } else {
        left[0] < right[0]
    }
}

/// Whether a string comes before another.
pub fn precedes(left: &str, right: &str) -> (less: bool)
    ensures
        less == text_less(left@, right@),
{
    let a = chars_of(left);
    let b = chars_of(right);
    let mut i: usize = 0;
    assert(a@.skip(0) =~= left@);
    assert(b@.skip(0) =~= right@);
    while i < a.len() && i < b.len() && a[i] == b[i]
        invariant
            i <= a.len(),
            i <= b.len(),
            a@ == left@,
            b@ == right@,
            text_less(a@.skip(i as int), b@.skip(i as int)) == text_less(left@, right@),
        decreases a.len() - i,
    {
        assert(a@.skip(i as int).drop_first() =~= a@.skip(i + 1));
        assert(b@.skip(i as int).drop_first() =~= b@.skip(i + 1));
        i += 1;
    }
    if i >= b.len() {
        false
    } else if i >= a.len() {
        true
    } else {
        a[i] < b[i]
    }
}

/// No text comes before itself, and of two different texts one comes before the other.
pub proof fn text_order_is_total(left: Seq<char>, right: Seq<char>)
    ensures
        left == right ==> !text_less(left, right),
        left != right ==> text_less(left, right) != text_less(right, left),
    decreases left.len(),
{
    if left.len() > 0 && right.len() > 0 {
        if left[0] == right[0] {
            text_order_is_total(left.drop_first(), right.drop_first());
            if left.drop_first() == right.drop_first() {
                assert(left =~= seq![left[0]] + left.drop_first());
                assert(right =~= seq![right[0]] + right.drop_first());
            }
        }
    } else {
        assert(left.len() == 0 && right.len() == 0 ==> left =~= right);
    }
}

/// A text that comes before a second, which comes before a third, comes before the third.
pub proof fn text_order_is_transitive(a: Seq<char>, b: Seq<char>, c: Seq<char>)
    requires
        text_less(a, b),
        text_less(b, c),
    ensures
        text_less(a, c),
    decreases a.len(),
{
    if a.len() > 0 && a[0] == b[0] && b[0] == c[0] {
        text_order_is_transitive(a.drop_first(), b.drop_first(), c.drop_first());
    }
}

} // verus!
