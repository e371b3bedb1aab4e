//! What holds of texts: their order, their digits and their ends.
use vstd::prelude::*;

#[allow(unused_imports)]
use crate::text::{
    begins_with, decimal, digit_char, ends_with, exit_status_debug, has_control, is_control,
    is_white_space, joined, lower_object_id, mode_octal, object_id, signed_decimal, text_less,
    trimmed,
};

verus! {

/// Whether two texts agree up to a place where the first ends and the second goes on, or where the
/// character of the first is the smaller one.
pub open spec fn first_is_smaller_at(left: Seq<char>, right: Seq<char>, k: int) -> bool {
    &&& 0 <= k <= left.len()
    &&& k < right.len()
    &&& forall|i: int| 0 <= i < k ==> left[i] == right[i]
    &&& k == left.len() || left[k] < right[k]
}

/// A text comes before another exactly if both agree up to a place where it ends and the other
/// goes on, or where its character is the smaller one.
pub proof fn texts_are_ordered_by_their_first_difference(left: Seq<char>, right: Seq<char>)
    ensures
        text_less(left, right) <==> exists|k: int| first_is_smaller_at(left, right, k),
{
    if text_less(left, right) {
        let k = first_difference(left, right);
        assert(first_is_smaller_at(left, right, k));
    }
    if exists|k: int| first_is_smaller_at(left, right, k) {
        let k = choose|k: int| first_is_smaller_at(left, right, k);
        a_difference_decides(left, right, k);
    }
}

proof fn first_difference(left: Seq<char>, right: Seq<char>) -> (k: int)
    requires
        text_less(left, right),
    ensures
        0 <= k <= left.len(),
        k < right.len(),
        forall|i: int| 0 <= i < k ==> left[i] == right[i],
        k == left.len() || left[k] < right[k],
    decreases left.len(),
{
    if left.len() > 0 && left[0] == right[0] {
        let below = first_difference(left.drop_first(), right.drop_first());
        assert forall|i: int| 0 <= i < below + 1 implies left[i] == right[i] by {
            if i > 0 {
                assert(left.drop_first()[i - 1] == right.drop_first()[i - 1]);
            }
        }
        below + 1
    } else {
        0
    }
}

proof fn a_difference_decides(left: Seq<char>, right: Seq<char>, k: int)
    requires
        0 <= k <= left.len(),
        k < right.len(),
        forall|i: int| 0 <= i < k ==> left[i] == right[i],
        k == left.len() || left[k] < right[k],
    ensures
        text_less(left, right),
    decreases k,
{
    if k > 0 {
        assert(left[0] == right[0]);
        assert forall|i: int| 0 <= i < k - 1 implies left.drop_first()[i] == right.drop_first()[i] by {
            assert(left[i + 1] == right[i + 1]);
        }
        a_difference_decides(left.drop_first(), right.drop_first(), k - 1);
    }
}

/// The number that decimal digits stand for.
pub open spec fn value(digits: Seq<char>) -> nat
    decreases digits.len(),
{
    if digits.len() == 0 {
        0
    } else {
        (10 * value(digits.drop_last()) + (digits.last() as u32 - '0' as u32)) as nat
    }
}

/// The decimal digits of a number stand for that number, are digits, and have no needless zero in
/// front.
pub proof fn decimal_digits_stand_for_the_number(number: nat)
    ensures
        value(decimal(number)) == number,
        decimal(number).len() > 0,
        forall|i: int| 0 <= i < decimal(number).len() ==> '0' <= #[trigger] decimal(number)[i] <= '9',
        number > 0 ==> decimal(number)[0] != '0',
    decreases number,
{
    let digits = decimal(number);
    if number < 10 {
        assert(digits.drop_last() =~= Seq::empty());
        assert(value(digits.drop_last()) == 0);
        assert(digits.last() == digit_char(number));
    } else {
        decimal_digits_stand_for_the_number(number / 10);
        assert(digits.drop_last() =~= decimal(number / 10));
        assert(digits.last() == digit_char(number % 10));
        assert forall|i: int| 0 <= i < digits.len() implies '0' <= #[trigger] digits[i] <= '9' by {
            if i < digits.len() - 1 {
                assert(digits[i] == decimal(number / 10)[i]);
            }
        }
        assert(digits[0] == decimal(number / 10)[0]);
    }
}

/// Different numbers have different digits.
pub proof fn numbers_are_told_apart(left: nat, right: nat)
    ensures
        decimal(left) == decimal(right) ==> left == right,
{
    decimal_digits_stand_for_the_number(left);
    decimal_digits_stand_for_the_number(right);
}

/// An integer is printed with a minus sign in front exactly if it is negative, and otherwise as
/// the digits of its magnitude.
pub proof fn signs_stand_in_front(number: int)
    ensures
        number < 0 <==> signed_decimal(number)[0] == '-',
        value(
            if number < 0 {
                signed_decimal(number).skip(1)
            } else {
                signed_decimal(number)
            },
        ) == (if number < 0 {
            -number
        } else {
            number
        }),
{
    reveal_strlit("-");
    if number < 0 {
        decimal_digits_stand_for_the_number((-number) as nat);
        assert(signed_decimal(number).skip(1) =~= decimal((-number) as nat));
    } else {
        decimal_digits_stand_for_the_number(number as nat);
        assert('0' <= decimal(number as nat)[0]);
    }
}

/// Permission bits are printed as a zero and three octal digits that stand for them.
pub proof fn octal_digits_stand_for_the_bits(mode: nat)
    requires
        mode < 512,
    ensures
        mode_octal(mode).len() == 4,
        mode_octal(mode)[0] == '0',
        forall|i: int| 0 <= i < 4 ==> '0' <= #[trigger] mode_octal(mode)[i] <= '7',
        (mode_octal(mode)[1] as u32 - '0' as u32) * 64 + (mode_octal(mode)[2] as u32 - '0' as u32)
            * 8 + (mode_octal(mode)[3] as u32 - '0' as u32) == mode,
{
    assert(mode / 8 % 8 == mode / 8 - 8 * (mode / 64));
}

/// Trimming takes white space away from both ends of a text and nothing else: what is left is a
/// part of the text, all that stood around it is white space, and it neither begins nor ends with
/// white space.
#[verifier::rlimit(50)]
pub proof fn trimming_takes_only_white_space(text: Seq<char>) -> (range: (int, int))
    ensures
        0 <= range.0 <= range.1 <= text.len(),
        trimmed(text) == text.subrange(range.0, range.1),
        forall|i: int| 0 <= i < range.0 ==> is_white_space(#[trigger] text[i]),
        forall|i: int| range.1 <= i < text.len() ==> is_white_space(#[trigger] text[i]),
        trimmed(text).len() > 0 ==> !is_white_space(trimmed(text)[0]) && !is_white_space(
            trimmed(text).last(),
        ),
    decreases text.len(),
{
    if text.len() == 0 {
        assert(text.subrange(0, 0) =~= text);
        (0, 0)
    } else if is_white_space(text[0]) {
        let inner = text.drop_first();
        let range = trimming_takes_only_white_space(inner);
        assert(inner.subrange(range.0, range.1) =~= text.subrange(range.0 + 1, range.1 + 1));
        assert forall|i: int| 0 <= i < range.0 + 1 implies is_white_space(#[trigger] text[i]) by {
            if i > 0 {
                assert(inner[i - 1] == text[i]);
            }
        }
        assert forall|i: int| range.1 + 1 <= i < text.len() implies is_white_space(
            #[trigger] text[i],
        ) by {
            assert(inner[i - 1] == text[i]);
        }
        (range.0 + 1, range.1 + 1)
    } else if is_white_space(text.last()) {
        let inner = text.drop_last();
        let range = trimming_takes_only_white_space(inner);
        assert(inner.subrange(range.0, range.1) =~= text.subrange(range.0, range.1));
        assert forall|i: int| 0 <= i < range.0 implies is_white_space(#[trigger] text[i]) by {
            assert(inner[i] == text[i]);
        }
        assert forall|i: int| range.1 <= i < text.len() implies is_white_space(#[trigger] text[i]) by {
            if i < inner.len() {
                assert(inner[i] == text[i]);
            }
        }
        range
    } else {
        assert(text.subrange(0, text.len() as int) =~= text);
        (0, text.len() as int)
    }
}

/// Among the characters of ASCII exactly the space, the tab, the line feed, the vertical tab, the
/// form feed and the carriage return are white space.
pub proof fn ascii_white_space(c: char)
    requires
        (c as u32) < 128,
    ensures
        is_white_space(c) <==> c == ' ' || c == '\t' || c == '\n' || c == '\r' || (c as u32) == 11
            || (c as u32) == 12,
{
}

/// A text holds a control character exactly if a part of it does, and a character is one exactly
/// if it comes before the space or stands from the delete character to the last of the second
/// control block.
pub proof fn controls_are_found_anywhere(left: Seq<char>, right: Seq<char>, c: char)
    ensures
        has_control(left + right) <==> has_control(left) || has_control(right),
        has_control(seq![c]) <==> (c as u32) < 32 || 127 <= (c as u32) <= 159,
        !has_control(Seq::empty()),
{
    let both = left + right;
    if has_control(both) {
        let i = choose|i: int| 0 <= i < both.len() && is_control(#[trigger] both[i]);
        if i < left.len() {
            assert(is_control(left[i]));
        } else {
            assert(is_control(right[i - left.len()]));
        }
    }
    if has_control(left) {
        let i = choose|i: int| 0 <= i < left.len() && is_control(#[trigger] left[i]);
        assert(is_control(both[i]));
    }
    if has_control(right) {
        let i = choose|i: int| 0 <= i < right.len() && is_control(#[trigger] right[i]);
        assert(is_control(both[i + left.len()]));
    }
    assert(seq![c][0] == c);
    if is_control(c) {
        assert(is_control(seq![c][0]));
    }
}

/// A Git object identifier is 40 characters long, each of them a digit or one of the letters from
/// `a` to `f`; one in lowercase has no others, and every identifier is of either kind.
pub proof fn object_ids_are_hexadecimal(text: Seq<char>)
    ensures
        object_id(text) <==> text.len() == 40 && (forall|i: int|
            0 <= i < text.len() ==> ('0' <= #[trigger] text[i] && text[i] <= '9') || ('a' <= text[i]
                && text[i] <= 'f') || ('A' <= text[i] && text[i] <= 'F')),
        lower_object_id(text) <==> object_id(text) && (forall|i: int|
            0 <= i < text.len() ==> !('A' <= #[trigger] text[i] && text[i] <= 'F')),
{
}

/// A text begins with another exactly if something appended to that other gives it, and ends with
/// another exactly if something in front of that other gives it.
pub proof fn beginnings_and_endings(text: Seq<char>, other: Seq<char>, rest: Seq<char>)
    ensures
        begins_with(other + rest, other),
        ends_with(rest + other, other),
        begins_with(text, other) ==> text == other + text.skip(other.len() as int),
        ends_with(text, other) ==> text == text.take(text.len() - other.len()) + other,
{
    assert((other + rest).take(other.len() as int) =~= other);
    assert((rest + other).skip(rest.len() as int) =~= other);
    if begins_with(text, other) {
        assert(text =~= text.take(other.len() as int) + text.skip(other.len() as int));
    }
    if ends_with(text, other) {
        assert(text =~= text.take(text.len() - other.len()) + text.skip(text.len() - other.len()));
    }
}

/// Joining two lists gives what joining each of them gives, with the separator between.
pub proof fn joining_goes_list_by_list(
    left: Seq<Seq<char>>,
    right: Seq<Seq<char>>,
    separator: Seq<char>,
)
    requires
        left.len() > 0,
        right.len() > 0,
    ensures
        joined(left + right, separator) == joined(left, separator) + separator + joined(
            right,
            separator,
        ),
    decreases right.len(),
{
    let whole = left + right;
    assert(whole.drop_last() =~= left + right.drop_last());
    assert(whole.last() == right.last());
    if right.len() == 1 {
        assert(left + right.drop_last() =~= left);
        assert(right.last() == right[0]);
    } else {
        joining_goes_list_by_list(left, right.drop_last(), separator);
        assert(joined(left, separator) + separator + joined(right.drop_last(), separator)
            + separator + right.last() =~= joined(left, separator) + separator + (joined(
            right.drop_last(),
            separator,
        ) + separator + right.last()));
    }
}

/// An exit status is printed with its number, and told apart from none.
pub proof fn exit_statuses_are_told_apart(left: Option<i32>, right: Option<i32>)
    ensures
        exit_status_debug(left) == exit_status_debug(right) ==> left == right,
        left matches Some(code) ==> exit_status_debug(left) == "Some("@ + signed_decimal(
            code as int,
        ) + ")"@,
{
    reveal_strlit("Some(");
    reveal_strlit("None");
    reveal_strlit(")");
    assert("None"@[0] == 'N');
    assert("Some("@[0] == 'S');
    if let Some(a) = left {
        assert(exit_status_debug(left)[0] == 'S');
        if let Some(b) = right {
            let (x, y) = (signed_decimal(a as int), signed_decimal(b as int));
            if exit_status_debug(left) == exit_status_debug(right) {
                assert(exit_status_debug(left).subrange(5, (5 + x.len()) as int) =~= x);
                assert(exit_status_debug(right).subrange(5, (5 + y.len()) as int) =~= y);
                assert(exit_status_debug(left).len() == 6 + x.len());
                assert(exit_status_debug(right).len() == 6 + y.len());
                signs_stand_in_front(a as int);
                signs_stand_in_front(b as int);
            }
        }
    } else if let Some(b) = right {
        assert(exit_status_debug(right)[0] == 'S');
    }
}

} // verus!
