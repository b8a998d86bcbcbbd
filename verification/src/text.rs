//! Texts of failures.

use crate::error::Error;
use vstd::prelude::*;
use vstd::string::StringExecFns;

verus! {

/// The decimal digits of `value`.
pub open spec fn digits(value: nat) -> Seq<char>
    decreases value,
{
    let last = ('0' as u32 + value % 10) as char;
    if value < 10 {
        seq![last]
    } else {
        digits(value / 10).push(last)
    }
}

/// `value` as it is written: a minus sign where it is negative, then its decimal digits.
pub open spec fn decimal(value: int) -> Seq<char> {
    if value < 0 {
        seq!['-'] + digits((-value) as nat)
    } else {
        digits(value as nat)
    }
}

/// The number that a text of decimal digits denotes, the most significant digit first.
pub open spec fn denoted(text: Seq<char>) -> int
    decreases text.len(),
{
    if text.len() == 0 {
        0
    } else {
        10 * denoted(text.drop_last()) + (text.last() as int - '0' as int)
    }
}

/// A number that is written in decimal reads back as itself: a minus sign stands before a negative
/// one and nowhere else, all else are digits that denote it, and there is no leading zero.
pub proof fn decimal_reads_back(value: int)
    ensures
        value < 0 ==> decimal(value).len() > 1 && decimal(value)[0] == '-'
            && decimal(value).drop_first() == decimal(-value),
        value >= 0 ==> {
            let text = decimal(value);
            &&& denoted(text) == value
            &&& text.len() > 0
            &&& forall|i: int| 0 <= i < text.len() ==> '0' <= #[trigger] text[i] <= '9'
            &&& text[0] == '0' ==> value == 0 && text.len() == 1
        },
    decreases (if value < 0 { -value + 1 } else { value }),
{
    if value < 0 {
        decimal_reads_back(-value);
        assert(decimal(value).drop_first() =~= decimal(-value));
    } else if value >= 10 {
        decimal_reads_back(value / 10);
        let earlier = digits((value / 10) as nat);
        assert(digits(value as nat).drop_last() =~= earlier);
        assert(digits(value as nat)[0] == earlier[0]);
    } else {
        assert(digits(value as nat).drop_last() =~= Seq::empty());
        reveal_with_fuel(denoted, 2);
    }
}

/// `String::push`, which appends the character.
pub assume_specification[ String::push ](string: &mut String, c: char)
    ensures
        final(string)@ == old(string)@.push(c),
;

/// Appends the decimal digits of `value`.
fn push_digits(text: &mut String, value: u64)
    ensures
        final(text)@ == old(text)@ + digits(value as nat),
    decreases value,
{
    let ghost before = text@;
    if value >= 10 {
        push_digits(text, value / 10);
    }
    let digit: u8 = (value % 10) as u8;
    text.push(('0' as u8 + digit) as char);
    assert(text@ =~= before + digits(value as nat));
}

/// Writes a number in decimal, with a minus sign where it is negative.
pub(crate) fn display(value: i64) -> (text: String)
    ensures
        text@ == decimal(value as int),
{
    let mut text = String::new();
    if value < 0 {
        text.push('-');
        push_digits(&mut text, (-(value as i128)) as u64);
    } else {
        push_digits(&mut text, value as u64);
    }
    assert(text@ =~= decimal(value as int));
    text
}

/// The text that a call failed, and why.
pub open spec fn failed(call: Seq<char>, reason: Seq<char>) -> Seq<char> {
    call + " failed: "@ + reason
}

/// The error that a call failed, and why.
pub fn failure(call: &str, reason: &str) -> (error: Error)
    ensures
        error matches Error::Runtime(text) && text@ == failed(call@, reason@) && text@ == call@
            + " failed: "@ + reason@,
{
    let text = call.to_owned().concat(" failed: ").concat(reason);
    Error::Runtime(text)
}

} // verus!
