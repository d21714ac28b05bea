//! What the standard library says of characters and strings.
//!
//! Everything in this file is taken on trust from the standard library's
//! documentation: nothing here is proved, and the tokenizer is proved from
//! what is stated here.

use vstd::prelude::*;

verus! {

/// Whether `c` has the Unicode property `Alphabetic`.
pub uninterp spec fn alphabetic(c: char) -> bool;

/// Whether `c` is in one of the Unicode general categories for numbers:
/// `Nd`, `Nl` or `No`.
pub uninterp spec fn numeric(c: char) -> bool;

/// Whether `c` is one of the ten decimal digits.
pub open spec fn decimal_digit(c: char) -> bool {
    '0' <= c <= '9'
}

/// `char::is_alphabetic`: whether the character has the Unicode property
/// `Alphabetic`.
pub assume_specification[ char::is_alphabetic ](c: char) -> (yes: bool)
    ensures
        yes == alphabetic(c),
;

/// `char::is_alphanumeric`: whether the character is alphabetic or numeric,
/// as `char::is_alphabetic` and `char::is_numeric` tell.
pub assume_specification[ char::is_alphanumeric ](c: char) -> (yes: bool)
    ensures
        yes == (alphabetic(c) || numeric(c)),
;

/// `char::is_digit`: whether the character is a digit in the given radix. It
/// panics on a radix above 36. In radix 10 the digits are `0` to `9`.
pub assume_specification[ char::is_digit ](c: char, radix: u32) -> (yes: bool)
    requires
        2 <= radix <= 36,
    ensures
        radix == 10 ==> yes == decimal_digit(c),
;

/// `String::push`: appends the character to the end of the string.
pub assume_specification[ String::push ](text: &mut String, c: char)
    ensures
        final(text)@ == old(text)@.push(c),
;

} // verus!
