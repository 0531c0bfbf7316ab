//! Machine words: the signed three-digit values held by mailboxes and the
//! accumulator, and the wrap rule applied to arithmetic results.

use vstd::prelude::*;

verus! {

/// Largest magnitude a machine word can hold.
pub const WORD_LIMIT: i16 = 999;

/// A value is a machine word when it lies in `[-999, 999]`.
pub open spec fn is_word(value: int) -> bool {
    -999 <= value <= 999
}

/// A value is a mailbox address when it lies in `[0, 99]`.
pub open spec fn is_address(value: int) -> bool {
    0 <= value < 100
}

/// The wrap rule for arithmetic results: a sum or difference of two words that
/// leaves `[-999, 999]` re-enters the range from the opposite end, so that
/// `999 + 1` is `-999` and `-999 - 1` is `999`.
pub open spec fn wrap_word(value: int) -> int {
    if value > 999 {
        value - 1999
    } else if value < -999 {
        value + 1999
    } else {
        value
    }
}

/// The character emitted for an accumulator value: the code point given by
/// the value's low eight bits.
pub open spec fn char_of_word(value: int) -> char {
    ((value % 256) as u8) as char
}

/// Tests whether a value is a machine word.
pub fn word_in_range(value: i16) -> (r: bool)
    ensures
        r == is_word(value as int),
{
    -WORD_LIMIT <= value && value <= WORD_LIMIT
}

} // verus!
