//! The four option letters `A` to `D` and the slots they stand for.

use vstd::prelude::*;

verus! {

/// Number of options that every question carries.
pub const OPTION_COUNT: usize = 4;

/// Whether `c` is one of the option letters `A`, `B`, `C`, `D`.
pub open spec fn is_letter(c: char) -> bool {
    c == 'A' || c == 'B' || c == 'C' || c == 'D'
}

/// The slot (0 to 3) that an option letter stands for.
pub open spec fn letter_index(c: char) -> int {
    if c == 'A' {
        0
    } else if c == 'B' {
        1
    } else if c == 'C' {
        2
    } else {
        3
    }
}

/// The letter of a slot: `A` for 0, up to `D` for 3.
pub open spec fn letter_at(i: int) -> char {
    if i == 0 {
        'A'
    } else if i == 1 {
        'B'
    } else if i == 2 {
        'C'
    } else {
        'D'
    }
}

/// The four letters in their fixed order.
pub open spec fn letters() -> Seq<char> {
    seq!['A', 'B', 'C', 'D']
}

/// Slot of an option letter, or `None` for any other character.
pub fn position_of_letter(c: char) -> (r: Option<usize>)
    ensures
        r == (if is_letter(c) {
            Some(letter_index(c) as usize)
        } else {
            None
        }),
{
    if c == 'A' {
        Some(0)
    } else if c == 'B' {
        Some(1)
    } else if c == 'C' {
        Some(2)
    } else if c == 'D' {
        Some(3)
    } else {
        None
    }
}

/// Letter of a slot.
pub fn letter_for_position(i: usize) -> (c: char)
    requires
        i < OPTION_COUNT,
    ensures
        c == letter_at(i as int),
        is_letter(c),
        letter_index(c) == i,
{
    if i == 0 {
        'A'
    } else if i == 1 {
        'B'
    } else if i == 2 {
        'C'
    } else {
        'D'
    }
}

} // verus!
