//! The grammar of instruction tokens and the scanner that decodes them.
//!
//! A token is an optional action word (`PLANTMOW` or `PLANT`), one column
//! letter from `a` to `s`, one row letter from `a` to `y`, and one or two
//! decimal digits, with nothing before, between or after them.

use vstd::prelude::*;
use vstd::string::StrSliceExecFns;
use crate::engine::{action_named, Action, Instruction};

verus! {

/// The word that asks for planting.
pub open spec fn plant_word() -> Seq<char> {
    seq!['P', 'L', 'A', 'N', 'T']
}

/// The word that asks for toggling.
pub open spec fn plantmow_word() -> Seq<char> {
    seq!['P', 'L', 'A', 'N', 'T', 'M', 'O', 'W']
}

/// Whether `token` begins with the characters of `word`.
pub open spec fn starts_with(token: Seq<char>, word: Seq<char>) -> bool {
    &&& word.len() <= token.len()
    &&& forall|k: int| 0 <= k < word.len() ==> token[k] == word[k]
}

/// The action word at the head of `token`. The longer word is looked for
/// first; a token that begins with neither has the empty word.
pub open spec fn prefix_of(token: Seq<char>) -> Seq<char> {
    if starts_with(token, plantmow_word()) {
        plantmow_word()
    } else if starts_with(token, plant_word()) {
        plant_word()
    } else {
        Seq::empty()
    }
}

/// Whether `c` is a column letter, `a` to `s`.
pub open spec fn is_column_letter(c: char) -> bool {
    'a' <= c <= 's'
}

/// Whether `c` is a row letter, `a` to `y`.
pub open spec fn is_row_letter(c: char) -> bool {
    'a' <= c <= 'y'
}

/// The index that a letter stands for: its distance from `a`.
pub open spec fn letter_index(c: char) -> int {
    c as u32 - 'a' as u32
}

/// Whether `c` is a decimal digit, `0` to `9`.
pub open spec fn is_digit(c: char) -> bool {
    '0' <= c <= '9'
}

/// The value of a decimal digit.
pub open spec fn digit_value(c: char) -> int {
    c as u32 - '0' as u32
}

/// The number that `digits` writes, where it is one or two decimal digits.
pub open spec fn diameter_of(digits: Seq<char>) -> Option<int> {
    if digits.len() == 1 && is_digit(digits[0]) {
        Some(digit_value(digits[0]))
    } else if digits.len() == 2 && is_digit(digits[0]) && is_digit(digits[1]) {
        Some(10 * digit_value(digits[0]) + digit_value(digits[1]))
    } else {
        None
    }
}

/// The instruction that `token` writes, or `None` where `token` is not of
/// the grammar.
pub open spec fn instruction_of(token: Seq<char>) -> Option<Instruction> {
    let prefix = prefix_of(token);
    let rest = token.skip(prefix.len() as int);
    if rest.len() >= 3 && is_column_letter(rest[0]) && is_row_letter(rest[1]) {
        match diameter_of(rest.skip(2)) {
            Some(diameter) => Some(
                Instruction {
                    action: action_named(prefix),
                    row: letter_index(rest[1]) as isize,
                    col: letter_index(rest[0]) as isize,
                    diameter: diameter as isize,
                },
            ),
            None => None,
        }
    } else {
        None
    }
}

/// Whether the `word.len()` characters of `token` from its start are those
/// of `word`.
fn begins(token: &str, len: usize, word: &str) -> (found: bool)
    requires
        len == token@.len(),
        word@.len() <= 8,
    ensures
        found == starts_with(token@, word@),
{
    let n = word.unicode_len();
    if n > len {
        return false;
    }
    let mut k: usize = 0;
    while k < n
        invariant
            k <= n,
            n == word@.len(),
            n <= len,
            len == token@.len(),
            forall|j: int| 0 <= j < k ==> token@[j] == word@[j],
        decreases n - k,
    {
        if token.get_char(k) != word.get_char(k) {
            return false;
        }
        k += 1;
    }
    true
}

/// Decodes one token. The result is the instruction that the token writes,
/// and `None` for every token that is not of the grammar. A decoded
/// instruction has its centre on the field and a diameter of at most 99.
pub fn parse_token(token: &str) -> (parsed: Option<Instruction>)
    ensures
        parsed == instruction_of(token@),
        parsed matches Some(instruction) ==> {
            &&& 0 <= instruction.col <= 18
            &&& 0 <= instruction.row <= 24
            &&& 0 <= instruction.diameter <= 99
        },
{
    proof {
        reveal_strlit("PLANT");
        reveal_strlit("PLANTMOW");
        assert("PLANT"@ =~= plant_word());
        assert("PLANTMOW"@ =~= plantmow_word());
    }
    let len = token.unicode_len();
    let (action, start): (Action, usize) = if begins(token, len, "PLANTMOW") {
        (Action::PlantMow, 8)
    } else if begins(token, len, "PLANT") {
        (Action::Plant, 5)
    } else {
        (Action::Mow, 0)
    };
    let ghost prefix = prefix_of(token@);
    let ghost rest = token@.skip(start as int);
    assert(prefix.len() == start);
    assert(action == action_named(prefix)) by {
        assert(plant_word()[0] == 'P');
        assert(plantmow_word().len() != plant_word().len());
    }
    if len - start != 3 && len - start != 4 {
        return None;
    }
    let col_letter = token.get_char(start);
    let row_letter = token.get_char(start + 1);
    let first = token.get_char(start + 2);
    assert(rest[0] == col_letter && rest[1] == row_letter && rest.skip(2)[0] == first);
    if !(col_letter >= 'a' && col_letter <= 's' && row_letter >= 'a' && row_letter <= 'y') {
        return None;
    }
    if !(first >= '0' && first <= '9') {
        return None;
    }
    let mut diameter: u32 = first as u32 - '0' as u32;
    if len - start == 4 {
        let second = token.get_char(start + 3);
        assert(rest.skip(2)[1] == second);
        if !(second >= '0' && second <= '9') {
            return None;
        }
        diameter = 10 * diameter + (second as u32 - '0' as u32);
    }
    Some(
        Instruction {
            action,
            row: (row_letter as u32 - 'a' as u32) as isize,
            col: (col_letter as u32 - 'a' as u32) as isize,
            diameter: diameter as isize,
        },
    )
}

} // verus!
