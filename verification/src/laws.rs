//! Laws of the grammar, of single instructions and of whole runs.

use vstd::prelude::*;
use crate::engine::{acted, applied, in_disc, scan_bound, Action, Instruction};
use crate::field::{field_shaped, rendered, rendered_row, Cell, HEIGHT, WIDTH};
use crate::parser::{
    diameter_of, instruction_of, is_column_letter, is_digit, is_row_letter, letter_index,
    plant_word, plantmow_word, prefix_of,
};
use crate::run::{after_token, field_after, rejected};

verus! {

/// The word that writes `action` at the head of a token.
pub open spec fn word_of(action: Action) -> Seq<char> {
    match action {
        Action::Plant => plant_word(),
        Action::PlantMow => plantmow_word(),
        Action::Mow => Seq::empty(),
    }
}

/// Every token of the grammar is decoded, and to what it writes: the
/// action of its word, the column and row of its letters, the number of
/// its digits. The column is at most 18, the row at most 24, and the
/// diameter at most 99.
pub proof fn grammar_tokens_decode(action: Action, column: char, row: char, digits: Seq<char>)
    requires
        is_column_letter(column),
        is_row_letter(row),
        diameter_of(digits) is Some,
    ensures
        instruction_of(word_of(action) + seq![column, row] + digits) == Some(
            Instruction {
                action,
                row: letter_index(row) as isize,
                col: letter_index(column) as isize,
                diameter: diameter_of(digits).unwrap() as isize,
            },
        ),
        0 <= letter_index(column) <= 18,
        0 <= letter_index(row) <= 24,
        0 <= diameter_of(digits).unwrap() <= 99,
{
    let word = word_of(action);
    let token = word + seq![column, row] + digits;
    assert(token[word.len() as int] == column);
    assert(forall|k: int| 0 <= k < word.len() ==> token[k] == word[k]);
    assert(plantmow_word()[0] == 'P' && plantmow_word()[5] == 'M');
    assert(plant_word()[0] == 'P');
    assert(prefix_of(token) == word);
    let rest = token.skip(word.len() as int);
    assert(rest[0] == column);
    assert(rest[1] == row);
    assert(rest.skip(2) =~= digits);
}

/// Every token that is decoded is of the grammar: it is the word of its
/// action, then a column letter, a row letter, and one or two digits, and
/// nothing else.
pub proof fn decoded_tokens_are_of_grammar(token: Seq<char>)
    requires
        instruction_of(token) is Some,
    ensures
        ({
            let start = word_of(instruction_of(token).unwrap().action).len() as int;
            &&& start + 3 <= token.len() <= start + 4
            &&& token == word_of(instruction_of(token).unwrap().action) + seq![
                token[start],
                token[start + 1],
            ] + token.skip(start + 2)
            &&& is_column_letter(token[start])
            &&& is_row_letter(token[start + 1])
            &&& diameter_of(token.skip(start + 2)) is Some
        }),
{
    let prefix = prefix_of(token);
    let action = instruction_of(token).unwrap().action;
    let rest = token.skip(prefix.len() as int);
    assert(plant_word()[0] == 'P');
    assert(plantmow_word().len() != plant_word().len());
    assert(word_of(action) == prefix);
    let start = prefix.len() as int;
    assert(rest[0] == token[start] && rest[1] == token[start + 1]);
    assert(rest.skip(2) =~= token.skip(start + 2));
    assert(token =~= prefix + seq![token[start], token[start + 1]] + token.skip(start + 2));
}

/// A decoded instruction has its centre on the field and a diameter of at
/// most 99.
pub proof fn decoded_in_range(token: Seq<char>)
    requires
        instruction_of(token) is Some,
    ensures
        0 <= instruction_of(token).unwrap().col <= 18,
        0 <= instruction_of(token).unwrap().row <= 24,
        0 <= instruction_of(token).unwrap().diameter <= 99,
{
}

/// The diameter of a decoded instruction is at least one, unless every
/// digit of the token is a zero.
pub proof fn decoded_diameter_positive(token: Seq<char>)
    requires
        instruction_of(token) is Some,
        exists|k: int| 0 <= k < token.len() && is_digit(token[k]) && token[k] != '0',
    ensures
        instruction_of(token).unwrap().diameter >= 1,
{
    let prefix = prefix_of(token);
    let rest = token.skip(prefix.len() as int);
    let k = choose|k: int| 0 <= k < token.len() && is_digit(token[k]) && token[k] != '0';
    assert(plantmow_word()[0] == 'P' && plantmow_word()[1] == 'L' && plantmow_word()[2] == 'A'
        && plantmow_word()[3] == 'N' && plantmow_word()[4] == 'T' && plantmow_word()[5] == 'M'
        && plantmow_word()[6] == 'O' && plantmow_word()[7] == 'W');
    assert(plant_word()[0] == 'P' && plant_word()[1] == 'L' && plant_word()[2] == 'A'
        && plant_word()[3] == 'N' && plant_word()[4] == 'T');
    assert(k >= prefix.len() + 2) by {
        if k < prefix.len() {
            assert(token[k] == prefix[k]);
        } else if k < prefix.len() + 2 {
            assert(rest[k - prefix.len()] == token[k]);
        }
    }
    assert(rest.skip(2)[k - prefix.len() - 2] == token[k]);
}

/// The scan bound clips nothing of a disc with a diameter that is not
/// negative: an offset within half the diameter of the centre is within the
/// scan bound in both directions.
pub proof fn scan_bound_clips_nothing(dy: int, dx: int, diameter: int)
    requires
        diameter >= 0,
        4 * (dx * dx + dy * dy) <= diameter * diameter,
    ensures
        in_disc(dy, dx, diameter),
{
    let bound = scan_bound(diameter);
    assert(diameter < 2 * bound + 2);
    assert(-bound <= dx <= bound && -bound <= dy <= bound) by (nonlinear_arith)
        requires
            diameter >= 0,
            bound >= 0,
            diameter < 2 * bound + 2,
            4 * (dx * dx + dy * dy) <= diameter * diameter,
    ;
}

/// An instruction leaves a field a field, and changes no cell outside its
/// disc, wherever the centre lies and whatever the diameter is.
pub proof fn applied_stays_on_field(
    rows: Seq<Seq<Cell>>,
    action: Action,
    center_row: int,
    center_col: int,
    diameter: int,
)
    ensures
        field_shaped(applied(rows, action, center_row, center_col, diameter)),
        forall|r: int, c: int|
            0 <= r < HEIGHT && 0 <= c < WIDTH && !in_disc(r - center_row, c - center_col, diameter)
                ==> #[trigger] applied(rows, action, center_row, center_col, diameter)[r][c]
                == rows[r][c],
{
}

/// Planting twice is planting once, and mowing twice is mowing once.
pub proof fn plant_and_mow_idempotent(
    rows: Seq<Seq<Cell>>,
    action: Action,
    center_row: int,
    center_col: int,
    diameter: int,
)
    requires
        action != Action::PlantMow,
    ensures
        applied(
            applied(rows, action, center_row, center_col, diameter),
            action,
            center_row,
            center_col,
            diameter,
        ) == applied(rows, action, center_row, center_col, diameter),
{
    assert(applied(
        applied(rows, action, center_row, center_col, diameter),
        action,
        center_row,
        center_col,
        diameter,
    ) =~~= applied(rows, action, center_row, center_col, diameter));
}

/// Toggling the same disc twice gives the field back.
pub proof fn plantmow_twice_restores(
    rows: Seq<Seq<Cell>>,
    center_row: int,
    center_col: int,
    diameter: int,
)
    requires
        field_shaped(rows),
    ensures
        applied(
            applied(rows, Action::PlantMow, center_row, center_col, diameter),
            Action::PlantMow,
            center_row,
            center_col,
            diameter,
        ) == rows,
{
    assert(applied(
        applied(rows, Action::PlantMow, center_row, center_col, diameter),
        Action::PlantMow,
        center_row,
        center_col,
        diameter,
    ) =~~= rows);
}

/// Where the later of two instructions plants or mows a cell, the cell
/// ends as if the earlier instruction had never been applied.
pub proof fn later_plant_or_mow_prevails(
    rows: Seq<Seq<Cell>>,
    earlier: Instruction,
    later: Instruction,
    r: int,
    c: int,
)
    requires
        0 <= r < HEIGHT,
        0 <= c < WIDTH,
        in_disc(r - later.row, c - later.col, later.diameter as int),
        later.action != Action::PlantMow,
    ensures
        applied(
            applied(
                rows,
                earlier.action,
                earlier.row as int,
                earlier.col as int,
                earlier.diameter as int,
            ),
            later.action,
            later.row as int,
            later.col as int,
            later.diameter as int,
        )[r][c] == acted(later.action, rows[r][c]),
        acted(later.action, rows[r][c]) == acted(later.action, Cell::Planted),
{
}

/// A row of cells is rendered as two characters for each cell.
pub proof fn rendered_row_len(row: Seq<Cell>)
    ensures
        rendered_row(row).len() == 2 * row.len(),
    decreases row.len(),
{
    if row.len() > 0 {
        rendered_row_len(row.drop_last());
    }
}

/// The first `count` rows of a field are rendered as `count` lines of
/// `2 * WIDTH` characters, each followed by a line break; with `HEIGHT`
/// for `count` this is the whole field.
pub proof fn rendered_lines(rows: Seq<Seq<Cell>>, count: int)
    requires
        field_shaped(rows),
        0 <= count <= HEIGHT,
    ensures
        rendered(rows.take(count)).len() == count * (2 * WIDTH + 1),
        forall|r: int|
            0 <= r < count ==> #[trigger] rendered(rows.take(count))[r * (2 * WIDTH + 1) + 2
                * WIDTH] == '\n',
    decreases count,
{
    if count > 0 {
        rendered_lines(rows, count - 1);
        rendered_row_len(rows[count - 1]);
        assert(rows.take(count).drop_last() =~= rows.take(count - 1));
        assert(rows.take(count).last() == rows[count - 1]);
    }
}

/// Running two lists of tokens one after the other is running their
/// concatenation.
pub proof fn field_after_concat(
    rows: Seq<Seq<Cell>>,
    first: Seq<Seq<char>>,
    second: Seq<Seq<char>>,
)
    ensures
        field_after(rows, first + second) == field_after(field_after(rows, first), second),
    decreases second.len(),
{
    if second.len() == 0 {
        assert(first + second =~= first);
    } else {
        field_after_concat(rows, first, second.drop_last());
        assert((first + second).drop_last() =~= first + second.drop_last());
        assert((first + second).last() == second.last());
    }
}

/// The tokens passed over in a concatenation are those passed over in its
/// two parts.
pub proof fn rejected_concat(first: Seq<Seq<char>>, second: Seq<Seq<char>>)
    ensures
        rejected(first + second) == rejected(first) + rejected(second),
    decreases second.len(),
{
    if second.len() == 0 {
        assert(first + second =~= first);
        assert(rejected(first) + rejected(second) =~= rejected(first));
    } else {
        rejected_concat(first, second.drop_last());
        assert((first + second).drop_last() =~= first + second.drop_last());
        assert((first + second).last() == second.last());
        assert(rejected(first + second) =~= rejected(first) + rejected(second));
    }
}

/// A token that is not of the grammar, anywhere in a run, changes nothing
/// of the field that the run leaves: the tokens before and after it are
/// applied as if it were not there. It is passed over, and listed between
/// the tokens passed over before and after it.
pub proof fn malformed_token_is_skipped(
    rows: Seq<Seq<Cell>>,
    before: Seq<Seq<char>>,
    malformed: Seq<char>,
    after: Seq<Seq<char>>,
)
    requires
        instruction_of(malformed) is None,
    ensures
        field_after(rows, before + seq![malformed] + after) == field_after(rows, before + after),
        rejected(before + seq![malformed] + after) == rejected(before) + seq![malformed]
            + rejected(after),
{
    let one = seq![malformed];
    assert(one.drop_last() =~= Seq::<Seq<char>>::empty());
    assert(one.last() == malformed);
    assert(field_after(rows, before + one) == field_after(rows, before)) by {
        field_after_concat(rows, before, one);
        assert(field_after(field_after(rows, before), one.drop_last()) == field_after(
            rows,
            before,
        ));
        assert(after_token(field_after(rows, before), malformed) == field_after(rows, before));
    }
    field_after_concat(rows, before + one, after);
    field_after_concat(rows, before, after);
    rejected_concat(before + one, after);
    rejected_concat(before, one);
    assert(rejected(one) =~= one) by {
        assert(rejected(one.drop_last()) =~= Seq::<Seq<char>>::empty());
    }
}

} // verus!
