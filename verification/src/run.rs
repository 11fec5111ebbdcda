//! A whole run: the tokens of one line, applied in order to a field.

use vstd::prelude::*;
use crate::engine::applied;
use crate::field::{uniform, Cell, Grid};
use crate::parser::{instruction_of, parse_token};

verus! {

/// The tokens of a line: its maximal runs of characters that are not
/// whitespace, in the order in which they stand. What counts as whitespace
/// is settled by `str::split_whitespace`.
pub uninterp spec fn whitespace_tokens(line: Seq<char>) -> Seq<Seq<char>>;

/// The characters of each of `tokens`.
pub open spec fn texts(tokens: Seq<String>) -> Seq<Seq<char>> {
    Seq::new(tokens.len(), |i: int| tokens[i]@)
}

/// The field after one token: the token's instruction applied, or the field
/// as it was where the token is not of the grammar.
pub open spec fn after_token(rows: Seq<Seq<Cell>>, token: Seq<char>) -> Seq<Seq<Cell>> {
    match instruction_of(token) {
        Some(instruction) => applied(
            rows,
            instruction.action,
            instruction.row as int,
            instruction.col as int,
            instruction.diameter as int,
        ),
        None => rows,
    }
}

/// The field after all of `tokens`, taken from first to last.
pub open spec fn field_after(rows: Seq<Seq<Cell>>, tokens: Seq<Seq<char>>) -> Seq<Seq<Cell>>
    decreases tokens.len(),
{
    if tokens.len() == 0 {
        rows
    } else {
        after_token(field_after(rows, tokens.drop_last()), tokens.last())
    }
}

/// Those of `tokens` that are not of the grammar, in their order.
pub open spec fn rejected(tokens: Seq<Seq<char>>) -> Seq<Seq<char>>
    decreases tokens.len(),
{
    if tokens.len() == 0 {
        Seq::empty()
    } else if instruction_of(tokens.last()) is None {
        rejected(tokens.drop_last()).push(tokens.last())
    } else {
        rejected(tokens.drop_last())
    }
}

/// What a run leaves: the field, and the tokens that were passed over.
#[derive(Debug)]
pub struct Outcome {
    pub field: Grid,
    pub skipped: Vec<String>,
}

/// Calls `str::split_whitespace` on `line` and collects the pieces. The
/// contract gives the pieces their name, `whitespace_tokens`, and claims
/// nothing else of them.
#[verifier::external_body]
fn split_tokens(line: &str) -> (tokens: Vec<String>)
    ensures
        texts(tokens@) == whitespace_tokens(line@),
{
    line.split_whitespace().map(String::from).collect()
}

/// Applies `tokens` in order to `field`. A token that is not of the grammar
/// changes nothing and is returned in the list of skipped tokens; the
/// tokens after it are applied all the same.
pub fn apply_tokens(field: &mut Grid, tokens: &Vec<String>) -> (skipped: Vec<String>)
    ensures
        final(field)@ == field_after(old(field)@, texts(tokens@)),
        texts(skipped@) == rejected(texts(tokens@)),
{
    let ghost start = field@;
    let ghost all = texts(tokens@);
    let mut skipped: Vec<String> = Vec::new();
    proof {
        assert(texts(skipped@) =~= rejected(all.take(0)));
    }
    let mut i: usize = 0;
    while i < tokens.len()
        invariant
            i <= tokens.len(),
            all == texts(tokens@),
            field@ == field_after(start, all.take(i as int)),
            texts(skipped@) == rejected(all.take(i as int)),
        decreases tokens.len() - i,
    {
        let ghost before = texts(skipped@);
        proof {
            assert(all.take(i + 1).drop_last() =~= all.take(i as int));
            assert(all.take(i + 1).last() == tokens@[i as int]@);
        }
        match parse_token(tokens[i].as_str()) {
            Some(instruction) => {
                field.apply(&instruction);
            },
            None => {
                skipped.push(tokens[i].clone());
                proof {
                    assert(texts(skipped@) =~= before.push(tokens@[i as int]@));
                }
            },
        }
        i += 1;
    }
    proof {
        assert(all.take(tokens.len() as int) =~= all);
    }
    skipped
}

/// Runs one line on a fresh field, in which every cell is planted.
pub fn run_line(line: &str) -> (outcome: Outcome)
    ensures
        outcome.field@ == field_after(uniform(Cell::Planted), whitespace_tokens(line@)),
        texts(outcome.skipped@) == rejected(whitespace_tokens(line@)),
{
    let tokens = split_tokens(line);
    let mut field = Grid::new();
    let skipped = apply_tokens(&mut field, &tokens);
    Outcome { field, skipped }
}

} // verus!
