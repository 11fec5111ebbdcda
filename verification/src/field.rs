//! The field: a fixed rectangle of cells, each planted or mowed.

use vstd::prelude::*;
use vstd::array::array_fill_for_copy_types;
use vstd::string::StringExecFns;

verus! {

/// Number of rows of the field.
pub const HEIGHT: usize = 25;

/// Number of columns of the field.
pub const WIDTH: usize = 19;

/// The state of one cell of the field.
#[derive(Clone, Copy, Debug, PartialEq, Eq, Structural)]
pub enum Cell {
    Planted,
    Mowed,
}

/// Number of cells of the field.
pub const CELLS: usize = 475;

/// The field. Its view is a sequence of `HEIGHT` rows of `WIDTH` cells each.
#[derive(Clone, Copy, Debug)]
pub struct Grid {
    cells: [Cell; CELLS],
}

/// Whether `rows` has the shape of a field: `HEIGHT` rows of `WIDTH` cells.
pub open spec fn field_shaped(rows: Seq<Seq<Cell>>) -> bool {
    &&& rows.len() == HEIGHT
    &&& forall|r: int| 0 <= r < HEIGHT ==> (#[trigger] rows[r]).len() == WIDTH
}

/// The field in which every cell holds `cell`.
pub open spec fn uniform(cell: Cell) -> Seq<Seq<Cell>> {
    Seq::new(HEIGHT as nat, |r: int| Seq::new(WIDTH as nat, |c: int| cell))
}

/// The two characters that stand for a cell in the rendered text.
pub open spec fn glyph(cell: Cell) -> Seq<char> {
    match cell {
        Cell::Planted => seq!['{', '}'],
        Cell::Mowed => seq![' ', ' '],
    }
}

/// The glyphs of the cells of `row`, in column order.
pub open spec fn rendered_row(row: Seq<Cell>) -> Seq<char>
    decreases row.len(),
{
    if row.len() == 0 {
        Seq::empty()
    } else {
        rendered_row(row.drop_last()) + glyph(row.last())
    }
}

/// The text of `rows`: one line per row, each ended by a line break.
pub open spec fn rendered(rows: Seq<Seq<Cell>>) -> Seq<char>
    decreases rows.len(),
{
    if rows.len() == 0 {
        Seq::empty()
    } else {
        rendered(rows.drop_last()) + rendered_row(rows.last()) + seq!['\n']
    }
}

impl View for Grid {
    type V = Seq<Seq<Cell>>;

    closed spec fn view(&self) -> Seq<Seq<Cell>> {
        Seq::new(
            HEIGHT as nat,
            |r: int| Seq::new(WIDTH as nat, |c: int| self.cells@[r * WIDTH + c]),
        )
    }
}

impl Grid {
    /// The view of every field has the field's shape.
    pub broadcast proof fn shape(self)
        ensures
            field_shaped(#[trigger] self@),
    {
    }

    /// A field in which every cell holds `cell`.
    pub fn filled(cell: Cell) -> (grid: Grid)
        ensures
            grid@ == uniform(cell),
    {
        let grid = Grid { cells: array_fill_for_copy_types(cell) };
        assert(grid@ =~~= uniform(cell));
        grid
    }

    /// The initial field: every cell planted.
    pub fn new() -> (grid: Grid)
        ensures
            grid@ == uniform(Cell::Planted),
    {
        Grid::filled(Cell::Planted)
    }

    /// Sets every cell to planted, whatever the field held before.
    pub fn reset(&mut self)
        ensures
            final(self)@ == uniform(Cell::Planted),
    {
        *self = Grid::new();
    }

    /// The cell at `row` and `col`, or `None` where that place is outside
    /// the field.
    pub fn get(&self, row: usize, col: usize) -> (cell: Option<Cell>)
        ensures
            cell == (if row < HEIGHT && col < WIDTH {
                Some(self@[row as int][col as int])
            } else {
                None
            }),
    {
        if row < HEIGHT && col < WIDTH {
            Some(self.cells[row * WIDTH + col])
        } else {
            None
        }
    }

    /// Replaces the cell at `row` and `col`; a place outside the field is
    /// left alone and nothing changes.
    pub fn put(&mut self, row: usize, col: usize, cell: Cell)
        ensures
            row < HEIGHT && col < WIDTH ==> final(self)@ == old(self)@.update(
                row as int,
                old(self)@[row as int].update(col as int, cell),
            ),
            !(row < HEIGHT && col < WIDTH) ==> final(self)@ == old(self)@,
    {
        if row < HEIGHT && col < WIDTH {
            self.cells[row * WIDTH + col] = cell;
            assert(self@ =~~= old(self)@.update(
                row as int,
                old(self)@[row as int].update(col as int, cell),
            ));
        }
    }

    /// The field as text: `HEIGHT` lines of `2 * WIDTH` characters.
    pub fn render(&self) -> (text: String)
        ensures
            text@ == rendered(self@),
    {
        let mut text = String::new();
        let mut row: usize = 0;
        while row < HEIGHT
            invariant
                row <= HEIGHT,
                text@ == rendered(self@.take(row as int)),
            decreases HEIGHT - row,
        {
            let ghost before = text@;
            let mut col: usize = 0;
            while col < WIDTH
                invariant
                    row < HEIGHT,
                    col <= WIDTH,
                        text@ == before + rendered_row(self@[row as int].take(col as int)),
                decreases WIDTH - col,
            {
                let cell = self.cells[row * WIDTH + col];
                match cell {
                    Cell::Planted => text.append("{}"),
                    Cell::Mowed => text.append("  "),
                }
                proof {
                    reveal_strlit("{}");
                    reveal_strlit("  ");
                    let line = self@[row as int];
                    assert(line.take(col + 1).drop_last() =~= line.take(col as int));
                    assert(line.take(col + 1).last() == cell);
                    assert("{}"@ =~= glyph(Cell::Planted));
                    assert("  "@ =~= glyph(Cell::Mowed));
                }
                col += 1;
            }
            text.append("\n");
            proof {
                reveal_strlit("\n");
                assert(self@[row as int].take(WIDTH as int) =~= self@[row as int]);
                assert(self@.take(row + 1).drop_last() =~= self@.take(row as int));
                assert(self@.take(row + 1).last() == self@[row as int]);
                assert("\n"@ =~= seq!['\n']);
            }
            row += 1;
        }
        proof {
            assert(self@.take(HEIGHT as int) =~= self@);
        }
        text
    }
}

} // verus!
