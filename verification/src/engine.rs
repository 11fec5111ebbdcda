//! Instructions and their effect on the field.

use vstd::prelude::*;
use crate::field::{Cell, Grid, HEIGHT, WIDTH};

verus! {

/// What an instruction does to each cell of its disc.
#[derive(Clone, Copy, Debug, PartialEq, Eq, Structural)]
pub enum Action {
    /// Sets the cell to planted.
    Plant,
    /// Sets the cell to mowed.
    Mow,
    /// Plants a mowed cell and mows a planted one.
    PlantMow,
}

/// One operation on the field: an action, the centre of a disc and the
/// disc's diameter. The centre may lie outside the field.
#[derive(Clone, Copy, Debug, PartialEq, Eq, Structural)]
pub struct Instruction {
    pub action: Action,
    pub row: isize,
    pub col: isize,
    pub diameter: isize,
}

/// The action that a prefix word names: `PLANT` and `PLANTMOW` name
/// themselves, every other word (the empty one too) means mowing.
pub open spec fn action_named(word: Seq<char>) -> Action {
    if word == seq!['P', 'L', 'A', 'N', 'T'] {
        Action::Plant
    } else if word == seq!['P', 'L', 'A', 'N', 'T', 'M', 'O', 'W'] {
        Action::PlantMow
    } else {
        Action::Mow
    }
}

/// The state of a cell after `action` has touched it once.
pub open spec fn acted(action: Action, cell: Cell) -> Cell {
    match action {
        Action::Plant => Cell::Planted,
        Action::Mow => Cell::Mowed,
        Action::PlantMow => match cell {
            Cell::Planted => Cell::Mowed,
            Cell::Mowed => Cell::Planted,
        },
    }
}

/// The largest offset from the centre that is looked at, in each direction:
/// half the diameter, rounded toward zero.
pub open spec fn scan_bound(diameter: int) -> int {
    if diameter >= 0 {
        diameter / 2
    } else {
        -((-diameter) / 2)
    }
}

/// Whether the offset (`dy`, `dx`) from the centre belongs to the disc of
/// the given diameter: it is within the scan bound in both directions, and
/// its distance from the centre is at most half the diameter (stated here
/// with both sides squared and multiplied by four, so that no fraction
/// occurs).
pub open spec fn in_disc(dy: int, dx: int, diameter: int) -> bool {
    &&& -scan_bound(diameter) <= dy <= scan_bound(diameter)
    &&& -scan_bound(diameter) <= dx <= scan_bound(diameter)
    &&& 4 * (dx * dx + dy * dy) <= diameter * diameter
}

/// The cell at (`r`, `c`) after one instruction with the given parts.
pub open spec fn applied_cell(
    rows: Seq<Seq<Cell>>,
    action: Action,
    center_row: int,
    center_col: int,
    diameter: int,
    r: int,
    c: int,
) -> Cell {
    if in_disc(r - center_row, c - center_col, diameter) {
        acted(action, rows[r][c])
    } else {
        rows[r][c]
    }
}

/// The field after one instruction: the action has touched each cell of the
/// field that lies in the disc exactly once, and no other cell.
pub open spec fn applied(
    rows: Seq<Seq<Cell>>,
    action: Action,
    center_row: int,
    center_col: int,
    diameter: int,
) -> Seq<Seq<Cell>> {
    Seq::new(
        HEIGHT as nat,
        |r: int|
            Seq::new(
                WIDTH as nat,
                |c: int| applied_cell(rows, action, center_row, center_col, diameter, r, c),
            ),
    )
}

/// The field on the way through one instruction: the first `done` cells, in
/// row-major order, have been dealt with.
spec fn applied_upto(
    rows: Seq<Seq<Cell>>,
    action: Action,
    center_row: int,
    center_col: int,
    diameter: int,
    done: int,
) -> Seq<Seq<Cell>> {
    Seq::new(
        HEIGHT as nat,
        |r: int|
            Seq::new(
                WIDTH as nat,
                |c: int|
                    if r * WIDTH + c < done {
                        applied_cell(rows, action, center_row, center_col, diameter, r, c)
                    } else {
                        rows[r][c]
                    },
            ),
    )
}

impl Action {
    /// The action named by `prefix`.
    pub fn from_str(prefix: &str) -> (action: Action)
        ensures
            action == action_named(prefix@),
    {
        proof {
            reveal_strlit("PLANT");
            reveal_strlit("PLANTMOW");
            assert("PLANT"@ =~= seq!['P', 'L', 'A', 'N', 'T']);
            assert("PLANTMOW"@ =~= seq!['P', 'L', 'A', 'N', 'T', 'M', 'O', 'W']);
        }
        let word = prefix.to_owned();
        if word == "PLANT".to_owned() {
            Action::Plant
        } else if word == "PLANTMOW".to_owned() {
            Action::PlantMow
        } else {
            Action::Mow
        }
    }

    /// The state of `cell` after this action has touched it.
    pub fn act(self, cell: Cell) -> (after: Cell)
        ensures
            after == acted(self, cell),
    {
        match self {
            Action::Plant => Cell::Planted,
            Action::Mow => Cell::Mowed,
            Action::PlantMow => match cell {
                Cell::Planted => Cell::Mowed,
                Cell::Mowed => Cell::Planted,
            },
        }
    }
}

/// Whether the offset (`dy`, `dx`) lies in the disc of the given diameter.
pub fn covers(dy: isize, dx: isize, diameter: isize) -> (inside: bool)
    ensures
        inside == in_disc(dy as int, dx as int, diameter as int),
{
    let d: i128 = diameter as i128;
    let y: i128 = dy as i128;
    let x: i128 = dx as i128;
    let bound: i128 = if d >= 0 {
        d / 2
    } else {
        -((-d) / 2)
    };
    if y < -bound || y > bound || x < -bound || x > bound {
        return false;
    }
    assert(0 <= bound <= 0x3fff_ffff_ffff_ffff);
    assert(0 <= y * y <= 0x3fff_ffff_ffff_ffff * 0x3fff_ffff_ffff_ffff) by (nonlinear_arith)
        requires
            -bound <= y <= bound,
            0 <= bound <= 0x3fff_ffff_ffff_ffff,
    ;
    assert(0 <= x * x <= 0x3fff_ffff_ffff_ffff * 0x3fff_ffff_ffff_ffff) by (nonlinear_arith)
        requires
            -bound <= x <= bound,
            0 <= bound <= 0x3fff_ffff_ffff_ffff,
    ;
    assert(0 <= d * d <= 0x8000_0000_0000_0000 * 0x8000_0000_0000_0000) by (nonlinear_arith)
        requires
            -0x8000_0000_0000_0000 <= d <= 0x8000_0000_0000_0000,
    ;
    assert(0x3fff_ffff_ffff_ffff * 0x3fff_ffff_ffff_ffff == 21267647932558653957237540927630737409) by (nonlinear_arith);
    assert(0x8000_0000_0000_0000 * 0x8000_0000_0000_0000 == 85070591730234615865843651857942052864) by (nonlinear_arith);
    4 * (x * x + y * y) <= d * d
}

/// Applies one instruction to the field. Each cell of the field whose
/// offset from the centre lies in the disc is touched once by `action`;
/// the parts of the disc outside the field are passed over.
pub fn apply_instruction(
    field: &mut Grid,
    action: Action,
    center_row: isize,
    center_col: isize,
    diam: isize,
)
    ensures
        final(field)@ == applied(
            old(field)@,
            action,
            center_row as int,
            center_col as int,
            diam as int,
        ),
{
    let ghost start = field@;
    proof {
        field.shape();
        assert(field@ =~~= applied_upto(
            start,
            action,
            center_row as int,
            center_col as int,
            diam as int,
            0,
        ));
    }
    let mut row: usize = 0;
    while row < HEIGHT
        invariant
            row <= HEIGHT,
            field@ == applied_upto(
                start,
                action,
                center_row as int,
                center_col as int,
                diam as int,
                row * WIDTH,
            ),
        decreases HEIGHT - row,
    {
        let mut col: usize = 0;
        while col < WIDTH
            invariant
                row < HEIGHT,
                col <= WIDTH,
                field@ == applied_upto(
                    start,
                    action,
                    center_row as int,
                    center_col as int,
                    diam as int,
                    row * WIDTH + col,
                ),
            decreases WIDTH - col,
        {
            let ghost before = field@;
            if touches(row, col, center_row, center_col, diam) {
                match field.get(row, col) {
                    Some(cell) => field.put(row, col, action.act(cell)),
                    None => {},
                }
            }
            proof {
                field.shape();
                assert(field@ =~~= applied_upto(
                    start,
                    action,
                    center_row as int,
                    center_col as int,
                    diam as int,
                    row * WIDTH + col + 1,
                ));
            }
            col += 1;
        }
        row += 1;
    }
    proof {
        assert(field@ =~~= applied(
            start,
            action,
            center_row as int,
            center_col as int,
            diam as int,
        ));
    }
}

/// Whether the cell at (`row`, `col`) of the field lies in the disc with the
/// given centre and diameter.
fn touches(row: usize, col: usize, center_row: isize, center_col: isize, diam: isize) -> (inside:
    bool)
    requires
        row < HEIGHT,
        col < WIDTH,
    ensures
        inside == in_disc(row - center_row, col - center_col, diam as int),
{
    let dy: i128 = row as i128 - center_row as i128;
    let dx: i128 = col as i128 - center_col as i128;
    if dy < isize::MIN as i128 || dy > isize::MAX as i128 || dx < isize::MIN as i128 || dx
        > isize::MAX as i128 {
        // An offset that large is beyond every scan bound.
        false
    } else {
        covers(dy as isize, dx as isize, diam)
    }
}

impl Grid {
    /// Applies `instruction` to the field.
    pub fn apply(&mut self, instruction: &Instruction)
        ensures
            final(self)@ == applied(
                old(self)@,
                instruction.action,
                instruction.row as int,
                instruction.col as int,
                instruction.diameter as int,
            ),
    {
        apply_instruction(
            self,
            instruction.action,
            instruction.row,
            instruction.col,
            instruction.diameter,
        );
    }
}

} // verus!
