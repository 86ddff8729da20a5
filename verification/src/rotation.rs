use vstd::prelude::*;

verus! {

/// The four orientations of a piece within its 4x4 logical grid, in clockwise
/// order.  A clockwise rotation advances by one step and wraps after the
/// fourth.
pub enum Rotation {
    R0,
    R90,
    R180,
    R270,
}

/// The orientation one clockwise step after `r`.
pub open spec fn clockwise(r: Rotation) -> Rotation {
    match r {
        Rotation::R0 => Rotation::R90,
        Rotation::R90 => Rotation::R180,
        Rotation::R180 => Rotation::R270,
        Rotation::R270 => Rotation::R0,
    }
}

/// The orientation one counter-clockwise step before `r`.
pub open spec fn counter_clockwise(r: Rotation) -> Rotation {
    match r {
        Rotation::R0 => Rotation::R270,
        Rotation::R90 => Rotation::R0,
        Rotation::R180 => Rotation::R90,
        Rotation::R270 => Rotation::R180,
    }
}

/// Flat offset, in a 16-character shape encoding, of the logical cell
/// (col, row) of the 4x4 piece grid viewed under orientation `r`.
pub open spec fn rotate_index(col: int, row: int, r: Rotation) -> int {
    match r {
        Rotation::R0 => row * 4 + col,
        Rotation::R90 => 12 + row - 4 * col,
        Rotation::R180 => 15 - row * 4 - col,
        Rotation::R270 => 3 - row + 4 * col,
    }
}

/// Flat offset of (col, row) in a row-major 4x4 grid; the same as
/// `rotate_index` at `R0`.
pub open spec fn cell_index(col: int, row: int) -> int {
    row * 4 + col
}

/// Column of the grid cell that (col, row) reaches after one quarter turn
/// clockwise about the centre of the 4x4 grid.
pub open spec fn quarter_turn_col(col: int, row: int) -> int {
    row
}

/// Row of the grid cell that (col, row) reaches after one quarter turn
/// clockwise about the centre of the 4x4 grid.
pub open spec fn quarter_turn_row(col: int, row: int) -> int {
    3 - col
}

impl Rotation {
    pub fn rotate_clockwise(p_rotation: &Rotation) -> (r: Rotation)
        ensures
            r == clockwise(*p_rotation),
    {
        match p_rotation {
            Rotation::R0 => Rotation::R90,
            Rotation::R90 => Rotation::R180,
            Rotation::R180 => Rotation::R270,
            Rotation::R270 => Rotation::R0,
        }
    }

    pub fn _rotate_counter_clockwise(p_rotation: &Rotation) -> (r: Rotation)
        ensures
            r == counter_clockwise(*p_rotation),
    {
        match p_rotation {
            Rotation::R0 => Rotation::R270,
            Rotation::R90 => Rotation::R0,
            Rotation::R180 => Rotation::R90,
            Rotation::R270 => Rotation::R180,
        }
    }

    pub fn rotate(p_pos_x: i16, p_pos_y: i16, p_rotation: &Rotation) -> (r: i16)
        requires
            0 <= p_pos_x < 4,
            0 <= p_pos_y < 4,
        ensures
            r == rotate_index(p_pos_x as int, p_pos_y as int, *p_rotation),
            0 <= r < 16,
    {
        match p_rotation {
            Rotation::R0 => p_pos_y * 4 + p_pos_x,
            Rotation::R90 => 12 + p_pos_y - (4 * p_pos_x),
            Rotation::R180 => 15 - (p_pos_y * 4) - p_pos_x,
            Rotation::R270 => 3 - p_pos_y + (4 * p_pos_x),
        }
    }
}

/// Law: under a fixed orientation, `rotate_index` maps distinct cells of the
/// 4x4 grid to distinct flat offsets.  Together with `lemma_rotate_in_range`
/// and the grid and the offset range both having sixteen elements, the map is
/// a bijection onto [0, 16).
pub proof fn lemma_rotate_injective(r: Rotation, c1: int, r1: int, c2: int, r2: int)
    requires
        0 <= c1 < 4,
        0 <= r1 < 4,
        0 <= c2 < 4,
        0 <= r2 < 4,
        c1 != c2 || r1 != r2,
    ensures
        rotate_index(c1, r1, r) != rotate_index(c2, r2, r),
{
}

/// Law: under a fixed orientation, every flat offset in [0, 16) is reached
/// from some cell of the 4x4 grid.  With `lemma_rotate_injective` this makes
/// the map a bijection between the grid and [0, 16).
pub proof fn lemma_rotate_surjective(r: Rotation, i: int)
    requires
        0 <= i < 16,
    ensures
        exists|col: int, row: int|
            0 <= col < 4 && 0 <= row < 4 && #[trigger] rotate_index(col, row, r) == i,
{
    match r {
        Rotation::R0 => {
            assert(rotate_index(i % 4, i / 4, r) == i);
        },
        Rotation::R90 => {
            assert(rotate_index(3 - i / 4, i % 4, r) == i);
        },
        Rotation::R180 => {
            assert(rotate_index(3 - i % 4, 3 - i / 4, r) == i);
        },
        Rotation::R270 => {
            assert(rotate_index(i / 4, 3 - i % 4, r) == i);
        },
    }
}

/// Law: every flat offset produced by `rotate_index` on the 4x4 grid lies in
/// [0, 16), so it is a valid offset into a 16-character shape encoding.
pub proof fn lemma_rotate_in_range(r: Rotation, col: int, row: int)
    requires
        0 <= col < 4,
        0 <= row < 4,
    ensures
        0 <= rotate_index(col, row, r) < 16,
{
}

/// Law: the 90-degree formula names exactly the cell one quarter turn away:
/// the flat offset of (col, row) under `R90` is the row-major offset of the
/// quarter-turned cell.
pub proof fn lemma_rotate_r90_is_quarter_turn(col: int, row: int)
    requires
        0 <= col < 4,
        0 <= row < 4,
    ensures
        rotate_index(col, row, Rotation::R90) == cell_index(
            quarter_turn_col(col, row),
            quarter_turn_row(col, row),
        ),
{
}

/// Law: two quarter turns compose to the 180-degree formula and three to the
/// 270-degree formula, so the four orientation formulas are the iterates of a
/// single quarter turn.
pub proof fn lemma_rotate_turns_compose(col: int, row: int)
    requires
        0 <= col < 4,
        0 <= row < 4,
    ensures
        rotate_index(col, row, Rotation::R180) == cell_index(
            quarter_turn_col(quarter_turn_col(col, row), quarter_turn_row(col, row)),
            quarter_turn_row(quarter_turn_col(col, row), quarter_turn_row(col, row)),
        ),
        rotate_index(col, row, Rotation::R270) == rotate_index(
            quarter_turn_col(col, row),
            quarter_turn_row(col, row),
            Rotation::R180,
        ),
{
}

/// Law: four quarter turns return a cell to itself, so applying the
/// orientations 0, 90, 180, 270 degrees in sequence to any fixed cell comes
/// back to the original flat offset (4-cycle closure).
pub proof fn lemma_rotate_four_cycle(col: int, row: int)
    requires
        0 <= col < 4,
        0 <= row < 4,
    ensures
        quarter_turn_col(
            quarter_turn_col(
                quarter_turn_col(quarter_turn_col(col, row), quarter_turn_row(col, row)),
                quarter_turn_row(quarter_turn_col(col, row), quarter_turn_row(col, row)),
            ),
            quarter_turn_row(
                quarter_turn_col(quarter_turn_col(col, row), quarter_turn_row(col, row)),
                quarter_turn_row(quarter_turn_col(col, row), quarter_turn_row(col, row)),
            ),
        ) == col,
        quarter_turn_row(
            quarter_turn_col(
                quarter_turn_col(quarter_turn_col(col, row), quarter_turn_row(col, row)),
                quarter_turn_row(quarter_turn_col(col, row), quarter_turn_row(col, row)),
            ),
            quarter_turn_row(
                quarter_turn_col(quarter_turn_col(col, row), quarter_turn_row(col, row)),
                quarter_turn_row(quarter_turn_col(col, row), quarter_turn_row(col, row)),
            ),
        ) == row,
        clockwise(clockwise(clockwise(clockwise(Rotation::R0)))) == Rotation::R0,
{
}

} // verus!
