use vstd::prelude::*;
use crate::block::Block;
use crate::grid::lemma_flat_index_bounds;
use crate::grid::lemma_flat_index_fits_usize;
use crate::rotation::Rotation;
use crate::screen::ScreenElement;
use crate::tetromino::is_catalog;
use crate::tetromino::lemma_shape_len;
use crate::tetromino::lemma_shape_spawn_extent;
use crate::tetromino::occupied;
use crate::tetromino::shape_seq;
use vstd::string::StrSliceExecFns;

verus! {

/// An occupied piece cell may land on target cell (cx, cy) of the field:
/// the column lies inside the horizontal bound, and where the row lies above
/// the floor bound the field cell there is blank.  A row at or below the
/// floor bound is not tested against the field: the horizontal bound gates
/// the occupancy check, exactly as the validator nests its comparisons.
pub open spec fn fits_cell(field: Block, cx: int, cy: int) -> bool {
    &&& 0 <= cx < field.width as int
    &&& (0 <= cy < field.height as int ==> field.glyph_at(cx, cy) == ' ')
}

/// Piece `piece` viewed under `rot`, with its 4x4 grid's top-left corner at
/// (pos_x, pos_y), lands every occupied cell on an admissible target.
pub open spec fn piece_fits(field: Block, piece: int, rot: Rotation, pos_x: int, pos_y: int) -> bool {
    forall|px: int, py: int|
        0 <= px < 4 && 0 <= py < 4 && #[trigger] occupied(piece, rot, px, py) ==> fits_cell(
            field,
            pos_x + px,
            pos_y + py,
        )
}

/// Whether the piece fits at the candidate position: iterates the sixteen
/// logical cells of the piece grid and tests every occupied one.
pub fn does_piece_fit(
    p_tetromino: &Vec<String>,
    p_tetrino: i16,
    p_rotation: &Rotation,
    p_pos_x: i16,
    p_pos_y: i16,
    p_screen: &crate::game::ScreenSetting,
    p_field: &Block,
) -> (r: bool)
    requires
        is_catalog(p_tetromino@),
        0 <= p_tetrino < 7,
        p_field.wf(),
        p_screen.field_width as int == p_field.width as int,
        p_screen.field_height as int == p_field.height as int,
    ensures
        r == piece_fits(*p_field, p_tetrino as int, *p_rotation, p_pos_x as int, p_pos_y as int),
{
    let ghost piece = p_tetrino as int;
    let ghost rot = *p_rotation;
    let mut px: i16 = 0;
    while px < 4
        invariant
            is_catalog(p_tetromino@),
            0 <= p_tetrino < 7,
            p_field.wf(),
            p_screen.field_width as int == p_field.width as int,
            p_screen.field_height as int == p_field.height as int,
            piece == p_tetrino as int,
            rot == *p_rotation,
            0 <= px <= 4,
            forall|qx: int, qy: int|
                0 <= qx < px && 0 <= qy < 4 && #[trigger] occupied(piece, rot, qx, qy)
                    ==> fits_cell(*p_field, p_pos_x as int + qx, p_pos_y as int + qy),
        decreases 4 - px,
    {
        let mut py: i16 = 0;
        while py < 4
            invariant
                is_catalog(p_tetromino@),
                0 <= p_tetrino < 7,
                p_field.wf(),
                p_screen.field_width as int == p_field.width as int,
                p_screen.field_height as int == p_field.height as int,
                piece == p_tetrino as int,
                rot == *p_rotation,
                0 <= px < 4,
                0 <= py <= 4,
                forall|qx: int, qy: int|
                    0 <= qx < px && 0 <= qy < 4 && #[trigger] occupied(piece, rot, qx, qy)
                        ==> fits_cell(*p_field, p_pos_x as int + qx, p_pos_y as int + qy),
                forall|qy: int|
                    0 <= qy < py && #[trigger] occupied(piece, rot, px as int, qy) ==> fits_cell(
                        *p_field,
                        p_pos_x as int + px as int,
                        p_pos_y as int + qy,
                    ),
            decreases 4 - py,
        {
            let piece_index = Rotation::rotate(px, py, p_rotation);
            proof {
                lemma_shape_len(piece);
                assert(p_tetromino@[piece]@ == shape_seq(piece));
            }
            let shape_string: &String = &p_tetromino[p_tetrino as usize];
            let shape_char = shape_string.as_str().get_char(piece_index as usize);
            if shape_char == 'X' {
                let cx: i32 = p_pos_x as i32 + px as i32;
                let cy: i32 = p_pos_y as i32 + py as i32;
                if cx < 0 || cx >= p_screen.field_width as i32 {
                    proof {
                        assert(occupied(piece, rot, px as int, py as int));
                        assert(!fits_cell(*p_field, p_pos_x as int + px as int, p_pos_y as int + py as int));
                    }
                    return false;
                }
                if 0 <= cy && cy < p_screen.field_height as i32 {
                    proof {
                        lemma_flat_index_fits_usize(cx as int, cy as int, p_field.width as int);
                        lemma_flat_index_bounds(
                            cx as int,
                            cy as int,
                            p_field.width as int,
                            p_field.height as int,
                        );
                    }
                    let field_index: usize = (cy as usize) * (p_field.width as usize) + (cx
                        as usize);
                    if *p_field.get_content_by_index(field_index) != ' ' {
                        proof {
                            assert(occupied(piece, rot, px as int, py as int));
                            assert(p_field.glyph_at(cx as int, cy as int) != ' ');
                            assert(!fits_cell(
                                *p_field,
                                p_pos_x as int + px as int,
                                p_pos_y as int + py as int,
                            ));
                        }
                        return false;
                    }
                }
                proof {
                    assert(fits_cell(
                        *p_field,
                        p_pos_x as int + px as int,
                        p_pos_y as int + py as int,
                    ));
                }
            } else {
                proof {
                    assert(!occupied(piece, rot, px as int, py as int));
                }
            }
            py += 1;
        }
        px += 1;
    }
    true
}

/// Law: a placement with any occupied cell whose target column reaches or
/// exceeds the field width does not fit.
pub proof fn lemma_fits_rejects_horizontal_overflow(
    field: Block,
    piece: int,
    rot: Rotation,
    pos_x: int,
    pos_y: int,
    px: int,
    py: int,
)
    requires
        0 <= px < 4,
        0 <= py < 4,
        occupied(piece, rot, px, py),
        pos_x + px >= field.width as int,
    ensures
        !piece_fits(field, piece, rot, pos_x, pos_y),
{
    assert(!fits_cell(field, pos_x + px, pos_y + py));
}

/// Law: when the field's top spawn rectangle is fully occupied, no piece fits
/// at the spawn position, so the spawn check fails and the game ends.  Every
/// piece occupies its cell (2, 1) at spawn orientation, which lands inside
/// the occupied rectangle (or outside the horizontal bound, which also
/// rejects).
pub proof fn lemma_spawn_blocked_is_game_over(field: Block, piece: int, spawn_x: int)
    requires
        0 <= piece < 7,
        field.height as int > 1,
        forall|cx: int, cy: int|
            spawn_x <= cx < spawn_x + 4 && 0 <= cy < 4 && 0 <= cx < field.width as int && cy
                < field.height as int ==> #[trigger] field.glyph_at(cx, cy) != ' ',
    ensures
        !piece_fits(field, piece, Rotation::R0, spawn_x, 0),
{
    lemma_shape_spawn_extent(piece);
    assert(occupied(piece, Rotation::R0, 2, 1));
    if 0 <= spawn_x + 2 < field.width as int {
        assert(field.glyph_at(spawn_x + 2, 1) != ' ');
        assert(!fits_cell(field, spawn_x + 2, 1));
    } else {
        assert(!fits_cell(field, spawn_x + 2, 1));
    }
}

} // verus!
