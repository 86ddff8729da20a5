use vstd::prelude::*;
use crate::block::Block;
use crate::block::FieldView;
use crate::color::Color;
use crate::fits::fits_cell;
use crate::fits::piece_fits;
use crate::game::ScreenSetting;
use crate::grid::flat_index;
use crate::grid::lemma_flat_index_bounds;
use crate::grid::lemma_flat_index_div_mod;
use crate::grid::lemma_flat_index_injective;
use crate::piece::TetrisShape;
use crate::rotation::Rotation;
use crate::screen::ScreenElement;
use crate::tetromino::is_catalog;
use crate::tetromino::lemma_shape_len;
use crate::tetromino::lemma_shape_spawn_extent;
use crate::tetromino::occupied;
use crate::tetromino::shape_seq;
use vstd::string::StrSliceExecFns;

verus! {

/// The glyph the freshly initialized playfield shows at cell (x, y): wall
/// pieces along the two side columns and the floor row, corner pieces where
/// they meet, and blanks inside; the top row is open.
pub open spec fn initial_glyph(x: int, y: int, w: int, h: int) -> char {
    if x == 0 && y == h - 1 {
        '╚'
    } else if x == w - 1 && y == h - 1 {
        '╝'
    } else if y == h - 1 {
        '═'
    } else if x == 0 || x == w - 1 {
        '║'
    } else {
        ' '
    }
}

/// Allocates the playfield and pre-paints its border: every cell shows
/// `initial_glyph` in white on black.
pub fn create_initial_field(screen_settings: &ScreenSetting) -> (r: Block)
    requires
        0 <= screen_settings.field_width,
        0 <= screen_settings.field_height,
        screen_settings.field_width as int * screen_settings.field_height as int <= u16::MAX as int,
    ensures
        r.wf(),
        r.spec_width() as int == screen_settings.field_width as int,
        r.spec_height() as int == screen_settings.field_height as int,
        forall|x: int, y: int|
            0 <= x < screen_settings.field_width && 0 <= y < screen_settings.field_height
                ==> #[trigger] r.shows_at(
                x,
                y,
                initial_glyph(
                    x,
                    y,
                    screen_settings.field_width as int,
                    screen_settings.field_height as int,
                ),
                Color::White,
                Color::Black,
            ),
{
    let w: i16 = screen_settings.field_width;
    let h: i16 = screen_settings.field_height;
    let characters: [char; 7] = [' ', '║', '═', '╚', '╝', '╗', '╔'];
    let mut field = Block::new(w as u16, h as u16);
    let mut x: i16 = 0;
    while x < w
        invariant
            field.wf(),
            field.spec_width() == w as u16,
            field.spec_height() == h as u16,
            0 <= h,
            0 <= x <= w,
            characters@ =~= seq![' ', '║', '═', '╚', '╝', '╗', '╔'],
            forall|cx: int, cy: int|
                0 <= cx < x && 0 <= cy < h ==> #[trigger] field.shows_at(
                    cx,
                    cy,
                    initial_glyph(cx, cy, w as int, h as int),
                    Color::White,
                    Color::Black,
                ),
        decreases w - x,
    {
        let mut y: i16 = 0;
        while y < h
            invariant
                field.wf(),
                field.spec_width() == w as u16,
                field.spec_height() == h as u16,
                0 <= x < w,
                0 <= y <= h,
                characters@ =~= seq![' ', '║', '═', '╚', '╝', '╗', '╔'],
                forall|cx: int, cy: int|
                    (0 <= cx < x && 0 <= cy < h) || (cx == x as int && 0 <= cy < y)
                        ==> #[trigger] field.shows_at(
                        cx,
                        cy,
                        initial_glyph(cx, cy, w as int, h as int),
                        Color::White,
                        Color::Black,
                    ),
            decreases h - y,
        {
            let ghost prev = field;
            if x == 0 || x == w - 1 || y == h - 1 {
                if x == 0 && y == h - 1 {
                    field.change_content(x as u16, y as u16, characters[3], Color::White, Color::Black);
                } else if x == w - 1 && y == h - 1 {
                    field.change_content(x as u16, y as u16, characters[4], Color::White, Color::Black);
                } else if y == h - 1 {
                    field.change_content(x as u16, y as u16, characters[2], Color::White, Color::Black);
                } else {
                    field.change_content(x as u16, y as u16, characters[1], Color::White, Color::Black);
                }
            } else {
                field.change_content(x as u16, y as u16, characters[0], Color::White, Color::Black);
            }
            proof {
                lemma_flat_index_bounds(x as int, y as int, w as int, h as int);
                assert(field.shows_at(
                    x as int,
                    y as int,
                    initial_glyph(x as int, y as int, w as int, h as int),
                    Color::White,
                    Color::Black,
                ));
                assert forall|cx: int, cy: int|
                    ((0 <= cx < x && 0 <= cy < h) || (cx == x as int && 0 <= cy < y + 1)) && !(cx
                        == x as int && cy == y as int) implies #[trigger] field.shows_at(
                    cx,
                    cy,
                    initial_glyph(cx, cy, w as int, h as int),
                    Color::White,
                    Color::Black,
                ) by {
                    lemma_flat_index_bounds(cx, cy, w as int, h as int);
                    lemma_flat_index_injective(cx, cy, x as int, y as int, w as int);
                    assert(prev.shows_at(
                        cx,
                        cy,
                        initial_glyph(cx, cy, w as int, h as int),
                        Color::White,
                        Color::Black,
                    ));
                }
            }
            y += 1;
        }
        x += 1;
    }
    field
}

/// Law: a freshly spawned piece fits on the freshly initialized reference
/// playfield (12 wide, 18 tall, spawn column 6): its occupied cells land on
/// blank interior cells.
pub proof fn lemma_spawn_fits_on_initial_field(field: Block, piece: int)
    requires
        0 <= piece < 7,
        field.spec_width() == 12,
        field.spec_height() == 18,
        forall|x: int, y: int|
            0 <= x < 12 && 0 <= y < 18 ==> #[trigger] field.shows_at(
                x,
                y,
                initial_glyph(x, y, 12, 18),
                Color::White,
                Color::Black,
            ),
    ensures
        piece_fits(field, piece, Rotation::R0, 6, 0),
{
    lemma_shape_spawn_extent(piece);
    assert forall|px: int, py: int|
        0 <= px < 4 && 0 <= py < 4 && #[trigger] occupied(piece, Rotation::R0, px, py) implies
        fits_cell(field, 6 + px, 0 + py) by {
        assert(1 <= px <= 2 && 0 <= py <= 3);
        assert(field.shows_at(
            6 + px,
            0 + py,
            initial_glyph(6 + px, 0 + py, 12, 18),
            Color::White,
            Color::Black,
        ));
        assert(initial_glyph(6 + px, 0 + py, 12, 18) == ' ');
    }
}

/// The target cell (cx, cy) is covered by some occupied cell of the piece at
/// its current position and orientation.
pub open spec fn covered(shape: TetrisShape, cx: int, cy: int) -> bool {
    exists|px: int, py: int|
        0 <= px < 4 && 0 <= py < 4 && #[trigger] occupied(
            shape.current_piece as int,
            shape.current_rotation,
            px,
            py,
        ) && cx == shape.current_x as int + px && cy == shape.current_y as int + py
}

/// Every occupied cell of the piece lands inside the field.
pub open spec fn piece_in_bounds(shape: TetrisShape, field: Block) -> bool {
    forall|px: int, py: int|
        0 <= px < 4 && 0 <= py < 4 && #[trigger] occupied(
            shape.current_piece as int,
            shape.current_rotation,
            px,
            py,
        ) ==> 0 <= shape.current_x as int + px < field.spec_width() as int && 0
            <= shape.current_y as int + py < field.spec_height() as int
}

/// Every interior cell of the given row is non-blank.
pub open spec fn row_full(field: Block, row: int) -> bool {
    forall|px: int|
        1 <= px < field.spec_width() as int - 1 ==> #[trigger] field.glyph_at(px, row) != ' '
}

/// Among the first `py` rows of the piece's 4-row window starting at `y`,
/// `row` is one that lies above the floor border and is fully occupied.
pub open spec fn marked_row_before(pre: Block, y: int, row: int, py: int) -> bool {
    &&& y <= row < y + py
    &&& row < pre.spec_height() as int - 1
    &&& row_full(pre, row)
}

/// `row` lies in the piece's 4-row window starting at `y`, above the floor
/// border, and is fully occupied.
pub open spec fn marked_row(pre: Block, y: int, row: int) -> bool {
    marked_row_before(pre, y, row, 4)
}

/// The full rows found scanning the piece window rows `py` to 3, top to
/// bottom.
pub open spec fn full_rows_from(pre: Block, y: int, py: int) -> Seq<i16>
    decreases 4 - py,
{
    if py < 0 || py >= 4 {
        Seq::empty()
    } else if y + py < pre.spec_height() as int - 1 && row_full(pre, y + py) {
        seq![(y + py) as i16] + full_rows_from(pre, y, py + 1)
    } else {
        full_rows_from(pre, y, py + 1)
    }
}

/// Scans the four rows of the just-locked piece's window: every fully
/// occupied interior row above the floor border is repainted with the
/// line-clear marker and queued, in top-to-bottom order, for clearing.
pub fn test_full_lines(
    p_shape: &TetrisShape,
    p_screen: &ScreenSetting,
    p_field: &mut Block,
    p_lines: &mut Vec<i16>,
)
    requires
        old(p_field).wf(),
        p_screen.field_width as int == old(p_field).spec_width() as int,
        p_screen.field_height as int == old(p_field).spec_height() as int,
        0 <= p_shape.current_y,
    ensures
        final(p_field).wf(),
        final(p_field).width == old(p_field).width,
        final(p_field).height == old(p_field).height,
        final(p_lines)@ == old(p_lines)@ + full_rows_from(
            *old(p_field),
            p_shape.current_y as int,
            0,
        ),
        forall|cx: int, cy: int|
            1 <= cx < old(p_field).spec_width() as int - 1 && marked_row(
                *old(p_field),
                p_shape.current_y as int,
                cy,
            ) ==> final(p_field).shows_at(cx, cy, '=', Color::Yellow, Color::Black),
        forall|cx: int, cy: int|
            0 <= cx < old(p_field).spec_width() && 0 <= cy < old(p_field).spec_height() && !(1
                <= cx < old(p_field).spec_width() as int - 1 && marked_row(
                *old(p_field),
                p_shape.current_y as int,
                cy,
            )) ==> #[trigger] final(p_field).same_cell_as(*old(p_field), cx, cy),
{
    let w: i16 = p_screen.field_width;
    let h: i16 = p_screen.field_height;
    let ghost y0 = p_shape.current_y as int;
    let mut py: i16 = 0;
    while py < 4
        invariant
            p_field.wf(),
            p_field.width == old(p_field).width,
            p_field.height == old(p_field).height,
            w as int == old(p_field).spec_width() as int,
            h as int == old(p_field).spec_height() as int,
            0 <= p_shape.current_y,
            y0 == p_shape.current_y as int,
            0 <= py <= 4,
            p_lines@ + full_rows_from(*old(p_field), y0, py as int) == old(p_lines)@
                + full_rows_from(*old(p_field), y0, 0),
            forall|cx: int, cy: int|
                1 <= cx < w && cx < w - 1 && marked_row_before(*old(p_field), y0, cy, py as int)
                    ==> p_field.shows_at(cx, cy, '=', Color::Yellow, Color::Black),
            forall|cx: int, cy: int|
                0 <= cx < w && 0 <= cy < h && !(1 <= cx < w - 1 && marked_row_before(
                    *old(p_field),
                    y0,
                    cy,
                    py as int,
                )) ==> #[trigger] p_field.same_cell_as(*old(p_field), cx, cy),
        decreases 4 - py,
    {
        let cy: i32 = p_shape.current_y as i32 + py as i32;
        if cy < h as i32 - 1 {
            let mut line: bool = true;
            let mut px: i16 = 1;
            while px < w - 1
                invariant
                    p_field.wf(),
                    p_field.width == old(p_field).width,
                    p_field.height == old(p_field).height,
                    w as int == old(p_field).spec_width() as int,
                    h as int == old(p_field).spec_height() as int,
                    0 <= py < 4,
                    y0 == p_shape.current_y as int,
                    0 <= y0,
                    cy == y0 + py,
                    0 <= cy < h as int - 1,
                    1 <= px,
                    px <= w - 1 || px == 1,
                    forall|cx: int, cy2: int|
                        0 <= cx < w && 0 <= cy2 < h && !(1 <= cx < w - 1 && marked_row_before(
                            *old(p_field),
                            y0,
                            cy2,
                            py as int,
                        )) ==> #[trigger] p_field.same_cell_as(*old(p_field), cx, cy2),
                    line <==> (forall|qx: int|
                        1 <= qx < px ==> #[trigger] old(p_field).glyph_at(qx, cy as int) != ' '),
                decreases w - px,
            {
                proof {
                    crate::grid::lemma_flat_index_fits_usize(px as int, cy as int, w as int);
                    lemma_flat_index_bounds(px as int, cy as int, w as int, h as int);
                    assert(p_field.same_cell_as(*old(p_field), px as int, cy as int));
                }
                let index: usize = (cy as usize) * (w as usize) + (px as usize);
                let cell_blank = *p_field.get_content_by_index(index) == ' ';
                proof {
                    assert(p_field.glyph_at(px as int, cy as int) == old(p_field).glyph_at(
                        px as int,
                        cy as int,
                    ));
                }
                let ghost line_was = line;
                line = line && !cell_blank;
                proof {
                    if line {
                        assert(line_was);
                        assert forall|qx: int| 1 <= qx < px + 1 implies #[trigger] old(
                            p_field,
                        ).glyph_at(qx, cy as int) != ' ' by {
                            if qx == px as int {
                                assert(p_field.glyph_at(px as int, cy as int) != ' ');
                            }
                        }
                    } else {
                        if line_was {
                            assert(old(p_field).glyph_at(px as int, cy as int) == ' ');
                        } else {
                            let qx = choose|qx: int|
                                1 <= qx < px && #[trigger] old(p_field).glyph_at(qx, cy as int)
                                    == ' ';
                            assert(old(p_field).glyph_at(qx, cy as int) == ' ');
                        }
                    }
                }
                px += 1;
            }
            proof {
                if line {
                    assert(row_full(*old(p_field), cy as int));
                } else {
                    assert(!row_full(*old(p_field), cy as int));
                }
            }
            if line {
                let ghost before_mark = *p_field;
                let mut px: i16 = 1;
                while px < w - 1
                    invariant
                        p_field.wf(),
                        p_field.width == before_mark.width,
                        p_field.height == before_mark.height,
                        w as int == p_field.spec_width() as int,
                        h as int == p_field.spec_height() as int,
                        0 <= cy < h as int - 1,
                        1 <= px,
                        px <= w - 1 || px == 1,
                        forall|qx: int|
                            1 <= qx < px ==> p_field.shows_at(
                                qx,
                                cy as int,
                                '=',
                                Color::Yellow,
                                Color::Black,
                            ),
                        forall|cx: int, cy2: int|
                            0 <= cx < w && 0 <= cy2 < h && !(cy2 == cy as int && 1 <= cx < px)
                                ==> #[trigger] p_field.same_cell_as(before_mark, cx, cy2),
                    decreases w - px,
                {
                    let ghost prev = *p_field;
                    p_field.change_content(px as u16, cy as u16, '=', Color::Yellow, Color::Black);
                    proof {
                        lemma_flat_index_bounds(px as int, cy as int, w as int, h as int);
                        assert forall|ox: int, oy: int|
                            0 <= ox < w && 0 <= oy < h && !(ox == px as int && oy == cy as int)
                                implies #[trigger] p_field.same_cell_as(prev, ox, oy) by {
                            lemma_flat_index_bounds(ox, oy, w as int, h as int);
                            lemma_flat_index_injective(ox, oy, px as int, cy as int, w as int);
                        }
                        assert(p_field.shows_at(px as int, cy as int, '=', Color::Yellow, Color::Black));
                        assert forall|qx: int| 1 <= qx < px + 1 implies p_field.shows_at(
                            qx,
                            cy as int,
                            '=',
                            Color::Yellow,
                            Color::Black,
                        ) by {
                            if qx < px {
                                assert(prev.shows_at(qx, cy as int, '=', Color::Yellow, Color::Black));
                                assert(p_field.same_cell_as(prev, qx, cy as int));
                            }
                        }
                        assert forall|cx: int, cy2: int|
                            0 <= cx < w && 0 <= cy2 < h && !(cy2 == cy as int && 1 <= cx < px + 1)
                                implies #[trigger] p_field.same_cell_as(before_mark, cx, cy2) by {
                            assert(prev.same_cell_as(before_mark, cx, cy2));
                            assert(p_field.same_cell_as(prev, cx, cy2));
                        }
                    }
                    px += 1;
                }
                p_lines.push(cy as i16);
                proof {
                    assert(full_rows_from(*old(p_field), y0, py as int) =~= seq![cy as i16]
                        + full_rows_from(*old(p_field), y0, py as int + 1));
                    assert(p_lines@ + full_rows_from(*old(p_field), y0, py as int + 1)
                        =~= old(p_lines)@ + full_rows_from(*old(p_field), y0, 0));
                    assert forall|cx: int, cy2: int|
                        1 <= cx < w && cx < w - 1 && marked_row_before(
                            *old(p_field),
                            y0,
                            cy2,
                            py as int + 1,
                        ) implies p_field.shows_at(cx, cy2, '=', Color::Yellow, Color::Black) by {
                        if cy2 == cy as int {
                        } else {
                            assert(marked_row_before(*old(p_field), y0, cy2, py as int));
                            assert(before_mark.shows_at(cx, cy2, '=', Color::Yellow, Color::Black));
                            assert(p_field.same_cell_as(before_mark, cx, cy2));
                        }
                    }
                    assert forall|cx: int, cy2: int|
                        0 <= cx < w && 0 <= cy2 < h && !(1 <= cx < w - 1 && marked_row_before(
                            *old(p_field),
                            y0,
                            cy2,
                            py as int + 1,
                        )) implies #[trigger] p_field.same_cell_as(*old(p_field), cx, cy2) by {
                        assert(!(1 <= cx < w - 1 && marked_row_before(
                            *old(p_field),
                            y0,
                            cy2,
                            py as int,
                        )));
                        assert(before_mark.same_cell_as(*old(p_field), cx, cy2));
                        assert(!(cy2 == cy as int && 1 <= cx < w - 1));
                        assert(p_field.same_cell_as(before_mark, cx, cy2));
                    }
                }
            } else {
                proof {
                    assert(full_rows_from(*old(p_field), y0, py as int) =~= full_rows_from(
                        *old(p_field),
                        y0,
                        py as int + 1,
                    ));
                    assert forall|cy2: int|
                        marked_row_before(*old(p_field), y0, cy2, py as int + 1) implies
                        marked_row_before(*old(p_field), y0, cy2, py as int) by {}
                }
            }
        } else {
            proof {
                assert(full_rows_from(*old(p_field), y0, py as int) =~= full_rows_from(
                    *old(p_field),
                    y0,
                    py as int + 1,
                ));
                assert forall|cy2: int|
                    marked_row_before(*old(p_field), y0, cy2, py as int + 1) implies
                    marked_row_before(*old(p_field), y0, cy2, py as int) by {}
            }
        }
        py += 1;
    }
    proof {
        assert(full_rows_from(*old(p_field), y0, 4) =~= Seq::<i16>::empty());
        assert(p_lines@ =~= p_lines@ + Seq::<i16>::empty());
    }
}

/// Permanently writes the piece's occupied cells into the playfield with the
/// locked glyph and the piece's color; every other cell is unchanged.
pub fn lock_piece(p_shape: &TetrisShape, p_tetromino: &Vec<String>, p_field: &mut Block)
    requires
        is_catalog(p_tetromino@),
        p_shape.wf(),
        old(p_field).wf(),
        piece_in_bounds(*p_shape, *old(p_field)),
    ensures
        final(p_field).wf(),
        final(p_field).width == old(p_field).width,
        final(p_field).height == old(p_field).height,
        forall|px: int, py: int|
            0 <= px < 4 && 0 <= py < 4 && #[trigger] occupied(
                p_shape.current_piece as int,
                p_shape.current_rotation,
                px,
                py,
            ) ==> final(p_field).shows_at(
                p_shape.current_x as int + px,
                p_shape.current_y as int + py,
                '0',
                Color::Grey,
                p_shape.current_color,
            ),
        forall|cx: int, cy: int|
            0 <= cx < old(p_field).spec_width() && 0 <= cy < old(p_field).spec_height()
                && !covered(*p_shape, cx, cy) ==> #[trigger] final(p_field).same_cell_as(
                *old(p_field),
                cx,
                cy,
            ),
{
    let ghost piece = p_shape.current_piece as int;
    let ghost rot = p_shape.current_rotation;
    let ghost w = p_field.spec_width() as int;
    let ghost h = p_field.spec_height() as int;
    let mut px: i16 = 0;
    while px < 4
        invariant
            is_catalog(p_tetromino@),
            p_shape.wf(),
            p_field.wf(),
            piece == p_shape.current_piece as int,
            rot == p_shape.current_rotation,
            w == p_field.spec_width() as int,
            h == p_field.spec_height() as int,
            p_field.width == old(p_field).width,
            p_field.height == old(p_field).height,
            piece_in_bounds(*p_shape, *old(p_field)),
            0 <= px <= 4,
            forall|qx: int, qy: int|
                0 <= qx < px && 0 <= qy < 4 && #[trigger] occupied(piece, rot, qx, qy)
                    ==> p_field.shows_at(
                    p_shape.current_x as int + qx,
                    p_shape.current_y as int + qy,
                    '0',
                    Color::Grey,
                    p_shape.current_color,
                ),
            forall|cx: int, cy: int|
                0 <= cx < w && 0 <= cy < h && !covered(*p_shape, cx, cy)
                    ==> #[trigger] p_field.same_cell_as(*old(p_field), cx, cy),
        decreases 4 - px,
    {
        let mut py: i16 = 0;
        while py < 4
            invariant
                is_catalog(p_tetromino@),
                p_shape.wf(),
                p_field.wf(),
                piece == p_shape.current_piece as int,
                rot == p_shape.current_rotation,
                w == p_field.spec_width() as int,
                h == p_field.spec_height() as int,
                p_field.width == old(p_field).width,
                p_field.height == old(p_field).height,
                piece_in_bounds(*p_shape, *old(p_field)),
                0 <= px < 4,
                0 <= py <= 4,
                forall|qx: int, qy: int|
                    0 <= qx < px && 0 <= qy < 4 && #[trigger] occupied(piece, rot, qx, qy)
                        ==> p_field.shows_at(
                        p_shape.current_x as int + qx,
                        p_shape.current_y as int + qy,
                        '0',
                        Color::Grey,
                        p_shape.current_color,
                    ),
                forall|qy: int|
                    0 <= qy < py && #[trigger] occupied(piece, rot, px as int, qy)
                        ==> p_field.shows_at(
                        p_shape.current_x as int + px as int,
                        p_shape.current_y as int + qy,
                        '0',
                        Color::Grey,
                        p_shape.current_color,
                    ),
                forall|cx: int, cy: int|
                    0 <= cx < w && 0 <= cy < h && !covered(*p_shape, cx, cy)
                        ==> #[trigger] p_field.same_cell_as(*old(p_field), cx, cy),
            decreases 4 - py,
        {
            let piece_index = Rotation::rotate(px, py, &p_shape.current_rotation);
            proof {
                lemma_shape_len(piece);
                assert(p_tetromino@[piece]@ == shape_seq(piece));
            }
            let shape_string: &String = &p_tetromino[p_shape.current_piece as usize];
            let shape_char = shape_string.as_str().get_char(piece_index as usize);
            if shape_char == 'X' {
                proof {
                    assert(occupied(piece, rot, px as int, py as int));
                }
                let cx: i32 = p_shape.current_x as i32 + px as i32;
                let cy: i32 = p_shape.current_y as i32 + py as i32;
                let ghost prev = *p_field;
                p_field.change_content(
                    cx as u16,
                    cy as u16,
                    '0',
                    Color::Grey,
                    p_shape.current_color,
                );
                proof {
                    lemma_flat_index_bounds(cx as int, cy as int, w, h);
                    assert forall|ox: int, oy: int|
                        0 <= ox < w && 0 <= oy < h && !(ox == cx as int && oy == cy as int)
                            implies #[trigger] p_field.same_cell_as(prev, ox, oy) by {
                        lemma_flat_index_bounds(ox, oy, w, h);
                        lemma_flat_index_injective(ox, oy, cx as int, cy as int, w);
                    }
                    assert(p_field.shows_at(
                        cx as int,
                        cy as int,
                        '0',
                        Color::Grey,
                        p_shape.current_color,
                    ));
                    assert(covered(*p_shape, cx as int, cy as int));
                    assert forall|qx: int, qy: int|
                        0 <= qx < px && 0 <= qy < 4 && #[trigger] occupied(piece, rot, qx, qy)
                            implies p_field.shows_at(
                        p_shape.current_x as int + qx,
                        p_shape.current_y as int + qy,
                        '0',
                        Color::Grey,
                        p_shape.current_color,
                    ) by {
                        assert(prev.shows_at(
                            p_shape.current_x as int + qx,
                            p_shape.current_y as int + qy,
                            '0',
                            Color::Grey,
                            p_shape.current_color,
                        ));
                        assert(p_field.same_cell_as(
                            prev,
                            p_shape.current_x as int + qx,
                            p_shape.current_y as int + qy,
                        ));
                    }
                    assert forall|qy: int|
                        0 <= qy < py + 1 && #[trigger] occupied(piece, rot, px as int, qy) implies
                        p_field.shows_at(
                        p_shape.current_x as int + px as int,
                        p_shape.current_y as int + qy,
                        '0',
                        Color::Grey,
                        p_shape.current_color,
                    ) by {
                        if qy < py {
                            assert(prev.shows_at(
                                p_shape.current_x as int + px as int,
                                p_shape.current_y as int + qy,
                                '0',
                                Color::Grey,
                                p_shape.current_color,
                            ));
                            assert(p_field.same_cell_as(
                                prev,
                                p_shape.current_x as int + px as int,
                                p_shape.current_y as int + qy,
                            ));
                        }
                    }
                    assert forall|ox: int, oy: int|
                        0 <= ox < w && 0 <= oy < h && !covered(*p_shape, ox, oy) implies
                        #[trigger] p_field.same_cell_as(*old(p_field), ox, oy) by {
                        assert(prev.same_cell_as(*old(p_field), ox, oy));
                        assert(p_field.same_cell_as(prev, ox, oy));
                    }
                }
            }
            py += 1;
        }
        px += 1;
    }
}


/// Cell `i` holds the same glyph and colors in `a` and in `b`.
pub open spec fn view_cell_eq(a: FieldView, b: FieldView, i: int) -> bool {
    &&& a.glyphs[i] == b.glyphs[i]
    &&& a.fgs[i] == b.fgs[i]
    &&& a.bgs[i] == b.bgs[i]
}

/// Cell (cx, cy) of a grid `w` wide holds the same glyph and colors in `a`
/// and in `b`.
pub open spec fn cell_eq_at(a: FieldView, b: FieldView, w: int, cx: int, cy: int) -> bool {
    view_cell_eq(a, b, cy * w + cx)
}

/// The field after clearing one queued row: every interior cell of rows 1 to
/// `row` takes the content and background of the cell above it with its
/// foreground repainted grey, the interior of the top row is blanked, and
/// every other cell (the border columns and all rows below `row`) is
/// unchanged.
pub open spec fn clear_one(v: FieldView, w: int, row: int) -> FieldView {
    FieldView {
        glyphs: Seq::new(
            v.glyphs.len(),
            |i: int|
                if 1 <= i % w < w - 1 && 0 <= i / w <= row {
                    if i / w == 0 {
                        ' '
                    } else {
                        v.glyphs[i - w]
                    }
                } else {
                    v.glyphs[i]
                },
        ),
        fgs: Seq::new(
            v.fgs.len(),
            |i: int|
                if 1 <= i % w < w - 1 && 0 <= i / w <= row {
                    if i / w == 0 {
                        Color::Black
                    } else {
                        Color::Grey
                    }
                } else {
                    v.fgs[i]
                },
        ),
        bgs: Seq::new(
            v.bgs.len(),
            |i: int|
                if 1 <= i % w < w - 1 && 0 <= i / w <= row {
                    if i / w == 0 {
                        Color::Black
                    } else {
                        v.bgs[i - w]
                    }
                } else {
                    v.bgs[i]
                },
        ),
    }
}

/// The field after clearing the queued rows in order.
pub open spec fn clear_rows(v: FieldView, w: int, rows: Seq<i16>) -> FieldView
    decreases rows.len(),
{
    if rows.len() == 0 {
        v
    } else {
        clear_rows(clear_one(v, w, rows[0] as int), w, rows.drop_first())
    }
}

/// Clearing one more row at the end folds onto the front-to-back recursion.
pub proof fn lemma_clear_rows_push(v: FieldView, w: int, rows: Seq<i16>, r: i16)
    ensures
        clear_rows(v, w, rows.push(r)) == clear_one(clear_rows(v, w, rows), w, r as int),
    decreases rows.len(),
{
    if rows.len() == 0 {
        assert(rows.push(r).len() == 1);
        assert(rows.push(r)[0] == r);
        assert(rows.push(r).drop_first() =~= Seq::<i16>::empty());
        assert(clear_rows(v, w, rows.push(r)) == clear_rows(
            clear_one(v, w, r as int),
            w,
            Seq::<i16>::empty(),
        ));
        assert(clear_rows(clear_one(v, w, r as int), w, Seq::<i16>::empty()) == clear_one(
            v,
            w,
            r as int,
        ));
        assert(clear_rows(v, w, rows) == v);
    } else {
        assert(rows.push(r)[0] == rows[0]);
        assert(rows.push(r).drop_first() =~= rows.drop_first().push(r));
        assert(clear_rows(v, w, rows.push(r)) == clear_rows(
            clear_one(v, w, rows[0] as int),
            w,
            rows.drop_first().push(r),
        ));
        lemma_clear_rows_push(clear_one(v, w, rows[0] as int), w, rows.drop_first(), r);
        assert(clear_rows(v, w, rows) == clear_rows(
            clear_one(v, w, rows[0] as int),
            w,
            rows.drop_first(),
        ));
    }
}

/// Settles the queued full rows: for each one, in order, the rows above it
/// shift down by one and the top interior row is blanked; the queue empties;
/// the awarded points are one hundred plus fifty per cleared row.  The
/// frontend performs the visual-delay pause before calling this.
pub fn add_points_to_score(
    lines: &mut Vec<i16>,
    screen_settings: &ScreenSetting,
    field: &mut Block,
) -> (r: u16)
    requires
        old(field).wf(),
        screen_settings.field_width as int == old(field).spec_width() as int,
        screen_settings.field_height as int == old(field).spec_height() as int,
        forall|i: int|
            0 <= i < old(lines)@.len() ==> 0 <= #[trigger] old(lines)@[i]
                < old(field).spec_height(),
        old(lines)@.len() * 150 <= u16::MAX,
    ensures
        final(field).wf(),
        final(field).width == old(field).width,
        final(field).height == old(field).height,
        final(field)@ == clear_rows(old(field)@, old(field).spec_width() as int, old(lines)@),
        final(lines)@.len() == 0,
        r as int == old(lines)@.len() * 100 + old(lines)@.len() * 50,
        old(lines)@.len() == 0 ==> *final(field) == *old(field) && *final(lines) == *old(lines),
{
    let ghost lines0 = old(lines)@;
    let ghost v0 = old(field)@;
    let ghost w = old(field).spec_width() as int;
    let ghost h = old(field).spec_height() as int;
    if lines.len() > 0 {
        let mut e: usize = 0;
        while e < lines.len()
            invariant
                field.wf(),
                field.width == old(field).width,
                field.height == old(field).height,
                w == field.spec_width() as int,
                h == field.spec_height() as int,
                screen_settings.field_width as int == w,
                screen_settings.field_height as int == h,
                lines@ == lines0,
                forall|i: int| 0 <= i < lines0.len() ==> 0 <= #[trigger] lines0[i] < h,
                0 <= e <= lines0.len(),
                v0.glyphs.len() == w * h,
                v0.fgs.len() == w * h,
                v0.bgs.len() == w * h,
                field@ == clear_rows(v0, w, lines0.take(e as int)),
            decreases lines0.len() - e,
        {
            let elem: i16 = lines[e];
            let ghost base = field@;
            proof {
                assert(0 <= elem < h);
            }
            let mut px: i16 = 1;
            while px < screen_settings.field_width - 1
                invariant
                    field.wf(),
                    field.width == old(field).width,
                    field.height == old(field).height,
                    w == field.spec_width() as int,
                    h == field.spec_height() as int,
                    screen_settings.field_width as int == w,
                    screen_settings.field_height as int == h,
                    0 <= elem < h,
                    base.glyphs.len() == w * h,
                    base.fgs.len() == w * h,
                    base.bgs.len() == w * h,
                    1 <= px,
                    px <= w - 1 || px == 1,
                    forall|i: int|
                        0 <= i < w * h && 1 <= i % w < px as int ==> #[trigger] view_cell_eq(
                            field@,
                            clear_one(base, w, elem as int),
                            i,
                        ),
                    forall|i: int|
                        0 <= i < w * h && !(1 <= i % w < px as int) ==> #[trigger] view_cell_eq(
                            field@,
                            base,
                            i,
                        ),
                decreases w - px,
            {
                let ghost pre_col = field@;
                let ghost target = clear_one(base, w, elem as int);
                let ghost blank_idx = flat_index(px as int, elem as int, w);
                proof {
                    lemma_flat_index_bounds(px as int, elem as int, w, h);
                }
                let ghost prev0 = *field;
                field.change_content(px as u16, elem as u16, ' ', Color::Black, Color::Black);
                proof {
                    assert forall|i: int| 0 <= i < w * h && i != blank_idx implies
                        #[trigger] view_cell_eq(field@, prev0@, i) by {}
                    assert(field.shows_at(px as int, elem as int, ' ', Color::Black, Color::Black));
                    assert forall|cy2: int| 0 <= cy2 < elem implies #[trigger] cell_eq_at(
                        field@,
                        base,
                        w,
                        px as int,
                        cy2,
                    ) by {
                        lemma_flat_index_bounds(px as int, cy2, w, h);
                        lemma_flat_index_injective(px as int, cy2, px as int, elem as int, w);
                        lemma_flat_index_div_mod(px as int, cy2, w);
                        assert(view_cell_eq(pre_col, base, cy2 * w + px as int));
                    }
                    assert forall|cy2: int| elem < cy2 < h implies #[trigger] cell_eq_at(
                        field@,
                        base,
                        w,
                        px as int,
                        cy2,
                    ) by {
                        lemma_flat_index_bounds(px as int, cy2, w, h);
                        lemma_flat_index_injective(px as int, cy2, px as int, elem as int, w);
                        lemma_flat_index_div_mod(px as int, cy2, w);
                        assert(view_cell_eq(pre_col, base, cy2 * w + px as int));
                    }
                    assert forall|i: int|
                        0 <= i < w * h && 1 <= i % w < px as int implies #[trigger] view_cell_eq(
                        field@,
                        target,
                        i,
                    ) by {
                        lemma_flat_index_div_mod(px as int, elem as int, w);
                        assert(i != blank_idx);
                        assert(view_cell_eq(pre_col, target, i));
                    }
                    assert forall|i: int|
                        0 <= i < w * h && !(1 <= i % w <= px as int) implies #[trigger] view_cell_eq(
                        field@,
                        base,
                        i,
                    ) by {
                        lemma_flat_index_div_mod(px as int, elem as int, w);
                        assert(i != blank_idx);
                        assert(view_cell_eq(pre_col, base, i));
                    }
                }
                let mut py: i16 = elem;
                while py >= 1
                    invariant
                        field.wf(),
                        field.width == old(field).width,
                        field.height == old(field).height,
                        w == field.spec_width() as int,
                        h == field.spec_height() as int,
                        screen_settings.field_width as int == w,
                        screen_settings.field_height as int == h,
                        0 <= elem < h,
                        target == clear_one(base, w, elem as int),
                        base.glyphs.len() == w * h,
                        base.fgs.len() == w * h,
                        base.bgs.len() == w * h,
                        1 <= px,
                        (px as int) < w - 1,
                        0 <= py <= elem,
                        forall|i: int|
                            0 <= i < w * h && 1 <= i % w < px as int ==> #[trigger] view_cell_eq(
                                field@,
                                target,
                                i,
                            ),
                        forall|i: int|
                            0 <= i < w * h && !(1 <= i % w <= px as int)
                                ==> #[trigger] view_cell_eq(field@, base, i),
                        forall|cy2: int|
                            py < cy2 <= elem ==> #[trigger] cell_eq_at(
                                field@,
                                target,
                                w,
                                px as int,
                                cy2,
                            ),
                        forall|cy2: int|
                            0 <= cy2 < py ==> #[trigger] cell_eq_at(field@, base, w, px as int, cy2),
                        forall|cy2: int|
                            elem < cy2 < h ==> #[trigger] cell_eq_at(field@, base, w, px as int, cy2),
                        py == elem ==> field.shows_at(
                            px as int,
                            elem as int,
                            ' ',
                            Color::Black,
                            Color::Black,
                        ),
                    decreases py,
                {
                    proof {
                        crate::grid::lemma_flat_index_fits_usize(px as int, py as int - 1, w);
                        lemma_flat_index_bounds(px as int, py as int - 1, w, h);
                        assert(cell_eq_at(field@, base, w, px as int, py as int - 1));
                    }
                    let index: usize = ((py - 1) as usize) * (screen_settings.field_width as usize)
                        + (px as usize);
                    let new_char = *field.get_content_by_index(index);
                    let new_color = *field.get_background_color_by_index(index);
                    proof {
                        assert(new_char == base.glyphs[(py as int - 1) * w + px as int]);
                        assert(new_color == base.bgs[(py as int - 1) * w + px as int]);
                    }
                    let ghost prev = *field;
                    let ghost idx0 = flat_index(px as int, py as int, w);
                    proof {
                        lemma_flat_index_bounds(px as int, py as int, w, h);
                    }
                    field.change_content(px as u16, py as u16, new_char, Color::Grey, new_color);
                    proof {
                        assert forall|i: int| 0 <= i < w * h && i != idx0 implies
                            #[trigger] view_cell_eq(field@, prev@, i) by {}
                        lemma_flat_index_div_mod(px as int, py as int, w);
                        assert(idx0 % w == px as int && idx0 / w == py as int);
                        assert(idx0 - w == (py as int - 1) * w + px as int) by (nonlinear_arith)
                            requires idx0 == py as int * w + px as int;
                        assert(view_cell_eq(field@, target, idx0));
                        assert(cell_eq_at(field@, target, w, px as int, py as int));
                        assert forall|cy2: int| py - 1 < cy2 <= elem implies #[trigger] cell_eq_at(
                            field@,
                            target,
                            w,
                            px as int,
                            cy2,
                        ) by {
                            if cy2 != py as int {
                                lemma_flat_index_bounds(px as int, cy2, w, h);
                                lemma_flat_index_injective(px as int, cy2, px as int, py as int, w);
                                assert(cell_eq_at(prev@, target, w, px as int, cy2));
                            }
                        }
                        assert forall|cy2: int| 0 <= cy2 < py - 1 implies #[trigger] cell_eq_at(
                            field@,
                            base,
                            w,
                            px as int,
                            cy2,
                        ) by {
                            lemma_flat_index_bounds(px as int, cy2, w, h);
                            lemma_flat_index_injective(px as int, cy2, px as int, py as int, w);
                            assert(cell_eq_at(prev@, base, w, px as int, cy2));
                        }
                        assert forall|cy2: int| elem < cy2 < h implies #[trigger] cell_eq_at(
                            field@,
                            base,
                            w,
                            px as int,
                            cy2,
                        ) by {
                            lemma_flat_index_bounds(px as int, cy2, w, h);
                            lemma_flat_index_injective(px as int, cy2, px as int, py as int, w);
                            assert(cell_eq_at(prev@, base, w, px as int, cy2));
                        }
                        assert forall|i: int|
                            0 <= i < w * h && 1 <= i % w < px as int implies
                            #[trigger] view_cell_eq(field@, target, i) by {
                            assert(i != idx0);
                            assert(view_cell_eq(prev@, target, i));
                        }
                        assert forall|i: int|
                            0 <= i < w * h && !(1 <= i % w <= px as int) implies
                            #[trigger] view_cell_eq(field@, base, i) by {
                            assert(i != idx0);
                            assert(view_cell_eq(prev@, base, i));
                        }
                    }
                    py -= 1;
                }
                let ghost prev1 = *field;
                proof {
                    lemma_flat_index_bounds(px as int, 0, w, h);
                }
                field.change_content(px as u16, 0, ' ', Color::Black, Color::Black);
                proof {
                    let top_idx = flat_index(px as int, 0, w);
                    assert forall|i: int| 0 <= i < w * h && i != top_idx implies
                        #[trigger] view_cell_eq(field@, prev1@, i) by {}
                    lemma_flat_index_div_mod(px as int, 0, w);
                    assert(view_cell_eq(field@, target, top_idx));
                    // the whole column now matches the cleared state
                    assert forall|i: int|
                        0 <= i < w * h && 1 <= i % w < px as int + 1 implies
                        #[trigger] view_cell_eq(field@, target, i) by {
                        vstd::arithmetic::div_mod::lemma_fundamental_div_mod(i, w);
                        let cy2 = i / w;
                        let cx2 = i % w;
                        assert(i == cy2 * w + cx2) by (nonlinear_arith)
                            requires i == w * (i / w) + i % w, cy2 == i / w, cx2 == i % w;
                        assert(0 <= cy2 < h) by (nonlinear_arith)
                            requires 0 <= i < w * h, 0 <= cx2 < w, i == cy2 * w + cx2, 0 < w;
                        if cx2 == px as int {
                            if i != top_idx {
                                if cy2 <= elem {
                                    assert(cell_eq_at(prev1@, target, w, px as int, cy2));
                                    lemma_flat_index_injective(px as int, cy2, px as int, 0, w);
                                    assert(view_cell_eq(field@, prev1@, i));
                                } else {
                                    assert(cell_eq_at(prev1@, base, w, px as int, cy2));
                                    lemma_flat_index_injective(px as int, cy2, px as int, 0, w);
                                    assert(view_cell_eq(field@, prev1@, i));
                                    assert(view_cell_eq(base, target, i));
                                }
                            }
                        } else {
                            assert(view_cell_eq(prev1@, target, i));
                            lemma_flat_index_injective(cx2, cy2, px as int, 0, w);
                            assert(view_cell_eq(field@, prev1@, i));
                        }
                    }
                    assert forall|i: int|
                        0 <= i < w * h && !(1 <= i % w <= px as int) implies #[trigger] view_cell_eq(
                        field@,
                        base,
                        i,
                    ) by {
                        vstd::arithmetic::div_mod::lemma_fundamental_div_mod(i, w);
                        let cy2 = i / w;
                        let cx2 = i % w;
                        assert(i == cy2 * w + cx2) by (nonlinear_arith)
                            requires i == w * (i / w) + i % w, cy2 == i / w, cx2 == i % w;
                        assert(view_cell_eq(prev1@, base, i));
                        assert(0 <= cy2) by (nonlinear_arith)
                            requires 0 <= i, 0 <= cx2 < w, i == cy2 * w + cx2, 0 < w;
                        lemma_flat_index_injective(cx2, cy2, px as int, 0, w);
                        assert(view_cell_eq(field@, prev1@, i));
                    }
                }
                px += 1;
            }
            proof {
                let target = clear_one(base, w, elem as int);
                assert forall|i: int| 0 <= i < w * h implies view_cell_eq(field@, target, i) by {
                    if w >= 2 {
                        assert(px as int == w - 1);
                        if 1 <= i % w < w - 1 {
                            assert(view_cell_eq(field@, target, i));
                        } else {
                            assert(view_cell_eq(field@, base, i));
                            assert(view_cell_eq(base, target, i));
                        }
                    } else {
                        assert(0 <= i % w < w) by (nonlinear_arith)
                            requires 0 < w, 0 <= i;
                        assert(view_cell_eq(field@, base, i));
                        assert(view_cell_eq(base, target, i));
                    }
                }
                assert(field@.glyphs.len() == w * h && target.glyphs.len() == w * h);
                assert forall|i: int| 0 <= i < w * h implies field@.glyphs[i] == target.glyphs[i]
                    && field@.fgs[i] == target.fgs[i] && field@.bgs[i] == target.bgs[i] by {
                    assert(view_cell_eq(field@, target, i));
                }
                assert(field@.glyphs =~= target.glyphs);
                assert(field@.fgs =~= target.fgs);
                assert(field@.bgs =~= target.bgs);
                assert(field@ =~= target);
                lemma_clear_rows_push(v0, w, lines0.take(e as int), lines0[e as int]);
                assert(lines0.take(e as int).push(lines0[e as int]) =~= lines0.take(e as int + 1));
                assert(field@ == clear_rows(v0, w, lines0.take(e as int + 1)));
            }
            e += 1;
        }
        proof {
            assert(lines0.take(lines0.len() as int) =~= lines0);
        }
        let line_num = lines.len() as u16;
        lines.clear();
        return line_num * 100 + (line_num * 50);
    }
    proof {
        assert(lines0.len() == 0);
        assert(clear_rows(v0, w, lines0) == v0);
    }
    0
}


/// Whether every occupied cell of the piece lands inside the field; the
/// executable companion of `piece_in_bounds` for callers that must test it.
pub fn piece_within_field(shape: &TetrisShape, tetromino: &Vec<String>, field: &Block) -> (r: bool)
    requires
        is_catalog(tetromino@),
        shape.wf(),
    ensures
        r == piece_in_bounds(*shape, *field),
{
    let ghost piece = shape.current_piece as int;
    let ghost rot = shape.current_rotation;
    let mut px: i16 = 0;
    while px < 4
        invariant
            is_catalog(tetromino@),
            shape.wf(),
            piece == shape.current_piece as int,
            rot == shape.current_rotation,
            0 <= px <= 4,
            forall|qx: int, qy: int|
                0 <= qx < px && 0 <= qy < 4 && #[trigger] occupied(piece, rot, qx, qy) ==> 0
                    <= shape.current_x as int + qx < field.spec_width() as int && 0
                    <= shape.current_y as int + qy < field.spec_height() as int,
        decreases 4 - px,
    {
        let mut py: i16 = 0;
        while py < 4
            invariant
                is_catalog(tetromino@),
                shape.wf(),
                piece == shape.current_piece as int,
                rot == shape.current_rotation,
                0 <= px < 4,
                0 <= py <= 4,
                forall|qx: int, qy: int|
                    0 <= qx < px && 0 <= qy < 4 && #[trigger] occupied(piece, rot, qx, qy) ==> 0
                        <= shape.current_x as int + qx < field.spec_width() as int && 0
                        <= shape.current_y as int + qy < field.spec_height() as int,
                forall|qy: int|
                    0 <= qy < py && #[trigger] occupied(piece, rot, px as int, qy) ==> 0
                        <= shape.current_x as int + (px as int) && shape.current_x as int + (
                    px as int) < field.spec_width() as int && 0 <= shape.current_y as int + qy
                        < field.spec_height() as int,
        decreases 4 - py,
        {
            let piece_index = Rotation::rotate(px, py, &shape.current_rotation);
            proof {
                lemma_shape_len(piece);
                assert(tetromino@[piece]@ == shape_seq(piece));
            }
            let shape_string: &String = &tetromino[shape.current_piece as usize];
            let shape_char = shape_string.as_str().get_char(piece_index as usize);
            if shape_char == 'X' {
                proof {
                    assert(occupied(piece, rot, px as int, py as int));
                }
                let cx: i32 = shape.current_x as i32 + px as i32;
                let cy: i32 = shape.current_y as i32 + py as i32;
                if cx < 0 || cx >= field.width as i32 || cy < 0 || cy >= field.height as i32 {
                    return false;
                }
            } else {
                proof {
                    assert(!occupied(piece, rot, px as int, py as int));
                }
            }
            py += 1;
        }
        px += 1;
    }
    true
}

} // verus!
