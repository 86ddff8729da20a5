use vstd::prelude::*;
use crate::block::Block;
use crate::color::Color;
use crate::field::covered;
use crate::field::full_rows_from;
use crate::field::lock_piece;
use crate::field::marked_row;
use crate::field::piece_in_bounds;
use crate::field::test_full_lines;
use crate::fits::does_piece_fit;
use crate::fits::piece_fits;
use crate::piece::TetrisShape;
use crate::piece::piece_color;
use crate::rotation::Rotation;
use crate::rotation::clockwise;
use crate::screen::ScreenElement;
use crate::tetromino::is_catalog;
use crate::tetromino::occupied;

verus! {

/// One tick's sampled input: at most one lateral direction, plus soft drop
/// and rotate.
pub struct Input {
    pub right: bool,
    pub left: bool,
    pub down: bool,
    pub rotate: bool,
}

impl Input {
    pub fn new() -> (r: Input)
        ensures
            !r.right,
            !r.left,
            !r.down,
            !r.rotate,
    {
        Input { right: false, left: false, down: false, rotate: false }
    }
}

/// The two fixed dimension profiles: the playfield's total size (border
/// included) and the output screen's size, set once at startup.
pub struct ScreenSetting {
    pub field_width: i16,
    pub field_height: i16,
    pub screen_width: i16,
    pub screen_height: i16,
}

impl ScreenSetting {
    pub fn new(field_width: i16, field_height: i16, screen_width: i16, screen_height: i16) -> (r:
        ScreenSetting)
        ensures
            r.field_width == field_width,
            r.field_height == field_height,
            r.screen_width == screen_width,
            r.screen_height == screen_height,
    {
        ScreenSetting { field_width, field_height, screen_height, screen_width }
    }
}


/// Applies one tick of lateral, soft-drop and rotation input: each move is
/// taken only if the validator accepts the new position or orientation, and
/// rejected moves are silently ignored.  Left is tried first, then right,
/// then down, then rotate, each against the position the earlier ones
/// produced.
pub fn move_shape(
    input_state: &mut Input,
    p_state: &mut TetrisShape,
    p_tetromino: &Vec<String>,
    p_screen: &ScreenSetting,
    p_field: &Block,
)
    requires
        is_catalog(p_tetromino@),
        old(p_state).wf(),
        p_field.wf(),
        p_screen.field_width as int == p_field.spec_width() as int,
        p_screen.field_height as int == p_field.spec_height() as int,
        i16::MIN < old(p_state).current_x < i16::MAX,
        old(p_state).current_y < i16::MAX,
    ensures
        *final(input_state) == *old(input_state),
        final(p_state).current_piece == old(p_state).current_piece,
        final(p_state).current_color == old(p_state).current_color,
        ({
            let s0 = *old(p_state);
            let piece = s0.current_piece as int;
            let x1: int = if old(input_state).left && piece_fits(
                *p_field,
                piece,
                s0.current_rotation,
                s0.current_x as int - 1,
                s0.current_y as int,
            ) {
                s0.current_x as int - 1
            } else {
                s0.current_x as int
            };
            let x2: int = if old(input_state).right && piece_fits(
                *p_field,
                piece,
                s0.current_rotation,
                x1 + 1,
                s0.current_y as int,
            ) {
                x1 + 1
            } else {
                x1
            };
            let y1: int = if old(input_state).down && piece_fits(
                *p_field,
                piece,
                s0.current_rotation,
                x2,
                s0.current_y as int + 1,
            ) {
                s0.current_y as int + 1
            } else {
                s0.current_y as int
            };
            let rot1 = if old(input_state).rotate && piece_fits(
                *p_field,
                piece,
                clockwise(s0.current_rotation),
                x2,
                y1,
            ) {
                clockwise(s0.current_rotation)
            } else {
                s0.current_rotation
            };
            &&& final(p_state).current_x as int == x2
            &&& final(p_state).current_y as int == y1
            &&& final(p_state).current_rotation == rot1
        }),
{
    if input_state.left {
        if does_piece_fit(
            p_tetromino,
            p_state.current_piece,
            &p_state.current_rotation,
            p_state.current_x - 1,
            p_state.current_y,
            p_screen,
            p_field,
        ) {
            p_state.current_x -= 1;
        }
    }
    if input_state.right {
        if does_piece_fit(
            p_tetromino,
            p_state.current_piece,
            &p_state.current_rotation,
            p_state.current_x + 1,
            p_state.current_y,
            p_screen,
            p_field,
        ) {
            p_state.current_x += 1;
        }
    }
    if input_state.down {
        if does_piece_fit(
            p_tetromino,
            p_state.current_piece,
            &p_state.current_rotation,
            p_state.current_x,
            p_state.current_y + 1,
            p_screen,
            p_field,
        ) {
            p_state.current_y += 1;
        }
    }
    if input_state.rotate {
        let new_rotation = Rotation::rotate_clockwise(&p_state.current_rotation);
        if does_piece_fit(
            p_tetromino,
            p_state.current_piece,
            &new_rotation,
            p_state.current_x,
            p_state.current_y,
            p_screen,
            p_field,
        ) {
            p_state.current_rotation = new_rotation;
        }
    }
}

/// The gravity period after a lock: every tenth locked piece shortens the
/// period by one tick, floored at five.
pub open spec fn gravity_update(handicap: u16, spawned_after: u16) -> u16 {
    if spawned_after % 10 == 0 && handicap > 5 {
        (handicap - 1) as u16
    } else {
        handicap
    }
}

/// Law: the gravity period never drops below the floor of five ticks, and
/// never grows.
pub proof fn lemma_gravity_floor(handicap: u16, spawned_after: u16)
    requires
        handicap >= 5,
    ensures
        gravity_update(handicap, spawned_after) >= 5,
        gravity_update(handicap, spawned_after) <= handicap,
{
}

/// `post` is `pre` with the piece's occupied cells written as locked cells
/// and nothing else changed.
pub open spec fn locked_into(pre: Block, shape: TetrisShape, post: Block) -> bool {
    &&& post.wf()
    &&& post.width == pre.width
    &&& post.height == pre.height
    &&& forall|px: int, py: int|
        0 <= px < 4 && 0 <= py < 4 && #[trigger] occupied(
            shape.current_piece as int,
            shape.current_rotation,
            px,
            py,
        ) ==> post.shows_at(
            shape.current_x as int + px,
            shape.current_y as int + py,
            '0',
            Color::Grey,
            shape.current_color,
        )
    &&& forall|cx: int, cy: int|
        0 <= cx < pre.spec_width() && 0 <= cy < pre.spec_height() && !covered(shape, cx, cy)
            ==> #[trigger] post.same_cell_as(pre, cx, cy)
}

/// `post` is `pre` with every full interior row of the 4-row window starting
/// at `y` repainted with the line-clear marker, those rows appended to the
/// queue in top-to-bottom order, and nothing else changed.
pub open spec fn lines_marked(
    pre: Block,
    y: int,
    post: Block,
    lines_pre: Seq<i16>,
    lines_post: Seq<i16>,
) -> bool {
    &&& post.wf()
    &&& post.width == pre.width
    &&& post.height == pre.height
    &&& lines_post == lines_pre + full_rows_from(pre, y, 0)
    &&& forall|cx: int, cy: int|
        1 <= cx < pre.spec_width() as int - 1 && marked_row(pre, y, cy) ==> post.shows_at(
            cx,
            cy,
            '=',
            Color::Yellow,
            Color::Black,
        )
    &&& forall|cx: int, cy: int|
        0 <= cx < pre.spec_width() && 0 <= cy < pre.spec_height() && !(1 <= cx < pre.spec_width()
            as int - 1 && marked_row(pre, y, cy)) ==> #[trigger] post.same_cell_as(pre, cx, cy)
}

/// One gravity step with the next piece's identity supplied by the caller.
/// If the piece can move one row down it does and nothing else changes.
/// Otherwise it locks into the field, full rows are marked and queued, the
/// lock counter and the gravity period advance, a fresh piece spawns at the
/// spawn column, and the game ends exactly when that piece does not fit.
pub fn move_down_with(
    next_identity: i16,
    p_shape: TetrisShape,
    p_tetromino: &Vec<String>,
    p_screen: &ScreenSetting,
    p_field: &mut Block,
    p_lines: &mut Vec<i16>,
    game_over: &mut bool,
    difficulty_handicap: &mut u16,
    pieces_spawned: &mut u16,
) -> (r: TetrisShape)
    requires
        0 <= next_identity < 7,
        is_catalog(p_tetromino@),
        p_shape.wf(),
        old(p_field).wf(),
        p_screen.field_width as int == old(p_field).spec_width() as int,
        p_screen.field_height as int == old(p_field).spec_height() as int,
        0 <= p_screen.field_width,
        piece_in_bounds(p_shape, *old(p_field)),
        0 <= p_shape.current_y,
        p_shape.current_y < i16::MAX,
        *old(pieces_spawned) < u16::MAX,
    ensures
        ({
            let fits_down = piece_fits(
                *old(p_field),
                p_shape.current_piece as int,
                p_shape.current_rotation,
                p_shape.current_x as int,
                p_shape.current_y as int + 1,
            );
            if fits_down {
                &&& r.current_piece == p_shape.current_piece
                &&& r.current_rotation == p_shape.current_rotation
                &&& r.current_color == p_shape.current_color
                &&& r.current_x == p_shape.current_x
                &&& r.current_y as int == p_shape.current_y as int + 1
                &&& *final(p_field) == *old(p_field)
                &&& *final(p_lines) == *old(p_lines)
                &&& *final(game_over) == *old(game_over)
                &&& *final(difficulty_handicap) == *old(difficulty_handicap)
                &&& *final(pieces_spawned) == *old(pieces_spawned)
            } else {
                &&& exists|mid: Block|
                    #[trigger] locked_into(*old(p_field), p_shape, mid) && lines_marked(
                        mid,
                        p_shape.current_y as int,
                        *final(p_field),
                        old(p_lines)@,
                        final(p_lines)@,
                    )
                &&& *final(pieces_spawned) == *old(pieces_spawned) + 1
                &&& *final(difficulty_handicap) == gravity_update(
                    *old(difficulty_handicap),
                    *final(pieces_spawned),
                )
                &&& final(p_field).width == old(p_field).width
                &&& final(p_field).height == old(p_field).height
                &&& final(p_field).wf()
                &&& r.current_piece == next_identity
                &&& r.current_rotation == Rotation::R0
                &&& r.current_color == piece_color(next_identity as int)
                &&& r.current_x as int == p_screen.field_width as int / 2
                &&& r.current_y == 0
                &&& *final(game_over) == !piece_fits(
                    *final(p_field),
                    next_identity as int,
                    Rotation::R0,
                    p_screen.field_width as int / 2,
                    0,
                )
            }
        }),
{
    if does_piece_fit(
        p_tetromino,
        p_shape.current_piece,
        &p_shape.current_rotation,
        p_shape.current_x,
        p_shape.current_y + 1,
        p_screen,
        p_field,
    ) {
        let mut moved = p_shape;
        moved.current_y += 1;
        return moved;
    } else {
        lock_piece(&p_shape, p_tetromino, p_field);
        let ghost mid = *p_field;
        test_full_lines(&p_shape, p_screen, p_field, p_lines);
        let new_shape = TetrisShape::with_identity(next_identity, p_screen.field_width / 2, 0);
        *pieces_spawned += 1;
        if *pieces_spawned % 10 == 0 {
            if *difficulty_handicap > 5 {
                *difficulty_handicap -= 1;
            }
        }
        let fits = does_piece_fit(
            p_tetromino,
            new_shape.current_piece,
            &new_shape.current_rotation,
            new_shape.current_x,
            new_shape.current_y,
            p_screen,
            p_field,
        );
        *game_over = !fits;
        proof {
            assert(locked_into(*old(p_field), p_shape, mid));
            assert(lines_marked(
                mid,
                p_shape.current_y as int,
                *p_field,
                old(p_lines)@,
                p_lines@,
            ));
            assert(new_shape.current_x as int == p_screen.field_width as int / 2);
        }
        new_shape
    }
}

/// One gravity step with the next piece's identity drawn at random.
pub fn move_down(
    p_shape: TetrisShape,
    p_tetromino: &Vec<String>,
    p_screen: &ScreenSetting,
    p_field: &mut Block,
    p_lines: &mut Vec<i16>,
    game_over: &mut bool,
    difficulty_handicap: &mut u16,
    pieces_spawned: &mut u16,
) -> (r: TetrisShape)
    requires
        is_catalog(p_tetromino@),
        p_shape.wf(),
        old(p_field).wf(),
        p_screen.field_width as int == old(p_field).spec_width() as int,
        p_screen.field_height as int == old(p_field).spec_height() as int,
        0 <= p_screen.field_width,
        piece_in_bounds(p_shape, *old(p_field)),
        0 <= p_shape.current_y,
        p_shape.current_y < i16::MAX,
        *old(pieces_spawned) < u16::MAX,
    ensures
        r.wf(),
        ({
            let fits_down = piece_fits(
                *old(p_field),
                p_shape.current_piece as int,
                p_shape.current_rotation,
                p_shape.current_x as int,
                p_shape.current_y as int + 1,
            );
            if fits_down {
                &&& r.current_piece == p_shape.current_piece
                &&& r.current_rotation == p_shape.current_rotation
                &&& r.current_color == p_shape.current_color
                &&& r.current_x == p_shape.current_x
                &&& r.current_y as int == p_shape.current_y as int + 1
                &&& *final(p_field) == *old(p_field)
                &&& *final(p_lines) == *old(p_lines)
                &&& *final(game_over) == *old(game_over)
                &&& *final(difficulty_handicap) == *old(difficulty_handicap)
                &&& *final(pieces_spawned) == *old(pieces_spawned)
            } else {
                &&& exists|mid: Block|
                    #[trigger] locked_into(*old(p_field), p_shape, mid) && lines_marked(
                        mid,
                        p_shape.current_y as int,
                        *final(p_field),
                        old(p_lines)@,
                        final(p_lines)@,
                    )
                &&& *final(pieces_spawned) == *old(pieces_spawned) + 1
                &&& *final(difficulty_handicap) == gravity_update(
                    *old(difficulty_handicap),
                    *final(pieces_spawned),
                )
                &&& final(p_field).width == old(p_field).width
                &&& final(p_field).height == old(p_field).height
                &&& final(p_field).wf()
                &&& r.current_rotation == Rotation::R0
                &&& r.current_color == piece_color(r.current_piece as int)
                &&& r.current_x as int == p_screen.field_width as int / 2
                &&& r.current_y == 0
                &&& *final(game_over) == !piece_fits(
                    *final(p_field),
                    r.current_piece as int,
                    Rotation::R0,
                    p_screen.field_width as int / 2,
                    0,
                )
            }
        }),
{
    let next_identity = crate::piece::random_below(7);
    move_down_with(
        next_identity,
        p_shape,
        p_tetromino,
        p_screen,
        p_field,
        p_lines,
        game_over,
        difficulty_handicap,
        pieces_spawned,
    )
}


/// Ten to the power `k`.
pub open spec fn pow10(k: nat) -> nat
    decreases k,
{
    if k == 0 {
        1
    } else {
        10 * pow10((k - 1) as nat)
    }
}

/// Powers of ten are positive.
pub proof fn lemma_pow10_pos(k: nat)
    ensures
        pow10(k) >= 1,
    decreases k,
{
    if k > 0 {
        lemma_pow10_pos((k - 1) as nat);
    }
}

/// The glyph for one decimal digit.
pub open spec fn digit_char(d: int) -> char {
    if d == 0 {
        '0'
    } else if d == 1 {
        '1'
    } else if d == 2 {
        '2'
    } else if d == 3 {
        '3'
    } else if d == 4 {
        '4'
    } else if d == 5 {
        '5'
    } else if d == 6 {
        '6'
    } else if d == 7 {
        '7'
    } else if d == 8 {
        '8'
    } else {
        '9'
    }
}

/// The scoreboard text: the point total in decimal, padded with leading
/// zeros to eleven characters.
pub open spec fn score_string(points: nat) -> Seq<char> {
    Seq::new(11, |k: int| digit_char(((points / pow10((10 - k) as nat)) % 10) as int))
}

fn digit_to_char(d: u64) -> (c: char)
    requires
        d < 10,
    ensures
        c == digit_char(d as int),
{
    if d == 0 {
        '0'
    } else if d == 1 {
        '1'
    } else if d == 2 {
        '2'
    } else if d == 3 {
        '3'
    } else if d == 4 {
        '4'
    } else if d == 5 {
        '5'
    } else if d == 6 {
        '6'
    } else if d == 7 {
        '7'
    } else if d == 8 {
        '8'
    } else {
        '9'
    }
}

/// Relies on String::push: appends the given character to the end of the
/// string.
#[verifier::external_body]
fn push_char(s: &mut String, c: char)
    ensures
        final(s)@ == old(s)@.push(c),
{
    s.push(c);
}

/// Renders the point total as the eleven-character zero-padded scoreboard
/// text.
pub fn score_text(points: u16) -> (r: String)
    ensures
        r@ == score_string(points as nat),
        r@.len() == 11,
{
    proof {
        assert(pow10(0) == 1);
        assert(pow10(1) == 10);
        assert(pow10(2) == 100);
        assert(pow10(3) == 1000);
        assert(pow10(4) == 10000);
        assert(pow10(5) == 100000);
        assert(pow10(6) == 1000000);
        assert(pow10(7) == 10000000);
        assert(pow10(8) == 100000000);
        assert(pow10(9) == 1000000000);
        assert(pow10(10) == 10000000000);
    }
    let mut r = String::new();
    let mut divisor: u64 = 10000000000;
    let mut k: usize = 0;
    while k < 11
        invariant
            r@.len() == k,
            k <= 11,
            k < 11 ==> divisor as nat == pow10((10 - k) as nat),
            forall|j: int| 0 <= j < k ==> r@[j] == score_string(points as nat)[j],
        decreases 11 - k,
    {
        proof {
            lemma_pow10_pos((10 - k) as nat);
        }
        let digit: u64 = ((points as u64) / divisor) % 10;
        let c = digit_to_char(digit);
        let ghost r_before = r@;
        push_char(&mut r, c);
        proof {
            assert(r@ =~= r_before.push(c));
            assert(r@[k as int] == c);
            assert(score_string(points as nat)[k as int] == digit_char(
                ((points as nat / pow10((10 - k as int) as nat)) % 10) as int,
            ));
            assert(digit as nat == (points as nat / pow10((10 - k as int) as nat)) % 10);
        }
        proof {
            if k + 1 < 11 {
                assert(pow10((10 - k) as nat) == 10 * pow10((9 - k) as nat));
                lemma_pow10_pos((9 - k) as nat);
                assert((10 * pow10((9 - k) as nat)) / 10 == pow10((9 - k) as nat))
                    by (nonlinear_arith);
            }
        }
        divisor = divisor / 10;
        k += 1;
    }
    proof {
        assert(r@ =~= score_string(points as nat));
    }
    r
}

/// The screen cell (cx, cy) is covered by some occupied cell of the floating
/// piece, drawn at its playfield position offset by the playfield's place on
/// the screen.
pub open spec fn covered_on_screen(shape: TetrisShape, cx: int, cy: int) -> bool {
    exists|px: int, py: int|
        0 <= px < 4 && 0 <= py < 4 && #[trigger] occupied(
            shape.current_piece as int,
            shape.current_rotation,
            px,
            py,
        ) && cx == shape.current_x as int + px + 2 && cy == shape.current_y as int + py + 2
}

/// Every occupied cell of the floating piece lands on the screen.
pub open spec fn piece_on_screen(shape: TetrisShape, s: crate::screen::Screen) -> bool {
    forall|px: int, py: int|
        0 <= px < 4 && 0 <= py < 4 && #[trigger] occupied(
            shape.current_piece as int,
            shape.current_rotation,
            px,
            py,
        ) ==> 0 <= shape.current_x as int + px + 2 < s.width as int && 0 <= shape.current_y as int
            + py + 2 < s.height as int
}

/// Draws the floating piece's occupied cells over the screen buffer; every
/// other cell is unchanged.
pub fn render_current_piece(
    tetromino: &Vec<String>,
    screen: &mut crate::screen::Screen,
    piece: &TetrisShape,
)
    requires
        is_catalog(tetromino@),
        piece.wf(),
        old(screen).wf(),
        piece_on_screen(*piece, *old(screen)),
    ensures
        final(screen).wf(),
        final(screen).width == old(screen).width,
        final(screen).height == old(screen).height,
        forall|px: int, py: int|
            0 <= px < 4 && 0 <= py < 4 && #[trigger] occupied(
                piece.current_piece as int,
                piece.current_rotation,
                px,
                py,
            ) ==> final(screen).shows_at(
                piece.current_x as int + px + 2,
                piece.current_y as int + py + 2,
                '0',
                Color::Grey,
                piece.current_color,
            ),
        forall|cx: int, cy: int|
            0 <= cx < old(screen).width && 0 <= cy < old(screen).height && !covered_on_screen(
                *piece,
                cx,
                cy,
            ) ==> #[trigger] final(screen).same_cell_as(*old(screen), cx, cy),
{
    let ghost pc = piece.current_piece as int;
    let ghost rot = piece.current_rotation;
    let mut px: i16 = 0;
    while px < 4
        invariant
            is_catalog(tetromino@),
            piece.wf(),
            screen.wf(),
            screen.width == old(screen).width,
            screen.height == old(screen).height,
            piece_on_screen(*piece, *old(screen)),
            pc == piece.current_piece as int,
            rot == piece.current_rotation,
            0 <= px <= 4,
            forall|qx: int, qy: int|
                0 <= qx < px && 0 <= qy < 4 && #[trigger] occupied(pc, rot, qx, qy)
                    ==> screen.shows_at(
                    piece.current_x as int + qx + 2,
                    piece.current_y as int + qy + 2,
                    '0',
                    Color::Grey,
                    piece.current_color,
                ),
            forall|cx: int, cy: int|
                0 <= cx < screen.width && 0 <= cy < screen.height && !covered_on_screen(
                    *piece,
                    cx,
                    cy,
                ) ==> #[trigger] screen.same_cell_as(*old(screen), cx, cy),
        decreases 4 - px,
    {
        let mut py: i16 = 0;
        while py < 4
            invariant
                is_catalog(tetromino@),
                piece.wf(),
                screen.wf(),
                screen.width == old(screen).width,
                screen.height == old(screen).height,
                piece_on_screen(*piece, *old(screen)),
                pc == piece.current_piece as int,
                rot == piece.current_rotation,
                0 <= px < 4,
                0 <= py <= 4,
                forall|qx: int, qy: int|
                    0 <= qx < px && 0 <= qy < 4 && #[trigger] occupied(pc, rot, qx, qy)
                        ==> screen.shows_at(
                        piece.current_x as int + qx + 2,
                        piece.current_y as int + qy + 2,
                        '0',
                        Color::Grey,
                        piece.current_color,
                    ),
                forall|qy: int|
                    0 <= qy < py && #[trigger] occupied(pc, rot, px as int, qy)
                        ==> screen.shows_at(
                        piece.current_x as int + px as int + 2,
                        piece.current_y as int + qy + 2,
                        '0',
                        Color::Grey,
                        piece.current_color,
                    ),
                forall|cx: int, cy: int|
                    0 <= cx < screen.width && 0 <= cy < screen.height && !covered_on_screen(
                        *piece,
                        cx,
                        cy,
                    ) ==> #[trigger] screen.same_cell_as(*old(screen), cx, cy),
            decreases 4 - py,
        {
            let piece_index = Rotation::rotate(px, py, &piece.current_rotation);
            proof {
                crate::tetromino::lemma_shape_len(pc);
                assert(tetromino@[pc]@ == crate::tetromino::shape_seq(pc));
            }
            let shape_string: &String = &tetromino[piece.current_piece as usize];
            let char_at = shape_string.as_str().get_char(piece_index as usize);
            if char_at == 'X' {
                proof {
                    assert(occupied(pc, rot, px as int, py as int));
                }
                let this_x: i32 = piece.current_x as i32 + px as i32 + 2;
                let this_y: i32 = piece.current_y as i32 + py as i32 + 2;
                let ghost prev = *screen;
                screen.add_directly(
                    '0',
                    Color::Grey,
                    piece.current_color,
                    this_x as u16,
                    this_y as u16,
                );
                proof {
                    assert(covered_on_screen(*piece, this_x as int, this_y as int));
                    assert forall|qx: int, qy: int|
                        0 <= qx < px && 0 <= qy < 4 && #[trigger] occupied(pc, rot, qx, qy) implies
                        screen.shows_at(
                        piece.current_x as int + qx + 2,
                        piece.current_y as int + qy + 2,
                        '0',
                        Color::Grey,
                        piece.current_color,
                    ) by {
                        assert(prev.shows_at(
                            piece.current_x as int + qx + 2,
                            piece.current_y as int + qy + 2,
                            '0',
                            Color::Grey,
                            piece.current_color,
                        ));
                        assert(screen.same_cell_as(
                            prev,
                            piece.current_x as int + qx + 2,
                            piece.current_y as int + qy + 2,
                        ));
                    }
                    assert forall|qy: int|
                        0 <= qy < py + 1 && #[trigger] occupied(pc, rot, px as int, qy) implies
                        screen.shows_at(
                        piece.current_x as int + px as int + 2,
                        piece.current_y as int + qy + 2,
                        '0',
                        Color::Grey,
                        piece.current_color,
                    ) by {
                        if qy < py {
                            assert(prev.shows_at(
                                piece.current_x as int + px as int + 2,
                                piece.current_y as int + qy + 2,
                                '0',
                                Color::Grey,
                                piece.current_color,
                            ));
                            assert(screen.same_cell_as(
                                prev,
                                piece.current_x as int + px as int + 2,
                                piece.current_y as int + qy + 2,
                            ));
                        }
                    }
                    assert forall|cx: int, cy: int|
                        0 <= cx < screen.width && 0 <= cy < screen.height && !covered_on_screen(
                            *piece,
                            cx,
                            cy,
                        ) implies #[trigger] screen.same_cell_as(*old(screen), cx, cy) by {
                        assert(prev.same_cell_as(*old(screen), cx, cy));
                        assert(screen.same_cell_as(prev, cx, cy));
                    }
                }
            }
            py += 1;
        }
        px += 1;
    }
}


/// Composes one output frame: the playfield at (2, 2), the score frame at
/// (15, 2), the score title at (21, 2), the zero-padded point total at
/// (19, 3), and the floating piece on top.  Later layers win at overlaps; the
/// caller then emits the screen buffer to the terminal.
pub fn render_scene(
    screen: &mut crate::screen::Screen,
    field: &Block,
    score: &crate::frame::Frame,
    score_title: &crate::text::Text,
    points: u16,
    tetromino: &Vec<String>,
    piece: &TetrisShape,
)
    requires
        old(screen).wf(),
        old(screen).width as int * old(screen).height as int <= u16::MAX as int,
        field.wf(),
        score.wf(),
        score_title.wf(),
        is_catalog(tetromino@),
        piece.wf(),
        2 + field.spec_width() as int <= 15,
        2 + field.spec_height() as int <= old(screen).height as int,
        15 + score.spec_width() as int <= old(screen).width as int,
        2 + score.spec_height() as int <= old(screen).height as int,
        21 + score_title.spec_width() as int <= old(screen).width as int,
        19 + 11 <= old(screen).width as int,
        3 < old(screen).height as int,
        piece_on_screen(*piece, *old(screen)),
        15 <= old(screen).width as int,
    ensures
        final(screen).wf(),
        final(screen).width == old(screen).width,
        final(screen).height == old(screen).height,
        forall|px: int, py: int|
            0 <= px < 4 && 0 <= py < 4 && #[trigger] occupied(
                piece.current_piece as int,
                piece.current_rotation,
                px,
                py,
            ) ==> final(screen).shows_at(
                piece.current_x as int + px + 2,
                piece.current_y as int + py + 2,
                '0',
                Color::Grey,
                piece.current_color,
            ),
        forall|k: int|
            0 <= k < 11 && !covered_on_screen(*piece, 19 + k, 3)
                ==> #[trigger] final(screen).shows_at(
                19 + k,
                3,
                score_string(points as nat)[k],
                Color::DarkBlue,
                Color::Black,
            ),
        forall|k: int|
            0 <= k < score_title.spec_width() && !covered_on_screen(*piece, 21 + k, 2)
                ==> #[trigger] final(screen).shows_at(
                21 + k,
                2,
                score_title.spec_part(k, 0),
                score_title.spec_foreground_color(k, 0),
                score_title.spec_background_color(k, 0),
            ),
        forall|fx: int, fy: int|
            0 <= fx < score.spec_width() && 0 <= fy < score.spec_height() && !(2 + fy == 2 && 21
                <= 15 + fx < 21 + score_title.spec_width() as int) && !(2 + fy == 3 && 19 <= 15
                + fx < 30) && !covered_on_screen(*piece, 15 + fx, 2 + fy)
                ==> #[trigger] final(screen).shows_at(
                15 + fx,
                2 + fy,
                score.spec_part(fx, fy),
                score.spec_foreground_color(fx, fy),
                score.spec_background_color(fx, fy),
            ),
        forall|fx: int, fy: int|
            0 <= fx < field.spec_width() && 0 <= fy < field.spec_height() && !covered_on_screen(
                *piece,
                2 + fx,
                2 + fy,
            ) ==> #[trigger] final(screen).shows_at(
                2 + fx,
                2 + fy,
                field.spec_part(fx, fy),
                field.spec_foreground_color(fx, fy),
                field.spec_background_color(fx, fy),
            ),
        forall|cx: int, cy: int|
            0 <= cx < old(screen).width && 0 <= cy < old(screen).height && !crate::screen::in_rect(
                cx,
                cy,
                2,
                2,
                field.spec_width() as int,
                field.spec_height() as int,
            ) && !crate::screen::in_rect(
                cx,
                cy,
                15,
                2,
                score.spec_width() as int,
                score.spec_height() as int,
            ) && !crate::screen::in_rect(cx, cy, 21, 2, score_title.spec_width() as int, 1) && !(cy
                == 3 && 19 <= cx < 30) && !covered_on_screen(*piece, cx, cy)
                ==> #[trigger] final(screen).blank_at(cx, cy),
{
    screen.begin_render();
    let ghost s0 = *screen;
    screen.add_element_at(field, 2, 2);
    let ghost s1 = *screen;
    screen.add_element_at(score, 15, 2);
    let ghost s2 = *screen;
    screen.add_element_at(score_title, 21, 2);
    let ghost s3 = *screen;
    let text = score_text(points);
    let ghost text_view = text@;
    screen.add_string_at(text, Color::DarkBlue, Color::Black, 19, 3);
    let ghost s4 = *screen;
    render_current_piece(tetromino, screen, piece);
    proof {
        let w = old(screen).width as int;
        let h = old(screen).height as int;
        assert forall|k: int| 0 <= k < 11 && !covered_on_screen(*piece, 19 + k, 3) implies
            #[trigger] screen.shows_at(
            19 + k,
            3,
            score_string(points as nat)[k],
            Color::DarkBlue,
            Color::Black,
        ) by {
            assert(s4.shows_at(19 + k, 3, text_view[k], Color::DarkBlue, Color::Black));
            assert(screen.same_cell_as(s4, 19 + k, 3));
        }
        assert forall|k: int|
            0 <= k < score_title.spec_width() && !covered_on_screen(*piece, 21 + k, 2) implies
            #[trigger] screen.shows_at(
            21 + k,
            2,
            score_title.spec_part(k, 0),
            score_title.spec_foreground_color(k, 0),
            score_title.spec_background_color(k, 0),
        ) by {
            assert(crate::screen::in_rect(
                21 + k,
                2,
                21,
                2,
                score_title.spec_width() as int,
                score_title.spec_height() as int,
            ));
            assert(s3.shows_element_at(*score_title, 21, 2, 21 + k, 2));
            assert(s4.same_cell_as(s3, 21 + k, 2));
            assert(screen.same_cell_as(s4, 21 + k, 2));
        }
        assert forall|fx: int, fy: int|
            0 <= fx < score.spec_width() && 0 <= fy < score.spec_height() && !(2 + fy == 2 && 21
                <= 15 + fx < 21 + score_title.spec_width() as int) && !(2 + fy == 3 && 19 <= 15
                + fx < 30) && !covered_on_screen(*piece, 15 + fx, 2 + fy) implies
            #[trigger] screen.shows_at(
            15 + fx,
            2 + fy,
            score.spec_part(fx, fy),
            score.spec_foreground_color(fx, fy),
            score.spec_background_color(fx, fy),
        ) by {
            assert(crate::screen::in_rect(
                15 + fx,
                2 + fy,
                15,
                2,
                score.spec_width() as int,
                score.spec_height() as int,
            ));
            assert(s2.shows_element_at(*score, 15, 2, 15 + fx, 2 + fy));
            assert(!crate::screen::in_rect(
                15 + fx,
                2 + fy,
                21,
                2,
                score_title.spec_width() as int,
                score_title.spec_height() as int,
            ));
            assert(s3.same_cell_as(s2, 15 + fx, 2 + fy));
            assert(s4.same_cell_as(s3, 15 + fx, 2 + fy));
            assert(screen.same_cell_as(s4, 15 + fx, 2 + fy));
        }
        assert forall|fx: int, fy: int|
            0 <= fx < field.spec_width() && 0 <= fy < field.spec_height() && !covered_on_screen(
                *piece,
                2 + fx,
                2 + fy,
            ) implies #[trigger] screen.shows_at(
            2 + fx,
            2 + fy,
            field.spec_part(fx, fy),
            field.spec_foreground_color(fx, fy),
            field.spec_background_color(fx, fy),
        ) by {
            assert(crate::screen::in_rect(
                2 + fx,
                2 + fy,
                2,
                2,
                field.spec_width() as int,
                field.spec_height() as int,
            ));
            assert(s1.shows_element_at(*field, 2, 2, 2 + fx, 2 + fy));
            assert(!crate::screen::in_rect(
                2 + fx,
                2 + fy,
                15,
                2,
                score.spec_width() as int,
                score.spec_height() as int,
            ));
            assert(s2.same_cell_as(s1, 2 + fx, 2 + fy));
            assert(!crate::screen::in_rect(
                2 + fx,
                2 + fy,
                21,
                2,
                score_title.spec_width() as int,
                score_title.spec_height() as int,
            ));
            assert(s3.same_cell_as(s2, 2 + fx, 2 + fy));
            assert(s4.same_cell_as(s3, 2 + fx, 2 + fy));
            assert(screen.same_cell_as(s4, 2 + fx, 2 + fy));
        }
        assert forall|cx: int, cy: int|
            0 <= cx < w && 0 <= cy < h && !crate::screen::in_rect(
                cx,
                cy,
                2,
                2,
                field.spec_width() as int,
                field.spec_height() as int,
            ) && !crate::screen::in_rect(
                cx,
                cy,
                15,
                2,
                score.spec_width() as int,
                score.spec_height() as int,
            ) && !crate::screen::in_rect(cx, cy, 21, 2, score_title.spec_width() as int, 1) && !(cy
                == 3 && 19 <= cx < 30) && !covered_on_screen(*piece, cx, cy) implies
            #[trigger] screen.blank_at(cx, cy) by {
            assert(s0.blank_at(cx, cy));
            assert(!crate::screen::in_rect(
                cx,
                cy,
                21,
                2,
                score_title.spec_width() as int,
                score_title.spec_height() as int,
            ));
            assert(s1.same_cell_as(s0, cx, cy));
            assert(s2.same_cell_as(s1, cx, cy));
            assert(s3.same_cell_as(s2, cx, cy));
            assert(s4.same_cell_as(s3, cx, cy));
            assert(screen.same_cell_as(s4, cx, cy));
        }
    }
}

} // verus!
