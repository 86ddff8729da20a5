use tetris::block::Block;
use tetris::color::Color;
use tetris::field::add_points_to_score;
use tetris::field::create_initial_field;
use tetris::field::lock_piece;
use tetris::field::test_full_lines;
use tetris::fits::does_piece_fit;
use tetris::game::Input;
use tetris::game::ScreenSetting;
use tetris::game::move_down_with;
use tetris::game::move_shape;
use tetris::game::score_text;
use tetris::piece::TetrisShape;
use tetris::rotation::Rotation;
use tetris::tetromino::build_tetromino;

fn reference_settings() -> ScreenSetting {
    ScreenSetting::new(12, 18, 34, 20)
}

fn field_cell(f: &Block, x: u16, y: u16) -> (char, Color, Color) {
    let i = (y as usize) * (f.width as usize) + (x as usize);
    (f.content[i], f.foreground_colors[i], f.background_colors[i])
}

#[test]
fn catalog_holds_the_seven_reference_shapes() {
    let t = build_tetromino();
    assert_eq!(t.len(), 7);
    assert_eq!(t[0], "..X...X...X...X.");
    assert_eq!(t[1], "..X..XX..X......");
    assert_eq!(t[2], ".X...XX...X.....");
    assert_eq!(t[3], ".....XX...X...X.");
    assert_eq!(t[4], ".....XX..X...X..");
    assert_eq!(t[5], ".....XX..XX.....");
    assert_eq!(t[6], "..X..XX...X.....");
    for s in t.iter() {
        assert_eq!(s.len(), 16);
        assert_eq!(s.chars().filter(|&c| c == 'X').count(), 4);
        // every piece occupies cell (2, 1) of its grid at spawn orientation
        assert_eq!(s.as_bytes()[6], b'X');
    }
}

#[test]
fn initial_field_has_walls_floor_and_open_top() {
    let settings = reference_settings();
    let f = create_initial_field(&settings);
    assert_eq!(f.width, 12);
    assert_eq!(f.height, 18);
    assert_eq!(field_cell(&f, 0, 17).0, '╚');
    assert_eq!(field_cell(&f, 11, 17).0, '╝');
    assert_eq!(field_cell(&f, 5, 17).0, '═');
    assert_eq!(field_cell(&f, 0, 5).0, '║');
    assert_eq!(field_cell(&f, 11, 5).0, '║');
    assert_eq!(field_cell(&f, 0, 0).0, '║');
    assert_eq!(field_cell(&f, 5, 0).0, ' ');
    assert_eq!(field_cell(&f, 5, 5), (' ', Color::White, Color::Black));
}

#[test]
fn every_fresh_piece_fits_at_the_spawn_position() {
    let settings = reference_settings();
    let field = create_initial_field(&settings);
    let tetromino = build_tetromino();
    for identity in 0..7i16 {
        assert!(does_piece_fit(
            &tetromino,
            identity,
            &Rotation::R0,
            settings.field_width / 2,
            0,
            &settings,
            &field,
        ));
    }
}

#[test]
fn fits_rejects_a_column_at_or_past_the_field_width() {
    let settings = reference_settings();
    let field = create_initial_field(&settings);
    let tetromino = build_tetromino();
    // the vertical bar occupies column 2 of its grid; at x = 10 its cells
    // land on column 12, the field width, even with every row below the
    // floor where the occupancy check is skipped
    assert!(!does_piece_fit(&tetromino, 0, &Rotation::R0, 10, 20, &settings, &field));
}

#[test]
fn fits_skips_rows_at_or_below_the_floor_bound() {
    let settings = reference_settings();
    let field = create_initial_field(&settings);
    let tetromino = build_tetromino();
    // horizontally in bounds, every occupied row at or past the floor: the
    // nested bound check treats the placement as fitting
    assert!(does_piece_fit(&tetromino, 0, &Rotation::R0, 8, 18, &settings, &field));
}

#[test]
fn fits_rejects_an_overlap_with_locked_cells() {
    let settings = reference_settings();
    let mut field = create_initial_field(&settings);
    let tetromino = build_tetromino();
    let square = TetrisShape::with_identity(5, 4, 5);
    lock_piece(&square, &tetromino, &mut field);
    assert!(!does_piece_fit(&tetromino, 5, &Rotation::R0, 4, 5, &settings, &field));
    assert!(does_piece_fit(&tetromino, 5, &Rotation::R0, 7, 5, &settings, &field));
}

#[test]
fn locking_writes_exactly_the_occupied_cells() {
    let settings = reference_settings();
    let mut field = create_initial_field(&settings);
    let tetromino = build_tetromino();
    let before = field.content.clone();
    // the square occupies grid cells (1,1), (2,1), (1,2), (2,2)
    let square = TetrisShape::with_identity(5, 4, 5);
    lock_piece(&square, &tetromino, &mut field);
    let locked = [(5u16, 6u16), (6, 6), (5, 7), (6, 7)];
    for &(x, y) in locked.iter() {
        assert_eq!(field_cell(&field, x, y), ('0', Color::Grey, Color::Red));
    }
    for x in 0..12u16 {
        for y in 0..18u16 {
            if !locked.contains(&(x, y)) {
                let i = (y as usize) * 12 + (x as usize);
                assert_eq!(field.content[i], before[i]);
            }
        }
    }
}

#[test]
fn a_full_row_is_marked_and_queued() {
    let settings = reference_settings();
    let mut field = create_initial_field(&settings);
    for x in 1..11u16 {
        field.change_content(x, 16, '0', Color::Grey, Color::Red);
    }
    let mut lines: Vec<i16> = Vec::new();
    let probe = TetrisShape::with_identity(0, 1, 13);
    test_full_lines(&probe, &settings, &mut field, &mut lines);
    assert_eq!(lines, vec![16]);
    for x in 1..11u16 {
        assert_eq!(field_cell(&field, x, 16), ('=', Color::Yellow, Color::Black));
    }
    // a row that is not full is untouched
    assert_eq!(field_cell(&field, 5, 15).0, ' ');
    // the border next to the marked row is untouched
    assert_eq!(field_cell(&field, 0, 16).0, '║');
}

#[test]
fn partial_rows_are_not_queued() {
    let settings = reference_settings();
    let mut field = create_initial_field(&settings);
    for x in 1..10u16 {
        field.change_content(x, 16, '0', Color::Grey, Color::Red);
    }
    let mut lines: Vec<i16> = Vec::new();
    let probe = TetrisShape::with_identity(0, 1, 13);
    test_full_lines(&probe, &settings, &mut field, &mut lines);
    assert!(lines.is_empty());
    assert_eq!(field_cell(&field, 5, 16).0, '0');
}

#[test]
fn clearing_zero_rows_changes_nothing_and_awards_nothing() {
    let settings = reference_settings();
    let mut field = create_initial_field(&settings);
    field.change_content(3, 15, 'Q', Color::White, Color::Red);
    let glyphs = field.content.clone();
    let fgs = field.foreground_colors.clone();
    let bgs = field.background_colors.clone();
    let mut lines: Vec<i16> = Vec::new();
    let points = add_points_to_score(&mut lines, &settings, &mut field);
    assert_eq!(points, 0);
    assert!(lines.is_empty());
    assert_eq!(field.content, glyphs);
    assert_eq!(field.foreground_colors, fgs);
    assert_eq!(field.background_colors, bgs);
}

#[test]
fn clearing_one_row_shifts_the_rows_above_down() {
    let settings = reference_settings();
    let mut field = create_initial_field(&settings);
    for x in 1..11u16 {
        field.change_content(x, 16, '=', Color::Yellow, Color::Black);
    }
    field.change_content(3, 15, 'Q', Color::White, Color::Red);
    let mut lines: Vec<i16> = vec![16];
    let points = add_points_to_score(&mut lines, &settings, &mut field);
    assert_eq!(points, 150);
    assert!(lines.is_empty());
    // the cell above the cleared row moved down one, repainted grey
    assert_eq!(field_cell(&field, 3, 16), ('Q', Color::Grey, Color::Red));
    assert_eq!(field_cell(&field, 3, 15).0, ' ');
    // the top interior row is blank
    assert_eq!(field_cell(&field, 3, 0), (' ', Color::Black, Color::Black));
    // the border is untouched
    assert_eq!(field_cell(&field, 0, 16).0, '║');
    assert_eq!(field_cell(&field, 5, 17).0, '═');
}

#[test]
fn clearing_two_rows_in_one_batch_awards_three_hundred() {
    let settings = reference_settings();
    let mut field = create_initial_field(&settings);
    for x in 1..11u16 {
        field.change_content(x, 15, '=', Color::Yellow, Color::Black);
        field.change_content(x, 16, '=', Color::Yellow, Color::Black);
    }
    let mut lines: Vec<i16> = vec![15, 16];
    // one hundred plus fifty per row: 2*100 + 2*50
    let points = add_points_to_score(&mut lines, &settings, &mut field);
    assert_eq!(points, 300);
    assert!(lines.is_empty());
    assert_eq!(field_cell(&field, 5, 16).0, ' ');
    assert_eq!(field_cell(&field, 5, 15).0, ' ');
}

#[test]
fn score_text_pads_to_eleven_digits() {
    assert_eq!(score_text(0), "00000000000");
    assert_eq!(score_text(150), "00000000150");
    assert_eq!(score_text(400), "00000000400");
    assert_eq!(score_text(65535), "00000065535");
}

#[test]
fn moves_are_taken_only_when_they_fit() {
    let settings = reference_settings();
    let field = create_initial_field(&settings);
    let tetromino = build_tetromino();
    // the square occupies grid columns 1 and 2: at x = 0 its cells sit right
    // of the wall, and a move left would overlap the wall
    let mut piece = TetrisShape::with_identity(5, 0, 5);
    let mut input = Input::new();
    input.left = true;
    move_shape(&mut input, &mut piece, &tetromino, &settings, &field);
    assert_eq!(piece.current_x, 0);
    // in the open the same move is taken
    let mut piece = TetrisShape::with_identity(5, 4, 5);
    let mut input = Input::new();
    input.left = true;
    move_shape(&mut input, &mut piece, &tetromino, &settings, &field);
    assert_eq!(piece.current_x, 3);
    // a move right into the right wall is rejected
    let mut piece = TetrisShape::with_identity(5, 8, 5);
    let mut input = Input::new();
    input.right = true;
    move_shape(&mut input, &mut piece, &tetromino, &settings, &field);
    assert_eq!(piece.current_x, 8);
    // soft drop in the open is taken, on the floor it is rejected
    let mut piece = TetrisShape::with_identity(5, 6, 5);
    let mut input = Input::new();
    input.down = true;
    move_shape(&mut input, &mut piece, &tetromino, &settings, &field);
    assert_eq!(piece.current_y, 6);
    let mut piece = TetrisShape::with_identity(5, 6, 14);
    let mut input = Input::new();
    input.down = true;
    move_shape(&mut input, &mut piece, &tetromino, &settings, &field);
    assert_eq!(piece.current_y, 14);
}

#[test]
fn rotation_is_taken_only_when_it_fits() {
    let settings = reference_settings();
    let field = create_initial_field(&settings);
    let tetromino = build_tetromino();
    // the vertical bar at the right edge cannot turn horizontal
    let mut piece = TetrisShape::with_identity(0, 8, 0);
    let mut input = Input::new();
    input.rotate = true;
    move_shape(&mut input, &mut piece, &tetromino, &settings, &field);
    assert!(matches!(piece.current_rotation, Rotation::R0));
    // in the open it turns
    let mut piece = TetrisShape::with_identity(0, 4, 5);
    let mut input = Input::new();
    input.rotate = true;
    move_shape(&mut input, &mut piece, &tetromino, &settings, &field);
    assert!(matches!(piece.current_rotation, Rotation::R90));
}

#[test]
fn a_piece_that_can_fall_just_falls() {
    let settings = reference_settings();
    let mut field = create_initial_field(&settings);
    let tetromino = build_tetromino();
    let before = field.content.clone();
    let mut lines: Vec<i16> = Vec::new();
    let mut game_over = false;
    let mut handicap: u16 = 20;
    let mut spawned: u16 = 0;
    let piece = TetrisShape::with_identity(5, 6, 5);
    let piece = move_down_with(
        3, piece, &tetromino, &settings, &mut field, &mut lines, &mut game_over, &mut handicap,
        &mut spawned,
    );
    assert_eq!(piece.current_piece, 5);
    assert_eq!(piece.current_y, 6);
    assert_eq!(field.content, before);
    assert!(lines.is_empty());
    assert!(!game_over);
    assert_eq!(handicap, 20);
    assert_eq!(spawned, 0);
}

#[test]
fn a_blocked_piece_locks_and_a_new_one_spawns() {
    let settings = reference_settings();
    let mut field = create_initial_field(&settings);
    let tetromino = build_tetromino();
    let mut lines: Vec<i16> = Vec::new();
    let mut game_over = false;
    let mut handicap: u16 = 20;
    let mut spawned: u16 = 0;
    // the square resting on the floor cannot move down
    let piece = TetrisShape::with_identity(5, 6, 14);
    let next = move_down_with(
        2, piece, &tetromino, &settings, &mut field, &mut lines, &mut game_over, &mut handicap,
        &mut spawned,
    );
    assert_eq!(field_cell(&field, 7, 15).0, '0');
    assert_eq!(field_cell(&field, 8, 16).0, '0');
    assert_eq!(next.current_piece, 2);
    assert_eq!(next.current_x, 6);
    assert_eq!(next.current_y, 0);
    assert!(matches!(next.current_rotation, Rotation::R0));
    assert_eq!(next.current_color, Color::Blue);
    assert_eq!(spawned, 1);
    assert_eq!(handicap, 20);
    assert!(!game_over);
    assert!(lines.is_empty());
}

#[test]
fn gravity_speeds_up_every_tenth_lock_and_floors_at_five() {
    let settings = reference_settings();
    let mut field = create_initial_field(&settings);
    let tetromino = build_tetromino();
    let mut lines: Vec<i16> = Vec::new();
    let mut game_over = false;
    let mut handicap: u16 = 20;
    let mut spawned: u16 = 0;
    for lock in 1..=200u16 {
        let piece = TetrisShape::with_identity(5, 6, 14);
        move_down_with(
            5, piece, &tetromino, &settings, &mut field, &mut lines, &mut game_over,
            &mut handicap, &mut spawned,
        );
        if lock == 10 {
            assert_eq!(handicap, 19);
        }
        assert!(handicap >= 5);
    }
    assert_eq!(spawned, 200);
    assert_eq!(handicap, 5);
}

#[test]
fn a_blocked_spawn_rectangle_ends_the_game() {
    let settings = reference_settings();
    let mut field = create_initial_field(&settings);
    let tetromino = build_tetromino();
    // fill the top spawn rectangle
    for x in 6..10u16 {
        for y in 0..4u16 {
            field.change_content(x, y, '0', Color::Grey, Color::Red);
        }
    }
    let mut lines: Vec<i16> = Vec::new();
    let mut game_over = false;
    let mut handicap: u16 = 20;
    let mut spawned: u16 = 0;
    let piece = TetrisShape::with_identity(5, 1, 14);
    move_down_with(
        4, piece, &tetromino, &settings, &mut field, &mut lines, &mut game_over, &mut handicap,
        &mut spawned,
    );
    assert!(game_over);
}

#[test]
fn fresh_pieces_are_drawn_from_the_catalog() {
    for _ in 0..50 {
        let piece = TetrisShape::new(6, 0);
        assert!((0..7).contains(&piece.current_piece));
        assert!(matches!(piece.current_rotation, Rotation::R0));
        assert_eq!(piece.current_x, 6);
        assert_eq!(piece.current_y, 0);
        let palette = [
            Color::Cyan,
            Color::Green,
            Color::Blue,
            Color::Yellow,
            Color::Magenta,
            Color::Red,
            Color::Green,
        ];
        assert_eq!(piece.current_color, palette[piece.current_piece as usize]);
    }
}

#[test]
fn pieces_one_and_six_share_a_hue() {
    let s = TetrisShape::with_identity(1, 0, 0);
    let z = TetrisShape::with_identity(6, 0, 0);
    assert_eq!(s.current_color, z.current_color);
    assert_eq!(s.current_color, Color::Green);
}
