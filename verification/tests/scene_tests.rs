use tetris::color::Color;
use tetris::field::create_initial_field;
use tetris::frame::Frame;
use tetris::frame::FrameStyle;
use tetris::game::ScreenSetting;
use tetris::game::render_current_piece;
use tetris::game::render_scene;
use tetris::piece::TetrisShape;
use tetris::screen::Screen;
use tetris::tetromino::build_tetromino;
use tetris::text::Text;

fn cell(s: &Screen, x: u16, y: u16) -> (char, Color, Color) {
    let i = (y as usize) * (s.width as usize) + (x as usize);
    (s.buffer[i], s.foreground_colors[i], s.background_colors[i])
}

#[test]
fn the_floating_piece_is_drawn_over_the_screen() {
    let tetromino = build_tetromino();
    let mut screen = Screen::new(34, 20);
    // the vertical bar occupies grid column 2, all four rows
    let piece = TetrisShape::with_identity(0, 6, 0);
    render_current_piece(&tetromino, &mut screen, &piece);
    for py in 0..4u16 {
        assert_eq!(cell(&screen, 10, 2 + py), ('0', Color::Grey, Color::Cyan));
    }
    assert_eq!(cell(&screen, 9, 2), (' ', Color::Black, Color::Black));
    assert_eq!(cell(&screen, 11, 2), (' ', Color::Black, Color::Black));
}

#[test]
fn one_frame_composes_all_layers() {
    let settings = ScreenSetting::new(12, 18, 34, 20);
    let field = create_initial_field(&settings);
    let tetromino = build_tetromino();
    let score = Frame::new(19, 3, FrameStyle::DoubleLine, Color::White, Color::Black);
    let score_title = Text::new(String::from(" SCORE "), Color::Cyan, Color::Black);
    let piece = TetrisShape::with_identity(0, 6, 0);
    let mut screen = Screen::new(34, 20);
    render_scene(&mut screen, &field, &score, &score_title, 150, &tetromino, &piece);
    // the playfield wall appears at its offset
    assert_eq!(cell(&screen, 2, 2).0, '║');
    assert_eq!(cell(&screen, 13, 2).0, '║');
    assert_eq!(cell(&screen, 2, 19).0, '╚');
    // the score frame's corner
    assert_eq!(cell(&screen, 15, 2).0, '╔');
    assert_eq!(cell(&screen, 33, 2).0, '╗');
    // the title overwrites part of the frame's top edge
    assert_eq!(cell(&screen, 21, 2), (' ', Color::Cyan, Color::Black));
    assert_eq!(cell(&screen, 22, 2), ('S', Color::Cyan, Color::Black));
    // the point total inside the frame
    assert_eq!(cell(&screen, 19, 3), ('0', Color::DarkBlue, Color::Black));
    assert_eq!(cell(&screen, 27, 3), ('1', Color::DarkBlue, Color::Black));
    assert_eq!(cell(&screen, 28, 3), ('5', Color::DarkBlue, Color::Black));
    assert_eq!(cell(&screen, 29, 3), ('0', Color::DarkBlue, Color::Black));
    // the floating piece sits on top of the playfield area
    for py in 0..4u16 {
        assert_eq!(cell(&screen, 10, 2 + py), ('0', Color::Grey, Color::Cyan));
    }
    // outside every layer the screen is blank
    assert_eq!(cell(&screen, 0, 0), (' ', Color::Black, Color::Black));
    assert_eq!(cell(&screen, 20, 10), (' ', Color::Black, Color::Black));
}
