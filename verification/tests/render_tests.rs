use tetris::block::Block;
use tetris::color::Color;
use tetris::frame::Frame;
use tetris::frame::FrameStyle;
use tetris::screen::Screen;
use tetris::screen::ScreenElement;
use tetris::text::Text;

fn screen_cell(s: &Screen, x: u16, y: u16) -> (char, Color, Color) {
    let i = (y as usize) * (s.width as usize) + (x as usize);
    (s.buffer[i], s.foreground_colors[i], s.background_colors[i])
}

#[test]
fn new_screen_is_blank() {
    let s = Screen::new(10, 5);
    assert_eq!(s.width, 10);
    assert_eq!(s.height, 5);
    for x in 0..10 {
        for y in 0..5 {
            assert_eq!(screen_cell(&s, x, y), (' ', Color::Black, Color::Black));
        }
    }
}

#[test]
fn begin_render_resets_the_buffer() {
    let mut s = Screen::new(8, 4);
    s.add_directly('Q', Color::Red, Color::Blue, 3, 2);
    s.begin_render();
    for x in 0..8 {
        for y in 0..4 {
            assert_eq!(screen_cell(&s, x, y), (' ', Color::Black, Color::Black));
        }
    }
}

#[test]
fn add_directly_writes_one_cell_only() {
    let mut s = Screen::new(8, 4);
    s.add_directly('Q', Color::Red, Color::Blue, 3, 2);
    assert_eq!(screen_cell(&s, 3, 2), ('Q', Color::Red, Color::Blue));
    for x in 0..8 {
        for y in 0..4 {
            if (x, y) != (3, 2) {
                assert_eq!(screen_cell(&s, x, y), (' ', Color::Black, Color::Black));
            }
        }
    }
}

#[test]
fn add_string_at_writes_left_to_right() {
    let mut s = Screen::new(10, 4);
    s.add_string_at(String::from("HI!"), Color::Cyan, Color::Black, 4, 1);
    assert_eq!(screen_cell(&s, 4, 1), ('H', Color::Cyan, Color::Black));
    assert_eq!(screen_cell(&s, 5, 1), ('I', Color::Cyan, Color::Black));
    assert_eq!(screen_cell(&s, 6, 1), ('!', Color::Cyan, Color::Black));
    assert_eq!(screen_cell(&s, 7, 1), (' ', Color::Black, Color::Black));
}

#[test]
fn blit_overlap_is_last_writer_wins() {
    // element A: 3x2 block of 'a', element B: 3x2 block of 'b'
    let mut a = Block::new(3, 2);
    let mut b = Block::new(3, 2);
    for x in 0..3 {
        for y in 0..2 {
            a.change_content(x, y, 'a', Color::White, Color::Red);
            b.change_content(x, y, 'b', Color::White, Color::Blue);
        }
    }
    let mut s = Screen::new(10, 5);
    s.add_element_at(&a, 1, 1);
    s.add_element_at(&b, 2, 2);
    // overlap (columns 2..4 of row 2) shows B
    assert_eq!(screen_cell(&s, 2, 2), ('b', Color::White, Color::Blue));
    assert_eq!(screen_cell(&s, 3, 2), ('b', Color::White, Color::Blue));
    // cells of A that B does not cover keep A
    assert_eq!(screen_cell(&s, 1, 1), ('a', Color::White, Color::Red));
    assert_eq!(screen_cell(&s, 3, 1), ('a', Color::White, Color::Red));
    assert_eq!(screen_cell(&s, 1, 2), ('a', Color::White, Color::Red));
    // cells of B outside A are B's
    assert_eq!(screen_cell(&s, 4, 2), ('b', Color::White, Color::Blue));
    assert_eq!(screen_cell(&s, 4, 3), ('b', Color::White, Color::Blue));
    // untouched cells stay blank
    assert_eq!(screen_cell(&s, 0, 0), (' ', Color::Black, Color::Black));
    assert_eq!(screen_cell(&s, 9, 4), (' ', Color::Black, Color::Black));
}

#[test]
fn frame_draws_a_double_line_border() {
    let f = Frame::new(19, 3, FrameStyle::DoubleLine, Color::White, Color::Black);
    assert_eq!(f.get_width(), 19);
    assert_eq!(f.get_height(), 3);
    assert_eq!(f.get_part(0, 0), '╔');
    assert_eq!(f.get_part(18, 0), '╗');
    assert_eq!(f.get_part(0, 2), '╚');
    assert_eq!(f.get_part(18, 2), '╝');
    assert_eq!(f.get_part(5, 0), '═');
    assert_eq!(f.get_part(5, 2), '═');
    assert_eq!(f.get_part(0, 1), '║');
    assert_eq!(f.get_part(18, 1), '║');
    assert_eq!(f.get_part(5, 1), ' ');
    assert_eq!(f.get_foreground_color(4, 1), Color::White);
    assert_eq!(f.get_background_color(4, 1), Color::Black);
}

#[test]
fn text_exposes_one_glyph_per_character() {
    let t = Text::new(String::from(" SCORE "), Color::Cyan, Color::Black);
    assert_eq!(t.get_width(), 7);
    assert_eq!(t.get_height(), 1);
    assert_eq!(t.get_part(0, 0), ' ');
    assert_eq!(t.get_part(1, 0), 'S');
    assert_eq!(t.get_part(5, 0), 'E');
    assert_eq!(t.get_part(6, 0), ' ');
    assert_eq!(t.get_foreground_color(2, 0), Color::Cyan);
}

#[test]
fn block_reads_back_what_was_written() {
    let mut b = Block::new(4, 3);
    b.change_content(2, 1, 'Z', Color::Grey, Color::Red);
    assert_eq!(*b.get_content_by_index(1 * 4 + 2), 'Z');
    assert_eq!(*b.get_background_color_by_index(1 * 4 + 2), Color::Red);
    assert_eq!(*b._get_foreground_color_by_index(1 * 4 + 2), Color::Grey);
    assert_eq!(*b.get_content_by_index(0), ' ');
    assert_eq!(b.get_part(2, 1), 'Z');
    assert_eq!(b.get_background_color(2, 1), Color::Red);
}
