use vstd::prelude::*;
use crate::color::Color;
use crate::grid::filled;
use crate::grid::flat_index;
use crate::grid::lemma_flat_index_bounds;
use crate::grid::lemma_flat_index_fits_usize;
use crate::grid::lemma_flat_index_injective;
use crate::screen::ScreenElement;

verus! {

/// The line style a frame border is drawn with.
pub enum FrameStyle {
    DoubleLine,
}

/// The glyph a double-line frame of size `w` by `h` shows at cell (x, y):
/// corner pieces in the corners, horizontal bars along the top and bottom
/// rows, vertical bars along the side columns, and blanks inside.
pub open spec fn frame_glyph(x: int, y: int, w: int, h: int) -> char {
    if x == 0 && y == h - 1 {
        '╚'
    } else if x == 0 && y == 0 {
        '╔'
    } else if x == w - 1 && y == 0 {
        '╗'
    } else if x == w - 1 && y == h - 1 {
        '╝'
    } else if y == h - 1 || y == 0 {
        '═'
    } else if x == 0 || x == w - 1 {
        '║'
    } else {
        ' '
    }
}

/// A rectangular border drawn in one uniform color pair, blank inside;
/// drawable on a `Screen`.
pub struct Frame {
    pub content: Vec<char>,
    pub foreground_color: Color,
    pub background_color: Color,
    pub width: u16,
    pub height: u16,
}

impl Frame {
    /// Glyph held at cell (x, y).
    pub open spec fn glyph_at(&self, x: int, y: int) -> char {
        self.content@[flat_index(x, y, self.width as int)]
    }

    /// Builds the border: every cell of the new frame shows `frame_glyph`.
    pub fn new(
        width: u16,
        height: u16,
        style: FrameStyle,
        foreground_color: Color,
        background_color: Color,
    ) -> (r: Frame)
        requires
            width as int * height as int <= u16::MAX as int,
        ensures
            r.wf(),
            r.spec_width() == width,
            r.spec_height() == height,
            r.foreground_color == foreground_color,
            r.background_color == background_color,
            forall|x: int, y: int|
                0 <= x < width && 0 <= y < height ==> #[trigger] r.glyph_at(x, y) == frame_glyph(
                    x,
                    y,
                    width as int,
                    height as int,
                ),
    {
        proof {
            assert(height as int * width as int == width as int * height as int)
                by (nonlinear_arith);
        }
        let mut frame_content: Vec<char> = filled((height * width) as usize, ' ');
        let characters: [char; 7] = match style {
            FrameStyle::DoubleLine => [' ', '║', '═', '╚', '╝', '╗', '╔'],
        };
        proof {
            assert forall|cx: int, cy: int| 0 <= cx < width && 0 <= cy < height implies
                #[trigger] frame_content@[flat_index(cx, cy, width as int)] == ' ' by {
                lemma_flat_index_bounds(cx, cy, width as int, height as int);
            }
        }
        let mut x: u16 = 0;
        while x < width
            invariant
                frame_content@.len() == width as int * height as int,
                x <= width,
                characters@ =~= seq![' ', '║', '═', '╚', '╝', '╗', '╔'],
                forall|cx: int, cy: int|
                    0 <= cx < x && 0 <= cy < height
                        ==> #[trigger] frame_content@[flat_index(cx, cy, width as int)]
                        == frame_glyph(cx, cy, width as int, height as int),
                forall|cx: int, cy: int|
                    x <= cx < width && 0 <= cy < height
                        ==> #[trigger] frame_content@[flat_index(cx, cy, width as int)] == ' ',
            decreases width - x,
        {
            let mut y: u16 = 0;
            while y < height
                invariant
                    frame_content@.len() == width as int * height as int,
                    x < width,
                    y <= height,
                    characters@ =~= seq![' ', '║', '═', '╚', '╝', '╗', '╔'],
                    forall|cx: int, cy: int|
                        (0 <= cx < x && 0 <= cy < height) || (cx == x as int && 0 <= cy < y)
                            ==> #[trigger] frame_content@[flat_index(cx, cy, width as int)]
                            == frame_glyph(cx, cy, width as int, height as int),
                    forall|cx: int, cy: int|
                        ((cx == x as int && y <= cy < height) || (x < cx < width && 0 <= cy
                            < height)) ==> #[trigger] frame_content@[flat_index(
                            cx,
                            cy,
                            width as int,
                        )] == ' ',
                decreases height - y,
            {
                proof {
                    lemma_flat_index_fits_usize(x as int, y as int, width as int);
                    lemma_flat_index_bounds(x as int, y as int, width as int, height as int);
                }
                let index: usize = (y as usize) * (width as usize) + (x as usize);
                let ghost prev = frame_content@;
                if x == 0 || x == width - 1 || y == height - 1 || y == 0 {
                    if x == 0 && y == height - 1 {
                        frame_content[index] = characters[3];
                    } else if x == 0 && y == 0 {
                        frame_content[index] = characters[6];
                    } else if x == width - 1 && y == 0 {
                        frame_content[index] = characters[5];
                    } else if x == width - 1 && y == height - 1 {
                        frame_content[index] = characters[4];
                    } else if y == height - 1 || y == 0 {
                        frame_content[index] = characters[2];
                    } else if x == 0 || x == width - 1 {
                        frame_content[index] = characters[1];
                    }
                } else {
                    frame_content[index] = characters[0];
                }
                proof {
                    assert(frame_content@[flat_index(x as int, y as int, width as int)]
                        == frame_glyph(x as int, y as int, width as int, height as int));
                    assert forall|cx: int, cy: int|
                        0 <= cx < width && 0 <= cy < height && !(cx == x as int && cy == y as int)
                            implies #[trigger] frame_content@[flat_index(cx, cy, width as int)]
                        == prev[flat_index(cx, cy, width as int)] by {
                        lemma_flat_index_bounds(cx, cy, width as int, height as int);
                        lemma_flat_index_injective(cx, cy, x as int, y as int, width as int);
                    }
                }
                y += 1;
            }
            x += 1;
        }
        Frame {
            content: frame_content,
            foreground_color,
            background_color,
            width,
            height,
        }
    }
}

impl ScreenElement for Frame {
    open spec fn wf(&self) -> bool {
        self.content@.len() == self.width as int * self.height as int
    }

    open spec fn spec_width(&self) -> u16 {
        self.width
    }

    open spec fn spec_height(&self) -> u16 {
        self.height
    }

    open spec fn spec_part(&self, x: int, y: int) -> char {
        self.glyph_at(x, y)
    }

    open spec fn spec_foreground_color(&self, x: int, y: int) -> Color {
        self.foreground_color
    }

    open spec fn spec_background_color(&self, x: int, y: int) -> Color {
        self.background_color
    }

    fn get_width(&self) -> u16 {
        self.width
    }

    fn get_height(&self) -> u16 {
        self.height
    }

    fn get_part(&self, x: u16, y: u16) -> char {
        proof {
            lemma_flat_index_fits_usize(x as int, y as int, self.width as int);
            lemma_flat_index_bounds(x as int, y as int, self.width as int, self.height as int);
        }
        self.content[(y as usize) * (self.width as usize) + (x as usize)]
    }

    fn get_foreground_color(&self, _x: u16, _y: u16) -> Color {
        self.foreground_color
    }

    fn get_background_color(&self, _x: u16, _y: u16) -> Color {
        self.background_color
    }
}

} // verus!
