use vstd::prelude::*;
use crate::color::Color;
use crate::grid::flat_index;
use crate::grid::lemma_flat_index_bounds;
use crate::grid::lemma_flat_index_fits_usize;
use crate::screen::ScreenElement;
use vstd::string::StrSliceExecFns;

verus! {

/// A one-row text label in one uniform color pair; drawable on a `Screen`,
/// one glyph per character.
pub struct Text {
    pub buffer: String,
    pub width: u16,
    pub height: u16,
    pub foreground_color: Color,
    pub background_color: Color,
}

impl Text {
    pub fn new(text: String, foreground_color: Color, background_color: Color) -> (r: Text)
        requires
            text@.len() <= u16::MAX as int,
        ensures
            r.wf(),
            r.spec_width() == text@.len(),
            r.spec_height() == 1,
            r.buffer@ == text@,
            r.foreground_color == foreground_color,
            r.background_color == background_color,
    {
        let width: u16 = text.as_str().unicode_len() as u16;
        Text {
            width,
            buffer: text,
            height: 1,
            foreground_color,
            background_color,
        }
    }
}

impl ScreenElement for Text {
    open spec fn wf(&self) -> bool {
        &&& self.buffer@.len() == self.width as int
        &&& self.height == 1
    }

    open spec fn spec_width(&self) -> u16 {
        self.width
    }

    open spec fn spec_height(&self) -> u16 {
        self.height
    }

    open spec fn spec_part(&self, x: int, y: int) -> char {
        self.buffer@[flat_index(x, y, self.width as int)]
    }

    open spec fn spec_foreground_color(&self, x: int, y: int) -> Color {
        self.foreground_color
    }

    open spec fn spec_background_color(&self, x: int, y: int) -> Color {
        self.background_color
    }

    fn get_width(&self) -> u16 {
        self.width
    }

    fn get_height(&self) -> u16 {
        self.height
    }

    fn get_part(&self, x: u16, y: u16) -> char {
        proof {
            lemma_flat_index_fits_usize(x as int, y as int, self.width as int);
            lemma_flat_index_bounds(x as int, y as int, self.width as int, self.height as int);
        }
        let index: usize = (y as usize) * (self.width as usize) + (x as usize);
        self.buffer.as_str().get_char(index)
    }

    fn get_foreground_color(&self, _x: u16, _y: u16) -> Color {
        self.foreground_color
    }

    fn get_background_color(&self, _x: u16, _y: u16) -> Color {
        self.background_color
    }
}

} // verus!
