use vstd::prelude::*;
use crate::color::Color;
use crate::grid::filled;
use crate::grid::flat_index;
use crate::grid::lemma_flat_index_bounds;
use crate::grid::lemma_flat_index_fits_usize;
use crate::screen::ScreenElement;

verus! {

/// A mutable 2D grid of cells, each carrying a displayed glyph, a foreground
/// color and a background color, addressed row-major by `y * width + x`.  The
/// playfield is one of these; it is also drawable on a `Screen`.
pub struct Block {
    pub content: Vec<char>,
    pub foreground_colors: Vec<Color>,
    pub background_colors: Vec<Color>,
    pub width: u16,
    pub height: u16,
}

/// The mathematical content of a `Block`: its three cell buffers as
/// sequences.
#[verifier::ext_equal]
pub struct FieldView {
    pub glyphs: Seq<char>,
    pub fgs: Seq<Color>,
    pub bgs: Seq<Color>,
}

impl View for Block {
    type V = FieldView;

    open spec fn view(&self) -> FieldView {
        FieldView {
            glyphs: self.content@,
            fgs: self.foreground_colors@,
            bgs: self.background_colors@,
        }
    }
}

impl Block {
    /// Glyph held at cell (x, y).
    pub open spec fn glyph_at(&self, x: int, y: int) -> char {
        self.content@[flat_index(x, y, self.width as int)]
    }

    /// Foreground color held at cell (x, y).
    pub open spec fn fg_at(&self, x: int, y: int) -> Color {
        self.foreground_colors@[flat_index(x, y, self.width as int)]
    }

    /// Background color held at cell (x, y).
    pub open spec fn bg_at(&self, x: int, y: int) -> Color {
        self.background_colors@[flat_index(x, y, self.width as int)]
    }

    /// Cell (x, y) holds glyph `g` with foreground `f` over background `b`.
    pub open spec fn shows_at(&self, x: int, y: int, g: char, f: Color, b: Color) -> bool {
        &&& self.glyph_at(x, y) == g
        &&& self.fg_at(x, y) == f
        &&& self.bg_at(x, y) == b
    }

    /// Cell (x, y) is unchanged between `pre` and `self`.
    pub open spec fn same_cell_as(&self, pre: Block, x: int, y: int) -> bool {
        &&& self.glyph_at(x, y) == pre.glyph_at(x, y)
        &&& self.fg_at(x, y) == pre.fg_at(x, y)
        &&& self.bg_at(x, y) == pre.bg_at(x, y)
    }

    /// Allocates a blank grid: every cell holds a space on black.
    pub fn new(width: u16, height: u16) -> (r: Block)
        requires
            width as int * height as int <= u16::MAX as int,
        ensures
            r.wf(),
            r.spec_width() == width,
            r.spec_height() == height,
            forall|i: int|
                0 <= i < width as int * height as int ==> #[trigger] r.content@[i] == ' ',
            forall|i: int|
                0 <= i < width as int * height as int ==> #[trigger] r.foreground_colors@[i]
                    == Color::Black,
            forall|i: int|
                0 <= i < width as int * height as int ==> #[trigger] r.background_colors@[i]
                    == Color::Black,
    {
        proof {
            assert(height as int * width as int == width as int * height as int)
                by (nonlinear_arith);
        }
        let size: usize = (height * width) as usize;
        Block {
            content: filled(size, ' '),
            width,
            height,
            foreground_colors: filled(size, Color::Black),
            background_colors: filled(size, Color::Black),
        }
    }

    /// Overwrites one cell.
    pub fn change_content(
        &mut self,
        x: u16,
        y: u16,
        content: char,
        foreground_color: Color,
        background_color: Color,
    )
        requires
            old(self).wf(),
            x < old(self).spec_width(),
            y < old(self).spec_height(),
        ensures
            final(self).wf(),
            final(self).width == old(self).width,
            final(self).height == old(self).height,
            final(self).content@ == old(self).content@.update(
                flat_index(x as int, y as int, old(self).width as int),
                content,
            ),
            final(self).foreground_colors@ == old(self).foreground_colors@.update(
                flat_index(x as int, y as int, old(self).width as int),
                foreground_color,
            ),
            final(self).background_colors@ == old(self).background_colors@.update(
                flat_index(x as int, y as int, old(self).width as int),
                background_color,
            ),
    {
        proof {
            lemma_flat_index_fits_usize(x as int, y as int, self.width as int);
            lemma_flat_index_bounds(x as int, y as int, self.width as int, self.height as int);
        }
        let index: usize = (y as usize) * (self.width as usize) + (x as usize);
        self.content[index] = content;
        self.foreground_colors[index] = foreground_color;
        self.background_colors[index] = background_color;
    }

    /// Current glyph of the cell at the given flat index.
    pub fn get_content_by_index(&self, index: usize) -> (r: &char)
        requires
            index < self.content@.len(),
        ensures
            *r == self.content@[index as int],
    {
        &self.content[index]
    }

    /// Current foreground color of the cell at the given flat index.
    pub fn _get_foreground_color_by_index(&self, index: usize) -> (r: &Color)
        requires
            index < self.foreground_colors@.len(),
        ensures
            *r == self.foreground_colors@[index as int],
    {
        &self.foreground_colors[index]
    }

    /// Current background color of the cell at the given flat index.
    pub fn get_background_color_by_index(&self, index: usize) -> (r: &Color)
        requires
            index < self.background_colors@.len(),
        ensures
            *r == self.background_colors@[index as int],
    {
        &self.background_colors[index]
    }
}

impl ScreenElement for Block {
    open spec fn wf(&self) -> bool {
        &&& self.content@.len() == self.width as int * self.height as int
        &&& self.foreground_colors@.len() == self.width as int * self.height as int
        &&& self.background_colors@.len() == self.width as int * self.height as int
    }

    open spec fn spec_width(&self) -> u16 {
        self.width
    }

    open spec fn spec_height(&self) -> u16 {
        self.height
    }

    open spec fn spec_part(&self, x: int, y: int) -> char {
        self.glyph_at(x, y)
    }

    open spec fn spec_foreground_color(&self, x: int, y: int) -> Color {
        self.fg_at(x, y)
    }

    open spec fn spec_background_color(&self, x: int, y: int) -> Color {
        self.bg_at(x, y)
    }

    fn get_width(&self) -> u16 {
        self.width
    }

    fn get_height(&self) -> u16 {
        self.height
    }

    fn get_part(&self, x: u16, y: u16) -> char {
        proof {
            lemma_flat_index_fits_usize(x as int, y as int, self.width as int);
            lemma_flat_index_bounds(x as int, y as int, self.width as int, self.height as int);
        }
        self.content[(y as usize) * (self.width as usize) + (x as usize)]
    }

    fn get_foreground_color(&self, x: u16, y: u16) -> Color {
        proof {
            lemma_flat_index_fits_usize(x as int, y as int, self.width as int);
            lemma_flat_index_bounds(x as int, y as int, self.width as int, self.height as int);
        }
        self.foreground_colors[(y as usize) * (self.width as usize) + (x as usize)]
    }

    fn get_background_color(&self, x: u16, y: u16) -> Color {
        proof {
            lemma_flat_index_fits_usize(x as int, y as int, self.width as int);
            lemma_flat_index_bounds(x as int, y as int, self.width as int, self.height as int);
        }
        self.background_colors[(y as usize) * (self.width as usize) + (x as usize)]
    }
}

} // verus!
