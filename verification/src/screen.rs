use vstd::prelude::*;
use crate::color::Color;
use crate::grid::filled;
use crate::grid::flat_index;
use crate::grid::lemma_flat_index_bounds;
use crate::grid::lemma_flat_index_fits_usize;
use crate::grid::lemma_flat_index_injective;

verus! {

/// A drawable entity: anything exposing a width, a height and per-cell glyph
/// and color queries.  This is the compositor's sole extensibility point; the
/// playfield, frames, text labels and the floating piece all implement it.
pub trait ScreenElement: Sized {
    /// The element's buffers agree with its dimensions.
    spec fn wf(&self) -> bool;

    /// Width of the element in cells.
    spec fn spec_width(&self) -> u16;

    /// Height of the element in cells.
    spec fn spec_height(&self) -> u16;

    /// Glyph shown at cell (x, y) of the element.
    spec fn spec_part(&self, x: int, y: int) -> char;

    /// Foreground color of cell (x, y) of the element.
    spec fn spec_foreground_color(&self, x: int, y: int) -> Color;

    /// Background color of cell (x, y) of the element.
    spec fn spec_background_color(&self, x: int, y: int) -> Color;

    fn get_width(&self) -> (r: u16)
        requires
            self.wf(),
        ensures
            r == self.spec_width(),
    ;

    fn get_height(&self) -> (r: u16)
        requires
            self.wf(),
        ensures
            r == self.spec_height(),
    ;

    fn get_part(&self, x: u16, y: u16) -> (r: char)
        requires
            self.wf(),
            x < self.spec_width(),
            y < self.spec_height(),
        ensures
            r == self.spec_part(x as int, y as int),
    ;

    fn get_foreground_color(&self, x: u16, y: u16) -> (r: Color)
        requires
            self.wf(),
            x < self.spec_width(),
            y < self.spec_height(),
        ensures
            r == self.spec_foreground_color(x as int, y as int),
    ;

    fn get_background_color(&self, x: u16, y: u16) -> (r: Color)
        requires
            self.wf(),
            x < self.spec_width(),
            y < self.spec_height(),
        ensures
            r == self.spec_background_color(x as int, y as int),
    ;
}

/// True when (cx, cy) lies in the rectangle of size `w` by `h` whose top-left
/// corner is (px, py).
pub open spec fn in_rect(cx: int, cy: int, px: int, py: int, w: int, h: int) -> bool {
    px <= cx < px + w && py <= cy < py + h
}

/// The output compositing buffer: a 2D grid of cells (glyph, foreground
/// color, background color) that accumulates drawable elements via
/// position-offset blits and direct writes, and is then emitted to the
/// terminal in one pass by the frontend.
pub struct Screen {
    pub buffer: Vec<char>,
    pub foreground_colors: Vec<Color>,
    pub background_colors: Vec<Color>,
    pub width: u16,
    pub height: u16,
}

impl Screen {
    /// The three cell buffers cover exactly the grid.
    pub open spec fn wf(&self) -> bool {
        &&& self.buffer@.len() == self.width as int * self.height as int
        &&& self.foreground_colors@.len() == self.width as int * self.height as int
        &&& self.background_colors@.len() == self.width as int * self.height as int
    }

    /// Glyph held at screen cell (x, y).
    pub open spec fn glyph_at(&self, x: int, y: int) -> char {
        self.buffer@[flat_index(x, y, self.width as int)]
    }

    /// Foreground color held at screen cell (x, y).
    pub open spec fn fg_at(&self, x: int, y: int) -> Color {
        self.foreground_colors@[flat_index(x, y, self.width as int)]
    }

    /// Background color held at screen cell (x, y).
    pub open spec fn bg_at(&self, x: int, y: int) -> Color {
        self.background_colors@[flat_index(x, y, self.width as int)]
    }

    /// Cell (x, y) holds glyph `g` with foreground `f` over background `b`.
    pub open spec fn shows_at(&self, x: int, y: int, g: char, f: Color, b: Color) -> bool {
        &&& self.glyph_at(x, y) == g
        &&& self.fg_at(x, y) == f
        &&& self.bg_at(x, y) == b
    }

    /// Cell (x, y) holds the blank glyph on black.
    pub open spec fn blank_at(&self, x: int, y: int) -> bool {
        self.shows_at(x, y, ' ', Color::Black, Color::Black)
    }

    /// Cell (x, y) is unchanged between `pre` and `self`.
    pub open spec fn same_cell_as(&self, pre: Screen, x: int, y: int) -> bool {
        &&& self.glyph_at(x, y) == pre.glyph_at(x, y)
        &&& self.fg_at(x, y) == pre.fg_at(x, y)
        &&& self.bg_at(x, y) == pre.bg_at(x, y)
    }

    /// Cell (cx, cy) shows the cell of `elem` that a blit at offset (px, py)
    /// copies onto it.
    pub open spec fn shows_element_at<T: ScreenElement>(
        &self,
        elem: T,
        px: int,
        py: int,
        cx: int,
        cy: int,
    ) -> bool {
        self.shows_at(
            cx,
            cy,
            elem.spec_part(cx - px, cy - py),
            elem.spec_foreground_color(cx - px, cy - py),
            elem.spec_background_color(cx - px, cy - py),
        )
    }

    pub fn new(width: u16, height: u16) -> (r: Screen)
        requires
            width as int * height as int <= u16::MAX as int,
        ensures
            r.wf(),
            r.width == width,
            r.height == height,
            forall|x: int, y: int|
                0 <= x < width && 0 <= y < height ==> #[trigger] r.blank_at(x, y),
    {
        let size: usize = (width * height) as usize;
        let r = Screen {
            width,
            height,
            buffer: filled(size, ' '),
            foreground_colors: filled(size, Color::Black),
            background_colors: filled(size, Color::Black),
        };
        proof {
            assert forall|x: int, y: int|
                0 <= x < width && 0 <= y < height implies #[trigger] r.blank_at(x, y) by {
                lemma_flat_index_bounds(x, y, width as int, height as int);
            }
        }
        r
    }

    /// Resets every cell of the buffer to blank, keeping the dimensions.
    pub fn begin_render(&mut self)
        requires
            old(self).wf(),
            old(self).width as int * old(self).height as int <= u16::MAX as int,
        ensures
            final(self).wf(),
            final(self).width == old(self).width,
            final(self).height == old(self).height,
            forall|x: int, y: int|
                0 <= x < old(self).width && 0 <= y < old(self).height
                    ==> #[trigger] final(self).blank_at(x, y),
    {
        let size: usize = (self.width * self.height) as usize;
        self.buffer = filled(size, ' ');
        self.foreground_colors = filled(size, Color::Black);
        self.background_colors = filled(size, Color::Black);
        proof {
            assert forall|x: int, y: int|
                0 <= x < self.width && 0 <= y < self.height implies #[trigger] self.blank_at(
                x,
                y,
            ) by {
                lemma_flat_index_bounds(x, y, self.width as int, self.height as int);
            }
        }
    }

    /// Writes a single cell directly.
    pub fn add_directly(
        &mut self,
        content: char,
        foreground_color: Color,
        background_color: Color,
        pos_x: u16,
        pos_y: u16,
    )
        requires
            old(self).wf(),
            pos_x < old(self).width,
            pos_y < old(self).height,
        ensures
            final(self).wf(),
            final(self).width == old(self).width,
            final(self).height == old(self).height,
            final(self).shows_at(
                pos_x as int,
                pos_y as int,
                content,
                foreground_color,
                background_color,
            ),
            forall|cx: int, cy: int|
                0 <= cx < old(self).width && 0 <= cy < old(self).height && !(cx == pos_x as int
                    && cy == pos_y as int) ==> #[trigger] final(self).same_cell_as(
                    *old(self),
                    cx,
                    cy,
                ),
    {
        proof {
            lemma_flat_index_fits_usize(pos_x as int, pos_y as int, self.width as int);
        }
        let index: usize = (pos_y as usize) * (self.width as usize) + (pos_x as usize);
        proof {
            lemma_flat_index_bounds(
                pos_x as int,
                pos_y as int,
                self.width as int,
                self.height as int,
            );
        }
        self.buffer[index] = content;
        self.foreground_colors[index] = foreground_color;
        self.background_colors[index] = background_color;
        proof {
            assert forall|cx: int, cy: int|
                0 <= cx < old(self).width && 0 <= cy < old(self).height && !(cx == pos_x as int
                    && cy == pos_y as int) implies #[trigger] self.same_cell_as(
                *old(self),
                cx,
                cy,
            ) by {
                lemma_flat_index_bounds(cx, cy, self.width as int, self.height as int);
                lemma_flat_index_injective(
                    cx,
                    cy,
                    pos_x as int,
                    pos_y as int,
                    self.width as int,
                );
            }
        }
    }

    /// Copies a drawable's glyphs and colors for every cell of its bounding
    /// rectangle into the buffer at the given offset.  Later blits overwrite
    /// earlier ones at overlapping cells: last writer wins, no blending.
    pub fn add_element_at<T: ScreenElement>(&mut self, elem: &T, pos_x: u16, pos_y: u16)
        requires
            old(self).wf(),
            elem.wf(),
            pos_x as int + elem.spec_width() as int <= old(self).width as int,
            pos_y as int + elem.spec_height() as int <= old(self).height as int,
        ensures
            final(self).wf(),
            final(self).width == old(self).width,
            final(self).height == old(self).height,
            blitted(*old(self), *final(self), *elem, pos_x, pos_y),
    {
        let elem_width = elem.get_width();
        let elem_height = elem.get_height();
        let mut x: u16 = 0;
        while x < elem_width
            invariant
                self.wf(),
                elem.wf(),
                elem_width == elem.spec_width(),
                elem_height == elem.spec_height(),
                self.width == old(self).width,
                self.height == old(self).height,
                x <= elem_width,
                pos_x as int + elem_width as int <= self.width as int,
                pos_y as int + elem_height as int <= self.height as int,
                forall|cx: int, cy: int|
                    in_rect(cx, cy, pos_x as int, pos_y as int, x as int, elem_height as int)
                        ==> #[trigger] self.shows_element_at(
                        *elem,
                        pos_x as int,
                        pos_y as int,
                        cx,
                        cy,
                    ),
                forall|cx: int, cy: int|
                    0 <= cx < self.width && 0 <= cy < self.height && !in_rect(
                        cx,
                        cy,
                        pos_x as int,
                        pos_y as int,
                        x as int,
                        elem_height as int,
                    ) ==> #[trigger] self.same_cell_as(*old(self), cx, cy),
            decreases elem_width - x,
        {
            let mut y: u16 = 0;
            while y < elem_height
                invariant
                    self.wf(),
                    elem.wf(),
                    elem_width == elem.spec_width(),
                    elem_height == elem.spec_height(),
                    self.width == old(self).width,
                    self.height == old(self).height,
                    x < elem_width,
                    y <= elem_height,
                    pos_x as int + elem_width as int <= self.width as int,
                    pos_y as int + elem_height as int <= self.height as int,
                    forall|cx: int, cy: int|
                        in_rect(cx, cy, pos_x as int, pos_y as int, x as int, elem_height as int)
                            || (cx == pos_x as int + x as int && pos_y as int <= cy < pos_y as int
                            + y as int) ==> #[trigger] self.shows_element_at(
                            *elem,
                            pos_x as int,
                            pos_y as int,
                            cx,
                            cy,
                        ),
                    forall|cx: int, cy: int|
                        0 <= cx < self.width && 0 <= cy < self.height && !in_rect(
                            cx,
                            cy,
                            pos_x as int,
                            pos_y as int,
                            x as int,
                            elem_height as int,
                        ) && !(cx == pos_x as int + x as int && pos_y as int <= cy < pos_y as int
                            + y as int) ==> #[trigger] self.same_cell_as(*old(self), cx, cy),
                decreases elem_height - y,
            {
                let tx: u16 = x + pos_x;
                let ty: u16 = y + pos_y;
                proof {
                    lemma_flat_index_fits_usize(tx as int, ty as int, self.width as int);
                }
                let index: usize = (ty as usize) * (self.width as usize) + (tx as usize);
                proof {
                    lemma_flat_index_bounds(
                        tx as int,
                        ty as int,
                        self.width as int,
                        self.height as int,
                    );
                }
                let part = elem.get_part(x, y);
                let fg = elem.get_foreground_color(x, y);
                let bg = elem.get_background_color(x, y);
                let ghost prev = *self;
                self.buffer[index] = part;
                self.foreground_colors[index] = fg;
                self.background_colors[index] = bg;
                proof {
                    assert forall|cx: int, cy: int|
                        0 <= cx < self.width && 0 <= cy < self.height && !(cx == tx as int && cy
                            == ty as int) implies #[trigger] self.same_cell_as(prev, cx, cy) by {
                        lemma_flat_index_bounds(cx, cy, self.width as int, self.height as int);
                        lemma_flat_index_injective(cx, cy, tx as int, ty as int, self.width as int);
                    }
                    assert(self.shows_element_at(
                        *elem,
                        pos_x as int,
                        pos_y as int,
                        tx as int,
                        ty as int,
                    ));
                    assert forall|cx: int, cy: int|
                        in_rect(cx, cy, pos_x as int, pos_y as int, x as int, elem_height as int)
                            || (cx == pos_x as int + x as int && pos_y as int <= cy < pos_y as int
                            + y as int + 1) implies #[trigger] self.shows_element_at(
                        *elem,
                        pos_x as int,
                        pos_y as int,
                        cx,
                        cy,
                    ) by {
                        if cx == tx as int && cy == ty as int {
                        } else {
                            assert(prev.shows_element_at(
                                *elem,
                                pos_x as int,
                                pos_y as int,
                                cx,
                                cy,
                            ));
                            assert(self.same_cell_as(prev, cx, cy));
                        }
                    }
                    assert forall|cx: int, cy: int|
                        0 <= cx < self.width && 0 <= cy < self.height && !in_rect(
                            cx,
                            cy,
                            pos_x as int,
                            pos_y as int,
                            x as int,
                            elem_height as int,
                        ) && !(cx == pos_x as int + x as int && pos_y as int <= cy < pos_y as int
                            + y as int + 1) implies #[trigger] self.same_cell_as(
                        *old(self),
                        cx,
                        cy,
                    ) by {
                        assert(prev.same_cell_as(*old(self), cx, cy));
                        assert(self.same_cell_as(prev, cx, cy));
                    }
                }
                y += 1;
            }
            x += 1;
        }
    }

    /// Writes the characters of `text` into consecutive cells left to right,
    /// one glyph per character, with uniform colors.
    pub fn add_string_at(
        &mut self,
        text: String,
        foreground_color: Color,
        background_color: Color,
        pos_x: u16,
        pos_y: u16,
    )
        requires
            old(self).wf(),
            pos_x as int + text@.len() <= old(self).width as int,
            pos_y < old(self).height,
        ensures
            final(self).wf(),
            final(self).width == old(self).width,
            final(self).height == old(self).height,
            forall|k: int|
                0 <= k < text@.len() ==> #[trigger] final(self).shows_at(
                    pos_x as int + k,
                    pos_y as int,
                    text@[k],
                    foreground_color,
                    background_color,
                ),
            forall|cx: int, cy: int|
                0 <= cx < old(self).width && 0 <= cy < old(self).height && !(cy == pos_y as int
                    && pos_x as int <= cx < pos_x as int + text@.len())
                    ==> #[trigger] final(self).same_cell_as(*old(self), cx, cy),
    {
        let s = text.as_str();
        let n: usize = s.unicode_len();
        let mut iter: usize = 0;
        while iter < n
            invariant
                self.wf(),
                self.width == old(self).width,
                self.height == old(self).height,
                n == text@.len(),
                s@ == text@,
                iter <= n,
                pos_x as int + n <= self.width as int,
                pos_y < self.height,
                forall|k: int|
                    0 <= k < iter ==> #[trigger] self.shows_at(
                        pos_x as int + k,
                        pos_y as int,
                        text@[k],
                        foreground_color,
                        background_color,
                    ),
                forall|cx: int, cy: int|
                    0 <= cx < self.width && 0 <= cy < self.height && !(cy == pos_y as int
                        && pos_x as int <= cx < pos_x as int + iter)
                        ==> #[trigger] self.same_cell_as(*old(self), cx, cy),
            decreases n - iter,
        {
            let this_char = s.get_char(iter);
            let tx: u16 = pos_x + (iter as u16);
            proof {
                lemma_flat_index_fits_usize(tx as int, pos_y as int, self.width as int);
            }
            let index: usize = (pos_y as usize) * (self.width as usize) + (tx as usize);
            proof {
                lemma_flat_index_bounds(
                    tx as int,
                    pos_y as int,
                    self.width as int,
                    self.height as int,
                );
            }
            let ghost prev = *self;
            self.buffer[index] = this_char;
            self.foreground_colors[index] = foreground_color;
            self.background_colors[index] = background_color;
            proof {
                assert forall|cx: int, cy: int|
                    0 <= cx < self.width && 0 <= cy < self.height && !(cx == tx as int && cy
                        == pos_y as int) implies #[trigger] self.same_cell_as(prev, cx, cy) by {
                    lemma_flat_index_bounds(cx, cy, self.width as int, self.height as int);
                    lemma_flat_index_injective(cx, cy, tx as int, pos_y as int, self.width as int);
                }
                assert(self.shows_at(
                    tx as int,
                    pos_y as int,
                    this_char,
                    foreground_color,
                    background_color,
                ));
                assert forall|k: int| 0 <= k < iter + 1 implies #[trigger] self.shows_at(
                    pos_x as int + k,
                    pos_y as int,
                    text@[k],
                    foreground_color,
                    background_color,
                ) by {
                    if k < iter {
                        assert(prev.shows_at(
                            pos_x as int + k,
                            pos_y as int,
                            text@[k],
                            foreground_color,
                            background_color,
                        ));
                        assert(self.same_cell_as(prev, pos_x as int + k, pos_y as int));
                    }
                }
                assert forall|cx: int, cy: int|
                    0 <= cx < self.width && 0 <= cy < self.height && !(cy == pos_y as int
                        && pos_x as int <= cx < pos_x as int + iter + 1) implies
                    #[trigger] self.same_cell_as(*old(self), cx, cy) by {
                    assert(prev.same_cell_as(*old(self), cx, cy));
                    assert(self.same_cell_as(prev, cx, cy));
                }
            }
            iter += 1;
        }
    }
}

/// `post` is `pre` with `elem` blitted at offset (pos_x, pos_y): every cell of
/// the element's rectangle shows the element, and every other cell is
/// unchanged.
pub open spec fn blitted<T: ScreenElement>(
    pre: Screen,
    post: Screen,
    elem: T,
    pos_x: u16,
    pos_y: u16,
) -> bool {
    &&& post.width == pre.width
    &&& post.height == pre.height
    &&& forall|cx: int, cy: int|
        in_rect(
            cx,
            cy,
            pos_x as int,
            pos_y as int,
            elem.spec_width() as int,
            elem.spec_height() as int,
        ) ==> #[trigger] post.shows_element_at(elem, pos_x as int, pos_y as int, cx, cy)
    &&& forall|cx: int, cy: int|
        0 <= cx < pre.width && 0 <= cy < pre.height && !in_rect(
            cx,
            cy,
            pos_x as int,
            pos_y as int,
            elem.spec_width() as int,
            elem.spec_height() as int,
        ) ==> #[trigger] post.same_cell_as(pre, cx, cy)
}

/// Law: blitting element `a` and then element `b` composes by last writer
/// wins.  At every cell of `b`'s rectangle the screen shows `b`; at every
/// cell of `a`'s rectangle that `b` does not cover it still shows `a`; and
/// every cell outside both rectangles is unchanged.
pub proof fn lemma_blit_layering<A: ScreenElement, B: ScreenElement>(
    s0: Screen,
    s1: Screen,
    s2: Screen,
    a: A,
    b: B,
    ax: u16,
    ay: u16,
    bx: u16,
    by: u16,
)
    requires
        blitted(s0, s1, a, ax, ay),
        blitted(s1, s2, b, bx, by),
        ax as int + a.spec_width() as int <= s0.width as int,
        ay as int + a.spec_height() as int <= s0.height as int,
        bx as int + b.spec_width() as int <= s0.width as int,
        by as int + b.spec_height() as int <= s0.height as int,
    ensures
        forall|cx: int, cy: int|
            in_rect(cx, cy, bx as int, by as int, b.spec_width() as int, b.spec_height() as int)
                ==> #[trigger] s2.shows_element_at(b, bx as int, by as int, cx, cy),
        forall|cx: int, cy: int|
            in_rect(cx, cy, ax as int, ay as int, a.spec_width() as int, a.spec_height() as int)
                && !in_rect(
                cx,
                cy,
                bx as int,
                by as int,
                b.spec_width() as int,
                b.spec_height() as int,
            ) ==> #[trigger] s2.shows_element_at(a, ax as int, ay as int, cx, cy),
        forall|cx: int, cy: int|
            0 <= cx < s0.width && 0 <= cy < s0.height && !in_rect(
                cx,
                cy,
                ax as int,
                ay as int,
                a.spec_width() as int,
                a.spec_height() as int,
            ) && !in_rect(
                cx,
                cy,
                bx as int,
                by as int,
                b.spec_width() as int,
                b.spec_height() as int,
            ) ==> #[trigger] s2.same_cell_as(s0, cx, cy),
{
    assert forall|cx: int, cy: int|
        in_rect(cx, cy, ax as int, ay as int, a.spec_width() as int, a.spec_height() as int)
            && !in_rect(
            cx,
            cy,
            bx as int,
            by as int,
            b.spec_width() as int,
            b.spec_height() as int,
        ) implies #[trigger] s2.shows_element_at(a, ax as int, ay as int, cx, cy) by {
        assert(s1.shows_element_at(a, ax as int, ay as int, cx, cy));
        assert(s2.same_cell_as(s1, cx, cy));
    }
    assert forall|cx: int, cy: int|
        0 <= cx < s0.width && 0 <= cy < s0.height && !in_rect(
            cx,
            cy,
            ax as int,
            ay as int,
            a.spec_width() as int,
            a.spec_height() as int,
        ) && !in_rect(
            cx,
            cy,
            bx as int,
            by as int,
            b.spec_width() as int,
            b.spec_height() as int,
        ) implies #[trigger] s2.same_cell_as(s0, cx, cy) by {
        assert(s1.same_cell_as(s0, cx, cy));
        assert(s2.same_cell_as(s1, cx, cy));
    }
}

} // verus!
