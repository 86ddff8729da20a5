use vstd::prelude::*;
use crate::color::Color;
use crate::rotation::Rotation;
use rand::Rng;

verus! {

/// The display color assigned to piece `piece`.  Pieces 1 and 6 deliberately
/// share a hue.
pub open spec fn piece_color(piece: int) -> Color {
    if piece == 0 {
        Color::Cyan
    } else if piece == 1 {
        Color::Green
    } else if piece == 2 {
        Color::Blue
    } else if piece == 3 {
        Color::Yellow
    } else if piece == 4 {
        Color::Magenta
    } else if piece == 5 {
        Color::Red
    } else {
        Color::Green
    }
}

/// Relies on rand's thread-local generator and `Rng::gen_range`, which
/// returns a value drawn from the given non-empty range; nothing more is
/// assumed of which value comes back.
#[verifier::external_body]
pub(crate) fn random_below(n: i16) -> (r: i16)
    requires
        0 < n,
    ensures
        0 <= r < n,
{
    rand::thread_rng().gen_range(0..n)
}

/// The falling piece: its catalog identity, current orientation, display
/// color and top-left position in playfield coordinates.
pub struct TetrisShape {
    pub current_piece: i16,
    pub current_rotation: Rotation,
    pub current_color: Color,
    pub current_x: i16,
    pub current_y: i16,
}

impl TetrisShape {
    /// The identity indexes the seven-entry catalog.
    pub open spec fn wf(&self) -> bool {
        0 <= self.current_piece < 7
    }

    /// A fresh piece of the given identity at the given position: spawn
    /// orientation, catalog color.
    pub fn with_identity(identity: i16, current_x: i16, current_y: i16) -> (r: TetrisShape)
        requires
            0 <= identity < 7,
        ensures
            r.wf(),
            r.current_piece == identity,
            r.current_rotation == Rotation::R0,
            r.current_color == piece_color(identity as int),
            r.current_x == current_x,
            r.current_y == current_y,
    {
        let piece_colors: [Color; 7] = [
            Color::Cyan,
            Color::Green,
            Color::Blue,
            Color::Yellow,
            Color::Magenta,
            Color::Red,
            Color::Green,
        ];
        TetrisShape {
            current_piece: identity,
            current_color: piece_colors[identity as usize],
            current_rotation: Rotation::R0,
            current_x,
            current_y,
        }
    }

    /// A fresh piece at the given position with an identity drawn uniformly
    /// from the seven shapes.
    pub fn new(current_x: i16, current_y: i16) -> (r: TetrisShape)
        ensures
            r.wf(),
            r.current_rotation == Rotation::R0,
            r.current_color == piece_color(r.current_piece as int),
            r.current_x == current_x,
            r.current_y == current_y,
    {
        let random_value = random_below(7);
        TetrisShape::with_identity(random_value, current_x, current_y)
    }
}

} // verus!
