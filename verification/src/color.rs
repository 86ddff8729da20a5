use vstd::prelude::*;

verus! {

/// A terminal display color.  The palette holds exactly the hues the game
/// paints with; the frontend maps each one onto its terminal counterpart.
#[derive(Clone, Copy, PartialEq, Eq, Structural, Debug)]
pub enum Color {
    Black,
    White,
    Grey,
    DarkBlue,
    Cyan,
    Green,
    Blue,
    Yellow,
    Magenta,
    Red,
}

} // verus!
