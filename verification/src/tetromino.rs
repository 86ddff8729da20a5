use vstd::prelude::*;
use crate::rotation::Rotation;
use crate::rotation::rotate_index;
use vstd::string::StringExecFns;

verus! {

/// The 16-character occupancy encoding of piece `piece`: its 4x4 grid
/// flattened row-major, `'X'` for an occupied cell and `'.'` for a blank one.
/// The seven entries are the I, S, Z, L, J, O and T tetrominoes.
pub open spec fn shape_seq(piece: int) -> Seq<char> {
    if piece == 0 {
        "..X...X...X...X."@
    } else if piece == 1 {
        "..X..XX..X......"@
    } else if piece == 2 {
        ".X...XX...X....."@
    } else if piece == 3 {
        ".....XX...X...X."@
    } else if piece == 4 {
        ".....XX..X...X.."@
    } else if piece == 5 {
        ".....XX..XX....."@
    } else {
        "..X..XX...X....."@
    }
}

/// A vector is the shape catalog: the seven encodings, in order.
pub open spec fn is_catalog(t: Seq<String>) -> bool {
    &&& t.len() == 7
    &&& forall|i: int| 0 <= i < 7 ==> #[trigger] t[i]@ == shape_seq(i)
}

/// The logical cell (px, py) of piece `piece` is occupied when viewed under
/// orientation `rot`.
pub open spec fn occupied(piece: int, rot: Rotation, px: int, py: int) -> bool {
    shape_seq(piece)[rotate_index(px, py, rot)] == 'X'
}

/// Every shape encoding holds exactly 16 characters.
pub proof fn lemma_shape_len(piece: int)
    ensures
        shape_seq(piece).len() == 16,
{
    reveal_strlit("..X...X...X...X.");
    reveal_strlit("..X..XX..X......");
    reveal_strlit(".X...XX...X.....");
    reveal_strlit(".....XX...X...X.");
    reveal_strlit(".....XX..X...X..");
    reveal_strlit(".....XX..XX.....");
    reveal_strlit("..X..XX...X.....");
}

/// Every piece, at spawn orientation, occupies its cell (2, 1); and each of
/// its occupied cells at spawn orientation has column 1 or 2 and row 0 to 3.
pub proof fn lemma_shape_spawn_extent(piece: int)
    requires
        0 <= piece < 7,
    ensures
        occupied(piece, Rotation::R0, 2, 1),
        forall|px: int, py: int|
            0 <= px < 4 && 0 <= py < 4 && #[trigger] occupied(piece, Rotation::R0, px, py) ==> 1
                <= px <= 2 && 0 <= py <= 3,
{
    reveal_strlit("..X...X...X...X.");
    reveal_strlit("..X..XX..X......");
    reveal_strlit(".X...XX...X.....");
    reveal_strlit(".....XX...X...X.");
    reveal_strlit(".....XX..X...X..");
    reveal_strlit(".....XX..XX.....");
    reveal_strlit("..X..XX...X.....");
}

/// Builds the shape catalog.
pub fn build_tetromino() -> (r: Vec<String>)
    ensures
        is_catalog(r@),
{
    let mut tetromino: Vec<String> = Vec::new();
    let mut shape = String::from_str("");
    shape.append("..X.");
    shape.append("..X.");
    shape.append("..X.");
    shape.append("..X.");
    proof {
        reveal_strlit("");
        reveal_strlit("..X.");
        reveal_strlit("..X...X...X...X.");
        assert(shape@ =~= shape_seq(0));
    }
    tetromino.push(shape);
    let mut shape = String::from_str("");
    shape.append("..X.");
    shape.append(".XX.");
    shape.append(".X..");
    shape.append("....");
    proof {
        reveal_strlit("");
        reveal_strlit("..X.");
        reveal_strlit(".XX.");
        reveal_strlit(".X..");
        reveal_strlit("....");
        reveal_strlit("..X..XX..X......");
        assert(shape@ =~= shape_seq(1));
    }
    tetromino.push(shape);
    let mut shape = String::from_str("");
    shape.append(".X..");
    shape.append(".XX.");
    shape.append("..X.");
    shape.append("....");
    proof {
        reveal_strlit("");
        reveal_strlit(".X..");
        reveal_strlit(".XX.");
        reveal_strlit("..X.");
        reveal_strlit("....");
        reveal_strlit(".X...XX...X.....");
        assert(shape@ =~= shape_seq(2));
    }
    tetromino.push(shape);
    let mut shape = String::from_str("");
    shape.append("....");
    shape.append(".XX.");
    shape.append("..X.");
    shape.append("..X.");
    proof {
        reveal_strlit("");
        reveal_strlit("....");
        reveal_strlit(".XX.");
        reveal_strlit("..X.");
        reveal_strlit(".....XX...X...X.");
        assert(shape@ =~= shape_seq(3));
    }
    tetromino.push(shape);
    let mut shape = String::from_str("");
    shape.append("....");
    shape.append(".XX.");
    shape.append(".X..");
    shape.append(".X..");
    proof {
        reveal_strlit("");
        reveal_strlit("....");
        reveal_strlit(".XX.");
        reveal_strlit(".X..");
        reveal_strlit(".....XX..X...X..");
        assert(shape@ =~= shape_seq(4));
    }
    tetromino.push(shape);
    let mut shape = String::from_str("");
    shape.append("....");
    shape.append(".XX.");
    shape.append(".XX.");
    shape.append("....");
    proof {
        reveal_strlit("");
        reveal_strlit("....");
        reveal_strlit(".XX.");
        reveal_strlit(".....XX..XX.....");
        assert(shape@ =~= shape_seq(5));
    }
    tetromino.push(shape);
    let mut shape = String::from_str("");
    shape.append("..X.");
    shape.append(".XX.");
    shape.append("..X.");
    shape.append("....");
    proof {
        reveal_strlit("");
        reveal_strlit("..X.");
        reveal_strlit(".XX.");
        reveal_strlit("....");
        reveal_strlit("..X..XX...X.....");
        assert(shape@ =~= shape_seq(6));
    }
    tetromino.push(shape);
    tetromino
}

} // verus!
