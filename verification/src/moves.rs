//! Line identifiers: the numbers by which players name the line they draw.
//!
//! Every box lends two identifiers, one to its bottom and one to its right
//! side: `2 * (10 * row + col)` and the number after it.  A line between two
//! boxes is the top or left side of one of them as well, so it can be
//! addressed from either box, but it has one identifier only.
use vstd::prelude::*;
use crate::grid::{
    interior, is_address, line_col, line_id, line_row, line_side, BOTTOM, LEFT, LINE_COUNT,
    RIGHT, SIZE, TOP,
};

verus! {

/// The line on `side` of box `(row, col)` has an identifier: it is a bottom
/// or right side, or a top or left side that is shared with another box.
pub open spec fn has_line_id(row: int, col: int, side: u8) -> bool {
    is_address(row, col, side) && (side == BOTTOM || side == RIGHT || interior(row, col, side))
}

/// The identifier of the line on `side` of box `(row, col)`, or `None` if the
/// address is not on the board or the line has no identifier.
pub fn encode(row: usize, col: usize, side: u8) -> (r: Option<usize>)
    ensures
        r is Some <==> has_line_id(row as int, col as int, side),
        r matches Some(id) ==> id == line_id(row as int, col as int, side) && id < LINE_COUNT,
{
    if row >= SIZE || col >= SIZE {
        None
    } else if side == BOTTOM {
        Some(2 * (10 * row + col))
    } else if side == RIGHT {
        Some(2 * (10 * row + col) + 1)
    } else if side == TOP && row > 0 {
        Some(2 * (10 * (row - 1) + col))
    } else if side == LEFT && col > 0 {
        Some(2 * (10 * row + (col - 1)) + 1)
    } else {
        None
    }
}

/// The box and side that identifier `id` names: `(row, col, side)` with
/// `side` either `BOTTOM` or `RIGHT`.  `None` if `id` is no identifier.
pub fn decode(id: usize) -> (r: Option<(usize, usize, u8)>)
    ensures
        r is Some <==> id < LINE_COUNT,
        r matches Some(a) ==> a.0 == line_row(id as int) && a.1 == line_col(id as int) && a.2
            == line_side(id as int) && is_address(a.0 as int, a.1 as int, a.2),
{
    if id < LINE_COUNT {
        let box_num: usize = id / 2;
        let side: u8 = if id % 2 == 0 { BOTTOM } else { RIGHT };
        Some((box_num / SIZE, box_num % SIZE, side))
    } else {
        None
    }
}

/// Decoding an identifier and encoding the address again gives the
/// identifier back.
pub proof fn lemma_decode_encode(id: int)
    requires
        0 <= id < 200,
    ensures
        has_line_id(line_row(id), line_col(id), line_side(id)),
        line_id(line_row(id), line_col(id), line_side(id)) == id,
{
}

/// Encoding an address and decoding the identifier gives the address back,
/// or, for a top or left side, the address of the same line on the box
/// across it.
pub proof fn lemma_encode_decode(row: int, col: int, side: u8)
    requires
        has_line_id(row, col, side),
    ensures
        0 <= line_id(row, col, side) < 200,
        line_id(
            line_row(line_id(row, col, side)),
            line_col(line_id(row, col, side)),
            line_side(line_id(row, col, side)),
        ) == line_id(row, col, side),
        side == BOTTOM || side == RIGHT ==> line_row(line_id(row, col, side)) == row && line_col(
            line_id(row, col, side),
        ) == col && line_side(line_id(row, col, side)) == side,
        side == TOP ==> line_row(line_id(row, col, side)) == row - 1 && line_col(
            line_id(row, col, side),
        ) == col && line_side(line_id(row, col, side)) == BOTTOM,
        side == LEFT ==> line_row(line_id(row, col, side)) == row && line_col(
            line_id(row, col, side),
        ) == col - 1 && line_side(line_id(row, col, side)) == RIGHT,
{
}

} // verus!
