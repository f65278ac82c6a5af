//! Geometry of the grid and the mathematical model of a board.
use vstd::prelude::*;

verus! {

/// Player one.  The value is also the index of the bit that marks a box as
/// captured by player one.
pub const PLAYER_ONE: u8 = 9;

/// Player two.  The value is also the index of the bit that marks a box as
/// captured by player two.
pub const PLAYER_TWO: u8 = 8;

/// The left side of a box.
pub const LEFT: u8 = 3;

/// The top side of a box.
pub const TOP: u8 = 2;

/// The right side of a box.
pub const RIGHT: u8 = 1;

/// The bottom side of a box.
pub const BOTTOM: u8 = 0;

/// Number of boxes in a row and in a column.
pub const SIZE: usize = 10;

/// Number of line identifiers: one for the bottom and one for the right side
/// of every box.
pub const LINE_COUNT: usize = 200;

/// `(row, col)` names a box of the board.  Row 0 is the top row, column 0 the
/// leftmost column.
pub open spec fn in_grid(row: int, col: int) -> bool {
    0 <= row < 10 && 0 <= col < 10
}

/// `side` is one of `BOTTOM`, `RIGHT`, `TOP`, `LEFT`.
pub open spec fn is_side(side: u8) -> bool {
    side <= LEFT
}

/// `player` is `PLAYER_ONE` or `PLAYER_TWO`.
pub open spec fn is_player(player: u8) -> bool {
    player == PLAYER_ONE || player == PLAYER_TWO
}

/// The player who is not `player`.
pub open spec fn opponent_of(player: u8) -> u8 {
    if player == PLAYER_ONE {
        PLAYER_TWO
    } else {
        PLAYER_ONE
    }
}

/// The side that a neighbouring box shares with `side` of this box.
pub open spec fn opposite(side: u8) -> u8 {
    if side == BOTTOM {
        TOP
    } else if side == RIGHT {
        LEFT
    } else if side == TOP {
        BOTTOM
    } else {
        RIGHT
    }
}

/// The position on the other side of `side` of box `(row, col)`.  It may lie
/// outside the grid.
pub open spec fn across(row: int, col: int, side: u8) -> (int, int) {
    if side == BOTTOM {
        (row + 1, col)
    } else if side == RIGHT {
        (row, col + 1)
    } else if side == TOP {
        (row - 1, col)
    } else {
        (row, col - 1)
    }
}

/// `(row, col, side)` is a side of a box of the board.
pub open spec fn is_address(row: int, col: int, side: u8) -> bool {
    in_grid(row, col) && is_side(side)
}

/// `(row, col, side)` is a side that two boxes of the board share.
pub open spec fn interior(row: int, col: int, side: u8) -> bool {
    is_address(row, col, side) && in_grid(across(row, col, side).0, across(row, col, side).1)
}

/// `(row, col, side)` is a side on the rim of the board: no box lies across it.
pub open spec fn on_rim(row: int, col: int, side: u8) -> bool {
    is_address(row, col, side) && !in_grid(across(row, col, side).0, across(row, col, side).1)
}

/// The identifier of the line on `side` of box `(row, col)`.  The two
/// addresses of a shared line have the same identifier: that of the bottom
/// side of the upper box, or of the right side of the left box.
pub open spec fn line_id(row: int, col: int, side: u8) -> int {
    if side == BOTTOM {
        2 * (10 * row + col)
    } else if side == RIGHT {
        2 * (10 * row + col) + 1
    } else if side == TOP {
        2 * (10 * (row - 1) + col)
    } else {
        2 * (10 * row + (col - 1)) + 1
    }
}

/// The row of the box whose bottom or right side has identifier `id`.
pub open spec fn line_row(id: int) -> int {
    id / 20
}

/// The column of the box whose bottom or right side has identifier `id`.
pub open spec fn line_col(id: int) -> int {
    (id / 2) % 10
}

/// The side, `BOTTOM` or `RIGHT`, that identifier `id` names.
pub open spec fn line_side(id: int) -> u8 {
    if id % 2 == 0 {
        BOTTOM
    } else {
        RIGHT
    }
}

/// `id` names a line that two boxes share.  The bottom sides of the last row
/// and the right sides of the last column have identifiers too, but lie on
/// the rim.
pub open spec fn is_shared_line(id: int) -> bool {
    0 <= id < 200 && interior(line_row(id), line_col(id), line_side(id))
}

/// The other player.
pub fn opponent(player: u8) -> (r: u8)
    ensures
        r == opponent_of(player),
{
    if player == PLAYER_ONE {
        PLAYER_TWO
    } else {
        PLAYER_ONE
    }
}

/// The side under which the box across `side` knows the line they share.
pub fn mirror(side: u8) -> (r: u8)
    ensures
        r == opposite(side),
        is_side(r),
{
    if side == BOTTOM {
        TOP
    } else if side == RIGHT {
        LEFT
    } else if side == TOP {
        BOTTOM
    } else {
        RIGHT
    }
}

/// The box across `side` of box `(row, col)`, if there is one.
pub fn neighbour(row: usize, col: usize, side: u8) -> (r: Option<(usize, usize)>)
    ensures
        r is Some <==> interior(row as int, col as int, side),
        r matches Some(n) ==> (n.0 as int, n.1 as int) == across(row as int, col as int, side),
{
    if row >= SIZE || col >= SIZE {
        None
    } else if side == BOTTOM {
        if row + 1 < SIZE {
            Some((row + 1, col))
        } else {
            None
        }
    } else if side == RIGHT {
        if col + 1 < SIZE {
            Some((row, col + 1))
        } else {
            None
        }
    } else if side == TOP {
        if row > 0 {
            Some((row - 1, col))
        } else {
            None
        }
    } else if side == LEFT {
        if col > 0 {
            Some((row, col - 1))
        } else {
            None
        }
    } else {
        None
    }
}

/// The two addresses of a shared line have one identifier, and crossing the
/// line twice leads back.
pub proof fn lemma_mirror_address(row: int, col: int, side: u8)
    requires
        interior(row, col, side),
    ensures
        interior(across(row, col, side).0, across(row, col, side).1, opposite(side)),
        across(across(row, col, side).0, across(row, col, side).1, opposite(side)) == (row, col),
        opposite(opposite(side)) == side,
        line_id(across(row, col, side).0, across(row, col, side).1, opposite(side)) == line_id(
            row,
            col,
            side,
        ),
        is_shared_line(line_id(row, col, side)),
{
}

} // verus!
