//! The board as a program may want to see it: every box with its four
//! lines, and every line once, whichever box it is reached from.
use vstd::prelude::*;
use crate::board::weight;
use crate::grid::{
    across, in_grid, interior, is_address, line_col, line_id, line_row, opposite, BOTTOM, LEFT,
    RIGHT, SIZE, TOP,
};
use crate::moves::{encode, has_line_id};

verus! {

/// Number of lines of the board, those on the rim included.
pub const ALL_LINES: usize = 220;

/// A line of the board.
#[derive(Clone, Copy, Debug, PartialEq, Eq)]
pub struct Line {
    /// The value of the box that the line is numbered after.
    pub value: usize,
}

/// A box of the board.
#[derive(Clone, Copy, Debug, PartialEq, Eq)]
pub struct Square {
    /// The number of sides that the box shares with another box: 2 in a
    /// corner, 3 along the rim, 4 elsewhere.
    pub value: usize,
    /// The numbers of the four lines of the box, by side.
    pub lines: [Option<usize>; 4],
}

/// The boxes and the lines of the board.  Two boxes that share a line hold
/// the same line number, so what is noted of a line is seen from both.
pub struct AdvancedPlayer {
    /// The boxes, row by row.
    pub all_squares: Vec<Square>,
    /// The lines, by number.
    pub all_lines: Vec<Line>,
}

/// The number of sides that box `(row, col)` shares with another box.
pub open spec fn square_value(row: int, col: int) -> int {
    4 - weight(row == 0 || row == 9, 1) - weight(col == 0 || col == 9, 1)
}

/// The number of the line on `side` of box `(row, col)`.  A line that has an
/// identifier in the game has that number.  The top sides of the first row
/// follow from 200 on, and the left sides of the first column from 210 on.
pub open spec fn line_number(row: int, col: int, side: u8) -> int {
    if has_line_id(row, col, side) {
        line_id(row, col, side)
    } else if side == TOP {
        200 + col
    } else {
        210 + row
    }
}

/// The value of line `number`: the value of the box that it is numbered
/// after, which is the upper or the left one of two boxes that share it.
pub open spec fn line_value(number: int) -> int {
    if number < 200 {
        square_value(line_row(number), line_col(number))
    } else if number < 210 {
        square_value(0, number - 200)
    } else {
        square_value(number - 210, 0)
    }
}

/// `square` is box `(row, col)`: it has the value of that box and the
/// numbers of its four lines.
pub open spec fn is_square(square: Square, row: int, col: int) -> bool {
    &&& square.value == square_value(row, col)
    &&& square.lines[BOTTOM as int] == Some(line_number(row, col, BOTTOM) as usize)
    &&& square.lines[RIGHT as int] == Some(line_number(row, col, RIGHT) as usize)
    &&& square.lines[TOP as int] == Some(line_number(row, col, TOP) as usize)
    &&& square.lines[LEFT as int] == Some(line_number(row, col, LEFT) as usize)
}

/// Lines are numbered from 0 to 219.  Two sides have the same number exactly
/// when they are the same side or the two sides of one line.
pub proof fn lemma_line_number(row: int, col: int, side: u8, r: int, c: int, s: u8)
    requires
        is_address(row, col, side),
        is_address(r, c, s),
    ensures
        0 <= line_number(row, col, side) < 220,
        line_number(row, col, side) == line_number(r, c, s) <==> {
            ||| (row, col, side) == (r, c, s)
            ||| interior(row, col, side) && (r, c) == across(row, col, side) && s == opposite(side)
        },
{
}

impl AdvancedPlayer {
    /// All hundred boxes and all 220 lines are there, each box with its
    /// value and the numbers of its four lines, each line with its value.
    pub open spec fn wf(&self) -> bool {
        &&& self.all_squares.len() == 100
        &&& self.all_lines.len() == 220
        &&& forall|i: int|
            0 <= i < 100 ==> is_square(#[trigger] self.all_squares[i], i / 10, i % 10)
        &&& forall|number: int|
            0 <= number < 220 ==> (#[trigger] self.all_lines[number]).value == line_value(number)
    }

    /// The number of sides that box `(row, col)` shares with another box.
    fn value_of(row: usize, col: usize) -> (r: usize)
        requires
            in_grid(row as int, col as int),
        ensures
            r == square_value(row as int, col as int),
    {
        let mut value: usize = 4;
        if row == 0 || row == 9 {
            value -= 1;
        }
        if col == 0 || col == 9 {
            value -= 1;
        }
        value
    }

    /// The number of the line on `side` of box `(row, col)`.
    fn number_of(row: usize, col: usize, side: u8) -> (r: usize)
        requires
            is_address(row as int, col as int, side),
        ensures
            r == line_number(row as int, col as int, side),
    {
        match encode(row, col, side) {
            Some(id) => id,
            None => if side == TOP {
                200 + col
            } else {
                210 + row
            },
        }
    }

    /// Adds the two lines that are numbered after box `square_id`: its
    /// bottom and its right side.
    fn insert_lines(&mut self, square_id: usize)
        requires
            square_id < 100,
            old(self).all_lines.len() == 2 * square_id,
            forall|number: int|
                0 <= number < 2 * square_id ==> (#[trigger] old(self).all_lines[number]).value
                    == line_value(number),
        ensures
            final(self).all_squares == old(self).all_squares,
            final(self).all_lines.len() == 2 * square_id + 2,
            forall|number: int|
                0 <= number < 2 * square_id + 2 ==> (#[trigger] final(self).all_lines[number]).value
                    == line_value(number),
    {
        let value: usize = Self::value_of(square_id / SIZE, square_id % SIZE);
        self.all_lines.push(Line { value });
        self.all_lines.push(Line { value });
    }

    /// The board with all its boxes and lines.
    pub fn new() -> (r: Self)
        ensures
            r.wf(),
    {
        let mut instance = AdvancedPlayer {
            all_squares: Vec::with_capacity(100),
            all_lines: Vec::with_capacity(220),
        };
        let mut i: usize = 0;
        while i < 100
            invariant
                i <= 100,
                instance.all_squares.len() == i,
                instance.all_lines.len() == 2 * i,
                forall|j: int|
                    0 <= j < i ==> is_square(#[trigger] instance.all_squares[j], j / 10, j % 10),
                forall|number: int|
                    0 <= number < 2 * i ==> (#[trigger] instance.all_lines[number]).value
                        == line_value(number),
            decreases 100 - i,
        {
            let row: usize = i / SIZE;
            let col: usize = i % SIZE;
            let square = Square {
                value: Self::value_of(row, col),
                lines: [
                    Some(Self::number_of(row, col, BOTTOM)),
                    Some(Self::number_of(row, col, RIGHT)),
                    Some(Self::number_of(row, col, TOP)),
                    Some(Self::number_of(row, col, LEFT)),
                ],
            };
            instance.all_squares.push(square);
            instance.insert_lines(i);
            i = i + 1;
        }
        let mut col: usize = 0;
        while col < 10
            invariant
                col <= 10,
                instance.all_squares.len() == 100,
                instance.all_lines.len() == 200 + col,
                forall|j: int|
                    0 <= j < 100 ==> is_square(#[trigger] instance.all_squares[j], j / 10, j % 10),
                forall|number: int|
                    0 <= number < 200 + col ==> (#[trigger] instance.all_lines[number]).value
                        == line_value(number),
            decreases 10 - col,
        {
            instance.all_lines.push(Line { value: Self::value_of(0, col) });
            col = col + 1;
        }
        let mut row: usize = 0;
        while row < 10
            invariant
                row <= 10,
                instance.all_squares.len() == 100,
                instance.all_lines.len() == 210 + row,
                forall|j: int|
                    0 <= j < 100 ==> is_square(#[trigger] instance.all_squares[j], j / 10, j % 10),
                forall|number: int|
                    0 <= number < 210 + row ==> (#[trigger] instance.all_lines[number]).value
                        == line_value(number),
            decreases 10 - row,
        {
            instance.all_lines.push(Line { value: Self::value_of(row, 0) });
            row = row + 1;
        }
        instance
    }
}

} // verus!
