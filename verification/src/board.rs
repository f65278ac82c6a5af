//! The board: one bit-packed word per box, and what the words mean.
use vstd::prelude::*;
use crate::grid::{
    across, in_grid, interior, is_address, is_player, is_shared_line, line_col, line_id,
    line_row, line_side, mirror, neighbour, on_rim, opposite, BOTTOM, LEFT, PLAYER_ONE,
    PLAYER_TWO, RIGHT, SIZE, TOP,
};

verus! {

/// What a board holds: the shared lines that were drawn, each with the
/// player who drew it, and the captured boxes with their owners.
///
/// The sides on the rim of the board are no lines of the game.  They count
/// as drawn by both players from the start, so that a box on the rim is
/// complete as soon as its shared sides are drawn.
pub struct BoardView {
    /// `(id, player)` is in the set when `player` has drawn the shared line
    /// with identifier `id`.
    pub lines: Set<(int, u8)>,
    /// The captured boxes, by `(row, col)`, each with the player who owns it.
    pub owners: Map<(int, int), u8>,
}

/// What is known of a line.
#[derive(Clone, Copy, Debug, PartialEq, Eq)]
pub enum EdgeState {
    /// Nobody has drawn the line.
    Undrawn,
    /// The player who has drawn the line.
    DrawnBy(u8),
}

/// `value` if `set`, and 0 otherwise.
pub open spec fn weight(set: bool, value: int) -> int {
    if set {
        value
    } else {
        0
    }
}

impl BoardView {
    /// The board at the start of a game: nothing drawn, nothing captured.
    pub open spec fn initial() -> BoardView {
        BoardView { lines: Set::empty(), owners: Map::empty() }
    }

    /// `side` of box `(row, col)` was drawn by `player`.
    pub open spec fn drawn(self, row: int, col: int, side: u8, player: u8) -> bool {
        &&& is_address(row, col, side)
        &&& is_player(player)
        &&& on_rim(row, col, side) || self.lines.contains((line_id(row, col, side), player))
    }

    /// `side` of box `(row, col)` was drawn, by either player.
    pub open spec fn side_drawn(self, row: int, col: int, side: u8) -> bool {
        self.drawn(row, col, side, PLAYER_ONE) || self.drawn(row, col, side, PLAYER_TWO)
    }

    /// Who has drawn `side` of box `(row, col)`.  A side on the rim counts
    /// for both players and is reported for player one.
    pub open spec fn edge_state(self, row: int, col: int, side: u8) -> EdgeState {
        if self.drawn(row, col, side, PLAYER_ONE) {
            EdgeState::DrawnBy(PLAYER_ONE)
        } else if self.drawn(row, col, side, PLAYER_TWO) {
            EdgeState::DrawnBy(PLAYER_TWO)
        } else {
            EdgeState::Undrawn
        }
    }

    /// All four sides of box `(row, col)` are drawn.
    pub open spec fn complete(self, row: int, col: int) -> bool {
        &&& self.side_drawn(row, col, BOTTOM)
        &&& self.side_drawn(row, col, RIGHT)
        &&& self.side_drawn(row, col, TOP)
        &&& self.side_drawn(row, col, LEFT)
    }

    /// The player who captured box `(row, col)`, if it is captured.
    pub open spec fn owner(self, row: int, col: int) -> Option<u8> {
        if self.owners.dom().contains((row, col)) {
            Some(self.owners[(row, col)])
        } else {
            None
        }
    }

    /// Bit `shift` of the word of box `(row, col)`: bits 0 to 3 are the sides
    /// drawn by player two, bits 4 to 7 the sides drawn by player one, and
    /// bits `PLAYER_TWO` and `PLAYER_ONE` say who owns the box.
    pub open spec fn bit(self, row: int, col: int, shift: u8) -> bool {
        if shift < 4 {
            self.drawn(row, col, shift, PLAYER_TWO)
        } else if shift < 8 {
            self.drawn(row, col, (shift - 4) as u8, PLAYER_ONE)
        } else {
            self.owner(row, col) == Some(shift)
        }
    }

    /// The word of box `(row, col)` as a number: the sum of two to the power
    /// of `shift` over the bits `shift` that are set.
    pub open spec fn word(self, row: int, col: int) -> int {
        weight(self.bit(row, col, 0), 1) + weight(self.bit(row, col, 1), 2) + weight(
            self.bit(row, col, 2),
            4,
        ) + weight(self.bit(row, col, 3), 8) + weight(self.bit(row, col, 4), 16) + weight(
            self.bit(row, col, 5),
            32,
        ) + weight(self.bit(row, col, 6), 64) + weight(self.bit(row, col, 7), 128) + weight(
            self.bit(row, col, 8),
            256,
        ) + weight(self.bit(row, col, 9), 512)
    }

    /// The board after `player` has drawn `side` of box `(row, col)`.  The
    /// line then shows on both boxes that share it.  Nothing changes for a
    /// side on the rim, which is drawn already, for an address off the board
    /// or for a `player` who is none of the two players.
    pub open spec fn draw(self, row: int, col: int, side: u8, player: u8) -> BoardView {
        if interior(row, col, side) && is_player(player) {
            BoardView { lines: self.lines.insert((line_id(row, col, side), player)), ..self }
        } else {
            self
        }
    }

    /// Box `(row, col)` is complete and nobody owns it yet.
    pub open spec fn capturable(self, row: int, col: int) -> bool {
        self.complete(row, col) && self.owner(row, col) is None
    }

    /// The board after `player` has tried to capture box `(row, col)`: the
    /// player owns it now if it was complete and without an owner.
    pub open spec fn capture(self, row: int, col: int, player: u8) -> BoardView {
        if self.capturable(row, col) && is_player(player) {
            BoardView { owners: self.owners.insert((row, col), player), ..self }
        } else {
            self
        }
    }

    /// Only shared lines are recorded as drawn, only by the two players, and
    /// only complete boxes of the board have an owner.
    pub open spec fn wf(self) -> bool {
        &&& forall|id: int, player: u8| #[trigger]
            self.lines.contains((id, player)) ==> is_shared_line(id) && is_player(player)
        &&& forall|row: int, col: int| #[trigger]
            self.owners.dom().contains((row, col)) ==> {
                &&& in_grid(row, col)
                &&& is_player(self.owners[(row, col)])
                &&& self.complete(row, col)
            }
    }
}

/// Mask of the bits that say which sides player one has drawn.
const BOX_MASK: u16 = 0b0000_0000_1111_0000;

/// Both line bits of the top side.
const TOP_RIM: u16 = 0b0100_0100;

/// Both line bits of the bottom side.
const BOTTOM_RIM: u16 = 0b0001_0001;

/// Both line bits of the left side.
const LEFT_RIM: u16 = 0b1000_1000;

/// Both line bits of the right side.
const RIGHT_RIM: u16 = 0b0010_0010;

/// Bit `bit` of `word` is set.
spec fn has_bit(word: u16, bit: u8) -> bool {
    word & (1u16 << bit) != 0
}

/// The bit that records that `player` has drawn `side`.
spec fn line_bit(side: u8, player: u8) -> u8 {
    if player == PLAYER_ONE {
        (side + 4) as u8
    } else {
        side
    }
}

/// Every side has one of its two line bits set.
spec fn full(word: u16) -> bool {
    &&& has_bit(word, 0) || has_bit(word, 4)
    &&& has_bit(word, 1) || has_bit(word, 5)
    &&& has_bit(word, 2) || has_bit(word, 6)
    &&& has_bit(word, 3) || has_bit(word, 7)
}

/// The word that has both line bits of each of the given sides.
spec fn rim_bits(top: bool, bottom: bool, left: bool, right: bool) -> u16 {
    (if top { TOP_RIM } else { 0 }) | (if bottom { BOTTOM_RIM } else { 0 }) | (if left {
        LEFT_RIM
    } else {
        0
    }) | (if right { RIGHT_RIM } else { 0 })
}

/// The word of box `(row, col)` at the start of a game: both line bits of
/// each side on the rim.
spec fn rim_word(row: int, col: int) -> u16 {
    rim_bits(row == 0, row == 9, col == 0, col == 9)
}

/// Setting a bit sets that bit and leaves the others.
proof fn lemma_set_bit(word: u16, k: u8)
    requires
        k < 10,
        word < 1024,
    ensures
        (word | (1u16 << k)) < 1024,
        forall|j: u8|
            j < 16 ==> #[trigger] has_bit(word | (1u16 << k), j) == (has_bit(word, j) || j == k),
{
    assert((word | (1u16 << k)) < 1024) by (bit_vector)
        requires
            k < 10,
            word < 1024,
    ;
    assert(forall|j: u8|
        j < 16 ==> #[trigger] has_bit(word | (1u16 << k), j) == (has_bit(word, j) || j == k))
        by (bit_vector)
        requires
            k < 10,
    ;
}

/// A word of ten bits is the sum of the values of its bits.
proof fn lemma_word_value(word: u16)
    requires
        word < 1024,
    ensures
        word == weight(has_bit(word, 0), 1) + weight(has_bit(word, 1), 2) + weight(
            has_bit(word, 2),
            4,
        ) + weight(has_bit(word, 3), 8) + weight(has_bit(word, 4), 16) + weight(
            has_bit(word, 5),
            32,
        ) + weight(has_bit(word, 6), 64) + weight(has_bit(word, 7), 128) + weight(
            has_bit(word, 8),
            256,
        ) + weight(has_bit(word, 9), 512),
{
    assert(word == (if has_bit(word, 0) { 1u16 } else { 0 }) + (if has_bit(word, 1) {
        2u16
    } else {
        0
    }) + (if has_bit(word, 2) { 4u16 } else { 0 }) + (if has_bit(word, 3) { 8u16 } else { 0 }) + (
    if has_bit(word, 4) {
        16u16
    } else {
        0
    }) + (if has_bit(word, 5) { 32u16 } else { 0 }) + (if has_bit(word, 6) { 64u16 } else { 0 })
        + (if has_bit(word, 7) { 128u16 } else { 0 }) + (if has_bit(word, 8) {
        256u16
    } else {
        0
    }) + (if has_bit(word, 9) { 512u16 } else { 0 })) by (bit_vector)
        requires
            word < 1024,
    ;
}

/// A word is full exactly when the line bits of the two players, folded
/// onto each other, fill the mask.
proof fn lemma_full(word: u16)
    ensures
        full(word) <==> (word & BOX_MASK) | ((word << 4) & BOX_MASK) == BOX_MASK,
{
    assert(full(word) <==> (word & BOX_MASK) | ((word << 4) & BOX_MASK) == BOX_MASK)
        by (bit_vector);
}

/// The bits of a word that has the rim bits of the given sides.
proof fn lemma_rim_bits(top: bool, bottom: bool, left: bool, right: bool)
    ensures
        ({
            let w = rim_bits(top, bottom, left, right);
            &&& w < 1024
            &&& has_bit(w, 0) == bottom
            &&& has_bit(w, 4) == bottom
            &&& has_bit(w, 1) == right
            &&& has_bit(w, 5) == right
            &&& has_bit(w, 2) == top
            &&& has_bit(w, 6) == top
            &&& has_bit(w, 3) == left
            &&& has_bit(w, 7) == left
            &&& !has_bit(w, 8)
            &&& !has_bit(w, 9)
        }),
{
    assert({
        let w = rim_bits(top, bottom, left, right);
        &&& w < 1024
        &&& has_bit(w, 0) == bottom
        &&& has_bit(w, 4) == bottom
        &&& has_bit(w, 1) == right
        &&& has_bit(w, 5) == right
        &&& has_bit(w, 2) == top
        &&& has_bit(w, 6) == top
        &&& has_bit(w, 3) == left
        &&& has_bit(w, 7) == left
        &&& !has_bit(w, 8)
        &&& !has_bit(w, 9)
    }) by (bit_vector);
}

/// The 10x10 grid of boxes.  Each box has one word: a bit for every side and
/// player who may have drawn it, and a bit for each player who may own it.
/// The line between two boxes shows in the words of both.
#[derive(Clone, Copy)]
pub struct Board {
    layout: [u16; 100],
}

impl View for Board {
    type V = BoardView;

    closed spec fn view(&self) -> BoardView {
        BoardView {
            lines: Set::new(
                |l: (int, u8)|
                    {
                        &&& is_shared_line(l.0)
                        &&& is_player(l.1)
                        &&& has_bit(
                            self.word(line_row(l.0), line_col(l.0)),
                            line_bit(line_side(l.0), l.1),
                        )
                    },
            ),
            owners: Map::new(
                |b: (int, int)| in_grid(b.0, b.1) && self.owned(b.0, b.1),
                |b: (int, int)|
                    if has_bit(self.word(b.0, b.1), PLAYER_ONE) {
                        PLAYER_ONE
                    } else {
                        PLAYER_TWO
                    },
            ),
        }
    }
}

impl Board {
    /// The word of box `(row, col)`.
    spec fn word(self, row: int, col: int) -> u16 {
        self.layout[10 * row + col]
    }

    /// One of the two owner bits of box `(row, col)` is set.
    spec fn owned(self, row: int, col: int) -> bool {
        has_bit(self.word(row, col), PLAYER_ONE) || has_bit(self.word(row, col), PLAYER_TWO)
    }

    /// What holds of the word of every box: only the ten known bits are
    /// used, at most one player owns the box and only if it is full, the
    /// sides on the rim are set for both players, and the bottom and right
    /// side agree with the top and left side of the boxes across them.
    spec fn box_ok(self, row: int, col: int) -> bool {
        let w = self.word(row, col);
        let below = self.word(row + 1, col);
        let beside = self.word(row, col + 1);
        &&& w < 1024
        &&& !(has_bit(w, PLAYER_ONE) && has_bit(w, PLAYER_TWO))
        &&& self.owned(row, col) ==> full(w)
        &&& row == 0 ==> has_bit(w, 2) && has_bit(w, 6)
        &&& row == 9 ==> has_bit(w, 0) && has_bit(w, 4)
        &&& col == 0 ==> has_bit(w, 3) && has_bit(w, 7)
        &&& col == 9 ==> has_bit(w, 1) && has_bit(w, 5)
        &&& row < 9 ==> has_bit(w, 0) == has_bit(below, 2) && has_bit(w, 4) == has_bit(below, 6)
        &&& col < 9 ==> has_bit(w, 1) == has_bit(beside, 3) && has_bit(w, 5) == has_bit(beside, 7)
    }

    #[verifier::type_invariant]
    spec fn inv(self) -> bool {
        forall|row: int, col: int| in_grid(row, col) ==> #[trigger] self.box_ok(row, col)
    }

    /// `after` has the bits of `before` and, in the word of box `(row, col)`,
    /// bit `bit`.
    spec fn adds_bit(before: Board, after: Board, row: int, col: int, bit: u8) -> bool {
        forall|r: int, c: int, j: u8|
            in_grid(r, c) && j < 16 ==> #[trigger] has_bit(after.word(r, c), j) == (has_bit(
                before.word(r, c),
                j,
            ) || ((r, c) == (row, col) && j == bit))
    }

    /// A side counts as drawn by a player exactly when the line bit is set
    /// in the word of the box that was asked.
    proof fn lemma_drawn(self, row: int, col: int, side: u8, player: u8)
        requires
            self.inv(),
            is_address(row, col, side),
            is_player(player),
        ensures
            self@.drawn(row, col, side, player) == has_bit(
                self.word(row, col),
                line_bit(side, player),
            ),
    {
        assert(self.box_ok(row, col));
        if interior(row, col, side) {
            let n = across(row, col, side);
            assert(self.box_ok(n.0, n.1));
            let id = line_id(row, col, side);
            assert(is_shared_line(id));
            assert(line_row(id) == if side == BOTTOM || side == RIGHT { row } else { n.0 });
            assert(line_col(id) == if side == BOTTOM || side == RIGHT { col } else { n.1 });
        }
    }

    /// A bit of the model is the bit of the word.
    proof fn lemma_bit(self, row: int, col: int, shift: u8)
        requires
            self.inv(),
            in_grid(row, col),
            shift < 10,
        ensures
            self@.bit(row, col, shift) == has_bit(self.word(row, col), shift),
    {
        assert(self.box_ok(row, col));
        if shift < 4 {
            self.lemma_drawn(row, col, shift, PLAYER_TWO);
        } else if shift < 8 {
            self.lemma_drawn(row, col, (shift - 4) as u8, PLAYER_ONE);
        }
    }

    /// A box is complete exactly when its word is full.
    proof fn lemma_complete(self, row: int, col: int)
        requires
            self.inv(),
            in_grid(row, col),
        ensures
            self@.complete(row, col) == full(self.word(row, col)),
    {
        self.lemma_drawn(row, col, BOTTOM, PLAYER_ONE);
        self.lemma_drawn(row, col, BOTTOM, PLAYER_TWO);
        self.lemma_drawn(row, col, RIGHT, PLAYER_ONE);
        self.lemma_drawn(row, col, RIGHT, PLAYER_TWO);
        self.lemma_drawn(row, col, TOP, PLAYER_ONE);
        self.lemma_drawn(row, col, TOP, PLAYER_TWO);
        self.lemma_drawn(row, col, LEFT, PLAYER_ONE);
        self.lemma_drawn(row, col, LEFT, PLAYER_TWO);
    }

    /// What holds of the words gives what holds of the model.
    proof fn lemma_wf(self)
        requires
            self.inv(),
        ensures
            self@.wf(),
    {
        assert forall|row: int, col: int| #[trigger]
            self@.owners.dom().contains((row, col)) implies {
            &&& in_grid(row, col)
            &&& is_player(self@.owners[(row, col)])
            &&& self@.complete(row, col)
        } by {
            assert(self.box_ok(row, col));
            self.lemma_complete(row, col);
        }
    }

    /// A new board: nothing drawn and nothing captured.  Only the sides on
    /// the rim are set, for both players.
    pub fn new() -> (b: Board)
        ensures
            b@ == BoardView::initial(),
            b@.wf(),
    {
        let mut layout: [u16; 100] = [0u16;100];
        let mut i: usize = 0;
        while i < 100
            invariant
                i <= 100,
                forall|j: int| 0 <= j < i ==> #[trigger] layout[j] == rim_word(j / 10, j % 10),
            decreases 100 - i,
        {
            let row: usize = i / SIZE;
            let col: usize = i % SIZE;
            let top: u16 = if row == 0 { TOP_RIM } else { 0 };
            let bottom: u16 = if row == 9 { BOTTOM_RIM } else { 0 };
            let left: u16 = if col == 0 { LEFT_RIM } else { 0 };
            let right: u16 = if col == 9 { RIGHT_RIM } else { 0 };
            layout[i] = top | bottom | left | right;
            i = i + 1;
        }
        proof {
            let b = Board { layout };
            assert forall|row: int, col: int| in_grid(row, col) implies #[trigger] b.box_ok(
                row,
                col,
            ) && !b.owned(row, col) && (row < 9 ==> !has_bit(b.word(row, col), 0) && !has_bit(
                b.word(row, col),
                4,
            )) && (col < 9 ==> !has_bit(b.word(row, col), 1) && !has_bit(b.word(row, col), 5)) by {
                assert(layout[10 * row + col] == rim_word(row, col));
                lemma_rim_bits(row == 0, row == 9, col == 0, col == 9);
                if row < 9 {
                    assert(layout[10 * (row + 1) + col] == rim_word(row + 1, col));
                    lemma_rim_bits(false, row + 1 == 9, col == 0, col == 9);
                }
                if col < 9 {
                    assert(layout[10 * row + (col + 1)] == rim_word(row, col + 1));
                    lemma_rim_bits(row == 0, row == 9, false, col + 1 == 9);
                }
            }
            assert(b@.lines =~= BoardView::initial().lines) by {
                assert forall|l: (int, u8)| !b@.lines.contains(l) by {
                    if is_shared_line(l.0) && is_player(l.1) {
                        assert(b.box_ok(line_row(l.0), line_col(l.0)));
                    }
                }
            }
            assert(b@.owners =~= BoardView::initial().owners) by {
                assert forall|k: (int, int)| !b@.owners.dom().contains(k) by {
                    if in_grid(k.0, k.1) {
                        assert(b.box_ok(k.0, k.1));
                    }
                }
            }
            b.lemma_wf();
        }
        Board { layout }
    }

    /// Sets bit `shift` in the word of box `(row, column)`.
    fn set_bit(layout: &mut [u16; 100], row: usize, column: usize, shift: u8)
        requires
            in_grid(row as int, column as int),
            shift < 10,
            old(layout)[10 * row + column] < 1024,
        ensures
            final(layout)@ == old(layout)@.update(
                10 * row + column,
                old(layout)[10 * row + column] | (1u16 << shift),
            ),
            final(layout)[10 * row + column] < 1024,
            Self::adds_bit(
                Board { layout: *old(layout) },
                Board { layout: *final(layout) },
                row as int,
                column as int,
                shift,
            ),
    {
        proof {
            lemma_set_bit(layout[10 * row + column], shift);
        }
        layout[row * 10 + column] = layout[row * 10 + column] | (1u16 << shift);
    }

    /// The words of all boxes, row by row.
    pub fn layout(&self) -> (r: [u16; 100])
        ensures
            forall|row: int, col: int|
                in_grid(row, col) ==> #[trigger] r[10 * row + col] == self@.word(row, col),
            self@.wf(),
    {
        proof {
            use_type_invariant(self);
            self.lemma_wf();
            assert forall|row: int, col: int| in_grid(row, col) implies #[trigger] self.layout[10
                * row + col] == self@.word(row, col) by {
                assert(self.box_ok(row, col));
                lemma_word_value(self.word(row, col));
                self.lemma_bit(row, col, 0);
                self.lemma_bit(row, col, 1);
                self.lemma_bit(row, col, 2);
                self.lemma_bit(row, col, 3);
                self.lemma_bit(row, col, 4);
                self.lemma_bit(row, col, 5);
                self.lemma_bit(row, col, 6);
                self.lemma_bit(row, col, 7);
                self.lemma_bit(row, col, 8);
                self.lemma_bit(row, col, 9);
            }
        }
        self.layout
    }

    /// Whether bit `shift` is set in the word of box `(row, column)`: bits 0
    /// to 3 are the sides drawn by player two, bits 4 to 7 the sides drawn by
    /// player one, bits `PLAYER_TWO` and `PLAYER_ONE` name the owner.  Outside
    /// the board no bit is set.
    pub fn get_bit(&self, row: usize, column: usize, shift: u8) -> (r: bool)
        ensures
            r == self@.bit(row as int, column as int, shift),
            self@.wf(),
    {
        proof {
            use_type_invariant(self);
            self.lemma_wf();
        }
        if row < SIZE && column < SIZE && shift < 16 {
            proof {
                assert(self.box_ok(row as int, column as int));
                if shift < 10 {
                    self.lemma_bit(row as int, column as int, shift);
                } else {
                    let w = self.word(row as int, column as int);
                    assert(!has_bit(w, shift)) by (bit_vector)
                        requires
                            w < 1024,
                            10 <= shift < 16,
                    ;
                }
            }
            self.layout[row * 10 + column] & (1u16 << shift) > 0
        } else {
            false
        }
    }

    /// True if `side` of box `(row, col)` was drawn by `player`.
    pub fn edge_drawn(&self, row: usize, col: usize, side: u8, player: u8) -> (r: bool)
        ensures
            r == self@.drawn(row as int, col as int, side, player),
            self@.wf(),
    {
        proof {
            use_type_invariant(self);
            self.lemma_wf();
        }
        let known: bool = player == PLAYER_ONE || player == PLAYER_TWO;
        if row < SIZE && col < SIZE && side <= LEFT && known {
            proof {
                self.lemma_drawn(row as int, col as int, side, player);
            }
            self.layout[row * 10 + col] & (1u16 << (side + 4 * (player % 2))) > 0
        } else {
            false
        }
    }

    /// Who has drawn `side` of box `(row, col)`, if anybody.
    pub fn edge_state(&self, row: usize, col: usize, side: u8) -> (r: EdgeState)
        ensures
            r == self@.edge_state(row as int, col as int, side),
            self@.wf(),
    {
        if self.edge_drawn(row, col, side, PLAYER_ONE) {
            EdgeState::DrawnBy(PLAYER_ONE)
        } else if self.edge_drawn(row, col, side, PLAYER_TWO) {
            EdgeState::DrawnBy(PLAYER_TWO)
        } else {
            EdgeState::Undrawn
        }
    }

    /// The player who captured box `(row, col)`, if it is captured.
    pub fn box_owner(&self, row: usize, col: usize) -> (r: Option<u8>)
        ensures
            r == self@.owner(row as int, col as int),
            self@.wf(),
    {
        proof {
            use_type_invariant(self);
            self.lemma_wf();
        }
        if row < SIZE && col < SIZE {
            let w: u16 = self.layout[row * 10 + col];
            if w & (1u16 << PLAYER_ONE) > 0 {
                Some(PLAYER_ONE)
            } else if w & (1u16 << PLAYER_TWO) > 0 {
                Some(PLAYER_TWO)
            } else {
                None
            }
        } else {
            None
        }
    }

    /// True if all four sides of box `(row, col)` are drawn.  The line bits
    /// of the two players are folded onto each other and compared with the
    /// mask of the four sides.
    pub fn is_box_complete(&self, row: usize, col: usize) -> (r: bool)
        ensures
            r == self@.complete(row as int, col as int),
            self@.wf(),
    {
        proof {
            use_type_invariant(self);
            self.lemma_wf();
        }
        if row < SIZE && col < SIZE {
            let w: u16 = self.layout[row * 10 + col];
            proof {
                self.lemma_complete(row as int, col as int);
                lemma_full(w);
            }
            (w & BOX_MASK) | ((w << 4) & BOX_MASK) == BOX_MASK
        } else {
            false
        }
    }

    /// What drawing a line does to valid words: they stay valid, and the
    /// model has the line, seen from both boxes.
    proof fn lemma_draw(before: Board, after: Board, row: int, col: int, side: u8, player: u8)
        requires
            before.inv(),
            is_address(row, col, side),
            is_player(player),
            forall|r: int, c: int| in_grid(r, c) ==> #[trigger] after.word(r, c) < 1024,
            forall|r: int, c: int, j: u8|
                in_grid(r, c) && j < 16 ==> #[trigger] has_bit(after.word(r, c), j) == {
                    ||| has_bit(before.word(r, c), j)
                    ||| (r, c) == (row, col) && j == line_bit(side, player)
                    ||| interior(row, col, side) && (r, c) == across(row, col, side) && j
                        == line_bit(opposite(side), player)
                },
        ensures
            after.inv(),
            after@ == before@.draw(row, col, side, player),
    {
        assert forall|r: int, c: int| in_grid(r, c) implies #[trigger] after.box_ok(r, c) by {
            assert(before.box_ok(r, c));
            assert(before.box_ok(row, col));
            assert(after.word(r, c) < 1024);
            if r < 9 {
                assert(in_grid(r + 1, c));
            }
            if c < 9 {
                assert(in_grid(r, c + 1));
            }
        }
        assert(after@.owners =~= before@.owners);
        let drawn = before@.draw(row, col, side, player);
        assert(after@.lines =~= drawn.lines) by {
            assert forall|l: (int, u8)| after@.lines.contains(l) == drawn.lines.contains(l) by {
                if is_shared_line(l.0) && is_player(l.1) {
                    assert(before.box_ok(row, col));
                    let r = line_row(l.0);
                    let c = line_col(l.0);
                    let j = line_bit(line_side(l.0), l.1);
                    assert(in_grid(r, c));
                    assert(has_bit(after.word(r, c), j) == {
                        ||| has_bit(before.word(r, c), j)
                        ||| (r, c) == (row, col) && j == line_bit(side, player)
                        ||| interior(row, col, side) && (r, c) == across(row, col, side) && j
                            == line_bit(opposite(side), player)
                    });
                    assert(l.0 == 2 * (10 * r + c) + weight(line_side(l.0) == RIGHT, 1));
                }
            }
        }
    }

    /// Draws `side` of box `(row, col)` for `player`.  Where a box lies
    /// across that side, the same line is set on its opposite side too, so
    /// that both boxes always agree on the line they share.  This is the only
    /// way lines get onto a board.  Nothing happens if the address is not on
    /// the board or `player` is none of the two players.
    pub fn draw_edge(&mut self, row: usize, col: usize, side: u8, player: u8)
        ensures
            final(self)@ == old(self)@.draw(row as int, col as int, side, player),
            final(self)@.wf(),
    {
        proof {
            use_type_invariant(&*self);
            self.lemma_wf();
        }
        let known: bool = player == PLAYER_ONE || player == PLAYER_TWO;
        if row >= SIZE || col >= SIZE || side > LEFT || !known {
            return;
        }
        let ghost before = *self;
        let mut layout: [u16; 100] = self.layout;
        proof {
            assert(before.box_ok(row as int, col as int));
        }
        Self::set_bit(&mut layout, row, col, side + 4 * (player % 2));
        let ghost middle = Board { layout };
        match neighbour(row, col, side) {
            Some((r2, c2)) => {
                proof {
                    assert(before.box_ok(r2 as int, c2 as int));
                }
                Self::set_bit(&mut layout, r2, c2, mirror(side) + 4 * (player % 2));
            },
            None => {},
        }
        proof {
            let after = Board { layout };
            assert forall|r: int, c: int| in_grid(r, c) implies #[trigger] after.word(r, c)
                < 1024 by {
                assert(before.box_ok(r, c));
            }
            assert forall|r: int, c: int, j: u8| in_grid(r, c) && j < 16 implies #[trigger] has_bit(
                after.word(r, c),
                j,
            ) == {
                ||| has_bit(before.word(r, c), j)
                ||| (r, c) == (row as int, col as int) && j == line_bit(side, player)
                ||| interior(row as int, col as int, side) && (r, c) == across(
                    row as int,
                    col as int,
                    side,
                ) && j == line_bit(opposite(side), player)
            } by {
                assert(has_bit(middle.word(r, c), j) == (has_bit(before.word(r, c), j) || ((r, c)
                    == (row as int, col as int) && j == line_bit(side, player))));
            }
            Self::lemma_draw(before, after, row as int, col as int, side, player);
            after.lemma_wf();
        }
        self.layout = layout;
    }

    /// Lets `player` capture box `(row, col)` if all its sides are drawn and
    /// nobody owns it yet.  Returns whether the box was captured.  Nothing
    /// is captured outside the board or by anyone but the two players.
    pub fn capture(&mut self, row: usize, col: usize, player: u8) -> (r: bool)
        ensures
            r == (old(self)@.capturable(row as int, col as int) && is_player(player)),
            final(self)@ == old(self)@.capture(row as int, col as int, player),
            final(self)@.wf(),
    {
        proof {
            use_type_invariant(&*self);
            self.lemma_wf();
        }
        let known: bool = player == PLAYER_ONE || player == PLAYER_TWO;
        if row >= SIZE || col >= SIZE || !known {
            return false;
        }
        proof {
            self.lemma_complete(row as int, col as int);
            assert(self.box_ok(row as int, col as int));
        }
        let ghost before = *self;
        let w: u16 = self.layout[row * 10 + col];
        proof {
            lemma_full(w);
        }
        let owned: bool = w & (1u16 << PLAYER_ONE) > 0 || w & (1u16 << PLAYER_TWO) > 0;
        if (w & BOX_MASK) | ((w << 4) & BOX_MASK) == BOX_MASK && !owned {
            let mut layout: [u16; 100] = self.layout;
            Self::set_bit(&mut layout, row, col, player);
            proof {
                let after = Board { layout };
                assert forall|r: int, c: int| in_grid(r, c) implies #[trigger] after.box_ok(
                    r,
                    c,
                ) by {
                    assert(before.box_ok(r, c));
                    if r < 9 {
                        assert(in_grid(r + 1, c));
                    }
                    if c < 9 {
                        assert(in_grid(r, c + 1));
                    }
                }
                assert(after@.lines =~= before@.lines) by {
                    assert forall|l: (int, u8)|
                        after@.lines.contains(l) == before@.lines.contains(l) by {
                        if is_shared_line(l.0) && is_player(l.1) {
                            assert(in_grid(line_row(l.0), line_col(l.0)));
                        }
                    }
                }
                assert(after@.owners =~= before@.owners.insert((row as int, col as int), player));
                after.lemma_wf();
            }
            self.layout = layout;
            true
        } else {
            false
        }
    }
}

} // verus!
