//! The rules of the game, stated on the mathematical model of a game.
use vstd::prelude::*;
use vstd::set_lib::{lemma_int_range, lemma_len_subset, lemma_map_size, set_int_range};
use crate::board::{weight, BoardView};
use crate::grid::{
    across, in_grid, interior, is_address, is_player, lemma_mirror_address, line_col, line_id,
    line_row, line_side, opponent_of, opposite, BOTTOM, PLAYER_ONE, PLAYER_TWO, TOP,
};

verus! {

/// Why a move was refused.  A refused move changes nothing.
#[derive(Clone, Copy, Debug, PartialEq, Eq)]
pub enum InvalidMove {
    /// The move names no line of the board.
    OutOfRange,
    /// The line is drawn already, by either player.
    AlreadyDrawn,
    /// The game is over.
    GameOver,
}

/// How a finished game ended.
#[derive(Clone, Copy, Debug, PartialEq, Eq)]
pub enum Verdict {
    /// Player one holds more than half of the boxes.
    PlayerOneWon,
    /// Player two holds more than half of the boxes.
    PlayerTwoWon,
    /// Both players hold exactly half of the boxes.
    Draw,
}

/// What an accepted move did.
#[derive(Clone, Copy, Debug, PartialEq, Eq)]
pub struct MoveOutcome {
    /// The box whose side was named, if the move completed it.
    pub first: Option<(usize, usize)>,
    /// The box across the line, if the move completed it.
    pub second: Option<(usize, usize)>,
    /// The player who drew the line.  The completed boxes are theirs.
    pub owner: u8,
    /// The player who moves next.
    pub turn: u8,
    /// Whether the game is over.
    pub finished: bool,
}

impl MoveOutcome {
    /// The number of boxes that the move completed: 0, 1 or 2.
    pub open spec fn gained(self) -> int {
        weight(self.first is Some, 1) + weight(self.second is Some, 1)
    }

    /// The number of boxes that the move completed: 0, 1 or 2.
    pub fn captured(&self) -> (r: u8)
        ensures
            r == self.gained(),
    {
        let a: u8 = if self.first.is_some() { 1 } else { 0 };
        let b: u8 = if self.second.is_some() { 1 } else { 0 };
        a + b
    }
}

/// Half of the boxes of the board.  A player who holds more has won.
pub const HALF: u8 = 50;

/// With these scores the game is over: one player holds more than half of
/// the boxes, or both hold exactly half.
pub open spec fn ended(score_one: int, score_two: int) -> bool {
    score_one > HALF || score_two > HALF || (score_one == HALF && score_two == HALF)
}

/// The scores, the player to move, and whether the game is over.
pub struct InfoView {
    /// Boxes that player one has captured.
    pub score_one: int,
    /// Boxes that player two has captured.
    pub score_two: int,
    /// The player to move.
    pub turn: u8,
    /// Whether the game is over.
    pub finished: bool,
}

impl InfoView {
    /// At the start nobody has a box and player one is to move.
    pub open spec fn initial() -> InfoView {
        InfoView { score_one: 0, score_two: 0, turn: PLAYER_ONE, finished: false }
    }

    /// The score of `player`.
    pub open spec fn score(self, player: u8) -> int {
        if player == PLAYER_ONE {
            self.score_one
        } else {
            self.score_two
        }
    }

    /// The scores lie between 0 and 100, a player is to move, and the game
    /// is marked as over exactly when the scores say so.
    pub open spec fn wf(self) -> bool {
        &&& 0 <= self.score_one <= 100
        &&& 0 <= self.score_two <= 100
        &&& is_player(self.turn)
        &&& self.finished == ended(self.score_one, self.score_two)
    }

    /// How the game ended, if it is over.
    pub open spec fn verdict(self) -> Option<Verdict> {
        if self.score_one > HALF {
            Some(Verdict::PlayerOneWon)
        } else if self.score_two > HALF {
            Some(Verdict::PlayerTwoWon)
        } else if self.score_one == HALF && self.score_two == HALF {
            Some(Verdict::Draw)
        } else {
            None
        }
    }
}

/// A game: the board, the scores and whose turn it is.
pub struct GameView {
    /// The lines drawn and the boxes captured.
    pub board: BoardView,
    /// The scores, the player to move, and whether the game is over.
    pub info: InfoView,
}

/// All boxes of the board.
pub open spec fn all_boxes() -> Set<(int, int)> {
    Set::new(|b: (int, int)| in_grid(b.0, b.1))
}

impl BoardView {
    /// The boxes that `player` owns.
    pub open spec fn owned_by(self, player: u8) -> Set<(int, int)> {
        Set::new(|b: (int, int)| in_grid(b.0, b.1) && self.owner(b.0, b.1) == Some(player))
    }

    /// The boxes with all four sides drawn.
    pub open spec fn completed(self) -> Set<(int, int)> {
        Set::new(|b: (int, int)| in_grid(b.0, b.1) && self.complete(b.0, b.1))
    }
}

impl GameView {
    /// A new game.
    pub open spec fn initial() -> GameView {
        GameView { board: BoardView::initial(), info: InfoView::initial() }
    }

    /// The board is valid, no line was drawn by both players, every complete
    /// box has an owner, and each score is the number of boxes that the
    /// player owns.
    pub open spec fn wf(self) -> bool {
        &&& self.board.wf()
        &&& self.info.wf()
        &&& forall|id: int| #[trigger]
            self.board.lines.contains((id, PLAYER_ONE)) ==> !self.board.lines.contains(
                (id, PLAYER_TWO),
            )
        &&& forall|row: int, col: int|
            in_grid(row, col) && #[trigger] self.board.complete(row, col) ==> self.board.owner(
                row,
                col,
            ) is Some
        &&& self.info.score_one == self.board.owned_by(PLAYER_ONE).len()
        &&& self.info.score_two == self.board.owned_by(PLAYER_TWO).len()
    }

    /// Why `player` may not draw `side` of box `(row, col)`, or `None` if the
    /// move is accepted.  Once the game is over every move is refused for
    /// that reason; otherwise the address has to be on the board, the mover
    /// one of the two players, and the line not yet drawn by either player.
    pub open spec fn refusal(self, row: int, col: int, side: u8, player: u8) -> Option<
        InvalidMove,
    > {
        if self.info.finished {
            Some(InvalidMove::GameOver)
        } else if !is_address(row, col, side) || !is_player(player) {
            Some(InvalidMove::OutOfRange)
        } else if self.board.side_drawn(row, col, side) {
            Some(InvalidMove::AlreadyDrawn)
        } else {
            None
        }
    }

    /// Why `player` may not make the move with identifier `id`, or `None`
    /// if the move is accepted.
    pub open spec fn refusal_of(self, id: int, player: u8) -> Option<InvalidMove> {
        if self.info.finished {
            Some(InvalidMove::GameOver)
        } else if !(0 <= id < 200) {
            Some(InvalidMove::OutOfRange)
        } else {
            self.refusal(line_row(id), line_col(id), line_side(id), player)
        }
    }

    /// The move with identifier `id` is legal: the game is not over and the
    /// line is not yet drawn.
    pub open spec fn legal(self, id: int) -> bool {
        self.refusal_of(id, PLAYER_ONE) is None
    }

    /// The identifiers of all legal moves.
    pub open spec fn legal_moves(self) -> Set<int> {
        Set::new(|id: int| self.legal(id))
    }

    /// Drawing `side` of box `(row, col)` completes box `(r, c)`: it was not
    /// complete before and is complete with the line.
    pub open spec fn completes(
        self,
        row: int,
        col: int,
        side: u8,
        player: u8,
        r: int,
        c: int,
    ) -> bool {
        !self.board.complete(r, c) && self.board.draw(row, col, side, player).complete(r, c)
    }

    /// The number of boxes that drawing `side` of box `(row, col)` completes.
    pub open spec fn gain(self, row: int, col: int, side: u8, player: u8) -> int {
        let n = across(row, col, side);
        weight(self.completes(row, col, side, player, row, col), 1) + weight(
            self.completes(row, col, side, player, n.0, n.1),
            1,
        )
    }

    /// The game after `player` has drawn `side` of box `(row, col)`, for a
    /// move that is not refused.  The line is drawn on both boxes that share
    /// it.  Each of the two that it completes goes to `player` and adds one
    /// to their score.  A player who completed a box moves again, however
    /// many boxes it were; otherwise the other player is to move.  The game
    /// is over when the scores say so.
    pub open spec fn after_move(self, row: int, col: int, side: u8, player: u8) -> GameView {
        let n = across(row, col, side);
        let drawn = self.board.draw(row, col, side, player);
        let first = self.completes(row, col, side, player, row, col);
        let second = self.completes(row, col, side, player, n.0, n.1);
        let with_first = if first {
            drawn.owners.insert((row, col), player)
        } else {
            drawn.owners
        };
        let owners = if second {
            with_first.insert(n, player)
        } else {
            with_first
        };
        let gained = self.gain(row, col, side, player);
        let score_one = self.info.score_one + weight(player == PLAYER_ONE, gained);
        let score_two = self.info.score_two + weight(player != PLAYER_ONE, gained);
        GameView {
            board: BoardView { lines: drawn.lines, owners },
            info: InfoView {
                score_one,
                score_two,
                turn: if gained > 0 { player } else { opponent_of(player) },
                finished: ended(score_one, score_two),
            },
        }
    }

    /// What the accepted move reports.
    pub open spec fn outcome(self, row: int, col: int, side: u8, player: u8) -> MoveOutcome {
        let n = across(row, col, side);
        let next = self.after_move(row, col, side, player);
        MoveOutcome {
            first: if self.completes(row, col, side, player, row, col) {
                Some((row as usize, col as usize))
            } else {
                None
            },
            second: if self.completes(row, col, side, player, n.0, n.1) {
                Some((n.0 as usize, n.1 as usize))
            } else {
                None
            },
            owner: player,
            turn: next.info.turn,
            finished: next.info.finished,
        }
    }

    /// The game after the move `(row, col, side)` by `player` was tried:
    /// changed if the move is accepted, the same if it is refused.
    pub open spec fn step(self, row: int, col: int, side: u8, player: u8) -> GameView {
        if self.refusal(row, col, side, player) is None {
            self.after_move(row, col, side, player)
        } else {
            self
        }
    }

    /// The game after the move with identifier `id` by `player` was tried.
    pub open spec fn step_of(self, id: int, player: u8) -> GameView {
        if self.refusal_of(id, player) is None {
            self.step(line_row(id), line_col(id), line_side(id), player)
        } else {
            self
        }
    }

    /// The game after the moves of `moves` were tried one after the other,
    /// each given as a line identifier and the player who moves.
    pub open spec fn play(self, moves: Seq<(int, u8)>) -> GameView
        decreases moves.len(),
    {
        if moves.len() == 0 {
            self
        } else {
            self.play(moves.drop_last()).step_of(moves.last().0, moves.last().1)
        }
    }
}

/// The board has a hundred boxes.
pub proof fn lemma_all_boxes()
    ensures
        all_boxes().finite(),
        all_boxes().len() == 100,
{
    let f = |i: int| (i / 10, i % 10);
    let numbers = set_int_range(0, 100);
    lemma_int_range(0, 100);
    assert(numbers.map(f) =~= all_boxes()) by {
        assert forall|b: (int, int)| all_boxes().contains(b) implies numbers.map(f).contains(
            b,
        ) by {
            let i = 10 * b.0 + b.1;
            assert(numbers.contains(i) && f(i) == b);
        }
    }
    assert(vstd::relations::injective_on(f, numbers));
    lemma_map_size(numbers, all_boxes(), f);
}

/// Two sides that carry the same shared line are the same side, or the two
/// sides of the line.
pub proof fn lemma_same_line(r: int, c: int, s: u8, row: int, col: int, side: u8)
    requires
        interior(r, c, s),
        interior(row, col, side),
        line_id(r, c, s) == line_id(row, col, side),
    ensures
        (r, c, s) == (row, col, side) || ((r, c) == across(row, col, side) && s == opposite(side)),
{
}

/// A line changes what is drawn on the two boxes that share it, and on no
/// other box; and it takes nothing away.
pub proof fn lemma_draw_touches(
    board: BoardView,
    row: int,
    col: int,
    side: u8,
    player: u8,
    r: int,
    c: int,
)
    requires
        interior(row, col, side),
        is_player(player),
    ensures
        board.complete(r, c) ==> board.draw(row, col, side, player).complete(r, c),
        (r, c) != (row, col) && (r, c) != across(row, col, side) ==> board.draw(
            row,
            col,
            side,
            player,
        ).complete(r, c) == board.complete(r, c),
        board.draw(row, col, side, player).owners == board.owners,
{
    let drawn = board.draw(row, col, side, player);
    if (r, c) != (row, col) && (r, c) != across(row, col, side) {
        assert forall|s: u8, p: u8| drawn.drawn(r, c, s, p) == board.drawn(r, c, s, p) by {
            if interior(r, c, s) && line_id(r, c, s) == line_id(row, col, side) {
                lemma_same_line(r, c, s, row, col, side);
            }
        }
    }
}

/// The boxes that a player owns are boxes of the board, so there are at most
/// a hundred of them.
pub proof fn lemma_owned_by(board: BoardView, player: u8)
    ensures
        board.owned_by(player).finite(),
        board.owned_by(player).len() <= 100,
{
    lemma_all_boxes();
    lemma_len_subset(board.owned_by(player), all_boxes());
}

/// A new game is valid.
pub proof fn lemma_initial_wf()
    ensures
        GameView::initial().wf(),
{
    let g = GameView::initial();
    assert(g.board.owned_by(PLAYER_ONE) =~= Set::empty());
    assert(g.board.owned_by(PLAYER_TWO) =~= Set::empty());
    assert forall|row: int, col: int| in_grid(row, col) implies !#[trigger] g.board.complete(
        row,
        col,
    ) by {
        if row < 9 {
            assert(!g.board.side_drawn(row, col, BOTTOM));
        } else {
            assert(!g.board.side_drawn(row, col, TOP));
        }
    }
}

/// An accepted move leaves a valid game valid.  The line it draws is shared
/// by two boxes, neither of which was complete, and the mover's score grows
/// by the number of boxes completed.
pub proof fn lemma_after_move(g: GameView, row: int, col: int, side: u8, player: u8)
    requires
        g.wf(),
        g.refusal(row, col, side, player) is None,
    ensures
        g.after_move(row, col, side, player).wf(),
        is_player(player),
        interior(row, col, side),
        !g.board.complete(row, col),
        !g.board.complete(across(row, col, side).0, across(row, col, side).1),
        g.board.owner(row, col) is None,
        g.board.owner(across(row, col, side).0, across(row, col, side).1) is None,
        0 <= g.gain(row, col, side, player) <= 2,
        g.info.score(player) + g.gain(row, col, side, player) <= 100,
{
    let n = across(row, col, side);
    let drawn = g.board.draw(row, col, side, player);
    let next = g.after_move(row, col, side, player);
    let first = g.completes(row, col, side, player, row, col);
    let second = g.completes(row, col, side, player, n.0, n.1);
    let other = opponent_of(player);
    assert(interior(row, col, side));
    lemma_mirror_address(row, col, side);
    assert(!g.board.side_drawn(n.0, n.1, opposite(side)));
    assert(!g.board.complete(row, col));
    assert(!g.board.complete(n.0, n.1));
    assert forall|r: int, c: int| #![trigger next.board.complete(r, c)]
        next.board.complete(r, c) == drawn.complete(r, c) by {}
    assert forall|r: int, c: int| #![trigger drawn.complete(r, c)]
        {
            &&& g.board.complete(r, c) ==> drawn.complete(r, c)
            &&& (r, c) != (row, col) && (r, c) != n ==> drawn.complete(r, c) == g.board.complete(
                r,
                c,
            )
        } by {
        lemma_draw_touches(g.board, row, col, side, player, r, c);
    }
    assert(next.board.wf()) by {
        assert forall|r: int, c: int| #[trigger]
            next.board.owners.dom().contains((r, c)) implies {
            &&& in_grid(r, c)
            &&& is_player(next.board.owners[(r, c)])
            &&& next.board.complete(r, c)
        } by {
            if g.board.owners.dom().contains((r, c)) {
                assert(drawn.complete(r, c));
            }
        }
    }
    assert forall|r: int, c: int| in_grid(r, c) && #[trigger] next.board.complete(
        r,
        c,
    ) implies next.board.owner(r, c) is Some by {
        assert(drawn.complete(r, c));
        if g.board.complete(r, c) {
            assert(g.board.owner(r, c) is Some);
        }
    }
    let mine = g.board.owned_by(player);
    lemma_owned_by(g.board, player);
    lemma_owned_by(g.board, other);
    lemma_owned_by(next.board, player);
    let with_first = if first { mine.insert((row, col)) } else { mine };
    let with_both = if second { with_first.insert(n) } else { with_first };
    assert(next.board.owned_by(player) =~= with_both);
    assert(next.board.owned_by(other) =~= g.board.owned_by(other));
    assert(!mine.contains((row, col)));
    assert(!with_first.contains(n));
    assert(with_both.len() == mine.len() + g.gain(row, col, side, player));
}

} // verus!
