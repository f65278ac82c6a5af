//! The game: a board, the scores and the turn, and the moves that change
//! them.
use vstd::prelude::*;
use crate::board::{Board, EdgeState};
use crate::grid::{
    in_grid, is_player, line_col, line_row, line_side, neighbour, opponent_of, LEFT, LINE_COUNT,
    PLAYER_ONE, PLAYER_TWO, SIZE,
};
use crate::laws::lemma_scores_count_complete;
use crate::moves::decode;
use crate::rules::{
    lemma_after_move, lemma_initial_wf, GameView, InfoView, InvalidMove, MoveOutcome, Verdict,
    HALF,
};

verus! {

/// The scores, the player to move, and whether the game is over.
#[derive(Clone, Copy)]
pub struct GameInfo {
    score: [u8; 2],
    turn: u8,
    finished: bool,
}

impl View for GameInfo {
    type V = InfoView;

    closed spec fn view(&self) -> InfoView {
        InfoView {
            score_one: self.score[0] as int,
            score_two: self.score[1] as int,
            turn: self.turn,
            finished: self.finished,
        }
    }
}

impl GameInfo {
    #[verifier::type_invariant]
    spec fn inv(self) -> bool {
        self@.wf()
    }

    /// The start of a game: no points, player one to move.
    pub fn new() -> (r: GameInfo)
        ensures
            r@ == InfoView::initial(),
    {
        GameInfo { score: [0, 0], turn: PLAYER_ONE, finished: false }
    }

    /// The points of the player to move.
    pub fn get_points(&self) -> (r: u8)
        ensures
            r == self@.score(self@.turn),
            self@.wf(),
    {
        proof {
            use_type_invariant(self);
        }
        self.score[(PLAYER_ONE - self.turn) as usize]
    }

    /// The points of player one.
    pub fn get_player_one_points(&self) -> (r: u8)
        ensures
            r == self@.score_one,
            self@.wf(),
    {
        proof {
            use_type_invariant(self);
        }
        self.score[0]
    }

    /// The points of player two.
    pub fn get_player_two_points(&self) -> (r: u8)
        ensures
            r == self@.score_two,
            self@.wf(),
    {
        proof {
            use_type_invariant(self);
        }
        self.score[1]
    }

    /// The player to move.
    pub fn turn(&self) -> (r: u8)
        ensures
            r == self@.turn,
            self@.wf(),
    {
        proof {
            use_type_invariant(self);
        }
        self.turn
    }

    /// Whether the game is over.
    pub fn finished(&self) -> (r: bool)
        ensures
            r == self@.finished,
            self@.wf(),
    {
        proof {
            use_type_invariant(self);
        }
        self.finished
    }

    /// How the game ended, or `None` while it is not over.
    pub fn verdict(&self) -> (r: Option<Verdict>)
        ensures
            r == self@.verdict(),
            r is Some <==> self@.finished,
            self@.wf(),
    {
        proof {
            use_type_invariant(self);
        }
        if self.score[0] > HALF {
            Some(Verdict::PlayerOneWon)
        } else if self.score[1] > HALF {
            Some(Verdict::PlayerTwoWon)
        } else if self.score[0] == HALF && self.score[1] == HALF {
            Some(Verdict::Draw)
        } else {
            None
        }
    }
}

/// A game of Border Patrol.
#[derive(Clone, Copy)]
pub struct BorderPatrol {
    board: Board,
    game_info: GameInfo,
}

impl View for BorderPatrol {
    type V = GameView;

    closed spec fn view(&self) -> GameView {
        GameView { board: self.board@, info: self.game_info@ }
    }
}

impl BorderPatrol {
    #[verifier::type_invariant]
    spec fn inv(self) -> bool {
        self@.wf()
    }

    /// A new game: an empty board, no points, player one to move.
    pub fn new() -> (r: BorderPatrol)
        ensures
            r@ == GameView::initial(),
            r@.wf(),
    {
        proof {
            lemma_initial_wf();
        }
        BorderPatrol { board: Board::new(), game_info: GameInfo::new() }
    }

    /// The board of the game.
    pub fn board(&self) -> (r: &Board)
        ensures
            r@ == self@.board,
            self@.wf(),
    {
        proof {
            use_type_invariant(self);
        }
        &self.board
    }

    /// The scores and the turn of the game.
    pub fn game_info(&self) -> (r: &GameInfo)
        ensures
            r@ == self@.info,
            self@.wf(),
    {
        proof {
            use_type_invariant(self);
        }
        &self.game_info
    }

    /// Lets `player` capture box `(row, column)` if it is complete and free.
    /// A capture adds a point and hands the turn to the other player; the
    /// move hands it on once more when it ends, so that it comes back to
    /// `player`.
    fn check_box(
        board: &mut Board,
        score: &mut [u8; 2],
        turn: &mut u8,
        row: usize,
        column: usize,
        player: u8,
    ) -> (r: bool)
        requires
            in_grid(row as int, column as int),
            is_player(player),
            old(score)[PLAYER_ONE - player] < 255,
        ensures
            r == old(board)@.capturable(row as int, column as int),
            final(board)@ == old(board)@.capture(row as int, column as int, player),
            r ==> final(score)@ == old(score)@.update(
                PLAYER_ONE - player,
                (old(score)[PLAYER_ONE - player] + 1) as u8,
            ),
            r ==> *final(turn) == opponent_of(player),
            !r ==> final(score)@ == old(score)@ && *final(turn) == *old(turn),
    {
        if board.capture(row, column, player) {
            let i: usize = (PLAYER_ONE - player) as usize;
            score[i] = score[i] + 1;
            *turn = PLAYER_ONE - (player % PLAYER_TWO);
            true
        } else {
            false
        }
    }

    /// Applies the move that draws `side` of box `(row, column)` for
    /// `player`.  A line between two boxes can be named from either box.
    ///
    /// The move is refused with `GameOver` once the game is over, with
    /// `OutOfRange` if the address is not on the board or `player` is none
    /// of the two players, and with `AlreadyDrawn` if either player has
    /// drawn the line, which is so for every side on the rim.  A refused
    /// move changes nothing.
    ///
    /// Otherwise the line is drawn on both boxes that share it, each box
    /// that it completes goes to `player` with one point, `player` moves
    /// again if there was such a box and the other player if not, and the
    /// game is over when the scores say so.
    pub fn set_line_by(&mut self, row: usize, column: usize, side: u8, player: u8) -> (r: Result<
        MoveOutcome,
        InvalidMove,
    >)
        ensures
            match r {
                Ok(outcome) => {
                    &&& old(self)@.refusal(row as int, column as int, side, player) is None
                    &&& outcome == old(self)@.outcome(row as int, column as int, side, player)
                    &&& final(self)@ == old(self)@.after_move(
                        row as int,
                        column as int,
                        side,
                        player,
                    )
                },
                Err(refused) => {
                    &&& old(self)@.refusal(row as int, column as int, side, player) == Some(
                        refused,
                    )
                    &&& final(self)@ == old(self)@
                },
            },
            final(self)@ == old(self)@.step(row as int, column as int, side, player),
            old(self)@.wf(),
            final(self)@.wf(),
    {
        proof {
            use_type_invariant(&*self);
        }
        if self.game_info.finished() {
            return Err(InvalidMove::GameOver);
        }
        let known: bool = player == PLAYER_ONE || player == PLAYER_TWO;
        if row >= SIZE || column >= SIZE || side > LEFT || !known {
            return Err(InvalidMove::OutOfRange);
        }
        let drawn: bool = self.board.edge_drawn(row, column, side, PLAYER_ONE)
            || self.board.edge_drawn(row, column, side, PLAYER_TWO);
        if drawn {
            return Err(InvalidMove::AlreadyDrawn);
        }
        let ghost g = self@;
        proof {
            lemma_after_move(g, row as int, column as int, side, player);
        }
        let mut board: Board = self.board;
        let mut score: [u8; 2] = [
            self.game_info.get_player_one_points(),
            self.game_info.get_player_two_points(),
        ];
        let mut turn: u8 = player;
        board.draw_edge(row, column, side, player);
        let first: bool = Self::check_box(&mut board, &mut score, &mut turn, row, column, player);
        let mut second: bool = false;
        let mut across_line: (usize, usize) = (row, column);
        match neighbour(row, column, side) {
            Some(other) => {
                across_line = other;
                second =
                Self::check_box(&mut board, &mut score, &mut turn, other.0, other.1, player);
            },
            None => {},
        }
        turn = PLAYER_ONE - (turn % PLAYER_TWO);
        let draw: bool = score[0] == HALF && score[1] == HALF;
        let finished: bool = score[0] > HALF || score[1] > HALF || draw;
        proof {
            let next = g.after_move(row as int, column as int, side, player);
            assert(board@.lines == next.board.lines);
            assert(board@.owners =~= next.board.owners);
        }
        *self = BorderPatrol { board, game_info: GameInfo { score, turn, finished } };
        Ok(
            MoveOutcome {
                first: if first { Some((row, column)) } else { None },
                second: if second { Some(across_line) } else { None },
                owner: player,
                turn,
                finished,
            },
        )
    }

    /// Applies the move with identifier `num` for `player`: draws the bottom
    /// side of box `num / 2` if `num` is even, its right side if `num` is
    /// odd.
    ///
    /// The move is refused with `GameOver` once the game is over, with
    /// `OutOfRange` if `num` is no identifier or `player` is none of the two
    /// players, and with `AlreadyDrawn` if either player has drawn the line.
    /// A refused move changes nothing.
    /// An accepted move does what `set_line_by` does for the address.
    pub fn set_line(&mut self, num: usize, player: u8) -> (r: Result<MoveOutcome, InvalidMove>)
        ensures
            match r {
                Ok(outcome) => {
                    &&& old(self)@.refusal_of(num as int, player) is None
                    &&& outcome == old(self)@.outcome(
                        line_row(num as int),
                        line_col(num as int),
                        line_side(num as int),
                        player,
                    )
                    &&& final(self)@ == old(self)@.after_move(
                        line_row(num as int),
                        line_col(num as int),
                        line_side(num as int),
                        player,
                    )
                },
                Err(refused) => {
                    &&& old(self)@.refusal_of(num as int, player) == Some(refused)
                    &&& final(self)@ == old(self)@
                },
            },
            final(self)@ == old(self)@.step_of(num as int, player),
            old(self)@.wf(),
            final(self)@.wf(),
    {
        proof {
            use_type_invariant(&*self);
        }
        if self.game_info.finished() {
            return Err(InvalidMove::GameOver);
        }
        match decode(num) {
            Some((row, col, side)) => self.set_line_by(row, col, side, player),
            None => Err(InvalidMove::OutOfRange),
        }
    }

    /// Applies the move with identifier `action` for the player to move.
    pub fn step(&mut self, action: usize) -> (r: Result<MoveOutcome, InvalidMove>)
        ensures
            match r {
                Ok(outcome) => {
                    &&& old(self)@.legal(action as int)
                    &&& outcome == old(self)@.outcome(
                        line_row(action as int),
                        line_col(action as int),
                        line_side(action as int),
                        old(self)@.info.turn,
                    )
                },
                Err(refused) => old(self)@.refusal_of(action as int, old(self)@.info.turn) == Some(
                    refused,
                ),
            },
            final(self)@ == old(self)@.step_of(action as int, old(self)@.info.turn),
            old(self)@.wf(),
            final(self)@.wf(),
    {
        let player: u8 = self.game_info.turn();
        self.set_line(action, player)
    }

    /// True if the move with identifier `line` is legal: the game is not
    /// over, `line` is an identifier, and neither player has drawn the line.
    pub fn is_possible(&self, line: usize) -> (r: bool)
        ensures
            r == self@.legal(line as int),
            self@.wf(),
    {
        proof {
            use_type_invariant(self);
        }
        if self.game_info.finished() {
            return false;
        }
        match decode(line) {
            Some((row, col, side)) => {
                !(self.board.edge_drawn(row, col, side, PLAYER_ONE) || self.board.edge_drawn(
                    row,
                    col,
                    side,
                    PLAYER_TWO,
                ))
            },
            None => false,
        }
    }

    /// The identifiers of all legal moves, in ascending order.  A line
    /// between two boxes is listed once.  The list is empty once the game is
    /// over.
    pub fn legal_moves(&self) -> (r: Vec<usize>)
        ensures
            forall|i: int|
                0 <= i < r.len() ==> self@.legal_moves().contains(#[trigger] r[i] as int),
            forall|id: int|
                self@.legal_moves().contains(id) ==> 0 <= id < LINE_COUNT && r@.contains(
                    id as usize,
                ),
            forall|i: int, j: int| 0 <= i < j < r.len() ==> r[i] < r[j],
            self@.wf(),
    {
        proof {
            use_type_invariant(self);
        }
        let mut moves: Vec<usize> = Vec::new();
        let mut id: usize = 0;
        while id < LINE_COUNT
            invariant
                id <= LINE_COUNT,
                forall|i: int| 0 <= i < moves.len() ==> self@.legal(#[trigger] moves[i] as int),
                forall|i: int| 0 <= i < moves.len() ==> #[trigger] moves[i] < id,
                forall|k: int| 0 <= k < id && self@.legal(k) ==> moves@.contains(k as usize),
                forall|i: int, j: int| 0 <= i < j < moves.len() ==> moves[i] < moves[j],
            decreases LINE_COUNT - id,
        {
            if self.is_possible(id) {
                let ghost before = moves@;
                moves.push(id);
                proof {
                    assert(moves@[before.len() as int] == id);
                    assert forall|k: int| 0 <= k < id + 1 && self@.legal(k) implies moves@.contains(
                        k as usize,
                    ) by {
                        if k < id {
                            let at = choose|at: int|
                                0 <= at < before.len() && before[at] == k as usize;
                            assert(moves@[at] == k as usize);
                        }
                    }
                }
            }
            id = id + 1;
        }
        moves
    }

    /// Index of the player to move: 0 for player one, 1 for player two.
    pub fn get_turn(&self) -> (r: usize)
        ensures
            r == PLAYER_ONE - self@.info.turn,
            r < 2,
            self@.wf(),
    {
        proof {
            use_type_invariant(self);
        }
        (PLAYER_ONE - self.game_info.turn()) as usize
    }

    /// The player to move.
    pub fn current_mover(&self) -> (r: u8)
        ensures
            r == self@.info.turn,
            is_player(r),
            self@.wf(),
    {
        proof {
            use_type_invariant(self);
        }
        self.game_info.turn()
    }

    /// The points of player one and of player two.  Together they are the
    /// number of complete boxes.
    pub fn scores(&self) -> (r: (u8, u8))
        ensures
            r.0 == self@.info.score_one,
            r.1 == self@.info.score_two,
            r.0 + r.1 == self@.board.completed().len(),
            r.0 + r.1 <= 100,
            self@.wf(),
    {
        proof {
            use_type_invariant(self);
            lemma_scores_count_complete(self@);
        }
        (self.game_info.get_player_one_points(), self.game_info.get_player_two_points())
    }

    /// How the game ended, or `None` while it is not over.
    pub fn is_finished(&self) -> (r: Option<Verdict>)
        ensures
            r == self@.info.verdict(),
            r is Some <==> self@.info.finished,
            self@.wf(),
    {
        proof {
            use_type_invariant(self);
        }
        self.game_info.verdict()
    }

    /// Who has drawn `side` of box `(row, col)`, if anybody.
    pub fn edge_state(&self, row: usize, col: usize, side: u8) -> (r: EdgeState)
        ensures
            r == self@.board.edge_state(row as int, col as int, side),
            self@.wf(),
    {
        proof {
            use_type_invariant(self);
        }
        self.board.edge_state(row, col, side)
    }

    /// The player who captured box `(row, col)`, if it is captured.
    pub fn box_owner(&self, row: usize, col: usize) -> (r: Option<u8>)
        ensures
            r == self@.board.owner(row as int, col as int),
            self@.wf(),
    {
        proof {
            use_type_invariant(self);
        }
        self.board.box_owner(row, col)
    }
}

} // verus!
