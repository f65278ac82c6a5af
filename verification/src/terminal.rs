//! The game as a terminal shows it: a cursor that walks over the lines, two
//! seats that programs may take, and the text of the screen.
use vstd::prelude::*;
use vstd::string::StringExecFns;
use crate::board::{BoardView, EdgeState};
use crate::engine::Game;
use crate::game::BorderPatrol;
use crate::grid::{interior, BOTTOM, PLAYER_ONE, PLAYER_TWO, RIGHT};
use crate::player::Player;
use crate::rules::{GameView, Verdict};

verus! {

/// Number of places the cursor can be at: the lines between two boxes that
/// run one way.
pub const CURSOR_PLACES: usize = 90;

/// Where the cursor is after `key` was pressed at place `pos`, as the new
/// place and the new orientation.  Orientation 0 walks the horizontal
/// lines, ten to a row, and orientation 1 the vertical lines, nine to a row.
///
/// `h` and `l` step to the line before and after, `k` and `j` one row up and
/// down, and `f` turns the cursor to the other orientation at the same box.
/// A step that would leave the board is not taken, and any other key leaves
/// the cursor where it is.
pub open spec fn press(pos: int, orientation: int, key: char) -> (int, int) {
    if key == 'h' && pos > 0 {
        (pos - 1, orientation)
    } else if key == 'j' && pos < 80 {
        (pos + (10 - orientation), orientation)
    } else if key == 'k' && pos > 9 {
        (pos - (10 - orientation), orientation)
    } else if key == 'l' && pos < 89 {
        (pos + 1, orientation)
    } else if key == 'f' {
        if orientation == 1 {
            let turned = pos + pos / 9;
            (if turned > 89 { turned - 10 } else { turned }, 0)
        } else {
            (pos - pos / 10, 1)
        }
    } else {
        (pos, orientation)
    }
}

/// The line under the cursor, as the address `(row, col, side)` of the
/// bottom side of a box for orientation 0 and of the right side for
/// orientation 1.
pub open spec fn target(pos: int, orientation: int) -> (int, int, u8) {
    let number = if orientation == 1 { pos + pos / 9 } else { pos };
    (number / 10, number % 10, orientation as u8)
}

/// The cursor stays on the board whatever key is pressed, and the line under
/// it always lies between two boxes.
pub proof fn lemma_cursor(pos: int, orientation: int, key: char)
    requires
        0 <= pos < 90,
        0 <= orientation <= 1,
    ensures
        0 <= press(pos, orientation, key).0 < 90,
        0 <= press(pos, orientation, key).1 <= 1,
        ({
            let line = target(pos, orientation);
            &&& interior(line.0, line.1, line.2)
            &&& line.2 == (if orientation == 0 { BOTTOM } else { RIGHT })
        }),
{
}

/// `text` written `times` times in a row.
pub open spec fn repeated(text: Seq<char>, times: nat) -> Seq<char>
    decreases times,
{
    if times == 0 {
        Seq::empty()
    } else {
        repeated(text, (times - 1) as nat) + text
    }
}

/// `text` written `times` times in a row.
pub fn repeat(text: &str, times: usize) -> (r: String)
    ensures
        r@ == repeated(text@, times as nat),
{
    let mut out: String = String::new();
    let mut i: usize = 0;
    while i < times
        invariant
            i <= times,
            out@ == repeated(text@, i as nat),
        decreases times - i,
    {
        out.append(text);
        i = i + 1;
    }
    out
}

/// The glyphs of a line on the screen: thin while nobody has drawn it, heavy
/// for player one and double for player two; four glyphs wide for a bottom
/// or top side and one glyph for a right or left side.
pub open spec fn line_text(state: EdgeState, side: u8) -> Seq<char> {
    match state {
        EdgeState::DrawnBy(player) => if player == PLAYER_ONE {
            if side % 2 == 0 {
                "━━━━"@
            } else {
                "┃"@
            }
        } else {
            if side % 2 == 0 {
                "════"@
            } else {
                "║"@
            }
        },
        EdgeState::Undrawn => if side % 2 == 0 {
            "────"@
        } else {
            "│"@
        },
    }
}

/// The glyphs of the line under the cursor: a horizontal line keeps its
/// first and last glyph around two rings, a vertical line becomes a ring.
pub open spec fn marked_text(state: EdgeState, side: u8) -> Seq<char> {
    if side % 2 == 0 {
        match state {
            EdgeState::DrawnBy(player) => if player == PLAYER_ONE {
                "━○○━"@
            } else {
                "═○○═"@
            },
            EdgeState::Undrawn => "─○○─"@,
        }
    } else {
        "○"@
    }
}

/// The glyphs of `side` of box `(row, col)` on a screen on which the line
/// `mark`, if any, is under the cursor.
pub open spec fn shown_line(
    board: BoardView,
    row: int,
    col: int,
    side: u8,
    mark: Option<(int, int, u8)>,
) -> Seq<char> {
    if mark == Some((row, col, side)) {
        marked_text(board.edge_state(row, col, side), side)
    } else {
        line_text(board.edge_state(row, col, side), side)
    }
}

/// A line address as the model has it.
pub open spec fn mark_of(mark: Option<(usize, usize, u8)>) -> Option<(int, int, u8)> {
    match mark {
        Some(line) => Some((line.0 as int, line.1 as int, line.2)),
        None => None,
    }
}

/// The glyphs of a box on the screen: filled for player one, shaded for
/// player two, blank while nobody owns it.
pub open spec fn box_text(owner: Option<u8>) -> Seq<char> {
    match owner {
        Some(player) => if player == PLAYER_ONE {
            "██"@
        } else {
            "░░"@
        },
        None => "  "@,
    }
}

/// The message that reports how a game ended, set low and to the right on an
/// otherwise empty screen.
pub open spec fn verdict_text(verdict: Verdict) -> Seq<char> {
    repeated("\n"@, 20) + repeated("\t"@, 8) + (match verdict {
        Verdict::PlayerOneWon => "Player one won!"@,
        Verdict::PlayerTwoWon => "Player two won!"@,
        Verdict::Draw => "Draw!"@,
    })
}

/// The numeral for the digit `d`.
pub open spec fn digit_text(d: int) -> Seq<char> {
    if d == 0 {
        "0"@
    } else if d == 1 {
        "1"@
    } else if d == 2 {
        "2"@
    } else if d == 3 {
        "3"@
    } else if d == 4 {
        "4"@
    } else if d == 5 {
        "5"@
    } else if d == 6 {
        "6"@
    } else if d == 7 {
        "7"@
    } else if d == 8 {
        "8"@
    } else {
        "9"@
    }
}

/// `n` written in decimal.
pub open spec fn number_text(n: nat) -> Seq<char>
    decreases n,
{
    if n < 10 {
        digit_text(n as int)
    } else {
        number_text(n / 10) + digit_text((n % 10) as int)
    }
}

/// The blank space to the left of the board.
pub open spec fn margin() -> Seq<char> {
    repeated("\t"@, 6)
}

/// The head of the screen: the title and the two scores.
pub open spec fn header_text(score_one: int, score_two: int) -> Seq<char> {
    "\n\n\x1B[1m"@ + repeated("\t"@, 8) + "   Borderpatrol\n\n"@ + margin()
        + "        PlayerOne     "@ + number_text(score_one as nat) + " - "@ + number_text(
        score_two as nat,
    ) + "      PlayerTwo\n"@
}

/// The upper rim of the board.
pub open spec fn top_border() -> Seq<char> {
    margin() + "┌"@ + repeated("────┬"@, 9) + "────┐\n"@
}

/// The lower rim of the board, and the empty lines below it.
pub open spec fn bottom_border() -> Seq<char> {
    margin() + "└"@ + repeated("────┴"@, 9) + "────┘"@ + repeated("\n"@, 9)
}

/// The first `upto` boxes of row `row`, each followed by the vertical line
/// to its right if another box lies there.
pub open spec fn box_cells(
    board: BoardView,
    row: int,
    upto: int,
    mark: Option<(int, int, u8)>,
) -> Seq<char>
    decreases upto,
{
    if upto <= 0 {
        Seq::empty()
    } else {
        let col = upto - 1;
        let cell = box_cells(board, row, col, mark) + box_text(board.owner(row, col)) + " "@;
        if col < 9 {
            cell + shown_line(board, row, col, RIGHT, mark) + " "@
        } else {
            cell
        }
    }
}

/// The horizontal lines below the first `upto` boxes of row `row`, with a
/// crossing between two of them.
pub open spec fn line_cells(
    board: BoardView,
    row: int,
    upto: int,
    mark: Option<(int, int, u8)>,
) -> Seq<char>
    decreases upto,
{
    if upto <= 0 {
        Seq::empty()
    } else {
        let col = upto - 1;
        let cell = line_cells(board, row, col, mark) + shown_line(board, row, col, BOTTOM, mark);
        if col < 9 {
            cell + "┼"@
        } else {
            cell
        }
    }
}

/// The first `upto` rows of the board: for each row its boxes and, if
/// another row follows, the horizontal lines below it.
pub open spec fn rows_text(board: BoardView, upto: int, mark: Option<(int, int, u8)>) -> Seq<char>
    decreases upto,
{
    if upto <= 0 {
        Seq::empty()
    } else {
        let row = upto - 1;
        let boxes = rows_text(board, row, mark) + margin() + "│ "@ + box_cells(
            board,
            row,
            10,
            mark,
        ) + "│\n"@;
        if row < 9 {
            boxes + margin() + "├"@ + line_cells(board, row, 10, mark) + "┤\n"@
        } else {
            boxes
        }
    }
}

/// The whole screen: head, upper rim, the ten rows, lower rim.  The line
/// `mark`, if any, is shown as the line under the cursor.
pub open spec fn screen_text(game: GameView, mark: Option<(int, int, u8)>) -> Seq<char> {
    header_text(game.info.score_one, game.info.score_two) + top_border() + rows_text(
        game.board,
        10,
        mark,
    ) + bottom_border()
}

/// The numeral for the digit `d`.
fn digit(d: u8) -> (r: &'static str)
    requires
        d < 10,
    ensures
        r@ == digit_text(d as int),
{
    if d == 0 {
        "0"
    } else if d == 1 {
        "1"
    } else if d == 2 {
        "2"
    } else if d == 3 {
        "3"
    } else if d == 4 {
        "4"
    } else if d == 5 {
        "5"
    } else if d == 6 {
        "6"
    } else if d == 7 {
        "7"
    } else if d == 8 {
        "8"
    } else {
        "9"
    }
}

/// `n` written in decimal.
pub fn number(n: u8) -> (r: String)
    ensures
        r@ == number_text(n as nat),
{
    proof {
        reveal_with_fuel(number_text, 3);
    }
    if n >= 100 {
        let mut out: String = String::from_str(digit(n / 100));
        out.append(digit((n / 10) % 10));
        out.append(digit(n % 10));
        out
    } else if n >= 10 {
        let mut out: String = String::from_str(digit(n / 10));
        out.append(digit(n % 10));
        out
    } else {
        String::from_str(digit(n))
    }
}

/// What a terminal game holds.
pub struct TerminalView {
    /// The game that is played.
    pub game: GameView,
    /// The place of the cursor.
    pub pos: int,
    /// The orientation of the cursor: 0 on horizontal lines, 1 on vertical
    /// lines.
    pub orientation: int,
    /// Whether a program plays for player one.
    pub seat_one: bool,
    /// Whether a program plays for player two.
    pub seat_two: bool,
}

impl TerminalView {
    /// A new game with the cursor on the first horizontal line.
    pub open spec fn initial(seat_one: bool, seat_two: bool) -> TerminalView {
        TerminalView { game: GameView::initial(), pos: 0, orientation: 0, seat_one, seat_two }
    }

    /// Whether a program plays for `player`.
    pub open spec fn seated(self, player: u8) -> bool {
        if player == PLAYER_ONE {
            self.seat_one
        } else {
            self.seat_two
        }
    }

    /// The cursor is on the board and the game is valid.
    pub open spec fn wf(self) -> bool {
        &&& self.game.wf()
        &&& 0 <= self.pos < 90
        &&& 0 <= self.orientation <= 1
    }
}

/// A game on a terminal.  A person plays with the cursor for every player
/// whose seat no program has taken.
pub struct TerminalBorderPatrol {
    border_patrol: BorderPatrol,
    orientation: usize,
    pos: usize,
    player_one: Option<Box<dyn Player>>,
    player_two: Option<Box<dyn Player>>,
}

impl View for TerminalBorderPatrol {
    type V = TerminalView;

    closed spec fn view(&self) -> TerminalView {
        TerminalView {
            game: self.border_patrol@,
            pos: self.pos as int,
            orientation: self.orientation as int,
            seat_one: self.player_one is Some,
            seat_two: self.player_two is Some,
        }
    }
}

impl TerminalBorderPatrol {
    #[verifier::type_invariant]
    spec fn inv(self) -> bool {
        self@.wf()
    }

    /// A new game for two people: the cursor on the first horizontal line.
    pub fn new() -> (r: Self)
        ensures
            r@ == TerminalView::initial(false, false),
    {
        TerminalBorderPatrol {
            border_patrol: BorderPatrol::new(),
            orientation: 0,
            pos: 0,
            player_one: None,
            player_two: None,
        }
    }

    /// A new game between two programs.
    pub fn with_players(player_one: Box<dyn Player>, player_two: Box<dyn Player>) -> (r: Self)
        ensures
            r@ == TerminalView::initial(true, true),
    {
        let mut instance = Self::new();
        proof {
            use_type_invariant(&instance);
        }
        instance.player_one = Some(player_one);
        instance.player_two = Some(player_two);
        instance
    }

    /// A new game in which a program plays for player one.
    pub fn with_player_one(player: Box<dyn Player>) -> (r: Self)
        ensures
            r@ == TerminalView::initial(true, false),
    {
        let mut instance = Self::new();
        proof {
            use_type_invariant(&instance);
        }
        instance.player_one = Some(player);
        instance
    }

    /// A new game in which a program plays for player two.
    pub fn with_player_two(player: Box<dyn Player>) -> (r: Self)
        ensures
            r@ == TerminalView::initial(false, true),
    {
        let mut instance = Self::new();
        proof {
            use_type_invariant(&instance);
        }
        instance.player_two = Some(player);
        instance
    }

    /// The game that is played.
    pub fn border_patrol(&self) -> (r: &BorderPatrol)
        ensures
            r@ == self@.game,
            self@.wf(),
    {
        proof {
            use_type_invariant(self);
        }
        &self.border_patrol
    }

    /// The place of the cursor.
    pub fn pos(&self) -> (r: usize)
        ensures
            r == self@.pos,
            r < CURSOR_PLACES,
    {
        proof {
            use_type_invariant(self);
        }
        self.pos
    }

    /// The orientation of the cursor: 0 on horizontal lines, 1 on vertical
    /// lines.
    pub fn orientation(&self) -> (r: usize)
        ensures
            r == self@.orientation,
            r <= 1,
    {
        proof {
            use_type_invariant(self);
        }
        self.orientation
    }

    /// The line under the cursor, as `(row, col, side)`.
    pub fn selected(&self) -> (r: (usize, usize, u8))
        ensures
            (r.0 as int, r.1 as int, r.2) == target(self@.pos, self@.orientation),
            interior(r.0 as int, r.1 as int, r.2),
    {
        proof {
            use_type_invariant(self);
            lemma_cursor(self.pos as int, self.orientation as int, ' ');
        }
        let correct_pos: usize = if self.orientation == 1 {
            self.pos + self.pos / 9
        } else {
            self.pos
        };
        (correct_pos / 10, correct_pos % 10, self.orientation as u8)
    }

    /// The message that says how the game ended, or `None` while it is not
    /// over.
    pub fn check_victory(&self) -> (r: Option<String>)
        ensures
            r is Some <==> self@.game.info.finished,
            r matches Some(text) ==> self@.game.info.verdict() matches Some(verdict) && text@
                == verdict_text(verdict),
            self@.wf(),
    {
        proof {
            use_type_invariant(self);
        }
        match self.border_patrol.is_finished() {
            Some(verdict) => {
                let mut text: String = repeat("\n", 20);
                let tabs: String = repeat("\t", 8);
                text.append(tabs.as_str());
                match verdict {
                    Verdict::PlayerOneWon => text.append("Player one won!"),
                    Verdict::PlayerTwoWon => text.append("Player two won!"),
                    Verdict::Draw => text.append("Draw!"),
                }
                Some(text)
            },
            None => None,
        }
    }

    /// The glyphs for `side` of box `(row, column)`.
    pub fn get_line_display(&self, row: usize, column: usize, side: u8) -> (r: &'static str)
        ensures
            r@ == line_text(self@.game.board.edge_state(row as int, column as int, side), side),
    {
        let horizontal: bool = side % 2 == 0;
        match self.border_patrol.edge_state(row, column, side) {
            EdgeState::DrawnBy(player) => {
                if player == PLAYER_ONE {
                    if horizontal {
                        "━━━━"
                    } else {
                        "┃"
                    }
                } else {
                    if horizontal {
                        "════"
                    } else {
                        "║"
                    }
                }
            },
            EdgeState::Undrawn => {
                if horizontal {
                    "────"
                } else {
                    "│"
                }
            },
        }
    }

    /// The glyphs for box `(row, column)`.
    pub fn get_box_display(&self, row: usize, column: usize) -> (r: &'static str)
        ensures
            r@ == box_text(self@.game.board.owner(row as int, column as int)),
    {
        match self.border_patrol.box_owner(row, column) {
            Some(player) => {
                if player == PLAYER_ONE {
                    "██"
                } else {
                    "░░"
                }
            },
            None => "  ",
        }
    }

    /// The glyphs for `side` of box `(row, column)` on a screen that shows
    /// the line `mark`, if any, as the line under the cursor.
    fn shown_line(
        &self,
        row: usize,
        column: usize,
        side: u8,
        mark: Option<(usize, usize, u8)>,
    ) -> (r: &'static str)
        ensures
            r@ == shown_line(self@.game.board, row as int, column as int, side, mark_of(mark)),
    {
        let marked: bool = match mark {
            Some(line) => line.0 == row && line.1 == column && line.2 == side,
            None => false,
        };
        if !marked {
            self.get_line_display(row, column, side)
        } else if side % 2 == 0 {
            match self.border_patrol.edge_state(row, column, side) {
                EdgeState::DrawnBy(player) => {
                    if player == PLAYER_ONE {
                        "━○○━"
                    } else {
                        "═○○═"
                    }
                },
                EdgeState::Undrawn => "─○○─",
            }
        } else {
            "○"
        }
    }

    /// The boxes of row `row` with the vertical lines between them.
    fn box_cells(&self, row: usize, mark: Option<(usize, usize, u8)>) -> (r: String)
        ensures
            r@ == box_cells(self@.game.board, row as int, 10, mark_of(mark)),
    {
        let mut out: String = String::new();
        let mut col: usize = 0;
        while col < 10
            invariant
                col <= 10,
                out@ == box_cells(self@.game.board, row as int, col as int, mark_of(mark)),
            decreases 10 - col,
        {
            out.append(self.get_box_display(row, col));
            out.append(" ");
            if col < 9 {
                out.append(self.shown_line(row, col, RIGHT, mark));
                out.append(" ");
            }
            col = col + 1;
        }
        out
    }

    /// The horizontal lines below row `row` with the crossings between them.
    fn line_cells(&self, row: usize, mark: Option<(usize, usize, u8)>) -> (r: String)
        ensures
            r@ == line_cells(self@.game.board, row as int, 10, mark_of(mark)),
    {
        let mut out: String = String::new();
        let mut col: usize = 0;
        while col < 10
            invariant
                col <= 10,
                out@ == line_cells(self@.game.board, row as int, col as int, mark_of(mark)),
            decreases 10 - col,
        {
            out.append(self.shown_line(row, col, BOTTOM, mark));
            if col < 9 {
                out.append("┼");
            }
            col = col + 1;
        }
        out
    }

    /// The screen: the title, the scores, and the board with every line and
    /// box as it stands.
    pub fn to_string(&self) -> (r: String)
        ensures
            r@ == screen_text(self@.game, None),
    {
        self.render(None)
    }

    /// The screen with the line under the cursor picked out.
    pub fn highlighted(&self) -> (r: String)
        ensures
            r@ == screen_text(self@.game, Some(target(self@.pos, self@.orientation))),
    {
        self.render(Some(self.selected()))
    }

    /// The screen, with the line `mark`, if any, shown as the line under the
    /// cursor.
    fn render(&self, mark: Option<(usize, usize, u8)>) -> (r: String)
        ensures
            r@ == screen_text(self@.game, mark_of(mark)),
    {
        let scores: (u8, u8) = self.border_patrol.scores();
        let tabs: String = repeat("\t", 6);
        let mut content: String = String::from_str("\n\n\x1B[1m");
        content.append(repeat("\t", 8).as_str());
        content.append("   Borderpatrol\n\n");
        content.append(tabs.as_str());
        content.append("        PlayerOne     ");
        content.append(number(scores.0).as_str());
        content.append(" - ");
        content.append(number(scores.1).as_str());
        content.append("      PlayerTwo\n");
        let mut border: String = repeat("\t", 6);
        border.append("┌");
        border.append(repeat("────┬", 9).as_str());
        border.append("────┐\n");
        content.append(border.as_str());
        let mut rows: String = String::new();
        let mut row: usize = 0;
        while row < 10
            invariant
                row <= 10,
                tabs@ == margin(),
                rows@ == rows_text(self@.game.board, row as int, mark_of(mark)),
            decreases 10 - row,
        {
            rows.append(tabs.as_str());
            rows.append("│ ");
            rows.append(self.box_cells(row, mark).as_str());
            rows.append("│\n");
            if row < 9 {
                rows.append(tabs.as_str());
                rows.append("├");
                rows.append(self.line_cells(row, mark).as_str());
                rows.append("┤\n");
            }
            row = row + 1;
        }
        content.append(rows.as_str());
        let mut border: String = repeat("\t", 6);
        border.append("└");
        border.append(repeat("────┴", 9).as_str());
        border.append("────┘");
        border.append(repeat("\n", 9).as_str());
        content.append(border.as_str());
        content
    }
}

impl Game for TerminalBorderPatrol {
    /// Lets the program that plays for the player to move make its move, if
    /// there is one, and puts the screen into `content`.  Once the game is
    /// over, puts the message that says how it ended into `content`, changes
    /// nothing, and returns false.
    ///
    /// The program is shown the game and the legal moves and names a move.
    /// That move is tried for the player to move like any other: if it is
    /// refused, nothing changes.
    fn update(&mut self, content: &mut String) -> (r: bool)
        ensures
            r == !old(self)@.game.info.finished,
            final(self)@.pos == old(self)@.pos,
            final(self)@.orientation == old(self)@.orientation,
            final(self)@.seat_one == old(self)@.seat_one,
            final(self)@.seat_two == old(self)@.seat_two,
            old(self)@.game.info.finished || !old(self)@.seated(old(self)@.game.info.turn)
                ==> final(self)@.game == old(self)@.game,
            final(self)@.game == old(self)@.game || exists|id: int|
                old(self)@.game.legal(id) && final(self)@.game == old(self)@.game.step_of(
                    id,
                    old(self)@.game.info.turn,
                ),
            final(self)@.wf(),
            old(self)@.game.info.finished ==> (old(self)@.game.info.verdict() matches Some(verdict)
                && final(content)@ == verdict_text(verdict)),
            !old(self)@.game.info.finished ==> final(content)@ == screen_text(
                final(self)@.game,
                None,
            ),
    {
        proof {
            use_type_invariant(&*self);
        }
        match self.check_victory() {
            Some(msg) => {
                *content = msg;
                return false;
            },
            None => {},
        }
        let turn: u8 = self.border_patrol.current_mover();
        let moves: Vec<usize> = self.border_patrol.legal_moves();
        let choice: Option<usize> = if turn == PLAYER_ONE {
            match &self.player_one {
                Some(player) => player.make_move(&self.border_patrol, &moves),
                None => None,
            }
        } else {
            match &self.player_two {
                Some(player) => player.make_move(&self.border_patrol, &moves),
                None => None,
            }
        };
        match choice {
            Some(id) => {
                let ghost before = self@.game;
                let mut game: BorderPatrol = self.border_patrol;
                let _ = game.step(id);
                proof {
                    if before.legal(id as int) {
                        assert(game@ == before.step_of(id as int, before.info.turn));
                    } else {
                        assert(game@ == before);
                    }
                }
                self.border_patrol = game;
            },
            None => {},
        }
        *content = self.init_screen();
        true
    }

    /// True if the terminal has to wait for a key: no program plays for the
    /// player to move.
    fn wait_for_input(&self) -> (r: bool)
        ensures
            r == !self@.seated(self@.game.info.turn),
    {
        let turn: u8 = self.border_patrol.current_mover();
        if self.player_one.is_some() && turn == PLAYER_ONE {
            return false;
        }
        if self.player_two.is_some() && turn == PLAYER_TWO {
            return false;
        }
        true
    }

    /// The screen as the game stands.
    fn init_screen(&mut self) -> (r: String)
        ensures
            final(self)@ == old(self)@,
            r@ == screen_text(old(self)@.game, None),
    {
        self.to_string()
    }

    /// Handles a key.  The space bar draws the line under the cursor for
    /// the player to move, if that move is accepted, and puts the screen
    /// into `content`.  Every other key moves the cursor as `press` says and
    /// puts the screen with the line under the cursor picked out into
    /// `content`.  Returns true if the key was the space bar.
    fn react(&mut self, content: &mut String, key: char) -> (r: bool)
        ensures
            r == (key == ' '),
            final(self)@.seat_one == old(self)@.seat_one,
            final(self)@.seat_two == old(self)@.seat_two,
            key == ' ' ==> {
                let line = target(old(self)@.pos, old(self)@.orientation);
                &&& final(self)@.pos == old(self)@.pos
                &&& final(self)@.orientation == old(self)@.orientation
                &&& final(self)@.game == old(self)@.game.step(
                    line.0,
                    line.1,
                    line.2,
                    old(self)@.game.info.turn,
                )
            },
            key != ' ' ==> final(self)@.game == old(self)@.game && (
                final(self)@.pos,
                final(self)@.orientation,
            ) == press(old(self)@.pos, old(self)@.orientation, key),
            final(self)@.wf(),
            final(content)@ == screen_text(
                final(self)@.game,
                if key == ' ' {
                    None
                } else {
                    Some(target(final(self)@.pos, final(self)@.orientation))
                },
            ),
    {
        proof {
            use_type_invariant(&*self);
            lemma_cursor(self.pos as int, self.orientation as int, key);
        }
        if key == ' ' {
            let line: (usize, usize, u8) = self.selected();
            let turn: u8 = self.border_patrol.current_mover();
            let mut game: BorderPatrol = self.border_patrol;
            let _ = game.set_line_by(line.0, line.1, line.2, turn);
            self.border_patrol = game;
            *content = self.init_screen();
            return true;
        }
        if key == 'h' && self.pos > 0 {
            self.pos = self.pos - 1;
        } else if key == 'j' && self.pos < 80 {
            self.pos = self.pos + (10 - self.orientation);
        } else if key == 'k' && self.pos > 9 {
            self.pos = self.pos - (10 - self.orientation);
        } else if key == 'l' && self.pos < 89 {
            self.pos = self.pos + 1;
        } else if key == 'f' {
            if self.orientation == 1 {
                let turned: usize = self.pos + self.pos / 9;
                self.pos = if turned > 89 { turned - 10 } else { turned };
            } else {
                self.pos = self.pos - self.pos / 10;
            }
            self.orientation = 1 - self.orientation;
        }
        *content = self.highlighted();
        false
    }
}

} // verus!
