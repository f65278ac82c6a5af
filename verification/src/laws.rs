//! What holds of every game, proved from the rules.
use vstd::prelude::*;
use vstd::set_lib::{
    lemma_int_range, lemma_len_subset, lemma_map_size, lemma_set_disjoint_lens, set_int_range,
};
use crate::grid::{
    across, interior, is_player, is_shared_line, lemma_mirror_address, line_col, line_id,
    line_row, line_side, on_rim, opponent_of, opposite, PLAYER_ONE, PLAYER_TWO,
};
use crate::rules::{
    all_boxes, lemma_after_move, lemma_all_boxes, lemma_draw_touches, lemma_initial_wf,
    lemma_owned_by, GameView, InvalidMove,
};

verus! {

/// A move, accepted or refused, leaves a valid game valid.
pub proof fn lemma_step_wf(g: GameView, row: int, col: int, side: u8, player: u8)
    requires
        g.wf(),
    ensures
        g.step(row, col, side, player).wf(),
{
    if g.refusal(row, col, side, player) is None {
        lemma_after_move(g, row, col, side, player);
    }
}

/// Every game that is played from the start is valid, whatever moves are
/// tried and whoever tries them.
pub proof fn lemma_play_wf(moves: Seq<(int, u8)>)
    ensures
        GameView::initial().play(moves).wf(),
    decreases moves.len(),
{
    if moves.len() == 0 {
        lemma_initial_wf();
    } else {
        lemma_play_wf(moves.drop_last());
        let before = GameView::initial().play(moves.drop_last());
        let id = moves.last().0;
        if before.refusal_of(id, moves.last().1) is None {
            lemma_step_wf(before, line_row(id), line_col(id), line_side(id), moves.last().1);
        }
    }
}

/// In a valid game the two scores add up to the number of complete boxes,
/// and that number is at most a hundred.
pub proof fn lemma_scores_count_complete(g: GameView)
    requires
        g.wf(),
    ensures
        g.info.score_one + g.info.score_two == g.board.completed().len(),
        g.board.completed().finite(),
        g.board.completed().len() <= 100,
{
    let one = g.board.owned_by(PLAYER_ONE);
    let two = g.board.owned_by(PLAYER_TWO);
    lemma_owned_by(g.board, PLAYER_ONE);
    lemma_owned_by(g.board, PLAYER_TWO);
    lemma_all_boxes();
    lemma_len_subset(g.board.completed(), all_boxes());
    assert(one.disjoint(two));
    assert(one + two =~= g.board.completed()) by {
        assert forall|b: (int, int)| g.board.completed().contains(b) implies (one + two).contains(
            b,
        ) by {
            assert(g.board.complete(b.0, b.1));
            assert(g.board.owners.dom().contains((b.0, b.1)));
        }
        assert forall|b: (int, int)| (one + two).contains(b) implies g.board.completed().contains(
            b,
        ) by {
            assert(g.board.owners.dom().contains((b.0, b.1)));
        }
    }
    lemma_set_disjoint_lens(one, two);
}

/// Score conservation.  At every point of every game that is played from
/// the start, the two scores add up to the number of complete boxes, and
/// never to more than a hundred.
pub proof fn lemma_score_conservation(moves: Seq<(int, u8)>)
    ensures
        ({
            let g = GameView::initial().play(moves);
            &&& g.info.score_one + g.info.score_two == g.board.completed().len()
            &&& g.info.score_one + g.info.score_two <= 100
        }),
{
    lemma_play_wf(moves);
    lemma_scores_count_complete(GameView::initial().play(moves));
}

/// Ownership.  A box that an accepted move completes belongs to the mover
/// afterwards; a box that had an owner keeps that owner; and no other box
/// has an owner, so that the boxes with an owner are the complete ones.
pub proof fn lemma_capture_goes_to_mover(
    g: GameView,
    row: int,
    col: int,
    side: u8,
    player: u8,
    r: int,
    c: int,
)
    requires
        g.wf(),
        g.refusal(row, col, side, player) is None,
    ensures
        ({
            let next = g.after_move(row, col, side, player);
            &&& !g.board.complete(r, c) && next.board.complete(r, c) ==> next.board.owner(r, c)
                == Some(player)
            &&& g.board.owner(r, c) is Some ==> next.board.owner(r, c) == g.board.owner(r, c)
            &&& next.board.owner(r, c) is Some ==> g.board.owner(r, c) is Some || (
            !g.board.complete(r, c) && next.board.complete(r, c))
            &&& next.board.owner(r, c) is Some ==> next.board.complete(r, c)
        }),
{
    let next = g.after_move(row, col, side, player);
    lemma_after_move(g, row, col, side, player);
    lemma_draw_touches(g.board, row, col, side, player, r, c);
    if next.board.owner(r, c) is Some {
        assert(next.board.owners.dom().contains((r, c)));
    }
    if g.board.owner(r, c) is Some {
        assert(g.board.owners.dom().contains((r, c)));
    }
}

/// Extra turn.  After an accepted move that completed no box the other
/// player is to move; after one that completed a box, or two, the mover is
/// to move again.  For a player who moves in turn this means that the turn
/// changes in the first case and stays in the second.
pub proof fn lemma_extra_turn(g: GameView, row: int, col: int, side: u8, player: u8)
    requires
        g.wf(),
        g.refusal(row, col, side, player) is None,
    ensures
        0 <= g.gain(row, col, side, player) <= 2,
        g.gain(row, col, side, player) == 0 ==> g.after_move(row, col, side, player).info.turn
            == opponent_of(player) && g.after_move(row, col, side, player).info.turn != player,
        g.gain(row, col, side, player) >= 1 ==> g.after_move(row, col, side, player).info.turn
            == player,
        player == g.info.turn ==> (g.gain(row, col, side, player) == 0 <==> g.after_move(
            row,
            col,
            side,
            player,
        ).info.turn != g.info.turn),
        g.after_move(row, col, side, player).info.score(player) == g.info.score(player) + g.gain(
            row,
            col,
            side,
            player,
        ),
        g.after_move(row, col, side, player).info.score(opponent_of(player)) == g.info.score(
            opponent_of(player),
        ),
{
    lemma_after_move(g, row, col, side, player);
}

/// Mirroring.  A line between two boxes is the same line from either box:
/// both boxes always agree on who has drawn it, and a move that names it
/// from one box leads to the same game as the move that names it from the
/// other.
pub proof fn lemma_mirror(g: GameView, row: int, col: int, side: u8, player: u8)
    requires
        interior(row, col, side),
    ensures
        ({
            let n = across(row, col, side);
            &&& forall|p: u8|
                g.board.drawn(row, col, side, p) == g.board.drawn(n.0, n.1, opposite(side), p)
            &&& g.board.draw(row, col, side, player) == g.board.draw(
                n.0,
                n.1,
                opposite(side),
                player,
            )
            &&& g.refusal(row, col, side, player) == g.refusal(n.0, n.1, opposite(side), player)
            &&& g.step(row, col, side, player) == g.step(n.0, n.1, opposite(side), player)
            &&& forall|p: u8|
                g.step(row, col, side, player).board.drawn(row, col, side, p) == g.step(
                    row,
                    col,
                    side,
                    player,
                ).board.drawn(n.0, n.1, opposite(side), p)
        }),
{
    let n = across(row, col, side);
    let back = opposite(side);
    lemma_mirror_address(row, col, side);
    assert(across(n.0, n.1, back) == (row, col));
    if g.refusal(row, col, side, player) is None {
        let a = g.after_move(row, col, side, player);
        let b = g.after_move(n.0, n.1, back, player);
        assert(g.completes(row, col, side, player, row, col) == g.completes(
            n.0,
            n.1,
            back,
            player,
            row,
            col,
        ));
        assert(g.completes(row, col, side, player, n.0, n.1) == g.completes(
            n.0,
            n.1,
            back,
            player,
            n.0,
            n.1,
        ));
        assert(a.board.owners =~= b.board.owners);
        assert(a.info == b.info);
    }
}

/// The rim is inert.  A legal move never names a side on the rim of the
/// board, in a new game or later: every legal move names a line between two
/// boxes.  In a new game all those lines are legal.
pub proof fn lemma_rim_is_never_legal(g: GameView, id: int, player: u8)
    ensures
        g.legal(id) ==> is_shared_line(id) && !on_rim(line_row(id), line_col(id), line_side(id)),
        g.refusal_of(id, player) is None ==> g.legal(id),
        GameView::initial().legal(id) <==> is_shared_line(id),
        on_rim(line_row(id), line_col(id), line_side(id)) && !g.info.finished && 0 <= id < 200
            && is_player(player) ==> g.refusal_of(id, player) == Some(InvalidMove::AlreadyDrawn),
{
}

/// No line is drawn twice.  After an accepted move the same move is
/// refused, whoever tries it, and changes nothing: because the line is
/// drawn already, or, if the first move ended the game, because the game is
/// over.
pub proof fn lemma_no_double_draw(g: GameView, id: int, player: u8, again: u8)
    requires
        g.refusal_of(id, player) is None,
        is_player(again),
    ensures
        !g.step_of(id, player).info.finished ==> g.step_of(id, player).refusal_of(id, again)
            == Some(InvalidMove::AlreadyDrawn),
        g.step_of(id, player).info.finished ==> g.step_of(id, player).refusal_of(id, again)
            == Some(InvalidMove::GameOver),
        g.step_of(id, player).step_of(id, again) == g.step_of(id, player),
{
    let row = line_row(id);
    let col = line_col(id);
    let side = line_side(id);
    let next = g.step_of(id, player);
    assert(interior(row, col, side));
    assert(next.board.lines.contains((line_id(row, col, side), player)));
}

/// Nothing is taken back.  A move, accepted or refused, keeps every line
/// that was drawn and every owner of a box, lowers no score, and does not
/// reopen a game that is over.
pub proof fn lemma_nothing_is_taken_back(g: GameView, row: int, col: int, side: u8, player: u8)
    requires
        g.wf(),
    ensures
        ({
            let next = g.step(row, col, side, player);
            &&& g.board.lines.subset_of(next.board.lines)
            &&& forall|r: int, c: int|
                g.board.owner(r, c) is Some ==> next.board.owner(r, c) == g.board.owner(r, c)
            &&& g.info.score_one <= next.info.score_one
            &&& g.info.score_two <= next.info.score_two
            &&& g.info.finished ==> next == g
        }),
{
    if g.refusal(row, col, side, player) is None {
        lemma_after_move(g, row, col, side, player);
        let next = g.after_move(row, col, side, player);
        assert forall|r: int, c: int| g.board.owner(r, c) is Some implies next.board.owner(r, c)
            == g.board.owner(r, c) by {
            lemma_capture_goes_to_mover(g, row, col, side, player, r, c);
        }
    }
}

/// The board has 180 lines between two boxes, and in a new game every one of
/// them is a legal move.
pub proof fn lemma_new_game_has_180_moves()
    ensures
        GameView::initial().legal_moves() == Set::new(|id: int| is_shared_line(id)),
        GameView::initial().legal_moves().finite(),
        GameView::initial().legal_moves().len() == 180,
{
    let shared = Set::new(|id: int| is_shared_line(id));
    let places = set_int_range(0, 180);
    let line_at = |k: int|
        if k < 90 {
            2 * k
        } else {
            2 * (10 * ((k - 90) / 9) + (k - 90) % 9) + 1
        };
    lemma_int_range(0, 180);
    assert(places.map(line_at) =~= shared) by {
        assert forall|id: int| shared.contains(id) implies places.map(line_at).contains(id) by {
            let k = if id % 2 == 0 {
                id / 2
            } else {
                90 + 9 * line_row(id) + line_col(id)
            };
            assert(places.contains(k) && line_at(k) == id);
        }
    }
    assert(vstd::relations::injective_on(line_at, places));
    lemma_map_size(places, shared, line_at);
    assert(GameView::initial().legal_moves() =~= shared);
}

/// Every accepted move uses up one legal move: afterwards the legal moves
/// are those from before without the move that was made, or none at all if
/// the move ended the game.
pub proof fn lemma_move_uses_up_one(g: GameView, id: int, player: u8)
    requires
        g.refusal_of(id, player) is None,
    ensures
        g.legal_moves().contains(id),
        !g.step_of(id, player).info.finished ==> g.step_of(id, player).legal_moves()
            == g.legal_moves().remove(id),
        g.step_of(id, player).info.finished ==> g.step_of(id, player).legal_moves()
            == Set::<int>::empty(),
{
    let next = g.step_of(id, player);
    let row = line_row(id);
    let col = line_col(id);
    let side = line_side(id);
    assert(interior(row, col, side));
    assert(line_id(row, col, side) == id);
    if next.info.finished {
        assert(next.legal_moves() =~= Set::<int>::empty());
    } else {
        assert forall|other: int| next.legal_moves().contains(other) == g.legal_moves().remove(
            id,
        ).contains(other) by {
            if 0 <= other < 200 && other != id {
                let r = line_row(other);
                let c = line_col(other);
                let s = line_side(other);
                if interior(r, c, s) {
                    assert(line_id(r, c, s) == other);
                }
            }
        }
        assert(next.legal_moves() =~= g.legal_moves().remove(id));
    }
}

} // verus!
