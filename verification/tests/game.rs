use borderpatrol::board::EdgeState;
use borderpatrol::game::{BorderPatrol, GameInfo};
use borderpatrol::grid::{neighbour, BOTTOM, LEFT, PLAYER_ONE, PLAYER_TWO, RIGHT, TOP};
use borderpatrol::moves::decode;
use borderpatrol::rules::{InvalidMove, MoveOutcome, Verdict};

fn complete_boxes(game: &BorderPatrol) -> usize {
    let mut count = 0;
    for row in 0..10 {
        for col in 0..10 {
            if game.board().is_box_complete(row, col) {
                count += 1;
            }
        }
    }
    count
}

fn drawn_game() -> BorderPatrol {
    let mut game = BorderPatrol::new();
    for row in 0..10 {
        for col in 0..9 {
            let player = if row < 5 { PLAYER_ONE } else { PLAYER_TWO };
            game.set_line_by(row, col, RIGHT, player).unwrap();
        }
    }
    for row in 0..9 {
        if row == 4 {
            continue;
        }
        for col in 0..10 {
            let player = if row < 4 { PLAYER_ONE } else { PLAYER_TWO };
            game.set_line_by(row, col, BOTTOM, player).unwrap();
        }
    }
    game
}

#[test]
fn new_game_starts_with_player_one() {
    let game = BorderPatrol::new();
    assert_eq!(game.scores(), (0, 0));
    assert_eq!(game.current_mover(), PLAYER_ONE);
    assert_eq!(game.get_turn(), 0);
    assert_eq!(game.is_finished(), None);
    assert_eq!(game.game_info().get_points(), 0);
    assert_eq!(game.game_info().get_player_one_points(), 0);
    assert_eq!(game.game_info().get_player_two_points(), 0);
    assert_eq!(game.game_info().turn(), PLAYER_ONE);
    assert!(!game.game_info().finished());
    assert_eq!(complete_boxes(&game), 0);
}

#[test]
fn game_info_starts_empty() {
    let info = GameInfo::new();
    assert_eq!(info.get_points(), 0);
    assert_eq!(info.get_player_one_points(), 0);
    assert_eq!(info.get_player_two_points(), 0);
    assert_eq!(info.turn(), PLAYER_ONE);
    assert!(!info.finished());
    assert_eq!(info.verdict(), None);
}

#[test]
fn first_move_draws_the_line_on_both_boxes() {
    let mut game = BorderPatrol::new();
    let outcome = game.set_line_by(0, 0, BOTTOM, PLAYER_ONE).unwrap();
    assert_eq!(
        outcome,
        MoveOutcome { first: None, second: None, owner: PLAYER_ONE, turn: PLAYER_TWO, finished: false }
    );
    assert_eq!(outcome.captured(), 0);
    assert!(game.board().edge_drawn(0, 0, BOTTOM, PLAYER_ONE));
    assert!(game.board().edge_drawn(1, 0, TOP, PLAYER_ONE));
    assert!(!game.board().edge_drawn(0, 0, BOTTOM, PLAYER_TWO));
    assert_eq!(game.edge_state(0, 0, BOTTOM), EdgeState::DrawnBy(PLAYER_ONE));
    assert_eq!(game.edge_state(1, 0, TOP), EdgeState::DrawnBy(PLAYER_ONE));
    assert_eq!(game.edge_state(1, 0, BOTTOM), EdgeState::Undrawn);
    assert_eq!(game.current_mover(), PLAYER_TWO);
    assert_eq!(game.get_turn(), 1);
    assert_eq!(game.scores(), (0, 0));
}

#[test]
fn fourth_side_captures_the_box() {
    let mut game = BorderPatrol::new();
    game.set_line_by(5, 5, BOTTOM, PLAYER_ONE).unwrap();
    game.set_line_by(5, 5, RIGHT, PLAYER_TWO).unwrap();
    game.set_line_by(5, 5, TOP, PLAYER_ONE).unwrap();
    assert_eq!(game.box_owner(5, 5), None);
    assert!(!game.board().is_box_complete(5, 5));
    assert_eq!(game.current_mover(), PLAYER_TWO);
    let outcome = game.set_line_by(5, 5, LEFT, PLAYER_TWO).unwrap();
    assert_eq!(outcome.captured(), 1);
    assert_eq!(outcome.first, Some((5, 5)));
    assert_eq!(outcome.second, None);
    assert_eq!(outcome.owner, PLAYER_TWO);
    assert_eq!(outcome.turn, PLAYER_TWO);
    assert!(!outcome.finished);
    assert_eq!(game.box_owner(5, 5), Some(PLAYER_TWO));
    assert_eq!(game.scores(), (0, 1));
    assert_eq!(game.current_mover(), PLAYER_TWO);
    assert_eq!(game.game_info().get_points(), 1);
}

#[test]
fn one_line_can_capture_two_boxes() {
    let mut game = BorderPatrol::new();
    game.set_line_by(0, 0, BOTTOM, PLAYER_ONE).unwrap();
    game.set_line_by(0, 1, BOTTOM, PLAYER_TWO).unwrap();
    game.set_line_by(0, 1, RIGHT, PLAYER_ONE).unwrap();
    assert_eq!(game.current_mover(), PLAYER_TWO);
    let outcome = game.set_line_by(0, 0, RIGHT, PLAYER_TWO).unwrap();
    assert_eq!(outcome.captured(), 2);
    assert_eq!(outcome.first, Some((0, 0)));
    assert_eq!(outcome.second, Some((0, 1)));
    assert_eq!(outcome.turn, PLAYER_TWO);
    assert_eq!(game.box_owner(0, 0), Some(PLAYER_TWO));
    assert_eq!(game.box_owner(0, 1), Some(PLAYER_TWO));
    assert_eq!(game.scores(), (0, 2));
    assert_eq!(game.current_mover(), PLAYER_TWO);
    let next = game.set_line_by(3, 3, RIGHT, PLAYER_TWO).unwrap();
    assert_eq!(next.captured(), 0);
    assert_eq!(game.current_mover(), PLAYER_ONE);
}

#[test]
fn capture_from_the_far_side_is_reported_second() {
    let mut game = BorderPatrol::new();
    game.set_line_by(0, 0, BOTTOM, PLAYER_ONE).unwrap();
    let outcome = game.set_line_by(0, 1, LEFT, PLAYER_ONE).unwrap();
    assert_eq!(outcome.first, None);
    assert_eq!(outcome.second, Some((0, 0)));
    assert_eq!(outcome.captured(), 1);
    assert_eq!(game.box_owner(0, 0), Some(PLAYER_ONE));
    assert_eq!(game.scores(), (1, 0));
    assert_eq!(game.current_mover(), PLAYER_ONE);
}

#[test]
fn drawing_twice_is_refused() {
    let mut game = BorderPatrol::new();
    assert!(game.set_line(0, PLAYER_ONE).is_ok());
    let layout = game.board().layout();
    assert_eq!(game.set_line(0, PLAYER_TWO), Err(InvalidMove::AlreadyDrawn));
    assert_eq!(game.set_line(0, PLAYER_ONE), Err(InvalidMove::AlreadyDrawn));
    assert_eq!(game.set_line_by(1, 0, TOP, PLAYER_TWO), Err(InvalidMove::AlreadyDrawn));
    assert_eq!(game.board().layout(), layout);
    assert_eq!(game.current_mover(), PLAYER_TWO);
    assert_eq!(game.scores(), (0, 0));
}

#[test]
fn moves_off_the_board_are_refused() {
    let mut game = BorderPatrol::new();
    let layout = game.board().layout();
    assert_eq!(game.set_line(200, PLAYER_ONE), Err(InvalidMove::OutOfRange));
    assert_eq!(game.set_line(usize::MAX, PLAYER_ONE), Err(InvalidMove::OutOfRange));
    assert_eq!(game.set_line_by(10, 0, BOTTOM, PLAYER_ONE), Err(InvalidMove::OutOfRange));
    assert_eq!(game.set_line_by(0, 10, BOTTOM, PLAYER_ONE), Err(InvalidMove::OutOfRange));
    assert_eq!(game.set_line_by(0, 0, 4, PLAYER_ONE), Err(InvalidMove::OutOfRange));
    assert_eq!(game.set_line_by(0, 0, BOTTOM, 7), Err(InvalidMove::OutOfRange));
    assert_eq!(game.set_line(0, 0), Err(InvalidMove::OutOfRange));
    assert_eq!(game.step(200), Err(InvalidMove::OutOfRange));
    assert_eq!(game.board().layout(), layout);
    assert_eq!(game.current_mover(), PLAYER_ONE);
}

#[test]
fn sides_on_the_rim_are_drawn_already() {
    let mut game = BorderPatrol::new();
    assert_eq!(game.set_line_by(0, 0, TOP, PLAYER_ONE), Err(InvalidMove::AlreadyDrawn));
    assert_eq!(game.set_line_by(0, 0, LEFT, PLAYER_ONE), Err(InvalidMove::AlreadyDrawn));
    assert_eq!(game.set_line_by(9, 9, BOTTOM, PLAYER_ONE), Err(InvalidMove::AlreadyDrawn));
    assert_eq!(game.set_line_by(9, 9, RIGHT, PLAYER_ONE), Err(InvalidMove::AlreadyDrawn));
    assert_eq!(game.set_line(199, PLAYER_ONE), Err(InvalidMove::AlreadyDrawn));
    assert_eq!(game.set_line(180, PLAYER_ONE), Err(InvalidMove::AlreadyDrawn));
    assert_eq!(game.set_line(19, PLAYER_ONE), Err(InvalidMove::AlreadyDrawn));
    assert_eq!(game.current_mover(), PLAYER_ONE);
}

#[test]
fn new_game_offers_the_shared_lines_only() {
    let game = BorderPatrol::new();
    let moves = game.legal_moves();
    assert_eq!(moves.len(), 180);
    for pair in moves.windows(2) {
        assert!(pair[0] < pair[1]);
    }
    for id in 0..200 {
        let (row, col, side) = decode(id).unwrap();
        let shared = neighbour(row, col, side).is_some();
        assert_eq!(moves.contains(&id), shared);
        assert_eq!(game.is_possible(id), shared);
    }
    assert!(!game.is_possible(200));
}

#[test]
fn legal_moves_shrink_by_one_per_move() {
    let mut game = BorderPatrol::new();
    game.set_line(0, PLAYER_ONE).unwrap();
    let moves = game.legal_moves();
    assert_eq!(moves.len(), 179);
    assert!(!moves.contains(&0));
    assert!(moves.contains(&1));
    assert!(!game.is_possible(0));
    game.set_line_by(0, 1, LEFT, PLAYER_TWO).unwrap();
    assert_eq!(game.legal_moves().len(), 178);
    assert!(!game.is_possible(1));
}

#[test]
fn step_moves_for_the_player_to_move() {
    let mut game = BorderPatrol::new();
    let outcome = game.step(0).unwrap();
    assert_eq!(outcome.owner, PLAYER_ONE);
    assert_eq!(outcome.turn, PLAYER_TWO);
    assert!(game.board().edge_drawn(0, 0, BOTTOM, PLAYER_ONE));
    let outcome = game.step(1).unwrap();
    assert_eq!(outcome.owner, PLAYER_TWO);
    assert_eq!(outcome.first, Some((0, 0)));
    assert_eq!(outcome.turn, PLAYER_TWO);
    assert!(game.board().edge_drawn(0, 0, RIGHT, PLAYER_TWO));
    assert_eq!(game.scores(), (0, 1));
    assert_eq!(game.step(1), Err(InvalidMove::AlreadyDrawn));
    let outcome = game.step(2).unwrap();
    assert_eq!(outcome.owner, PLAYER_TWO);
    assert_eq!(game.current_mover(), PLAYER_ONE);
}

#[test]
fn scores_add_up_to_the_complete_boxes() {
    let mut game = BorderPatrol::new();
    assert_eq!(complete_boxes(&game), 0);
    let mut id = 0;
    while game.is_finished().is_none() {
        let _ = game.step(id);
        let (one, two) = game.scores();
        assert_eq!(one as usize + two as usize, complete_boxes(&game));
        assert!(one as usize + two as usize <= 100);
        id += 1;
    }
    let (one, two) = game.scores();
    assert!(one > 50 || two > 50);
}

#[test]
fn every_complete_box_has_an_owner() {
    let mut game = BorderPatrol::new();
    for id in (0..200).rev() {
        let before = game.current_mover();
        let was: Vec<bool> =
            (0..100).map(|i| game.board().is_box_complete(i / 10, i % 10)).collect();
        if game.step(id).is_ok() {
            for i in 0..100 {
                let now = game.board().is_box_complete(i / 10, i % 10);
                if now && !was[i] {
                    assert_eq!(game.box_owner(i / 10, i % 10), Some(before));
                }
                assert_eq!(now, game.box_owner(i / 10, i % 10).is_some());
            }
        }
    }
}

#[test]
fn majority_ends_the_game() {
    let mut game = BorderPatrol::new();
    let mut last = None;
    for id in 0..200 {
        match game.set_line(id, PLAYER_ONE) {
            Ok(outcome) => {
                last = Some(outcome);
                if outcome.finished {
                    break;
                }
            },
            Err(e) => assert_eq!(e, InvalidMove::AlreadyDrawn),
        }
    }
    let last = last.unwrap();
    assert!(last.finished);
    assert_eq!(game.scores(), (51, 0));
    assert_eq!(game.is_finished(), Some(Verdict::PlayerOneWon));
    assert!(game.game_info().finished());
    assert_eq!(game.game_info().verdict(), Some(Verdict::PlayerOneWon));
    assert_eq!(complete_boxes(&game), 51);
    let layout = game.board().layout();
    assert_eq!(game.set_line(199, PLAYER_ONE), Err(InvalidMove::GameOver));
    assert_eq!(game.set_line(0, PLAYER_TWO), Err(InvalidMove::GameOver));
    assert_eq!(game.set_line(500, PLAYER_TWO), Err(InvalidMove::GameOver));
    assert_eq!(game.set_line_by(9, 8, RIGHT, PLAYER_TWO), Err(InvalidMove::GameOver));
    assert_eq!(game.set_line_by(0, 0, 9, 0), Err(InvalidMove::GameOver));
    assert_eq!(game.step(198), Err(InvalidMove::GameOver));
    assert_eq!(game.board().layout(), layout);
    assert_eq!(game.scores(), (51, 0));
    assert!(game.legal_moves().is_empty());
    assert!(!game.is_possible(197));
}

#[test]
fn player_two_can_win() {
    let mut game = BorderPatrol::new();
    for id in 0..200 {
        if game.set_line(id, PLAYER_TWO).map(|o| o.finished).unwrap_or(false) {
            break;
        }
    }
    assert_eq!(game.scores(), (0, 51));
    assert_eq!(game.is_finished(), Some(Verdict::PlayerTwoWon));
}

#[test]
fn fifty_each_is_a_draw() {
    let mut game = drawn_game();
    assert_eq!(game.scores(), (40, 40));
    assert_eq!(game.is_finished(), None);
    for col in 0..5 {
        let outcome = game.set_line_by(4, col, BOTTOM, PLAYER_ONE).unwrap();
        assert_eq!(outcome.captured(), 2);
        assert_eq!(outcome.first, Some((4, col)));
        assert_eq!(outcome.second, Some((5, col)));
        assert!(!outcome.finished);
    }
    assert_eq!(game.scores(), (50, 40));
    assert_eq!(game.is_finished(), None);
    for col in 5..10 {
        let outcome = game.set_line_by(5, col, TOP, PLAYER_TWO).unwrap();
        assert_eq!(outcome.captured(), 2);
        assert_eq!(outcome.first, Some((5, col)));
        assert_eq!(outcome.second, Some((4, col)));
        assert_eq!(outcome.finished, col == 9);
    }
    assert_eq!(game.scores(), (50, 50));
    assert_eq!(game.is_finished(), Some(Verdict::Draw));
    assert_eq!(complete_boxes(&game), 100);
    assert!(game.legal_moves().is_empty());
    assert_eq!(game.step(0), Err(InvalidMove::GameOver));
}

#[test]
fn either_address_leads_to_the_same_game() {
    let mut one = BorderPatrol::new();
    let mut two = BorderPatrol::new();
    one.set_line_by(0, 0, BOTTOM, PLAYER_ONE).unwrap();
    two.set_line_by(1, 0, TOP, PLAYER_ONE).unwrap();
    assert_eq!(one.board().layout(), two.board().layout());
    one.set_line_by(0, 0, RIGHT, PLAYER_TWO).unwrap();
    two.set_line_by(0, 1, LEFT, PLAYER_TWO).unwrap();
    assert_eq!(one.board().layout(), two.board().layout());
    assert_eq!(one.scores(), two.scores());
    assert_eq!(one.current_mover(), two.current_mover());
    assert_eq!(one.box_owner(0, 0), Some(PLAYER_TWO));
    assert_eq!(two.box_owner(0, 0), Some(PLAYER_TWO));
    for player in [PLAYER_ONE, PLAYER_TWO] {
        assert_eq!(
            one.board().edge_drawn(0, 0, RIGHT, player),
            one.board().edge_drawn(0, 1, LEFT, player)
        );
        assert_eq!(
            one.board().edge_drawn(0, 0, BOTTOM, player),
            one.board().edge_drawn(1, 0, TOP, player)
        );
    }
}

#[test]
fn turn_passes_unless_a_box_was_captured() {
    let mut game = BorderPatrol::new();
    let mut captures = 0;
    let mut passes = 0;
    for id in 0..200 {
        let mover = game.current_mover();
        if let Ok(outcome) = game.step(id) {
            assert_eq!(outcome.owner, mover);
            assert_eq!(outcome.turn, game.current_mover());
            if outcome.captured() == 0 {
                assert_ne!(game.current_mover(), mover);
                passes += 1;
            } else {
                assert_eq!(game.current_mover(), mover);
                captures += 1;
            }
        }
    }
    assert!(captures > 0);
    assert!(passes > 0);
}

#[test]
fn out_of_turn_move_hands_the_turn_to_the_other_player() {
    let mut game = BorderPatrol::new();
    assert_eq!(game.current_mover(), PLAYER_ONE);
    let outcome = game.set_line(0, PLAYER_TWO).unwrap();
    assert_eq!(outcome.owner, PLAYER_TWO);
    assert_eq!(outcome.turn, PLAYER_ONE);
    assert_eq!(game.current_mover(), PLAYER_ONE);
    assert!(game.board().edge_drawn(0, 0, BOTTOM, PLAYER_TWO));
    let outcome = game.set_line(1, PLAYER_TWO).unwrap();
    assert_eq!(outcome.captured(), 1);
    assert_eq!(game.current_mover(), PLAYER_TWO);
    assert_eq!(game.scores(), (0, 1));
}
