use borderpatrol::engine::Game;
use borderpatrol::game::BorderPatrol;
use borderpatrol::grid::{BOTTOM, LEFT, PLAYER_ONE, PLAYER_TWO, RIGHT, TOP};
use borderpatrol::player::Player;
use borderpatrol::terminal::{number, repeat, TerminalBorderPatrol, CURSOR_PLACES};

const LINES: [&str; 12] =
    ["────", "│", "────", "│", "════", "║", "════", "║", "━━━━", "┃", "━━━━", "┃"];

fn line_display(game: &BorderPatrol, row: usize, column: usize, side: u8) -> &'static str {
    if game.board().get_bit(row, column, side + 4) {
        return LINES[(4 + side + 4) as usize];
    }
    if game.board().get_bit(row, column, side) {
        return LINES[(side + 4) as usize];
    }
    LINES[side as usize]
}

fn box_display(game: &BorderPatrol, row: usize, column: usize) -> &'static str {
    if game.board().get_bit(row, column, PLAYER_ONE) {
        return "██";
    }
    if game.board().get_bit(row, column, PLAYER_TWO) {
        return "░░";
    }
    "  "
}

fn expected_screen(game: &BorderPatrol, mark: Option<(usize, usize, u8)>) -> String {
    let shown = |row: usize, column: usize, side: u8| -> String {
        let plain = line_display(game, row, column, side);
        if mark == Some((row, column, side)) {
            if side == BOTTOM {
                let glyphs: Vec<char> = plain.chars().collect();
                format!("{}○○{}", glyphs[0], glyphs[3])
            } else {
                "○".to_owned()
            }
        } else {
            plain.to_owned()
        }
    };
    let mut content: String = format!(
        "\n\n\x1B[1m{}   Borderpatrol\n\n{}        PlayerOne     {} - {}      PlayerTwo\n",
        "\t".repeat(8),
        "\t".repeat(6),
        game.game_info().get_player_one_points(),
        game.game_info().get_player_two_points()
    );
    content.push_str(&("\t".repeat(6) + "┌" + &"────┬".repeat(9) + "────┐\n"));
    let mut len = content.len();
    for r in 0..10 {
        let mut box_row: String = "\t".repeat(6) + "│ ";
        let mut line_row: String = "\t".repeat(6) + "├";
        for c in 0..10 {
            box_row.push_str(&(box_display(game, r, c).to_owned() + " "));
            box_row.push_str(&(shown(r, c, RIGHT) + " "));
            line_row.push_str(&(shown(r, c, BOTTOM) + "┼"));
        }
        box_row.pop();
        box_row.pop();
        line_row.pop();
        content.push_str(&(box_row + "│\n"));
        len = content.len();
        content.push_str(&(line_row + "┤\n"));
    }
    content.truncate(len - 1);
    content.push_str(
        &("\n".to_owned() + &"\t".repeat(6) + "└" + &"────┴".repeat(9) + "────┘" + &"\n".repeat(9)),
    );
    content
}

struct First;

impl Player for First {
    fn init(&mut self) {}

    fn make_move(&self, _border_patrol: &BorderPatrol, legal: &Vec<usize>) -> Option<usize> {
        legal.first().copied()
    }
}

struct Stubborn;

impl Player for Stubborn {
    fn init(&mut self) {}

    fn make_move(&self, _border_patrol: &BorderPatrol, _legal: &Vec<usize>) -> Option<usize> {
        Some(199)
    }
}

struct Idle;

impl Player for Idle {
    fn init(&mut self) {}

    fn make_move(&self, _border_patrol: &BorderPatrol, _legal: &Vec<usize>) -> Option<usize> {
        None
    }
}

fn press(game: &mut TerminalBorderPatrol, keys: &str) {
    let mut content = String::new();
    for key in keys.chars() {
        game.react(&mut content, key);
    }
}

#[test]
fn repeat_writes_text_several_times() {
    assert_eq!(repeat("ab", 0), "");
    assert_eq!(repeat("ab", 1), "ab");
    assert_eq!(repeat("ab", 3), "ababab");
    assert_eq!(repeat("────┬", 2), "────┬────┬");
    assert_eq!(repeat("", 5), "");
}

#[test]
fn number_writes_decimal() {
    assert_eq!(number(0), "0");
    assert_eq!(number(7), "7");
    assert_eq!(number(10), "10");
    assert_eq!(number(42), "42");
    assert_eq!(number(99), "99");
    assert_eq!(number(100), "100");
    assert_eq!(number(205), "205");
    assert_eq!(number(255), "255");
    for n in 0..=255u8 {
        assert_eq!(number(n), n.to_string());
    }
}

#[test]
fn new_terminal_game() {
    let game = TerminalBorderPatrol::new();
    assert_eq!(game.pos(), 0);
    assert_eq!(game.orientation(), 0);
    assert_eq!(game.selected(), (0, 0, BOTTOM));
    assert!(game.wait_for_input());
    assert_eq!(game.check_victory(), None);
    assert_eq!(game.border_patrol().scores(), (0, 0));
    assert_eq!(game.border_patrol().legal_moves().len(), 180);
}

#[test]
fn screen_of_a_new_game() {
    let game = TerminalBorderPatrol::new();
    let screen = game.to_string();
    assert_eq!(screen, expected_screen(game.border_patrol(), None));
    let lines: Vec<&str> = screen.split('\n').collect();
    assert_eq!(lines[2], "\x1B[1m\t\t\t\t\t\t\t\t   Borderpatrol");
    assert_eq!(lines[4], "\t\t\t\t\t\t        PlayerOne     0 - 0      PlayerTwo");
    assert_eq!(lines[5], "\t\t\t\t\t\t┌────┬────┬────┬────┬────┬────┬────┬────┬────┬────┐");
    assert_eq!(lines[6], "\t\t\t\t\t\t│    │    │    │    │    │    │    │    │    │    │");
    assert_eq!(lines[7], "\t\t\t\t\t\t├────┼────┼────┼────┼────┼────┼────┼────┼────┼────┤");
    assert_eq!(lines[24], "\t\t\t\t\t\t│    │    │    │    │    │    │    │    │    │    │");
    assert_eq!(lines[25], "\t\t\t\t\t\t└────┴────┴────┴────┴────┴────┴────┴────┴────┴────┘");
    assert_eq!(lines.len(), 35);
    assert!(screen.ends_with("┘\n\n\n\n\n\n\n\n\n"));
}

#[test]
fn screen_shows_lines_and_boxes() {
    let mut game = TerminalBorderPatrol::new();
    press(&mut game, " f l");
    assert_eq!(game.border_patrol().scores(), (0, 1));
    press(&mut game, " ");
    let screen = game.to_string();
    assert_eq!(screen, expected_screen(game.border_patrol(), None));
    let lines: Vec<&str> = screen.split('\n').collect();
    assert_eq!(lines[4], "\t\t\t\t\t\t        PlayerOne     0 - 1      PlayerTwo");
    assert_eq!(lines[6], "\t\t\t\t\t\t│ ░░ ║    ║    │    │    │    │    │    │    │    │");
    assert_eq!(lines[7], "\t\t\t\t\t\t├━━━━┼────┼────┼────┼────┼────┼────┼────┼────┼────┤");
    assert_eq!(game.get_box_display(0, 0), "░░");
    assert_eq!(game.get_box_display(0, 1), "  ");
    assert_eq!(game.get_line_display(0, 0, BOTTOM), "━━━━");
    assert_eq!(game.get_line_display(1, 0, TOP), "━━━━");
    assert_eq!(game.get_line_display(0, 0, RIGHT), "║");
    assert_eq!(game.get_line_display(0, 1, LEFT), "║");
    assert_eq!(game.get_line_display(0, 2, RIGHT), "│");
    assert_eq!(game.get_line_display(3, 3, BOTTOM), "────");
    assert_eq!(game.get_line_display(0, 0, TOP), "━━━━");
    assert_eq!(game.get_line_display(0, 0, LEFT), "┃");
}

#[test]
fn box_of_player_one_is_filled() {
    let mut game = TerminalBorderPatrol::new();
    press(&mut game, " l");
    press(&mut game, " h");
    press(&mut game, "f ");
    assert_eq!(game.border_patrol().scores(), (1, 0));
    assert_eq!(game.get_box_display(0, 0), "██");
    assert_eq!(game.to_string(), expected_screen(game.border_patrol(), None));
}

#[test]
fn highlighted_screen_marks_the_line_under_the_cursor() {
    let mut game = TerminalBorderPatrol::new();
    assert_eq!(game.highlighted(), expected_screen(game.border_patrol(), Some((0, 0, BOTTOM))));
    let mut content = String::new();
    assert!(!game.react(&mut content, 'l'));
    assert_eq!(content, expected_screen(game.border_patrol(), Some((0, 1, BOTTOM))));
    assert_eq!(content, game.highlighted());
    let lines: Vec<&str> = content.split('\n').collect();
    assert_eq!(lines[7], "\t\t\t\t\t\t├────┼─○○─┼────┼────┼────┼────┼────┼────┼────┼────┤");
    assert!(!game.react(&mut content, 'f'));
    assert_eq!(game.selected(), (0, 1, RIGHT));
    assert_eq!(content, expected_screen(game.border_patrol(), Some((0, 1, RIGHT))));
    let lines: Vec<&str> = content.split('\n').collect();
    assert_eq!(lines[6], "\t\t\t\t\t\t│    │    ○    │    │    │    │    │    │    │    │");
    assert!(game.react(&mut content, ' '));
    assert_eq!(content, expected_screen(game.border_patrol(), None));
    assert_eq!(content, game.to_string());
    assert!(!game.react(&mut content, 'x'));
    assert_eq!(content, expected_screen(game.border_patrol(), Some((0, 1, RIGHT))));
    let lines: Vec<&str> = content.split('\n').collect();
    assert_eq!(lines[6], "\t\t\t\t\t\t│    │    ○    │    │    │    │    │    │    │    │");
    assert_eq!(game.to_string().split('\n').nth(6).unwrap(),
        "\t\t\t\t\t\t│    │    ┃    │    │    │    │    │    │    │    │");
    press(&mut game, "f");
    press(&mut game, " ");
    assert!(!game.react(&mut content, 'x'));
    let lines: Vec<&str> = content.split('\n').collect();
    assert_eq!(lines[7], "\t\t\t\t\t\t├────┼═○○═┼────┼────┼────┼────┼────┼────┼────┼────┤");
}

#[test]
fn cursor_walks_the_horizontal_lines() {
    let mut game = TerminalBorderPatrol::new();
    press(&mut game, "h");
    assert_eq!(game.pos(), 0);
    press(&mut game, "k");
    assert_eq!(game.pos(), 0);
    press(&mut game, "l");
    assert_eq!(game.pos(), 1);
    assert_eq!(game.selected(), (0, 1, BOTTOM));
    press(&mut game, "j");
    assert_eq!(game.pos(), 11);
    assert_eq!(game.selected(), (1, 1, BOTTOM));
    press(&mut game, "k");
    assert_eq!(game.pos(), 1);
    press(&mut game, "h");
    assert_eq!(game.pos(), 0);
    press(&mut game, "jjjjjjjj");
    assert_eq!(game.pos(), 80);
    assert_eq!(game.selected(), (8, 0, BOTTOM));
    press(&mut game, "j");
    assert_eq!(game.pos(), 80);
    press(&mut game, "lllllllll");
    assert_eq!(game.pos(), 89);
    assert_eq!(game.selected(), (8, 9, BOTTOM));
    press(&mut game, "l");
    assert_eq!(game.pos(), 89);
    assert_eq!(game.orientation(), 0);
    press(&mut game, "xyz\n");
    assert_eq!(game.pos(), 89);
    assert!(game.pos() < CURSOR_PLACES);
}

#[test]
fn cursor_walks_the_vertical_lines() {
    let mut game = TerminalBorderPatrol::new();
    press(&mut game, "f");
    assert_eq!(game.orientation(), 1);
    assert_eq!(game.pos(), 0);
    assert_eq!(game.selected(), (0, 0, RIGHT));
    press(&mut game, "j");
    assert_eq!(game.pos(), 9);
    assert_eq!(game.selected(), (1, 0, RIGHT));
    press(&mut game, "k");
    assert_eq!(game.pos(), 9);
    press(&mut game, "l");
    assert_eq!(game.pos(), 10);
    assert_eq!(game.selected(), (1, 1, RIGHT));
    press(&mut game, "k");
    assert_eq!(game.pos(), 1);
    assert_eq!(game.selected(), (0, 1, RIGHT));
    press(&mut game, "jjjjjjjjj");
    assert_eq!(game.pos(), 82);
    assert_eq!(game.selected(), (9, 1, RIGHT));
    press(&mut game, "j");
    assert_eq!(game.pos(), 82);
    press(&mut game, "lllllll");
    assert_eq!(game.pos(), 89);
    assert_eq!(game.selected(), (9, 8, RIGHT));
    press(&mut game, "l");
    assert_eq!(game.pos(), 89);
}

#[test]
fn cursor_turns_at_the_same_box() {
    let mut game = TerminalBorderPatrol::new();
    press(&mut game, "jjjlll");
    assert_eq!(game.selected(), (3, 3, BOTTOM));
    press(&mut game, "f");
    assert_eq!(game.orientation(), 1);
    assert_eq!(game.pos(), 30);
    assert_eq!(game.selected(), (3, 3, RIGHT));
    press(&mut game, "f");
    assert_eq!(game.orientation(), 0);
    assert_eq!(game.pos(), 33);
    assert_eq!(game.selected(), (3, 3, BOTTOM));
    let mut last_row = TerminalBorderPatrol::new();
    press(&mut last_row, "fjjjjjjjjlkjj");
    assert_eq!(last_row.pos(), 82);
    press(&mut last_row, "f");
    assert_eq!(last_row.orientation(), 0);
    assert_eq!(last_row.pos(), 81);
    assert_eq!(last_row.selected(), (8, 1, BOTTOM));
    let mut last_column = TerminalBorderPatrol::new();
    press(&mut last_column, "jjjjjjjjlllllllll");
    assert_eq!(last_column.selected(), (8, 9, BOTTOM));
    press(&mut last_column, "f");
    assert_eq!(last_column.pos(), 81);
    assert_eq!(last_column.selected(), (9, 0, RIGHT));
}

#[test]
fn space_draws_the_line_under_the_cursor() {
    let mut game = TerminalBorderPatrol::new();
    let mut content = String::new();
    assert!(game.react(&mut content, ' '));
    assert!(game.border_patrol().board().edge_drawn(0, 0, BOTTOM, PLAYER_ONE));
    assert!(game.border_patrol().board().edge_drawn(1, 0, TOP, PLAYER_ONE));
    assert_eq!(game.border_patrol().current_mover(), PLAYER_TWO);
    assert_eq!(game.pos(), 0);
    assert!(game.react(&mut content, ' '));
    assert!(!game.border_patrol().board().edge_drawn(0, 0, BOTTOM, PLAYER_TWO));
    assert_eq!(game.border_patrol().current_mover(), PLAYER_TWO);
    assert_eq!(game.border_patrol().legal_moves().len(), 179);
    press(&mut game, "f ");
    assert!(game.border_patrol().board().edge_drawn(0, 0, RIGHT, PLAYER_TWO));
    assert_eq!(game.border_patrol().box_owner(0, 0), Some(PLAYER_TWO));
    assert_eq!(game.border_patrol().current_mover(), PLAYER_TWO);
}

#[test]
fn seats_decide_who_waits_for_a_key() {
    let both = TerminalBorderPatrol::with_players(Box::new(First), Box::new(First));
    assert!(!both.wait_for_input());
    let one = TerminalBorderPatrol::with_player_one(Box::new(First));
    assert!(!one.wait_for_input());
    let mut two = TerminalBorderPatrol::with_player_two(Box::new(First));
    assert!(two.wait_for_input());
    press(&mut two, " ");
    assert!(!two.wait_for_input());
    let mut one = one;
    let mut content = String::new();
    assert!(one.update(&mut content));
    assert!(one.wait_for_input());
}

#[test]
fn update_lets_the_program_move() {
    let mut game = TerminalBorderPatrol::with_players(Box::new(First), Box::new(First));
    let mut content = String::new();
    assert!(game.update(&mut content));
    assert!(game.border_patrol().board().edge_drawn(0, 0, BOTTOM, PLAYER_ONE));
    assert_eq!(game.border_patrol().current_mover(), PLAYER_TWO);
    assert_eq!(content, game.to_string());
    assert_eq!(content, expected_screen(game.border_patrol(), None));
    assert!(game.update(&mut content));
    assert!(game.border_patrol().board().edge_drawn(0, 0, RIGHT, PLAYER_TWO));
    assert_eq!(game.border_patrol().scores(), (0, 1));
    assert_eq!(game.border_patrol().current_mover(), PLAYER_TWO);
    assert_eq!(game.pos(), 0);
    assert_eq!(game.orientation(), 0);
}

#[test]
fn update_without_a_program_changes_nothing() {
    let mut game = TerminalBorderPatrol::new();
    let mut content = String::new();
    assert!(game.update(&mut content));
    assert_eq!(game.border_patrol().legal_moves().len(), 180);
    assert_eq!(game.border_patrol().current_mover(), PLAYER_ONE);
    assert_eq!(content, game.to_string());
    let mut idle = TerminalBorderPatrol::with_player_one(Box::new(Idle));
    assert!(idle.update(&mut content));
    assert_eq!(idle.border_patrol().legal_moves().len(), 180);
    assert_eq!(idle.border_patrol().current_mover(), PLAYER_ONE);
}

#[test]
fn update_refuses_what_is_not_legal() {
    let mut game = TerminalBorderPatrol::with_player_one(Box::new(Stubborn));
    let mut content = String::new();
    assert!(game.update(&mut content));
    assert_eq!(game.border_patrol().legal_moves().len(), 180);
    assert_eq!(game.border_patrol().current_mover(), PLAYER_ONE);
    assert_eq!(game.border_patrol().scores(), (0, 0));
}

#[test]
fn programs_play_a_game_to_its_end() {
    let mut game = TerminalBorderPatrol::with_players(Box::new(First), Box::new(First));
    let mut content = String::new();
    let mut rounds = 0;
    while game.update(&mut content) {
        rounds += 1;
        assert!(rounds <= 180);
        assert_eq!(content, game.to_string());
    }
    let (one, two) = game.border_patrol().scores();
    assert!(one > 50 || two > 50 || (one == 50 && two == 50));
    let message = game.check_victory().unwrap();
    assert_eq!(content, message);
    let text = if one > 50 {
        "Player one won!"
    } else if two > 50 {
        "Player two won!"
    } else {
        "Draw!"
    };
    assert_eq!(message, "\n".repeat(20) + &"\t".repeat(8) + text);
    let moves = game.border_patrol().legal_moves().len();
    assert_eq!(moves, 0);
    assert!(!game.update(&mut content));
    assert_eq!(content, message);
}

#[test]
fn init_screen_is_the_screen() {
    let mut game = TerminalBorderPatrol::new();
    let screen = game.init_screen();
    assert_eq!(screen, game.to_string());
    assert_eq!(game.pos(), 0);
}
