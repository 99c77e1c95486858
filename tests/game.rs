use connect_four::{App, Color, Command, GameState, Notice, Title, COLUMNS, ROWS};

const DRAW_MOVES: [usize; 42] = [
    0, 0, 0, 0, 0, 0, 1, 1, 1, 1, 1, 1, 2, 2, 2, 2, 2, 2, 4, 3, 3, 3, 3, 3, 3, 4, 4, 4, 4, 4, 5,
    5, 5, 5, 5, 5, 6, 6, 6, 6, 6, 6,
];

fn red_wins(app: &mut App) {
    for col in [0, 1, 0, 1, 0, 1, 0] {
        app.take_turn(col);
    }
}

#[test]
fn new_game_state() {
    let app = App::new();
    assert_eq!(app.game_state(), GameState::Playing);
    assert_eq!(app.current_player(), Color::Red);
    assert_eq!(app.title(), Title::Turn(Color::Red));
    assert_eq!(app.title().text(), "Red's turn");
    assert_eq!(app.subtitle(), Notice::Blank);
    assert_eq!(app.subtitle().text(), "");
    assert_eq!(app.selected_column(), None);
    assert!(app.board().rows().iter().all(|row| row.iter().all(|s| s.is_none())));
    assert_eq!(App::default().game_state(), GameState::Playing);
}

#[test]
fn turns_alternate_after_legal_moves() {
    let mut app = App::new();
    app.take_turn(3);
    assert_eq!(app.current_player(), Color::Yellow);
    assert_eq!(app.title().text(), "Yellow's turn");
    assert_eq!(app.board().get_slot(ROWS - 1, 3), Some(Some(Color::Red)));
    app.take_turn(3);
    assert_eq!(app.current_player(), Color::Red);
    assert_eq!(app.title(), Title::Turn(Color::Red));
    assert_eq!(app.board().get_slot(ROWS - 2, 3), Some(Some(Color::Yellow)));
}

#[test]
fn invalid_move_keeps_player() {
    let mut app = App::new();
    app.take_turn(1);
    app.take_turn(COLUMNS);
    assert_eq!(app.current_player(), Color::Yellow);
    assert_eq!(app.game_state(), GameState::Playing);
    assert_eq!(app.subtitle(), Notice::InvalidMove);
    assert_eq!(app.subtitle().text(), "invalid move, try again");
    app.take_turn(2);
    assert_eq!(app.current_player(), Color::Red);
    assert_eq!(app.subtitle(), Notice::Blank);
}

#[test]
fn full_column_keeps_player() {
    let mut app = App::new();
    for _ in 0..ROWS {
        app.take_turn(5);
    }
    let before = app.board().rows();
    assert_eq!(app.current_player(), Color::Red);
    app.take_turn(5);
    assert_eq!(app.current_player(), Color::Red);
    assert_eq!(app.subtitle(), Notice::InvalidMove);
    assert_eq!(app.board().rows(), before);
}

#[test]
fn vertical_win_completes_game() {
    let mut app = App::new();
    red_wins(&mut app);
    assert_eq!(app.game_state(), GameState::Complete);
    assert_eq!(app.title(), Title::Won(Color::Red));
    assert_eq!(app.title().text(), "Red won!");
    assert_eq!(app.subtitle().text(), "Press enter to play again");
    assert_eq!(app.current_player(), Color::Red);
}

#[test]
fn horizontal_win_by_alternating_play() {
    let mut app = App::new();
    for col in [0, 0, 1, 1, 2, 2] {
        app.take_turn(col);
        assert_eq!(app.game_state(), GameState::Playing);
    }
    app.take_turn(3);
    assert_eq!(app.board().get_winner(), Some(Color::Red));
    assert_eq!(app.title(), Title::Won(Color::Red));
    assert_eq!(app.game_state(), GameState::Complete);
}

#[test]
fn yellow_win_is_reported() {
    let mut app = App::new();
    for col in [0, 1, 0, 1, 0, 1, 6, 1] {
        app.take_turn(col);
    }
    assert_eq!(app.title(), Title::Won(Color::Yellow));
    assert_eq!(app.title().text(), "Yellow won!");
    assert_eq!(app.current_player(), Color::Yellow);
}

#[test]
fn no_moves_once_complete() {
    let mut app = App::new();
    red_wins(&mut app);
    let before = app.board().rows();
    app.take_turn(4);
    assert_eq!(app.board().rows(), before);
    assert_eq!(app.game_state(), GameState::Complete);
}

#[test]
fn drawn_game_completes() {
    let mut app = App::new();
    for (k, &col) in DRAW_MOVES.iter().enumerate() {
        assert_eq!(app.game_state(), GameState::Playing);
        let expected = if k % 2 == 0 { Color::Red } else { Color::Yellow };
        assert_eq!(app.current_player(), expected);
        app.take_turn(col);
    }
    assert!(app.board().is_full());
    assert_eq!(app.board().get_winner(), None);
    assert_eq!(app.title(), Title::Draw);
    assert_eq!(app.title().text(), "Draw");
    assert_eq!(app.subtitle(), Notice::PlayAgain);
    assert_eq!(app.game_state(), GameState::Complete);
}

#[test]
fn restart_after_complete() {
    let mut app = App::new();
    red_wins(&mut app);
    app.restart();
    assert_eq!(app.game_state(), GameState::Playing);
    assert_eq!(app.current_player(), Color::Red);
    assert_eq!(app.title(), Title::Turn(Color::Red));
    assert_eq!(app.subtitle(), Notice::Blank);
    assert!(app.board().rows().iter().all(|row| row.iter().all(|s| s.is_none())));
}

#[test]
fn restart_while_playing_changes_nothing() {
    let mut app = App::new();
    app.take_turn(2);
    app.restart();
    assert_eq!(app.current_player(), Color::Yellow);
    assert_eq!(app.board().get_slot(ROWS - 1, 2), Some(Some(Color::Red)));
}

#[test]
fn exit_from_any_state() {
    let mut app = App::new();
    app.exit();
    assert_eq!(app.game_state(), GameState::Exit);
    let mut app = App::new();
    red_wins(&mut app);
    app.exit();
    assert_eq!(app.game_state(), GameState::Exit);
    app.restart();
    app.take_turn(3);
    assert_eq!(app.game_state(), GameState::Exit);
}

#[test]
fn selection_moves_and_clamps() {
    let mut app = App::new();
    app.increment_selection();
    assert_eq!(app.selected_column(), Some(6));
    app.increment_selection();
    assert_eq!(app.selected_column(), Some(6));
    app.decrement_selection();
    assert_eq!(app.selected_column(), Some(5));
    let mut app = App::new();
    app.decrement_selection();
    assert_eq!(app.selected_column(), Some(0));
    app.decrement_selection();
    assert_eq!(app.selected_column(), Some(0));
    app.increment_selection();
    assert_eq!(app.selected_column(), Some(1));
}

#[test]
fn commands_drive_the_game() {
    let mut app = App::new();
    app.handle_command(Command::Enter);
    assert_eq!(app.current_player(), Color::Red);
    app.handle_command(Command::Digit(4));
    assert_eq!(app.selected_column(), Some(3));
    app.handle_command(Command::Digit(0));
    assert_eq!(app.selected_column(), Some(3));
    app.handle_command(Command::Digit(8));
    assert_eq!(app.selected_column(), Some(3));
    app.handle_command(Command::Enter);
    assert_eq!(app.board().get_slot(ROWS - 1, 3), Some(Some(Color::Red)));
    assert_eq!(app.current_player(), Color::Yellow);
    app.handle_command(Command::Left);
    assert_eq!(app.selected_column(), Some(2));
    app.handle_command(Command::Right);
    app.handle_command(Command::Right);
    assert_eq!(app.selected_column(), Some(4));
    app.handle_command(Command::Quit);
    assert_eq!(app.game_state(), GameState::Exit);
    app.handle_command(Command::Enter);
    assert_eq!(app.game_state(), GameState::Exit);
}

#[test]
fn enter_after_complete_starts_new_game() {
    let mut app = App::new();
    red_wins(&mut app);
    app.handle_command(Command::Digit(2));
    assert_eq!(app.selected_column(), None);
    app.handle_command(Command::Enter);
    assert_eq!(app.game_state(), GameState::Playing);
    assert_eq!(app.current_player(), Color::Red);
    assert_eq!(app.selected_column(), None);
    assert!(app.board().rows().iter().all(|row| row.iter().all(|s| s.is_none())));
}
