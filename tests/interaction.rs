use arx_engine::tui::{App, GameState};
use arx_engine::{Color, Game, MoveError, Piece, PieceType, Position};

fn app_on(squares: &[(usize, u8)]) -> App {
    let mut bytes = [0u8; 82];
    for &(i, v) in squares {
        bytes[i] = v;
    }
    bytes[81] = 1;
    App::from_game(Game::from_binary(bytes).unwrap())
}

#[test]
fn select_and_move_a_soldier() {
    let mut app = App::new();
    for _ in 0..6 {
        app.move_cursor(0, 1);
    }
    assert_eq!(app.cursor_position(), Position::new(0, 6));
    assert_eq!(app.highlighted_moves(), &vec![Position::new(1, 5)]);
    app.handle_enter().unwrap();
    assert_eq!(app.game_state(), GameState::SelectingTarget { from: Position::new(0, 6) });
    app.move_cursor(1, -1);
    app.handle_enter().unwrap();
    assert_eq!(app.game_state(), GameState::SelectingPiece);
    assert!(!app.game().board.is_white_to_move());
    assert!(app.game().board.get_piece(&Position::new(1, 5)).is_some());
    assert!(app.highlighted_moves().is_empty());
}

#[test]
fn cursor_stays_on_the_board() {
    let mut app = App::new();
    app.move_cursor(-1, 0);
    assert_eq!(app.cursor_position(), Position::new(0, 0));
}

#[test]
fn unstack_choice_and_escape() {
    // A White stack (Soldier under Commander) on E5.
    let mut app = app_on(&[(40, 64 + 8 * 3 + 1), (80, 120), (0, 56)]);
    for _ in 0..4 {
        app.move_cursor(1, 1);
    }
    app.handle_enter().unwrap();
    app.move_cursor(0, -1);
    app.handle_enter().unwrap();
    assert_eq!(
        app.game_state(),
        GameState::ConfirmUnstack { from: Position::new(4, 4), to: Position::new(4, 3), unstack: false }
    );
    app.handle_escape();
    assert_eq!(app.game_state(), GameState::SelectingTarget { from: Position::new(4, 4) });
    app.handle_enter().unwrap();
    app.handle_unstack_confirm().unwrap();
    assert_eq!(app.game_state(), GameState::SelectingPiece);
    let board = &app.game().board;
    assert_eq!(board.get_piece(&Position::new(4, 3)), Some(&Piece::new(Color::White, PieceType::Commander, None)));
    assert_eq!(board.get_piece(&Position::new(4, 4)), Some(&Piece::new(Color::White, PieceType::Soldier, None)));
}

#[test]
fn taking_the_king_wins() {
    let mut app = app_on(&[(40, 67), (4, 56), (80, 120)]);
    for _ in 0..4 {
        app.move_cursor(1, 1);
    }
    app.handle_enter().unwrap();
    for _ in 0..4 {
        app.move_cursor(0, -1);
    }
    app.handle_enter().unwrap();
    assert_eq!(app.game_state(), GameState::GameOver { winner: Color::White });
    app.move_cursor(0, 1);
    assert_eq!(app.cursor_position(), Position::new(4, 0));
}

#[test]
fn stacked_label() {
    let app = App::new();
    assert_eq!(app.get_piece_display(&Piece::new(Color::White, PieceType::Guard, Some(PieceType::Soldier))), "S+G");
    assert_eq!(app.get_piece_display(&Piece::new(Color::Black, PieceType::King, None)), " K ");
    let _ = MoveError::NoPiece;
}
