use arx_engine::game::{Game, Move, PotentialMove};
use arx_engine::rendering::{display_stack, piece_to_char};
use arx_engine::{Board, Color, MoveError, Piece, PieceType, Position};

fn pos(x: usize, y: usize) -> Position {
    Position::new(x, y)
}

fn game_from(squares: &[(usize, u8)], white_to_move: bool) -> Game {
    let mut bytes = [0u8; 82];
    for &(i, v) in squares {
        bytes[i] = v;
    }
    bytes[81] = if white_to_move { 1 } else { 0 };
    Game::from_binary(bytes).unwrap()
}

#[test]
fn initial_board_offers_every_soldier_advance() {
    let game = Game::new();
    let moves = game.get_all_moves();
    assert!(!moves.is_empty());
    for x in 0..9usize {
        let from = pos(x, 6);
        for dx in [-1isize, 1] {
            let tx = x as isize + dx;
            if (0..9).contains(&tx) {
                let to = pos(tx as usize, 5);
                assert!(game.board.get_piece(&to).is_none());
                assert!(moves.iter().any(|m| m.from == from && m.to == to && !m.unstackable && !m.force_unstack));
            }
        }
    }
    assert!(moves.iter().all(|m| game.board.get_piece(&m.from).map(|p| p.color) == Some(Color::White)));
}

#[test]
fn soldier_moves_forward_diagonally() {
    let game = game_from(&[(40, 65)], true);
    let moves = game.get_moves(&pos(4, 4));
    let targets: Vec<Position> = moves.iter().map(|m| m.to).collect();
    assert_eq!(targets, vec![pos(5, 3), pos(3, 3)]);
    let black = game_from(&[(40, 1)], false);
    let targets: Vec<Position> = black.get_moves(&pos(4, 4)).iter().map(|m| m.to).collect();
    assert_eq!(targets, vec![pos(5, 5), pos(3, 5)]);
}

#[test]
fn sliding_stops_at_pieces() {
    // White Commander on E5, a White Soldier on E3, a Black Soldier on G5.
    let game = game_from(&[(40, 67), (22, 65), (42, 1)], true);
    let targets: Vec<Position> = game.get_moves(&pos(4, 4)).iter().map(|m| m.to).collect();
    assert_eq!(
        targets,
        vec![pos(5, 4), pos(6, 4), pos(4, 5), pos(4, 6), pos(4, 7), pos(4, 8), pos(3, 4), pos(2, 4), pos(1, 4), pos(0, 4), pos(4, 3), pos(4, 2)]
    );
    let stack = game.get_moves(&pos(4, 4)).into_iter().find(|m| m.to == pos(4, 2)).unwrap();
    assert!(!stack.unstackable && !stack.force_unstack);
}

#[test]
fn stack_top_moves_and_must_unstack_onto_friends() {
    // White stack Soldier under Commander on E5; a White Guard on E4.
    let game = game_from(&[(40, 64 + 8 * 3 + 1), (49, 69)], true);
    let moves = game.get_moves(&pos(4, 4));
    assert!(moves.iter().any(|m| m.to == pos(4, 3) && m.unstackable && !m.force_unstack));
    let onto = moves.iter().find(|m| m.to == pos(4, 5)).unwrap();
    assert!(onto.unstackable && onto.force_unstack);
    // The locked bottom soldier cannot stack.
    assert!(moves.iter().filter(|m| !m.unstackable).all(|m| m.to != pos(4, 5)));
}

#[test]
fn king_and_dragon_patterns() {
    let king = game_from(&[(0, 120)], true);
    assert_eq!(king.get_moves(&pos(0, 0)).len(), 3);
    let dragon = game_from(&[(40, 70)], true);
    assert_eq!(dragon.get_moves(&pos(4, 4)).len(), 8);
    let ballista = game_from(&[(76, 71)], true);
    assert_eq!(ballista.get_moves(&pos(4, 8)).len(), 8);
}

#[test]
fn capturing_the_king_ends_the_game() {
    let mut game = game_from(&[(40, 67), (4, 56), (80, 120)], true);
    let quiet = game.apply_move_copy(Move { from: pos(4, 4), to: pos(4, 3), unstack: false }).unwrap();
    assert!(!quiet.is_game_over());
    assert!(!quiet.is_white_to_move());
    game.apply_move(Move { from: pos(4, 4), to: pos(4, 0), unstack: false }).unwrap();
    assert!(game.board.is_game_over());
    assert_eq!(game.board.get_piece(&pos(4, 0)), Some(&Piece::new(Color::White, PieceType::Commander, None)));
    assert!(game.board.get_piece(&pos(4, 4)).is_none());
}

#[test]
fn capturing_other_pieces_does_not_end_the_game() {
    let mut game = game_from(&[(40, 67), (13, 1), (80, 120), (0, 56)], true);
    game.apply_move(Move { from: pos(4, 4), to: pos(4, 1), unstack: false }).unwrap();
    assert!(!game.board.is_game_over());
}

#[test]
fn stacking_and_unstacking() {
    let mut game = game_from(&[(40, 65), (32, 69)], true);
    game.apply_move(Move { from: pos(4, 4), to: pos(5, 3), unstack: false }).unwrap();
    assert_eq!(
        game.board.get_piece(&pos(5, 3)),
        Some(&Piece::new(Color::White, PieceType::Guard, Some(PieceType::Soldier)))
    );
    game.board.set_white_to_move(true);
    game.apply_move(Move { from: pos(5, 3), to: pos(4, 2), unstack: true }).unwrap();
    assert_eq!(game.board.get_piece(&pos(5, 3)), Some(&Piece::new(Color::White, PieceType::Guard, None)));
    assert_eq!(game.board.get_piece(&pos(4, 2)), Some(&Piece::new(Color::White, PieceType::Soldier, None)));
}

#[test]
fn move_errors() {
    let game = game_from(&[(40, 65 + 8 * 2), (41, 120), (50, 69 + 8), (30, 65)], true);
    let off = Move { from: Position { x: 9, y: 0 }, to: pos(0, 0), unstack: false };
    assert_eq!(game.apply_move_copy(off).unwrap_err(), MoveError::OutOfBounds);
    assert_eq!(game.apply_move_copy(Move { from: pos(0, 0), to: pos(1, 1), unstack: false }).unwrap_err(), MoveError::NoPiece);
    assert_eq!(game.apply_move_copy(Move { from: pos(5, 4), to: pos(5, 3), unstack: true }).unwrap_err(), MoveError::UnstackKing);
    assert_eq!(game.apply_move_copy(Move { from: pos(3, 3), to: pos(2, 2), unstack: true }).unwrap_err(), MoveError::NoTopPiece);
    assert_eq!(game.apply_move_copy(Move { from: pos(4, 4), to: pos(5, 4), unstack: false }).unwrap_err(), MoveError::NotStackable);
    assert_eq!(game.apply_move_copy(Move { from: pos(4, 4), to: pos(3, 3), unstack: false }).unwrap_err(), MoveError::AlreadyStacked);
    assert_eq!(game.apply_move_copy(Move { from: pos(5, 4), to: pos(3, 3), unstack: false }).unwrap_err(), MoveError::KingOnTop);
    let mut board = game.board;
    assert_eq!(board.stack_piece(&pos(3, 3), Piece::new(Color::Black, PieceType::Soldier, None)), Err(MoveError::ColorMismatch));
    assert_eq!(board.unstack_piece(&pos(0, 0)), Err(MoveError::NoPiece));
    assert_eq!(board, game.board);
}

#[test]
fn piece_letters() {
    assert_eq!(piece_to_char(&PieceType::Dragon), "D");
    assert_eq!(piece_to_char(&PieceType::King), "K");
    assert_eq!(display_stack(&Piece::new(Color::White, PieceType::Commander, Some(PieceType::Jester))), "J+C");
    assert_eq!(display_stack(&Piece::new(Color::Black, PieceType::Soldier, None)), "S");
}

#[test]
fn board_accessors() {
    let mut board = Board::new();
    assert_eq!(board.color_to_move(), Color::White);
    board.set_white_to_move(false);
    assert_eq!(board.color_to_move(), Color::Black);
    assert!(!board.is_game_over());
    board.set_game_over(true);
    assert!(board.is_game_over());
    assert!(Piece::new(Color::White, PieceType::Guard, None).is_stackable());
    assert!(!Piece::new(Color::White, PieceType::King, None).is_stackable());
    assert!(!Piece::new(Color::White, PieceType::Guard, Some(PieceType::Soldier)).is_stackable());
    let unused = PotentialMove { from: pos(0, 0), to: pos(0, 1), unstackable: false, force_unstack: false };
    assert_eq!(unused.to_u16(), 9 << 7);
}
