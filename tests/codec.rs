use arx_engine::board::{parse_position, Board, Piece};
use arx_engine::game::{encoding_in_range, Game, Move, PotentialMove};
use arx_engine::{Color, EncodingError, MoveError, PieceType, Position, SquareNameError};

fn pos(i: u8) -> Position {
    Position::from_u8(i)
}

#[test]
fn board_round_trip_initial_position() {
    let board = Board::new();
    let bytes = board.to_binary();
    assert_eq!(bytes[81], 1);
    assert_eq!(bytes[4], 56);
    assert_eq!(bytes[76], 120);
    assert_eq!(bytes[0], 7);
    assert_eq!(bytes[80], 64 + 7);
    assert_eq!(Board::from_binary(bytes), Ok(board));
}

#[test]
fn board_round_trip_with_stacks_and_black_to_move() {
    let mut board = Board::from_binary([0u8; 82]).unwrap();
    board.set_piece(&pos(10), Some(Piece::new(Color::White, PieceType::Commander, Some(PieceType::Ballista))));
    board.set_piece(&pos(70), Some(Piece::new(Color::Black, PieceType::King, None)));
    board.set_piece(&pos(33), Some(Piece::new(Color::Black, PieceType::Soldier, Some(PieceType::Jester))));
    board.set_white_to_move(false);
    let bytes = board.to_binary();
    assert_eq!(bytes[10], 64 + 8 * 7 + 3);
    assert_eq!(bytes[70], 56);
    assert_eq!(bytes[33], 8 * 2 + 1);
    assert_eq!(bytes[81], 0);
    assert_eq!(Board::from_binary(bytes), Ok(board));
}

#[test]
fn piece_codes() {
    assert_eq!(Piece::new(Color::White, PieceType::Soldier, None).to_u8(), 0b1000001);
    assert_eq!(Piece::new(Color::Black, PieceType::King, None).to_u8(), 0b0111000);
    assert_eq!(
        Piece::from_u8(0b1111010),
        Ok(Some(Piece::new(Color::White, PieceType::Jester, Some(PieceType::Ballista))))
    );
    assert_eq!(Piece::from_u8(0), Ok(None));
}

#[test]
fn invalid_piece_bytes_are_errors() {
    assert_eq!(Piece::from_u8(64), Err(EncodingError::InvalidPiece { value: 64 }));
    assert_eq!(Piece::from_u8(0b0010000), Err(EncodingError::InvalidPiece { value: 16 }));
    let mut bytes = [0u8; 82];
    bytes[5] = 0b1001000;
    bytes[9] = 64;
    assert_eq!(Board::from_binary(bytes), Err(EncodingError::InvalidSquare { index: 5, value: 72 }));
    assert!(Game::from_binary(bytes).is_err());
}

#[test]
fn move_round_trip() {
    for (from, to, unstack) in [(0u8, 80u8, false), (40, 41, true), (80, 0, true), (17, 63, false)] {
        let m = Move { from: pos(from), to: pos(to), unstack };
        assert_eq!(Move::from_u16(m.to_u16()), m);
    }
    let m = Move { from: pos(3), to: pos(5), unstack: true };
    assert_eq!(m.to_u16(), 3 | (5 << 7) | (1 << 14));
}

#[test]
fn potential_move_round_trip() {
    for (from, to, unstackable, force_unstack) in
        [(0u8, 80u8, false, false), (40, 41, true, true), (80, 0, true, false), (12, 21, false, true)]
    {
        let m = PotentialMove { from: pos(from), to: pos(to), unstackable, force_unstack };
        assert_eq!(PotentialMove::from_u16(m.to_u16()), m);
    }
}

#[test]
fn to_move_refusals() {
    let plain = PotentialMove { from: pos(1), to: pos(2), unstackable: false, force_unstack: false };
    assert_eq!(plain.to_move(true), Err(MoveError::NotUnstackable));
    assert_eq!(plain.to_move(false), Ok(Move { from: pos(1), to: pos(2), unstack: false }));
    let forced = PotentialMove { from: pos(1), to: pos(2), unstackable: true, force_unstack: true };
    assert_eq!(forced.to_move(false), Err(MoveError::MustUnstack));
    assert_eq!(forced.to_move(true), Ok(Move { from: pos(1), to: pos(2), unstack: true }));
}

#[test]
fn test_potential_move_to_move_conversion() {
    let from = 0u16;
    let to = 9u16;
    let potential_move_u16 = from | (to << 7);
    let potential_move = PotentialMove::from_u16(potential_move_u16);
    let actual_move = potential_move.to_move(false).unwrap();
    let move_u16 = actual_move.to_u16();
    assert_eq!(move_u16 & 0x7F, 0, "From position should be 0");
    assert_eq!((move_u16 >> 7) & 0x7F, 9, "To position should be 9");
    assert_eq!((move_u16 >> 14) & 0x1, 0, "Unstack should be false");

    let from = 40u16;
    let to = 41u16;
    let potential_move_u16 = from | (to << 7) | (1 << 14) | (1 << 15);
    let potential_move = PotentialMove::from_u16(potential_move_u16);
    assert!(potential_move.unstackable, "unstackable should be true");
    assert!(potential_move.force_unstack, "force_unstack should be true");
    let actual_move = potential_move.to_move(true).unwrap();
    let move_u16 = actual_move.to_u16();
    assert_eq!(move_u16 & 0x7F, 40, "From position should be 40");
    assert_eq!((move_u16 >> 7) & 0x7F, 41, "To position should be 41");
    assert_eq!((move_u16 >> 14) & 0x1, 1, "Unstack should be true");

    let from = 10u16;
    let to = 20u16;
    let potential_move_u16 = from | (to << 7) | (1 << 14);
    let potential_move = PotentialMove::from_u16(potential_move_u16);
    assert!(potential_move.unstackable, "unstackable should be true");
    assert!(!potential_move.force_unstack, "force_unstack should be false");
    let actual_move = potential_move.to_move(false).unwrap();
    let move_u16 = actual_move.to_u16();
    assert_eq!(move_u16 & 0x7F, 10, "From position should be 10");
    assert_eq!((move_u16 >> 7) & 0x7F, 20, "To position should be 20");
    assert_eq!((move_u16 >> 14) & 0x1, 0, "Unstack should be false");
}

#[test]
fn position_names_and_indices() {
    assert_eq!(Position::new(0, 0).to_string(), "A9");
    assert_eq!(Position::new(8, 8).to_string(), "I1");
    assert_eq!(Position::new(1, 5).to_string(), "B4");
    assert_eq!(Position::new(4, 4).to_absolute(), 40);
    assert_eq!(Position::from_u8(80), Position::new(8, 8));
    assert_eq!(Position::new(0, 0).get_new(-1, 0), None);
    assert_eq!(Position::new(0, 0).get_new(2, 1), Some(Position::new(2, 1)));
    assert!(Position::validate(8, 0));
    assert!(!Position::validate(9, 0));
}

#[test]
fn square_names_parse() {
    assert_eq!(parse_position("A1"), Ok(Position::new(0, 8)));
    assert_eq!(parse_position("i9"), Ok(Position::new(8, 0)));
    assert_eq!(parse_position("B4"), Ok(Position::new(1, 5)));
    assert_eq!(parse_position("B"), Err(SquareNameError::Length));
    assert_eq!(parse_position("J4"), Err(SquareNameError::Column));
    assert_eq!(parse_position("B0"), Err(SquareNameError::Row));
}

#[test]
fn encoding_ranges() {
    assert!(encoding_in_range(80 | (80 << 7) | (1 << 14) | (1 << 15)));
    assert!(!encoding_in_range(81));
    assert!(!encoding_in_range(3 | (90 << 7)));
}
