//! Squares, pieces, the board, and the binary encoding of pieces and boards.

use crate::error::{EncodingError, MoveError, SquareNameError};
use vstd::prelude::*;
use vstd::string::{StrSliceExecFns, StringExecFns};

verus! {

/// Number of rows and of columns.
pub const BOARD_DIMENSION: usize = 9;

/// Number of squares.
pub const BOARD_SIZE: usize = 81;

/// Side of a piece, and side to move.
#[derive(Clone, Copy, Debug, PartialEq, Eq, Structural)]
pub enum Color {
    White,
    Black,
}

/// A square, by column `x` and row `y`; row 0 is Black's home row.
#[derive(Clone, Copy, Debug, PartialEq, Eq, Structural)]
pub struct Position {
    pub x: usize,
    pub y: usize,
}

/// The letter of column `x`: `A` to `I`.
pub open spec fn column_letter(x: int) -> char {
    ((65 + x) as u8) as char
}

/// The digit of row `y`: `9` for row 0 down to `1` for row 8.
pub open spec fn row_digit(y: int) -> char {
    ((57 - y) as u8) as char
}

fn column_name(x: usize) -> (r: &'static str)
    requires
        x < 9,
    ensures
        r@ == seq![column_letter(x as int)],
{
    match x {
        0 => {
            proof {
                reveal_strlit("A");
            }
            "A"
        },
        1 => {
            proof {
                reveal_strlit("B");
            }
            "B"
        },
        2 => {
            proof {
                reveal_strlit("C");
            }
            "C"
        },
        3 => {
            proof {
                reveal_strlit("D");
            }
            "D"
        },
        4 => {
            proof {
                reveal_strlit("E");
            }
            "E"
        },
        5 => {
            proof {
                reveal_strlit("F");
            }
            "F"
        },
        6 => {
            proof {
                reveal_strlit("G");
            }
            "G"
        },
        7 => {
            proof {
                reveal_strlit("H");
            }
            "H"
        },
        8 => {
            proof {
                reveal_strlit("I");
            }
            "I"
        },
        _ => {
            proof {
                reveal_strlit("I");
            }
            "I"
        },
    }
}

fn row_name(y: usize) -> (r: &'static str)
    requires
        y < 9,
    ensures
        r@ == seq![row_digit(y as int)],
{
    match y {
        0 => {
            proof {
                reveal_strlit("9");
            }
            "9"
        },
        1 => {
            proof {
                reveal_strlit("8");
            }
            "8"
        },
        2 => {
            proof {
                reveal_strlit("7");
            }
            "7"
        },
        3 => {
            proof {
                reveal_strlit("6");
            }
            "6"
        },
        4 => {
            proof {
                reveal_strlit("5");
            }
            "5"
        },
        5 => {
            proof {
                reveal_strlit("4");
            }
            "4"
        },
        6 => {
            proof {
                reveal_strlit("3");
            }
            "3"
        },
        7 => {
            proof {
                reveal_strlit("2");
            }
            "2"
        },
        8 => {
            proof {
                reveal_strlit("1");
            }
            "1"
        },
        _ => {
            proof {
                reveal_strlit("1");
            }
            "1"
        },
    }
}

impl Position {
    /// Both coordinates lie in `0..9`.
    pub open spec fn valid(self) -> bool {
        self.x < 9 && self.y < 9
    }

    /// The absolute index `y * 9 + x` of the square.
    pub open spec fn index(self) -> int {
        self.y * 9 + self.x
    }

    /// The square of absolute index `i`.
    pub open spec fn of_index(i: int) -> Position {
        Position { x: (i % 9) as usize, y: (i / 9) as usize }
    }

    /// True when `(x, y)` is a square of the board.
    pub open spec fn on_board(x: int, y: int) -> bool {
        0 <= x < 9 && 0 <= y < 9
    }

    pub fn new(x: usize, y: usize) -> (r: Self)
        requires
            x < 9,
            y < 9,
        ensures
            r == (Position { x, y }),
    {
        Position { x, y }
    }

    pub fn validate(x: isize, y: isize) -> (r: bool)
        ensures
            r == Self::on_board(x as int, y as int),
    {
        x >= 0 && x < BOARD_DIMENSION as isize && y >= 0 && y < BOARD_DIMENSION as isize
    }

    pub fn to_absolute(&self) -> (r: usize)
        requires
            self.valid(),
        ensures
            r == self.index(),
            r < 81,
    {
        self.y * BOARD_DIMENSION + self.x
    }

    pub fn to_u8(&self) -> (r: u8)
        requires
            self.valid(),
        ensures
            r == self.index(),
            r < 81,
    {
        self.to_absolute() as u8
    }

    pub fn from_u8(value: u8) -> (r: Self)
        requires
            value < 81,
        ensures
            r == Self::of_index(value as int),
            r.valid(),
            r.index() == value,
    {
        let x = value as usize % BOARD_DIMENSION;
        let y = value as usize / BOARD_DIMENSION;
        Position::new(x, y)
    }

    /// The square at offset `(dx, dy)`, if it lies on the board.
    pub fn get_new(&self, dx: isize, dy: isize) -> (r: Option<Self>)
        requires
            self.valid(),
        ensures
            Self::on_board(self.x + dx, self.y + dy) ==> r == Some(
                Position { x: (self.x + dx) as usize, y: (self.y + dy) as usize },
            ),
            !Self::on_board(self.x + dx, self.y + dy) ==> r is None,
    {
        if dx < -8 || dx > 8 || dy < -8 || dy > 8 {
            return None;
        }
        let new_x = self.x as isize + dx;
        let new_y = self.y as isize + dy;
        if !Self::validate(new_x, new_y) {
            return None;
        }
        Some(Position::new(new_x as usize, new_y as usize))
    }

    /// The square's name: column letter, then row number counted from the
    /// bottom (`A9` is the top-left square).
    pub fn to_string(&self) -> (r: String)
        requires
            self.valid(),
        ensures
            r@ == seq![column_letter(self.x as int), row_digit(self.y as int)],
    {
        let mut name = String::from_str(column_name(self.x));
        name.append(row_name(self.y));
        assert(name@ =~= seq![column_letter(self.x as int), row_digit(self.y as int)]);
        name
    }
}

/// The column of a letter, in either case.
pub open spec fn column_of(c: char) -> Option<int> {
    if 'A' <= c <= 'I' {
        Some(c as int - 'A' as int)
    } else if 'a' <= c <= 'i' {
        Some(c as int - 'a' as int)
    } else {
        None
    }
}

/// The square a name such as `B4` denotes: column letter, then row number
/// counted from the bottom.
pub open spec fn parse_square(name: Seq<char>) -> Result<Position, SquareNameError> {
    if name.len() != 2 {
        Err(SquareNameError::Length)
    } else {
        match column_of(name[0]) {
            None => Err(SquareNameError::Column),
            Some(x) => if '1' <= name[1] <= '9' {
                Ok(Position { x: x as usize, y: (8 - (name[1] as int - '1' as int)) as usize })
            } else {
                Err(SquareNameError::Row)
            },
        }
    }
}

/// Reads a square name such as `B4` (`A1` is the bottom-left square).
pub fn parse_position(name: &str) -> (r: Result<Position, SquareNameError>)
    ensures
        r == parse_square(name@),
        r matches Ok(p) ==> p.valid(),
{
    if name.unicode_len() != 2 {
        return Err(SquareNameError::Length);
    }
    let column = name.get_char(0);
    let x: usize = if column >= 'A' && column <= 'I' {
        (column as u32 - 'A' as u32) as usize
    } else if column >= 'a' && column <= 'i' {
        (column as u32 - 'a' as u32) as usize
    } else {
        return Err(SquareNameError::Column);
    };
    let row = name.get_char(1);
    if row < '1' || row > '9' {
        return Err(SquareNameError::Row);
    }
    let y: usize = 8 - (row as u32 - '1' as u32) as usize;
    Ok(Position { x, y })
}

/// A movement archetype. The seven ranked ones have a three-bit code `1..=7`;
/// the King has a payload of its own.
#[derive(Clone, Copy, Debug, PartialEq, Eq, Structural)]
pub enum PieceType {
    Soldier,
    Jester,
    Commander,
    Paladin,
    Guard,
    Dragon,
    Ballista,
    King,
}

/// The three-bit code of a ranked archetype (0 for the King, which has none).
pub open spec fn type_code(t: PieceType) -> u8 {
    match t {
        PieceType::Soldier => 1,
        PieceType::Jester => 2,
        PieceType::Commander => 3,
        PieceType::Paladin => 4,
        PieceType::Guard => 5,
        PieceType::Dragon => 6,
        PieceType::Ballista => 7,
        PieceType::King => 0,
    }
}

/// The ranked archetype of a three-bit code, if any.
pub open spec fn type_of_code(code: u8) -> Option<PieceType> {
    if code == 1 {
        Some(PieceType::Soldier)
    } else if code == 2 {
        Some(PieceType::Jester)
    } else if code == 3 {
        Some(PieceType::Commander)
    } else if code == 4 {
        Some(PieceType::Paladin)
    } else if code == 5 {
        Some(PieceType::Guard)
    } else if code == 6 {
        Some(PieceType::Dragon)
    } else if code == 7 {
        Some(PieceType::Ballista)
    } else {
        None
    }
}

impl PieceType {
    fn code(&self) -> (r: u8)
        ensures
            r == type_code(*self),
    {
        match self {
            PieceType::Soldier => 1,
            PieceType::Jester => 2,
            PieceType::Commander => 3,
            PieceType::Paladin => 4,
            PieceType::Guard => 5,
            PieceType::Dragon => 6,
            PieceType::Ballista => 7,
            PieceType::King => 0,
        }
    }
}

/// A single piece or a stack of two pieces of one color.
#[derive(Clone, Copy, Debug, PartialEq, Eq, Structural)]
pub struct Piece {
    pub color: Color,
    pub bottom: PieceType,
    pub top: Option<PieceType>,
}

/// The color bit of a piece byte.
pub open spec fn color_bit(c: Color) -> u8 {
    if c == Color::White {
        64
    } else {
        0
    }
}

/// The payload of the King: `0111000`.
pub const KING_PAYLOAD: u8 = 56;

/// The byte of a well-formed piece: color bit, then top code, then bottom code,
/// or the King payload.
pub open spec fn encode_piece(p: Piece) -> u8 {
    if p.bottom == PieceType::King {
        (color_bit(p.color) + KING_PAYLOAD) as u8
    } else {
        match p.top {
            Some(t) => (color_bit(p.color) + 8 * type_code(t) + type_code(p.bottom)) as u8,
            None => (color_bit(p.color) + type_code(p.bottom)) as u8,
        }
    }
}

/// The byte of a square: 0 when empty.
pub open spec fn encode_square(s: Option<Piece>) -> u8 {
    match s {
        Some(p) => encode_piece(p),
        None => 0,
    }
}

/// What a square byte decodes to: bit 6 gives the color, the six low bits the
/// payload, made of a top code and a bottom code of three bits each.
pub open spec fn decode_square(value: u8) -> Result<Option<Piece>, EncodingError> {
    let color = if value / 64 == 1 {
        Color::White
    } else {
        Color::Black
    };
    let payload = value % 64;
    let upper = payload / 8;
    let lower = payload % 8;
    if value == 0 {
        Ok(None)
    } else if payload == KING_PAYLOAD {
        Ok(Some(Piece { color, bottom: PieceType::King, top: None }))
    } else if lower == 0 {
        Err(EncodingError::InvalidPiece { value })
    } else if upper == 0 {
        Ok(Some(Piece { color, bottom: type_of_code(lower).unwrap(), top: None }))
    } else {
        Ok(
            Some(
                Piece {
                    color,
                    bottom: type_of_code(lower).unwrap(),
                    top: Some(type_of_code(upper).unwrap()),
                },
            ),
        )
    }
}

impl Piece {
    /// A King carries no top piece, and no King is ever a top piece.
    pub open spec fn wf(self) -> bool {
        &&& (self.bottom == PieceType::King ==> self.top is None)
        &&& self.top != Some(PieceType::King)
    }

    /// The King, or a piece that already carries a top piece, cannot receive one.
    pub open spec fn stackable(self) -> bool {
        self.bottom != PieceType::King && self.top is None
    }

    pub fn new(color: Color, bottom: PieceType, top: Option<PieceType>) -> (r: Self)
        requires
            (Piece { color, bottom, top }).wf(),
        ensures
            r == (Piece { color, bottom, top }),
    {
        Piece { color, bottom, top }
    }

    pub fn is_stackable(&self) -> (r: bool)
        ensures
            r == self.stackable(),
    {
        if self.bottom == PieceType::King {
            return false;
        }
        self.top.is_none()
    }

    pub fn to_u8(&self) -> (r: u8)
        requires
            self.wf(),
        ensures
            r == encode_piece(*self),
    {
        let color_bit: u8 = match self.color {
            Color::White => 64,
            Color::Black => 0,
        };
        if self.bottom == PieceType::King {
            return color_bit + KING_PAYLOAD;
        }
        let bottom_code = self.bottom.code();
        match self.top {
            Some(top_type) => color_bit + 8 * top_type.code() + bottom_code,
            None => color_bit + bottom_code,
        }
    }

    /// Decodes a square byte; an invalid payload is an error, never a panic.
    pub fn from_u8(value: u8) -> (r: Result<Option<Piece>, EncodingError>)
        ensures
            r == decode_square(value),
            r matches Ok(Some(p)) ==> p.wf(),
    {
        if value == 0 {
            return Ok(None);
        }
        let color = if value / 64 == 1 {
            Color::White
        } else {
            Color::Black
        };
        let payload = value % 64;
        if payload == KING_PAYLOAD {
            return Ok(Some(Piece { color, bottom: PieceType::King, top: None }));
        }
        let upper = payload / 8;
        let lower = payload % 8;
        let bottom = match Self::code_to_piece_type(lower) {
            Some(t) => t,
            None => return Err(EncodingError::InvalidPiece { value }),
        };
        if upper == 0 {
            Ok(Some(Piece { color, bottom, top: None }))
        } else {
            match Self::code_to_piece_type(upper) {
                Some(t) => Ok(Some(Piece { color, bottom, top: Some(t) })),
                None => Err(EncodingError::InvalidPiece { value }),
            }
        }
    }

    /// The ranked archetype of a three-bit code.
    fn code_to_piece_type(code: u8) -> (r: Option<PieceType>)
        ensures
            r == type_of_code(code),
    {
        match code {
            1 => Some(PieceType::Soldier),
            2 => Some(PieceType::Jester),
            3 => Some(PieceType::Commander),
            4 => Some(PieceType::Paladin),
            5 => Some(PieceType::Guard),
            6 => Some(PieceType::Dragon),
            7 => Some(PieceType::Ballista),
            _ => None,
        }
    }
}

/// Every well-formed piece decodes back from its byte.
pub proof fn lemma_piece_round_trip(p: Piece)
    requires
        p.wf(),
    ensures
        decode_square(encode_piece(p)) == Ok::<Option<Piece>, EncodingError>(Some(p)),
        encode_piece(p) != 0,
{
}


/// The home row layout of one side, in the order of Black's squares `0..27`.
pub open spec fn home_setup(i: int) -> Option<PieceType> {
    if i == 0 || i == 8 {
        Some(PieceType::Ballista)
    } else if i == 1 || i == 7 {
        Some(PieceType::Dragon)
    } else if i == 2 || i == 6 {
        Some(PieceType::Paladin)
    } else if i == 3 || i == 5 {
        Some(PieceType::Guard)
    } else if i == 4 {
        Some(PieceType::King)
    } else if i == 11 {
        Some(PieceType::Commander)
    } else if i == 15 {
        Some(PieceType::Jester)
    } else if 18 <= i < 27 {
        Some(PieceType::Soldier)
    } else {
        None
    }
}

/// The square `i` of the starting position: Black's three home rows, and
/// White's, mirrored through the centre.
pub open spec fn initial_square(i: int) -> Option<Piece> {
    if 0 <= i < 27 {
        match home_setup(i) {
            Some(t) => Some(Piece { color: Color::Black, bottom: t, top: None }),
            None => None,
        }
    } else if 54 <= i < 81 {
        match home_setup(80 - i) {
            Some(t) => Some(Piece { color: Color::White, bottom: t, top: None }),
            None => None,
        }
    } else {
        None
    }
}

fn home_setup_at(i: usize) -> (r: Option<PieceType>)
    requires
        i < 27,
    ensures
        r == home_setup(i as int),
{
    if i == 0 || i == 8 {
        Some(PieceType::Ballista)
    } else if i == 1 || i == 7 {
        Some(PieceType::Dragon)
    } else if i == 2 || i == 6 {
        Some(PieceType::Paladin)
    } else if i == 3 || i == 5 {
        Some(PieceType::Guard)
    } else if i == 4 {
        Some(PieceType::King)
    } else if i == 11 {
        Some(PieceType::Commander)
    } else if i == 15 {
        Some(PieceType::Jester)
    } else if i >= 18 {
        Some(PieceType::Soldier)
    } else {
        None
    }
}

/// An empty square, or a well-formed piece.
pub open spec fn square_wf(s: Option<Piece>) -> bool {
    s matches Some(p) ==> p.wf()
}

/// The 82-byte encoding of a board's squares and turn.
pub open spec fn encode_board(cells: Seq<Option<Piece>>, white_to_move: bool) -> Seq<u8> {
    Seq::new(82, |i: int| if i < 81 { encode_square(cells[i]) } else if white_to_move { 1u8 } else { 0u8 })
}

/// Every square byte of an 82-byte string decodes.
pub open spec fn board_bytes_valid(bytes: Seq<u8>) -> bool {
    &&& bytes.len() == 82
    &&& forall|i: int| 0 <= i < 81 ==> square_decodes(#[trigger] bytes[i])
}

/// The byte is a valid square encoding.
pub open spec fn square_decodes(value: u8) -> bool {
    decode_square(value) is Ok
}

/// `e` names the first square of `bytes` that does not decode.
pub open spec fn reports_first_invalid(bytes: Seq<u8>, e: EncodingError) -> bool {
    match e {
        EncodingError::InvalidSquare { index, value } => {
            &&& index < 81
            &&& value == bytes[index as int]
            &&& !square_decodes(value)
            &&& forall|j: int| 0 <= j < index ==> square_decodes(#[trigger] bytes[j])
        },
        EncodingError::InvalidPiece { .. } => false,
    }
}

/// The square that a byte decodes to (empty for an invalid byte).
pub open spec fn decoded_square(value: u8) -> Option<Piece> {
    match decode_square(value) {
        Ok(s) => s,
        Err(_) => None,
    }
}

/// What is stacked where `moving` comes onto the friendly `existing` piece.
pub open spec fn stack_result(existing: Piece, moving: Piece) -> Result<Piece, MoveError> {
    if !existing.stackable() {
        Err(MoveError::NotStackable)
    } else if existing.color != moving.color {
        Err(MoveError::ColorMismatch)
    } else if moving.top is Some {
        Err(MoveError::AlreadyStacked)
    } else if moving.bottom == PieceType::King {
        Err(MoveError::KingOnTop)
    } else {
        Ok(Piece { color: existing.color, bottom: existing.bottom, top: Some(moving.bottom) })
    }
}

/// The 81 squares, whose turn it is, and whether a King has been captured.
#[derive(Clone, Copy, Debug, PartialEq, Eq)]
pub struct Board {
    data: [Option<Piece>; BOARD_SIZE],
    white_to_move: bool,
    game_over: bool,
}

impl Board {
    #[verifier::type_invariant]
    spec fn inv(self) -> bool {
        forall|i: int| 0 <= i < 81 ==> square_wf(#[trigger] self.data@[i])
    }

    /// The squares, by absolute index.
    pub closed spec fn cells(self) -> Seq<Option<Piece>> {
        self.data@
    }

    /// True when White is to move.
    pub closed spec fn white_turn(self) -> bool {
        self.white_to_move
    }

    /// True once a King has been captured.
    pub closed spec fn over(self) -> bool {
        self.game_over
    }

    /// Every square is empty or holds a well-formed piece.
    pub open spec fn wf(self) -> bool {
        &&& self.cells().len() == 81
        &&& forall|i: int| 0 <= i < 81 ==> square_wf(#[trigger] self.cells()[i])
    }

    /// The side to move.
    pub open spec fn mover(self) -> Color {
        if self.white_turn() {
            Color::White
        } else {
            Color::Black
        }
    }

    /// This board is what the 82 bytes decode to.
    pub open spec fn decoded_from(self, bytes: Seq<u8>) -> bool {
        &&& self.cells() == Seq::new(81, |i: int| decoded_square(bytes[i]))
        &&& self.white_turn() == (bytes[81] == 1)
        &&& !self.over()
    }

    /// Two boards with the same squares, turn and game state are equal.
    pub proof fn lemma_ext_equal(a: Board, b: Board)
        requires
            a.cells() == b.cells(),
            a.white_turn() == b.white_turn(),
            a.over() == b.over(),
        ensures
            a == b,
    {
        assert(a.data =~= b.data);
    }

    /// A byte string decodes to at most one board.
    pub proof fn lemma_decoded_unique(a: Board, b: Board, bytes: Seq<u8>)
        requires
            a.decoded_from(bytes),
            b.decoded_from(bytes),
        ensures
            a == b,
    {
        Board::lemma_ext_equal(a, b);
    }

    /// The starting position, White to move.
    pub fn new() -> (r: Self)
        ensures
            r.wf(),
            r.cells() == Seq::new(81, |i: int| initial_square(i)),
            r.white_turn(),
            !r.over(),
    {
        let mut data: [Option<Piece>; BOARD_SIZE] = [None; BOARD_SIZE];
        let mut i: usize = 0;
        while i < 27
            invariant
                0 <= i <= 27,
                forall|j: int|
                    0 <= j < 81 ==> #[trigger] data@[j] == (if j < i || j > 80 - i {
                        initial_square(j)
                    } else {
                        None
                    }),
            decreases 27 - i,
        {
            match home_setup_at(i) {
                Some(t) => {
                    data[i] = Some(Piece { color: Color::Black, bottom: t, top: None });
                    data[BOARD_SIZE - i - 1] = Some(Piece { color: Color::White, bottom: t, top: None });
                },
                None => {},
            }
            i = i + 1;
        }
        let r = Board { data, white_to_move: true, game_over: false };
        assert(r.data@ =~= Seq::new(81, |i: int| initial_square(i)));
        r
    }

    pub fn is_white_to_move(&self) -> (r: bool)
        ensures
            r == self.white_turn(),
    {
        self.white_to_move
    }

    pub fn set_white_to_move(&mut self, white_to_move: bool)
        ensures
            final(self).cells() == old(self).cells(),
            final(self).white_turn() == white_to_move,
            final(self).over() == old(self).over(),
            old(self).wf() && final(self).wf(),
    {
        proof {
            use_type_invariant(&*self);
        }
        self.white_to_move = white_to_move;
    }

    pub fn is_game_over(&self) -> (r: bool)
        ensures
            r == self.over(),
    {
        self.game_over
    }

    pub fn set_game_over(&mut self, game_over: bool)
        ensures
            final(self).cells() == old(self).cells(),
            final(self).white_turn() == old(self).white_turn(),
            final(self).over() == game_over,
            old(self).wf() && final(self).wf(),
    {
        proof {
            use_type_invariant(&*self);
        }
        self.game_over = game_over;
    }

    pub fn color_to_move(&self) -> (r: Color)
        ensures
            r == self.mover(),
    {
        if self.white_to_move {
            Color::White
        } else {
            Color::Black
        }
    }

    pub fn get_piece(&self, position: &Position) -> (r: Option<&Piece>)
        requires
            position.valid(),
        ensures
            self.wf(),
            match r {
                Some(p) => self.cells()[position.index()] == Some(*p),
                None => self.cells()[position.index()] is None,
            },
    {
        proof {
            use_type_invariant(self);
        }
        match &self.data[position.to_absolute()] {
            Some(p) => Some(p),
            None => None,
        }
    }

    pub fn set_piece(&mut self, position: &Position, piece: Option<Piece>)
        requires
            position.valid(),
            square_wf(piece),
        ensures
            final(self).cells() == old(self).cells().update(position.index(), piece),
            final(self).white_turn() == old(self).white_turn(),
            final(self).over() == old(self).over(),
            old(self).wf() && final(self).wf(),
    {
        proof {
            use_type_invariant(&*self);
        }
        self.data[position.to_absolute()] = piece;
    }

    /// Lifts the top piece off the stack at `position`, leaving the bottom
    /// piece there, and returns the lifted piece.
    pub fn unstack_piece(&mut self, position: &Position) -> (r: Result<Piece, MoveError>)
        requires
            position.valid(),
        ensures
            old(self).wf() && final(self).wf(),
            r matches Ok(p) ==> p.wf(),
            match old(self).cells()[position.index()] {
                None => r == Err::<Piece, MoveError>(MoveError::NoPiece) && *final(self)
                    == *old(self),
                Some(p) => match p.top {
                    None => r == Err::<Piece, MoveError>(MoveError::NoTopPiece) && *final(self)
                        == *old(self),
                    Some(t) => {
                        &&& r == Ok::<Piece, MoveError>(
                            Piece { color: p.color, bottom: t, top: None },
                        )
                        &&& final(self).cells() == old(self).cells().update(
                            position.index(),
                            Some(Piece { color: p.color, bottom: p.bottom, top: None }),
                        )
                        &&& final(self).white_turn() == old(self).white_turn()
                        &&& final(self).over() == old(self).over()
                    },
                },
            },
    {
        let piece = match self.get_piece(position) {
            Some(p) => *p,
            None => return Err(MoveError::NoPiece),
        };
        let top = match piece.top {
            Some(t) => t,
            None => return Err(MoveError::NoTopPiece),
        };
        let bottom_piece = Piece { color: piece.color, bottom: piece.bottom, top: None };
        self.set_piece(position, Some(bottom_piece));
        Ok(Piece { color: piece.color, bottom: top, top: None })
    }

    /// Puts `moving_piece` on top of the friendly piece at `position`.
    pub fn stack_piece(&mut self, position: &Position, moving_piece: Piece) -> (r: Result<
        (),
        MoveError,
    >)
        requires
            position.valid(),
            moving_piece.wf(),
        ensures
            old(self).wf() && final(self).wf(),
            match old(self).cells()[position.index()] {
                None => r == Err::<(), MoveError>(MoveError::NoPiece) && *final(self) == *old(self),
                Some(e) => match stack_result(e, moving_piece) {
                    Err(err) => r == Err::<(), MoveError>(err) && *final(self) == *old(self),
                    Ok(s) => {
                        &&& r is Ok
                        &&& final(self).cells() == old(self).cells().update(
                            position.index(),
                            Some(s),
                        )
                        &&& final(self).white_turn() == old(self).white_turn()
                        &&& final(self).over() == old(self).over()
                    },
                },
            },
    {
        let existing = match self.get_piece(position) {
            Some(p) => *p,
            None => return Err(MoveError::NoPiece),
        };
        if !existing.is_stackable() {
            return Err(MoveError::NotStackable);
        }
        if existing.color != moving_piece.color {
            return Err(MoveError::ColorMismatch);
        }
        if moving_piece.top.is_some() {
            return Err(MoveError::AlreadyStacked);
        }
        if moving_piece.bottom == PieceType::King {
            return Err(MoveError::KingOnTop);
        }
        let stacked = Piece { color: existing.color, bottom: existing.bottom, top: Some(moving_piece.bottom) };
        self.set_piece(position, Some(stacked));
        Ok(())
    }

    /// The 82-byte encoding: one byte per square, then 1 if White is to move, else 0.
    pub fn to_binary(&self) -> (r: [u8; 82])
        ensures
            self.wf(),
            r@ == encode_board(self.cells(), self.white_turn()),
    {
        proof {
            use_type_invariant(self);
        }
        let mut binary: [u8; 82] = [0u8; 82];
        let mut i: usize = 0;
        while i < BOARD_SIZE
            invariant
                i <= 81,
                binary@.len() == 82,
                forall|j: int| 0 <= j < i ==> binary@[j] == encode_square(#[trigger] self.data@[j]),
                forall|j: int| i <= j < 82 ==> binary@[j] == 0,
                forall|j: int| 0 <= j < 81 ==> square_wf(#[trigger] self.data@[j]),
            decreases 81 - i,
        {
            match &self.data[i] {
                Some(p) => {
                    binary[i] = p.to_u8();
                },
                None => {},
            }
            i = i + 1;
        }
        binary[BOARD_SIZE] = if self.white_to_move {
            1
        } else {
            0
        };
        assert(binary@ =~= encode_board(self.cells(), self.white_turn()));
        binary
    }

    /// Decodes an 82-byte board; the first square byte that is not a valid
    /// piece encoding is reported.
    pub fn from_binary(binary: [u8; 82]) -> (r: Result<Self, EncodingError>)
        ensures
            r is Ok <==> board_bytes_valid(binary@),
            r matches Ok(b) ==> b.wf() && b.decoded_from(binary@),
            r matches Err(e) ==> reports_first_invalid(binary@, e),
    {
        let mut data: [Option<Piece>; BOARD_SIZE] = [None; BOARD_SIZE];
        let mut i: usize = 0;
        while i < BOARD_SIZE
            invariant
                i <= 81,
                binary@.len() == 82,
                forall|j: int| 0 <= j < i ==> square_decodes(#[trigger] binary@[j]),
                forall|j: int| 0 <= j < i ==> #[trigger] data@[j] == decoded_square(binary@[j]),
                forall|j: int| 0 <= j < 81 ==> square_wf(#[trigger] data@[j]),
            decreases 81 - i,
        {
            match Piece::from_u8(binary[i]) {
                Ok(s) => {
                    data[i] = s;
                },
                Err(_) => {
                    return Err(EncodingError::InvalidSquare { index: i, value: binary[i] });
                },
            }
            i = i + 1;
        }
        let r = Board { data, white_to_move: binary[BOARD_SIZE] == 1, game_over: false };
        assert(r.data@ =~= Seq::new(81, |i: int| decoded_square(binary@[i])));
        Ok(r)
    }
}

/// Round trip of the board codec: a well-formed board encodes to bytes that
/// decode, to a board with the same squares and the same side to move; the
/// game-over flag, which the encoding does not hold, decodes as off, so a
/// board whose game is not over comes back exactly.
pub proof fn lemma_board_round_trip(b: Board)
    requires
        b.wf(),
    ensures
        board_bytes_valid(encode_board(b.cells(), b.white_turn())),
        forall|c: Board| #[trigger] c.decoded_from(encode_board(b.cells(), b.white_turn())) ==> {
            &&& c.cells() == b.cells()
            &&& c.white_turn() == b.white_turn()
            &&& !c.over()
            &&& (!b.over() ==> c == b)
        },
{
    let bytes = encode_board(b.cells(), b.white_turn());
    assert forall|i: int| 0 <= i < 81 implies square_decodes(#[trigger] bytes[i])
        && decoded_square(bytes[i]) == b.cells()[i] by {
        assert(square_wf(b.cells()[i]));
        if let Some(p) = b.cells()[i] {
            lemma_piece_round_trip(p);
        }
    }
    assert forall|c: Board| #[trigger] c.decoded_from(bytes) implies c.cells() == b.cells()
        && c.white_turn() == b.white_turn() && (!b.over() ==> c == b) by {
        assert(c.cells() =~= b.cells());
        if !b.over() {
            Board::lemma_ext_equal(c, b);
        }
    }
}

} // verus!
