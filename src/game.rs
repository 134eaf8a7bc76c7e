//! Moves, their 16-bit encodings, move application and legal-move generation.

use crate::board::{stack_result, Board, Color, Piece, PieceType, Position};
use crate::error::{EncodingError, MoveError};
use vstd::arithmetic::div_mod::lemma_fundamental_div_mod_converse;
use vstd::prelude::*;

verus! {

/// A candidate move, before the choice between moving a whole stack and
/// moving its top piece only.
#[derive(Clone, Copy, Debug, PartialEq, Eq, Structural)]
pub struct PotentialMove {
    pub from: Position,
    pub to: Position,
    /// The mover is the top piece of a stack, which may leave alone.
    pub unstackable: bool,
    /// Only the top piece may make this move.
    pub force_unstack: bool,
}

/// A move: the whole piece or stack on `from` goes to `to`, or, with
/// `unstack`, only its top piece.
#[derive(Clone, Copy, Debug, PartialEq, Eq, Structural)]
pub struct Move {
    pub from: Position,
    pub to: Position,
    pub unstack: bool,
}

/// 1 for true, 0 for false.
pub open spec fn bit(b: bool) -> int {
    if b {
        1
    } else {
        0
    }
}

/// `from` in bits 0..7, `to` in bits 7..14, `unstackable` at bit 14 and
/// `force_unstack` at bit 15.
pub open spec fn encode_potential_move(m: PotentialMove) -> u16 {
    (32768 * bit(m.force_unstack) + 16384 * bit(m.unstackable) + 128 * m.to.index()
        + m.from.index()) as u16
}

/// `from` in bits 0..7, `to` in bits 7..14 and `unstack` at bit 14.
pub open spec fn encode_move(m: Move) -> u16 {
    (16384 * bit(m.unstack) + 128 * m.to.index() + m.from.index()) as u16
}

/// Both seven-bit square fields of an encoding name squares of the board.
pub open spec fn squares_in_range(v: u16) -> bool {
    v % 128 < 81 && (v / 128) % 128 < 81
}

/// Tests that both square fields of an encoding name squares of the board.
pub fn encoding_in_range(v: u16) -> (r: bool)
    ensures
        r == squares_in_range(v),
{
    v % 128 < 81 && (v / 128) % 128 < 81
}

pub open spec fn decode_potential_move(v: u16) -> PotentialMove {
    PotentialMove {
        from: Position::of_index((v % 128) as int),
        to: Position::of_index(((v / 128) % 128) as int),
        unstackable: (v / 16384) % 2 == 1,
        force_unstack: v / 32768 == 1,
    }
}

pub open spec fn decode_move(v: u16) -> Move {
    Move {
        from: Position::of_index((v % 128) as int),
        to: Position::of_index(((v / 128) % 128) as int),
        unstack: (v / 16384) % 2 == 1,
    }
}

/// What `to_move` makes of a candidate.
pub open spec fn conversion(m: PotentialMove, unstack: bool) -> Result<Move, MoveError> {
    if unstack && !m.unstackable {
        Err(MoveError::NotUnstackable)
    } else if !unstack && m.force_unstack {
        Err(MoveError::MustUnstack)
    } else {
        Ok(Move { from: m.from, to: m.to, unstack })
    }
}

impl PotentialMove {
    pub open spec fn valid(self) -> bool {
        self.from.valid() && self.to.valid()
    }

    pub fn to_u16(self) -> (r: u16)
        requires
            self.valid(),
        ensures
            r == encode_potential_move(self),
    {
        let force: u16 = if self.force_unstack {
            32768
        } else {
            0
        };
        let unstackable: u16 = if self.unstackable {
            16384
        } else {
            0
        };
        force + unstackable + 128 * (self.to.to_u8() as u16) + self.from.to_u8() as u16
    }

    pub fn from_u16(v: u16) -> (r: Self)
        requires
            squares_in_range(v),
        ensures
            r == decode_potential_move(v),
            r.valid(),
    {
        PotentialMove {
            force_unstack: v / 32768 == 1,
            unstackable: (v / 16384) % 2 == 1,
            to: Position::from_u8(((v / 128) % 128) as u8),
            from: Position::from_u8((v % 128) as u8),
        }
    }

    /// The move that this candidate becomes: moving only the top piece is
    /// refused unless the candidate is `unstackable`, and moving the whole
    /// stack is refused when it is `force_unstack`.
    pub fn to_move(&self, unstack: bool) -> (r: Result<Move, MoveError>)
        ensures
            r == conversion(*self, unstack),
    {
        if unstack && !self.unstackable {
            return Err(MoveError::NotUnstackable);
        }
        if !unstack && self.force_unstack {
            return Err(MoveError::MustUnstack);
        }
        Ok(Move { from: self.from, to: self.to, unstack })
    }
}

impl Move {
    pub open spec fn valid(self) -> bool {
        self.from.valid() && self.to.valid()
    }

    pub fn to_u16(self) -> (r: u16)
        requires
            self.valid(),
        ensures
            r == encode_move(self),
    {
        let unstack: u16 = if self.unstack {
            16384
        } else {
            0
        };
        unstack + 128 * (self.to.to_u8() as u16) + self.from.to_u8() as u16
    }

    pub fn from_u16(v: u16) -> (r: Self)
        requires
            squares_in_range(v),
        ensures
            r == decode_move(v),
            r.valid(),
    {
        Move {
            unstack: (v / 16384) % 2 == 1,
            to: Position::from_u8(((v / 128) % 128) as u8),
            from: Position::from_u8((v % 128) as u8),
        }
    }
}

proof fn lemma_position_index_round_trip(p: Position)
    requires
        p.valid(),
    ensures
        Position::of_index(p.index()) == p,
{
}

/// Round trip of the candidate-move codec: every candidate between squares of
/// the board decodes back from its encoding.
pub proof fn lemma_potential_move_round_trip(m: PotentialMove)
    requires
        m.valid(),
    ensures
        squares_in_range(encode_potential_move(m)),
        decode_potential_move(encode_potential_move(m)) == m,
{
    lemma_position_index_round_trip(m.from);
    lemma_position_index_round_trip(m.to);
    lemma_fields(bit(m.force_unstack), bit(m.unstackable), m.to.index(), m.from.index());
}

/// Round trip of the move codec: every move between squares of the board
/// decodes back from its encoding.
pub proof fn lemma_move_round_trip(m: Move)
    requires
        m.valid(),
    ensures
        squares_in_range(encode_move(m)),
        decode_move(encode_move(m)) == m,
{
    lemma_position_index_round_trip(m.from);
    lemma_position_index_round_trip(m.to);
    lemma_fields(0, bit(m.unstack), m.to.index(), m.from.index());
}

/// The four fields of `32768 a + 16384 b + 128 t + f` are read back by
/// division and remainder.
proof fn lemma_fields(a: int, b: int, t: int, f: int)
    requires
        0 <= a < 2,
        0 <= b < 2,
        0 <= t < 81,
        0 <= f < 81,
    ensures
        ({
            let v = 32768 * a + 16384 * b + 128 * t + f;
            &&& 0 <= v < 65536
            &&& v % 128 == f
            &&& (v / 128) % 128 == t
            &&& (v / 16384) % 2 == b
            &&& v / 32768 == a
        }),
{
    let v = 32768 * a + 16384 * b + 128 * t + f;
    lemma_fundamental_div_mod_converse(v, 128, 256 * a + 128 * b + t, f);
    lemma_fundamental_div_mod_converse(256 * a + 128 * b + t, 128, 2 * a + b, t);
    lemma_fundamental_div_mod_converse(v, 16384, 2 * a + b, 128 * t + f);
    lemma_fundamental_div_mod_converse(2 * a + b, 2, a, b);
    lemma_fundamental_div_mod_converse(v, 32768, a, 16384 * b + 128 * t + f);
}

/// The square `from` after the mover has left it, and the mover: the top
/// piece alone when unstacking, else the whole piece or stack.
pub open spec fn lift(cells: Seq<Option<Piece>>, p: Piece, mv: Move) -> (Seq<Option<Piece>>, Piece) {
    if mv.unstack {
        (
            cells.update(mv.from.index(), Some(Piece { color: p.color, bottom: p.bottom, top: None })),
            Piece { color: p.color, bottom: p.top.unwrap(), top: None },
        )
    } else {
        (cells.update(mv.from.index(), None), p)
    }
}

/// The squares after `mv` on `b`, or the reason it cannot be made.
pub open spec fn move_outcome(b: Board, mv: Move) -> Result<Seq<Option<Piece>>, MoveError> {
    if !mv.valid() {
        Err(MoveError::OutOfBounds)
    } else {
        match b.cells()[mv.from.index()] {
            None => Err(MoveError::NoPiece),
            Some(p) => {
                if p.bottom == PieceType::King && mv.unstack {
                    Err(MoveError::UnstackKing)
                } else if mv.unstack && p.top is None {
                    Err(MoveError::NoTopPiece)
                } else {
                    let (cells, mover) = lift(b.cells(), p, mv);
                    match cells[mv.to.index()] {
                        None => Ok(cells.update(mv.to.index(), Some(mover))),
                        Some(d) => if d.color != mover.color {
                            Ok(cells.update(mv.to.index(), Some(mover)))
                        } else {
                            match stack_result(d, mover) {
                                Ok(s) => Ok(cells.update(mv.to.index(), Some(s))),
                                Err(e) => Err(e),
                            }
                        },
                    }
                }
            },
        }
    }
}

/// `mv` takes an enemy King.
pub open spec fn captures_king(b: Board, mv: Move) -> bool {
    &&& mv.valid()
    &&& b.cells()[mv.from.index()] matches Some(p)
    &&& b.cells()[mv.to.index()] matches Some(d)
    &&& d.bottom == PieceType::King
    &&& d.color != p.color
}

/// `after` is the board that `mv` makes of `b`: the squares of the outcome,
/// the other side to move, and the game over once a King has been taken.
pub open spec fn applied(b: Board, mv: Move, after: Board) -> bool {
    &&& move_outcome(b, mv) matches Ok(cells)
    &&& after.cells() == cells
    &&& after.white_turn() == !b.white_turn()
    &&& after.over() == (b.over() || captures_king(b, mv))
}

/// Every candidate joins two squares of the board.
pub open spec fn all_valid(moves: Seq<PotentialMove>) -> bool {
    forall|i: int| 0 <= i < moves.len() ==> (#[trigger] moves[i]).valid()
}

/// The forward row step of a side: White moves up the board, Black down.
pub open spec fn forward(c: Color) -> isize {
    if c == Color::White {
        -1isize
    } else {
        1isize
    }
}

pub open spec fn orthogonal() -> Seq<(isize, isize)> {
    seq![(1isize, 0isize), (0isize, 1isize), (-1isize, 0isize), (0isize, -1isize)]
}

pub open spec fn diagonal() -> Seq<(isize, isize)> {
    seq![(1isize, 1isize), (1isize, -1isize), (-1isize, -1isize), (-1isize, 1isize)]
}

pub open spec fn knight() -> Seq<(isize, isize)> {
    seq![(2isize, 1isize), (2isize, -1isize), (-2isize, 1isize), (-2isize, -1isize), (1isize, 2isize), (1isize, -2isize), (-1isize, 2isize), (-1isize, -2isize)]
}

/// The square one step `d` away from `p`, if it is on the board.
pub open spec fn step(p: Position, d: (isize, isize)) -> Option<Position> {
    if Position::on_board(p.x + d.0, p.y + d.1) {
        Some(Position { x: (p.x + d.0) as usize, y: (p.y + d.1) as usize })
    } else {
        None
    }
}

/// The candidate (if any) of a piece of `color` on `from` that reaches
/// `target`, and whether a slide goes on past `target`. An empty square is
/// a move and lets the slide go on; an enemy is a capture; a friendly
/// stackable piece is a stacking move, unless the mover is the locked bottom
/// of a stack, and it must be made by the top piece alone when the mover is one.
pub open spec fn explore(
    b: Board,
    from: Position,
    color: Color,
    target: Position,
    is_top: bool,
    has_top: bool,
) -> (Seq<PotentialMove>, bool) {
    let plain = PotentialMove { from, to: target, unstackable: is_top, force_unstack: false };
    match b.cells()[target.index()] {
        None => (seq![plain], true),
        Some(t) => if t.color != color {
            (seq![plain], false)
        } else if !is_top && has_top {
            (Seq::empty(), false)
        } else if !t.stackable() {
            (Seq::empty(), false)
        } else {
            (seq![PotentialMove { from, to: target, unstackable: is_top, force_unstack: is_top }], false)
        },
    }
}

/// The candidates of a slide from `from` in direction `d`, going on from
/// `cur` for at most `steps` more squares.
pub open spec fn ray(
    b: Board,
    from: Position,
    color: Color,
    cur: Position,
    d: (isize, isize),
    steps: nat,
    is_top: bool,
    has_top: bool,
) -> Seq<PotentialMove>
    decreases steps,
{
    if steps == 0 {
        Seq::empty()
    } else {
        match step(cur, d) {
            None => Seq::empty(),
            Some(t) => {
                let (found, go_on) = explore(b, from, color, t, is_top, has_top);
                if go_on {
                    found + ray(b, from, color, t, d, (steps - 1) as nat, is_top, has_top)
                } else {
                    found
                }
            },
        }
    }
}

/// The candidates of the slides from `from` along each of `dirs`, in order.
pub open spec fn rays(
    b: Board,
    from: Position,
    color: Color,
    dirs: Seq<(isize, isize)>,
    steps: nat,
    is_top: bool,
    has_top: bool,
) -> Seq<PotentialMove>
    decreases dirs.len(),
{
    if dirs.len() == 0 {
        Seq::empty()
    } else {
        rays(b, from, color, dirs.drop_last(), steps, is_top, has_top) + ray(
            b,
            from,
            color,
            from,
            dirs.last(),
            steps,
            is_top,
            has_top,
        )
    }
}

/// The candidates of a piece of archetype `t` on `from`, by the movement table.
pub open spec fn piece_moves(
    b: Board,
    from: Position,
    color: Color,
    t: PieceType,
    is_top: bool,
    has_top: bool,
) -> Seq<PotentialMove> {
    match t {
        PieceType::Soldier => rays(
            b,
            from,
            color,
            seq![(1isize, forward(color)), (-1isize, forward(color))],
            1,
            is_top,
            has_top,
        ),
        PieceType::Jester => rays(b, from, color, diagonal(), 9, is_top, has_top),
        PieceType::Commander => rays(b, from, color, orthogonal(), 9, is_top, has_top),
        PieceType::Paladin => rays(b, from, color, orthogonal(), 2, is_top, has_top),
        PieceType::Guard => rays(b, from, color, diagonal(), 2, is_top, has_top),
        PieceType::Dragon => rays(b, from, color, knight(), 1, is_top, has_top),
        PieceType::Ballista => rays(b, from, color, seq![(0isize, forward(color))], 9, is_top, has_top),
        PieceType::King => rays(b, from, color, orthogonal() + diagonal(), 1, false, true),
    }
}

/// The candidates of the piece on `pos` when its side is to move: first
/// those of its top piece, if any, then those of its bottom piece.
pub open spec fn moves_at(b: Board, pos: Position) -> Seq<PotentialMove> {
    match b.cells()[pos.index()] {
        None => Seq::empty(),
        Some(p) => if p.color != b.mover() {
            Seq::empty()
        } else {
            let top_moves = match p.top {
                Some(t) => piece_moves(b, pos, p.color, t, true, true),
                None => Seq::empty(),
            };
            top_moves + piece_moves(b, pos, p.color, p.bottom, false, p.top is Some)
        },
    }
}

/// The candidates of the squares `0..n`, square by square.
pub open spec fn moves_upto(b: Board, n: nat) -> Seq<PotentialMove>
    decreases n,
{
    if n == 0 {
        Seq::empty()
    } else {
        moves_upto(b, (n - 1) as nat) + moves_at(b, Position::of_index(n - 1))
    }
}

/// All legal candidates of the side to move, row by row from the top.
pub open spec fn all_moves(b: Board) -> Seq<PotentialMove> {
    moves_upto(b, 81)
}

/// A candidate becomes a move that moves the top piece alone only when it
/// is `unstackable`, and a move of the whole stack only when it is not
/// `force_unstack`.
pub proof fn lemma_conversion_refusals(m: PotentialMove)
    ensures
        !m.unstackable ==> conversion(m, true) == Err::<Move, MoveError>(MoveError::NotUnstackable),
        m.force_unstack ==> conversion(m, false) == Err::<Move, MoveError>(MoveError::MustUnstack),
        m.unstackable ==> conversion(m, true) == Ok::<Move, MoveError>(
            Move { from: m.from, to: m.to, unstack: true },
        ),
        !m.force_unstack ==> conversion(m, false) == Ok::<Move, MoveError>(
            Move { from: m.from, to: m.to, unstack: false },
        ),
{
}

/// On a game in progress, a move ends the game exactly when it takes the
/// enemy King.
pub proof fn lemma_game_over_on_king_capture(b: Board, mv: Move, after: Board)
    requires
        applied(b, mv, after),
        !b.over(),
    ensures
        after.over() <==> captures_king(b, mv),
{
}

/// A game in progress.
#[derive(Clone, Debug)]
pub struct Game {
    pub board: Board,
}

impl Game {
    pub fn new() -> (r: Self)
        ensures
            r.board.wf(),
            r.board.cells() == Seq::new(81, |i: int| crate::board::initial_square(i)),
            r.board.white_turn(),
            !r.board.over(),
    {
        Game { board: Board::new() }
    }

    pub fn from_board(board: Board) -> (r: Self)
        ensures
            r.board == board,
    {
        Game { board }
    }

    /// Plays `mv`; on error the game is left as it was.
    pub fn apply_move(&mut self, mv: Move) -> (r: Result<(), MoveError>)
        ensures
            r is Ok <==> move_outcome(old(self).board, mv) is Ok,
            r is Ok ==> applied(old(self).board, mv, final(self).board),
            r matches Err(e) ==> move_outcome(old(self).board, mv) == Err::<
                Seq<Option<Piece>>,
                MoveError,
            >(e) && final(self).board == old(self).board,
    {
        let new_board = self.apply_move_copy(mv)?;
        self.board = new_board;
        Ok(())
    }

    /// The board after `mv`, the game itself left as it is.
    pub fn apply_move_copy(&self, mv: Move) -> (r: Result<Board, MoveError>)
        ensures
            r is Ok <==> move_outcome(self.board, mv) is Ok,
            r matches Ok(after) ==> applied(self.board, mv, after) && after.wf(),
            r matches Err(e) ==> move_outcome(self.board, mv) == Err::<
                Seq<Option<Piece>>,
                MoveError,
            >(e),
    {
        if mv.from.x >= 9 || mv.from.y >= 9 || mv.to.x >= 9 || mv.to.y >= 9 {
            return Err(MoveError::OutOfBounds);
        }
        let piece = match self.board.get_piece(&mv.from) {
            Some(p) => *p,
            None => return Err(MoveError::NoPiece),
        };
        if piece.bottom == PieceType::King && mv.unstack {
            return Err(MoveError::UnstackKing);
        }
        let ghost cells0 = self.board.cells();
        let mut new_board = self.board;
        let source_piece = if mv.unstack {
            if piece.top.is_none() {
                return Err(MoveError::NoTopPiece);
            }
            match new_board.unstack_piece(&mv.from) {
                Ok(p) => p,
                Err(e) => return Err(e),
            }
        } else {
            new_board.set_piece(&mv.from, None);
            piece
        };
        assert(new_board.cells() == lift(cells0, piece, mv).0);
        let destination = match new_board.get_piece(&mv.to) {
            Some(p) => Some(*p),
            None => None,
        };
        match destination {
            None => {
                new_board.set_piece(&mv.to, Some(source_piece));
            },
            Some(d) => {
                if d.color != source_piece.color {
                    new_board.set_piece(&mv.to, Some(source_piece));
                    if d.bottom == PieceType::King {
                        new_board.set_game_over(true);
                    }
                } else {
                    new_board.stack_piece(&mv.to, source_piece)?;
                }
            },
        }
        let white = new_board.is_white_to_move();
        new_board.set_white_to_move(!white);
        Ok(new_board)
    }

    pub fn get_all_moves(&self) -> (r: Vec<PotentialMove>)
        ensures
            r@ == all_moves(self.board),
            all_valid(r@),
    {
        let mut all_moves: Vec<PotentialMove> = Vec::new();
        let mut y: usize = 0;
        while y < 9
            invariant
                y <= 9,
                all_moves@ == moves_upto(self.board, (9 * y) as nat),
                all_valid(all_moves@),
            decreases 9 - y,
        {
            let mut x: usize = 0;
            while x < 9
                invariant
                    y < 9,
                    x <= 9,
                    all_moves@ == moves_upto(self.board, (9 * y + x) as nat),
                    all_valid(all_moves@),
                decreases 9 - x,
            {
                let position = Position::new(x, y);
                assert(position == Position::of_index(9 * y + x));
                let moves = self.get_moves(&position);
                all_moves.append(&mut moves.clone());
                x = x + 1;
            }
            y = y + 1;
        }
        all_moves
    }

    /// The candidates of the piece on `position`, empty when the square is
    /// empty or holds a piece of the side not to move.
    pub fn get_moves(&self, position: &Position) -> (r: Vec<PotentialMove>)
        requires
            position.valid(),
        ensures
            r@ == moves_at(self.board, *position),
            all_valid(r@),
    {
        let mut moves: Vec<PotentialMove> = Vec::new();
        let piece = match self.board.get_piece(position) {
            Some(p) => *p,
            None => return moves,
        };
        if piece.color != self.board.color_to_move() {
            return moves;
        }
        if let Some(top_type) = piece.top {
            self.compute_moves_for_piece_type(position, piece.color, top_type, true, true, &mut moves);
        }
        self.compute_moves_for_piece_type(
            position,
            piece.color,
            piece.bottom,
            false,
            piece.top.is_some(),
            &mut moves,
        );
        moves
    }

    fn compute_moves_for_piece_type(
        &self,
        position: &Position,
        color: Color,
        piece_type: PieceType,
        is_top: bool,
        has_top: bool,
        moves: &mut Vec<PotentialMove>,
    )
        requires
            position.valid(),
        ensures
            all_valid(old(moves)@) ==> all_valid(final(moves)@),
            final(moves)@ == old(moves)@ + piece_moves(
                self.board,
                *position,
                color,
                piece_type,
                is_top,
                has_top,
            ),
    {
        match piece_type {
            PieceType::Soldier => self.compute_soldier_moves(position, color, is_top, has_top, moves),
            PieceType::Jester => {
                let directions: [(isize, isize); 4] = [(1, 1), (1, -1), (-1, -1), (-1, 1)];
                assert(directions@ =~= diagonal());
                self.compute_generic_moves(position, color, is_top, has_top, moves, &directions, 9)
            },
            PieceType::Commander => {
                let directions: [(isize, isize); 4] = [(1, 0), (0, 1), (-1, 0), (0, -1)];
                assert(directions@ =~= orthogonal());
                self.compute_generic_moves(position, color, is_top, has_top, moves, &directions, 9)
            },
            PieceType::Paladin => {
                let directions: [(isize, isize); 4] = [(1, 0), (0, 1), (-1, 0), (0, -1)];
                assert(directions@ =~= orthogonal());
                self.compute_generic_moves(position, color, is_top, has_top, moves, &directions, 2)
            },
            PieceType::Guard => {
                let directions: [(isize, isize); 4] = [(1, 1), (1, -1), (-1, -1), (-1, 1)];
                assert(directions@ =~= diagonal());
                self.compute_generic_moves(position, color, is_top, has_top, moves, &directions, 2)
            },
            PieceType::Dragon => self.compute_dragon_moves(position, color, is_top, has_top, moves),
            PieceType::Ballista => self.compute_ballista_moves(position, color, is_top, has_top, moves),
            PieceType::King => {
                let directions: [(isize, isize); 8] = [
                    (1, 0),
                    (0, 1),
                    (-1, 0),
                    (0, -1),
                    (1, 1),
                    (1, -1),
                    (-1, -1),
                    (-1, 1),
                ];
                assert(directions@ =~= orthogonal() + diagonal());
                self.compute_generic_moves(position, color, false, true, moves, &directions, 1)
            },
        }
    }

    /// Adds the candidate (if any) that reaches `target_position`, and tells
    /// whether a slide goes on past it.
    fn explore_position(
        &self,
        position: &Position,
        color: Color,
        target_position: &Position,
        is_top: bool,
        has_top: bool,
        moves: &mut Vec<PotentialMove>,
    ) -> (r: bool)
        requires
            target_position.valid(),
            position.valid(),
        ensures
            all_valid(old(moves)@) ==> all_valid(final(moves)@),
            final(moves)@ == old(moves)@ + explore(
                self.board,
                *position,
                color,
                *target_position,
                is_top,
                has_top,
            ).0,
            r == explore(self.board, *position, color, *target_position, is_top, has_top).1,
    {
        let target_piece = match self.board.get_piece(target_position) {
            Some(p) => *p,
            None => {
                moves.push(
                    PotentialMove {
                        from: *position,
                        to: *target_position,
                        unstackable: is_top,
                        force_unstack: false,
                    },
                );
                return true;
            },
        };
        if target_piece.color != color {
            moves.push(
                PotentialMove {
                    from: *position,
                    to: *target_position,
                    unstackable: is_top,
                    force_unstack: false,
                },
            );
            return false;
        }
        if !is_top && has_top {
            return false;
        }
        if !target_piece.is_stackable() {
            return false;
        }
        moves.push(
            PotentialMove {
                from: *position,
                to: *target_position,
                unstackable: is_top,
                force_unstack: is_top,
            },
        );
        false
    }

    fn compute_soldier_moves(
        &self,
        position: &Position,
        color: Color,
        is_top: bool,
        has_top: bool,
        moves: &mut Vec<PotentialMove>,
    )
        requires
            position.valid(),
        ensures
            all_valid(old(moves)@) ==> all_valid(final(moves)@),
            final(moves)@ == old(moves)@ + piece_moves(
                self.board,
                *position,
                color,
                PieceType::Soldier,
                is_top,
                has_top,
            ),
    {
        let dy: isize = if color == Color::White {
            -1
        } else {
            1
        };
        let directions: [(isize, isize); 2] = [(1, dy), (-1, dy)];
        assert(directions@ =~= seq![(1isize, forward(color)), (-1isize, forward(color))]);
        self.compute_generic_moves(position, color, is_top, has_top, moves, &directions, 1);
    }

    fn compute_ballista_moves(
        &self,
        position: &Position,
        color: Color,
        is_top: bool,
        has_top: bool,
        moves: &mut Vec<PotentialMove>,
    )
        requires
            position.valid(),
        ensures
            all_valid(old(moves)@) ==> all_valid(final(moves)@),
            final(moves)@ == old(moves)@ + piece_moves(
                self.board,
                *position,
                color,
                PieceType::Ballista,
                is_top,
                has_top,
            ),
    {
        let dy: isize = if color == Color::White {
            -1
        } else {
            1
        };
        let directions: [(isize, isize); 1] = [(0, dy)];
        assert(directions@ =~= seq![(0isize, forward(color))]);
        self.compute_generic_moves(position, color, is_top, has_top, moves, &directions, 9);
    }

    fn compute_dragon_moves(
        &self,
        position: &Position,
        color: Color,
        is_top: bool,
        has_top: bool,
        moves: &mut Vec<PotentialMove>,
    )
        requires
            position.valid(),
        ensures
            all_valid(old(moves)@) ==> all_valid(final(moves)@),
            final(moves)@ == old(moves)@ + piece_moves(
                self.board,
                *position,
                color,
                PieceType::Dragon,
                is_top,
                has_top,
            ),
    {
        let directions: [(isize, isize); 8] = [
            (2, 1),
            (2, -1),
            (-2, 1),
            (-2, -1),
            (1, 2),
            (1, -2),
            (-1, 2),
            (-1, -2),
        ];
        assert(directions@ =~= knight());
        self.compute_generic_moves(position, color, is_top, has_top, moves, &directions, 1);
    }

    /// Adds the candidates of the slides along each direction, each at most
    /// `max_distance` squares long.
    fn compute_generic_moves(
        &self,
        position: &Position,
        color: Color,
        is_top: bool,
        has_top: bool,
        moves: &mut Vec<PotentialMove>,
        directions: &[(isize, isize)],
        max_distance: usize,
    )
        requires
            position.valid(),
        ensures
            all_valid(old(moves)@) ==> all_valid(final(moves)@),
            final(moves)@ == old(moves)@ + rays(
                self.board,
                *position,
                color,
                directions@,
                max_distance as nat,
                is_top,
                has_top,
            ),
    {
        let mut k: usize = 0;
        while k < directions.len()
            invariant
                k <= directions@.len(),
                position.valid(),
                all_valid(old(moves)@) ==> all_valid(moves@),
                moves@ == old(moves)@ + rays(
                    self.board,
                    *position,
                    color,
                    directions@.take(k as int),
                    max_distance as nat,
                    is_top,
                    has_top,
                ),
            decreases directions@.len() - k,
        {
            let (dx, dy) = directions[k];
            self.compute_ray(position, color, is_top, has_top, moves, dx, dy, max_distance);
            proof {
                let next = directions@.take(k + 1);
                assert(next.drop_last() =~= directions@.take(k as int));
                assert(next.last() == (dx, dy));
                assert(rays(self.board, *position, color, next, max_distance as nat, is_top, has_top)
                    == rays(self.board, *position, color, directions@.take(k as int), max_distance as nat, is_top, has_top)
                    + ray(self.board, *position, color, *position, (dx, dy), max_distance as nat, is_top, has_top));
            }
            k = k + 1;
        }
        assert(directions@.take(k as int) =~= directions@);
    }

    /// Adds the candidates of the slide along `(dx, dy)`: empty squares, up to
    /// and including the first occupied one where a move is possible there.
    fn compute_ray(
        &self,
        position: &Position,
        color: Color,
        is_top: bool,
        has_top: bool,
        moves: &mut Vec<PotentialMove>,
        dx: isize,
        dy: isize,
        max_distance: usize,
    )
        requires
            position.valid(),
        ensures
            all_valid(old(moves)@) ==> all_valid(final(moves)@),
            final(moves)@ == old(moves)@ + ray(
                self.board,
                *position,
                color,
                *position,
                (dx, dy),
                max_distance as nat,
                is_top,
                has_top,
            ),
    {
        let mut current = *position;
        let mut k: usize = 0;
        while k < max_distance
            invariant
                k <= max_distance,
                current.valid(),
                position.valid(),
                all_valid(old(moves)@) ==> all_valid(moves@),
                moves@ + ray(
                    self.board,
                    *position,
                    color,
                    current,
                    (dx, dy),
                    (max_distance - k) as nat,
                    is_top,
                    has_top,
                ) == old(moves)@ + ray(
                    self.board,
                    *position,
                    color,
                    *position,
                    (dx, dy),
                    max_distance as nat,
                    is_top,
                    has_top,
                ),
            decreases max_distance - k,
        {
            let ghost before = moves@;
            match current.get_new(dx, dy) {
                None => {
                    assert(moves@ =~= moves@ + Seq::<PotentialMove>::empty());
                    return;
                },
                Some(target) => {
                    let go_on = self.explore_position(position, color, &target, is_top, has_top, moves);
                    if !go_on {
                        return;
                    }
                    assert(before + ray(self.board, *position, color, current, (dx, dy), (max_distance - k) as nat, is_top, has_top)
                        =~= moves@ + ray(self.board, *position, color, target, (dx, dy), (max_distance - k - 1) as nat, is_top, has_top));
                    current = target;
                },
            }
            k = k + 1;
        }
        assert(moves@ =~= moves@ + Seq::<PotentialMove>::empty());
    }

    pub fn to_binary(&self) -> (r: [u8; 82])
        ensures
            r@ == crate::board::encode_board(self.board.cells(), self.board.white_turn()),
    {
        self.board.to_binary()
    }

    pub fn from_binary(binary: [u8; 82]) -> (r: Result<Self, EncodingError>)
        ensures
            r is Ok <==> crate::board::board_bytes_valid(binary@),
            r matches Ok(g) ==> g.board.wf() && g.board.decoded_from(binary@),
            r matches Err(e) ==> crate::board::reports_first_invalid(binary@, e),
    {
        let board = Board::from_binary(binary)?;
        Ok(Game::from_board(board))
    }
}

} // verus!
