//! The interaction state of a game played square by square: a cursor, the
//! piece being moved, the choice between moving a stack and unstacking, and
//! the end of the game. Drawing and key reading stand outside this module.

use crate::board::{Board, Color, Piece, Position};
use crate::error::MoveError;
use crate::game::{applied, conversion, move_outcome, moves_at, Game, Move, PotentialMove};
use crate::rendering::{piece_to_char, type_letter};
use vstd::prelude::*;
use vstd::string::StringExecFns;

verus! {

/// What the player is doing.
#[derive(Clone, Copy, Debug, PartialEq, Eq, Structural)]
pub enum GameState {
    SelectingPiece,
    SelectingTarget { from: Position },
    ConfirmUnstack { from: Position, to: Position, unstack: bool },
    GameOver { winner: Color },
}

/// The squares that a state names lie on the board.
pub open spec fn state_wf(s: GameState) -> bool {
    match s {
        GameState::SelectingTarget { from } => from.valid(),
        GameState::ConfirmUnstack { from, to, .. } => from.valid() && to.valid(),
        _ => true,
    }
}

/// The destinations of a list of candidates.
pub open spec fn targets(moves: Seq<PotentialMove>) -> Seq<Position> {
    moves.map_values(|m: PotentialMove| m.to)
}

/// The first candidate whose destination is `to`.
pub open spec fn find_to(moves: Seq<PotentialMove>, to: Position) -> Option<PotentialMove>
    decreases moves.len(),
{
    if moves.len() == 0 {
        None
    } else if moves[0].to == to {
        Some(moves[0])
    } else {
        find_to(moves.drop_first(), to)
    }
}

/// The state after a move that made board `b`: the game is over once a King
/// is taken, the winner being the side that just moved.
pub open spec fn state_after(b: Board) -> GameState {
    if b.over() {
        GameState::GameOver {
            winner: if b.white_turn() {
                Color::Black
            } else {
                Color::White
            },
        }
    } else {
        GameState::SelectingPiece
    }
}

/// A game, a cursor, the interaction state and the highlighted squares.
pub struct App {
    game: Game,
    cursor_position: Position,
    game_state: GameState,
    highlighted_moves: Vec<Position>,
}

/// `a1` is `a0` after an attempt to play the converted candidate `conv`: on
/// success the board is the one the move makes, the state follows it and no
/// square is highlighted; on failure nothing changes and the error is returned.
pub open spec fn played(a0: App, conv: Result<Move, MoveError>, a1: App, r: Result<(), MoveError>) -> bool {
    match conv {
        Err(e) => r == Err::<(), MoveError>(e) && a1.same_as(a0),
        Ok(mv) => match move_outcome(a0.game_view().board, mv) {
            Err(e) => r == Err::<(), MoveError>(e) && a1.same_as(a0),
            Ok(_) => {
                &&& r is Ok
                &&& applied(a0.game_view().board, mv, a1.game_view().board)
                &&& a1.state() == state_after(a1.game_view().board)
                &&& a1.highlights() == Seq::<Position>::empty()
                &&& a1.cursor() == a0.cursor()
            },
        },
    }
}

impl App {
    #[verifier::type_invariant]
    spec fn inv(self) -> bool {
        self.cursor_position.valid() && state_wf(self.game_state)
    }

    pub closed spec fn game_view(self) -> Game {
        self.game
    }

    pub closed spec fn cursor(self) -> Position {
        self.cursor_position
    }

    pub closed spec fn state(self) -> GameState {
        self.game_state
    }

    pub closed spec fn highlights(self) -> Seq<Position> {
        self.highlighted_moves@
    }

    /// Same game, cursor, state and highlights.
    pub open spec fn same_as(self, other: App) -> bool {
        &&& self.game_view() == other.game_view()
        &&& self.cursor() == other.cursor()
        &&& self.state() == other.state()
        &&& self.highlights() == other.highlights()
    }

    pub fn new() -> (r: Self)
        ensures
            r.game_view().board.cells() == Seq::new(81, |i: int| crate::board::initial_square(i)),
            r.game_view().board.white_turn(),
            r.state() == GameState::SelectingPiece,
            r.cursor() == (Position { x: 0, y: 0 }),
            r.highlights() == Seq::<Position>::empty(),
    {
        App::from_game(Game::new())
    }

    /// Starts on `game`, over already if a King has been taken.
    pub fn from_game(game: Game) -> (r: Self)
        ensures
            r.game_view() == game,
            r.state() == state_after(game.board),
            r.cursor() == (Position { x: 0, y: 0 }),
            r.highlights() == Seq::<Position>::empty(),
    {
        let game_state = if game.board.is_game_over() {
            let winner = if game.board.is_white_to_move() {
                Color::Black
            } else {
                Color::White
            };
            GameState::GameOver { winner }
        } else {
            GameState::SelectingPiece
        };
        App { game, cursor_position: Position::new(0, 0), game_state, highlighted_moves: Vec::new() }
    }

    pub fn game(&self) -> (r: &Game)
        ensures
            *r == self.game_view(),
    {
        &self.game
    }

    pub fn cursor_position(&self) -> (r: Position)
        ensures
            r == self.cursor(),
            r.valid(),
    {
        proof {
            use_type_invariant(self);
        }
        self.cursor_position
    }

    pub fn game_state(&self) -> (r: GameState)
        ensures
            r == self.state(),
    {
        self.game_state
    }

    pub fn highlighted_moves(&self) -> (r: &Vec<Position>)
        ensures
            r@ == self.highlights(),
    {
        &self.highlighted_moves
    }

    /// Moves the cursor by `(dx, dy)` when the square is on the board and the
    /// game is not over, and refreshes the highlights.
    pub fn move_cursor(&mut self, dx: isize, dy: isize)
        ensures
            final(self).game_view() == old(self).game_view(),
            final(self).state() == old(self).state(),
            ({
                let c = old(self).cursor();
                if old(self).state() is GameOver || !Position::on_board(c.x + dx, c.y + dy) {
                    final(self).same_as(*old(self))
                } else {
                    &&& final(self).cursor() == (Position { x: (c.x + dx) as usize, y: (c.y + dy) as usize })
                    &&& final(self).highlights() == Self::refreshed(
                        old(self).state(),
                        old(self).game_view().board,
                        final(self).cursor(),
                        old(self).highlights(),
                    )
                }
            }),
    {
        proof {
            use_type_invariant(&*self);
        }
        if let GameState::GameOver { .. } = self.game_state {
            return;
        }
        if let Some(new_pos) = self.cursor_position.get_new(dx, dy) {
            self.cursor_position = new_pos;
            self.update_highlights();
        }
    }

    /// Highlights after a cursor move: the destinations of the piece under
    /// the cursor while selecting a piece, the chosen destination while
    /// confirming, none once the game is over.
    pub open spec fn refreshed(s: GameState, b: Board, cursor: Position, before: Seq<Position>) -> Seq<
        Position,
    > {
        match s {
            GameState::SelectingPiece => targets(moves_at(b, cursor)),
            GameState::SelectingTarget { .. } => before,
            GameState::ConfirmUnstack { to, .. } => seq![to],
            GameState::GameOver { .. } => Seq::empty(),
        }
    }

    fn update_highlights(&mut self)
        ensures
            final(self).game_view() == old(self).game_view(),
            final(self).state() == old(self).state(),
            final(self).cursor() == old(self).cursor(),
            final(self).highlights() == Self::refreshed(
                old(self).state(),
                old(self).game_view().board,
                old(self).cursor(),
                old(self).highlights(),
            ),
    {
        proof {
            use_type_invariant(&*self);
        }
        match self.game_state {
            GameState::SelectingPiece => {
                let moves = self.game.get_moves(&self.cursor_position);
                self.highlighted_moves = destinations(&moves);
            },
            GameState::SelectingTarget { .. } => {},
            GameState::ConfirmUnstack { to, .. } => {
                let mut only: Vec<Position> = Vec::new();
                only.push(to);
                self.highlighted_moves = only;
            },
            GameState::GameOver { .. } => {
                self.highlighted_moves = Vec::new();
            },
        }
    }

    /// Plays `game_move`, then selects a piece again or ends the game.
    fn apply_move_and_update_state(&mut self, game_move: Move) -> (r: Result<(), MoveError>)
        ensures
            played(*old(self), Ok(game_move), *final(self), r),
    {
        proof {
            use_type_invariant(&*self);
        }
        let new_board = self.game.apply_move_copy(game_move)?;
        self.game = Game::from_board(new_board);
        if new_board.is_game_over() {
            let winner = if new_board.is_white_to_move() {
                Color::Black
            } else {
                Color::White
            };
            self.game_state = GameState::GameOver { winner };
        } else {
            self.game_state = GameState::SelectingPiece;
        }
        self.highlighted_moves = Vec::new();
        Ok(())
    }

    /// Converts `candidate` and plays it.
    fn play_candidate(&mut self, candidate: PotentialMove, unstack: bool) -> (r: Result<(), MoveError>)
        ensures
            played(*old(self), conversion(candidate, unstack), *final(self), r),
    {
        let game_move = candidate.to_move(unstack)?;
        self.apply_move_and_update_state(game_move)
    }

    /// Enter: select the piece under the cursor; or choose the cursor square
    /// as destination, asking first whether to unstack when both ways are
    /// open; or confirm moving the whole stack.
    pub fn handle_enter(&mut self) -> (r: Result<(), MoveError>)
        ensures
            ({
                let a0 = *old(self);
                let b = a0.game_view().board;
                match a0.state() {
                    GameState::SelectingPiece => {
                        let ms = moves_at(b, a0.cursor());
                        &&& r is Ok
                        &&& final(self).game_view() == a0.game_view()
                        &&& final(self).cursor() == a0.cursor()
                        &&& if ms.len() > 0 {
                            &&& final(self).state() == (GameState::SelectingTarget { from: a0.cursor() })
                            &&& final(self).highlights() == targets(ms)
                        } else {
                            final(self).same_as(a0)
                        }
                    },
                    GameState::SelectingTarget { from } => match find_to(moves_at(b, from), a0.cursor()) {
                        None => Self::deselected(a0, *final(self), r),
                        Some(m) => if m.unstackable && !m.force_unstack {
                            &&& r is Ok
                            &&& final(self).game_view() == a0.game_view()
                            &&& final(self).cursor() == a0.cursor()
                            &&& final(self).state() == (GameState::ConfirmUnstack {
                                from,
                                to: a0.cursor(),
                                unstack: false,
                            })
                            &&& final(self).highlights() == seq![a0.cursor()]
                        } else {
                            played(a0, conversion(m, m.force_unstack), *final(self), r)
                        },
                    },
                    GameState::ConfirmUnstack { from, to, unstack } => match find_to(moves_at(b, from), to) {
                        None => Self::deselected(a0, *final(self), r),
                        Some(m) => played(a0, conversion(m, unstack), *final(self), r),
                    },
                    GameState::GameOver { .. } => r is Ok && final(self).same_as(a0),
                }
            }),
    {
        proof {
            use_type_invariant(&*self);
        }
        match self.game_state {
            GameState::SelectingPiece => {
                let moves = self.game.get_moves(&self.cursor_position);
                if moves.len() > 0 {
                    self.game_state = GameState::SelectingTarget { from: self.cursor_position };
                    self.highlighted_moves = destinations(&moves);
                }
                Ok(())
            },
            GameState::SelectingTarget { from } => {
                let moves = self.game.get_moves(&from);
                match first_to(&moves, &self.cursor_position) {
                    Some(potential_move) => {
                        if potential_move.unstackable && !potential_move.force_unstack {
                            self.game_state = GameState::ConfirmUnstack {
                                from,
                                to: self.cursor_position,
                                unstack: false,
                            };
                            let mut only: Vec<Position> = Vec::new();
                            only.push(self.cursor_position);
                            self.highlighted_moves = only;
                            return Ok(());
                        }
                        self.play_candidate(potential_move, potential_move.force_unstack)
                    },
                    None => {
                        self.game_state = GameState::SelectingPiece;
                        self.highlighted_moves = Vec::new();
                        Ok(())
                    },
                }
            },
            GameState::ConfirmUnstack { from, to, unstack } => {
                let moves = self.game.get_moves(&from);
                match first_to(&moves, &to) {
                    Some(potential_move) => self.play_candidate(potential_move, unstack),
                    None => {
                        self.game_state = GameState::SelectingPiece;
                        self.highlighted_moves = Vec::new();
                        Ok(())
                    },
                }
            },
            GameState::GameOver { .. } => Ok(()),
        }
    }

    /// Back to selecting a piece, nothing highlighted.
    pub open spec fn deselected(a0: App, a1: App, r: Result<(), MoveError>) -> bool {
        &&& r is Ok
        &&& a1.game_view() == a0.game_view()
        &&& a1.cursor() == a0.cursor()
        &&& a1.state() == GameState::SelectingPiece
        &&& a1.highlights() == Seq::<Position>::empty()
    }

    /// `u` while confirming: move the top piece alone.
    pub fn handle_unstack_confirm(&mut self) -> (r: Result<(), MoveError>)
        ensures
            ({
                let a0 = *old(self);
                match a0.state() {
                    GameState::ConfirmUnstack { from, to, .. } => match find_to(
                        moves_at(a0.game_view().board, from),
                        to,
                    ) {
                        None => Self::deselected(a0, *final(self), r),
                        Some(m) => played(a0, conversion(m, true), *final(self), r),
                    },
                    _ => r is Ok && final(self).same_as(a0),
                }
            }),
    {
        proof {
            use_type_invariant(&*self);
        }
        if let GameState::ConfirmUnstack { from, to, .. } = self.game_state {
            let moves = self.game.get_moves(&from);
            match first_to(&moves, &to) {
                Some(potential_move) => {
                    return self.play_candidate(potential_move, true);
                },
                None => {
                    self.game_state = GameState::SelectingPiece;
                    self.highlighted_moves = Vec::new();
                },
            }
        }
        Ok(())
    }

    /// Escape: step back from choosing a destination or from confirming.
    pub fn handle_escape(&mut self)
        ensures
            final(self).game_view() == old(self).game_view(),
            final(self).cursor() == old(self).cursor(),
            match old(self).state() {
                GameState::SelectingTarget { .. } => final(self).state() == GameState::SelectingPiece
                    && final(self).highlights() == Seq::<Position>::empty(),
                GameState::ConfirmUnstack { from, .. } => final(self).state()
                    == (GameState::SelectingTarget { from }) && final(self).highlights() == Seq::<
                    Position,
                >::empty(),
                _ => final(self).same_as(*old(self)),
            },
    {
        proof {
            use_type_invariant(&*self);
        }
        match self.game_state {
            GameState::SelectingPiece => {},
            GameState::SelectingTarget { .. } => {
                self.game_state = GameState::SelectingPiece;
                self.highlighted_moves = Vec::new();
            },
            GameState::ConfirmUnstack { from, .. } => {
                self.game_state = GameState::SelectingTarget { from };
                self.highlighted_moves = Vec::new();
            },
            GameState::GameOver { .. } => {},
        }
    }

    /// A three-character cell label: `T+B` for a stack, ` B ` for a single piece.
    pub fn get_piece_display(&self, piece: &Piece) -> (r: String)
        ensures
            r@ == match piece.top {
                Some(t) => seq![type_letter(t), '+', type_letter(piece.bottom)],
                None => seq![' ', type_letter(piece.bottom), ' '],
            },
    {
        let mut output = String::new();
        if let Some(top_piece) = piece.top {
            output.append(piece_to_char(&top_piece).as_str());
            proof {
                reveal_strlit("+");
            }
            output.append("+");
            output.append(piece_to_char(&piece.bottom).as_str());
        } else {
            proof {
                reveal_strlit(" ");
            }
            output.append(" ");
            output.append(piece_to_char(&piece.bottom).as_str());
            output.append(" ");
        }
        proof {
            match piece.top {
                Some(t) => assert(output@ =~= seq![type_letter(t), '+', type_letter(piece.bottom)]),
                None => assert(output@ =~= seq![' ', type_letter(piece.bottom), ' ']),
            }
        }
        output
    }
}

/// The destinations of the candidates, in order.
fn destinations(moves: &Vec<PotentialMove>) -> (r: Vec<Position>)
    requires
        crate::game::all_valid(moves@),
    ensures
        r@ == targets(moves@),
        forall|i: int| 0 <= i < r@.len() ==> (#[trigger] r@[i]).valid(),
{
    let mut out: Vec<Position> = Vec::new();
    let mut i: usize = 0;
    while i < moves.len()
        invariant
            i <= moves@.len(),
            crate::game::all_valid(moves@),
            out@ == targets(moves@.take(i as int)),
            forall|j: int| 0 <= j < out@.len() ==> (#[trigger] out@[j]).valid(),
        decreases moves@.len() - i,
    {
        assert(moves@[i as int].valid());
        out.push(moves[i].to);
        assert(targets(moves@.take(i + 1)) =~= out@);
        i = i + 1;
    }
    assert(moves@.take(i as int) =~= moves@);
    out
}

/// The first candidate whose destination is `to`.
fn first_to(moves: &Vec<PotentialMove>, to: &Position) -> (r: Option<PotentialMove>)
    requires
        crate::game::all_valid(moves@),
    ensures
        r == find_to(moves@, *to),
        r matches Some(m) ==> m.valid(),
{
    let mut i: usize = 0;
    assert(moves@.subrange(0, moves@.len() as int) =~= moves@);
    while i < moves.len()
        invariant
            i <= moves@.len(),
            crate::game::all_valid(moves@),
            find_to(moves@.subrange(i as int, moves@.len() as int), *to) == find_to(moves@, *to),
        decreases moves@.len() - i,
    {
        let ghost rest = moves@.subrange(i as int, moves@.len() as int);
        assert(rest.drop_first() =~= moves@.subrange(i + 1, moves@.len() as int));
        if moves[i].to == *to {
            assert(rest[0] == moves@[i as int]);
            return Some(moves[i]);
        }
        i = i + 1;
    }
    None
}

} // verus!
