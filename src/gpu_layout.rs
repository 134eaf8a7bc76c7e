//! Host-side records of the accelerator buffers: a board as 81 unsigned
//! 32-bit cells, a turn flag and padding; a batch item of a board, a move
//! encoding, a score and a validity flag; and what a batch item gives back.

use vstd::prelude::*;

verus! {

/// A board as the accelerator reads it.
#[derive(Clone, Copy, Debug)]
pub struct GpuBoardState {
    pub squares: [u32; 81],
    pub white_to_move: u32,
    pub padding: [u32; 3],
}

/// One item of a simulation batch.
#[derive(Clone, Copy, Debug)]
pub struct GpuMoveApplication {
    pub board: GpuBoardState,
    pub move_encoding: u32,
    pub result_score: i32,
    pub valid: u32,
    pub padding: [u32; 3],
}

/// The result of one batch item, back in the 82-byte encoding.
#[derive(Clone, Copy, Debug)]
pub struct BatchSimulationResult {
    pub score: i32,
    pub valid: bool,
    pub board: [u8; 82],
}

impl GpuBoardState {
    /// Widens each byte of an encoded board to a cell; the turn byte becomes
    /// the turn flag.
    pub fn from_encoded(board: &[u8; 82]) -> (r: Self)
        ensures
            forall|i: int| 0 <= i < 81 ==> r.squares@[i] == board@[i] as u32,
            r.white_to_move == board@[81] as u32,
    {
        let mut squares: [u32; 81] = [0u32; 81];
        let mut i: usize = 0;
        while i < 81
            invariant
                i <= 81,
                board@.len() == 82,
                squares@.len() == 81,
                forall|j: int| 0 <= j < i ==> squares@[j] == board@[j] as u32,
            decreases 81 - i,
        {
            squares[i] = board[i] as u32;
            i = i + 1;
        }
        GpuBoardState { squares, white_to_move: board[81] as u32, padding: [0u32; 3] }
    }

    /// Narrows each cell, and the turn flag, back to a byte (modulo 256).
    pub fn to_encoded(&self) -> (r: [u8; 82])
        ensures
            forall|i: int| 0 <= i < 81 ==> r@[i] == self.squares@[i] % 256,
            r@[81] == self.white_to_move % 256,
    {
        let mut board: [u8; 82] = [0u8; 82];
        let mut i: usize = 0;
        while i < 81
            invariant
                i <= 81,
                board@.len() == 82,
                self.squares@.len() == 81,
                forall|j: int| 0 <= j < i ==> board@[j] == self.squares@[j] % 256,
            decreases 81 - i,
        {
            board[i] = (self.squares[i] % 256) as u8;
            i = i + 1;
        }
        board[81] = (self.white_to_move % 256) as u8;
        board
    }
}

impl GpuMoveApplication {
    /// A batch item for `board` and `move_encoding`, with no result yet.
    pub fn new(board: &[u8; 82], move_encoding: u16) -> (r: Self)
        ensures
            forall|i: int| 0 <= i < 81 ==> r.board.squares@[i] == board@[i] as u32,
            r.board.white_to_move == board@[81] as u32,
            r.move_encoding == move_encoding as u32,
            r.result_score == 0,
            r.valid == 0,
    {
        GpuMoveApplication {
            board: GpuBoardState::from_encoded(board),
            move_encoding: move_encoding as u32,
            result_score: 0,
            valid: 0,
            padding: [0u32; 3],
        }
    }

    /// What the item holds once the accelerator has filled it in.
    pub fn result(&self) -> (r: BatchSimulationResult)
        ensures
            r.score == self.result_score,
            r.valid == (self.valid != 0),
            forall|i: int| 0 <= i < 81 ==> r.board@[i] == self.board.squares@[i] % 256,
            r.board@[81] == self.board.white_to_move % 256,
    {
        BatchSimulationResult {
            score: self.result_score,
            valid: self.valid != 0,
            board: self.board.to_encoded(),
        }
    }
}

} // verus!
