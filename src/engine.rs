//! Evaluation, simplified move application and rollout search over the
//! 82-byte board encoding.

use crate::board::{
    board_bytes_valid, encode_board, encode_piece, reports_first_invalid, type_code, Board, Color,
    Piece, PieceType,
};
use crate::error::{EncodingError, MoveError, SearchError};
use crate::gpu_layout::BatchSimulationResult;
use crate::game::{
    all_moves, all_valid, conversion, decode_potential_move, encode_potential_move, encoding_in_range,
    move_outcome, squares_in_range, Game, PotentialMove,
};
use rand::Rng;
use rayon::iter::{IndexedParallelIterator, IntoParallelRefIterator, ParallelIterator};
use vstd::prelude::*;

verus! {

/// Value of a King, far above any sum of material.
pub const KING_VALUE: i32 = 1000;

/// Largest magnitude of an evaluation: 81 squares, each worth at most a King.
pub const MAX_EVALUATION: i32 = 81000;

/// Value of the ranked archetype of a three-bit code (0 for no piece).
pub open spec fn code_value(code: int) -> int {
    if code == 1 {
        1
    } else if code == 2 {
        3
    } else if code == 3 {
        5
    } else if code == 4 {
        3
    } else if code == 5 {
        3
    } else if code == 6 {
        3
    } else if code == 7 {
        5
    } else {
        0
    }
}

/// Material of a square byte: the King's value, or the values of the bottom
/// and top codes.
pub open spec fn square_value(v: u8) -> int {
    let payload = v % 64;
    if v == 0 {
        0
    } else if payload == 56 {
        KING_VALUE as int
    } else {
        code_value((payload % 8) as int) + code_value((payload / 8) as int)
    }
}

/// A non-empty square byte belongs to White.
pub open spec fn white_byte(v: u8) -> bool {
    v / 64 == 1
}

/// Material of one side on the squares `0..n`.
pub open spec fn side_total(bytes: Seq<u8>, white: bool, n: nat) -> int
    decreases n,
{
    if n == 0 {
        0
    } else {
        side_total(bytes, white, (n - 1) as nat) + if bytes[n - 1] != 0 && white_byte(bytes[n - 1])
            == white {
            square_value(bytes[n - 1])
        } else {
            0
        }
    }
}

/// Number of occupied squares among `0..n`.
pub open spec fn occupied(bytes: Seq<u8>, n: nat) -> nat
    decreases n,
{
    if n == 0 {
        0
    } else {
        occupied(bytes, (n - 1) as nat) + if bytes[n - 1] != 0 {
            1nat
        } else {
            0nat
        }
    }
}

/// Number of Kings among the squares `0..n`.
pub open spec fn kings(bytes: Seq<u8>, n: nat) -> nat
    decreases n,
{
    if n == 0 {
        0
    } else {
        kings(bytes, (n - 1) as nat) + if bytes[n - 1] != 0 && bytes[n - 1] % 64 == 56 {
            1nat
        } else {
            0nat
        }
    }
}

/// The heuristic value of a position for the side to move: its material less
/// the opponent's; with the two-Kings rule, a board holding only two Kings is
/// a draw.
pub open spec fn evaluation(bytes: Seq<u8>, two_kings_draw: bool) -> int {
    let white = side_total(bytes, true, 81);
    let black = side_total(bytes, false, 81);
    if two_kings_draw && occupied(bytes, 81) == 2 && kings(bytes, 81) == 2 {
        0
    } else if bytes[81] == 1 {
        white - black
    } else {
        black - white
    }
}

/// Evaluates an encoded board from the side to move's point of view.
pub fn evaluate_position(board: &[u8; 82], two_kings_draw: bool) -> (r: i32)
    ensures
        r == evaluation(board@, two_kings_draw),
        -MAX_EVALUATION <= r <= MAX_EVALUATION,
{
    let mut white_value: i32 = 0;
    let mut black_value: i32 = 0;
    let mut pieces: u32 = 0;
    let mut king_count: u32 = 0;
    let mut i: usize = 0;
    while i < 81
        invariant
            i <= 81,
            board@.len() == 82,
            white_value == side_total(board@, true, i as nat),
            black_value == side_total(board@, false, i as nat),
            pieces == occupied(board@, i as nat),
            king_count == kings(board@, i as nat),
            0 <= white_value <= 1000 * i,
            0 <= black_value <= 1000 * i,
            pieces <= i,
            king_count <= i,
        decreases 81 - i,
    {
        let piece = board[i];
        if piece != 0 {
            pieces = pieces + 1;
            let is_white = piece / 64 == 1;
            let payload = piece % 64;
            let value: i32 = if payload == 56 {
                king_count = king_count + 1;
                KING_VALUE
            } else {
                piece_code_value(payload % 8) + piece_code_value(payload / 8)
            };
            if is_white {
                white_value = white_value + value;
            } else {
                black_value = black_value + value;
            }
        }
        i = i + 1;
    }
    if two_kings_draw && pieces == 2 && king_count == 2 {
        return 0;
    }
    if board[81] == 1 {
        white_value - black_value
    } else {
        black_value - white_value
    }
}

fn piece_code_value(code: u8) -> (r: i32)
    ensures
        r == code_value(code as int),
        0 <= r <= 5,
{
    match code {
        1 => 1,
        2 => 3,
        3 => 5,
        4 => 3,
        5 => 3,
        6 => 3,
        7 => 5,
        _ => 0,
    }
}

/// The source square of a move encoding.
pub open spec fn code_from(code: u16) -> int {
    (code % 128) as int
}

/// The destination square of a move encoding.
pub open spec fn code_to(code: u16) -> int {
    ((code / 128) % 128) as int
}

/// The bit 14 of a move encoding, read as "move the top piece only".
pub open spec fn code_unstack(code: u16) -> bool {
    (code / 16384) % 2 == 1
}

/// The simplified move of the accelerator's batch kernel: the mover replaces
/// whatever stands on the destination (no stacking), and the turn byte flips.
/// A King cannot be unstacked.
pub open spec fn simple_outcome(bytes: Seq<u8>, code: u16) -> Result<Seq<u8>, MoveError> {
    let from = code_from(code);
    let to = code_to(code);
    let piece = bytes[from];
    let turn: u8 = if bytes[81] == 1 {
        0
    } else {
        1
    };
    let payload = piece % 64;
    let color_bit = ((piece / 64) % 2 * 64) as u8;
    if from >= 81 || to >= 81 {
        Err(MoveError::OutOfBounds)
    } else if piece == 0 {
        Err(MoveError::NoPiece)
    } else if code_unstack(code) {
        if payload == 56 {
            Err(MoveError::UnstackKing)
        } else if payload / 8 == 0 {
            Err(MoveError::NoTopPiece)
        } else {
            Ok(
                bytes.update(from, (color_bit + payload % 8) as u8).update(
                    to,
                    (color_bit + payload / 8) as u8,
                ).update(81, turn),
            )
        }
    } else {
        Ok(bytes.update(from, 0).update(to, piece).update(81, turn))
    }
}

/// Applies an encoded move with the simplified rules of the batch kernel.
pub fn apply_move_simple(board: &[u8; 82], move_encoding: u16) -> (r: Result<[u8; 82], MoveError>)
    ensures
        match simple_outcome(board@, move_encoding) {
            Ok(after) => r matches Ok(nb) && nb@ == after,
            Err(e) => r == Err::<[u8; 82], MoveError>(e),
        },
{
    let from = (move_encoding % 128) as usize;
    let to = ((move_encoding / 128) % 128) as usize;
    let unstack = (move_encoding / 16384) % 2 == 1;
    if from >= 81 || to >= 81 {
        return Err(MoveError::OutOfBounds);
    }
    let piece = board[from];
    if piece == 0 {
        return Err(MoveError::NoPiece);
    }
    let mut new_board = *board;
    if unstack {
        let payload = piece % 64;
        let top_code = payload / 8;
        let bottom_code = payload % 8;
        let color_bit = (piece / 64) % 2 * 64;
        if payload == 56 {
            return Err(MoveError::UnstackKing);
        }
        if top_code == 0 {
            return Err(MoveError::NoTopPiece);
        }
        new_board[from] = color_bit + bottom_code;
        new_board[to] = color_bit + top_code;
    } else {
        new_board[from] = 0;
        new_board[to] = piece;
    }
    new_board[81] = if new_board[81] == 1 {
        0
    } else {
        1
    };
    assert(new_board@ == simple_outcome(board@, move_encoding)->Ok_0);
    Ok(new_board)
}

/// The board that 82 bytes decode to.
pub open spec fn decoded_board(bytes: Seq<u8>) -> Board {
    choose|b: Board| b.decoded_from(bytes)
}

/// The encodings of the legal candidates of a decodable board, in the order
/// of move generation; none for bytes that do not decode.
pub open spec fn legal_codes(bytes: Seq<u8>) -> Seq<u16> {
    if board_bytes_valid(bytes) {
        all_moves(decoded_board(bytes)).map_values(|m: PotentialMove| encode_potential_move(m))
    } else {
        Seq::empty()
    }
}

/// The encoded legal candidates of an encoded board.
pub fn generate_moves(board: &[u8; 82]) -> (r: Result<Vec<u16>, EncodingError>)
    ensures
        r is Ok <==> board_bytes_valid(board@),
        r matches Ok(codes) ==> codes@ == legal_codes(board@),
        r matches Err(e) ==> reports_first_invalid(board@, e),
{
    let decoded = Board::from_binary(*board)?;
    proof {
        let b = decoded_board(board@);
        Board::lemma_decoded_unique(b, decoded, board@);
    }
    let game = Game::from_board(decoded);
    let moves = game.get_all_moves();
    let mut codes: Vec<u16> = Vec::new();
    let mut i: usize = 0;
    while i < moves.len()
        invariant
            i <= moves@.len(),
            all_valid(moves@),
            codes@ == moves@.take(i as int).map_values(|m: PotentialMove| encode_potential_move(m)),
        decreases moves@.len() - i,
    {
        assert(moves@[i as int].valid());
        codes.push(moves[i].to_u16());
        assert(moves@.take(i + 1).map_values(|m: PotentialMove| encode_potential_move(m))
            =~= codes@);
        i = i + 1;
    }
    assert(moves@.take(i as int) =~= moves@);
    Ok(codes)
}


/// The position that candidate `code` makes on the decodable board `bytes`
/// under the rules: the whole piece or stack moves unless the candidate is
/// `force_unstack`; none when the bytes or the code do not decode, or the
/// move is refused.
pub open spec fn rule_outcome(bytes: Seq<u8>, code: u16) -> Option<Seq<u8>> {
    if !board_bytes_valid(bytes) || !squares_in_range(code) {
        None
    } else {
        let b = decoded_board(bytes);
        let m = decode_potential_move(code);
        match conversion(m, m.force_unstack) {
            Err(_) => None,
            Ok(mv) => match move_outcome(b, mv) {
                Ok(cells) => Some(encode_board(cells, !b.white_turn())),
                Err(_) => None,
            },
        }
    }
}

/// Plays an encoded candidate on an encoded board with the rule engine.
pub fn apply_candidate(board: &[u8; 82], code: u16) -> (r: Option<[u8; 82]>)
    ensures
        match rule_outcome(board@, code) {
            Some(after) => r matches Some(nb) && nb@ == after,
            None => r is None,
        },
{
    if !encoding_in_range(code) {
        return None;
    }
    let game = match Game::from_binary(*board) {
        Ok(g) => g,
        Err(_) => return None,
    };
    proof {
        Board::lemma_decoded_unique(decoded_board(board@), game.board, board@);
    }
    let candidate = PotentialMove::from_u16(code);
    let mv = match candidate.to_move(candidate.force_unstack) {
        Ok(m) => m,
        Err(_) => return None,
    };
    match game.apply_move_copy(mv) {
        Ok(after) => Some(after.to_binary()),
        Err(_) => None,
    }
}

/// `v`, negated when `negate` holds.
pub open spec fn signed(v: int, negate: bool) -> int {
    if negate {
        -v
    } else {
        v
    }
}

/// The value, for the side to move on `bytes`, of a rollout of at most
/// `plies` plies whose `k`-th ply plays the candidate `choices[k]` (modulo
/// their number; the first one when the choices run out). It stops, and
/// evaluates the position, when no ply is left, no candidate exists, or the
/// chosen one cannot be applied; each ply negates the value of the next.
pub open spec fn rollout_value(bytes: Seq<u8>, plies: nat, choices: Seq<usize>, two_kings_draw: bool) -> int
    decreases plies,
{
    let codes = legal_codes(bytes);
    if plies == 0 || codes.len() == 0 {
        evaluation(bytes, two_kings_draw)
    } else {
        let pick: int = if choices.len() > 0 {
            choices[0] as int % codes.len() as int
        } else {
            0
        };
        let rest = if choices.len() > 0 {
            choices.drop_first()
        } else {
            choices
        };
        match rule_outcome(bytes, codes[pick]) {
            Some(next) => -rollout_value(next, (plies - 1) as nat, rest, two_kings_draw),
            None => evaluation(bytes, two_kings_draw),
        }
    }
}

/// Sum of the values of rollouts of `plies` plies from `bytes`, one for each
/// sequence of choices.
pub open spec fn rollouts_total(bytes: Seq<u8>, plies: nat, runs: Seq<Seq<usize>>, two_kings_draw: bool) -> int
    decreases runs.len(),
{
    if runs.len() == 0 {
        0
    } else {
        rollouts_total(bytes, plies, runs.drop_last(), two_kings_draw) + rollout_value(
            bytes,
            plies,
            runs.last(),
            two_kings_draw,
        )
    }
}

/// Relies on rand's `Rng::gen_range` over the thread-local generator: a
/// value in `0..n`; it panics on an empty range, which `requires` leaves out.
#[verifier::external_body]
fn random_index(n: usize) -> (r: usize)
    requires
        n > 0,
    ensures
        r < n,
{
    rand::thread_rng().gen_range(0..n)
}

/// The rollout totals of one candidate move.
#[derive(Clone, Copy, Debug, PartialEq, Eq, Structural)]
pub struct MoveScore {
    /// The candidate's encoding.
    pub mv: u16,
    /// Sum of the rollout scores, from the point of view of the side that moves.
    pub total: i64,
    /// Number of rollouts that were run.
    pub simulations: u32,
}

/// `a` has a strictly greater average score than `b`.
pub open spec fn beats(a: MoveScore, b: MoveScore) -> bool {
    a.total * b.simulations > b.total * a.simulations
}

/// `scores[i]` has the greatest average among the candidates with rollouts,
/// and is the first that has it.
pub open spec fn first_best(scores: Seq<MoveScore>, i: int, n: int) -> bool {
    &&& 0 <= i < n
    &&& scores[i].simulations > 0
    &&& forall|j: int| 0 <= j < n && scores[j].simulations > 0 ==> !beats(#[trigger] scores[j], scores[i])
    &&& forall|j: int| 0 <= j < i && scores[j].simulations > 0 ==> beats(scores[i], #[trigger] scores[j])
}

proof fn lemma_beats_transitive(a: MoveScore, b: MoveScore, c: MoveScore)
    requires
        a.simulations > 0,
        b.simulations > 0,
        c.simulations > 0,
        beats(a, b),
        !beats(c, b),
    ensures
        beats(a, c),
{
    let (at, asims) = (a.total as int, a.simulations as int);
    let (bt, bsims) = (b.total as int, b.simulations as int);
    let (ct, csims) = (c.total as int, c.simulations as int);
    assert(at * csims > ct * asims) by (nonlinear_arith)
        requires
            asims > 0,
            bsims > 0,
            csims > 0,
            at * bsims > bt * asims,
            ct * bsims <= bt * csims,
    ;
}

proof fn lemma_product_fits(t: i64, n: u32)
    ensures
        -0x8000_0000_0000_0000_0000_0000 <= t * n <= 0x8000_0000_0000_0000_0000_0000,
{
    let (ti, ni) = (t as int, n as int);
    assert(-0x8000_0000_0000_0000_0000_0000 <= ti * ni <= 0x8000_0000_0000_0000_0000_0000)
        by (nonlinear_arith)
        requires
            -0x8000_0000_0000_0000 <= ti <= 0x7fff_ffff_ffff_ffff,
            0 <= ni <= 0xffff_ffff,
    ;
}

/// Picks the candidate with the strictly greatest average score; ties go to
/// the first one, and candidates without rollouts are passed over.
pub fn select_best(scores: &Vec<MoveScore>) -> (r: Option<usize>)
    ensures
        r is None <==> forall|i: int| 0 <= i < scores@.len() ==> (#[trigger] scores@[i]).simulations == 0,
        r matches Some(i) ==> first_best(scores@, i as int, scores@.len() as int),
{
    let mut best: Option<usize> = None;
    let mut k: usize = 0;
    while k < scores.len()
        invariant
            k <= scores@.len(),
            best is None <==> forall|i: int| 0 <= i < k ==> (#[trigger] scores@[i]).simulations == 0,
            best matches Some(i) ==> first_best(scores@, i as int, k as int),
        decreases scores@.len() - k,
    {
        let candidate = scores[k];
        if candidate.simulations > 0 {
            match best {
                None => {
                    best = Some(k);
                },
                Some(b) => {
                    let current = scores[b];
                    proof {
                        lemma_product_fits(candidate.total, current.simulations);
                        lemma_product_fits(current.total, candidate.simulations);
                    }
                    let lhs = candidate.total as i128 * current.simulations as i128;
                    let rhs = current.total as i128 * candidate.simulations as i128;
                    if lhs > rhs {
                        proof {
                            assert forall|j: int| 0 <= j < k && scores@[j].simulations > 0 implies beats(
                                candidate,
                                #[trigger] scores@[j],
                            ) by {
                                lemma_beats_transitive(candidate, current, scores@[j]);
                            }
                        }
                        best = Some(k);
                    }
                },
            }
        }
        k = k + 1;
    }
    best
}


/// Number of valid items among the first `n` results of a batch.
pub open spec fn batch_valid(results: Seq<BatchSimulationResult>, n: nat) -> nat
    decreases n,
{
    if n == 0 {
        0
    } else {
        batch_valid(results, (n - 1) as nat) + if results[n - 1].valid {
            1nat
        } else {
            0nat
        }
    }
}

/// Sum of the scores of the valid items among the first `n` results.
pub open spec fn batch_score(results: Seq<BatchSimulationResult>, n: nat) -> int
    decreases n,
{
    if n == 0 {
        0
    } else {
        batch_score(results, (n - 1) as nat) + if results[n - 1].valid {
            results[n - 1].score as int
        } else {
            0
        }
    }
}

/// Folds an accelerator batch for candidate `mv` into its totals: each valid
/// item is one rollout, whose score (for the opponent, who is to move after
/// `mv`) counts negated.
pub fn tally_batch(mv: u16, results: &Vec<BatchSimulationResult>) -> (r: MoveScore)
    requires
        results@.len() <= u32::MAX,
    ensures
        r.mv == mv,
        r.simulations == batch_valid(results@, results@.len()),
        r.total == -batch_score(results@, results@.len()),
{
    let mut total: i64 = 0;
    let mut simulations: u32 = 0;
    let mut i: usize = 0;
    while i < results.len()
        invariant
            i <= results@.len(),
            results@.len() <= u32::MAX,
            simulations == batch_valid(results@, i as nat),
            total == -batch_score(results@, i as nat),
            simulations <= i,
            -0x8000_0000 * simulations <= total <= 0x8000_0000 * simulations,
        decreases results@.len() - i,
    {
        let item = results[i];
        if item.valid {
            total = total - item.score as i64;
            simulations = simulations + 1;
        }
        i = i + 1;
    }
    MoveScore { mv, total, simulations }
}

/// Search settings.
#[derive(Clone, Copy, Debug, PartialEq, Eq, Structural)]
pub struct EngineConfig {
    /// Plies of a rollout, the candidate move included.
    pub max_depth: u32,
    /// Rollouts per candidate move.
    pub simulations_per_move: u32,
    /// Exploration constant, in thousandths (kept for a tree policy; unused).
    pub exploration_constant_milli: u32,
    /// Rollouts handed to an accelerator at once. No accelerator is attached
    /// to this engine: every rollout runs on the processor.
    pub gpu_batch_size: usize,
    /// Ask for accelerated simulation. No accelerator is attached to this
    /// engine, so the setting changes nothing.
    pub use_gpu_simulation: bool,
    /// A board holding only two Kings evaluates as a draw.
    pub two_kings_draw: bool,
    /// A candidate that takes the enemy King is played without search.
    pub king_capture_shortcut: bool,
}

/// The default settings: three plies, a hundred rollouts per candidate.
pub open spec fn default_config() -> EngineConfig {
    EngineConfig {
        max_depth: 3,
        simulations_per_move: 100,
        exploration_constant_milli: 1414,
        gpu_batch_size: 256,
        use_gpu_simulation: true,
        two_kings_draw: false,
        king_capture_shortcut: false,
    }
}

impl Default for EngineConfig {
    fn default() -> (r: Self)
        ensures
            r == default_config(),
    {
        EngineConfig {
            max_depth: 3,
            simulations_per_move: 100,
            exploration_constant_milli: 1414,
            gpu_batch_size: 256,
            use_gpu_simulation: true,
            two_kings_draw: false,
            king_capture_shortcut: false,
        }
    }
}

/// Counters of the engine's work, kept for its lifetime unless reset.
#[derive(Clone, Copy, Debug, Default, PartialEq, Eq, Structural)]
pub struct SearchStatistics {
    /// Moves evaluated by rollouts, over all searches.
    pub total_moves_evaluated: u64,
    /// Rollouts run, over all searches.
    pub simulations_run: u64,
    /// Rollouts run by the most recent search.
    pub last_search_moves: u64,
    /// Batches run on an accelerator; stays 0, as no accelerator is attached.
    pub gpu_batches_processed: u64,
    /// Rollouts run on the processor.
    pub cpu_simulations: u64,
    /// Searches answered from the cache.
    pub cache_hits: u64,
    /// Searches that found no cache entry.
    pub cache_misses: u64,
}

/// All counters at zero.
pub open spec fn zero_statistics() -> SearchStatistics {
    SearchStatistics {
        total_moves_evaluated: 0,
        simulations_run: 0,
        last_search_moves: 0,
        gpu_batches_processed: 0,
        cpu_simulations: 0,
        cache_hits: 0,
        cache_misses: 0,
    }
}

impl SearchStatistics {
    pub fn reset(&mut self)
        ensures
            *final(self) == zero_statistics(),
    {
        self.total_moves_evaluated = 0;
        self.simulations_run = 0;
        self.last_search_moves = 0;
        self.gpu_batches_processed = 0;
        self.cpu_simulations = 0;
        self.cache_hits = 0;
        self.cache_misses = 0;
    }
}

/// What the cache keeps of a searched position.
#[derive(Clone, Copy, Debug, PartialEq, Eq, Structural)]
pub struct CachedEvaluation {
    /// The move chosen.
    pub best_move: u16,
    /// Sum of its rollout scores; its average is this over `simulations`.
    pub total_score: i64,
    /// Rollouts behind the choice (0 for a forced or immediate move).
    pub simulations: u32,
}

/// An entry chosen without search.
pub open spec fn unsearched(best_move: u16) -> CachedEvaluation {
    CachedEvaluation { best_move, total_score: 0, simulations: 0 }
}

/// A cache entry agrees with the rules: its move is legal on the position,
/// and a position with a single legal move keeps that move without rollouts.
pub open spec fn entry_consistent(key: Seq<u8>, e: CachedEvaluation) -> bool {
    &&& legal_codes(key).contains(e.best_move)
    &&& legal_codes(key).len() == 1 ==> e == unsearched(legal_codes(key)[0])
}

struct CacheEntry {
    key: [u8; 82],
    value: CachedEvaluation,
}

/// The value kept for `key`: that of its latest entry.
pub open spec fn lookup(keys: Seq<Seq<u8>>, values: Seq<CachedEvaluation>, key: Seq<u8>) -> Option<
    CachedEvaluation,
>
    decreases keys.len(),
{
    if keys.len() == 0 || values.len() != keys.len() {
        None
    } else if keys.last() == key {
        Some(values.last())
    } else {
        lookup(keys.drop_last(), values.drop_last(), key)
    }
}

proof fn lemma_lookup_found(keys: Seq<Seq<u8>>, values: Seq<CachedEvaluation>, key: Seq<u8>)
    requires
        lookup(keys, values, key) is Some,
    ensures
        exists|i: int|
            0 <= i < keys.len() && keys[i] == key && values[i] == lookup(keys, values, key)->Some_0,
    decreases keys.len(),
{
    if keys.last() == key {
        assert(keys[keys.len() - 1] == key);
    } else {
        lemma_lookup_found(keys.drop_last(), values.drop_last(), key);
        let i = choose|i: int|
            0 <= i < keys.drop_last().len() && keys.drop_last()[i] == key && values.drop_last()[i]
                == lookup(keys.drop_last(), values.drop_last(), key)->Some_0;
        assert(keys[i] == key);
    }
}

/// Plies left to a rollout that has made `depth` of `max_depth`.
pub open spec fn remaining_plies(max_depth: u32, depth: u32) -> nat {
    if depth < max_depth {
        (max_depth - depth) as nat
    } else {
        0
    }
}

/// `s` is a possible outcome of the rollouts of candidate `mv` on `bytes`:
/// as many rollouts as asked when the candidate applies (none otherwise),
/// each from the position it makes, and `s.total` the sum of their scores
/// for the side that moves.
pub open spec fn score_of(config: EngineConfig, bytes: Seq<u8>, mv: u16, s: MoveScore) -> bool {
    &&& s.mv == mv
    &&& match rule_outcome(bytes, mv) {
        Some(after) => {
            &&& s.simulations == config.simulations_per_move
            &&& exists|runs: Seq<Seq<usize>>|
                runs.len() == s.simulations && s.total == -rollouts_total(
                    after,
                    remaining_plies(config.max_depth, 1),
                    runs,
                    config.two_kings_draw,
                )
        },
        None => s.simulations == 0 && s.total == 0,
    }
}

/// The candidate `code` takes a King of the side not to move.
pub open spec fn takes_king(bytes: Seq<u8>, code: u16) -> bool {
    let target = bytes[code_to(code)];
    &&& code_to(code) < 81
    &&& target != 0
    &&& target % 64 == 56
    &&& white_byte(target) != (bytes[81] == 1)
}


/// `codes[i]` is the first candidate that takes the enemy King.
pub open spec fn first_capture(bytes: Seq<u8>, codes: Seq<u16>, i: int) -> bool {
    &&& 0 <= i < codes.len()
    &&& takes_king(bytes, codes[i])
    &&& forall|j: int| 0 <= j < i ==> !takes_king(bytes, #[trigger] codes[j])
}

/// Rollouts of all candidates, over the first `n` of them.
pub open spec fn simulations_upto(scores: Seq<MoveScore>, n: nat) -> int
    decreases n,
{
    if n == 0 {
        0
    } else {
        simulations_upto(scores, (n - 1) as nat) + scores[n - 1].simulations
    }
}

/// `v` capped at the largest `u64`.
pub open spec fn capped(v: int) -> u64 {
    if v > u64::MAX {
        u64::MAX
    } else {
        v as u64
    }
}

/// The outcome of a search over the candidates `codes` of `bytes`: for some
/// possible rollout results `scores`, the first candidate with the best
/// average is played and cached with its totals, and the most recent search
/// counts their rollouts; with no rollout at all the first candidate is
/// played and cached without rollouts.
pub open spec fn searched(
    config: EngineConfig,
    bytes: Seq<u8>,
    codes: Seq<u16>,
    r: Result<u16, SearchError>,
    entry: Option<CachedEvaluation>,
    last_search_moves: u64,
) -> bool {
    exists|scores: Seq<MoveScore>|
        {
            &&& scores.len() == codes.len()
            &&& forall|i: int|
                0 <= i < codes.len() ==> score_of(config, bytes, codes[i], #[trigger] scores[i])
            &&& last_search_moves == capped(simulations_upto(scores, scores.len()))
            &&& if forall|i: int| 0 <= i < scores.len() ==> (#[trigger] scores[i]).simulations == 0 {
                r == Ok::<u16, SearchError>(codes[0]) && entry == Some(unsearched(codes[0]))
            } else {
                exists|i: int|
                    first_best(scores, i, scores.len() as int) && r == Ok::<u16, SearchError>(
                        codes[i],
                    ) && entry == Some(
                        CachedEvaluation {
                            best_move: codes[i],
                            total_score: scores[i].total,
                            simulations: scores[i].simulations,
                        },
                    )
            }
        }
}

/// What a call of `find_best_move` on the encoded board `bytes` does,
/// taking the engine from `e0` to `e1` and returning `r`.
pub open spec fn search_post(e0: MctsEngine, bytes: Seq<u8>, r: Result<u16, SearchError>, e1: MctsEngine) -> bool {
    let codes = legal_codes(bytes);
    let s0 = e0.counters();
    let s1 = e1.counters();
    &&& e1.wf()
    &&& e1.settings() == e0.settings()
    &&& forall|k: Seq<u8>| k != bytes ==> #[trigger] e1.cached(k) == e0.cached(k)
    &&& r matches Ok(m) ==> codes.contains(m) && (e1.cached(bytes) matches Some(c) && c.best_move == m)
    &&& codes.len() == 1 ==> r == Ok::<u16, SearchError>(codes[0]) && e1.cached(bytes) == Some(
        unsearched(codes[0]),
    )
    &&& match e0.cached(bytes) {
        Some(c) => {
            &&& r == Ok::<u16, SearchError>(c.best_move)
            &&& e1.cached(bytes) == Some(c)
            &&& e1.cache_len() == e0.cache_len()
            &&& s1 == (SearchStatistics { cache_hits: s0.cache_hits.saturating_add(1), ..s0 })
        },
        None => {
            &&& s1.cache_misses == s0.cache_misses.saturating_add(1)
            &&& s1.cache_hits == s0.cache_hits
            &&& s1.gpu_batches_processed == s0.gpu_batches_processed
            &&& s1.simulations_run == s0.simulations_run.saturating_add(s1.last_search_moves)
            &&& s1.total_moves_evaluated == s0.total_moves_evaluated.saturating_add(
                s1.last_search_moves,
            )
            &&& s1.cpu_simulations == s0.cpu_simulations.saturating_add(s1.last_search_moves)
            &&& r is Ok ==> e1.cache_len() == e0.cache_len() + 1
            &&& r is Err ==> e1.cache_len() == e0.cache_len() && e1.cached(bytes) is None
            &&& if !board_bytes_valid(bytes) {
                &&& r matches Err(SearchError::Encoding(e))
                &&& reports_first_invalid(bytes, e)
            } else if codes.len() == 0 {
                r == Err::<u16, SearchError>(SearchError::NoLegalMoves)
            } else if codes.len() == 1 {
                s1.last_search_moves == 0
            } else if e0.settings().king_capture_shortcut && exists|i: int| first_capture(bytes, codes, i) {
                &&& s1.last_search_moves == 0
                &&& exists|i: int|
                    first_capture(bytes, codes, i) && r == Ok::<u16, SearchError>(codes[i])
                        && e1.cached(bytes) == Some(unsearched(codes[i]))
            } else {
                searched(e0.settings(), bytes, codes, r, e1.cached(bytes), s1.last_search_moves)
            }
        },
    }
}

/// Rollout search with a cache of searched positions. The cache is a `Vec`
/// of entries with distinct keys (a position is added only when absent): the
/// std maps' specifications do not cover array keys.
pub struct MctsEngine {
    config: EngineConfig,
    stats: SearchStatistics,
    cache: Vec<CacheEntry>,
}

impl MctsEngine {
    /// Every cache entry agrees with the rules.
    pub closed spec fn wf(self) -> bool {
        forall|i: int|
            0 <= i < self.cache@.len() ==> entry_consistent(
                (#[trigger] self.cache@[i]).key@,
                self.cache@[i].value,
            )
    }

    /// The settings.
    pub closed spec fn settings(self) -> EngineConfig {
        self.config
    }

    /// The counters.
    pub closed spec fn counters(self) -> SearchStatistics {
        self.stats
    }

    /// The cached result of a position, by its encoding.
    pub closed spec fn cached(self, key: Seq<u8>) -> Option<CachedEvaluation> {
        lookup(
            self.cache@.map_values(|e: CacheEntry| e.key@),
            self.cache@.map_values(|e: CacheEntry| e.value),
            key,
        )
    }

    /// Number of cached positions.
    pub closed spec fn cache_len(self) -> nat {
        self.cache@.len()
    }

    pub fn new() -> (r: Self)
        ensures
            r.settings() == default_config(),
            r.counters() == zero_statistics(),
            r.cache_len() == 0,
            forall|k: Seq<u8>| r.cached(k) is None,
            r.wf(),
    {
        Self::with_config(EngineConfig::default())
    }

    pub fn with_config(config: EngineConfig) -> (r: Self)
        ensures
            r.settings() == config,
            r.counters() == zero_statistics(),
            r.cache_len() == 0,
            forall|k: Seq<u8>| r.cached(k) is None,
            r.wf(),
    {
        MctsEngine {
            config,
            stats: SearchStatistics {
                total_moves_evaluated: 0,
                simulations_run: 0,
                last_search_moves: 0,
                gpu_batches_processed: 0,
                cpu_simulations: 0,
                cache_hits: 0,
                cache_misses: 0,
            },
            cache: Vec::new(),
        }
    }

    /// The move to play on the encoded board `board`: the cached one if the
    /// position was searched before; else the only legal move; else, when
    /// the shortcut is on, the first that takes the enemy King; else the
    /// candidate with the best average rollout score, which is then cached.
    pub fn find_best_move(&mut self, board: &[u8; 82]) -> (r: Result<u16, SearchError>)
        requires
            old(self).wf(),
        ensures
            search_post(*old(self), board@, r, *final(self)),
    {
        if let Some(cached) = self.find_cached(board) {
            self.stats.cache_hits = self.stats.cache_hits.saturating_add(1);
            return Ok(cached.best_move);
        }
        self.stats.cache_misses = self.stats.cache_misses.saturating_add(1);
        self.stats.last_search_moves = 0;
        let moves = match generate_moves(board) {
            Ok(m) => m,
            Err(e) => return Err(SearchError::Encoding(e)),
        };
        if moves.len() == 0 {
            return Err(SearchError::NoLegalMoves);
        }
        if moves.len() == 1 {
            let best_move = moves[0];
            proof {
                assert(legal_codes(board@)[0] == best_move);
            }
            self.insert_cached(board, CachedEvaluation { best_move, total_score: 0, simulations: 0 });
            return Ok(best_move);
        }
        if self.config.king_capture_shortcut {
            if let Some(i) = first_king_capture(board, &moves) {
                let best_move = moves[i];
                proof {
                    assert(legal_codes(board@)[i as int] == best_move);
                }
                self.insert_cached(
                    board,
                    CachedEvaluation { best_move, total_score: 0, simulations: 0 },
                );
                return Ok(best_move);
            }
        }
        let scores = self.score_moves(board, &moves);
        let searched_count = count_simulations(&scores);
        self.stats.last_search_moves = searched_count;
        self.stats.simulations_run = self.stats.simulations_run.saturating_add(searched_count);
        self.stats.total_moves_evaluated = self.stats.total_moves_evaluated.saturating_add(
            searched_count,
        );
        self.stats.cpu_simulations = self.stats.cpu_simulations.saturating_add(searched_count);
        match select_best(&scores) {
            None => {
                let first = moves[0];
                proof {
                    assert(legal_codes(board@)[0] == first);
                }
                self.insert_cached(board, CachedEvaluation { best_move: first, total_score: 0, simulations: 0 });
                Ok(first)
            },
            Some(i) => {
                let best = scores[i];
                proof {
                    assert(legal_codes(board@)[i as int] == best.mv);
                }
                self.insert_cached(
                    board,
                    CachedEvaluation {
                        best_move: best.mv,
                        total_score: best.total,
                        simulations: best.simulations,
                    },
                );
                Ok(best.mv)
            },
        }
    }

    pub fn get_statistics(&self) -> (r: SearchStatistics)
        ensures
            r == self.counters(),
    {
        self.stats
    }

    pub fn reset_statistics(&mut self)
        ensures
            final(self).counters() == zero_statistics(),
            final(self).settings() == old(self).settings(),
            final(self).cache_len() == old(self).cache_len(),
            forall|k: Seq<u8>| #[trigger] final(self).cached(k) == old(self).cached(k),
            old(self).wf() ==> final(self).wf(),
    {
        self.stats.reset();
    }

    pub fn clear_cache(&mut self)
        ensures
            final(self).cache_len() == 0,
            forall|k: Seq<u8>| #[trigger] final(self).cached(k) is None,
            final(self).settings() == old(self).settings(),
            final(self).counters() == old(self).counters(),
            final(self).wf(),
    {
        self.cache = Vec::new();
    }

    pub fn cache_size(&self) -> (r: usize)
        ensures
            r == self.cache_len(),
    {
        self.cache.len()
    }

    pub fn config(&self) -> (r: &EngineConfig)
        ensures
            *r == self.settings(),
    {
        &self.config
    }

    pub fn set_config(&mut self, config: EngineConfig)
        ensures
            final(self).settings() == config,
            final(self).counters() == old(self).counters(),
            final(self).cache_len() == old(self).cache_len(),
            forall|k: Seq<u8>| #[trigger] final(self).cached(k) == old(self).cached(k),
            old(self).wf() ==> final(self).wf(),
    {
        self.config = config;
    }

    /// Evaluates an encoded board for the side to move, under this engine's
    /// two-Kings setting.
    pub fn evaluate_board(&self, board: &[u8; 82]) -> (r: i32)
        ensures
            r == evaluation(board@, self.settings().two_kings_draw),
    {
        evaluate_position(board, self.config.two_kings_draw)
    }

    /// The rollout from `board`, which is `depth` plies into it, that plays
    /// at its `k`-th ply the candidate `choices[k]` (modulo their number; the
    /// first once the choices run out), applied with the rules. It stops at
    /// the depth bound, at a position without candidates, or at a candidate
    /// that cannot be applied; the value is the evaluation there, negated at
    /// each ply.
    pub fn rollout_with_choices(&self, board: &[u8; 82], depth: u32, choices: &Vec<usize>) -> (r: i32)
        ensures
            r == rollout_value(
                board@,
                remaining_plies(self.settings().max_depth, depth),
                choices@,
                self.settings().two_kings_draw,
            ),
            -MAX_EVALUATION <= r <= MAX_EVALUATION,
    {
        let two_kings_draw = self.config.two_kings_draw;
        let max_depth = self.config.max_depth;
        let ghost plies0 = remaining_plies(max_depth, depth);
        let ghost all = choices@;
        let mut current = *board;
        let mut negate = false;
        let mut d = depth;
        let mut k: usize = 0;
        assert(all.subrange(0, all.len() as int) =~= all);
        while d < max_depth
            invariant
                max_depth == self.config.max_depth,
                two_kings_draw == self.config.two_kings_draw,
                plies0 == remaining_plies(max_depth, depth),
                all == choices@,
                k <= all.len(),
                signed(
                    rollout_value(
                        current@,
                        remaining_plies(max_depth, d),
                        all.subrange(k as int, all.len() as int),
                        two_kings_draw,
                    ),
                    negate,
                ) == rollout_value(board@, plies0, all, two_kings_draw),
            decreases max_depth - d,
        {
            let ghost p = remaining_plies(max_depth, d);
            let ghost rest = all.subrange(k as int, all.len() as int);
            assert(p > 0);
            let codes = match generate_moves(&current) {
                Ok(c) => c,
                Err(_) => {
                    let v = evaluate_position(&current, two_kings_draw);
                    assert(rollout_value(current@, p, rest, two_kings_draw) == v);
                    return if negate {
                        -v
                    } else {
                        v
                    };
                },
            };
            if codes.len() == 0 {
                let v = evaluate_position(&current, two_kings_draw);
                assert(rollout_value(current@, p, rest, two_kings_draw) == v);
                return if negate {
                    -v
                } else {
                    v
                };
            }
            let pick = if k < choices.len() {
                choices[k] % codes.len()
            } else {
                0
            };
            match apply_candidate(&current, codes[pick]) {
                None => {
                    let v = evaluate_position(&current, two_kings_draw);
                    assert(rollout_value(current@, p, rest, two_kings_draw) == v);
                    return if negate {
                        -v
                    } else {
                        v
                    };
                },
                Some(next) => {
                    proof {
                        let rest_after = if rest.len() > 0 {
                            rest.drop_first()
                        } else {
                            rest
                        };
                        if k < all.len() {
                            assert(rest[0] == all[k as int]);
                            assert(rest_after =~= all.subrange(k + 1, all.len() as int));
                        }
                        assert(remaining_plies(max_depth, (d + 1) as u32) == (p - 1) as nat);
                        assert(rollout_value(current@, p, rest, two_kings_draw) == -rollout_value(
                            next@,
                            (p - 1) as nat,
                            rest_after,
                            two_kings_draw,
                        ));
                    }
                    if k < choices.len() {
                        k = k + 1;
                    }
                    current = next;
                    negate = !negate;
                    d = d + 1;
                },
            }
        }
        let v = evaluate_position(&current, two_kings_draw);
        assert(rollout_value(
            current@,
            remaining_plies(max_depth, d),
            all.subrange(k as int, all.len() as int),
            two_kings_draw,
        ) == v);
        if negate {
            -v
        } else {
            v
        }
    }

    /// One random rollout from `board`, `depth` plies into it: a random
    /// choice is drawn for each ply left, each taken modulo the number of
    /// candidates at its ply.
    fn simulate(&self, board: &[u8; 82], depth: u32) -> (r: i32)
        ensures
            exists|choices: Seq<usize>|
                r == rollout_value(
                    board@,
                    remaining_plies(self.settings().max_depth, depth),
                    choices,
                    self.settings().two_kings_draw,
                ),
            -MAX_EVALUATION <= r <= MAX_EVALUATION,
    {
        let plies: u32 = if depth < self.config.max_depth {
            self.config.max_depth - depth
        } else {
            0
        };
        let mut choices: Vec<usize> = Vec::new();
        let mut k: u32 = 0;
        while k < plies
            invariant
                k <= plies,
            decreases plies - k,
        {
            choices.push(random_index(usize::MAX));
            k = k + 1;
        }
        self.rollout_with_choices(board, depth, &choices)
    }

    /// Runs the rollouts of candidate `mv`: `simulations_per_move` of them
    /// when it applies, none otherwise.
    fn evaluate_move(&self, board: &[u8; 82], mv: u16) -> (r: MoveScore)
        ensures
            score_of(self.settings(), board@, mv, r),
            -MAX_EVALUATION * r.simulations <= r.total <= MAX_EVALUATION * r.simulations,
    {
        let sims_wanted = self.config.simulations_per_move;
        let ghost plies = remaining_plies(self.config.max_depth, 1);
        let ghost two_kings_draw = self.config.two_kings_draw;
        let mut total: i64 = 0;
        let mut simulations: u32 = 0;
        let mut k: u32 = 0;
        let ghost mut runs: Seq<Seq<usize>> = Seq::empty();
        while k < sims_wanted
            invariant
                k <= sims_wanted,
                sims_wanted == self.config.simulations_per_move,
                plies == remaining_plies(self.config.max_depth, 1),
                two_kings_draw == self.config.two_kings_draw,
                match rule_outcome(board@, mv) {
                    Some(after) => {
                        &&& simulations == k
                        &&& runs.len() == k
                        &&& total == -rollouts_total(after, plies, runs, two_kings_draw)
                    },
                    None => simulations == 0 && total == 0,
                },
                -81000 * simulations <= total <= 81000 * simulations,
            decreases sims_wanted - k,
        {
            match apply_candidate(board, mv) {
                Some(new_board) => {
                    let score = self.simulate(&new_board, 1);
                    proof {
                        let c = choose|c: Seq<usize>|
                            score == rollout_value(new_board@, plies, c, two_kings_draw);
                        let grown = runs.push(c);
                        assert(grown.drop_last() =~= runs);
                        runs = grown;
                    }
                    total = total - score as i64;
                    simulations = simulations + 1;
                },
                None => {},
            }
            k = k + 1;
        }
        MoveScore { mv, total, simulations }
    }

    /// Relies on rayon: `par_iter().map(..).collect_into_vec(..)` over a
    /// slice gives one result per item, in the order of the items, each the
    /// value of the closure (here a verified function) on its item.
    #[verifier::external_body]
    fn score_moves(&self, board: &[u8; 82], moves: &Vec<u16>) -> (r: Vec<MoveScore>)
        ensures
            r@.len() == moves@.len(),
            forall|i: int|
                0 <= i < moves@.len() ==> score_of(self.settings(), board@, moves@[i], #[trigger] r@[i]),
    {
        let mut scores = Vec::new();
        moves.par_iter().map(|&mv| self.evaluate_move(board, mv)).collect_into_vec(&mut scores);
        scores
    }

    /// The cached result of an encoded position.
    pub fn find_cached(&self, board: &[u8; 82]) -> (r: Option<CachedEvaluation>)
        requires
            self.wf(),
        ensures
            r == self.cached(board@),
            r matches Some(e) ==> entry_consistent(board@, e),
    {
        let ghost keys = self.cache@.map_values(|e: CacheEntry| e.key@);
        let ghost values = self.cache@.map_values(|e: CacheEntry| e.value);
        let mut i = self.cache.len();
        assert(keys.take(i as int) =~= keys);
        assert(values.take(i as int) =~= values);
        while i > 0
            invariant
                i <= self.cache@.len(),
                lookup(keys.take(i as int), values.take(i as int), board@) == lookup(keys, values, board@),
                keys == self.cache@.map_values(|e: CacheEntry| e.key@),
                values == self.cache@.map_values(|e: CacheEntry| e.value),
                forall|j: int|
                    0 <= j < self.cache@.len() ==> entry_consistent(
                        (#[trigger] self.cache@[j]).key@,
                        self.cache@[j].value,
                    ),
            decreases i,
        {
            let entry = &self.cache[i - 1];
            assert(keys.take(i as int).drop_last() =~= keys.take(i - 1));
            assert(values.take(i as int).drop_last() =~= values.take(i - 1));
            if same_bytes(&entry.key, board) {
                assert(keys.take(i as int).last() == board@);
                return Some(entry.value);
            }
            i = i - 1;
        }
        assert(keys.take(0) =~= Seq::<Seq<u8>>::empty());
        None
    }

    /// Records `value` for the encoded position `board`.
    fn insert_cached(&mut self, board: &[u8; 82], value: CachedEvaluation)
        requires
            entry_consistent(board@, value),
            old(self).wf(),
        ensures
            final(self).wf(),
            final(self).cached(board@) == Some(value),
            forall|k: Seq<u8>| k != board@ ==> final(self).cached(k) == old(self).cached(k),
            final(self).cache_len() == old(self).cache_len() + 1,
            final(self).settings() == old(self).settings(),
            final(self).counters() == old(self).counters(),
    {
        let ghost old_cache = self.cache@;
        self.cache.push(CacheEntry { key: *board, value });
        proof {
            let keys = self.cache@.map_values(|e: CacheEntry| e.key@);
            let values = self.cache@.map_values(|e: CacheEntry| e.value);
            assert(keys.drop_last() =~= old_cache.map_values(|e: CacheEntry| e.key@));
            assert(values.drop_last() =~= old_cache.map_values(|e: CacheEntry| e.value));
        }
    }
}

/// The first candidate that takes the enemy King, if any.
fn first_king_capture(board: &[u8; 82], moves: &Vec<u16>) -> (r: Option<usize>)
    ensures
        r is None <==> forall|i: int| 0 <= i < moves@.len() ==> !takes_king(board@, #[trigger] moves@[i]),
        r matches Some(i) ==> first_capture(board@, moves@, i as int),
{
    let mut i: usize = 0;
    while i < moves.len()
        invariant
            i <= moves@.len(),
            forall|j: int| 0 <= j < i ==> !takes_king(board@, #[trigger] moves@[j]),
        decreases moves@.len() - i,
    {
        let to = ((moves[i] / 128) % 128) as usize;
        if to < 81 {
            let target = board[to];
            if target != 0 && target % 64 == 56 && (target / 64 == 1) != (board[81] == 1) {
                return Some(i);
            }
        }
        i = i + 1;
    }
    None
}

/// Rollouts over all candidates, capped at the largest `u64`.
fn count_simulations(scores: &Vec<MoveScore>) -> (r: u64)
    ensures
        r == capped(simulations_upto(scores@, scores@.len())),
{
    let mut total: u64 = 0;
    let mut i: usize = 0;
    while i < scores.len()
        invariant
            i <= scores@.len(),
            total == capped(simulations_upto(scores@, i as nat)),
            simulations_upto(scores@, i as nat) >= 0,
        decreases scores@.len() - i,
    {
        total = total.saturating_add(scores[i].simulations as u64);
        i = i + 1;
    }
    total
}

/// Byte-wise equality of two encoded boards.
fn same_bytes(a: &[u8; 82], b: &[u8; 82]) -> (r: bool)
    ensures
        r == (a@ == b@),
{
    let mut i: usize = 0;
    while i < 82
        invariant
            i <= 82,
            a@.len() == 82,
            b@.len() == 82,
            forall|j: int| 0 <= j < i ==> a@[j] == b@[j],
        decreases 82 - i,
    {
        if a[i] != b[i] {
            return false;
        }
        i = i + 1;
    }
    assert(a@ =~= b@);
    true
}


/// Material of a piece: the King's value, or the values of its bottom and
/// top archetypes.
pub open spec fn piece_value(p: Piece) -> int {
    if p.bottom == PieceType::King {
        KING_VALUE as int
    } else {
        code_value(type_code(p.bottom) as int) + match p.top {
            Some(t) => code_value(type_code(t) as int),
            None => 0,
        }
    }
}

proof fn lemma_totals_single(bytes: Seq<u8>, i: int, white: bool, n: nat)
    requires
        bytes.len() == 82,
        0 <= i < 81,
        n <= 81,
        forall|j: int| 0 <= j < 81 && j != i ==> bytes[j] == 0,
    ensures
        side_total(bytes, white, n) == (if n > i && bytes[i] != 0 && white_byte(bytes[i]) == white {
            square_value(bytes[i])
        } else {
            0
        }),
        occupied(bytes, n) == (if n > i && bytes[i] != 0 {
            1nat
        } else {
            0nat
        }),
    decreases n,
{
    if n > 0 {
        lemma_totals_single(bytes, i, white, (n - 1) as nat);
    }
}

/// A board holding a single piece, which belongs to the side to move, is
/// worth that piece's material to it: the archetype's value, or the sum of
/// both values for a stack.
pub proof fn lemma_single_piece_value(b: Board, i: int, p: Piece, two_kings_draw: bool)
    requires
        b.wf(),
        0 <= i < 81,
        b.cells()[i] == Some(p),
        forall|j: int| 0 <= j < 81 && j != i ==> b.cells()[j] is None,
        p.color == b.mover(),
    ensures
        evaluation(encode_board(b.cells(), b.white_turn()), two_kings_draw) == piece_value(p),
{
    let bytes = encode_board(b.cells(), b.white_turn());
    assert(p.wf());
    assert forall|j: int| 0 <= j < 81 && j != i implies bytes[j] == 0 by {
        assert(b.cells()[j] is None);
    }
    assert(bytes[i] == encode_piece(p));
    assert(bytes[i] != 0);
    assert(square_value(bytes[i]) == piece_value(p));
    assert(white_byte(bytes[i]) == (p.color == Color::White));
    lemma_totals_single(bytes, i, true, 81);
    lemma_totals_single(bytes, i, false, 81);
}

/// A forced position: where exactly one legal move exists, the search
/// returns it and caches it without any rollout, and runs none.
pub proof fn lemma_forced_move(e0: MctsEngine, bytes: Seq<u8>, r: Result<u16, SearchError>, e1: MctsEngine)
    requires
        search_post(e0, bytes, r, e1),
        legal_codes(bytes).len() == 1,
    ensures
        r == Ok::<u16, SearchError>(legal_codes(bytes)[0]),
        e1.cached(bytes) matches Some(c) && c.simulations == 0 && c.best_move == legal_codes(bytes)[0],
        e1.counters().simulations_run == e0.counters().simulations_run,
        e1.counters().cpu_simulations == e0.counters().cpu_simulations,
        e1.counters().total_moves_evaluated == e0.counters().total_moves_evaluated,
        e1.counters().gpu_batches_processed == e0.counters().gpu_batches_processed,
{
}

/// Searching twice on the same bytes: when the first search misses the
/// cache and finds a move, the second hits the cache and returns that move,
/// the hit and miss counters having each grown by exactly one (short of
/// their saturation at the largest `u64`).
pub proof fn lemma_repeat_search_hits(
    e0: MctsEngine,
    bytes: Seq<u8>,
    r1: Result<u16, SearchError>,
    e1: MctsEngine,
    r2: Result<u16, SearchError>,
    e2: MctsEngine,
)
    requires
        e0.cached(bytes) is None,
        e0.counters().cache_hits < u64::MAX,
        e0.counters().cache_misses < u64::MAX,
        search_post(e0, bytes, r1, e1),
        r1 is Ok,
        search_post(e1, bytes, r2, e2),
    ensures
        e1.cached(bytes) is Some,
        r2 == r1,
        e2.counters().cache_hits == e0.counters().cache_hits + 1,
        e2.counters().cache_misses == e0.counters().cache_misses + 1,
        e2.cache_len() == e1.cache_len(),
{
}

} // verus!
