use arx_engine::engine::{
    apply_candidate, apply_move_simple, evaluate_position, generate_moves, select_best, tally_batch,
    CachedEvaluation, MoveScore,
};
use arx_engine::gpu_layout::{BatchSimulationResult, GpuBoardState, GpuMoveApplication};
use arx_engine::{EncodingError, EngineConfig, MctsEngine, MoveError, SearchError, SearchStatistics};

fn hit_rate(stats: &SearchStatistics) -> f64 {
    let total = stats.cache_hits + stats.cache_misses;
    if total == 0 {
        0.0
    } else {
        stats.cache_hits as f64 / total as f64
    }
}

fn board_with(squares: &[(usize, u8)], white_to_move: bool) -> [u8; 82] {
    let mut board = [0u8; 82];
    for &(i, v) in squares {
        board[i] = v;
    }
    board[81] = if white_to_move { 1 } else { 0 };
    board
}

#[test]
fn mod_test_engine_creation() {
    let engine = MctsEngine::new();
    assert_eq!(engine.cache_size(), 0);
}

#[test]
fn test_board_evaluation() {
    let engine = MctsEngine::new();
    let mut board = [0u8; 82];
    board[81] = 1;
    let eval = engine.evaluate_board(&board);
    assert_eq!(eval, 0, "Empty board should evaluate to 0");
    board[40] = 0b1000001;
    let eval = engine.evaluate_board(&board);
    assert_eq!(eval, 1, "Board with one white soldier should evaluate to 1 for white");
}

#[test]
fn test_engine_config() {
    let config = EngineConfig {
        max_depth: 5,
        simulations_per_move: 200,
        exploration_constant_milli: 2000,
        gpu_batch_size: 128,
        use_gpu_simulation: true,
        two_kings_draw: false,
        king_capture_shortcut: false,
    };
    let engine = MctsEngine::with_config(config.clone());
    assert_eq!(engine.config().max_depth, 5);
    assert_eq!(engine.config().simulations_per_move, 200);
}

#[test]
fn test_statistics() {
    let mut engine = MctsEngine::new();
    let stats = engine.get_statistics();
    assert_eq!(stats.total_moves_evaluated, 0);
    assert_eq!(stats.simulations_run, 0);
    assert_eq!(stats.cache_hits, 0);
    assert_eq!(stats.cache_misses, 0);
    engine.reset_statistics();
    let stats = engine.get_statistics();
    assert_eq!(stats.total_moves_evaluated, 0);
}

#[test]
fn test_cache_basic() {
    let mut engine = MctsEngine::new();
    assert_eq!(engine.cache_size(), 0);
    engine.clear_cache();
    assert_eq!(engine.cache_size(), 0);
}

#[test]
fn test_cache_statistics() {
    let engine = MctsEngine::new();
    let stats = engine.get_statistics();
    assert_eq!(stats.cache_hits, 0);
    assert_eq!(stats.cache_misses, 0);
    assert_eq!(hit_rate(&stats), 0.0);
}

#[test]
fn test_cache_integration() {
    let config = EngineConfig {
        max_depth: 2,
        simulations_per_move: 10,
        exploration_constant_milli: 1414,
        gpu_batch_size: 64,
        use_gpu_simulation: false,
        two_kings_draw: false,
        king_capture_shortcut: false,
    };
    let mut engine = MctsEngine::with_config(config);
    let mut board = [0u8; 82];
    board[81] = 1;
    board[40] = 0b1000001;

    let result1 = engine.find_best_move(&board);
    assert!(result1.is_ok());
    let stats1 = engine.get_statistics();
    assert_eq!(stats1.cache_misses, 1);
    assert_eq!(stats1.cache_hits, 0);
    assert_eq!(engine.cache_size(), 1);

    let result2 = engine.find_best_move(&board);
    assert!(result2.is_ok());
    let stats2 = engine.get_statistics();
    assert_eq!(stats2.cache_hits, 1);
    assert_eq!(stats2.cache_misses, 1);
    assert_eq!(hit_rate(&stats2), 0.5);
    assert_eq!(result1.unwrap(), result2.unwrap());

    engine.clear_cache();
    assert_eq!(engine.cache_size(), 0);

    let _result3 = engine.find_best_move(&board);
    let stats3 = engine.get_statistics();
    assert_eq!(stats3.cache_misses, 2);
    assert_eq!(stats3.cache_hits, 1);
    assert_eq!(engine.cache_size(), 1);
}

#[test]
fn searched_move_is_legal_and_counted() {
    let config = EngineConfig { max_depth: 3, simulations_per_move: 7, ..EngineConfig::default() };
    let mut engine = MctsEngine::with_config(config);
    let board = board_with(&[(40, 65), (4, 56), (76, 120)], true);
    let legal = generate_moves(&board).unwrap();
    assert!(legal.len() > 1);
    let best = engine.find_best_move(&board).unwrap();
    assert!(legal.contains(&best));
    let stats = engine.get_statistics();
    assert_eq!(stats.last_search_moves, 7 * legal.len() as u64);
    assert_eq!(stats.simulations_run, 7 * legal.len() as u64);
    assert_eq!(stats.cpu_simulations, stats.simulations_run);
    assert_eq!(stats.total_moves_evaluated, stats.simulations_run);
    let cached = engine.find_cached(&board).unwrap();
    assert_eq!(cached.best_move, best);
    assert_eq!(cached.simulations, 7);
}

#[test]
fn forced_move_is_cached_without_rollouts() {
    // A lone White Soldier on A8 has a single move, to B9.
    let board = board_with(&[(9, 65)], true);
    let mut engine = MctsEngine::new();
    let best = engine.find_best_move(&board).unwrap();
    assert_eq!(best, 9 | (1 << 7));
    assert_eq!(engine.find_cached(&board), Some(CachedEvaluation { best_move: best, total_score: 0, simulations: 0 }));
    assert_eq!(engine.get_statistics().simulations_run, 0);
}

#[test]
fn repeated_search_hits_the_cache() {
    let board = board_with(&[(40, 67), (0, 56), (80, 120)], true);
    let mut engine = MctsEngine::with_config(EngineConfig { simulations_per_move: 3, ..EngineConfig::default() });
    let first = engine.find_best_move(&board).unwrap();
    let second = engine.find_best_move(&board).unwrap();
    assert_eq!(first, second);
    let stats = engine.get_statistics();
    assert_eq!((stats.cache_hits, stats.cache_misses), (1, 1));
}

#[test]
fn king_capture_shortcut() {
    // White Commander on E5 sees the Black King on E9.
    let board = board_with(&[(40, 67), (4, 56), (80, 120)], true);
    let config = EngineConfig { king_capture_shortcut: true, ..EngineConfig::default() };
    let mut engine = MctsEngine::with_config(config);
    let best = engine.find_best_move(&board).unwrap();
    assert_eq!(best, 40 | (4 << 7));
    assert_eq!(engine.get_statistics().simulations_run, 0);
}

#[test]
fn search_errors() {
    let mut engine = MctsEngine::new();
    assert_eq!(engine.find_best_move(&board_with(&[], true)), Err(SearchError::NoLegalMoves));
    assert_eq!(
        engine.find_best_move(&board_with(&[(3, 64)], true)),
        Err(SearchError::Encoding(EncodingError::InvalidSquare { index: 3, value: 64 }))
    );
    assert_eq!(engine.cache_size(), 0);
    assert_eq!(engine.get_statistics().cache_misses, 2);
}

#[test]
fn single_piece_values() {
    assert_eq!(evaluate_position(&board_with(&[(40, 65)], true), false), 1);
    assert_eq!(evaluate_position(&board_with(&[(40, 65)], false), false), -1);
    assert_eq!(evaluate_position(&board_with(&[(40, 64 + 8 * 7 + 3)], true), false), 10);
    assert_eq!(evaluate_position(&board_with(&[(40, 2)], false), false), 3);
    assert_eq!(evaluate_position(&board_with(&[(40, 120)], true), false), 1000);
}

#[test]
fn two_kings_are_a_draw() {
    let board = board_with(&[(4, 56), (76, 120)], true);
    assert_eq!(evaluate_position(&board, true), 0);
    let engine = MctsEngine::with_config(EngineConfig { two_kings_draw: true, ..EngineConfig::default() });
    assert_eq!(engine.evaluate_board(&board), 0);
    let uneven = board_with(&[(4, 56), (76, 120), (40, 65)], true);
    assert_eq!(evaluate_position(&uneven, true), 1);
}

#[test]
fn simplified_moves() {
    let board = board_with(&[(40, 64 + 8 * 3 + 1), (31, 2)], true);
    let moved = apply_move_simple(&board, 40 | (31 << 7)).unwrap();
    assert_eq!(moved[40], 0);
    assert_eq!(moved[31], 64 + 8 * 3 + 1);
    assert_eq!(moved[81], 0);
    let lifted = apply_move_simple(&board, 40 | (31 << 7) | (1 << 14)).unwrap();
    assert_eq!(lifted[40], 65);
    assert_eq!(lifted[31], 67);
    assert_eq!(apply_move_simple(&board, 0 | (1 << 7)), Err(MoveError::NoPiece));
    assert_eq!(apply_move_simple(&board, 31 | (30 << 7) | (1 << 14)), Err(MoveError::NoTopPiece));
    assert_eq!(apply_move_simple(&board, 100), Err(MoveError::OutOfBounds));
    let king = board_with(&[(40, 120)], true);
    assert_eq!(apply_move_simple(&king, 40 | (31 << 7) | (1 << 14)), Err(MoveError::UnstackKing));
}

#[test]
fn best_average_wins_and_ties_go_first() {
    let s = |mv: u16, total: i64, simulations: u32| MoveScore { mv, total, simulations };
    assert_eq!(select_best(&vec![s(1, 10, 5), s(2, 9, 3), s(3, 6, 2)]), Some(1));
    assert_eq!(select_best(&vec![s(1, 4, 2), s(2, 6, 3)]), Some(0));
    assert_eq!(select_best(&vec![s(1, -4, 0), s(2, -6, 3)]), Some(1));
    assert_eq!(select_best(&vec![s(1, 0, 0)]), None);
}

#[test]
fn generated_codes_match_the_rules() {
    let board = board_with(&[(72, 65)], true);
    assert_eq!(generate_moves(&board).unwrap(), vec![72 | (64 << 7)]);
    assert_eq!(generate_moves(&board_with(&[(2, 8)], true)), Err(EncodingError::InvalidSquare { index: 2, value: 8 }));
}

#[test]
fn accelerator_records() {
    let board = board_with(&[(40, 65), (80, 120)], true);
    let item = GpuMoveApplication::new(&board, 40 | (31 << 7));
    assert_eq!(item.board.squares[40], 65);
    assert_eq!(item.board.white_to_move, 1);
    assert_eq!(item.move_encoding, 40 | (31 << 7));
    let back = item.result();
    assert_eq!(back.board, board);
    assert!(!back.valid);
    assert_eq!(GpuBoardState::from_encoded(&board).to_encoded(), board);
}

#[test]
fn statistics_reset_and_config_update() {
    let mut engine = MctsEngine::new();
    let _ = engine.find_best_move(&board_with(&[(9, 65)], true));
    assert_eq!(engine.get_statistics().cache_misses, 1);
    engine.reset_statistics();
    assert_eq!(engine.get_statistics(), SearchStatistics::default());
    assert_eq!(engine.cache_size(), 1);
    engine.set_config(EngineConfig { max_depth: 9, ..EngineConfig::default() });
    assert_eq!(engine.config().max_depth, 9);
    let mut stats = SearchStatistics { cache_hits: 4, ..SearchStatistics::default() };
    stats.reset();
    assert_eq!(stats, SearchStatistics::default());
}

#[test]
fn test_move_generation_initial_board() {
    let mut board = [0u8; 82];
    board[81] = 1;
    board[72] = 0b1000001;
    let moves = generate_moves(&board).unwrap();
    assert!(moves.len() > 0, "Expected at least one move for a soldier");
}

#[test]
fn without_rollouts_the_first_candidate_is_played() {
    let board = board_with(&[(40, 65)], true);
    let mut idle = MctsEngine::with_config(EngineConfig { simulations_per_move: 0, ..EngineConfig::default() });
    let first = generate_moves(&board).unwrap()[0];
    assert_eq!(idle.find_best_move(&board), Ok(first));
    assert_eq!(idle.find_cached(&board), Some(CachedEvaluation { best_move: first, total_score: 0, simulations: 0 }));
    assert_eq!(idle.get_statistics().simulations_run, 0);
}

#[test]
fn rollouts_replay_their_choices() {
    // White Soldier on E5, Black Soldier on F6; White to move, three plies.
    let board = board_with(&[(40, 65), (32, 1)], true);
    let engine = MctsEngine::with_config(EngineConfig { max_depth: 3, ..EngineConfig::default() });
    // Taking the Black Soldier leaves Black without a move: worth 1 to White.
    assert_eq!(engine.rollout_with_choices(&board, 1, &vec![0]), 1);
    assert_eq!(engine.rollout_with_choices(&board, 1, &vec![]), 1);
    // Stepping aside lets Black reply; the material is then even.
    assert_eq!(engine.rollout_with_choices(&board, 1, &vec![1, 0]), 0);
    assert_eq!(engine.rollout_with_choices(&board, 1, &vec![1, 0]), engine.rollout_with_choices(&board, 1, &vec![3, 2]));
    // No ply left: the position's own evaluation.
    assert_eq!(engine.rollout_with_choices(&board, 3, &vec![1]), 0);
}

#[test]
fn candidates_follow_the_rules() {
    // A White Soldier steps onto a White Guard: the rules stack it.
    let board = board_with(&[(40, 65), (32, 69)], true);
    let code = 40 | (32 << 7);
    let after = apply_candidate(&board, code).unwrap();
    assert_eq!(after[32], 64 + 8 + 5);
    assert_eq!(after[40], 0);
    assert_eq!(after[81], 0);
    assert_eq!(apply_move_simple(&board, code).unwrap()[32], 65);
    // A King cannot be unstacked, nor can an empty square move.
    let kings = board_with(&[(40, 120), (32, 69)], true);
    assert_eq!(apply_candidate(&kings, 40 | (31 << 7) | (1 << 14) | (1 << 15)), None);
    assert_eq!(apply_candidate(&board, 1 | (2 << 7)), None);
    assert_eq!(apply_candidate(&board, 90), None);
}

#[test]
fn batch_results_are_tallied() {
    let item = |score: i32, valid: bool| BatchSimulationResult { score, valid, board: [0u8; 82] };
    let tally = tally_batch(7, &vec![item(5, true), item(-3, true), item(100, false)]);
    assert_eq!(tally, MoveScore { mv: 7, total: -2, simulations: 2 });
    assert_eq!(tally_batch(1, &vec![]), MoveScore { mv: 1, total: 0, simulations: 0 });
}
