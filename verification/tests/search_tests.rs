use rust_chess::game::board::{ChessBoardState, ChessPiece, Color};
use rust_chess::search::Evaluator;

#[test]
fn piece_values_are_signed_material() {
    let eval = Evaluator::new();
    assert_eq!(eval.get_piece_value(ChessPiece::Empty), 0);
    assert_eq!(eval.get_piece_value(ChessPiece::PawnWhite), 100);
    assert_eq!(eval.get_piece_value(ChessPiece::PawnBlack), -100);
    assert_eq!(eval.get_piece_value(ChessPiece::KnightWhite), 300);
    assert_eq!(eval.get_piece_value(ChessPiece::BishopBlack), -300);
    assert_eq!(eval.get_piece_value(ChessPiece::RookWhite), 500);
    assert_eq!(eval.get_piece_value(ChessPiece::QueenBlack), -900);
    assert_eq!(eval.get_piece_value(ChessPiece::KingWhite), 100_000);
}

#[test]
fn static_score_balanced_at_start() {
    let eval = Evaluator::new();
    let board = ChessBoardState::new_from_fen("rnbqkbnr/pppppppp/8/8/8/8/PPPPPPPP/RNBQKBNR w KQkq - 0 1")
        .unwrap();
    assert_eq!(eval.simple_eval(&board), 0);
    // a missing black queen leaves white up by one queen
    let board = ChessBoardState::new_from_fen("rnb1kbnr/pppppppp/8/8/8/8/PPPPPPPP/RNBQKBNR w KQkq - 0 1")
        .unwrap();
    assert_eq!(eval.simple_eval(&board), 900);
}

#[test]
fn search_returns_a_generated_move() {
    let board = ChessBoardState::new_from_fen("rnbqkbnr/pppppppp/8/8/8/8/PPPPPPPP/RNBQKBNR w KQkq - 0 1")
        .unwrap();
    let mut eval = Evaluator::new();
    let (_, line) = eval.evaluate(&board, 2);
    assert!(line.len() >= 1);
    assert!(line.len() <= 2);
    let root_move = line.last().unwrap().0;
    assert!(board.get_all_moves().contains(&root_move));
    assert!(eval.low_level_eval_called > 0);
}

#[test]
fn search_takes_the_hanging_queen() {
    // the white queen can take the undefended black queen outright
    let board = ChessBoardState::new_from_fen("3q4/8/8/8/8/8/8/3QK3 w - - 0 1").unwrap();
    let mut eval = Evaluator::new();
    let (score, line) = eval.evaluate(&board, 2);
    let root_move = line.last().unwrap().0;
    assert_eq!(board.get_move_string(root_move), "Qd1-d8");
    assert!(score > 0);
}

#[test]
fn pruning_does_not_change_the_score() {
    let fens = [
        "rnbqkbnr/pppppppp/8/8/8/8/PPPPPPPP/RNBQKBNR w KQkq - 0 1",
        "r1b1kbnr/ppp3p1/2n5/1B1qppPp/3P3N/2N1B3/PPP2P1P/R2QK2R w Kq h6 1 38",
        "3q4/8/8/8/8/8/8/3QK3 w - - 0 1",
        "rnbqkbnr/pppppppp/8/8/8/8/PPPPPPPP/RNBQKBNR b KQkq - 0 1",
    ];
    for fen in fens {
        let board = ChessBoardState::new_from_fen(fen).unwrap();
        for depth in 1..=2usize {
            let mut pruned = Evaluator::new();
            let mut full = Evaluator::new();
            let (score, _) = pruned.evaluate(&board, depth);
            let full_score = full.evaluate_full(&board, depth);
            assert_eq!(score, full_score);
        }
    }
    // depth three on a couple of positions with a smaller move count
    for fen in ["3q4/8/8/8/8/8/8/3QK3 w - - 0 1", "4k3/8/8/8/8/8/4P3/4K3 w - - 0 1"] {
        let board = ChessBoardState::new_from_fen(fen).unwrap();
        let mut pruned = Evaluator::new();
        let mut full = Evaluator::new();
        let (score, _) = pruned.evaluate(&board, 3);
        let full_score = full.evaluate_full(&board, 3);
        assert_eq!(score, full_score);
    }
}

#[test]
fn search_reports_no_move_position_as_terminal() {
    // black has no pieces at all, so the side to move has no move
    let board = ChessBoardState::new_from_fen("8/8/8/8/8/8/8/4K3 b - - 0 1").unwrap();
    assert_eq!(board.get_all_moves().len(), 0);
    let mut eval = Evaluator::new();
    let (score, line) = eval.evaluate(&board, 3);
    // black (the minimizing side) has no move: reported as a maximal score
    // for white
    assert_eq!(score, 100_000_000);
    assert_eq!(line.len(), 0);
    assert_eq!(board.turn, Color::Black);
}
