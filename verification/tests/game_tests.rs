use rust_chess::game::board::{ChessBoardState, ChessPiece, Color, Pos};
use rust_chess::game::rules::ChessMoveType;

#[test]
fn test_all_moves() {
    let board = ChessBoardState::new_from_fen(
        "r3k1n1/pPp3p1/Q1n2r2/1B1qppPp/1b1P3N/2N1B1Pb/PP5P/R3K2R w KQ h6 0 1",
    )
    .unwrap();
    let result = board.get_all_moves();
    let expected = [
        "Pa2-a3", "Pa2-a4", "Pb2-b3", "Ra1-b1", "Ra1-c1", "Ra1-d1", "Rh1-g1", "Rh1-f1",
        "Ke1-f1", "Ke1-d1", "Ke1-d2", "Ke1-e2", "Ke1-f2", "0-0-0", "Pg3-g4", "Pg5-h6e",
        "Pg5-g6", "Pg5-f6", "Nh4-g6", "Nh4-f5", "Nh4-f3", "Nh4-g2", "Be3-f4", "Be3-f2",
        "Be3-g1", "Be3-d2", "Be3-c1", "Pd4-e5", "Nc3-d5", "Nc3-e4", "Nc3-e2", "Nc3-d1",
        "Nc3-b1", "Nc3-a4", "Bb5-c6", "Bb5-c4", "Bb5-d3", "Bb5-e2", "Bb5-f1", "Bb5-a4",
        "Qa6-a5", "Qa6-a4", "Qa6-a3", "Qa6-b6", "Qa6-c6", "Qa6-a7", "Pb7-b8Q", "Pb7-b8R",
        "Pb7-b8B", "Pb7-b8N", "Pb7-a8Q", "Pb7-a8R", "Pb7-a8B", "Pb7-a8N",
    ];
    let mut v = vec![];
    for mv in &result {
        v.push(board.get_move_string(*mv));
        assert!(expected.contains(&board.get_move_string(*mv).as_str()));
    }
    for mv in expected {
        assert!(v.contains(&mv.to_string()));
    }
    assert_eq!(expected.len(), result.len());
}

#[test]
fn test_all_moves_filetered() {
    let board = ChessBoardState::new_from_fen(
        "r3k1n1/pPp3p1/Q1n2r2/1B1qppPp/1b1P3N/2N1B1Pb/PP5P/R3K2R w KQ h6 0 1",
    )
    .unwrap();
    let result = board.get_all_moves_checked();
    let expected = [
        "Pa2-a3", "Pa2-a4", "Pb2-b3", "Ra1-b1", "Ra1-c1", "Ra1-d1", "Rh1-g1", "Rh1-f1",
        "Ke1-f2", "Ke1-d1", "Ke1-d2", "Ke1-e2", "0-0-0", "Pg3-g4", "Pg5-h6e",
        "Pg5-g6", "Pg5-f6", "Nh4-g6", "Nh4-f5", "Nh4-f3", "Nh4-g2", "Be3-f4", "Be3-f2",
        "Be3-g1", "Be3-d2", "Be3-c1", "Pd4-e5", "Bb5-c6", "Bb5-c4", "Bb5-d3", "Bb5-e2", "Bb5-f1", "Bb5-a4",
        "Qa6-a5", "Qa6-a4", "Qa6-a3", "Qa6-b6", "Qa6-c6", "Qa6-a7", "Pb7-b8Q", "Pb7-b8R",
        "Pb7-b8B", "Pb7-b8N", "Pb7-a8Q", "Pb7-a8R", "Pb7-a8B", "Pb7-a8N",
    ];
    let mut v = vec![];
    for mv in &result {
        v.push(board.get_move_string(*mv));
        assert!(expected.contains(&board.get_move_string(*mv).as_str()));
    }
    for mv in expected {
        assert!(v.contains(&mv.to_string()));
    }
    assert_eq!(expected.len(), result.len());
}

#[test]
fn initial_position_has_twenty_legal_moves() {
    let board = ChessBoardState::new_from_fen("rnbqkbnr/pppppppp/8/8/8/8/PPPPPPPP/RNBQKBNR w KQkq - 0 1")
        .unwrap();
    assert_eq!(board.get_all_moves_checked().len(), 20);
    assert_eq!(board.get_all_moves().len(), 20);
}

#[test]
fn legal_moves_subset_of_pseudo_legal() {
    let fens = [
        "rnbqkbnr/pppppppp/8/8/8/8/PPPPPPPP/RNBQKBNR w KQkq - 0 1",
        "r3k1n1/pPp3p1/Q1n2r2/1B1qppPp/1b1P3N/2N1B1Pb/PP5P/R3K2R w KQ h6 0 1",
        "r1b1kbnr/ppp3p1/2n5/1B1qppPp/3P3N/2N1B3/PPP2P1P/R2QK2R w Kq h6 1 38",
    ];
    for fen in fens {
        let board = ChessBoardState::new_from_fen(fen).unwrap();
        let all = board.get_all_moves();
        let legal = board.get_all_moves_checked();
        assert!(legal.len() <= all.len());
        for mv in &legal {
            assert!(all.contains(mv));
        }
    }
}

#[test]
fn exactly_one_en_passant_and_eight_promotions() {
    let board = ChessBoardState::new_from_fen(
        "r3k1n1/pPp3p1/Q1n2r2/1B1qppPp/1b1P3N/2N1B1Pb/PP5P/R3K2R w KQ h6 0 1",
    )
    .unwrap();
    let legal = board.get_all_moves_checked();
    let ep: Vec<_> = legal
        .iter()
        .filter(|m| m.move_type == ChessMoveType::EnPassant)
        .collect();
    assert_eq!(ep.len(), 1);
    assert_eq!(board.get_move_string(*ep[0]), "Pg5-h6e");
    let proms: Vec<_> = legal
        .iter()
        .filter(|m| matches!(m.move_type, ChessMoveType::Promotion(_)))
        .collect();
    assert_eq!(proms.len(), 8);
}

#[test]
fn promotion_yields_four_distinct_moves_per_target() {
    let board = ChessBoardState::new_from_fen(
        "r3k1n1/pPp3p1/Q1n2r2/1B1qppPp/1b1P3N/2N1B1Pb/PP5P/R3K2R w KQ h6 0 1",
    )
    .unwrap();
    let from_b7 = board.get_all_moves_from_pos(Pos { x: 1, y: 6 });
    assert_eq!(from_b7.len(), 8);
    for chunk in from_b7.chunks(4) {
        // four variants of the same square pair, with distinct pieces
        let mut pieces = vec![];
        for m in chunk {
            assert_eq!(m.mv, chunk[0].mv);
            match m.move_type {
                ChessMoveType::Promotion(p) => {
                    assert!(!pieces.contains(&p));
                    pieces.push(p);
                },
                _ => panic!("expected a promotion"),
            }
        }
        assert_eq!(pieces.len(), 4);
    }
}

#[test]
fn castle_application_moves_king_and_rook() {
    let board = ChessBoardState::new_from_fen("r3k2r/8/8/8/8/8/8/R3K2R w KQkq - 0 1").unwrap();
    // white king-side castle
    let mv = board.get_chess_move_from_string("0-0").unwrap();
    assert_eq!(mv.move_type, ChessMoveType::CastleShort);
    assert!(board.is_legal_move(mv));
    let after = board.get_new_pos_after_move(mv);
    assert_eq!(after.get_piece(Pos { x: 6, y: 0 }).unwrap(), ChessPiece::KingWhite);
    assert_eq!(after.get_piece(Pos { x: 5, y: 0 }).unwrap(), ChessPiece::RookWhite);
    assert_eq!(after.get_piece(Pos { x: 4, y: 0 }).unwrap(), ChessPiece::Empty);
    assert_eq!(after.get_piece(Pos { x: 7, y: 0 }).unwrap(), ChessPiece::Empty);
    assert_eq!(after.castle_state_flags & 0x03, 0);
    // white queen-side castle
    let mv = board.get_chess_move_from_string("0-0-0").unwrap();
    assert_eq!(mv.move_type, ChessMoveType::CastleLong);
    assert!(board.is_legal_move(mv));
    let after = board.get_new_pos_after_move(mv);
    assert_eq!(after.get_piece(Pos { x: 2, y: 0 }).unwrap(), ChessPiece::KingWhite);
    assert_eq!(after.get_piece(Pos { x: 3, y: 0 }).unwrap(), ChessPiece::RookWhite);
    assert_eq!(after.get_piece(Pos { x: 4, y: 0 }).unwrap(), ChessPiece::Empty);
    assert_eq!(after.get_piece(Pos { x: 0, y: 0 }).unwrap(), ChessPiece::Empty);
    assert_eq!(after.castle_state_flags & 0x03, 0);
    // black castling rights survive a white castle
    assert_eq!(after.castle_state_flags & 0x0C, 0x0C);
}

#[test]
fn en_passant_removes_pawn_behind_destination() {
    let board = ChessBoardState::new_from_fen(
        "r3k1n1/pPp3p1/Q1n2r2/1B1qppPp/1b1P3N/2N1B1Pb/PP5P/R3K2R w KQ h6 0 1",
    )
    .unwrap();
    let mv = board.get_chess_move_from_string("g5-h6").unwrap();
    assert_eq!(mv.move_type, ChessMoveType::EnPassant);
    assert!(board.is_legal_move(mv));
    // before: the captured black pawn stands on h5, behind the target h6
    assert_eq!(board.get_piece(Pos { x: 7, y: 4 }).unwrap(), ChessPiece::PawnBlack);
    let after = board.get_new_pos_after_move(mv);
    // the pawn behind the destination is removed, not the destination
    assert_eq!(after.get_piece(Pos { x: 7, y: 4 }).unwrap(), ChessPiece::Empty);
    assert_eq!(after.get_piece(Pos { x: 7, y: 5 }).unwrap(), ChessPiece::PawnWhite);
    assert_eq!(after.get_piece(Pos { x: 6, y: 4 }).unwrap(), ChessPiece::Empty);
}

#[test]
fn double_push_sets_en_passant_target_and_clock() {
    let board = ChessBoardState::new_from_fen("rnbqkbnr/pppppppp/8/8/8/8/PPPPPPPP/RNBQKBNR w KQkq - 0 1")
        .unwrap();
    let mv = board.get_chess_move_from_string("e2-e4").unwrap();
    assert!(board.is_legal_move(mv));
    let after = board.get_new_pos_after_move(mv);
    // target is e3, the square the pawn jumped over
    assert_eq!(after.en_passant, Pos { x: 4, y: 2 }.get_code());
    assert_eq!(after.halfmoves_to_draw, 0);
    assert_eq!(after.move_num, 1);
    // a quiet knight reply clears the target and advances the clock
    let reply = after.get_chess_move_from_string("g8-f6").unwrap();
    assert!(after.is_legal_move(reply));
    let after2 = after.get_new_pos_after_move(reply);
    assert_eq!(after2.en_passant, 0xFF);
    assert_eq!(after2.halfmoves_to_draw, 1);
    assert_eq!(after2.move_num, 2);
}

#[test]
fn illegal_requests_are_rejected() {
    let board = ChessBoardState::new_from_fen("rnbqkbnr/pppppppp/8/8/8/8/PPPPPPPP/RNBQKBNR w KQkq - 0 1")
        .unwrap();
    // malformed text parses to no move
    assert!(board.get_chess_move_from_string("zz").is_none());
    assert!(board.get_chess_move_from_string("").is_none());
    // moving from an empty square is illegal
    let mv = board.get_chess_move_from_string("e4-e5").unwrap();
    assert!(!board.is_legal_move(mv));
    // moving the opponent's piece is illegal
    let mv = board.get_chess_move_from_string("e7-e5").unwrap();
    assert!(!board.is_legal_move(mv));
    // a rook cannot jump over the pawn wall
    let mv = board.get_chess_move_from_string("a1-a3").unwrap();
    assert!(!board.is_legal_move(mv));
}

#[test]
fn king_attack_detection() {
    // black queen pins nothing but checks the white king down the e-file
    let board = ChessBoardState::new_from_fen("4q3/8/8/8/8/8/8/4K3 w - - 0 1").unwrap();
    assert!(board.get_king_attacked(Color::White));
    assert!(!board.get_king_attacked(Color::Black));
    // blocked check
    let board = ChessBoardState::new_from_fen("4q3/8/8/4P3/8/8/8/4K3 w - - 0 1").unwrap();
    assert!(!board.get_king_attacked(Color::White));
    // knight check ignores blockers
    let board = ChessBoardState::new_from_fen("8/8/8/8/8/3n4/8/4K3 w - - 0 1").unwrap();
    assert!(board.get_king_attacked(Color::White));
    // a pawn directly ahead gives no check; one on the capture diagonal does
    let board = ChessBoardState::new_from_fen("8/8/8/8/8/8/4p3/4K3 w - - 0 1").unwrap();
    assert!(!board.get_king_attacked(Color::White));
    let board = ChessBoardState::new_from_fen("8/8/8/8/8/8/3p4/4K3 w - - 0 1").unwrap();
    assert!(board.get_king_attacked(Color::White));
}
