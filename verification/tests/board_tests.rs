use rust_chess::game::board::{
    CastleStateFlag, ChessBoardState, ChessPiece, Color, Move, Pos, BOARD_ARRAY_SIZE,
};

#[test]
fn board_test_load_pos() {
    let pos1 = Pos::new_from_str("e2");
    let pos2 = Pos::new_from_str("c7");
    let pos3 = Pos::new_from_str("h1");
    let pos4 = Pos::new_from_str("");
    assert!(pos1.x == 4 && pos1.y == 1);
    assert!(pos2.x == 2 && pos2.y == 6);
    assert!(pos3.x == 7 && pos3.y == 0);
    assert!(pos4.x == 0 && pos4.y == 0);

    assert_eq!(pos1.get_code(), 0x14);
    assert_eq!(pos2.get_code(), 0x62);
    assert_eq!(pos3.get_code(), 0x07);
    assert_eq!(pos4.get_code(), 0x00);
}

#[test]
fn board_run_load_move() {
    let move1 = Move::new_from_str("e2-e4");
    assert_eq!(move1.get_code(), 0x3414);

    let move2 = Move::new_from_str("f4-h3");
    assert_eq!(move2.get_code(), 0x2735);
}

#[test]
fn board_test_load_fen() {
    let fen = ChessBoardState::new_from_fen("rnbqkbnr/pppppppp/8/8/8/8/PPPPPPPP/RNBQKBNR w KQkq - 0 1")
        .unwrap();
    assert!(fen.turn == Color::White);
}

#[test]
fn board_tests_run_load_move() {
    let move1 = Move::new_from_str("e2-e4");
    assert_eq!(move1.get_code(), 0x3414);

    let move2 = Move::new_from_str("f4-h3");
    assert_eq!(move2.get_code(), 0x2735);
}

#[test]
fn test_load_fen_default() {
    let fen = ChessBoardState::new_from_fen("rnbqkbnr/pppppppp/8/8/8/8/PPPPPPPP/RNBQKBNR w KQkq - 0 1")
        .unwrap();
    assert_eq!(fen.turn, Color::White);
    assert_eq!(fen.en_passant, 0xFF);
    assert_eq!(fen.castle_state_flags, 0x0F);
    assert_eq!(fen.move_num, 1);
    assert_eq!(fen.halfmoves_to_draw, 0);
    let expected = [
        ChessPiece::RookWhite, ChessPiece::KnightWhite, ChessPiece::BishopWhite, ChessPiece::QueenWhite, ChessPiece::KingWhite, ChessPiece::BishopWhite, ChessPiece::KnightWhite, ChessPiece::RookWhite,
        ChessPiece::PawnWhite, ChessPiece::PawnWhite, ChessPiece::PawnWhite, ChessPiece::PawnWhite, ChessPiece::PawnWhite, ChessPiece::PawnWhite, ChessPiece::PawnWhite, ChessPiece::PawnWhite,
        ChessPiece::Empty, ChessPiece::Empty, ChessPiece::Empty, ChessPiece::Empty, ChessPiece::Empty, ChessPiece::Empty, ChessPiece::Empty, ChessPiece::Empty,
        ChessPiece::Empty, ChessPiece::Empty, ChessPiece::Empty, ChessPiece::Empty, ChessPiece::Empty, ChessPiece::Empty, ChessPiece::Empty, ChessPiece::Empty,
        ChessPiece::Empty, ChessPiece::Empty, ChessPiece::Empty, ChessPiece::Empty, ChessPiece::Empty, ChessPiece::Empty, ChessPiece::Empty, ChessPiece::Empty,
        ChessPiece::Empty, ChessPiece::Empty, ChessPiece::Empty, ChessPiece::Empty, ChessPiece::Empty, ChessPiece::Empty, ChessPiece::Empty, ChessPiece::Empty,
        ChessPiece::PawnBlack, ChessPiece::PawnBlack, ChessPiece::PawnBlack, ChessPiece::PawnBlack, ChessPiece::PawnBlack, ChessPiece::PawnBlack, ChessPiece::PawnBlack, ChessPiece::PawnBlack,
        ChessPiece::RookBlack, ChessPiece::KnightBlack, ChessPiece::BishopBlack, ChessPiece::QueenBlack, ChessPiece::KingBlack, ChessPiece::BishopBlack, ChessPiece::KnightBlack, ChessPiece::RookBlack,
    ];
    for i in 0..BOARD_ARRAY_SIZE {
        assert_eq!(fen.board[i], expected[i]);
    }
}

#[test]
fn board_tests_test_load_fen() {
    let fen = ChessBoardState::new_from_fen(
        "r1b1kbnr/ppp3p1/2n5/1B1qppPp/3P3N/2N1B3/PPP2P1P/R2QK2R w Kq h6 1 38",
    )
    .unwrap();
    assert_eq!(fen.turn, Color::White);
    assert_eq!(fen.en_passant, 0x57);
    assert_eq!(
        fen.castle_state_flags,
        0x00 as u8 | CastleStateFlag::BlackLong.mask() | CastleStateFlag::WhiteShort.mask()
    );
    assert_eq!(fen.move_num, 38);
    assert_eq!(fen.halfmoves_to_draw, 1);
    let expected = [
        ChessPiece::RookWhite, ChessPiece::Empty, ChessPiece::Empty, ChessPiece::QueenWhite, ChessPiece::KingWhite, ChessPiece::Empty, ChessPiece::Empty, ChessPiece::RookWhite,
        ChessPiece::PawnWhite, ChessPiece::PawnWhite, ChessPiece::PawnWhite, ChessPiece::Empty, ChessPiece::Empty, ChessPiece::PawnWhite, ChessPiece::Empty, ChessPiece::PawnWhite,
        ChessPiece::Empty, ChessPiece::Empty, ChessPiece::KnightWhite, ChessPiece::Empty, ChessPiece::BishopWhite, ChessPiece::Empty, ChessPiece::Empty, ChessPiece::Empty,
        ChessPiece::Empty, ChessPiece::Empty, ChessPiece::Empty, ChessPiece::PawnWhite, ChessPiece::Empty, ChessPiece::Empty, ChessPiece::Empty, ChessPiece::KnightWhite,
        ChessPiece::Empty, ChessPiece::BishopWhite, ChessPiece::Empty, ChessPiece::QueenBlack, ChessPiece::PawnBlack, ChessPiece::PawnBlack, ChessPiece::PawnWhite, ChessPiece::PawnBlack,
        ChessPiece::Empty, ChessPiece::Empty, ChessPiece::KnightBlack, ChessPiece::Empty, ChessPiece::Empty, ChessPiece::Empty, ChessPiece::Empty, ChessPiece::Empty,
        ChessPiece::PawnBlack, ChessPiece::PawnBlack, ChessPiece::PawnBlack, ChessPiece::Empty, ChessPiece::Empty, ChessPiece::Empty, ChessPiece::PawnBlack, ChessPiece::Empty,
        ChessPiece::RookBlack, ChessPiece::Empty, ChessPiece::BishopBlack, ChessPiece::Empty, ChessPiece::KingBlack, ChessPiece::BishopBlack, ChessPiece::KnightBlack, ChessPiece::RookBlack,
    ];
    for i in 0..BOARD_ARRAY_SIZE {
        assert_eq!(fen.board[i], expected[i]);
    }
}

#[test]
fn fen_rejects_malformed_input() {
    assert!(ChessBoardState::new_from_fen("").is_none());
    assert!(ChessBoardState::new_from_fen("rnbqkbnr/pppppppp/8/8").is_none());
    assert!(ChessBoardState::new_from_fen(
        "rnbqkbnr/pppppppp/8/8/8/8/PPPPPPPP/RNBQKBNR x KQkq - 0 1"
    )
    .is_none());
    assert!(ChessBoardState::new_from_fen(
        "rnbqkbnr/pppppppp/8/8/8/8/PPPPPPPP/RNBQKBNR w KQxq - 0 1"
    )
    .is_none());
    assert!(ChessBoardState::new_from_fen(
        "rnbqkbnr/pppppppp/8/8/8/8/PPPPPPPP/RNBQKBNR w KQkq z9 0 1"
    )
    .is_none());
    assert!(ChessBoardState::new_from_fen(
        "rnbqkbnr/pppppppp/8/8/8/8/PPPPPPPP/RNBQKBNR w KQkq - 999 1"
    )
    .is_none());
}

#[test]
fn fen_error_messages_and_atomicity() {
    let mut board = ChessBoardState::new();
    let before = board.board;
    let r = board.parse_fen("only three fields");
    assert_eq!(r.unwrap_err(), "Wrong format");
    let r = board.parse_fen("rnbqkbnr/pppppppp/8/8/8/8/PPPPPPPP/RNBQKBNR x KQkq - 0 1");
    assert_eq!(r.unwrap_err(), "Wrong color");
    let r = board.parse_fen("rnbqkbnr/pppppppp/8/8/8/8/PPPPPPPP/RNBQKBNR w KQxq - 0 1");
    assert_eq!(r.unwrap_err(), "Wrong casle format");
    let r = board.parse_fen("rnbqkbnr/pppppppp/8/8/8/8/PPPPPPPP/RNBQKBNR w KQkq z9 0 1");
    assert_eq!(r.unwrap_err(), "Wrong en passant format");
    // every failed parse left the position untouched
    assert_eq!(board.turn, Color::White);
    for i in 0..BOARD_ARRAY_SIZE {
        assert_eq!(board.board[i], before[i]);
    }
    // and a successful parse fills it
    assert!(board
        .parse_fen("rnbqkbnr/pppppppp/8/8/8/8/PPPPPPPP/RNBQKBNR b KQkq - 3 9")
        .is_ok());
    assert_eq!(board.turn, Color::Black);
    assert_eq!(board.halfmoves_to_draw, 3);
    assert_eq!(board.move_num, 9);
}

#[test]
fn pos_code_roundtrip_all_squares() {
    for x in 0..8u8 {
        for y in 0..8u8 {
            let p = Pos { x, y };
            assert_eq!(Pos::new_from_code(p.get_code()), p);
        }
    }
}

#[test]
fn pos_and_move_strings() {
    let p = Pos { x: 4, y: 1 };
    assert_eq!(p.get_str(), "e2");
    let sentinel = Pos { x: 0x0F, y: 0x0F };
    assert_eq!(sentinel.get_str(), "-");
    let m = Move { from: Pos { x: 4, y: 1 }, to: Pos { x: 4, y: 3 } };
    assert_eq!(m.get_str(), "e2-e4");
}

#[test]
fn castle_state_string_order() {
    let mut board = ChessBoardState::new();
    board.castle_state_flags = 0x0F;
    assert_eq!(board.get_castle_state_str(), "KkQq");
    board.castle_state_flags = 0;
    assert_eq!(board.get_castle_state_str(), "-");
    board.castle_state_flags = CastleStateFlag::WhiteShort.mask() | CastleStateFlag::BlackLong.mask();
    assert_eq!(board.get_castle_state_str(), "Kq");
}

#[test]
fn piece_letters_roundtrip() {
    let pieces = [
        ChessPiece::PawnWhite, ChessPiece::PawnBlack, ChessPiece::RookWhite, ChessPiece::RookBlack,
        ChessPiece::KnightWhite, ChessPiece::KnightBlack, ChessPiece::BishopWhite, ChessPiece::BishopBlack,
        ChessPiece::KingWhite, ChessPiece::KingBlack, ChessPiece::QueenWhite, ChessPiece::QueenBlack,
    ];
    for p in pieces {
        assert_eq!(ChessPiece::new_from_u8(p.get_piece_u8()), p);
        assert!(p.get_color().is_some());
    }
    assert_eq!(ChessPiece::new_from_u8(b'.'), ChessPiece::Empty);
    assert_eq!(ChessPiece::new_from_u8(b'x'), ChessPiece::Empty);
    assert_eq!(ChessPiece::Empty.get_color(), None);
    assert_eq!(Color::new_from_u8(b'w'), Some(Color::White));
    assert_eq!(Color::new_from_u8(b'B'), Some(Color::Black));
    assert_eq!(Color::new_from_u8(b'z'), None);
    assert_eq!(Color::White.get_name(), "White");
    assert_eq!(Color::Black.get_name(), "Black");
}
