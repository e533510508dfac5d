//! Move kinds, state transition (applying a move to a position) and attack
//! detection.
//!
//! Application is specified by [`move_applied`] / [`move_result_of`]: pure
//! functions from the old position and the move to the new position and the
//! recorded effect. Application performs no rule validation; callers must
//! hand it moves obtained from the generator or checked with
//! `is_legal_move`.

use vstd::array::spec_array_update;
use vstd::prelude::*;

use crate::game::board::{
    move_chars, on_board, piece_byte, piece_color, pos_code, pos_from_code, pos_idx, pos_on_board,
    ChessBoardState, ChessPiece, Color, Move, Pos,
};

verus! {

/// The kind of a move: plain, en-passant capture, one of the two castles,
/// or a promotion carrying the resulting piece.
#[derive(Clone, Copy, PartialEq, Eq, Structural, Debug)]
pub enum ChessMoveType {
    Simple,
    EnPassant,
    CastleLong,
    CastleShort,
    Promotion(ChessPiece),
}

/// A move: the (from, to) square pair and its kind.
#[derive(Clone, Copy, PartialEq, Eq, Structural, Debug)]
pub struct ChessMove {
    pub mv: Move,
    pub move_type: ChessMoveType,
}

/// The effect of applying a move: the piece newly created on the
/// destination (for promotions) and the piece removed from the board.
#[derive(Clone, Copy, PartialEq, Eq, Structural, Debug)]
pub struct MoveResult {
    pub new: ChessPiece,
    pub remove: ChessPiece,
}

/// Text form of a move: `"0-0"` / `"0-0-0"` for castles, the square pair
/// for a plain move, with a trailing `'e'` for en passant or the promotion
/// piece letter for a promotion.
pub open spec fn chess_move_chars(m: ChessMove) -> Seq<char> {
    match m.move_type {
        ChessMoveType::Simple => move_chars(m.mv),
        ChessMoveType::EnPassant => move_chars(m.mv) + seq!['e'],
        ChessMoveType::CastleLong => "0-0-0"@,
        ChessMoveType::CastleShort => "0-0"@,
        ChessMoveType::Promotion(x) => move_chars(m.mv) + seq![piece_byte(x) as char],
    }
}

impl ChessMove {
    /// Render the move in its short text form.
    pub fn get_move_string(&self) -> (r: String)
        requires
            pos_on_board(self.mv.from) || (self.mv.from.x == 0x0F && self.mv.from.y == 0x0F),
            pos_on_board(self.mv.to) || (self.mv.to.x == 0x0F && self.mv.to.y == 0x0F),
        ensures
            r@ == chess_move_chars(*self),
    {
        match self.move_type {
            ChessMoveType::Simple => self.mv.get_str(),
            ChessMoveType::EnPassant => {
                let r = self.mv.get_str().concat("e");
                proof {
                    reveal_strlit("e");
                    assert(r@ =~= chess_move_chars(*self));
                }
                r
            },
            ChessMoveType::CastleLong => String::from_str("0-0-0"),
            ChessMoveType::CastleShort => String::from_str("0-0"),
            ChessMoveType::Promotion(x) => {
                let r = self.mv.get_str().concat(piece_letter_str(x));
                proof {
                    assert(r@ =~= chess_move_chars(*self));
                }
                r
            },
        }
    }
}

/// The notation letter of a piece, as a one-character string.
pub fn piece_letter_str(p: ChessPiece) -> (r: &'static str)
    ensures
        r@ =~= seq![piece_byte(p) as char],
{
    proof {
        reveal_strlit(".");
        reveal_strlit("P");
        reveal_strlit("p");
        reveal_strlit("R");
        reveal_strlit("r");
        reveal_strlit("N");
        reveal_strlit("n");
        reveal_strlit("B");
        reveal_strlit("b");
        reveal_strlit("K");
        reveal_strlit("k");
        reveal_strlit("Q");
        reveal_strlit("q");
    }
    match p {
        ChessPiece::Empty => ".",
        ChessPiece::PawnWhite => "P",
        ChessPiece::PawnBlack => "p",
        ChessPiece::RookWhite => "R",
        ChessPiece::RookBlack => "r",
        ChessPiece::KnightWhite => "N",
        ChessPiece::KnightBlack => "n",
        ChessPiece::BishopWhite => "B",
        ChessPiece::BishopBlack => "b",
        ChessPiece::KingWhite => "K",
        ChessPiece::KingBlack => "k",
        ChessPiece::QueenWhite => "Q",
        ChessPiece::QueenBlack => "q",
    }
}

impl MoveResult {
    /// The effect of a plain capture: nothing created, `p` removed.
    pub fn capture(p: ChessPiece) -> (r: MoveResult)
        ensures
            r == (MoveResult { new: ChessPiece::Empty, remove: p }),
    {
        MoveResult { new: ChessPiece::Empty, remove: p }
    }
}

/// The king piece of a side.
pub open spec fn king_of(color: Color) -> ChessPiece {
    if color == Color::White {
        ChessPiece::KingWhite
    } else {
        ChessPiece::KingBlack
    }
}

/// Castling rights left after a move originating on `from`: a move leaving
/// a king or rook home square clears the right(s) owned by that square.
pub open spec fn clear_castle(flags: u8, from: Pos) -> u8 {
    let f1 = if from.y == 0 && (from.x == 0 || from.x == 4) {
        flags & !1u8
    } else {
        flags
    };
    let f2 = if from.y == 0 && (from.x == 7 || from.x == 4) {
        f1 & !2u8
    } else {
        f1
    };
    let f3 = if from.y == 7 && (from.x == 0 || from.x == 4) {
        f2 & !4u8
    } else {
        f2
    };
    if from.y == 7 && (from.x == 7 || from.x == 4) {
        f3 & !8u8
    } else {
        f3
    }
}

/// Move bookkeeping: reset or advance the halfmove clock, advance the move
/// number after a black move, flip the side to move, clear the en-passant
/// target. The piece layout is untouched.
pub open spec fn counted(b: ChessBoardState, pawn_move: bool, capture: bool) -> ChessBoardState {
    ChessBoardState {
        halfmoves_to_draw: if pawn_move || capture {
            0u8
        } else if b.halfmoves_to_draw == 255 {
            0u8
        } else {
            (b.halfmoves_to_draw + 1) as u8
        },
        move_num: if b.turn != Color::Black {
            b.move_num
        } else if b.move_num == 0xFFFF {
            0u16
        } else {
            (b.move_num + 1) as u16
        },
        turn: if b.turn == Color::White {
            Color::Black
        } else {
            Color::White
        },
        en_passant: 0xFF,
        ..b
    }
}

/// The position after a plain (from, to) move: the origin piece moves to
/// the destination, bookkeeping runs, a double pawn push records the
/// en-passant target, and castling rights owned by the origin square are
/// cleared.
pub open spec fn simple_moved(b: ChessBoardState, mv: Move) -> ChessBoardState {
    let piece = b.board@[pos_idx(mv.from)];
    let pawn = piece == ChessPiece::PawnWhite || piece == ChessPiece::PawnBlack;
    let captured = b.board@[pos_idx(mv.to)];
    let c = counted(b, pawn, captured != ChessPiece::Empty);
    let board2 = spec_array_update(
        spec_array_update(b.board, pos_idx(mv.to), piece),
        pos_idx(mv.from),
        ChessPiece::Empty,
    );
    let ep = if pawn && mv.from.y == 1 && mv.to.y == 3 {
        pos_code(Pos { x: mv.from.x, y: 2 })
    } else if pawn && mv.from.y == 6 && mv.to.y == 4 {
        pos_code(Pos { x: mv.from.x, y: 5 })
    } else {
        c.en_passant
    };
    ChessBoardState {
        board: board2,
        en_passant: ep,
        castle_state_flags: clear_castle(b.castle_state_flags, mv.from),
        ..c
    }
}

/// The effect a plain move records: whatever stood on the destination.
pub open spec fn simple_move_result(b: ChessBoardState, mv: Move) -> MoveResult {
    MoveResult { new: ChessPiece::Empty, remove: b.board@[pos_idx(mv.to)] }
}

/// The cell an en-passant capture removes: one rank behind the recorded
/// target square, relative to the mover's direction.
pub open spec fn ep_capture_pos(b: ChessBoardState, color: Color) -> Pos {
    let e = pos_from_code(b.en_passant);
    Pos {
        x: e.x,
        y: if color == Color::White {
            if e.y >= 1 {
                (e.y - 1) as u8
            } else {
                255u8
            }
        } else {
            if e.y <= 254 {
                (e.y + 1) as u8
            } else {
                0u8
            }
        },
    }
}

/// The position after an en-passant capture: the enemy pawn behind the
/// target square is removed, then the plain move runs.
pub open spec fn ep_applied(b: ChessBoardState, mv: Move) -> ChessBoardState {
    let color = piece_color(b.board@[pos_idx(mv.from)])->0;
    let cap = ep_capture_pos(b, color);
    simple_moved(
        ChessBoardState { board: spec_array_update(b.board, pos_idx(cap), ChessPiece::Empty), ..b },
        mv,
    )
}

/// The effect an en-passant capture records: the pawn behind the target.
pub open spec fn ep_result(b: ChessBoardState, mv: Move) -> MoveResult {
    let color = piece_color(b.board@[pos_idx(mv.from)])->0;
    MoveResult {
        new: ChessPiece::Empty,
        remove: b.board@[pos_idx(ep_capture_pos(b, color))],
    }
}

/// Home square of the rook taking part in a castle.
pub open spec fn castle_rook_from(color: Color, mt: ChessMoveType) -> Pos {
    let y: u8 = if color == Color::White {
        0
    } else {
        7
    };
    if mt == ChessMoveType::CastleShort {
        Pos { x: 7, y }
    } else {
        Pos { x: 0, y }
    }
}

/// Square the rook jumps to in a castle.
pub open spec fn castle_rook_to(color: Color, mt: ChessMoveType) -> Pos {
    let y: u8 = if color == Color::White {
        0
    } else {
        7
    };
    if mt == ChessMoveType::CastleShort {
        Pos { x: 5, y }
    } else {
        Pos { x: 3, y }
    }
}

/// The position after a castle: the king's plain move runs, then the
/// side's rook is relocated from its home square to the square it jumps to.
pub open spec fn castle_applied(b: ChessBoardState, mv: Move, mt: ChessMoveType) -> ChessBoardState {
    let color = piece_color(b.board@[pos_idx(mv.from)])->0;
    let s = simple_moved(b, mv);
    let rf = castle_rook_from(color, mt);
    let rt = castle_rook_to(color, mt);
    ChessBoardState {
        board: spec_array_update(
            spec_array_update(s.board, pos_idx(rt), s.board@[pos_idx(rf)]),
            pos_idx(rf),
            ChessPiece::Empty,
        ),
        ..s
    }
}

/// The position after a promotion: the plain move runs, then the chosen
/// piece overwrites the destination.
pub open spec fn promotion_applied(b: ChessBoardState, mv: Move, promotion: ChessPiece) -> ChessBoardState {
    let s = simple_moved(b, mv);
    ChessBoardState {
        board: spec_array_update(s.board, pos_idx(mv.to), promotion),
        ..s
    }
}

/// The position after applying a move of any kind.
pub open spec fn move_applied(b: ChessBoardState, cm: ChessMove) -> ChessBoardState {
    match cm.move_type {
        ChessMoveType::Simple => simple_moved(b, cm.mv),
        ChessMoveType::EnPassant => ep_applied(b, cm.mv),
        ChessMoveType::CastleLong => castle_applied(b, cm.mv, ChessMoveType::CastleLong),
        ChessMoveType::CastleShort => castle_applied(b, cm.mv, ChessMoveType::CastleShort),
        ChessMoveType::Promotion(x) => promotion_applied(b, cm.mv, x),
    }
}

/// The effect applying a move of any kind records.
pub open spec fn move_result_of(b: ChessBoardState, cm: ChessMove) -> MoveResult {
    match cm.move_type {
        ChessMoveType::Simple => simple_move_result(b, cm.mv),
        ChessMoveType::EnPassant => ep_result(b, cm.mv),
        ChessMoveType::CastleLong => MoveResult { new: ChessPiece::Empty, remove: ChessPiece::Empty },
        ChessMoveType::CastleShort => MoveResult {
            new: ChessPiece::Empty,
            remove: ChessPiece::Empty,
        },
        ChessMoveType::Promotion(x) => MoveResult {
            new: x,
            remove: simple_move_result(b, cm.mv).remove,
        },
    }
}

/// What applying a move needs of the position so that every cell it touches
/// is on the board and every unwrapped color exists. Moves produced by the
/// generator satisfy this.
pub open spec fn move_applicable(b: ChessBoardState, cm: ChessMove) -> bool {
    &&& pos_on_board(cm.mv.from)
    &&& pos_on_board(cm.mv.to)
    &&& match cm.move_type {
        ChessMoveType::Simple => true,
        ChessMoveType::Promotion(_) => true,
        ChessMoveType::EnPassant => {
            &&& piece_color(b.board@[pos_idx(cm.mv.from)]) is Some
            &&& pos_on_board(
                ep_capture_pos(b, piece_color(b.board@[pos_idx(cm.mv.from)])->0),
            )
        },
        ChessMoveType::CastleLong | ChessMoveType::CastleShort => {
            &&& piece_color(b.board@[pos_idx(cm.mv.from)]) is Some
        },
    }
}

impl ChessBoardState {
    /// Run the per-move bookkeeping (see [`counted`]).
    fn count_move(&mut self, pawn_move: bool, capture: bool)
        ensures
            *final(self) == counted(*old(self), pawn_move, capture),
    {
        self.halfmoves_to_draw = if pawn_move || capture {
            0
        } else if self.halfmoves_to_draw == 255 {
            0
        } else {
            self.halfmoves_to_draw + 1
        };
        if self.turn == Color::Black {
            self.move_num = if self.move_num == 0xFFFF {
                0
            } else {
                self.move_num + 1
            };
        }
        self.turn = if self.turn == Color::White {
            Color::Black
        } else {
            Color::White
        };
        self.en_passant = 0xFF;
        proof {
            assert(*self =~= counted(*old(self), pawn_move, capture));
        }
    }

    /// Clear the castling rights owned by the origin square of a move: once
    /// a piece moves off a king or rook home square, that king or rook has
    /// moved at least once.
    fn update_castle_flags(&mut self, mv: Move)
        ensures
            *final(self) == (ChessBoardState {
                castle_state_flags: clear_castle(old(self).castle_state_flags, mv.from),
                ..*old(self)
            }),
    {
        if mv.from.y == 0 && (mv.from.x == 0 || mv.from.x == 4) {
            self.castle_state_flags = self.castle_state_flags & !1u8;
        }
        if mv.from.y == 0 && (mv.from.x == 7 || mv.from.x == 4) {
            self.castle_state_flags = self.castle_state_flags & !2u8;
        }
        if mv.from.y == 7 && (mv.from.x == 0 || mv.from.x == 4) {
            self.castle_state_flags = self.castle_state_flags & !4u8;
        }
        if mv.from.y == 7 && (mv.from.x == 7 || mv.from.x == 4) {
            self.castle_state_flags = self.castle_state_flags & !8u8;
        }
        proof {
            assert(*self =~= (ChessBoardState {
                castle_state_flags: clear_castle(old(self).castle_state_flags, mv.from),
                ..*old(self)
            }));
        }
    }

    /// Apply a plain (from, to) move without any rule check.
    fn make_simple_move_force(&mut self, mv: Move) -> (r: MoveResult)
        requires
            pos_on_board(mv.from),
            pos_on_board(mv.to),
        ensures
            *final(self) == simple_moved(*old(self), mv),
            r == simple_move_result(*old(self), mv),
    {
        let captured = self.get_piece_unsafe(mv.to);
        let capture = captured != ChessPiece::Empty;
        let pawn_move = self.get_piece_unsafe(mv.from) == ChessPiece::PawnBlack
            || self.get_piece_unsafe(mv.from) == ChessPiece::PawnWhite;
        let moving = self.get_piece_unsafe(mv.from);
        self.count_move(pawn_move, capture);

        self.set_piece_unsafe(mv.to, moving);
        self.set_piece_unsafe(mv.from, ChessPiece::Empty);
        if pawn_move && mv.from.y == 1 && mv.to.y == 3 {
            self.en_passant = Pos { x: mv.from.x, y: 2 }.get_code();
        }
        if pawn_move && mv.from.y == 6 && mv.to.y == 4 {
            self.en_passant = Pos { x: mv.from.x, y: 5 }.get_code();
        }
        self.update_castle_flags(mv);
        proof {
            assert(*self =~= simple_moved(*old(self), mv));
        }
        MoveResult::capture(captured)
    }

    /// Apply an en-passant capture: remove the enemy pawn behind the
    /// recorded target square, then run the plain move.
    fn apply_en_passant(&mut self, mv: Move) -> (r: MoveResult)
        requires
            pos_on_board(mv.from),
            pos_on_board(mv.to),
            piece_color(old(self).board@[pos_idx(mv.from)]) is Some,
            pos_on_board(
                ep_capture_pos(*old(self), piece_color(old(self).board@[pos_idx(mv.from)])->0),
            ),
        ensures
            *final(self) == ep_applied(*old(self), mv),
            r == ep_result(*old(self), mv),
    {
        let color = self.get_piece_unsafe(mv.from).get_color().unwrap();
        let mut pos = Pos::new_from_code(self.en_passant);
        if color == Color::White {
            pos.y = if pos.y >= 1 {
                pos.y - 1
            } else {
                255
            };
        } else {
            pos.y = if pos.y <= 254 {
                pos.y + 1
            } else {
                0
            };
        }
        proof {
            assert(pos == ep_capture_pos(*old(self), color));
        }
        let captured = self.get_piece_unsafe(pos);
        self.set_piece_unsafe(pos, ChessPiece::Empty);
        self.make_simple_move_force(mv);
        proof {
            assert(*self =~= ep_applied(*old(self), mv));
        }
        MoveResult::capture(captured)
    }

    /// Apply a castle: run the king's plain move, then relocate the rook.
    fn apply_castle(&mut self, mv: Move, move_type: ChessMoveType) -> (r: MoveResult)
        requires
            pos_on_board(mv.from),
            pos_on_board(mv.to),
            piece_color(old(self).board@[pos_idx(mv.from)]) is Some,
            move_type == ChessMoveType::CastleShort || move_type == ChessMoveType::CastleLong,
        ensures
            *final(self) == castle_applied(*old(self), mv, move_type),
            r == (MoveResult { new: ChessPiece::Empty, remove: ChessPiece::Empty }),
    {
        let color = self.get_piece_unsafe(mv.from).get_color().unwrap();
        self.make_simple_move_force(mv);
        let from: Pos;
        let to: Pos;
        if color == Color::White && move_type == ChessMoveType::CastleShort {
            from = Pos::new_from_coords(7, 0);
            to = Pos::new_from_coords(5, 0);
        } else if color == Color::White && move_type == ChessMoveType::CastleLong {
            from = Pos::new_from_coords(0, 0);
            to = Pos::new_from_coords(3, 0);
        } else if color == Color::Black && move_type == ChessMoveType::CastleShort {
            from = Pos::new_from_coords(7, 7);
            to = Pos::new_from_coords(5, 7);
        } else {
            from = Pos::new_from_coords(0, 7);
            to = Pos::new_from_coords(3, 7);
        }
        let rook = self.get_piece_unsafe(from);
        self.set_piece_unsafe(to, rook);
        self.set_piece_unsafe(from, ChessPiece::Empty);
        proof {
            assert(*self =~= castle_applied(*old(self), mv, move_type));
        }
        MoveResult { new: ChessPiece::Empty, remove: ChessPiece::Empty }
    }

    /// Apply a promotion: run the plain move, then overwrite the
    /// destination with the chosen piece.
    fn apply_promotion(&mut self, mv: Move, promotion: ChessPiece) -> (r: MoveResult)
        requires
            pos_on_board(mv.from),
            pos_on_board(mv.to),
        ensures
            *final(self) == promotion_applied(*old(self), mv, promotion),
            r == (MoveResult { new: promotion, remove: simple_move_result(*old(self), mv).remove }),
    {
        let res = self.make_simple_move_force(mv);
        self.set_piece_unsafe(mv.to, promotion);
        proof {
            assert(*self =~= promotion_applied(*old(self), mv, promotion));
        }
        MoveResult { new: promotion, remove: res.remove }
    }

    /// Apply a move of any kind without any rule check.
    fn apply_move_force(&mut self, mv: ChessMove) -> (r: MoveResult)
        requires
            move_applicable(*old(self), mv),
        ensures
            *final(self) == move_applied(*old(self), mv),
            r == move_result_of(*old(self), mv),
    {
        match mv.move_type {
            ChessMoveType::Simple => self.make_simple_move_force(mv.mv),
            ChessMoveType::EnPassant => self.apply_en_passant(mv.mv),
            ChessMoveType::Promotion(x) => self.apply_promotion(mv.mv, x),
            ChessMoveType::CastleLong | ChessMoveType::CastleShort => self.apply_castle(
                mv.mv,
                mv.move_type,
            ),
        }
    }

    /// The position after applying `mv` to a copy of this one; this
    /// position itself is untouched.
    pub fn get_new_pos_after_move(&self, mv: ChessMove) -> (r: ChessBoardState)
        requires
            move_applicable(*self, mv),
        ensures
            r == move_applied(*self, mv),
    {
        let mut new_board = *self;
        new_board.apply_move_force(mv);
        new_board
    }

    /// As [`Self::get_new_pos_after_move`], also handing back the recorded
    /// effect, for incremental evaluation.
    pub fn get_new_pos_after_move_for_eval(&self, mv: ChessMove) -> (r: (
        ChessBoardState,
        MoveResult,
    ))
        requires
            move_applicable(*self, mv),
        ensures
            r.0 == move_applied(*self, mv),
            r.1 == move_result_of(*self, mv),
    {
        let mut new_board = *self;
        let res = new_board.apply_move_force(mv);
        (new_board, res)
    }
}

/// A castle moves the king and its own side's rook to their post-castle
/// squares, empties their home squares, and clears both of that side's
/// castling-rights bits.
pub proof fn lemma_castle_effect(b: ChessBoardState, color: Color, mt: ChessMoveType)
    requires
        mt == ChessMoveType::CastleShort || mt == ChessMoveType::CastleLong,
        b.board@[pos_idx(castle_king_from(color))] == king_of(color),
    ensures
        ({
            let cm = castle_move_of(color, mt);
            let after = move_applied(b, cm);
            &&& after.board@[pos_idx(cm.mv.to)] == king_of(color)
            &&& after.board@[pos_idx(castle_rook_to(color, mt))] == b.board@[pos_idx(
                castle_rook_from(color, mt),
            )]
            &&& after.board@[pos_idx(castle_king_from(color))] == ChessPiece::Empty
            &&& after.board@[pos_idx(castle_rook_from(color, mt))] == ChessPiece::Empty
            &&& after.castle_state_flags & (if color == Color::White {
                3u8
            } else {
                12u8
            }) == 0
        }),
{
    let cm = castle_move_of(color, mt);
    let after = move_applied(b, cm);
    let f = clear_castle(b.castle_state_flags, cm.mv.from);
    if color == Color::White {
        let fl = b.castle_state_flags;
        assert(((fl & !1u8) & !2u8) & 3u8 == 0) by (bit_vector);
    } else {
        let fl = b.castle_state_flags;
        assert(((fl & !4u8) & !8u8) & 12u8 == 0) by (bit_vector);
    }
}

/// The king's home square for a side.
pub open spec fn castle_king_from(color: Color) -> Pos {
    Pos {
        x: 4,
        y: if color == Color::White {
            0
        } else {
            7
        },
    }
}

/// The castle move of a side: king two files toward the chosen rook.
pub open spec fn castle_move_of(color: Color, mt: ChessMoveType) -> ChessMove {
    let y: u8 = if color == Color::White {
        0
    } else {
        7
    };
    ChessMove {
        mv: Move {
            from: Pos { x: 4, y },
            to: Pos {
                x: if mt == ChessMoveType::CastleShort {
                    6
                } else {
                    2
                },
                y,
            },
        },
        move_type: mt,
    }
}

/// An en-passant capture removes the pawn on the square behind the
/// destination (relative to the mover's direction), not the piece on the
/// destination itself: the destination ends up holding the moving pawn.
pub proof fn lemma_en_passant_effect(b: ChessBoardState, cm: ChessMove)
    requires
        cm.move_type == ChessMoveType::EnPassant,
        pos_on_board(cm.mv.from),
        pos_on_board(cm.mv.to),
        cm.mv.to == pos_from_code(b.en_passant),
        b.board@[pos_idx(cm.mv.from)] == ChessPiece::PawnWhite || b.board@[pos_idx(cm.mv.from)]
            == ChessPiece::PawnBlack,
        b.board@[pos_idx(cm.mv.from)] == ChessPiece::PawnWhite ==> cm.mv.from.y + 1
            == cm.mv.to.y,
        b.board@[pos_idx(cm.mv.from)] == ChessPiece::PawnBlack ==> cm.mv.from.y == cm.mv.to.y
            + 1,
        cm.mv.from.x + 1 == cm.mv.to.x || cm.mv.to.x + 1 == cm.mv.from.x,
    ensures
        ({
            let pawn = b.board@[pos_idx(cm.mv.from)];
            let color = piece_color(pawn)->0;
            let behind = ep_capture_pos(b, color);
            let after = move_applied(b, cm);
            &&& behind.x == cm.mv.to.x
            &&& (color == Color::White ==> behind.y + 1 == cm.mv.to.y)
            &&& (color == Color::Black ==> behind.y == cm.mv.to.y + 1)
            &&& after.board@[pos_idx(behind)] == ChessPiece::Empty
            &&& after.board@[pos_idx(cm.mv.to)] == pawn
            &&& move_result_of(b, cm).remove == b.board@[pos_idx(behind)]
        }),
{
    let pawn = b.board@[pos_idx(cm.mv.from)];
    let color = piece_color(pawn)->0;
    let behind = ep_capture_pos(b, color);
    assert(pos_idx(behind) != pos_idx(cm.mv.to));
    assert(pos_idx(behind) != pos_idx(cm.mv.from));
}

/// Whether the king on `from` may castle toward `dir` (+1 king-side, -1
/// queen-side) as far as the path is concerned: the cells the king and
/// rook cross are empty (for queen-side castling also the knight cell
/// beside the rook), and neither the king's current cell nor the cell it
/// crosses is attacked.
pub open spec fn castle_path_ok(b: ChessBoardState, from: Pos, dir: int, color: Color) -> bool {
    &&& on_board(from.x + dir, from.y as int)
    &&& b.board@[from.y * 8 + from.x + dir] == ChessPiece::Empty
    &&& on_board(from.x + 2 * dir, from.y as int)
    &&& b.board@[from.y * 8 + from.x + 2 * dir] == ChessPiece::Empty
    &&& (dir == -1 ==> on_board(from.x - 3, from.y as int) && b.board@[from.y * 8 + from.x - 3]
        == ChessPiece::Empty)
    &&& !pos_attacked(b, from, color)
    &&& !pos_attacked(b, Pos { x: (from.x + dir) as u8, y: from.y }, color)
}

/// Whether a ray starting on cell (x, y) and stepping by (sx, sy) for at
/// most `n` cells meets one of the pieces in `ps` before the board edge or
/// any other occupied cell.
pub open spec fn ray_attacked(
    b: ChessBoardState,
    x: int,
    y: int,
    sx: int,
    sy: int,
    n: nat,
    ps: Seq<ChessPiece>,
) -> bool
    decreases n,
{
    if n == 0 || !on_board(x, y) {
        false
    } else {
        let p = b.board@[y * 8 + x];
        if ps.contains(p) {
            true
        } else if p != ChessPiece::Empty {
            false
        } else {
            ray_attacked(b, x + sx, y + sy, sx, sy, (n - 1) as nat, ps)
        }
    }
}

/// Whether square `from` of side `color` is attacked by the other side:
/// some enemy slider sees it along a compatible ray, or an enemy knight,
/// king or pawn stands on one of its fixed offsets.
pub open spec fn pos_attacked(b: ChessBoardState, from: Pos, color: Color) -> bool {
    let rooks = if color == Color::White {
        seq![ChessPiece::RookBlack, ChessPiece::QueenBlack]
    } else {
        seq![ChessPiece::RookWhite, ChessPiece::QueenWhite]
    };
    let bishops = if color == Color::White {
        seq![ChessPiece::BishopBlack, ChessPiece::QueenBlack]
    } else {
        seq![ChessPiece::BishopWhite, ChessPiece::QueenWhite]
    };
    let pawn = if color == Color::White {
        seq![ChessPiece::PawnBlack]
    } else {
        seq![ChessPiece::PawnWhite]
    };
    let knight = if color == Color::White {
        seq![ChessPiece::KnightBlack]
    } else {
        seq![ChessPiece::KnightWhite]
    };
    let king = if color == Color::White {
        seq![ChessPiece::KingBlack]
    } else {
        seq![ChessPiece::KingWhite]
    };
    let x = from.x as int;
    let y = from.y as int;
    ||| ray_attacked(b, x, y + 1, 0, 1, 8, rooks)
    ||| ray_attacked(b, x, y - 1, 0, -1, 8, rooks)
    ||| ray_attacked(b, x - 1, y, -1, 0, 8, rooks)
    ||| ray_attacked(b, x + 1, y, 1, 0, 8, rooks)
    ||| ray_attacked(b, x + 1, y + 1, 1, 1, 8, bishops)
    ||| ray_attacked(b, x + 1, y - 1, 1, -1, 8, bishops)
    ||| ray_attacked(b, x - 1, y + 1, -1, 1, 8, bishops)
    ||| ray_attacked(b, x - 1, y - 1, -1, -1, 8, bishops)
    ||| ray_attacked(b, x + 1, y, 1, 0, 1, king)
    ||| ray_attacked(b, x - 1, y, -1, 0, 1, king)
    ||| ray_attacked(b, x, y + 1, 0, 1, 1, king)
    ||| ray_attacked(b, x, y - 1, 0, -1, 1, king)
    ||| ray_attacked(b, x + 1, y + 1, 1, 1, 1, king)
    ||| ray_attacked(b, x + 1, y - 1, 1, -1, 1, king)
    ||| ray_attacked(b, x - 1, y + 1, -1, 1, 1, king)
    ||| ray_attacked(b, x - 1, y - 1, -1, -1, 1, king)
    ||| (if color == Color::White {
        ray_attacked(b, x + 1, y + 1, 1, 1, 1, pawn) || ray_attacked(b, x - 1, y + 1, -1, 1, 1, pawn)
    } else {
        ray_attacked(b, x + 1, y - 1, 1, -1, 1, pawn) || ray_attacked(
            b,
            x - 1,
            y - 1,
            -1,
            -1,
            1,
            pawn,
        )
    })
    ||| ray_attacked(b, x + 1, y + 2, 1, 2, 1, knight)
    ||| ray_attacked(b, x - 1, y + 2, -1, 2, 1, knight)
    ||| ray_attacked(b, x + 1, y - 2, 1, -2, 1, knight)
    ||| ray_attacked(b, x - 1, y - 2, -1, -2, 1, knight)
    ||| ray_attacked(b, x + 2, y + 1, 2, 1, 1, knight)
    ||| ray_attacked(b, x + 2, y - 1, 2, -1, 1, knight)
    ||| ray_attacked(b, x - 2, y + 1, -2, 1, 1, knight)
    ||| ray_attacked(b, x - 2, y - 1, -2, -1, 1, knight)
}

/// The square of the first king of `color` in file-major scan order, or the
/// "no square" sentinel when that side has no king, scanning from cell `i`.
pub open spec fn king_scan(b: ChessBoardState, color: Color, i: nat) -> Pos
    decreases 64 - i,
{
    if i >= 64 {
        pos_from_code(0xFF)
    } else {
        let x = i as int / 8;
        let y = i as int % 8;
        if b.board@[y * 8 + x] == king_of(color) {
            Pos { x: x as u8, y: y as u8 }
        } else {
            king_scan(b, color, i + 1)
        }
    }
}

/// The square of `color`'s king, or the "no square" sentinel when absent.
pub open spec fn king_square(b: ChessBoardState, color: Color) -> Pos {
    king_scan(b, color, 0)
}

/// Whether `color`'s king stands on an attacked square. A side with no
/// king on the board is reported as not attacked: the sentinel square is
/// off the board and no ray reaches it.
pub open spec fn king_attacked(b: ChessBoardState, color: Color) -> bool {
    pos_attacked(b, king_square(b, color), color)
}

/// Whether `p` occurs among `pieces`.
fn piece_in(pieces: &[ChessPiece], p: ChessPiece) -> (r: bool)
    ensures
        r == pieces@.contains(p),
{
    let n = pieces.len();
    let mut i: usize = 0;
    while i < n
        invariant
            n == pieces@.len(),
            i <= n,
            forall|j: int| 0 <= j < i ==> pieces@[j] != p,
        decreases n - i,
    {
        if pieces[i] == p {
            return true;
        }
        i = i + 1;
    }
    false
}

impl ChessBoardState {
    /// Walk outward from `from` by (step_x, step_y) for at most `step_num`
    /// cells and report whether one of `pieces` is met before the board
    /// edge or any other occupied cell. `color` in the callers always means
    /// the side being attacked.
    pub fn check_attacked_direction(
        &self,
        from: Pos,
        step_x: i8,
        step_y: i8,
        step_num: usize,
        pieces: &[ChessPiece],
    ) -> (r: bool)
        requires
            from.x <= 15,
            from.y <= 15,
            -2 <= step_x <= 2,
            -2 <= step_y <= 2,
            step_num <= 8,
        ensures
            r == ray_attacked(
                *self,
                from.x + step_x,
                from.y + step_y,
                step_x as int,
                step_y as int,
                step_num as nat,
                pieces@,
            ),
    {
        let mut x: i8 = from.x as i8 + step_x;
        let mut y: i8 = from.y as i8 + step_y;
        let mut k: usize = 0;
        while k < step_num
            invariant
                k <= step_num,
                step_num <= 8,
                -2 <= step_x <= 2,
                -2 <= step_y <= 2,
                x == from.x + step_x + k * step_x,
                y == from.y + step_y + k * step_y,
                from.x <= 15,
                from.y <= 15,
                ray_attacked(
                    *self,
                    from.x + step_x,
                    from.y + step_y,
                    step_x as int,
                    step_y as int,
                    step_num as nat,
                    pieces@,
                ) == ray_attacked(
                    *self,
                    x as int,
                    y as int,
                    step_x as int,
                    step_y as int,
                    (step_num - k) as nat,
                    pieces@,
                ),
            decreases step_num - k,
        {
            if !Self::coords_in_bounds(x, y) {
                return false;
            }
            let to = Pos::new_from_coords(x, y);
            let piece = self.get_piece_unsafe(to);
            if piece_in(pieces, piece) {
                return true;
            }
            if piece != ChessPiece::Empty {
                return false;
            }
            proof {
                assert((k + 1) * step_x == k * step_x + step_x) by (nonlinear_arith);
                assert((k + 1) * step_y == k * step_y + step_y) by (nonlinear_arith);
            }
            x = x + step_x;
            y = y + step_y;
            k = k + 1;
        }
        false
    }

    /// Whether square `from` of side `color` is attacked by the other side:
    /// rays for enemy rooks, bishops and queens, and single-step probes for
    /// the enemy king, pawns and knights.
    pub fn get_pos_attacked(&self, from: Pos, color: Color) -> (r: bool)
        requires
            from.x <= 15,
            from.y <= 15,
        ensures
            r == pos_attacked(*self, from, color),
    {
        let rook_dir = if color == Color::White {
            [ChessPiece::RookBlack, ChessPiece::QueenBlack]
        } else {
            [ChessPiece::RookWhite, ChessPiece::QueenWhite]
        };
        let bishop_dir = if color == Color::White {
            [ChessPiece::BishopBlack, ChessPiece::QueenBlack]
        } else {
            [ChessPiece::BishopWhite, ChessPiece::QueenWhite]
        };
        let pawn = if color == Color::White {
            [ChessPiece::PawnBlack]
        } else {
            [ChessPiece::PawnWhite]
        };
        let knight = if color == Color::White {
            [ChessPiece::KnightBlack]
        } else {
            [ChessPiece::KnightWhite]
        };
        let king = if color == Color::White {
            [ChessPiece::KingBlack]
        } else {
            [ChessPiece::KingWhite]
        };
        proof {
            assert(rook_dir@ =~= if color == Color::White {
                seq![ChessPiece::RookBlack, ChessPiece::QueenBlack]
            } else {
                seq![ChessPiece::RookWhite, ChessPiece::QueenWhite]
            });
            assert(bishop_dir@ =~= if color == Color::White {
                seq![ChessPiece::BishopBlack, ChessPiece::QueenBlack]
            } else {
                seq![ChessPiece::BishopWhite, ChessPiece::QueenWhite]
            });
            assert(pawn@ =~= if color == Color::White {
                seq![ChessPiece::PawnBlack]
            } else {
                seq![ChessPiece::PawnWhite]
            });
            assert(knight@ =~= if color == Color::White {
                seq![ChessPiece::KnightBlack]
            } else {
                seq![ChessPiece::KnightWhite]
            });
            assert(king@ =~= if color == Color::White {
                seq![ChessPiece::KingBlack]
            } else {
                seq![ChessPiece::KingWhite]
            });
        }
        self.check_attacked_direction(from, 0, 1, 8, rook_dir.as_slice())
            || self.check_attacked_direction(from, 0, -1, 8, rook_dir.as_slice())
            || self.check_attacked_direction(from, -1, 0, 8, rook_dir.as_slice())
            || self.check_attacked_direction(from, 1, 0, 8, rook_dir.as_slice())
            || self.check_attacked_direction(from, 1, 1, 8, bishop_dir.as_slice())
            || self.check_attacked_direction(from, 1, -1, 8, bishop_dir.as_slice())
            || self.check_attacked_direction(from, -1, 1, 8, bishop_dir.as_slice())
            || self.check_attacked_direction(from, -1, -1, 8, bishop_dir.as_slice())
            || self.check_attacked_direction(from, 1, 0, 1, king.as_slice())
            || self.check_attacked_direction(from, -1, 0, 1, king.as_slice())
            || self.check_attacked_direction(from, 0, 1, 1, king.as_slice())
            || self.check_attacked_direction(from, 0, -1, 1, king.as_slice())
            || self.check_attacked_direction(from, 1, 1, 1, king.as_slice())
            || self.check_attacked_direction(from, 1, -1, 1, king.as_slice())
            || self.check_attacked_direction(from, -1, 1, 1, king.as_slice())
            || self.check_attacked_direction(from, -1, -1, 1, king.as_slice())
            || (if color == Color::White {
            self.check_attacked_direction(from, 1, 1, 1, pawn.as_slice())
                || self.check_attacked_direction(from, -1, 1, 1, pawn.as_slice())
        } else {
            self.check_attacked_direction(from, 1, -1, 1, pawn.as_slice())
                || self.check_attacked_direction(from, -1, -1, 1, pawn.as_slice())
        }) || self.check_attacked_direction(from, 1, 2, 1, knight.as_slice())
            || self.check_attacked_direction(from, -1, 2, 1, knight.as_slice())
            || self.check_attacked_direction(from, 1, -2, 1, knight.as_slice())
            || self.check_attacked_direction(from, -1, -2, 1, knight.as_slice())
            || self.check_attacked_direction(from, 2, 1, 1, knight.as_slice())
            || self.check_attacked_direction(from, 2, -1, 1, knight.as_slice())
            || self.check_attacked_direction(from, -2, 1, 1, knight.as_slice())
            || self.check_attacked_direction(from, -2, -1, 1, knight.as_slice())
    }

    /// The square of `color`'s first king in file-major scan order, or the
    /// "no square" sentinel when that side has no king. Callers must
    /// tolerate the sentinel: it is a defined degraded value, not an error.
    pub fn get_king_pos(&self, color: Color) -> (r: Pos)
        ensures
            r == king_square(*self, color),
            pos_on_board(r) || r == (Pos { x: 15, y: 15 }),
    {
        let mut i: usize = 0;
        while i < 64
            invariant
                i <= 64,
                king_square(*self, color) == king_scan(*self, color, i as nat),
            decreases 64 - i,
        {
            let x = i / 8;
            let y = i % 8;
            if self.get_piece_coords_unsafe(x, y) == if color == Color::White {
                ChessPiece::KingWhite
            } else {
                ChessPiece::KingBlack
            } {
                return Pos { x: x as u8, y: y as u8 };
            }
            i = i + 1;
        }
        proof {
            assert(0xFFu8 & 0x0F == 15 && (0xFFu8 & 0xF0) >> 4 == 15) by (bit_vector);
        }
        Pos::new_from_code(0xFF)
    }

    /// Whether `color`'s king stands on a square attacked by the other
    /// side; a side with no king is reported as not attacked.
    pub fn get_king_attacked(&self, color: Color) -> (r: bool)
        ensures
            r == king_attacked(*self, color),
    {
        let pos = self.get_king_pos(color);
        self.get_pos_attacked(pos, color)
    }
}

} // verus!
