//! Move generation: pseudo-legal moves per piece, the legality filter, and
//! conversion of moves to and from their short text form.
//!
//! A pseudo-legal move follows the mover's movement pattern and the board
//! occupancy but may leave the mover's own king attacked; a legal move is a
//! pseudo-legal move that does not. The generated lists are specified
//! exactly: each generator's result equals a spec-level sequence built from
//! the same ray and offset rules.

use vstd::prelude::*;

use crate::game::board::{
    on_board, piece_color, pos_code, pos_from_code, pos_idx, pos_on_board, ChessBoardState,
    ChessPiece, Color, Move, Pos,
};
use crate::game::rules::{
    castle_path_ok, chess_move_chars, king_attacked, move_applicable, move_applied, ChessMove,
    ChessMoveType,
};

verus! {

/// The color of the piece on `from`; meaningful only when the cell is
/// occupied.
pub open spec fn mover_color(b: ChessBoardState, from: Pos) -> Color {
    piece_color(b.board@[pos_idx(from)])->0
}

/// The moves a ray contributes, walking from cell (x, y) by (sx, sy) for at
/// most `n` cells: one move per empty cell, plus a capture on the first
/// enemy piece when `can_take`; `must_take` keeps only the capture. The
/// walk stops at the board edge, at any friendly piece, and after the first
/// occupied cell.
pub open spec fn ray_moves(
    b: ChessBoardState,
    from: Pos,
    color: Color,
    x: int,
    y: int,
    sx: int,
    sy: int,
    n: nat,
    can_take: bool,
    must_take: bool,
) -> Seq<ChessMove>
    decreases n,
{
    if n == 0 || !on_board(x, y) {
        Seq::<ChessMove>::empty()
    } else {
        let tocolor = piece_color(b.board@[y * 8 + x]);
        if tocolor == Option::Some(color) {
            Seq::<ChessMove>::empty()
        } else if must_take && tocolor is None {
            Seq::<ChessMove>::empty()
        } else if !can_take && tocolor is Some {
            Seq::<ChessMove>::empty()
        } else {
            let m = seq![
                ChessMove {
                    mv: Move { from, to: Pos { x: x as u8, y: y as u8 } },
                    move_type: ChessMoveType::Simple,
                },
            ];
            if tocolor is Some {
                m
            } else {
                m + ray_moves(b, from, color, x + sx, y + sy, sx, sy, (n - 1) as nat, can_take, must_take)
            }
        }
    }
}

/// A capturing ray of the piece on `from`, stepping by (sx, sy).
pub open spec fn dir_moves(b: ChessBoardState, from: Pos, sx: int, sy: int, n: nat) -> Seq<
    ChessMove,
> {
    ray_moves(
        b,
        from,
        mover_color(b, from),
        from.x + sx,
        from.y + sy,
        sx,
        sy,
        n,
        true,
        false,
    )
}

/// Rook moves: the four orthogonal rays.
pub open spec fn rook_moves(b: ChessBoardState, from: Pos) -> Seq<ChessMove> {
    dir_moves(b, from, 1, 0, 8) + dir_moves(b, from, 0, 1, 8) + dir_moves(b, from, -1, 0, 8)
        + dir_moves(b, from, 0, -1, 8)
}

/// Knight moves: the eight fixed offsets.
pub open spec fn knight_moves(b: ChessBoardState, from: Pos) -> Seq<ChessMove> {
    dir_moves(b, from, 2, 1, 1) + dir_moves(b, from, 1, 2, 1) + dir_moves(b, from, -2, 1, 1)
        + dir_moves(b, from, -1, 2, 1) + dir_moves(b, from, 2, -1, 1) + dir_moves(b, from, 1, -2, 1)
        + dir_moves(b, from, -2, -1, 1) + dir_moves(b, from, -1, -2, 1)
}

/// Bishop moves: the four diagonal rays.
pub open spec fn bishop_moves(b: ChessBoardState, from: Pos) -> Seq<ChessMove> {
    dir_moves(b, from, 1, 1, 8) + dir_moves(b, from, -1, -1, 8) + dir_moves(b, from, -1, 1, 8)
        + dir_moves(b, from, 1, -1, 8)
}

/// Queen moves: bishop rays then rook rays.
pub open spec fn queen_moves(b: ChessBoardState, from: Pos) -> Seq<ChessMove> {
    bishop_moves(b, from) + rook_moves(b, from)
}

/// One castle candidate of the king on `from`: offered when the mover has
/// color `color_req`, the side still owns the right at `flag_mask`, and
/// the path test toward `dir` passes. The king lands two files toward the
/// chosen rook.
pub open spec fn castle_candidate(
    b: ChessBoardState,
    from: Pos,
    color_req: Color,
    flag_mask: u8,
    dir: int,
    mt: ChessMoveType,
) -> Seq<ChessMove> {
    let color = mover_color(b, from);
    if color == color_req && b.castle_state_flags & flag_mask != 0 && castle_path_ok(
        b,
        from,
        dir,
        color,
    ) {
        seq![
            ChessMove {
                mv: Move { from, to: Pos { x: (from.x + 2 * dir) as u8, y: from.y } },
                move_type: mt,
            },
        ]
    } else {
        Seq::<ChessMove>::empty()
    }
}

/// The castle candidates of the king on `from`, in the fixed order white
/// short, white long, black short, black long.
pub open spec fn castle_moves(b: ChessBoardState, from: Pos) -> Seq<ChessMove> {
    castle_candidate(b, from, Color::White, 2, 1, ChessMoveType::CastleShort) + castle_candidate(
        b,
        from,
        Color::White,
        1,
        -1,
        ChessMoveType::CastleLong,
    ) + castle_candidate(b, from, Color::Black, 8, 1, ChessMoveType::CastleShort)
        + castle_candidate(b, from, Color::Black, 4, -1, ChessMoveType::CastleLong)
}

/// The eight single-step king rays.
pub open spec fn king_basic_moves(b: ChessBoardState, from: Pos) -> Seq<ChessMove> {
    dir_moves(b, from, 1, 1, 1) + dir_moves(b, from, -1, 1, 1) + dir_moves(b, from, 1, -1, 1)
        + dir_moves(b, from, -1, -1, 1) + dir_moves(b, from, 1, 0, 1) + dir_moves(b, from, -1, 0, 1)
        + dir_moves(b, from, 0, 1, 1) + dir_moves(b, from, 0, -1, 1)
}

/// King moves: the eight single-step rays, then the castle candidates.
pub open spec fn king_moves(b: ChessBoardState, from: Pos) -> Seq<ChessMove> {
    king_basic_moves(b, from) + castle_moves(b, from)
}

/// The en-passant candidate of the pawn on `from`: offered when the
/// recorded target square is diagonally adjacent in the push direction and
/// empty.
pub open spec fn pawn_ep_moves(b: ChessBoardState, from: Pos, ydir: int) -> Seq<ChessMove> {
    let e = pos_from_code(b.en_passant);
    if e.y - from.y == ydir && (e.x - from.x == 1 || from.x - e.x == 1) && on_board(
        e.x as int,
        e.y as int,
    ) && b.board@[pos_idx(e)] == ChessPiece::Empty {
        seq![ChessMove { mv: Move { from, to: e }, move_type: ChessMoveType::EnPassant }]
    } else {
        Seq::<ChessMove>::empty()
    }
}

/// Pawn moves before promotion expansion: the forward push (two cells from
/// the starting rank), the two diagonal captures, and the en-passant
/// candidate.
pub open spec fn pawn_base(b: ChessBoardState, from: Pos) -> Seq<ChessMove> {
    let color = mover_color(b, from);
    let ydir: int = if color == Color::White {
        1
    } else {
        -1
    };
    let step_num: nat = if (color == Color::White && from.y == 1) || (color == Color::Black
        && from.y == 6) {
        2
    } else {
        1
    };
    ray_moves(b, from, color, from.x as int, from.y + ydir, 0, ydir, step_num, false, false)
        + ray_moves(b, from, color, from.x + 1, from.y + ydir, 1, ydir, 1, true, true) + ray_moves(
        b,
        from,
        color,
        from.x - 1,
        from.y + ydir,
        -1,
        ydir,
        1,
        true,
        true,
    ) + pawn_ep_moves(b, from, ydir)
}

/// The four promotion choices of a side, in generation order.
pub open spec fn promo_pieces(color: Color) -> Seq<ChessPiece> {
    if color == Color::White {
        seq![
            ChessPiece::RookWhite,
            ChessPiece::QueenWhite,
            ChessPiece::BishopWhite,
            ChessPiece::KnightWhite,
        ]
    } else {
        seq![
            ChessPiece::RookBlack,
            ChessPiece::QueenBlack,
            ChessPiece::BishopBlack,
            ChessPiece::KnightBlack,
        ]
    }
}

/// The four promotion variants of one base move.
pub open spec fn promo4(m: ChessMove, color: Color) -> Seq<ChessMove> {
    seq![
        ChessMove { mv: m.mv, move_type: ChessMoveType::Promotion(promo_pieces(color)[0]) },
        ChessMove { mv: m.mv, move_type: ChessMoveType::Promotion(promo_pieces(color)[1]) },
        ChessMove { mv: m.mv, move_type: ChessMoveType::Promotion(promo_pieces(color)[2]) },
        ChessMove { mv: m.mv, move_type: ChessMoveType::Promotion(promo_pieces(color)[3]) },
    ]
}

/// Each base move expanded into its four promotion variants, in order.
pub open spec fn expand_promotions(moves: Seq<ChessMove>, color: Color) -> Seq<ChessMove>
    decreases moves.len(),
{
    if moves.len() == 0 {
        Seq::<ChessMove>::empty()
    } else {
        expand_promotions(moves.drop_last(), color) + promo4(moves.last(), color)
    }
}

/// Pawn moves: the base set, expanded into promotion variants when the
/// pawn stands on its next-to-last rank and has at least one move.
pub open spec fn pawn_moves(b: ChessBoardState, from: Pos) -> Seq<ChessMove> {
    let color = mover_color(b, from);
    let base = pawn_base(b, from);
    if base.len() > 0 && ((color == Color::White && from.y == 6) || (color == Color::Black
        && from.y == 1)) {
        expand_promotions(base, color)
    } else {
        base
    }
}

/// All pseudo-legal moves of the piece on `from`, dispatched on its kind.
pub open spec fn moves_from(b: ChessBoardState, from: Pos) -> Seq<ChessMove> {
    match b.board@[pos_idx(from)] {
        ChessPiece::Empty => Seq::<ChessMove>::empty(),
        ChessPiece::RookBlack | ChessPiece::RookWhite => rook_moves(b, from),
        ChessPiece::KnightBlack | ChessPiece::KnightWhite => knight_moves(b, from),
        ChessPiece::BishopBlack | ChessPiece::BishopWhite => bishop_moves(b, from),
        ChessPiece::QueenBlack | ChessPiece::QueenWhite => queen_moves(b, from),
        ChessPiece::KingBlack | ChessPiece::KingWhite => king_moves(b, from),
        ChessPiece::PawnBlack | ChessPiece::PawnWhite => pawn_moves(b, from),
    }
}

/// The contribution of scan cell `i` (file-major order) to the side to
/// move's pseudo-legal moves.
pub open spec fn cell_moves(b: ChessBoardState, i: int) -> Seq<ChessMove> {
    let x = i / 8;
    let y = i % 8;
    let pos = Pos { x: x as u8, y: y as u8 };
    if piece_color(b.board@[pos_idx(pos)]) == Option::Some(b.turn) {
        moves_from(b, pos)
    } else {
        Seq::<ChessMove>::empty()
    }
}

/// The pseudo-legal moves contributed by the first `n` scan cells.
pub open spec fn side_moves_upto(b: ChessBoardState, n: nat) -> Seq<ChessMove>
    decreases n,
{
    if n == 0 {
        Seq::<ChessMove>::empty()
    } else {
        side_moves_upto(b, (n - 1) as nat) + cell_moves(b, n - 1)
    }
}

/// All pseudo-legal moves of the side to move.
pub open spec fn all_moves(b: ChessBoardState) -> Seq<ChessMove> {
    side_moves_upto(b, 64)
}

impl ChessBoardState {
    /// Append the moves of one ray of the piece on `from`; see
    /// [`ray_moves`] for the walking rules.
    fn add_moves_in_direction_general(
        &self,
        from: Pos,
        step_x: i8,
        step_y: i8,
        step_num: usize,
        can_take: bool,
        must_take: bool,
        res: &mut Vec<ChessMove>,
    )
        requires
            pos_on_board(from),
            piece_color(self.board@[pos_idx(from)]) is Some,
            -2 <= step_x <= 2,
            -2 <= step_y <= 2,
            step_num <= 8,
        ensures
            final(res)@ == old(res)@ + ray_moves(
                *self,
                from,
                mover_color(*self, from),
                from.x + step_x,
                from.y + step_y,
                step_x as int,
                step_y as int,
                step_num as nat,
                can_take,
                must_take,
            ),
    {
        let color = self.get_piece_unsafe(from).get_color().unwrap();
        let mut x: i8 = from.x as i8 + step_x;
        let mut y: i8 = from.y as i8 + step_y;
        let mut k: usize = 0;
        while k < step_num
            invariant
                k <= step_num,
                step_num <= 8,
                -2 <= step_x <= 2,
                -2 <= step_y <= 2,
                from.x < 8,
                from.y < 8,
                color == mover_color(*self, from),
                x == from.x + step_x + k * step_x,
                y == from.y + step_y + k * step_y,
                old(res)@ + ray_moves(
                    *self,
                    from,
                    color,
                    from.x + step_x,
                    from.y + step_y,
                    step_x as int,
                    step_y as int,
                    step_num as nat,
                    can_take,
                    must_take,
                ) == res@ + ray_moves(
                    *self,
                    from,
                    color,
                    x as int,
                    y as int,
                    step_x as int,
                    step_y as int,
                    (step_num - k) as nat,
                    can_take,
                    must_take,
                ),
            decreases step_num - k,
        {
            if !Self::coords_in_bounds(x, y) {
                proof {
                    assert(res@ + Seq::<ChessMove>::empty() =~= res@);
                }
                return ;
            }
            let to = Pos::new_from_coords(x, y);
            let piece_to_color = self.get_piece_unsafe(to).get_color();
            if piece_to_color.is_some() && piece_to_color.unwrap() == color {
                proof {
                    assert(res@ + Seq::<ChessMove>::empty() =~= res@);
                }
                return ;
            }
            if must_take && piece_to_color.is_none() {
                proof {
                    assert(res@ + Seq::<ChessMove>::empty() =~= res@);
                }
                return ;
            }
            if !can_take && piece_to_color.is_some() {
                proof {
                    assert(res@ + Seq::<ChessMove>::empty() =~= res@);
                }
                return ;
            }
            let m = ChessMove { mv: Move { from, to }, move_type: ChessMoveType::Simple };
            res.push(m);
            if piece_to_color.is_some() {
                proof {
                    assert(ray_moves(
                        *self,
                        from,
                        color,
                        x as int,
                        y as int,
                        step_x as int,
                        step_y as int,
                        (step_num - k) as nat,
                        can_take,
                        must_take,
                    ) =~= seq![m]);
                    assert(res@ =~= res@.drop_last() + seq![m]);
                }
                return ;
            }
            proof {
                assert(ray_moves(
                    *self,
                    from,
                    color,
                    x as int,
                    y as int,
                    step_x as int,
                    step_y as int,
                    (step_num - k) as nat,
                    can_take,
                    must_take,
                ) =~= seq![m] + ray_moves(
                    *self,
                    from,
                    color,
                    x + step_x,
                    y + step_y,
                    step_x as int,
                    step_y as int,
                    (step_num - (k + 1)) as nat,
                    can_take,
                    must_take,
                ));
                assert(res@ =~= res@.drop_last() + seq![m]);
                assert((k + 1) * step_x == k * step_x + step_x) by (nonlinear_arith);
                assert((k + 1) * step_y == k * step_y + step_y) by (nonlinear_arith);
                assert(res@.drop_last() + (seq![m] + ray_moves(
                    *self,
                    from,
                    color,
                    x + step_x,
                    y + step_y,
                    step_x as int,
                    step_y as int,
                    (step_num - (k + 1)) as nat,
                    can_take,
                    must_take,
                )) =~= res@ + ray_moves(
                    *self,
                    from,
                    color,
                    x + step_x,
                    y + step_y,
                    step_x as int,
                    step_y as int,
                    (step_num - (k + 1)) as nat,
                    can_take,
                    must_take,
                ));
            }
            x = x + step_x;
            y = y + step_y;
            k = k + 1;
        }
        proof {
            assert(res@ + Seq::<ChessMove>::empty() =~= res@);
        }
    }

    /// Append one capturing ray of the piece on `from`.
    fn add_moves_in_direction(
        &self,
        from: Pos,
        step_x: i8,
        step_y: i8,
        step_num: usize,
        res: &mut Vec<ChessMove>,
    )
        requires
            pos_on_board(from),
            piece_color(self.board@[pos_idx(from)]) is Some,
            -2 <= step_x <= 2,
            -2 <= step_y <= 2,
            step_num <= 8,
        ensures
            final(res)@ == old(res)@ + dir_moves(
                *self,
                from,
                step_x as int,
                step_y as int,
                step_num as nat,
            ),
    {
        self.add_moves_in_direction_general(from, step_x, step_y, step_num, true, false, res);
    }

    /// Append the rook moves of the piece on `from`.
    fn add_rook_moves(&self, from: Pos, res: &mut Vec<ChessMove>)
        requires
            pos_on_board(from),
            piece_color(self.board@[pos_idx(from)]) is Some,
        ensures
            final(res)@ == old(res)@ + rook_moves(*self, from),
    {
        self.add_moves_in_direction(from, 1, 0, 8, res);
        self.add_moves_in_direction(from, 0, 1, 8, res);
        self.add_moves_in_direction(from, -1, 0, 8, res);
        self.add_moves_in_direction(from, 0, -1, 8, res);
        proof {
            assert(res@ =~= old(res)@ + rook_moves(*self, from));
        }
    }

    /// Append the knight moves of the piece on `from`.
    fn add_knight_moves(&self, from: Pos, res: &mut Vec<ChessMove>)
        requires
            pos_on_board(from),
            piece_color(self.board@[pos_idx(from)]) is Some,
        ensures
            final(res)@ == old(res)@ + knight_moves(*self, from),
    {
        self.add_moves_in_direction(from, 2, 1, 1, res);
        self.add_moves_in_direction(from, 1, 2, 1, res);
        self.add_moves_in_direction(from, -2, 1, 1, res);
        self.add_moves_in_direction(from, -1, 2, 1, res);
        self.add_moves_in_direction(from, 2, -1, 1, res);
        self.add_moves_in_direction(from, 1, -2, 1, res);
        self.add_moves_in_direction(from, -2, -1, 1, res);
        self.add_moves_in_direction(from, -1, -2, 1, res);
        proof {
            assert(res@ =~= old(res)@ + knight_moves(*self, from));
        }
    }

    /// Append the bishop moves of the piece on `from`.
    fn add_bishop_moves(&self, from: Pos, res: &mut Vec<ChessMove>)
        requires
            pos_on_board(from),
            piece_color(self.board@[pos_idx(from)]) is Some,
        ensures
            final(res)@ == old(res)@ + bishop_moves(*self, from),
    {
        self.add_moves_in_direction(from, 1, 1, 8, res);
        self.add_moves_in_direction(from, -1, -1, 8, res);
        self.add_moves_in_direction(from, -1, 1, 8, res);
        self.add_moves_in_direction(from, 1, -1, 8, res);
        proof {
            assert(res@ =~= old(res)@ + bishop_moves(*self, from));
        }
    }

    /// Append the queen moves of the piece on `from`.
    fn add_queen_moves(&self, from: Pos, res: &mut Vec<ChessMove>)
        requires
            pos_on_board(from),
            piece_color(self.board@[pos_idx(from)]) is Some,
        ensures
            final(res)@ == old(res)@ + queen_moves(*self, from),
    {
        self.add_bishop_moves(from, res);
        self.add_rook_moves(from, res);
        proof {
            assert(res@ =~= old(res)@ + queen_moves(*self, from));
        }
    }

    /// Whether the king on `from` may castle toward `dir`; see
    /// [`castle_path_ok`] for the conditions.
    fn check_castle(&self, from: Pos, dir: i8) -> (r: bool)
        requires
            pos_on_board(from),
            piece_color(self.board@[pos_idx(from)]) is Some,
            dir == 1 || dir == -1,
        ensures
            r == castle_path_ok(*self, from, dir as int, mover_color(*self, from)),
    {
        let x = from.x as i8;
        let y = from.y as i8;
        if !Self::coords_in_bounds(x + dir, y) {
            return false;
        }
        if self.get_piece_coords_i8_unsafe(x + dir, y) != ChessPiece::Empty {
            return false;
        }
        if !Self::coords_in_bounds(x + 2 * dir, y) {
            return false;
        }
        if self.get_piece_coords_i8_unsafe(x + 2 * dir, y) != ChessPiece::Empty {
            return false;
        }
        if dir == -1 {
            if !Self::coords_in_bounds(x + 3 * dir, y) {
                return false;
            }
            if self.get_piece_coords_i8_unsafe(x + 3 * dir, y) != ChessPiece::Empty {
                return false;
            }
        }
        let color = self.get_piece_unsafe(from).get_color().unwrap();
        if self.get_pos_attacked(from, color) {
            return false;
        }
        if self.get_pos_attacked(Pos::new_from_coords(x + dir, y), color) {
            return false;
        }
        true
    }

    /// Append the king moves of the piece on `from`: eight single steps,
    /// then the castle candidates the side still has a right to.
    #[verifier::rlimit(100)]
    fn add_king_moves(&self, from: Pos, res: &mut Vec<ChessMove>)
        requires
            pos_on_board(from),
            piece_color(self.board@[pos_idx(from)]) is Some,
        ensures
            final(res)@ == old(res)@ + king_moves(*self, from),
    {
        self.add_moves_in_direction(from, 1, 1, 1, res);
        self.add_moves_in_direction(from, -1, 1, 1, res);
        self.add_moves_in_direction(from, 1, -1, 1, res);
        self.add_moves_in_direction(from, -1, -1, 1, res);
        self.add_moves_in_direction(from, 1, 0, 1, res);
        self.add_moves_in_direction(from, -1, 0, 1, res);
        self.add_moves_in_direction(from, 0, 1, 1, res);
        self.add_moves_in_direction(from, 0, -1, 1, res);
        proof {
            assert(res@ =~= old(res)@ + king_basic_moves(*self, from));
        }
        let color: Color = self.get_piece_unsafe(from).get_color().unwrap();
        if color == Color::White && (self.castle_state_flags & 2 != 0) && self.check_castle(
            from,
            1,
        ) {
            res.push(
                ChessMove {
                    mv: Move { from, to: Pos { x: from.x + 2, y: from.y } },
                    move_type: ChessMoveType::CastleShort,
                },
            );
        }
        proof {
            assert(res@ =~= old(res)@ + king_basic_moves(*self, from) + castle_candidate(
                *self,
                from,
                Color::White,
                2,
                1,
                ChessMoveType::CastleShort,
            ));
        }
        if color == Color::White && (self.castle_state_flags & 1 != 0) && self.check_castle(
            from,
            -1,
        ) {
            res.push(
                ChessMove {
                    mv: Move { from, to: Pos { x: from.x - 2, y: from.y } },
                    move_type: ChessMoveType::CastleLong,
                },
            );
        }
        proof {
            assert(res@ =~= old(res)@ + king_basic_moves(*self, from) + castle_candidate(
                *self,
                from,
                Color::White,
                2,
                1,
                ChessMoveType::CastleShort,
            ) + castle_candidate(*self, from, Color::White, 1, -1, ChessMoveType::CastleLong));
        }
        if color == Color::Black && (self.castle_state_flags & 8 != 0) && self.check_castle(
            from,
            1,
        ) {
            res.push(
                ChessMove {
                    mv: Move { from, to: Pos { x: from.x + 2, y: from.y } },
                    move_type: ChessMoveType::CastleShort,
                },
            );
        }
        proof {
            assert(res@ =~= old(res)@ + king_basic_moves(*self, from) + castle_candidate(
                *self,
                from,
                Color::White,
                2,
                1,
                ChessMoveType::CastleShort,
            ) + castle_candidate(*self, from, Color::White, 1, -1, ChessMoveType::CastleLong)
                + castle_candidate(*self, from, Color::Black, 8, 1, ChessMoveType::CastleShort));
        }
        if color == Color::Black && (self.castle_state_flags & 4 != 0) && self.check_castle(
            from,
            -1,
        ) {
            res.push(
                ChessMove {
                    mv: Move { from, to: Pos { x: from.x - 2, y: from.y } },
                    move_type: ChessMoveType::CastleLong,
                },
            );
        }
        proof {
            assert(res@ =~= old(res)@ + king_basic_moves(*self, from) + castle_candidate(
                *self,
                from,
                Color::White,
                2,
                1,
                ChessMoveType::CastleShort,
            ) + castle_candidate(*self, from, Color::White, 1, -1, ChessMoveType::CastleLong)
                + castle_candidate(*self, from, Color::Black, 8, 1, ChessMoveType::CastleShort)
                + castle_candidate(*self, from, Color::Black, 4, -1, ChessMoveType::CastleLong));
            assert(res@ =~= old(res)@ + king_moves(*self, from));
        }
    }

    /// Append the pawn moves of the pawn on `from`: pushes, captures and
    /// the en-passant candidate, expanded into the four promotion variants
    /// when the pawn stands on its next-to-last rank.
    fn add_pawn_moves(&self, from: Pos, res: &mut Vec<ChessMove>)
        requires
            pos_on_board(from),
            self.board@[pos_idx(from)] == ChessPiece::PawnWhite || self.board@[pos_idx(from)]
                == ChessPiece::PawnBlack,
        ensures
            final(res)@ == old(res)@ + pawn_moves(*self, from),
    {
        let mut result: Vec<ChessMove> = Vec::new();
        let piece_color_v = self.get_piece_unsafe(from).get_color().unwrap();
        let y_dir: i8 = if piece_color_v == Color::White {
            1
        } else {
            -1
        };
        let step_num: usize = if piece_color_v == Color::White && from.y == 1 || piece_color_v
            == Color::Black && from.y == 6 {
            2
        } else {
            1
        };
        self.add_moves_in_direction_general(from, 0, y_dir, step_num, false, false, &mut result);
        self.add_moves_in_direction_general(from, 1, y_dir, 1, true, true, &mut result);
        self.add_moves_in_direction_general(from, -1, y_dir, 1, true, true, &mut result);

        let en_passant = Pos::new_from_code(self.en_passant);
        proof {
            let c = self.en_passant;
            assert(c & 0x0F <= 15 && (c & 0xF0) >> 4 <= 15) by (bit_vector);
        }
        let dy: i8 = en_passant.y as i8 - from.y as i8;
        let dx: i8 = en_passant.x as i8 - from.x as i8;
        if dy == y_dir && (dx == 1 || dx == -1) {
            if ChessBoardState::pos_in_bounds(en_passant) && self.get_piece_unsafe(en_passant)
                == ChessPiece::Empty {
                result.push(
                    ChessMove {
                        mv: Move { from, to: en_passant },
                        move_type: ChessMoveType::EnPassant,
                    },
                );
            }
        }
        proof {
            assert(result@ =~= pawn_base(*self, from));
        }

        if result.len() > 0 && piece_color_v == Color::White && from.y == 6 || result.len() > 0
            && piece_color_v == Color::Black && from.y == 1 {
            let proms: [ChessPiece; 4] = if piece_color_v == Color::White {
                [
                    ChessPiece::RookWhite,
                    ChessPiece::QueenWhite,
                    ChessPiece::BishopWhite,
                    ChessPiece::KnightWhite,
                ]
            } else {
                [
                    ChessPiece::RookBlack,
                    ChessPiece::QueenBlack,
                    ChessPiece::BishopBlack,
                    ChessPiece::KnightBlack,
                ]
            };
            let mut i: usize = 0;
            while i < result.len()
                invariant
                    i <= result@.len(),
                    result@ == pawn_base(*self, from),
                    piece_color_v == mover_color(*self, from),
                    proms@ =~= promo_pieces(piece_color_v),
                    res@ == old(res)@ + expand_promotions(result@.take(i as int), piece_color_v),
                decreases result@.len() - i,
            {
                let m = result[i];
                res.push(ChessMove { mv: m.mv, move_type: ChessMoveType::Promotion(proms[0]) });
                res.push(ChessMove { mv: m.mv, move_type: ChessMoveType::Promotion(proms[1]) });
                res.push(ChessMove { mv: m.mv, move_type: ChessMoveType::Promotion(proms[2]) });
                res.push(ChessMove { mv: m.mv, move_type: ChessMoveType::Promotion(proms[3]) });
                proof {
                    let pre = result@.take(i as int);
                    let cur = result@.take(i + 1);
                    assert(cur.drop_last() =~= pre);
                    assert(cur.last() == result@[i as int]);
                    assert(res@ =~= old(res)@ + expand_promotions(pre, piece_color_v) + promo4(
                        result@[i as int],
                        piece_color_v,
                    ));
                    assert(res@ =~= old(res)@ + expand_promotions(cur, piece_color_v));
                }
                i = i + 1;
            }
            proof {
                assert(result@.take(result@.len() as int) =~= result@);
                assert(res@ =~= old(res)@ + pawn_moves(*self, from));
            }
        } else {
            res.append(&mut result);
            proof {
                assert(res@ =~= old(res)@ + pawn_moves(*self, from));
            }
        }
    }

    /// All pseudo-legal moves of the piece on `from`, dispatched on its
    /// kind; an empty cell contributes nothing.
    pub fn get_all_moves_from_pos(&self, from: Pos) -> (res: Vec<ChessMove>)
        requires
            pos_on_board(from),
        ensures
            res@ == moves_from(*self, from),
    {
        let mut res: Vec<ChessMove> = Vec::new();
        match self.get_piece_unsafe(from) {
            ChessPiece::Empty => {},
            ChessPiece::RookBlack | ChessPiece::RookWhite => self.add_rook_moves(from, &mut res),
            ChessPiece::KnightBlack | ChessPiece::KnightWhite => self.add_knight_moves(
                from,
                &mut res,
            ),
            ChessPiece::BishopBlack | ChessPiece::BishopWhite => self.add_bishop_moves(
                from,
                &mut res,
            ),
            ChessPiece::QueenBlack | ChessPiece::QueenWhite => self.add_queen_moves(from, &mut res),
            ChessPiece::KingBlack | ChessPiece::KingWhite => self.add_king_moves(from, &mut res),
            ChessPiece::PawnBlack | ChessPiece::PawnWhite => self.add_pawn_moves(from, &mut res),
        }
        proof {
            assert(res@ =~= moves_from(*self, from));
        }
        res
    }

    /// All pseudo-legal moves of the side to move, scanning the board in
    /// file-major order. Moves that leave the own king attacked are not
    /// excluded here.
    pub fn get_all_moves(&self) -> (res: Vec<ChessMove>)
        ensures
            res@ == all_moves(*self),
    {
        let mut result: Vec<ChessMove> = Vec::new();
        let mut i: usize = 0;
        while i < 64
            invariant
                i <= 64,
                result@ == side_moves_upto(*self, i as nat),
            decreases 64 - i,
        {
            let pos = Pos { x: (i / 8) as u8, y: (i % 8) as u8 };
            let color = self.get_piece_unsafe(pos).get_color();
            if color.is_some() && color.unwrap() == self.turn {
                let mut more = self.get_all_moves_from_pos(pos);
                result.append(&mut more);
            }
            proof {
                assert(result@ =~= side_moves_upto(*self, (i + 1) as nat));
            }
            i = i + 1;
        }
        result
    }
}

/// Every pseudo-legal move of the side to move can be applied.
#[verifier::spinoff_prover]
pub proof fn lemma_all_moves_applicable(b: ChessBoardState)
    ensures
        forall|i: int|
            0 <= i < all_moves(b).len() ==> move_applicable(b, #[trigger] all_moves(b)[i]),
{
    lemma_scan_applicable(b, 64);
}

/// Every move contributed by the first `n` scan cells can be applied.
#[verifier::spinoff_prover]
proof fn lemma_scan_applicable(b: ChessBoardState, n: nat)
    requires
        n <= 64,
    ensures
        forall|i: int|
            0 <= i < side_moves_upto(b, n).len() ==> move_applicable(
                b,
                #[trigger] side_moves_upto(b, n)[i],
            ),
    decreases n,
{
    if n > 0 {
        lemma_scan_applicable(b, (n - 1) as nat);
        let k = n - 1;
        let pos = Pos { x: (k / 8) as u8, y: (k % 8) as u8 };
        if piece_color(b.board@[pos_idx(pos)]) == Option::Some(b.turn) {
            lemma_moves_from_applicable(b, pos);
        }
        assert forall|i: int| 0 <= i < side_moves_upto(b, n).len() implies move_applicable(
            b,
            #[trigger] side_moves_upto(b, n)[i],
        ) by {
            if i < side_moves_upto(b, (n - 1) as nat).len() {
                assert(side_moves_upto(b, n)[i] == side_moves_upto(b, (n - 1) as nat)[i]);
            } else {
                assert(side_moves_upto(b, n)[i] == cell_moves(b, k)[i - side_moves_upto(
                    b,
                    (n - 1) as nat,
                ).len()]);
            }
        }
    }
}

/// Whether applying `cm` leaves the mover's own king attacked afterward.
pub open spec fn leaves_king_open(b: ChessBoardState, cm: ChessMove) -> bool {
    king_attacked(move_applied(b, cm), b.turn)
}

/// The legal subset of the pseudo-legal moves of the piece on `from`:
/// those that do not leave the mover's own king attacked.
pub open spec fn legal_from(b: ChessBoardState, from: Pos) -> Seq<ChessMove> {
    moves_from(b, from).filter(|m: ChessMove| !leaves_king_open(b, m))
}

/// The contribution of scan cell `i` to the side to move's legal moves.
pub open spec fn checked_cell_moves(b: ChessBoardState, i: int) -> Seq<ChessMove> {
    let x = i / 8;
    let y = i % 8;
    let pos = Pos { x: x as u8, y: y as u8 };
    if piece_color(b.board@[pos_idx(pos)]) == Option::Some(b.turn) {
        legal_from(b, pos)
    } else {
        Seq::<ChessMove>::empty()
    }
}

/// The legal moves contributed by the first `n` scan cells.
pub open spec fn checked_moves_upto(b: ChessBoardState, n: nat) -> Seq<ChessMove>
    decreases n,
{
    if n == 0 {
        Seq::<ChessMove>::empty()
    } else {
        checked_moves_upto(b, (n - 1) as nat) + checked_cell_moves(b, n - 1)
    }
}

/// All legal moves of the side to move: the pseudo-legal moves with those
/// that leave the own king attacked filtered out.
pub open spec fn all_moves_checked(b: ChessBoardState) -> Seq<ChessMove> {
    checked_moves_upto(b, 64)
}

/// Whether `cm` is a legal move request: its origin holds a piece of the
/// side to move and the move is among that piece's legal moves.
pub open spec fn is_legal(b: ChessBoardState, cm: ChessMove) -> bool {
    &&& pos_on_board(cm.mv.from)
    &&& piece_color(b.board@[pos_idx(cm.mv.from)]) == Option::Some(b.turn)
    &&& legal_from(b, cm.mv.from).contains(cm)
}

/// Every move of one generated ray is a plain move from `from` to an
/// on-board cell.
#[verifier::spinoff_prover]
proof fn lemma_ray_simple(
    b: ChessBoardState,
    from: Pos,
    color: Color,
    x: int,
    y: int,
    sx: int,
    sy: int,
    n: nat,
    can_take: bool,
    must_take: bool,
)
    ensures
        forall|i: int|
            0 <= i < ray_moves(b, from, color, x, y, sx, sy, n, can_take, must_take).len() ==> {
                let m = #[trigger] ray_moves(b, from, color, x, y, sx, sy, n, can_take, must_take)[i];
                m.move_type == ChessMoveType::Simple && m.mv.from == from && pos_on_board(m.mv.to)
            },
    decreases n,
{
    if n == 0 || !on_board(x, y) {
    } else {
        lemma_ray_simple(b, from, color, x + sx, y + sy, sx, sy, (n - 1) as nat, can_take, must_take);
    }
}

/// Promotion expansion indexed exactly: entry `4 j + k` promotes base
/// move `j` to the `k`-th promotion choice.
#[verifier::spinoff_prover]
proof fn lemma_expand_exact(s: Seq<ChessMove>, color: Color)
    ensures
        expand_promotions(s, color).len() == 4 * s.len(),
        forall|j: int, k: int|
            0 <= j < s.len() && 0 <= k < 4 ==> expand_promotions(s, color)[4 * j + k]
                == (ChessMove {
                mv: (#[trigger] s[j]).mv,
                move_type: ChessMoveType::Promotion(#[trigger] promo_pieces(color)[k]),
            }),
    decreases s.len(),
{
    if s.len() == 0 {
    } else {
        lemma_expand_exact(s.drop_last(), color);
        assert forall|j: int, k: int| 0 <= j < s.len() && 0 <= k < 4 implies expand_promotions(
            s,
            color,
        )[4 * j + k] == (ChessMove {
            mv: (#[trigger] s[j]).mv,
            move_type: ChessMoveType::Promotion(#[trigger] promo_pieces(color)[k]),
        }) by {
            if j < s.len() - 1 {
                assert(s.drop_last()[j] == s[j]);
                assert(expand_promotions(s, color)[4 * j + k] == expand_promotions(
                    s.drop_last(),
                    color,
                )[4 * j + k]);
            } else {
                assert(expand_promotions(s, color)[4 * j + k] == promo4(s.last(), color)[k]);
            }
        }
    }
}

/// Every move of one capturing ray is applicable.
proof fn lemma_dir_applicable(b: ChessBoardState, from: Pos, sx: int, sy: int, n: nat)
    requires
        pos_on_board(from),
    ensures
        forall|i: int|
            0 <= i < dir_moves(b, from, sx, sy, n).len() ==> move_applicable(
                b,
                #[trigger] dir_moves(b, from, sx, sy, n)[i],
            ),
{
    lemma_ray_simple(
        b,
        from,
        mover_color(b, from),
        from.x + sx,
        from.y + sy,
        sx,
        sy,
        n,
        true,
        false,
    );
}

/// Every rook move is applicable.
#[verifier::spinoff_prover]
proof fn lemma_rook_applicable(b: ChessBoardState, from: Pos)
    requires
        pos_on_board(from),
    ensures
        forall|i: int|
            0 <= i < rook_moves(b, from).len() ==> move_applicable(
                b,
                #[trigger] rook_moves(b, from)[i],
            ),
{
    lemma_dir_applicable(b, from, 1, 0, 8);
    lemma_dir_applicable(b, from, 0, 1, 8);
    lemma_dir_applicable(b, from, -1, 0, 8);
    lemma_dir_applicable(b, from, 0, -1, 8);
    assert forall|i: int| 0 <= i < rook_moves(b, from).len() implies move_applicable(
        b,
        #[trigger] rook_moves(b, from)[i],
    ) by {
        let d1 = dir_moves(b, from, 1, 0, 8);
        let d2 = dir_moves(b, from, 0, 1, 8);
        let d3 = dir_moves(b, from, -1, 0, 8);
        let d4 = dir_moves(b, from, 0, -1, 8);
        if i < d1.len() {
            assert(rook_moves(b, from)[i] == d1[i]);
        } else if i < d1.len() + d2.len() {
            assert(rook_moves(b, from)[i] == d2[i - d1.len()]);
        } else if i < d1.len() + d2.len() + d3.len() {
            assert(rook_moves(b, from)[i] == d3[i - d1.len() - d2.len()]);
        } else {
            assert(rook_moves(b, from)[i] == d4[i - d1.len() - d2.len() - d3.len()]);
        }
    }
}

/// Every bishop move is applicable.
#[verifier::spinoff_prover]
proof fn lemma_bishop_applicable(b: ChessBoardState, from: Pos)
    requires
        pos_on_board(from),
    ensures
        forall|i: int|
            0 <= i < bishop_moves(b, from).len() ==> move_applicable(
                b,
                #[trigger] bishop_moves(b, from)[i],
            ),
{
    lemma_dir_applicable(b, from, 1, 1, 8);
    lemma_dir_applicable(b, from, -1, -1, 8);
    lemma_dir_applicable(b, from, -1, 1, 8);
    lemma_dir_applicable(b, from, 1, -1, 8);
    assert forall|i: int| 0 <= i < bishop_moves(b, from).len() implies move_applicable(
        b,
        #[trigger] bishop_moves(b, from)[i],
    ) by {
        let d1 = dir_moves(b, from, 1, 1, 8);
        let d2 = dir_moves(b, from, -1, -1, 8);
        let d3 = dir_moves(b, from, -1, 1, 8);
        let d4 = dir_moves(b, from, 1, -1, 8);
        if i < d1.len() {
            assert(bishop_moves(b, from)[i] == d1[i]);
        } else if i < d1.len() + d2.len() {
            assert(bishop_moves(b, from)[i] == d2[i - d1.len()]);
        } else if i < d1.len() + d2.len() + d3.len() {
            assert(bishop_moves(b, from)[i] == d3[i - d1.len() - d2.len()]);
        } else {
            assert(bishop_moves(b, from)[i] == d4[i - d1.len() - d2.len() - d3.len()]);
        }
    }
}

/// Every knight move is applicable.
#[verifier::spinoff_prover]
proof fn lemma_knight_applicable(b: ChessBoardState, from: Pos)
    requires
        pos_on_board(from),
    ensures
        forall|i: int|
            0 <= i < knight_moves(b, from).len() ==> move_applicable(
                b,
                #[trigger] knight_moves(b, from)[i],
            ),
{
    lemma_dir_applicable(b, from, 2, 1, 1);
    lemma_dir_applicable(b, from, 1, 2, 1);
    lemma_dir_applicable(b, from, -2, 1, 1);
    lemma_dir_applicable(b, from, -1, 2, 1);
    lemma_dir_applicable(b, from, 2, -1, 1);
    lemma_dir_applicable(b, from, 1, -2, 1);
    lemma_dir_applicable(b, from, -2, -1, 1);
    lemma_dir_applicable(b, from, -1, -2, 1);
    assert forall|i: int| 0 <= i < knight_moves(b, from).len() implies move_applicable(
        b,
        #[trigger] knight_moves(b, from)[i],
    ) by {
        let d1 = dir_moves(b, from, 2, 1, 1);
        let d2 = dir_moves(b, from, 1, 2, 1);
        let d3 = dir_moves(b, from, -2, 1, 1);
        let d4 = dir_moves(b, from, -1, 2, 1);
        let d5 = dir_moves(b, from, 2, -1, 1);
        let d6 = dir_moves(b, from, 1, -2, 1);
        let d7 = dir_moves(b, from, -2, -1, 1);
        let d8 = dir_moves(b, from, -1, -2, 1);
        let l1 = d1.len();
        let l2 = l1 + d2.len();
        let l3 = l2 + d3.len();
        let l4 = l3 + d4.len();
        let l5 = l4 + d5.len();
        let l6 = l5 + d6.len();
        let l7 = l6 + d7.len();
        if i < l1 {
            assert(knight_moves(b, from)[i] == d1[i]);
        } else if i < l2 {
            assert(knight_moves(b, from)[i] == d2[i - l1]);
        } else if i < l3 {
            assert(knight_moves(b, from)[i] == d3[i - l2]);
        } else if i < l4 {
            assert(knight_moves(b, from)[i] == d4[i - l3]);
        } else if i < l5 {
            assert(knight_moves(b, from)[i] == d5[i - l4]);
        } else if i < l6 {
            assert(knight_moves(b, from)[i] == d6[i - l5]);
        } else if i < l7 {
            assert(knight_moves(b, from)[i] == d7[i - l6]);
        } else {
            assert(knight_moves(b, from)[i] == d8[i - l7]);
        }
    }
}

/// Every basic (single-step) king move is applicable.
#[verifier::spinoff_prover]
proof fn lemma_king_basic_applicable(b: ChessBoardState, from: Pos)
    requires
        pos_on_board(from),
    ensures
        forall|i: int|
            0 <= i < king_basic_moves(b, from).len() ==> move_applicable(
                b,
                #[trigger] king_basic_moves(b, from)[i],
            ),
{
    lemma_dir_applicable(b, from, 1, 1, 1);
    lemma_dir_applicable(b, from, -1, 1, 1);
    lemma_dir_applicable(b, from, 1, -1, 1);
    lemma_dir_applicable(b, from, -1, -1, 1);
    lemma_dir_applicable(b, from, 1, 0, 1);
    lemma_dir_applicable(b, from, -1, 0, 1);
    lemma_dir_applicable(b, from, 0, 1, 1);
    lemma_dir_applicable(b, from, 0, -1, 1);
    assert forall|i: int| 0 <= i < king_basic_moves(b, from).len() implies move_applicable(
        b,
        #[trigger] king_basic_moves(b, from)[i],
    ) by {
        let d1 = dir_moves(b, from, 1, 1, 1);
        let d2 = dir_moves(b, from, -1, 1, 1);
        let d3 = dir_moves(b, from, 1, -1, 1);
        let d4 = dir_moves(b, from, -1, -1, 1);
        let d5 = dir_moves(b, from, 1, 0, 1);
        let d6 = dir_moves(b, from, -1, 0, 1);
        let d7 = dir_moves(b, from, 0, 1, 1);
        let d8 = dir_moves(b, from, 0, -1, 1);
        let l1 = d1.len();
        let l2 = l1 + d2.len();
        let l3 = l2 + d3.len();
        let l4 = l3 + d4.len();
        let l5 = l4 + d5.len();
        let l6 = l5 + d6.len();
        let l7 = l6 + d7.len();
        if i < l1 {
            assert(king_basic_moves(b, from)[i] == d1[i]);
        } else if i < l2 {
            assert(king_basic_moves(b, from)[i] == d2[i - l1]);
        } else if i < l3 {
            assert(king_basic_moves(b, from)[i] == d3[i - l2]);
        } else if i < l4 {
            assert(king_basic_moves(b, from)[i] == d4[i - l3]);
        } else if i < l5 {
            assert(king_basic_moves(b, from)[i] == d5[i - l4]);
        } else if i < l6 {
            assert(king_basic_moves(b, from)[i] == d6[i - l5]);
        } else if i < l7 {
            assert(king_basic_moves(b, from)[i] == d7[i - l6]);
        } else {
            assert(king_basic_moves(b, from)[i] == d8[i - l7]);
        }
    }
}

/// Every castle candidate is applicable.
#[verifier::spinoff_prover]
proof fn lemma_castles_applicable(b: ChessBoardState, from: Pos)
    requires
        pos_on_board(from),
        piece_color(b.board@[pos_idx(from)]) is Some,
    ensures
        forall|i: int|
            0 <= i < castle_moves(b, from).len() ==> move_applicable(
                b,
                #[trigger] castle_moves(b, from)[i],
            ),
{
    assert forall|i: int| 0 <= i < castle_moves(b, from).len() implies move_applicable(
        b,
        #[trigger] castle_moves(b, from)[i],
    ) by {
        let c1 = castle_candidate(b, from, Color::White, 2, 1, ChessMoveType::CastleShort);
        let c2 = castle_candidate(b, from, Color::White, 1, -1, ChessMoveType::CastleLong);
        let c3 = castle_candidate(b, from, Color::Black, 8, 1, ChessMoveType::CastleShort);
        let c4 = castle_candidate(b, from, Color::Black, 4, -1, ChessMoveType::CastleLong);
        let cm = castle_moves(b, from)[i];
        assert(cm == c1[i] || cm == c2[i - c1.len()] || cm == c3[i - c1.len() - c2.len()] || cm
            == c4[i - c1.len() - c2.len() - c3.len()]);
    }
}

/// Every pawn move is applicable.
#[verifier::spinoff_prover]
proof fn lemma_pawn_applicable(b: ChessBoardState, from: Pos)
    requires
        pos_on_board(from),
        piece_color(b.board@[pos_idx(from)]) is Some,
    ensures
        forall|i: int|
            0 <= i < pawn_moves(b, from).len() ==> move_applicable(
                b,
                #[trigger] pawn_moves(b, from)[i],
            ),
{
    let s = pawn_moves(b, from);
    let c = mover_color(b, from);
    let ydir: int = if c == Color::White {
        1
    } else {
        -1
    };
    let step_num: nat = if (c == Color::White && from.y == 1) || (c == Color::Black && from.y
        == 6) {
        2
    } else {
        1
    };
    lemma_ray_simple(b, from, c, from.x as int, from.y + ydir, 0, ydir, step_num, false, false);
    lemma_ray_simple(b, from, c, from.x + 1, from.y + ydir, 1, ydir, 1, true, true);
    lemma_ray_simple(b, from, c, from.x - 1, from.y + ydir, -1, ydir, 1, true, true);
    let base = pawn_base(b, from);
    assert forall|j: int| 0 <= j < base.len() implies pos_on_board((#[trigger] base[j]).mv.from)
        && pos_on_board(base[j].mv.to) && move_applicable(b, base[j]) by {
        let ep = pawn_ep_moves(b, from, ydir);
        if j >= base.len() - ep.len() {
            assert(base[j] == ep[j - (base.len() - ep.len())]);
        }
    }
    if base.len() > 0 && ((c == Color::White && from.y == 6) || (c == Color::Black && from.y
        == 1)) {
        lemma_expand_exact(base, c);
        assert forall|i: int| 0 <= i < s.len() implies move_applicable(b, #[trigger] s[i]) by {
            let j = i / 4;
            let k = i % 4;
            assert(i == 4 * j + k && 0 <= j < base.len() && 0 <= k < 4) by (nonlinear_arith)
                requires
                    0 <= i < 4 * base.len() && j == i / 4 && k == i % 4,
            ;
            assert(s[i] == (ChessMove {
                mv: base[j].mv,
                move_type: ChessMoveType::Promotion(promo_pieces(c)[k]),
            }));
        }
    }
}

/// Every generated move can be applied: each cell it touches is on the
/// board, and what it unwraps exists.
#[verifier::spinoff_prover]
pub proof fn lemma_moves_from_applicable(b: ChessBoardState, from: Pos)
    requires
        pos_on_board(from),
    ensures
        forall|i: int|
            0 <= i < moves_from(b, from).len() ==> move_applicable(
                b,
                #[trigger] moves_from(b, from)[i],
            ),
{
    let s = moves_from(b, from);
    let piece = b.board@[pos_idx(from)];
    if piece == ChessPiece::Empty {
    } else if piece == ChessPiece::PawnBlack || piece == ChessPiece::PawnWhite {
        lemma_pawn_applicable(b, from);
    } else if piece == ChessPiece::RookBlack || piece == ChessPiece::RookWhite {
        lemma_rook_applicable(b, from);
    } else if piece == ChessPiece::KnightBlack || piece == ChessPiece::KnightWhite {
        lemma_knight_applicable(b, from);
    } else if piece == ChessPiece::BishopBlack || piece == ChessPiece::BishopWhite {
        lemma_bishop_applicable(b, from);
    } else if piece == ChessPiece::QueenBlack || piece == ChessPiece::QueenWhite {
        lemma_bishop_applicable(b, from);
        lemma_rook_applicable(b, from);
        assert forall|i: int| 0 <= i < s.len() implies move_applicable(b, #[trigger] s[i]) by {
            if i < bishop_moves(b, from).len() {
                assert(s[i] == bishop_moves(b, from)[i]);
            } else {
                assert(s[i] == rook_moves(b, from)[i - bishop_moves(b, from).len()]);
            }
        }
    } else {
        lemma_king_basic_applicable(b, from);
        lemma_castles_applicable(b, from);
        assert forall|i: int| 0 <= i < s.len() implies move_applicable(b, #[trigger] s[i]) by {
            if i < king_basic_moves(b, from).len() {
                assert(s[i] == king_basic_moves(b, from)[i]);
            } else {
                assert(s[i] == castle_moves(b, from)[i - king_basic_moves(b, from).len()]);
            }
        }
    }
}

impl ChessBoardState {
    /// Whether applying `mv` leaves the mover's own king attacked: despite
    /// the name, `true` means the move must be rejected.
    pub fn is_move_allowed_by_rules(&self, mv: ChessMove) -> (r: bool)
        requires
            move_applicable(*self, mv),
        ensures
            r == leaves_king_open(*self, mv),
    {
        self.get_new_pos_after_move(mv).get_king_attacked(self.turn)
    }

    /// The legal moves of the piece on `from`: its pseudo-legal moves with
    /// those leaving the own king attacked filtered out.
    pub fn get_all_moves_from_pos_filtered(&self, from: Pos) -> (res: Vec<ChessMove>)
        requires
            pos_on_board(from),
        ensures
            res@ == legal_from(*self, from),
    {
        let all = self.get_all_moves_from_pos(from);
        proof {
            lemma_moves_from_applicable(*self, from);
        }
        let mut res: Vec<ChessMove> = Vec::new();
        let mut i: usize = 0;
        while i < all.len()
            invariant
                i <= all@.len(),
                all@ == moves_from(*self, from),
                forall|j: int|
                    0 <= j < all@.len() ==> move_applicable(*self, #[trigger] all@[j]),
                res@ == all@.take(i as int).filter(
                    |m: ChessMove| !leaves_king_open(*self, m),
                ),
            decreases all@.len() - i,
        {
            let mv = all[i];
            if !self.is_move_allowed_by_rules(mv) {
                res.push(mv);
            }
            proof {
                let pred = |m: ChessMove| !leaves_king_open(*self, m);
                assert(all@.take(i + 1).drop_last() =~= all@.take(i as int));
                assert(all@.take(i + 1) =~= all@.take(i as int).push(all@[i as int]));
                all@.take(i as int).lemma_filter_push(all@[i as int], pred);
            }
            i = i + 1;
        }
        proof {
            assert(all@.take(all@.len() as int) =~= all@);
        }
        res
    }

    /// All legal moves of the side to move.
    pub fn get_all_moves_checked(&self) -> (res: Vec<ChessMove>)
        ensures
            res@ == all_moves_checked(*self),
    {
        let mut result: Vec<ChessMove> = Vec::new();
        let mut i: usize = 0;
        while i < 64
            invariant
                i <= 64,
                result@ == checked_moves_upto(*self, i as nat),
            decreases 64 - i,
        {
            let pos = Pos { x: (i / 8) as u8, y: (i % 8) as u8 };
            let color = self.get_piece_unsafe(pos).get_color();
            if color.is_some() && color.unwrap() == self.turn {
                let mut more = self.get_all_moves_from_pos_filtered(pos);
                result.append(&mut more);
            }
            proof {
                assert(result@ =~= checked_moves_upto(*self, (i + 1) as nat));
            }
            i = i + 1;
        }
        result
    }

    /// Whether `cm` is a legal move request: the origin holds a piece of
    /// the side to move and the move is among that piece's legal moves. An
    /// illegal request is rejected here with no board mutation attempted.
    #[verifier::loop_isolation(false)]
    pub fn is_legal_move(&self, mv: ChessMove) -> (r: bool)
        ensures
            r == is_legal(*self, mv),
    {
        let piece_opt = self.get_piece(mv.mv.from);
        if piece_opt.is_none() {
            return false;
        }
        let piece_color_v = piece_opt.unwrap().get_color();
        if piece_color_v.is_none() || piece_color_v.unwrap() != self.turn {
            return false;
        }
        let moves = self.get_all_moves_from_pos_filtered(mv.mv.from);
        let mut i: usize = 0;
        while i < moves.len()
            invariant
                i <= moves@.len(),
                moves@ == legal_from(*self, mv.mv.from),
                forall|j: int| 0 <= j < i ==> moves@[j] != mv,
            decreases moves@.len() - i,
        {
            if moves[i] == mv {
                proof {
                    assert(legal_from(*self, mv.mv.from)[i as int] == mv);
                    assert(legal_from(*self, mv.mv.from).contains(mv));
                }
                return true;
            }
            i = i + 1;
        }
        false
    }
}

/// Legality filtering only removes moves, never adds: every legal move of
/// the side to move is also among its pseudo-legal moves.
pub proof fn lemma_legal_moves_are_pseudo_legal(b: ChessBoardState, cm: ChessMove)
    requires
        all_moves_checked(b).contains(cm),
    ensures
        all_moves(b).contains(cm),
{
    lemma_scan_filter(b, 64);
}

/// The legal move list is never longer than the pseudo-legal one.
pub proof fn lemma_legal_count_le_pseudo_legal(b: ChessBoardState)
    ensures
        all_moves_checked(b).len() <= all_moves(b).len(),
{
    lemma_scan_filter(b, 64);
}

/// Scan prefixes: each checked prefix is a subset of, and no longer than,
/// the corresponding pseudo-legal prefix.
#[verifier::spinoff_prover]
proof fn lemma_scan_filter(b: ChessBoardState, n: nat)
    ensures
        checked_moves_upto(b, n).len() <= side_moves_upto(b, n).len(),
        forall|cm: ChessMove|
            checked_moves_upto(b, n).contains(cm) ==> #[trigger] side_moves_upto(b, n).contains(cm),
    decreases n,
{
    if n == 0 {
    } else {
        lemma_scan_filter(b, (n - 1) as nat);
        let i = n - 1;
        let x = i / 8;
        let y = i % 8;
        let pos = Pos { x: x as u8, y: y as u8 };
        if piece_color(b.board@[pos_idx(pos)]) == Option::Some(b.turn) {
            moves_from(b, pos).lemma_filter_len(|m: ChessMove| !leaves_king_open(b, m));
        }
        assert forall|cm: ChessMove| checked_moves_upto(b, n).contains(cm) implies #[trigger] side_moves_upto(
            b,
            n,
        ).contains(cm) by {
            let idx = choose|idx: int|
                0 <= idx < checked_moves_upto(b, n).len() && checked_moves_upto(b, n)[idx] == cm;
            if idx < checked_moves_upto(b, (n - 1) as nat).len() {
                assert(checked_moves_upto(b, (n - 1) as nat)[idx] == cm);
                assert(side_moves_upto(b, (n - 1) as nat).contains(cm));
                let w = choose|w: int|
                    0 <= w < side_moves_upto(b, (n - 1) as nat).len() && (#[trigger] side_moves_upto(
                        b,
                        (n - 1) as nat,
                    )[w]) == cm;
                assert(side_moves_upto(b, n)[w] == cm);
            } else {
                let off = idx - checked_moves_upto(b, (n - 1) as nat).len();
                assert(checked_cell_moves(b, n - 1)[off] == cm);
                if piece_color(b.board@[pos_idx(pos)]) == Option::Some(b.turn) {
                    assert(legal_from(b, pos).contains(cm));
                    moves_from(b, pos).lemma_filter_contains_rev(
                        |m: ChessMove| !leaves_king_open(b, m),
                        cm,
                    );
                    let src = choose|src: int|
                        0 <= src < moves_from(b, pos).len() && moves_from(b, pos)[src] == cm;
                    assert(side_moves_upto(b, n)[side_moves_upto(b, (n - 1) as nat).len() + src]
                        == cm);
                }
            }
        }
    }
}

/// A pawn on its next-to-last rank with at least one move yields exactly
/// four generated moves per base move, differing only in the promotion
/// piece, and the four promotion pieces are pairwise distinct.
#[verifier::spinoff_prover]
pub proof fn lemma_pawn_promotion_choices(b: ChessBoardState, from: Pos)
    requires
        pos_on_board(from),
        (b.board@[pos_idx(from)] == ChessPiece::PawnWhite && from.y == 6) || (b.board@[pos_idx(
            from,
        )] == ChessPiece::PawnBlack && from.y == 1),
    ensures
        pawn_base(b, from).len() > 0 ==> pawn_moves(b, from).len() == 4 * pawn_base(b, from).len(),
        pawn_base(b, from).len() == 0 ==> pawn_moves(b, from).len() == 0,
        forall|j: int, k: int|
            #![trigger pawn_base(b, from)[j], promo_pieces(mover_color(b, from))[k]]
            0 <= j < pawn_base(b, from).len() && 0 <= k < 4 ==> pawn_moves(b, from)[4 * j + k]
                == (ChessMove {
                mv: pawn_base(b, from)[j].mv,
                move_type: ChessMoveType::Promotion(promo_pieces(mover_color(b, from))[k]),
            }),
        forall|k1: int, k2: int|
            #![trigger promo_pieces(mover_color(b, from))[k1], promo_pieces(mover_color(b, from))[k2]]
            0 <= k1 < 4 && 0 <= k2 < 4 && k1 != k2 ==> promo_pieces(mover_color(b, from))[k1]
                != promo_pieces(mover_color(b, from))[k2],
{
    lemma_expand_exact(pawn_base(b, from), mover_color(b, from));
}

/// The uppercase notation letter of a piece kind, for either color.
pub open spec fn piece_upper_char(p: ChessPiece) -> char {
    match p {
        ChessPiece::Empty => '.',
        ChessPiece::PawnWhite | ChessPiece::PawnBlack => 'P',
        ChessPiece::RookWhite | ChessPiece::RookBlack => 'R',
        ChessPiece::KnightWhite | ChessPiece::KnightBlack => 'N',
        ChessPiece::BishopWhite | ChessPiece::BishopBlack => 'B',
        ChessPiece::KingWhite | ChessPiece::KingBlack => 'K',
        ChessPiece::QueenWhite | ChessPiece::QueenBlack => 'Q',
    }
}

/// Text form of a move on a given board: castles render as `"0-0"` /
/// `"0-0-0"`, every other move as the mover's uppercase letter followed by
/// the move's own text form.
pub open spec fn board_move_chars(b: ChessBoardState, cm: ChessMove) -> Seq<char> {
    match cm.move_type {
        ChessMoveType::CastleLong => "0-0-0"@,
        ChessMoveType::CastleShort => "0-0"@,
        _ => seq![piece_upper_char(b.board@[pos_idx(cm.mv.from)])] + chess_move_chars(cm),
    }
}

/// The uppercase notation letter of a piece, as a one-character string.
fn piece_upper_str(p: ChessPiece) -> (r: &'static str)
    ensures
        r@ =~= seq![piece_upper_char(p)],
{
    proof {
        reveal_strlit(".");
        reveal_strlit("P");
        reveal_strlit("R");
        reveal_strlit("N");
        reveal_strlit("B");
        reveal_strlit("K");
        reveal_strlit("Q");
    }
    match p {
        ChessPiece::Empty => ".",
        ChessPiece::PawnWhite | ChessPiece::PawnBlack => "P",
        ChessPiece::RookWhite | ChessPiece::RookBlack => "R",
        ChessPiece::KnightWhite | ChessPiece::KnightBlack => "N",
        ChessPiece::BishopWhite | ChessPiece::BishopBlack => "B",
        ChessPiece::KingWhite | ChessPiece::KingBlack => "K",
        ChessPiece::QueenWhite | ChessPiece::QueenBlack => "Q",
    }
}

/// Whether two strings hold the same characters.
fn str_eq_chars(a: &str, b: &str) -> (r: bool)
    ensures
        r == (a@ == b@),
{
    let n = a.unicode_len();
    let m = b.unicode_len();
    if n != m {
        return false;
    }
    let mut i: usize = 0;
    while i < n
        invariant
            i <= n,
            n == a@.len(),
            n == b@.len(),
            forall|j: int| 0 <= j < i ==> a@[j] == b@[j],
        decreases n - i,
    {
        if a.get_char(i) != b.get_char(i) {
            return false;
        }
        i = i + 1;
    }
    proof {
        assert(a@ =~= b@);
    }
    true
}

/// Whether text has the shape of a square-pair move such as `"e2-e4"`:
/// at least five characters, with file letters and rank digits at the
/// square positions. The separator character is not inspected.
pub open spec fn move_text_valid(s: Seq<char>) -> bool {
    &&& s.len() >= 5
    &&& 97 <= s[0] as u32 <= 104
    &&& 49 <= s[1] as u32 <= 56
    &&& 97 <= s[3] as u32 <= 104
    &&& 49 <= s[4] as u32 <= 56
}

/// The piece a promotion letter denotes; any other character denotes an
/// empty cell.
pub open spec fn piece_from_letter(c: char) -> ChessPiece {
    if c == 'P' {
        ChessPiece::PawnWhite
    } else if c == 'p' {
        ChessPiece::PawnBlack
    } else if c == 'R' {
        ChessPiece::RookWhite
    } else if c == 'r' {
        ChessPiece::RookBlack
    } else if c == 'N' {
        ChessPiece::KnightWhite
    } else if c == 'n' {
        ChessPiece::KnightBlack
    } else if c == 'B' {
        ChessPiece::BishopWhite
    } else if c == 'b' {
        ChessPiece::BishopBlack
    } else if c == 'K' {
        ChessPiece::KingWhite
    } else if c == 'k' {
        ChessPiece::KingBlack
    } else if c == 'Q' {
        ChessPiece::QueenWhite
    } else if c == 'q' {
        ChessPiece::QueenBlack
    } else {
        ChessPiece::Empty
    }
}

/// The move denoted by text on a given board: `"0-0"` / `"0-0-0"` castles
/// for the side to move; otherwise a square pair, marked en passant when a
/// pawn moves onto the recorded target square, a promotion when a pawn
/// move carries a sixth character, and plain otherwise. Malformed text
/// denotes no move.
pub open spec fn chess_move_from_chars(b: ChessBoardState, s: Seq<char>) -> Option<ChessMove> {
    if s == "0-0"@ {
        if b.turn == Color::White {
            Option::Some(
                ChessMove {
                    mv: Move { from: Pos { x: 4, y: 0 }, to: Pos { x: 6, y: 0 } },
                    move_type: ChessMoveType::CastleShort,
                },
            )
        } else {
            Option::Some(
                ChessMove {
                    mv: Move { from: Pos { x: 4, y: 7 }, to: Pos { x: 6, y: 7 } },
                    move_type: ChessMoveType::CastleShort,
                },
            )
        }
    } else if s == "0-0-0"@ {
        if b.turn == Color::White {
            Option::Some(
                ChessMove {
                    mv: Move { from: Pos { x: 4, y: 0 }, to: Pos { x: 2, y: 0 } },
                    move_type: ChessMoveType::CastleLong,
                },
            )
        } else {
            Option::Some(
                ChessMove {
                    mv: Move { from: Pos { x: 4, y: 7 }, to: Pos { x: 2, y: 7 } },
                    move_type: ChessMoveType::CastleLong,
                },
            )
        }
    } else if move_text_valid(s) {
        let m = Move {
            from: crate::game::board::pos_from_chars(s.subrange(0, 2)),
            to: crate::game::board::pos_from_chars(s.subrange(3, 5)),
        };
        let piece = b.board@[pos_idx(m.from)];
        if (piece == ChessPiece::PawnWhite || piece == ChessPiece::PawnBlack) && pos_code(m.to)
            == b.en_passant {
            Option::Some(ChessMove { mv: m, move_type: ChessMoveType::EnPassant })
        } else if (piece == ChessPiece::PawnWhite || piece == ChessPiece::PawnBlack) && s.len()
            == 6 {
            Option::Some(
                ChessMove { mv: m, move_type: ChessMoveType::Promotion(piece_from_letter(s[5])) },
            )
        } else {
            Option::Some(ChessMove { mv: m, move_type: ChessMoveType::Simple })
        }
    } else {
        Option::None
    }
}

/// The piece a notation letter denotes.
pub(crate) fn piece_from_letter_exec(c: char) -> (r: ChessPiece)
    ensures
        r == piece_from_letter(c),
{
    if c == 'P' {
        ChessPiece::PawnWhite
    } else if c == 'p' {
        ChessPiece::PawnBlack
    } else if c == 'R' {
        ChessPiece::RookWhite
    } else if c == 'r' {
        ChessPiece::RookBlack
    } else if c == 'N' {
        ChessPiece::KnightWhite
    } else if c == 'n' {
        ChessPiece::KnightBlack
    } else if c == 'B' {
        ChessPiece::BishopWhite
    } else if c == 'b' {
        ChessPiece::BishopBlack
    } else if c == 'K' {
        ChessPiece::KingWhite
    } else if c == 'k' {
        ChessPiece::KingBlack
    } else if c == 'Q' {
        ChessPiece::QueenWhite
    } else if c == 'q' {
        ChessPiece::QueenBlack
    } else {
        ChessPiece::Empty
    }
}

impl ChessBoardState {
    /// Render a move for this board: castles as `"0-0"` / `"0-0-0"`, every
    /// other move as the mover's uppercase letter followed by the move's
    /// own text form.
    pub fn get_move_string(&self, mv: ChessMove) -> (r: String)
        requires
            pos_on_board(mv.mv.from),
            pos_on_board(mv.mv.to) || (mv.mv.to.x == 0x0F && mv.mv.to.y == 0x0F),
        ensures
            r@ == board_move_chars(*self, mv),
    {
        let piece = self.get_piece_unsafe(mv.mv.from);
        match mv.move_type {
            ChessMoveType::CastleLong => String::from_str("0-0-0"),
            ChessMoveType::CastleShort => String::from_str("0-0"),
            _ => {
                let r = String::from_str(piece_upper_str(piece)).concat(
                    mv.get_move_string().as_str(),
                );
                proof {
                    assert(r@ =~= board_move_chars(*self, mv));
                }
                r
            },
        }
    }

    /// Parse a move from its short text form for this board; see
    /// [`chess_move_from_chars`]. Malformed text yields no move, with no
    /// crash.
    pub fn get_chess_move_from_string(&self, move_str: &str) -> (r: Option<ChessMove>)
        ensures
            r == chess_move_from_chars(*self, move_str@),
    {
        if str_eq_chars(move_str, "0-0") {
            if self.turn == Color::White {
                return Option::Some(
                    ChessMove {
                        mv: Move { from: Pos { x: 4, y: 0 }, to: Pos { x: 6, y: 0 } },
                        move_type: ChessMoveType::CastleShort,
                    },
                );
            }
            return Option::Some(
                ChessMove {
                    mv: Move { from: Pos { x: 4, y: 7 }, to: Pos { x: 6, y: 7 } },
                    move_type: ChessMoveType::CastleShort,
                },
            );
        }
        if str_eq_chars(move_str, "0-0-0") {
            if self.turn == Color::White {
                return Option::Some(
                    ChessMove {
                        mv: Move { from: Pos { x: 4, y: 0 }, to: Pos { x: 2, y: 0 } },
                        move_type: ChessMoveType::CastleLong,
                    },
                );
            }
            return Option::Some(
                ChessMove {
                    mv: Move { from: Pos { x: 4, y: 7 }, to: Pos { x: 2, y: 7 } },
                    move_type: ChessMoveType::CastleLong,
                },
            );
        }
        let n = move_str.unicode_len();
        if n < 5 {
            return Option::None;
        }
        let c0 = move_str.get_char(0) as u32;
        let c1 = move_str.get_char(1) as u32;
        let c3 = move_str.get_char(3) as u32;
        let c4 = move_str.get_char(4) as u32;
        if !(97 <= c0 && c0 <= 104 && 49 <= c1 && c1 <= 56 && 97 <= c3 && c3 <= 104 && 49 <= c4
            && c4 <= 56) {
            return Option::None;
        }
        let mv = Move::new_from_str(move_str);
        let piece = self.get_piece_unsafe(mv.from);
        if piece == ChessPiece::PawnWhite || piece == ChessPiece::PawnBlack {
            if mv.to.get_code() == self.en_passant {
                return Option::Some(ChessMove { mv, move_type: ChessMoveType::EnPassant });
            }
            if n == 6 {
                let promo = piece_from_letter_exec(move_str.get_char(5));
                return Option::Some(
                    ChessMove { mv, move_type: ChessMoveType::Promotion(promo) },
                );
            }
        }
        Option::Some(ChessMove { mv, move_type: ChessMoveType::Simple })
    }
}

} // verus!
