//! Position scoring and depth-limited adversarial search.
//!
//! The evaluator holds fixed tunable integer weights: a material value per
//! piece kind, a small castling bonus, a per-rank bonus table for pawns and
//! a center-control bonus table for the other pieces. The search is
//! alpha-beta with heuristic move ordering and incremental evaluation over
//! the pseudo-legal move generator; a move that captures the opponent's
//! king is a terminal for its branch, standing in for the legality filter
//! (a deliberate, documented trade-off of this engine). Each recursive call
//! returns its own best line, composed upward, so no state is shared
//! between sibling branches.

use vstd::prelude::*;

use crate::game::board::{
    piece_color, pos_idx, pos_on_board, ChessBoardState, ChessPiece, Color, Move, Pos,
};
use crate::game::moves::{all_moves, lemma_all_moves_applicable};
use crate::game::rules::{
    move_applicable, move_applied, move_result_of, ChessMove, ChessMoveType, MoveResult,
};

verus! {

/// A score dominating every reachable evaluation; reported when the side
/// to move has no pseudo-legal move at all.
pub const WIN_SCORE: i64 = 100_000_000;

/// The initial best-score sentinel, strictly dominating every score the
/// search can produce, so the first candidate always becomes the best.
pub const SCORE_INF: i64 = 1_000_000_000;

/// Largest magnitude any single weight may have.
pub const WEIGHT_BOUND: i64 = 200_000;

/// Largest magnitude a one-ply score delta may have under well-formed
/// weights.
pub const DIFF_BOUND: i64 = 1_200_000;

/// Material values per piece kind, in centipawn-scaled units.
pub struct PieceEvaluation {
    pub king: i64,
    pub queen: i64,
    pub rook: i64,
    pub knight: i64,
    pub bishop: i64,
    pub pawn: i64,
}

/// A candidate move with its ordering or search score.
#[derive(Clone, Copy, PartialEq, Eq, Structural, Debug)]
pub struct EvaluationCandidate {
    pub mv: ChessMove,
    pub value: i64,
}

/// The scoring weights and the leaf-count diagnostic of one search.
pub struct Evaluator {
    pub pieces_values: PieceEvaluation,
    pub castle_value: i64,
    pub pawn_pos_value: [i64; 8],
    pub center_pos_value: [i64; 8],
    pub low_level_eval_called: i64,
}

/// Well-formed weights: every weight is a bounded non-negative number, so
/// that no score the search forms can overflow its word.
pub open spec fn evaluator_wf(ev: Evaluator) -> bool {
    &&& 0 <= ev.pieces_values.king <= WEIGHT_BOUND
    &&& 0 <= ev.pieces_values.queen <= WEIGHT_BOUND
    &&& 0 <= ev.pieces_values.rook <= WEIGHT_BOUND
    &&& 0 <= ev.pieces_values.knight <= WEIGHT_BOUND
    &&& 0 <= ev.pieces_values.bishop <= WEIGHT_BOUND
    &&& 0 <= ev.pieces_values.pawn <= WEIGHT_BOUND
    &&& 0 <= ev.castle_value <= WEIGHT_BOUND
    &&& forall|i: int| 0 <= i < 8 ==> 0 <= #[trigger] ev.pawn_pos_value@[i] <= WEIGHT_BOUND
    &&& forall|i: int| 0 <= i < 8 ==> 0 <= #[trigger] ev.center_pos_value@[i] <= WEIGHT_BOUND
}

/// Whether two evaluators carry the same weights (only the diagnostic
/// counter may differ).
pub open spec fn same_weights(a: Evaluator, b: Evaluator) -> bool {
    &&& a.pieces_values == b.pieces_values
    &&& a.castle_value == b.castle_value
    &&& a.pawn_pos_value == b.pawn_pos_value
    &&& a.center_pos_value == b.center_pos_value
}

/// The signed material value of a piece: positive for white, negative for
/// black, zero for an empty cell.
pub open spec fn piece_value_spec(ev: Evaluator, piece: ChessPiece) -> int {
    match piece {
        ChessPiece::Empty => 0,
        ChessPiece::PawnBlack => -ev.pieces_values.pawn,
        ChessPiece::PawnWhite => ev.pieces_values.pawn as int,
        ChessPiece::RookBlack => -ev.pieces_values.rook,
        ChessPiece::RookWhite => ev.pieces_values.rook as int,
        ChessPiece::KnightBlack => -ev.pieces_values.knight,
        ChessPiece::KnightWhite => ev.pieces_values.knight as int,
        ChessPiece::BishopBlack => -ev.pieces_values.bishop,
        ChessPiece::BishopWhite => ev.pieces_values.bishop as int,
        ChessPiece::QueenBlack => -ev.pieces_values.queen,
        ChessPiece::QueenWhite => ev.pieces_values.queen as int,
        ChessPiece::KingBlack => -ev.pieces_values.king,
        ChessPiece::KingWhite => ev.pieces_values.king as int,
    }
}

/// The signed positional bonus of a piece standing on `pos`: pawns read
/// the per-rank table (from their own side) plus a quarter of the
/// center-control bonus, every other piece half of the center-control
/// bonus; negative for black.
pub open spec fn pos_value_spec(ev: Evaluator, piece: ChessPiece, pos: Pos) -> int {
    let center = (ev.center_pos_value@[pos.x as int] + ev.center_pos_value@[pos.y as int]);
    if piece == ChessPiece::PawnWhite {
        ev.pawn_pos_value@[pos.y as int] + center / 4
    } else if piece == ChessPiece::PawnBlack {
        -(ev.pawn_pos_value@[7 - pos.y] + center / 4)
    } else {
        let mult: int = if piece_color(piece) == Option::Some(Color::White) {
            1
        } else {
            -1
        };
        mult * (center / 2)
    }
}

/// The incremental score correction of one applied move: the positional
/// gain of the moved piece, the material change the effect records, and
/// the castling bonus when the move was a castle.
pub open spec fn eval_diff_spec(
    ev: Evaluator,
    nb: ChessBoardState,
    res: MoveResult,
    cm: ChessMove,
) -> int {
    let piece = nb.board@[pos_idx(cm.mv.to)];
    let mult: int = if piece_color(piece) == Option::Some(Color::White) {
        1
    } else {
        -1
    };
    (if cm.move_type == ChessMoveType::CastleLong || cm.move_type == ChessMoveType::CastleShort {
        ev.castle_value * mult
    } else {
        0
    }) + pos_value_spec(ev, piece, cm.mv.to) - pos_value_spec(ev, piece, cm.mv.from)
        + piece_value_spec(ev, res.new) - piece_value_spec(ev, res.remove)
}

/// The static material score of the first `n` board cells.
pub open spec fn board_score_upto(ev: Evaluator, b: ChessBoardState, n: nat) -> int
    decreases n,
{
    if n == 0 {
        0
    } else {
        board_score_upto(ev, b, (n - 1) as nat) + piece_value_spec(ev, b.board@[n - 1])
    }
}

/// The static material score of a position, summed from scratch.
pub open spec fn board_score(ev: Evaluator, b: ChessBoardState) -> int {
    board_score_upto(ev, b, 64)
}

/// The static score depends on the weights alone, not on the diagnostic
/// counter.
proof fn lemma_board_score_weights_only(a: Evaluator, b: Evaluator, bd: ChessBoardState, n: nat)
    requires
        same_weights(a, b),
    ensures
        board_score_upto(a, bd, n) == board_score_upto(b, bd, n),
    decreases n,
{
    if n > 0 {
        lemma_board_score_weights_only(a, b, bd, (n - 1) as nat);
    }
}

/// The full-width minimax value of a position: the running score at depth
/// zero, a win for the side not to move when there is no move at all, and
/// otherwise the best over every candidate's value (see
/// [`minimax_child`]).
pub open spec fn minimax(ev: Evaluator, cur: int, b: ChessBoardState, max: bool, depth: nat) -> int
    decreases depth, 2int, 0int,
{
    if depth == 0 {
        cur
    } else if all_moves(b).len() == 0 {
        if !max {
            WIN_SCORE as int
        } else {
            -WIN_SCORE
        }
    } else {
        minimax_best(
            ev,
            cur,
            b,
            max,
            depth,
            0,
            if !max {
                SCORE_INF as int
            } else {
                -SCORE_INF
            },
        )
    }
}

/// The best candidate value among the moves from index `i` on, folded onto
/// `acc` by strict comparison (the first best value seen is kept).
pub open spec fn minimax_best(
    ev: Evaluator,
    cur: int,
    b: ChessBoardState,
    max: bool,
    depth: nat,
    i: int,
    acc: int,
) -> int
    decreases depth, 1int, all_moves(b).len() - i,
{
    if i < 0 || i >= all_moves(b).len() {
        acc
    } else {
        let v = minimax_child(ev, cur, b, max, depth, i);
        minimax_best(
            ev,
            cur,
            b,
            max,
            depth,
            i + 1,
            if max && v > acc || !max && v < acc {
                v
            } else {
                acc
            },
        )
    }
}

/// The value the `i`-th candidate move contributes: an immediate terminal
/// when it captures the opponent's king, else the minimax value of the
/// resulting position one ply shallower, with the running score corrected
/// incrementally.
pub open spec fn minimax_child(
    ev: Evaluator,
    cur: int,
    b: ChessBoardState,
    max: bool,
    depth: nat,
    i: int,
) -> int
    decreases depth, 0int, 0int,
{
    let mv = all_moves(b)[i];
    let nb = move_applied(b, mv);
    let res = move_result_of(b, mv);
    if res.remove == ChessPiece::KingBlack || res.remove == ChessPiece::KingWhite {
        -piece_value_spec(ev, res.remove)
    } else if depth >= 1 {
        minimax(ev, cur + eval_diff_spec(ev, nb, res, mv), nb, !max, (depth - 1) as nat)
    } else {
        cur
    }
}

/// The minimax value depends on the weights alone, not on the diagnostic
/// counter.
proof fn lemma_minimax_weights_only(
    a: Evaluator,
    b2: Evaluator,
    cur: int,
    bd: ChessBoardState,
    max: bool,
    depth: nat,
)
    requires
        same_weights(a, b2),
    ensures
        minimax(a, cur, bd, max, depth) == minimax(b2, cur, bd, max, depth),
    decreases depth, 2int, 0int,
{
    if depth == 0 || all_moves(bd).len() == 0 {
    } else {
        lemma_minimax_best_weights_only(
            a,
            b2,
            cur,
            bd,
            max,
            depth,
            0,
            if !max {
                SCORE_INF as int
            } else {
                -SCORE_INF
            },
        );
    }
}

/// As [`lemma_minimax_weights_only`], for the candidate fold.
proof fn lemma_minimax_best_weights_only(
    a: Evaluator,
    b2: Evaluator,
    cur: int,
    bd: ChessBoardState,
    max: bool,
    depth: nat,
    i: int,
    acc: int,
)
    requires
        same_weights(a, b2),
    ensures
        minimax_best(a, cur, bd, max, depth, i, acc) == minimax_best(b2, cur, bd, max, depth, i, acc),
    decreases depth, 1int, all_moves(bd).len() - i,
{
    if i < 0 || i >= all_moves(bd).len() {
    } else {
        lemma_minimax_child_weights_only(a, b2, cur, bd, max, depth, i);
        let v = minimax_child(a, cur, bd, max, depth, i);
        lemma_minimax_best_weights_only(
            a,
            b2,
            cur,
            bd,
            max,
            depth,
            i + 1,
            if max && v > acc || !max && v < acc {
                v
            } else {
                acc
            },
        );
    }
}

/// As [`lemma_minimax_weights_only`], for one candidate's value.
proof fn lemma_minimax_child_weights_only(
    a: Evaluator,
    b2: Evaluator,
    cur: int,
    bd: ChessBoardState,
    max: bool,
    depth: nat,
    i: int,
)
    requires
        same_weights(a, b2),
    ensures
        minimax_child(a, cur, bd, max, depth, i) == minimax_child(b2, cur, bd, max, depth, i),
    decreases depth, 0int, 0int,
{
    let mv = all_moves(bd)[i];
    let nb = move_applied(bd, mv);
    let res = move_result_of(bd, mv);
    if res.remove == ChessPiece::KingBlack || res.remove == ChessPiece::KingWhite {
    } else if depth >= 1 {
        lemma_minimax_weights_only(
            a,
            b2,
            cur + eval_diff_spec(a, nb, res, mv),
            nb,
            !max,
            (depth - 1) as nat,
        );
    }
}

/// The piece, positional and incremental scores depend on the weights
/// alone, not on the diagnostic counter.
proof fn lemma_scores_weights_only(a: Evaluator, b2: Evaluator)
    requires
        same_weights(a, b2),
    ensures
        forall|p: ChessPiece| #[trigger] piece_value_spec(a, p) == piece_value_spec(b2, p),
        forall|p: ChessPiece, pos: Pos| #[trigger] pos_value_spec(a, p, pos) == pos_value_spec(
            b2,
            p,
            pos,
        ),
        forall|nb: ChessBoardState, res: MoveResult, cm: ChessMove| #[trigger] eval_diff_spec(
            a,
            nb,
            res,
            cm,
        ) == eval_diff_spec(b2, nb, res, cm),
{
    assert(a.pawn_pos_value@ =~= b2.pawn_pos_value@);
    assert(a.center_pos_value@ =~= b2.center_pos_value@);
}

/// The candidate fold is at least (for the maximizing side; at most for
/// the minimizing side) its accumulator.
proof fn lemma_minimax_best_acc(
    ev: Evaluator,
    cur: int,
    b: ChessBoardState,
    max: bool,
    depth: nat,
    i: int,
    acc: int,
)
    ensures
        max ==> minimax_best(ev, cur, b, max, depth, i, acc) >= acc,
        !max ==> minimax_best(ev, cur, b, max, depth, i, acc) <= acc,
    decreases all_moves(b).len() - i,
{
    if i < 0 || i >= all_moves(b).len() {
    } else {
        let v = minimax_child(ev, cur, b, max, depth, i);
        let acc2 = if max && v > acc || !max && v < acc {
            v
        } else {
            acc
        };
        lemma_minimax_best_acc(ev, cur, b, max, depth, i + 1, acc2);
    }
}

/// The candidate fold is at least (for the maximizing side; at most for
/// the minimizing side) every candidate value it folds over.
proof fn lemma_minimax_best_covers(
    ev: Evaluator,
    cur: int,
    b: ChessBoardState,
    max: bool,
    depth: nat,
    i: int,
    acc: int,
    k: int,
)
    requires
        i <= k < all_moves(b).len(),
        0 <= i,
    ensures
        max ==> minimax_best(ev, cur, b, max, depth, i, acc) >= minimax_child(
            ev,
            cur,
            b,
            max,
            depth,
            k,
        ),
        !max ==> minimax_best(ev, cur, b, max, depth, i, acc) <= minimax_child(
            ev,
            cur,
            b,
            max,
            depth,
            k,
        ),
    decreases all_moves(b).len() - i,
{
    let v = minimax_child(ev, cur, b, max, depth, i);
    let acc2 = if max && v > acc || !max && v < acc {
        v
    } else {
        acc
    };
    if i == k {
        lemma_minimax_best_acc(ev, cur, b, max, depth, i + 1, acc2);
    } else {
        lemma_minimax_best_covers(ev, cur, b, max, depth, i + 1, acc2, k);
    }
}

/// The candidate fold stays within a bound that its accumulator and every
/// candidate value respect.
proof fn lemma_minimax_best_bounded(
    ev: Evaluator,
    cur: int,
    b: ChessBoardState,
    max: bool,
    depth: nat,
    i: int,
    acc: int,
    bound: int,
)
    requires
        forall|k: int|
            i <= k < all_moves(b).len() ==> (if max {
                #[trigger] minimax_child(ev, cur, b, max, depth, k) <= bound
            } else {
                minimax_child(ev, cur, b, max, depth, k) >= bound
            }),
        max ==> acc <= bound,
        !max ==> acc >= bound,
    ensures
        max ==> minimax_best(ev, cur, b, max, depth, i, acc) <= bound,
        !max ==> minimax_best(ev, cur, b, max, depth, i, acc) >= bound,
    decreases all_moves(b).len() - i,
{
    if i < 0 || i >= all_moves(b).len() {
    } else {
        let v = minimax_child(ev, cur, b, max, depth, i);
        let acc2 = if max && v > acc || !max && v < acc {
            v
        } else {
            acc
        };
        lemma_minimax_best_bounded(ev, cur, b, max, depth, i + 1, acc2, bound);
    }
}

/// What the alpha-beta loop knows of one already-examined candidate `i`,
/// with `best` the best score so far: for the maximizing side, either the
/// candidate's true value is at most `best`, or it and `best` both passed
/// the window's upper end (and the window was not degenerate); mirrored
/// for the minimizing side.
spec fn ab_seen(
    ev: Evaluator,
    cur: int,
    b: ChessBoardState,
    max: bool,
    depth: nat,
    alpha: int,
    beta: int,
    best: int,
    i: int,
) -> bool {
    let g = minimax_child(ev, cur, b, max, depth, i);
    if max {
        g <= best || (g >= beta && best >= beta && alpha < beta)
    } else {
        g >= best || (g <= alpha && best <= alpha && alpha < beta)
    }
}

/// What the alpha-beta loop knows of its best score so far: some
/// candidate's true value reaches it, or it never left the window's far
/// side.
spec fn ab_witnessed(
    ev: Evaluator,
    cur: int,
    b: ChessBoardState,
    max: bool,
    depth: nat,
    alpha: int,
    beta: int,
    best: int,
) -> bool {
    ||| exists|i: int|
        0 <= i < all_moves(b).len() && (max && #[trigger] minimax_child(ev, cur, b, max, depth, i)
            >= best || !max && minimax_child(ev, cur, b, max, depth, i) <= best)
    ||| (max && best <= alpha && best < beta)
    ||| (!max && best >= beta && best > alpha)
}

impl PieceEvaluation {
    /// The standard material values.
    pub fn new() -> (r: PieceEvaluation)
        ensures
            r.king == 100_000,
            r.queen == 900,
            r.rook == 500,
            r.knight == 300,
            r.bishop == 300,
            r.pawn == 100,
    {
        PieceEvaluation {
            king: 100_000,
            queen: 900,
            rook: 500,
            knight: 300,
            bishop: 300,
            pawn: 100,
        }
    }
}

impl Evaluator {
    /// An evaluator with the standard weights and a zeroed leaf counter.
    pub fn new() -> (r: Evaluator)
        ensures
            evaluator_wf(r),
            r.low_level_eval_called == 0,
            r.castle_value == 30,
    {
        let r = Evaluator {
            pieces_values: PieceEvaluation::new(),
            castle_value: 30,
            pawn_pos_value: [0, 0, 5, 10, 10, 30, 100, 0],
            center_pos_value: [0, 2, 10, 20, 20, 10, 2, 0],
            low_level_eval_called: 0,
        };
        proof {
            assert(forall|i: int| 0 <= i < 8 ==> 0 <= #[trigger] r.pawn_pos_value@[i] <= WEIGHT_BOUND);
            assert(forall|i: int|
                0 <= i < 8 ==> 0 <= #[trigger] r.center_pos_value@[i] <= WEIGHT_BOUND);
        }
        r
    }

    /// The signed material value of a piece.
    pub fn get_piece_value(&self, piece: ChessPiece) -> (r: i64)
        requires
            evaluator_wf(*self),
        ensures
            r as int == piece_value_spec(*self, piece),
            -WEIGHT_BOUND <= r <= WEIGHT_BOUND,
    {
        match piece {
            ChessPiece::Empty => 0,
            ChessPiece::PawnBlack => -self.pieces_values.pawn,
            ChessPiece::PawnWhite => self.pieces_values.pawn,
            ChessPiece::RookBlack => -self.pieces_values.rook,
            ChessPiece::RookWhite => self.pieces_values.rook,
            ChessPiece::KnightBlack => -self.pieces_values.knight,
            ChessPiece::KnightWhite => self.pieces_values.knight,
            ChessPiece::BishopBlack => -self.pieces_values.bishop,
            ChessPiece::BishopWhite => self.pieces_values.bishop,
            ChessPiece::QueenBlack => -self.pieces_values.queen,
            ChessPiece::QueenWhite => self.pieces_values.queen,
            ChessPiece::KingBlack => -self.pieces_values.king,
            ChessPiece::KingWhite => self.pieces_values.king,
        }
    }

    /// The signed positional bonus of a piece standing on `pos`.
    fn get_piece_value_from_pos(&self, piece: ChessPiece, pos: Pos) -> (r: i64)
        requires
            evaluator_wf(*self),
            pos_on_board(pos),
        ensures
            r as int == pos_value_spec(*self, piece, pos),
            -3 * WEIGHT_BOUND <= r <= 3 * WEIGHT_BOUND,
    {
        let center = self.center_pos_value[pos.x as usize] + self.center_pos_value[pos.y as usize];
        if piece == ChessPiece::PawnWhite {
            self.pawn_pos_value[pos.y as usize] + center / 4
        } else if piece == ChessPiece::PawnBlack {
            -(self.pawn_pos_value[(7 - pos.y) as usize] + center / 4)
        } else {
            let mult: i64 = if self.piece_is_white(piece) {
                1
            } else {
                -1
            };
            mult * (center / 2)
        }
    }

    /// Whether a piece belongs to white.
    fn piece_is_white(&self, piece: ChessPiece) -> (r: bool)
        ensures
            r == (piece_color(piece) == Option::Some(Color::White)),
    {
        match piece.get_color() {
            Option::Some(c) => c == Color::White,
            Option::None => false,
        }
    }

    /// The incremental score correction of one applied move; see
    /// [`eval_diff_spec`].
    pub fn get_result_eval_diff(
        &self,
        board: &ChessBoardState,
        move_res: MoveResult,
        mv: ChessMove,
    ) -> (r: i64)
        requires
            evaluator_wf(*self),
            pos_on_board(mv.mv.from),
            pos_on_board(mv.mv.to),
        ensures
            r as int == eval_diff_spec(*self, *board, move_res, mv),
            -DIFF_BOUND <= r <= DIFF_BOUND,
    {
        let piece = board.get_piece_unsafe(mv.mv.to);
        let mult: i64 = if self.piece_is_white(piece) {
            1
        } else {
            -1
        };
        let mut sum: i64 = 0;
        if mv.move_type == ChessMoveType::CastleLong || mv.move_type == ChessMoveType::CastleShort {
            sum = sum + self.castle_value * mult;
        }
        sum = sum + self.get_piece_value_from_pos(piece, mv.mv.to) - self.get_piece_value_from_pos(
            piece,
            mv.mv.from,
        );
        sum = sum + self.get_piece_value(move_res.new) - self.get_piece_value(move_res.remove);
        sum
    }

    /// The static material score of a position, summed over all 64 cells.
    pub fn simple_eval(&self, board: &ChessBoardState) -> (r: i64)
        requires
            evaluator_wf(*self),
        ensures
            r as int == board_score(*self, *board),
            -64 * WEIGHT_BOUND <= r <= 64 * WEIGHT_BOUND,
    {
        let mut eval: i64 = 0;
        let mut i: usize = 0;
        while i < 64
            invariant
                i <= 64,
                evaluator_wf(*self),
                eval as int == board_score_upto(*self, *board, i as nat),
                -(i as i64) * WEIGHT_BOUND <= eval <= (i as i64) * WEIGHT_BOUND,
            decreases 64 - i,
        {
            let piece = board.get_piece_coords_unsafe(i % 8, i / 8);
            proof {
                assert(board.board@[(i / 8) * 8 + (i % 8)] == board.board@[i as int]);
            }
            eval = eval + self.get_piece_value(piece);
            i = i + 1;
        }
        eval
    }

    /// The dummy candidate used to seed a node's best score before any
    /// move has been examined.
    fn get_base_move(value: i64) -> (r: EvaluationCandidate)
        ensures
            r.value == value,
    {
        EvaluationCandidate {
            mv: ChessMove {
                mv: Move { from: Pos { x: 0, y: 0 }, to: Pos { x: 0, y: 0 } },
                move_type: ChessMoveType::Simple,
            },
            value,
        }
    }

    /// One alpha-beta node: examine the side to move's pseudo-legal moves
    /// in heuristic order (best one-ply delta first), recurse with the
    /// running score and a swapped maximizing flag, prune once the best
    /// score passes the window, and return the best score together with
    /// the best line found below this node (deepest move first).
    ///
    /// A move that captures the opponent's king scores as an immediate
    /// terminal for its branch; a node with no moves at all scores as a
    /// win for the side not to move.
    ///
    /// The returned score is fail-soft sound: strictly inside the window
    /// it equals the exact [`minimax`] value, and when it falls on or
    /// outside a window end it bounds that value from the matching side.
    #[verifier::loop_isolation(false)]
    #[verifier::rlimit(100)]
    fn eval(
        &mut self,
        cur_eval: i64,
        alpha: i64,
        beta: i64,
        board: ChessBoardState,
        max: bool,
        depth: usize,
    ) -> (r: (i64, Vec<EvaluationCandidate>))
        requires
            evaluator_wf(*old(self)),
            depth <= 64,
            -WIN_SCORE + (depth as int) * DIFF_BOUND <= cur_eval as int <= WIN_SCORE - (
            depth as int) * DIFF_BOUND,
        ensures
            same_weights(*old(self), *final(self)),
            evaluator_wf(*final(self)),
            -2 * WIN_SCORE <= r.0 as int <= 2 * WIN_SCORE,
            r.1@.len() <= depth,
            depth > 0 && all_moves(board).len() > 0 ==> r.1@.len() >= 1 && all_moves(
                board,
            ).contains(r.1@.last().mv),
            depth == 0 ==> r.0 == cur_eval && r.1@.len() == 0,
            depth > 0 && all_moves(board).len() == 0 ==> r.0 as int == (if !max {
                WIN_SCORE as int
            } else {
                -WIN_SCORE
            }) && r.1@.len() == 0,
            alpha <= beta && alpha < r.0 && r.0 < beta ==> r.0 as int == minimax(
                *old(self),
                cur_eval as int,
                board,
                max,
                depth as nat,
            ),
            alpha <= beta && r.0 <= alpha ==> minimax(
                *old(self),
                cur_eval as int,
                board,
                max,
                depth as nat,
            ) <= r.0 as int,
            alpha <= beta && r.0 >= beta ==> minimax(
                *old(self),
                cur_eval as int,
                board,
                max,
                depth as nat,
            ) >= r.0 as int,
        decreases depth,
    {
        if depth == 0 {
            if self.low_level_eval_called < i64::MAX {
                self.low_level_eval_called = self.low_level_eval_called + 1;
            }
            return (cur_eval, Vec::new());
        }
        let all_moves_v = board.get_all_moves();
        proof {
            lemma_all_moves_applicable(board);
        }
        if all_moves_v.len() == 0 {
            return (
                if !max {
                    WIN_SCORE
                } else {
                    -WIN_SCORE
                },
                Vec::new(),
            );
        }
        let mut moves_queue: Vec<EvaluationCandidate> = Vec::new();
        let mut i: usize = 0;
        while i < all_moves_v.len()
            invariant
                i <= all_moves_v@.len(),
                moves_queue@.len() == i,
                forall|j: int|
                    0 <= j < moves_queue@.len() ==> (#[trigger] moves_queue@[j]).mv == all_moves(
                        board,
                    )[j],
            decreases all_moves_v@.len() - i,
        {
            let mv = all_moves_v[i];
            proof {
                assert(all_moves(board)[i as int] == mv);
                assert(move_applicable(board, all_moves(board)[i as int]));
            }
            let (new_board, res) = board.get_new_pos_after_move_for_eval(mv);
            let diff = self.get_result_eval_diff(&new_board, res, mv);
            let value: i64 = if max {
                cur_eval + diff
            } else {
                -cur_eval - diff
            };
            moves_queue.push(EvaluationCandidate { mv, value });
            i = i + 1;
        }
        let moves_num = moves_queue.len();
        let ghost ev0 = *old(self);
        let ghost cur0 = cur_eval as int;
        let ghost dep = depth as nat;
        let ghost n_all = all_moves(board).len() as int;
        let mut best = Self::get_base_move(
            if !max {
                SCORE_INF
            } else {
                -SCORE_INF
            },
        );
        let mut best_line: Vec<EvaluationCandidate> = Vec::new();
        let mut al = alpha;
        let mut be = beta;
        let ghost mut updated: bool = false;
        let ghost mut iq: Seq<int> = Seq::new(moves_num as nat, |k: int| k);
        let mut pruned = false;
        let mut it: usize = 0;
        proof {
            assert(moves_num as int == n_all);
            assert forall|j: int| 0 <= j < iq.len() implies 0 <= #[trigger] iq[j] < n_all
                && moves_queue@[j].mv == all_moves(board)[iq[j]] by {
                assert(iq[j] == j);
            }
            assert forall|i2: int| 0 <= i2 < n_all implies iq.contains(i2) by {
                assert(iq[i2] == i2);
            }
        }
        while it < moves_num && !pruned
            invariant
                it <= moves_num,
                moves_num >= 1,
                moves_queue@.len() == moves_num - it,
                iq.len() == moves_queue@.len(),
                forall|j: int|
                    0 <= j < iq.len() ==> 0 <= #[trigger] iq[j] < n_all && moves_queue@[j].mv
                        == all_moves(board)[iq[j]],
                it > 0 ==> updated,
                pruned ==> updated,
                updated ==> all_moves(board).contains(best.mv) && -2 * WIN_SCORE <= best.value
                    as int <= 2 * WIN_SCORE && best_line@.len() <= depth - 1,
                !updated ==> best_line@.len() == 0 && best.value as int == (if !max {
                    SCORE_INF as int
                } else {
                    -SCORE_INF
                }),
                max ==> be == beta,
                !max ==> al == alpha,
                alpha <= beta && !pruned ==> al <= be,
                alpha <= beta && !pruned && max ==> al as int == (if updated && best.value > alpha {
                    best.value as int
                } else {
                    alpha as int
                }),
                alpha <= beta && !pruned && !max ==> be as int == (if updated && best.value < beta {
                    best.value as int
                } else {
                    beta as int
                }),
                alpha <= beta && !pruned && updated ==> (max ==> best.value <= beta) && (!max
                    ==> best.value >= alpha),
                pruned ==> (max ==> best.value > beta) && (!max ==> best.value < alpha),
                alpha <= beta && !pruned ==> forall|i2: int|
                    0 <= i2 < n_all ==> iq.contains(i2) || ab_seen(
                        ev0,
                        cur0,
                        board,
                        max,
                        dep,
                        alpha as int,
                        beta as int,
                        best.value as int,
                        i2,
                    ),
                alpha <= beta && updated ==> ab_witnessed(
                    ev0,
                    cur0,
                    board,
                    max,
                    dep,
                    alpha as int,
                    beta as int,
                    best.value as int,
                ),
                same_weights(ev0, *self),
                evaluator_wf(*self),
            decreases moves_num - it,
        {
            let mut mi: usize = 0;
            let mut j: usize = 1;
            while j < moves_queue.len()
                invariant
                    mi < moves_queue@.len(),
                    j <= moves_queue@.len(),
                decreases moves_queue@.len() - j,
            {
                if moves_queue[j].value > moves_queue[mi].value {
                    mi = j;
                }
                j = j + 1;
            }
            let ghost queue_before = moves_queue@;
            let ghost iq_before = iq;
            let cand = moves_queue.swap_remove(mi);
            let ghost ex_i = iq_before[mi as int];
            proof {
                iq = iq_before.update(mi as int, iq_before.last()).drop_last();
                assert(cand.mv == all_moves(board)[ex_i]);
                assert(all_moves(board).contains(cand.mv));
                assert(move_applicable(board, all_moves(board)[ex_i]));
                assert forall|k: int| 0 <= k < iq.len() implies 0 <= #[trigger] iq[k] < n_all
                    && moves_queue@[k].mv == all_moves(board)[iq[k]] by {
                    assert(moves_queue@[k] == queue_before.update(
                        mi as int,
                        queue_before.last(),
                    ).drop_last()[k]);
                    assert(iq[k] == iq_before.update(mi as int, iq_before.last()).drop_last()[k]);
                }
            }
            let ghost mid = *self;
            let (new_board, res) = board.get_new_pos_after_move_for_eval(cand.mv);
            let value: i64;
            let mut line2: Vec<EvaluationCandidate> = Vec::new();
            let king_capture = res.remove == ChessPiece::KingBlack || res.remove
                == ChessPiece::KingWhite;
            if king_capture {
                value = -self.get_piece_value(res.remove);
            } else {
                let diff = self.get_result_eval_diff(&new_board, res, cand.mv);
                let (v, l) = self.eval(cur_eval + diff, al, be, new_board, !max, depth - 1);
                value = v;
                line2 = l;
            }
            let ghost g_exi = minimax_child(ev0, cur0, board, max, dep, ex_i);
            proof {
                lemma_scores_weights_only(ev0, mid);
                if king_capture {
                    assert(g_exi == value as int);
                } else {
                    lemma_minimax_weights_only(
                        mid,
                        ev0,
                        cur0 + eval_diff_spec(ev0, new_board, res, cand.mv),
                        new_board,
                        !max,
                        (dep - 1) as nat,
                    );
                }
                // from the recursive call's own contract, the examined
                // candidate's true value relates to the returned one:
                assert(alpha <= beta ==> {
                    &&& (al < value && value < be ==> g_exi == value as int)
                    &&& (value <= al ==> g_exi <= value as int)
                    &&& (value >= be ==> g_exi >= value as int)
                });
            }
            let ghost old_best = best;
            let ghost old_updated = updated;
            let ghost old_al = al;
            let ghost old_be = be;
            if max && value > best.value || !max && value < best.value {
                best = EvaluationCandidate { mv: cand.mv, value };
                best_line = line2;
                proof {
                    updated = true;
                }
            }
            if max {
                if value > be {
                    pruned = true;
                } else if value > al {
                    al = value;
                }
            } else {
                if value < al {
                    pruned = true;
                } else if value < be {
                    be = value;
                }
            }
            proof {
                if alpha <= beta {
                    let a = alpha as int;
                    let bt = beta as int;
                    let nb = best.value as int;
                    if !pruned {
                        // the examined candidate is now accounted for
                        if max {
                            if value as int >= old_be as int {
                                if a < bt {
                                    assert(ab_seen(ev0, cur0, board, max, dep, a, bt, nb, ex_i));
                                } else {
                                    assert(old_al as int == a && old_be as int == bt);
                                    assert(g_exi == value as int);
                                    assert(ab_seen(ev0, cur0, board, max, dep, a, bt, nb, ex_i));
                                }
                            } else {
                                assert(ab_seen(ev0, cur0, board, max, dep, a, bt, nb, ex_i));
                            }
                        } else {
                            if value as int <= old_al as int {
                                if a < bt {
                                    assert(ab_seen(ev0, cur0, board, max, dep, a, bt, nb, ex_i));
                                } else {
                                    assert(old_al as int == a && old_be as int == bt);
                                    assert(g_exi == value as int);
                                    assert(ab_seen(ev0, cur0, board, max, dep, a, bt, nb, ex_i));
                                }
                            } else {
                                assert(ab_seen(ev0, cur0, board, max, dep, a, bt, nb, ex_i));
                            }
                        }
                        // earlier facts survive: `best` only improves
                        assert forall|i2: int| 0 <= i2 < n_all implies iq.contains(i2) || ab_seen(
                            ev0,
                            cur0,
                            board,
                            max,
                            dep,
                            a,
                            bt,
                            nb,
                            i2,
                        ) by {
                            if i2 != ex_i {
                                if iq_before.contains(i2) {
                                    let p = choose|p: int|
                                        0 <= p < iq_before.len() && iq_before[p] == i2;
                                    if p == mi as int {
                                    } else if p == iq_before.len() - 1 {
                                        if mi as int == iq_before.len() - 1 {
                                        } else {
                                            assert(iq[mi as int] == i2);
                                        }
                                    } else {
                                        assert(iq[p] == i2);
                                    }
                                }
                            }
                        }
                    }
                    // the best score stays witnessed
                    if updated {
                        if old_updated && best == old_best {
                            assert(ab_witnessed(ev0, cur0, board, max, dep, a, bt, nb));
                        } else {
                            // the examined candidate set the new best
                            if max {
                                if value as int >= old_be as int {
                                    assert(g_exi >= nb);
                                    assert(ab_witnessed(ev0, cur0, board, max, dep, a, bt, nb));
                                } else if value > old_al {
                                    assert(g_exi == nb);
                                    assert(ab_witnessed(ev0, cur0, board, max, dep, a, bt, nb));
                                } else {
                                    assert(old_al as int == a);
                                    assert(nb <= a && nb < bt);
                                    assert(ab_witnessed(ev0, cur0, board, max, dep, a, bt, nb));
                                }
                            } else {
                                if value as int <= old_al as int {
                                    assert(g_exi <= nb);
                                    assert(ab_witnessed(ev0, cur0, board, max, dep, a, bt, nb));
                                } else if value < old_be {
                                    assert(g_exi == nb);
                                    assert(ab_witnessed(ev0, cur0, board, max, dep, a, bt, nb));
                                } else {
                                    assert(old_be as int == bt);
                                    assert(nb >= bt && nb > a);
                                    assert(ab_witnessed(ev0, cur0, board, max, dep, a, bt, nb));
                                }
                            }
                        }
                    }
                }
            }
            it = it + 1;
        }
        proof {
            assert(updated);
            if alpha <= beta {
                let a = alpha as int;
                let bt = beta as int;
                let nb = best.value as int;
                let initv: int = if !max {
                    SCORE_INF as int
                } else {
                    -SCORE_INF
                };
                assert(minimax(ev0, cur0, board, max, dep) == minimax_best(
                    ev0,
                    cur0,
                    board,
                    max,
                    dep,
                    0,
                    initv,
                ));
                if !pruned {
                    assert(iq.len() == 0);
                    if (max && nb < bt) || (!max && nb > a) || a >= bt {
                        // no candidate escaped past the window's far side:
                        // every candidate value is dominated by the best
                        assert forall|k: int| 0 <= k < n_all implies (if max {
                            #[trigger] minimax_child(ev0, cur0, board, max, dep, k) <= nb
                        } else {
                            minimax_child(ev0, cur0, board, max, dep, k) >= nb
                        }) by {
                            assert(!iq.contains(k));
                            assert(ab_seen(ev0, cur0, board, max, dep, a, bt, nb, k));
                        }
                        lemma_minimax_best_bounded(ev0, cur0, board, max, dep, 0, initv, nb);
                    }
                    if (max && nb > a) || (!max && nb < bt) || (max && nb >= bt) || (!max && nb
                        <= a) {
                        // some candidate's true value reaches the best
                        assert(ab_witnessed(ev0, cur0, board, max, dep, a, bt, nb));
                        let wi = choose|i2: int|
                            0 <= i2 < all_moves(board).len() && (max && #[trigger] minimax_child(
                                ev0,
                                cur0,
                                board,
                                max,
                                dep,
                                i2,
                            ) >= nb || !max && minimax_child(ev0, cur0, board, max, dep, i2) <= nb);
                        lemma_minimax_best_covers(ev0, cur0, board, max, dep, 0, initv, wi);
                    }
                } else {
                    // pruned: the best already passed the window's far side,
                    // and some candidate's true value reaches it
                    assert(ab_witnessed(ev0, cur0, board, max, dep, a, bt, nb));
                    let wi = choose|i2: int|
                        0 <= i2 < all_moves(board).len() && (max && #[trigger] minimax_child(
                            ev0,
                            cur0,
                            board,
                            max,
                            dep,
                            i2,
                        ) >= nb || !max && minimax_child(ev0, cur0, board, max, dep, i2) <= nb);
                    lemma_minimax_best_covers(ev0, cur0, board, max, dep, 0, initv, wi);
                }
            }
        }
        best_line.push(best);
        (best.value, best_line)
    }

    /// Search entry point: compute the root static score, take the side to
    /// move as the maximizing side, and run the alpha-beta search with an
    /// unbounded window. Returns the best score and the best line found,
    /// ordered from the deepest ply up to the root move, each with its
    /// score; when the root has any pseudo-legal move and the depth is
    /// positive, the line's last entry is the chosen root move.
    ///
    /// Pruning does not change the returned score: like
    /// [`Self::evaluate_full`], this returns exactly the [`minimax`] value
    /// of the position. The test suite also holds the two searches against
    /// each other on fixed positions and depths.
    pub fn evaluate(&mut self, board: &ChessBoardState, depth: usize) -> (r: (
        i64,
        Vec<(ChessMove, i64)>,
    ))
        requires
            evaluator_wf(*old(self)),
            depth <= 64,
        ensures
            same_weights(*old(self), *final(self)),
            evaluator_wf(*final(self)),
            r.1@.len() <= depth,
            depth > 0 && all_moves(*board).len() > 0 ==> r.1@.len() >= 1 && all_moves(
                *board,
            ).contains(r.1@.last().0),
            r.0 as int == minimax(
                *final(self),
                board_score(*final(self), *board),
                *board,
                board.turn == Color::White,
                depth as nat,
            ),
    {
        self.low_level_eval_called = 0;
        let ghost pre = *self;
        let cur_eval = self.simple_eval(board);
        let max = board.turn == Color::White;
        let (v, line) = self.eval(cur_eval, -SCORE_INF, SCORE_INF, *board, max, depth);
        proof {
            lemma_board_score_weights_only(pre, *self, *board, 64);
            // the root window is unbounded, so the alpha-beta result is the
            // exact minimax value
            assert(-SCORE_INF < v && v < SCORE_INF);
            lemma_minimax_weights_only(pre, *self, cur_eval as int, *board, max, depth as nat);
        }
        let mut out: Vec<(ChessMove, i64)> = Vec::new();
        let mut i: usize = 0;
        while i < line.len()
            invariant
                i <= line@.len(),
                out@.len() == i,
                forall|j: int|
                    0 <= j < i ==> (#[trigger] out@[j]).0 == line@[j].mv && out@[j].1
                        == line@[j].value,
            decreases line@.len() - i,
        {
            out.push((line[i].mv, line[i].value));
            i = i + 1;
        }
        (v, out)
    }

    /// One full-width minimax node: as [`Self::eval`] but without move
    /// ordering and without pruning, visiting every candidate. Used to
    /// check that pruning does not change the returned score.
    #[verifier::loop_isolation(false)]
    #[verifier::rlimit(100)]
    fn eval_full(&mut self, cur_eval: i64, board: ChessBoardState, max: bool, depth: usize) -> (r:
        i64)
        requires
            evaluator_wf(*old(self)),
            depth <= 64,
            -WIN_SCORE + (depth as int) * DIFF_BOUND <= cur_eval as int <= WIN_SCORE - (
            depth as int) * DIFF_BOUND,
        ensures
            same_weights(*old(self), *final(self)),
            evaluator_wf(*final(self)),
            -2 * WIN_SCORE <= r as int <= 2 * WIN_SCORE,
            r as int == minimax(*old(self), cur_eval as int, board, max, depth as nat),
        decreases depth,
    {
        if depth == 0 {
            if self.low_level_eval_called < i64::MAX {
                self.low_level_eval_called = self.low_level_eval_called + 1;
            }
            return cur_eval;
        }
        let all_moves_v = board.get_all_moves();
        proof {
            lemma_all_moves_applicable(board);
        }
        if all_moves_v.len() == 0 {
            return if !max {
                WIN_SCORE
            } else {
                -WIN_SCORE
            };
        }
        let mut best: i64 = if !max {
            SCORE_INF
        } else {
            -SCORE_INF
        };
        let ghost mut updated: bool = false;
        let mut it: usize = 0;
        while it < all_moves_v.len()
            invariant
                it <= all_moves_v@.len(),
                it > 0 ==> updated,
                updated ==> -2 * WIN_SCORE <= best as int <= 2 * WIN_SCORE,
                !updated ==> best as int == (if !max {
                    SCORE_INF as int
                } else {
                    -SCORE_INF
                }),
                minimax_best(
                    *old(self),
                    cur_eval as int,
                    board,
                    max,
                    depth as nat,
                    0,
                    if !max {
                        SCORE_INF as int
                    } else {
                        -SCORE_INF
                    },
                ) == minimax_best(
                    *old(self),
                    cur_eval as int,
                    board,
                    max,
                    depth as nat,
                    it as int,
                    best as int,
                ),
                same_weights(*old(self), *self),
                evaluator_wf(*self),
            decreases all_moves_v@.len() - it,
        {
            let mv = all_moves_v[it];
            proof {
                assert(all_moves(board)[it as int] == mv);
                assert(move_applicable(board, all_moves(board)[it as int]));
            }
            let (new_board, res) = board.get_new_pos_after_move_for_eval(mv);
            let value: i64;
            if res.remove == ChessPiece::KingBlack || res.remove == ChessPiece::KingWhite {
                value = -self.get_piece_value(res.remove);
            } else {
                let diff = self.get_result_eval_diff(&new_board, res, mv);
                let ghost mid = *self;
                value = self.eval_full(cur_eval + diff, new_board, !max, depth - 1);
                proof {
                    lemma_minimax_weights_only(
                        mid,
                        *old(self),
                        cur_eval + diff,
                        new_board,
                        !max,
                        (depth - 1) as nat,
                    );
                }
            }
            proof {
                assert(value as int == minimax_child(
                    *old(self),
                    cur_eval as int,
                    board,
                    max,
                    depth as nat,
                    it as int,
                ));
            }
            if max && value > best || !max && value < best {
                best = value;
                proof {
                    updated = true;
                }
            }
            it = it + 1;
        }
        best
    }

    /// Full-width search entry point: the [`minimax`] value of the
    /// position, which [`Self::evaluate`] computes with pruning.
    pub fn evaluate_full(&mut self, board: &ChessBoardState, depth: usize) -> (r: i64)
        requires
            evaluator_wf(*old(self)),
            depth <= 64,
        ensures
            same_weights(*old(self), *final(self)),
            evaluator_wf(*final(self)),
            r as int == minimax(
                *final(self),
                board_score(*final(self), *board),
                *board,
                board.turn == Color::White,
                depth as nat,
            ),
    {
        self.low_level_eval_called = 0;
        let ghost pre = *self;
        let cur_eval = self.simple_eval(board);
        let max = board.turn == Color::White;
        let r = self.eval_full(cur_eval, *board, max, depth);
        proof {
            lemma_board_score_weights_only(pre, *self, *board, 64);
            lemma_minimax_weights_only(pre, *self, cur_eval as int, *board, max, depth as nat);
        }
        r
    }
}

} // verus!
