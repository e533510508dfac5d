//! Building a position from Forsyth-style notation: six whitespace-
//! separated fields (piece layout, side to move, castling letters or `-`,
//! en-passant square or `-`, halfmove clock, move number).
//!
//! The grammar is specified by pure functions over the character sequence;
//! parsing either fills every field from the text or reports a descriptive
//! error and leaves the position untouched.

use vstd::prelude::*;

use crate::game::board::{
    pos_code, pos_from_chars, ChessBoardState, ChessPiece, Color, Pos, BOARD_ARRAY_SIZE,
};
use crate::game::moves::{piece_from_letter, piece_from_letter_exec};

verus! {

/// Whether a character separates notation fields.
pub open spec fn is_space(c: char) -> bool {
    c == ' ' || c == '\t' || c == '\n' || c == '\r'
}

/// The first position at or after `i` holding a non-space character, or
/// the end of the text.
pub open spec fn skip_spaces(s: Seq<char>, i: int) -> int
    decreases s.len() - i,
{
    if i >= s.len() || i < 0 || !is_space(s[i]) {
        i
    } else {
        skip_spaces(s, i + 1)
    }
}

/// The first position at or after `i` holding a space character, or the
/// end of the text.
pub open spec fn token_end(s: Seq<char>, i: int) -> int
    decreases s.len() - i,
{
    if i >= s.len() || i < 0 || is_space(s[i]) {
        i
    } else {
        token_end(s, i + 1)
    }
}

/// The bounds (start, end) of the `k`-th whitespace-separated field.
pub open spec fn token_bounds(s: Seq<char>, k: nat) -> (int, int)
    decreases k,
{
    if k == 0 {
        let st = skip_spaces(s, 0);
        (st, token_end(s, st))
    } else {
        let prev = token_bounds(s, (k - 1) as nat);
        let st = skip_spaces(s, prev.1);
        (st, token_end(s, st))
    }
}

/// The `k`-th whitespace-separated field.
pub open spec fn token(s: Seq<char>, k: nat) -> Seq<char> {
    s.subrange(token_bounds(s, k).0, token_bounds(s, k).1)
}

/// Whether the text has at least six fields.
pub open spec fn fen_tokens_ok(s: Seq<char>) -> bool {
    &&& token_bounds(s, 0).0 < s.len()
    &&& token_bounds(s, 1).0 < s.len()
    &&& token_bounds(s, 2).0 < s.len()
    &&& token_bounds(s, 3).0 < s.len()
    &&& token_bounds(s, 4).0 < s.len()
    &&& token_bounds(s, 5).0 < s.len()
}

/// The value of the digits of `t` from position `i` on, folded onto
/// `acc`; no value if a non-digit occurs or the value would pass `max`.
pub open spec fn digits_val(t: Seq<char>, i: int, acc: int, max: int) -> Option<int>
    decreases t.len() - i,
{
    if i >= t.len() || i < 0 {
        Option::Some(acc)
    } else if 48 <= t[i] as u32 <= 57 {
        let v = acc * 10 + (t[i] as u32 - 48);
        if v <= max {
            digits_val(t, i + 1, v, max)
        } else {
            Option::None
        }
    } else {
        Option::None
    }
}

/// The numeric value of a field, bounded by `max`; an empty field has
/// none.
pub open spec fn num_val(t: Seq<char>, max: int) -> Option<int> {
    if t.len() == 0 {
        Option::None
    } else {
        digits_val(t, 0, 0, max)
    }
}

/// The board-array cell a layout position maps to: the layout runs from
/// rank 8 down to rank 1, the array from rank 1 up.
pub open spec fn display_idx(i: int) -> int {
    8 * (7 - i / 8) + i % 8
}

/// Whether the layout field can be applied: every piece letter lands on
/// one of the 64 cells. `/` separates ranks and a digit skips that many
/// cells.
pub open spec fn board_ok(t: Seq<char>, i: int, idx: int) -> bool
    decreases t.len() - i,
{
    if i >= t.len() || i < 0 {
        true
    } else if t[i] == '/' {
        board_ok(t, i + 1, idx)
    } else if 48 <= t[i] as u32 <= 57 {
        board_ok(t, i + 1, idx + (t[i] as u32 - 48))
    } else {
        0 <= idx < 64 && board_ok(t, i + 1, idx + 1)
    }
}

/// The board contents after applying the layout field to `bd`; a
/// placement off the 64 cells is skipped (see [`board_ok`], which callers
/// establish first).
pub open spec fn board_apply(t: Seq<char>, i: int, idx: int, bd: Seq<ChessPiece>) -> Seq<
    ChessPiece,
>
    decreases t.len() - i,
{
    if i >= t.len() || i < 0 {
        bd
    } else if t[i] == '/' {
        board_apply(t, i + 1, idx, bd)
    } else if 48 <= t[i] as u32 <= 57 {
        board_apply(t, i + 1, idx + (t[i] as u32 - 48), bd)
    } else if 0 <= idx < 64 {
        board_apply(t, i + 1, idx + 1, bd.update(display_idx(idx), piece_from_letter(t[i])))
    } else {
        board_apply(t, i + 1, idx + 1, bd)
    }
}

/// The side the color field denotes, if any.
pub open spec fn color_from_char(c: char) -> Option<Color> {
    if c == 'w' || c == 'W' {
        Option::Some(Color::White)
    } else if c == 'b' || c == 'B' {
        Option::Some(Color::Black)
    } else {
        Option::None
    }
}

/// The castling-rights mask the castle field from position `i` on denotes,
/// folded onto `flags`: `K`, `k`, `Q`, `q` set their bits, a `-` yields no
/// rights at all, anything else is an error.
pub open spec fn castle_fold(t: Seq<char>, i: int, flags: u8) -> Option<u8>
    decreases t.len() - i,
{
    if i >= t.len() || i < 0 {
        Option::Some(flags)
    } else if t[i] == 'K' {
        castle_fold(t, i + 1, flags | 2)
    } else if t[i] == 'k' {
        castle_fold(t, i + 1, flags | 8)
    } else if t[i] == 'Q' {
        castle_fold(t, i + 1, flags | 1)
    } else if t[i] == 'q' {
        castle_fold(t, i + 1, flags | 4)
    } else if t[i] == '-' {
        Option::Some(0)
    } else {
        Option::None
    }
}

/// The side to move, from the color field.
pub open spec fn fen_color(s: Seq<char>) -> Option<Color> {
    let t = token(s, 1);
    if t.len() == 1 {
        color_from_char(t[0])
    } else {
        Option::None
    }
}

/// The castling-rights mask, from the castle field.
pub open spec fn fen_castle(s: Seq<char>) -> Option<u8> {
    castle_fold(token(s, 2), 0, 0)
}

/// The en-passant target code, from the en-passant field: `-` means none.
pub open spec fn fen_ep(s: Seq<char>) -> Option<u8> {
    let t = token(s, 3);
    if t.len() == 1 && t[0] == '-' {
        Option::Some(0xFF)
    } else if t.len() == 2 && 97 <= t[0] as u32 <= 104 && 49 <= t[1] as u32 <= 56 {
        Option::Some(pos_code(pos_from_chars(t)))
    } else {
        Option::None
    }
}

/// The halfmove clock, from the fifth field.
pub open spec fn fen_halfmoves(s: Seq<char>) -> Option<int> {
    num_val(token(s, 4), 255)
}

/// The move number, from the sixth field.
pub open spec fn fen_move_num(s: Seq<char>) -> Option<int> {
    num_val(token(s, 5), 0xFFFF)
}

/// Whether the text has six fields, in-range numbers and an applicable
/// layout field.
pub open spec fn fen_format_ok(s: Seq<char>) -> bool {
    &&& fen_tokens_ok(s)
    &&& fen_halfmoves(s) is Some
    &&& fen_move_num(s) is Some
    &&& board_ok(token(s, 0), 0, 0)
}

/// Whether the whole text parses.
pub open spec fn fen_ok(s: Seq<char>) -> bool {
    &&& fen_format_ok(s)
    &&& fen_color(s) is Some
    &&& fen_castle(s) is Some
    &&& fen_ep(s) is Some
}

/// The board contents the layout field leaves, applied over `init`.
pub open spec fn fen_board(s: Seq<char>, init: Seq<ChessPiece>) -> Seq<ChessPiece> {
    board_apply(token(s, 0), 0, 0, init)
}

/// The error text parsing reports: the first failing stage names it.
pub open spec fn fen_error_chars(s: Seq<char>) -> Seq<char> {
    if !fen_format_ok(s) {
        "Wrong format"@
    } else if fen_color(s) is None {
        "Wrong color"@
    } else if fen_castle(s) is None {
        "Wrong casle format"@
    } else {
        "Wrong en passant format"@
    }
}

/// The first position at or after `i` holding a non-space character.
fn skip_spaces_exec(s: &str, i: usize) -> (r: usize)
    requires
        i <= s@.len(),
    ensures
        r == skip_spaces(s@, i as int),
        i <= r <= s@.len(),
    decreases s@.len() - i,
{
    if i == s.unicode_len() {
        return i;
    }
    let c = s.get_char(i);
    if c == ' ' || c == '\t' || c == '\n' || c == '\r' {
        skip_spaces_exec(s, i + 1)
    } else {
        i
    }
}

/// The first position at or after `i` holding a space character.
fn token_end_exec(s: &str, i: usize) -> (r: usize)
    requires
        i <= s@.len(),
    ensures
        r == token_end(s@, i as int),
        i <= r <= s@.len(),
    decreases s@.len() - i,
{
    if i == s.unicode_len() {
        return i;
    }
    let c = s.get_char(i);
    if c == ' ' || c == '\t' || c == '\n' || c == '\r' {
        i
    } else {
        token_end_exec(s, i + 1)
    }
}

/// Parse the digits of `s` between `start` and `endx` into a number of at
/// most `max`.
fn parse_num(s: &str, start: usize, endx: usize, max: u32) -> (r: Option<u32>)
    requires
        start <= endx <= s@.len(),
        max <= 0xFFFF,
    ensures
        r is Some <==> num_val(s@.subrange(start as int, endx as int), max as int) is Some,
        r is Some ==> r->0 as int == num_val(s@.subrange(start as int, endx as int), max as int)->0,
        r is Some ==> r->0 <= max,
{
    let ghost t = s@.subrange(start as int, endx as int);
    if start == endx {
        return Option::None;
    }
    let mut i: usize = start;
    let mut acc: u32 = 0;
    while i < endx
        invariant
            start <= i <= endx <= s@.len(),
            acc <= max,
            max <= 0xFFFF,
            t == s@.subrange(start as int, endx as int),
            t.len() > 0,
            digits_val(t, 0, 0, max as int) == digits_val(t, i - start, acc as int, max as int),
        decreases endx - i,
    {
        let c = s.get_char(i) as u32;
        if c < 48 || c > 57 {
            return Option::None;
        }
        let d = c - 48;
        if acc * 10 + d > max {
            return Option::None;
        }
        acc = acc * 10 + d;
        i = i + 1;
    }
    Option::Some(acc)
}

impl ChessBoardState {
    /// The board-array cell a layout position maps to.
    fn get_display_idx(i: usize) -> (r: usize)
        requires
            i < 64,
        ensures
            r == display_idx(i as int),
            r < 64,
    {
        8 * (7 - i / 8) + i % 8
    }

    /// Apply the layout field between `start` and `endx` onto `bd`, or
    /// report that a piece letter lands off the board (in that case `bd`
    /// may be partially written; callers work on a scratch copy).
    fn parse_board_field(
        s: &str,
        start: usize,
        endx: usize,
        bd: &mut [ChessPiece; BOARD_ARRAY_SIZE],
    ) -> (r: bool)
        requires
            start <= endx <= s@.len(),
        ensures
            r == board_ok(s@.subrange(start as int, endx as int), 0, 0),
            r ==> final(bd)@ == board_apply(
                s@.subrange(start as int, endx as int),
                0,
                0,
                old(bd)@,
            ),
    {
        let ghost t = s@.subrange(start as int, endx as int);
        let ghost bd0 = bd@;
        let mut i: usize = start;
        // The cell counter of the walk; values past 64 are clamped to 65,
        // which the off-board test cannot distinguish.
        let mut idx: usize = 0;
        let ghost mut gidx: int = 0;
        while i < endx
            invariant
                start <= i <= endx <= s@.len(),
                idx <= 65,
                0 <= gidx,
                gidx <= 64 ==> idx as int == gidx,
                gidx > 64 ==> idx == 65,
                t == s@.subrange(start as int, endx as int),
                board_ok(t, 0, 0) == board_ok(t, i - start, gidx),
                board_apply(t, 0, 0, bd0) == board_apply(t, i - start, gidx, bd@),
            decreases endx - i,
        {
            let c = s.get_char(i);
            let cv = c as u32;
            if c == '/' {
            } else if 48 <= cv && cv <= 57 {
                proof {
                    gidx = gidx + (cv - 48);
                }
                if idx + (cv - 48) as usize <= 64 {
                    idx = idx + (cv - 48) as usize;
                } else {
                    idx = 65;
                }
            } else {
                if idx >= 64 {
                    proof {
                        assert(!board_ok(t, i - start, gidx));
                    }
                    return false;
                }
                let di = Self::get_display_idx(idx);
                bd[di] = piece_from_letter_exec(c);
                idx = idx + 1;
                proof {
                    gidx = gidx + 1;
                }
            }
            i = i + 1;
        }
        proof {
            assert(bd@ == board_apply(t, 0, 0, bd0));
        }
        true
    }

    /// Fold the castle field between `start` and `endx` into a rights
    /// mask; see [`castle_fold`].
    fn parse_castle_field(s: &str, start: usize, endx: usize) -> (r: Option<u8>)
        requires
            start <= endx <= s@.len(),
        ensures
            r == castle_fold(s@.subrange(start as int, endx as int), 0, 0),
    {
        let ghost t = s@.subrange(start as int, endx as int);
        let mut i: usize = start;
        let mut flags: u8 = 0;
        while i < endx
            invariant
                start <= i <= endx <= s@.len(),
                t == s@.subrange(start as int, endx as int),
                castle_fold(t, 0, 0) == castle_fold(t, i - start, flags),
            decreases endx - i,
        {
            let c = s.get_char(i);
            if c == 'K' {
                flags = flags | 2;
            } else if c == 'k' {
                flags = flags | 8;
            } else if c == 'Q' {
                flags = flags | 1;
            } else if c == 'q' {
                flags = flags | 4;
            } else if c == '-' {
                return Option::Some(0);
            } else {
                return Option::None;
            }
            i = i + 1;
        }
        Option::Some(flags)
    }

    /// Parse a position from Forsyth-style notation. On success every
    /// field of this position is filled from the text; on a malformed
    /// text a descriptive error is returned and the position is left
    /// untouched.
    pub fn parse_fen(&mut self, fen_str: &str) -> (r: Result<(), String>)
        ensures
            r is Ok <==> fen_ok(fen_str@),
            !fen_ok(fen_str@) ==> *final(self) == *old(self),
            r matches Err(e) ==> e@ == fen_error_chars(fen_str@),
            fen_ok(fen_str@) ==> {
                &&& final(self).board@ == fen_board(fen_str@, old(self).board@)
                &&& final(self).turn == fen_color(fen_str@)->0
                &&& final(self).castle_state_flags == fen_castle(fen_str@)->0
                &&& final(self).en_passant == fen_ep(fen_str@)->0
                &&& final(self).halfmoves_to_draw as int == fen_halfmoves(fen_str@)->0
                &&& final(self).move_num as int == fen_move_num(fen_str@)->0
            },
    {
        let ghost sv = fen_str@;
        let n = fen_str.unicode_len();
        let s0 = skip_spaces_exec(fen_str, 0);
        let e0 = token_end_exec(fen_str, s0);
        let s1 = skip_spaces_exec(fen_str, e0);
        let e1 = token_end_exec(fen_str, s1);
        let s2 = skip_spaces_exec(fen_str, e1);
        let e2 = token_end_exec(fen_str, s2);
        let s3 = skip_spaces_exec(fen_str, e2);
        let e3 = token_end_exec(fen_str, s3);
        let s4 = skip_spaces_exec(fen_str, e3);
        let e4 = token_end_exec(fen_str, s4);
        let s5 = skip_spaces_exec(fen_str, e4);
        let e5 = token_end_exec(fen_str, s5);
        proof {
            assert(token_bounds(sv, 0) == (s0 as int, e0 as int));
            assert(token_bounds(sv, 1) == (s1 as int, e1 as int));
            assert(token_bounds(sv, 2) == (s2 as int, e2 as int));
            assert(token_bounds(sv, 3) == (s3 as int, e3 as int));
            assert(token_bounds(sv, 4) == (s4 as int, e4 as int));
            assert(token_bounds(sv, 5) == (s5 as int, e5 as int));
        }
        if s0 == n || s1 == n || s2 == n || s3 == n || s4 == n || s5 == n {
            return Result::Err(String::from_str("Wrong format"));
        }
        let halfmoves = parse_num(fen_str, s4, e4, 255);
        if halfmoves.is_none() {
            return Result::Err(String::from_str("Wrong format"));
        }
        let move_num = parse_num(fen_str, s5, e5, 0xFFFF);
        if move_num.is_none() {
            return Result::Err(String::from_str("Wrong format"));
        }
        let mut bd = self.board;
        if !Self::parse_board_field(fen_str, s0, e0, &mut bd) {
            return Result::Err(String::from_str("Wrong format"));
        }
        if e1 - s1 != 1 {
            return Result::Err(String::from_str("Wrong color"));
        }
        let cc = fen_str.get_char(s1);
        let turn: Color;
        if cc == 'w' || cc == 'W' {
            turn = Color::White;
        } else if cc == 'b' || cc == 'B' {
            turn = Color::Black;
        } else {
            return Result::Err(String::from_str("Wrong color"));
        }
        let flags_opt = Self::parse_castle_field(fen_str, s2, e2);
        if flags_opt.is_none() {
            return Result::Err(String::from_str("Wrong casle format"));
        }
        let ep: u8;
        if e3 - s3 == 1 && fen_str.get_char(s3) == '-' {
            ep = 0xFF;
        } else if e3 - s3 == 2 {
            let f0 = fen_str.get_char(s3) as u32;
            let f1 = fen_str.get_char(s3 + 1) as u32;
            if 97 <= f0 && f0 <= 104 && 49 <= f1 && f1 <= 56 {
                let p = Pos { x: (f0 - 97) as u8, y: (f1 - 49) as u8 };
                ep = p.get_code();
                proof {
                    assert(token(sv, 3)[0] == sv[s3 as int]);
                    assert(token(sv, 3)[1] == sv[s3 + 1]);
                    assert(p == pos_from_chars(token(sv, 3)));
                }
            } else {
                return Result::Err(String::from_str("Wrong en passant format"));
            }
        } else {
            return Result::Err(String::from_str("Wrong en passant format"));
        }
        self.board = bd;
        self.turn = turn;
        self.castle_state_flags = flags_opt.unwrap();
        self.en_passant = ep;
        self.halfmoves_to_draw = halfmoves.unwrap() as u8;
        self.move_num = move_num.unwrap() as u16;
        Result::Ok(())
    }

    /// Build a position from Forsyth-style notation, starting from the
    /// empty position; malformed text yields no position.
    pub fn new_from_fen(fen_str: &str) -> (r: Option<ChessBoardState>)
        ensures
            r is Some <==> fen_ok(fen_str@),
            r matches Some(b) ==> {
                &&& b.board@ == fen_board(
                    fen_str@,
                    Seq::new(64, |i: int| ChessPiece::Empty),
                )
                &&& b.turn == fen_color(fen_str@)->0
                &&& b.castle_state_flags == fen_castle(fen_str@)->0
                &&& b.en_passant == fen_ep(fen_str@)->0
                &&& b.halfmoves_to_draw as int == fen_halfmoves(fen_str@)->0
                &&& b.move_num as int == fen_move_num(fen_str@)->0
            },
    {
        let mut res = Self::new();
        proof {
            assert(res.board@ =~= Seq::new(64, |i: int| ChessPiece::Empty));
        }
        let r = res.parse_fen(fen_str);
        if r.is_ok() {
            Option::Some(res)
        } else {
            Option::None
        }
    }
}

} // verus!
