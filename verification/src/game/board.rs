//! Primitive value types of the game model: colored pieces, board squares,
//! (from, to) move pairs, and the complete position record
//! [`ChessBoardState`], together with its O(1) accessors.
//!
//! The position record is a pure container: nothing here validates rules.

use vstd::prelude::*;

verus! {

/// Width of the board in squares.
pub const BOARD_SIZE: usize = 8;

/// Number of cells of the rank-major board array.
pub const BOARD_ARRAY_SIZE: usize = BOARD_SIZE * BOARD_SIZE;

/// Packed (from, to) square pair: low byte holds the origin code, high byte
/// the destination code.
pub type MoveCode = u16;

/// Packed square: low nibble holds the file, high nibble the rank.
pub type PosCode = u8;

/// The twelve colored piece kinds, or an empty cell.
#[derive(Clone, Copy, PartialEq, Eq, Structural, Debug)]
pub enum ChessPiece {
    Empty,
    PawnWhite,
    PawnBlack,
    RookWhite,
    RookBlack,
    KnightWhite,
    KnightBlack,
    BishopWhite,
    BishopBlack,
    KingWhite,
    KingBlack,
    QueenWhite,
    QueenBlack,
}

/// One castling right; see [`CastleStateFlag::mask`] for the bit it owns in
/// the packed rights mask.
#[derive(Clone, Copy, PartialEq, Eq, Structural, Debug)]
pub enum CastleStateFlag {
    WhiteLong,
    WhiteShort,
    BlackLong,
    BlackShort,
}

/// A side of the game.
#[derive(Clone, Copy, PartialEq, Eq, Structural, Debug)]
pub enum Color {
    White,
    Black,
}

/// A board square as zero-based file (`x`) and rank (`y`) coordinates.
/// `(0xF, 0xF)` is the reserved sentinel for "no square".
#[derive(Clone, Copy, PartialEq, Eq, Structural, Debug)]
pub struct Pos {
    pub x: u8,
    pub y: u8,
}

/// An origin and destination square pair.
#[derive(Clone, Copy, PartialEq, Eq, Structural, Debug)]
pub struct Move {
    pub from: Pos,
    pub to: Pos,
}

/// The complete game position: piece layout in rank-major order, side to
/// move, castling-rights mask, en-passant target code (`0xFF` when none),
/// halfmove clock and full move number.
#[derive(Clone, Copy, Debug)]
#[verifier::ext_equal]
pub struct ChessBoardState {
    pub turn: Color,
    pub en_passant: PosCode,
    pub castle_state_flags: u8,
    pub board: [ChessPiece; BOARD_ARRAY_SIZE],
    pub move_num: u16,
    pub halfmoves_to_draw: u8,
}

/// The side a piece belongs to; an empty cell has none.
pub open spec fn piece_color(p: ChessPiece) -> Option<Color> {
    match p {
        ChessPiece::Empty => Option::None,
        ChessPiece::PawnWhite => Option::Some(Color::White),
        ChessPiece::PawnBlack => Option::Some(Color::Black),
        ChessPiece::RookWhite => Option::Some(Color::White),
        ChessPiece::RookBlack => Option::Some(Color::Black),
        ChessPiece::KnightWhite => Option::Some(Color::White),
        ChessPiece::KnightBlack => Option::Some(Color::Black),
        ChessPiece::BishopWhite => Option::Some(Color::White),
        ChessPiece::BishopBlack => Option::Some(Color::Black),
        ChessPiece::KingWhite => Option::Some(Color::White),
        ChessPiece::KingBlack => Option::Some(Color::Black),
        ChessPiece::QueenWhite => Option::Some(Color::White),
        ChessPiece::QueenBlack => Option::Some(Color::Black),
    }
}

/// The one-letter notation byte of a piece; `'.'` for an empty cell.
pub open spec fn piece_byte(p: ChessPiece) -> u8 {
    match p {
        ChessPiece::Empty => ('.' as u8),
        ChessPiece::PawnWhite => ('P' as u8),
        ChessPiece::PawnBlack => ('p' as u8),
        ChessPiece::RookWhite => ('R' as u8),
        ChessPiece::RookBlack => ('r' as u8),
        ChessPiece::KnightWhite => ('N' as u8),
        ChessPiece::KnightBlack => ('n' as u8),
        ChessPiece::BishopWhite => ('B' as u8),
        ChessPiece::BishopBlack => ('b' as u8),
        ChessPiece::KingWhite => ('K' as u8),
        ChessPiece::KingBlack => ('k' as u8),
        ChessPiece::QueenWhite => ('Q' as u8),
        ChessPiece::QueenBlack => ('q' as u8),
    }
}

/// The piece denoted by a notation byte; unknown bytes denote an empty cell.
pub open spec fn piece_from_byte(c: u8) -> ChessPiece {
    if c == ('P' as u8) {
        ChessPiece::PawnWhite
    } else if c == ('p' as u8) {
        ChessPiece::PawnBlack
    } else if c == ('R' as u8) {
        ChessPiece::RookWhite
    } else if c == ('r' as u8) {
        ChessPiece::RookBlack
    } else if c == ('N' as u8) {
        ChessPiece::KnightWhite
    } else if c == ('n' as u8) {
        ChessPiece::KnightBlack
    } else if c == ('B' as u8) {
        ChessPiece::BishopWhite
    } else if c == ('b' as u8) {
        ChessPiece::BishopBlack
    } else if c == ('K' as u8) {
        ChessPiece::KingWhite
    } else if c == ('k' as u8) {
        ChessPiece::KingBlack
    } else if c == ('Q' as u8) {
        ChessPiece::QueenWhite
    } else if c == ('q' as u8) {
        ChessPiece::QueenBlack
    } else {
        ChessPiece::Empty
    }
}

/// The side denoted by a color byte, if any.
pub open spec fn color_from_byte(c: u8) -> Option<Color> {
    if c == ('w' as u8) || c == ('W' as u8) {
        Option::Some(Color::White)
    } else if c == ('b' as u8) || c == ('B' as u8) {
        Option::Some(Color::Black)
    } else {
        Option::None
    }
}

/// The bit a castling right owns in the packed rights mask.
pub open spec fn castle_mask(f: CastleStateFlag) -> u8 {
    match f {
        CastleStateFlag::WhiteLong => 1,
        CastleStateFlag::WhiteShort => 2,
        CastleStateFlag::BlackLong => 4,
        CastleStateFlag::BlackShort => 8,
    }
}

/// Packed square code: low nibble the file, high nibble the rank.
pub open spec fn pos_code(p: Pos) -> u8 {
    (p.x & 0x0F) | ((p.y << 4) & 0xF0)
}

/// Inverse of [`pos_code`]: unpack a square code into coordinates.
pub open spec fn pos_from_code(code: u8) -> Pos {
    Pos { x: code & 0x0F, y: (code & 0xF0) >> 4 }
}

/// Whether integer coordinates name a cell of the 8x8 board.
pub open spec fn on_board(x: int, y: int) -> bool {
    0 <= x < 8 && 0 <= y < 8
}

/// Whether a square names a cell of the 8x8 board.
pub open spec fn pos_on_board(p: Pos) -> bool {
    on_board(p.x as int, p.y as int)
}

/// Rank-major index of a square in the board array.
pub open spec fn pos_idx(p: Pos) -> int {
    p.y as int * 8 + p.x as int
}

/// The square denoted by a two-character text form such as `"e2"`; a missing
/// character denotes coordinate zero.
pub open spec fn pos_from_chars(s: Seq<char>) -> Pos {
    Pos {
        x: if s.len() >= 1 {
            (s[0] as u32 - 97) as u8
        } else {
            0
        },
        y: if s.len() >= 2 {
            (s[1] as u32 - 49) as u8
        } else {
            0
        },
    }
}

/// The file letter of an on-board x coordinate.
pub open spec fn file_char(x: u8) -> char {
    if x == 0 {
        'a'
    } else if x == 1 {
        'b'
    } else if x == 2 {
        'c'
    } else if x == 3 {
        'd'
    } else if x == 4 {
        'e'
    } else if x == 5 {
        'f'
    } else if x == 6 {
        'g'
    } else {
        'h'
    }
}

/// The rank digit of an on-board y coordinate.
pub open spec fn rank_char(y: u8) -> char {
    if y == 0 {
        '1'
    } else if y == 1 {
        '2'
    } else if y == 2 {
        '3'
    } else if y == 3 {
        '4'
    } else if y == 4 {
        '5'
    } else if y == 5 {
        '6'
    } else if y == 6 {
        '7'
    } else {
        '8'
    }
}

/// Text form of a square: its file letter and rank digit, or `"-"` for the
/// "no square" sentinel.
pub open spec fn pos_chars(p: Pos) -> Seq<char> {
    if p.x == 0x0F && p.y == 0x0F {
        seq!['-']
    } else {
        seq![file_char(p.x), rank_char(p.y)]
    }
}

/// Text form of a (from, to) pair: the two squares joined by `'-'`.
pub open spec fn move_chars(m: Move) -> Seq<char> {
    pos_chars(m.from) + seq!['-'] + pos_chars(m.to)
}

/// Text form of a castling-rights mask, in the fixed letter order `KkQq`;
/// `"-"` when no right is set.
pub open spec fn castle_chars(flags: u8) -> Seq<char> {
    if flags == 0 {
        seq!['-']
    } else {
        (if flags & 2 != 0 {
            seq!['K']
        } else {
            Seq::<char>::empty()
        }) + (if flags & 8 != 0 {
            seq!['k']
        } else {
            Seq::<char>::empty()
        }) + (if flags & 1 != 0 {
            seq!['Q']
        } else {
            Seq::<char>::empty()
        }) + (if flags & 4 != 0 {
            seq!['q']
        } else {
            Seq::<char>::empty()
        })
    }
}

/// The piece on a cell, as an option on the cell being on the board.
pub open spec fn piece_at(b: ChessBoardState, pos: Pos) -> Option<ChessPiece> {
    if pos_on_board(pos) {
        Option::Some(b.board@[pos_idx(pos)])
    } else {
        Option::None
    }
}

impl Pos {
    /// Parse a square from text such as `"e2"`. A missing character yields
    /// coordinate zero, so the empty string parses as a1.
    pub fn new_from_str(pos_str: &str) -> (r: Pos)
        requires
            pos_str@.len() >= 1 ==> 97 <= pos_str@[0] as u32 <= 104,
            pos_str@.len() >= 2 ==> 49 <= pos_str@[1] as u32 <= 56,
        ensures
            r == pos_from_chars(pos_str@),
    {
        let n = pos_str.unicode_len();
        let x: u8 = if n >= 1 {
            (pos_str.get_char(0) as u32 - 97) as u8
        } else {
            0
        };
        let y: u8 = if n >= 2 {
            (pos_str.get_char(1) as u32 - 49) as u8
        } else {
            0
        };
        Pos { x, y }
    }

    /// Build a square from signed coordinates already known to be on the
    /// board.
    pub fn new_from_coords(x: i8, y: i8) -> (r: Pos)
        requires
            on_board(x as int, y as int),
        ensures
            r == (Pos { x: x as u8, y: y as u8 }),
    {
        Pos { x: x as u8, y: y as u8 }
    }

    /// Pack the square into its one-byte code.
    pub fn get_code(&self) -> (r: PosCode)
        ensures
            r == pos_code(*self),
    {
        (self.x & 0x0F) | ((self.y << 4u8) & 0xF0)
    }

    /// Render the square as text; the "no square" sentinel renders as `"-"`.
    pub fn get_str(&self) -> (r: String)
        requires
            pos_on_board(*self) || (self.x == 0x0F && self.y == 0x0F),
        ensures
            r@ == pos_chars(*self),
    {
        if self.x == 0x0F && self.y == 0x0F {
            let r = String::from_str("-");
            proof {
                reveal_strlit("-");
                assert(r@ =~= pos_chars(*self));
            }
            return r;
        }
        let r = String::from_str(file_str(self.x)).concat(rank_str(self.y));
        proof {
            assert(r@ =~= pos_chars(*self));
        }
        r
    }

    /// Unpack a square code produced by [`Pos::get_code`].
    pub fn new_from_code(code: PosCode) -> (r: Pos)
        ensures
            r == pos_from_code(code),
    {
        Pos { x: code & 0x0F, y: (code & 0xF0) >> 4u8 }
    }
}

/// Square-code packing is inverted exactly by unpacking: the codes are a
/// bijection over the 64 on-board squares.
pub proof fn lemma_pos_code_roundtrip(p: Pos)
    requires
        pos_on_board(p),
    ensures
        pos_from_code(pos_code(p)) == p,
{
    let x = p.x;
    let y = p.y;
    assert(((x & 0x0F) | ((y << 4) & 0xF0)) & 0x0F == x && (((x & 0x0F) | ((y << 4) & 0xF0))
        & 0xF0) >> 4 == y) by (bit_vector)
        requires
            x < 8 && y < 8,
    ;
}

/// The file letter of an on-board x coordinate, as a one-character string.
fn file_str(x: u8) -> (r: &'static str)
    requires
        x < 8,
    ensures
        r@ =~= seq![file_char(x)],
{
    proof {
        reveal_strlit("a");
        reveal_strlit("b");
        reveal_strlit("c");
        reveal_strlit("d");
        reveal_strlit("e");
        reveal_strlit("f");
        reveal_strlit("g");
        reveal_strlit("h");
    }
    match x {
        0 => "a",
        1 => "b",
        2 => "c",
        3 => "d",
        4 => "e",
        5 => "f",
        6 => "g",
        _ => "h",
    }
}

/// The rank digit of an on-board y coordinate, as a one-character string.
fn rank_str(y: u8) -> (r: &'static str)
    requires
        y < 8,
    ensures
        r@ =~= seq![rank_char(y)],
{
    proof {
        reveal_strlit("1");
        reveal_strlit("2");
        reveal_strlit("3");
        reveal_strlit("4");
        reveal_strlit("5");
        reveal_strlit("6");
        reveal_strlit("7");
        reveal_strlit("8");
    }
    match y {
        0 => "1",
        1 => "2",
        2 => "3",
        3 => "4",
        4 => "5",
        5 => "6",
        6 => "7",
        _ => "8",
    }
}

impl Move {
    /// Parse a move from text such as `"e2-e4"`: characters 0-1 name the
    /// origin and characters 3-4 the destination.
    pub fn new_from_str(move_str: &str) -> (r: Move)
        requires
            move_str@.len() >= 5,
            97 <= move_str@[0] as u32 <= 104,
            49 <= move_str@[1] as u32 <= 56,
            97 <= move_str@[3] as u32 <= 104,
            49 <= move_str@[4] as u32 <= 56,
        ensures
            r.from == pos_from_chars(move_str@.subrange(0, 2)),
            r.to == pos_from_chars(move_str@.subrange(3, 5)),
    {
        Move {
            from: Pos::new_from_str(move_str.substring_char(0, 2)),
            to: Pos::new_from_str(move_str.substring_char(3, 5)),
        }
    }

    /// Render the move as origin and destination joined by `'-'`.
    pub fn get_str(&self) -> (r: String)
        requires
            pos_on_board(self.from) || (self.from.x == 0x0F && self.from.y == 0x0F),
            pos_on_board(self.to) || (self.to.x == 0x0F && self.to.y == 0x0F),
        ensures
            r@ == move_chars(*self),
    {
        let r = self.from.get_str().concat("-").concat(self.to.get_str().as_str());
        proof {
            reveal_strlit("-");
            assert(r@ =~= move_chars(*self));
        }
        r
    }

    /// Pack the move into its two-byte code: low byte the origin, high byte
    /// the destination.
    pub fn get_code(&self) -> (r: MoveCode)
        ensures
            r == pos_code(self.from) as u16 | ((pos_code(self.to) as u16) << 8u16),
    {
        self.from.get_code() as u16 | ((self.to.get_code() as u16) << 8u16)
    }
}

impl ChessPiece {
    /// The one-letter notation byte of the piece; `'.'` for an empty cell.
    pub fn get_piece_u8(&self) -> (r: u8)
        ensures
            r == piece_byte(*self),
    {
        match *self {
            ChessPiece::Empty => ('.' as u8),
            ChessPiece::PawnWhite => ('P' as u8),
            ChessPiece::PawnBlack => ('p' as u8),
            ChessPiece::RookWhite => ('R' as u8),
            ChessPiece::RookBlack => ('r' as u8),
            ChessPiece::KnightWhite => ('N' as u8),
            ChessPiece::KnightBlack => ('n' as u8),
            ChessPiece::BishopWhite => ('B' as u8),
            ChessPiece::BishopBlack => ('b' as u8),
            ChessPiece::KingWhite => ('K' as u8),
            ChessPiece::KingBlack => ('k' as u8),
            ChessPiece::QueenWhite => ('Q' as u8),
            ChessPiece::QueenBlack => ('q' as u8),
        }
    }

    /// The piece denoted by a notation byte; unknown bytes denote an empty
    /// cell.
    pub fn new_from_u8(c: u8) -> (r: ChessPiece)
        ensures
            r == piece_from_byte(c),
    {
        if c == 'P' as u8 {
            ChessPiece::PawnWhite
        } else if c == 'p' as u8 {
            ChessPiece::PawnBlack
        } else if c == 'R' as u8 {
            ChessPiece::RookWhite
        } else if c == 'r' as u8 {
            ChessPiece::RookBlack
        } else if c == 'N' as u8 {
            ChessPiece::KnightWhite
        } else if c == 'n' as u8 {
            ChessPiece::KnightBlack
        } else if c == 'B' as u8 {
            ChessPiece::BishopWhite
        } else if c == 'b' as u8 {
            ChessPiece::BishopBlack
        } else if c == 'K' as u8 {
            ChessPiece::KingWhite
        } else if c == 'k' as u8 {
            ChessPiece::KingBlack
        } else if c == 'Q' as u8 {
            ChessPiece::QueenWhite
        } else if c == 'q' as u8 {
            ChessPiece::QueenBlack
        } else {
            ChessPiece::Empty
        }
    }

    /// The side the piece belongs to; an empty cell has none.
    pub fn get_color(&self) -> (r: Option<Color>)
        ensures
            r == piece_color(*self),
    {
        match *self {
            ChessPiece::Empty => Option::None,
            ChessPiece::PawnWhite => Option::Some(Color::White),
            ChessPiece::PawnBlack => Option::Some(Color::Black),
            ChessPiece::RookWhite => Option::Some(Color::White),
            ChessPiece::RookBlack => Option::Some(Color::Black),
            ChessPiece::KnightWhite => Option::Some(Color::White),
            ChessPiece::KnightBlack => Option::Some(Color::Black),
            ChessPiece::BishopWhite => Option::Some(Color::White),
            ChessPiece::BishopBlack => Option::Some(Color::Black),
            ChessPiece::KingWhite => Option::Some(Color::White),
            ChessPiece::KingBlack => Option::Some(Color::Black),
            ChessPiece::QueenWhite => Option::Some(Color::White),
            ChessPiece::QueenBlack => Option::Some(Color::Black),
        }
    }
}

impl Color {
    /// The English name of the side.
    pub fn get_name(&self) -> (r: &'static str)
        ensures
            *self == Color::White ==> r@ == "White"@,
            *self == Color::Black ==> r@ == "Black"@,
    {
        if *self == Color::White {
            "White"
        } else {
            "Black"
        }
    }

    /// The side denoted by a color byte, if any.
    pub fn new_from_u8(c: u8) -> (r: Option<Color>)
        ensures
            r == color_from_byte(c),
    {
        if c == 'w' as u8 || c == 'W' as u8 {
            Option::Some(Color::White)
        } else if c == 'b' as u8 || c == 'B' as u8 {
            Option::Some(Color::Black)
        } else {
            Option::None
        }
    }
}

impl CastleStateFlag {
    /// The bit this castling right owns in the packed rights mask.
    pub fn mask(&self) -> (r: u8)
        ensures
            r == castle_mask(*self),
    {
        match *self {
            CastleStateFlag::WhiteLong => 1,
            CastleStateFlag::WhiteShort => 2,
            CastleStateFlag::BlackLong => 4,
            CastleStateFlag::BlackShort => 8,
        }
    }
}

impl ChessBoardState {
    /// Render the castling-rights mask in the fixed letter order `KkQq`, or
    /// `"-"` when no right is set.
    pub fn get_castle_state_str(&self) -> (r: String)
        ensures
            r@ == castle_chars(self.castle_state_flags),
    {
        proof {
            reveal_strlit("-");
            reveal_strlit("K");
            reveal_strlit("k");
            reveal_strlit("Q");
            reveal_strlit("q");
        }
        if self.castle_state_flags == 0 {
            let r = String::from_str("-");
            proof {
                assert(r@ =~= castle_chars(self.castle_state_flags));
            }
            return r;
        }
        let mut r = String::new();
        if self.castle_state_flags & 2 != 0 {
            r.append("K");
        }
        if self.castle_state_flags & 8 != 0 {
            r.append("k");
        }
        if self.castle_state_flags & 1 != 0 {
            r.append("Q");
        }
        if self.castle_state_flags & 4 != 0 {
            r.append("q");
        }
        proof {
            assert(r@ =~= castle_chars(self.castle_state_flags));
        }
        r
    }

    /// Write a piece to an on-board cell; no bounds check beyond the
    /// precondition, and no rule validation.
    pub fn set_piece_unsafe(&mut self, pos: Pos, piece: ChessPiece)
        requires
            pos_on_board(pos),
        ensures
            final(self).board@ == old(self).board@.update(pos_idx(pos), piece),
            final(self).turn == old(self).turn,
            final(self).en_passant == old(self).en_passant,
            final(self).castle_state_flags == old(self).castle_state_flags,
            final(self).move_num == old(self).move_num,
            final(self).halfmoves_to_draw == old(self).halfmoves_to_draw,
    {
        let i = Self::get_pos_idx(pos);
        self.board[i] = piece;
    }

    /// Read the piece on an on-board cell.
    pub fn get_piece_unsafe(&self, pos: Pos) -> (r: ChessPiece)
        requires
            pos_on_board(pos),
        ensures
            r == self.board@[pos_idx(pos)],
    {
        self.board[Self::get_pos_idx(pos)]
    }

    /// Read the piece on an on-board cell given unsigned coordinates.
    pub fn get_piece_coords_unsafe(&self, x: usize, y: usize) -> (r: ChessPiece)
        requires
            on_board(x as int, y as int),
        ensures
            r == self.board@[y * 8 + x],
    {
        self.board[y * BOARD_SIZE + x]
    }

    /// Read the piece on an on-board cell given signed coordinates.
    pub fn get_piece_coords_i8_unsafe(&self, x: i8, y: i8) -> (r: ChessPiece)
        requires
            on_board(x as int, y as int),
        ensures
            r == self.board@[y as int * 8 + x as int],
    {
        self.board[(y as usize) * BOARD_SIZE + x as usize]
    }

    /// Read the piece on a square, with a bounds check.
    pub fn get_piece(&self, pos: Pos) -> (r: Option<ChessPiece>)
        ensures
            r == piece_at(*self, pos),
    {
        if pos.x >= BOARD_SIZE as u8 || pos.y >= BOARD_SIZE as u8 {
            return Option::None;
        }
        Option::Some(self.board[Self::get_pos_idx(pos)])
    }

    /// Rank-major index of a square in the board array.
    pub fn get_pos_idx(pos: Pos) -> (r: usize)
        ensures
            r == pos.y as int * 8 + pos.x as int,
    {
        (pos.y as usize) * BOARD_SIZE + pos.x as usize
    }

    /// Whether signed coordinates name a cell of the board.
    pub fn coords_in_bounds(x: i8, y: i8) -> (r: bool)
        ensures
            r == on_board(x as int, y as int),
    {
        x < BOARD_SIZE as i8 && y < BOARD_SIZE as i8 && x >= 0 && y >= 0
    }

    /// Whether a square names a cell of the board.
    pub fn pos_in_bounds(pos: Pos) -> (r: bool)
        ensures
            r == pos_on_board(pos),
    {
        pos.x < BOARD_SIZE as u8 && pos.y < BOARD_SIZE as u8
    }

    /// The empty position: no pieces, white to move, no castling rights, no
    /// en-passant target, move number 1, halfmove clock 0.
    pub fn new() -> (r: ChessBoardState)
        ensures
            r.turn == Color::White,
            r.en_passant == 0xFF,
            r.castle_state_flags == 0,
            r.move_num == 1,
            r.halfmoves_to_draw == 0,
            forall|i: int| 0 <= i < 64 ==> r.board@[i] == ChessPiece::Empty,
    {
        ChessBoardState {
            turn: Color::White,
            en_passant: 0xFF,
            castle_state_flags: 0x00,
            board: [ChessPiece::Empty; BOARD_ARRAY_SIZE],
            move_num: 1,
            halfmoves_to_draw: 0,
        }
    }
}

} // verus!
