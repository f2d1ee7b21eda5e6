//! The position: twelve occupancy masks, castling and en-passant state, and the side to move.
use vstd::prelude::*;
use crate::bits::{group_bits, member};

verus! {

/// The two sides.
#[derive(PartialEq, Eq, Structural, Clone, Copy, Debug)]
pub enum Turn {
    White,
    Black,
}

/// A piece kind together with its colour; the two en-passant variants name a pawn
/// that captures en passant.
#[derive(PartialEq, Eq, Structural, Clone, Copy, Debug)]
pub enum PieceType {
    WhiteKing,
    WhiteQueen,
    WhiteRook,
    WhiteBishop,
    WhiteKnight,
    WhitePawn,
    BlackKing,
    BlackQueen,
    BlackRook,
    BlackBishop,
    BlackKnight,
    BlackPawn,
    WhitePawnEnPassant,
    BlackPawnEnPassant,
}

/// A list of square indices.
#[derive(Clone, Debug)]
pub struct PieceVec {
    pub vec: Vec<i8>,
}

/// A chess position. Square `i` is row `i / 8`, column `i % 8`; row 0 is White's first
/// rank and column 0 is the h-file.
///
/// The `has_*_castle` flags are set once the matching castling right is spent; the
/// `*_en_passant` masks hold the square of a pawn that has just stepped two squares;
/// `white_attacks` and `black_attacks` keep the squares each side attacked when the legal
/// moves were last listed; the move counters are informational.
#[derive(Clone, Copy, Debug)]
pub struct Board {
    pub w_rooks: u64,
    pub w_knights: u64,
    pub w_bishops: u64,
    pub w_queen: u64,
    pub w_king: u64,
    pub w_pawns: u64,
    pub b_rooks: u64,
    pub b_knights: u64,
    pub b_bishops: u64,
    pub b_queen: u64,
    pub b_king: u64,
    pub b_pawns: u64,
    pub has_w_king_side_castle: bool,
    pub has_w_queen_side_castle: bool,
    pub w_king_has_moved: bool,
    pub has_b_king_side_castle: bool,
    pub has_b_queen_side_castle: bool,
    pub b_king_has_moved: bool,
    pub w_en_passant: u64,
    pub b_en_passant: u64,
    pub full_move_count: i8,
    pub half_move_count: i8,
    pub black_attacks: u64,
    pub white_attacks: u64,
    pub turn: Turn,
}

pub open spec fn opposite(t: Turn) -> Turn {
    match t {
        Turn::White => Turn::Black,
        Turn::Black => Turn::White,
    }
}

/// Squares held by `color`'s own pieces, given both sides' occupancy.
pub open spec fn ally_of(color: Turn, white: u64, black: u64) -> u64 {
    match color {
        Turn::White => white,
        Turn::Black => black,
    }
}

/// Squares held by the pieces `color` plays against.
pub open spec fn enemy_of(color: Turn, white: u64, black: u64) -> u64 {
    match color {
        Turn::White => black,
        Turn::Black => white,
    }
}

/// No square is held by two of the masks `m`.
pub open spec fn masks_disjoint(m: Seq<u64>) -> bool {
    forall|i: int, j: int, s: int|
        0 <= i < m.len() && 0 <= j < m.len() && i != j ==> !(#[trigger] member(m[i], s)
            && #[trigger] member(m[j], s))
}

impl Board {
    pub open spec fn white_occ(&self) -> u64 {
        self.w_rooks | self.w_knights | self.w_bishops | self.w_queen | self.w_king | self.w_pawns
    }

    pub open spec fn black_occ(&self) -> u64 {
        self.b_rooks | self.b_knights | self.b_bishops | self.b_queen | self.b_king | self.b_pawns
    }

    pub open spec fn occ(&self) -> u64 {
        self.white_occ() | self.black_occ()
    }

    pub open spec fn side_occ(&self, color: Turn) -> u64 {
        ally_of(color, self.white_occ(), self.black_occ())
    }

    /// The twelve masks in a fixed order: White's rooks, knights, bishops, queens,
    /// king, pawns, then Black's in the same order.
    pub open spec fn masks(&self) -> Seq<u64> {
        seq![
            self.w_rooks, self.w_knights, self.w_bishops, self.w_queen, self.w_king, self.w_pawns,
            self.b_rooks, self.b_knights, self.b_bishops, self.b_queen, self.b_king, self.b_pawns,
        ]
    }

    /// No square is held by two of the twelve masks.
    pub open spec fn disjoint(&self) -> bool {
        masks_disjoint(self.masks())
    }

    pub open spec fn king_of(&self, color: Turn) -> u64 {
        match color {
            Turn::White => self.w_king,
            Turn::Black => self.b_king,
        }
    }

    /// A board with no pieces, no castling right spent, White to move.
    pub fn new_empty() -> (b: Board)
        ensures
            b.masks() == Seq::new(12, |i: int| 0u64),
            b.disjoint(),
            !b.has_w_king_side_castle && !b.has_w_queen_side_castle && !b.w_king_has_moved,
            !b.has_b_king_side_castle && !b.has_b_queen_side_castle && !b.b_king_has_moved,
            b.w_en_passant == 0 && b.b_en_passant == 0,
            b.full_move_count == 0 && b.half_move_count == 0,
            b.white_attacks == 0 && b.black_attacks == 0,
            b.turn == Turn::White,
    {
        let b = Board {
            w_rooks: 0,
            w_knights: 0,
            w_bishops: 0,
            w_queen: 0,
            w_king: 0,
            w_pawns: 0,
            b_rooks: 0,
            b_knights: 0,
            b_bishops: 0,
            b_queen: 0,
            b_king: 0,
            b_pawns: 0,
            has_w_king_side_castle: false,
            has_w_queen_side_castle: false,
            w_king_has_moved: false,
            has_b_king_side_castle: false,
            has_b_queen_side_castle: false,
            b_king_has_moved: false,
            w_en_passant: 0,
            b_en_passant: 0,
            full_move_count: 0,
            half_move_count: 0,
            black_attacks: 0,
            white_attacks: 0,
            turn: Turn::White,
        };
        assert(b.masks() =~= Seq::new(12, |i: int| 0u64));
        proof {
            broadcast use group_bits;

        }
        b
    }

    /// A board with the given twelve masks and otherwise the state of `new_empty`.
    pub fn new_from_values(
        w_rooks: u64,
        w_knights: u64,
        w_bishops: u64,
        w_queen: u64,
        w_king: u64,
        w_pawns: u64,
        b_rooks: u64,
        b_knights: u64,
        b_bishops: u64,
        b_queen: u64,
        b_king: u64,
        b_pawns: u64,
    ) -> (b: Board)
        ensures
            b.masks() == seq![
                w_rooks, w_knights, w_bishops, w_queen, w_king, w_pawns,
                b_rooks, b_knights, b_bishops, b_queen, b_king, b_pawns,
            ],
            !b.has_w_king_side_castle && !b.has_w_queen_side_castle && !b.w_king_has_moved,
            !b.has_b_king_side_castle && !b.has_b_queen_side_castle && !b.b_king_has_moved,
            b.w_rooks == w_rooks && b.w_knights == w_knights && b.w_bishops == w_bishops,
            b.w_queen == w_queen && b.w_king == w_king && b.w_pawns == w_pawns,
            b.b_rooks == b_rooks && b.b_knights == b_knights && b.b_bishops == b_bishops,
            b.b_queen == b_queen && b.b_king == b_king && b.b_pawns == b_pawns,
            b.w_en_passant == 0 && b.b_en_passant == 0,
            b.full_move_count == 0 && b.half_move_count == 0,
            b.white_attacks == 0 && b.black_attacks == 0,
            b.turn == Turn::White,
    {
        let mut b = Board::new_empty();
        b.w_rooks = w_rooks;
        b.w_knights = w_knights;
        b.w_bishops = w_bishops;
        b.w_queen = w_queen;
        b.w_king = w_king;
        b.w_pawns = w_pawns;
        b.b_rooks = b_rooks;
        b.b_knights = b_knights;
        b.b_bishops = b_bishops;
        b.b_queen = b_queen;
        b.b_king = b_king;
        b.b_pawns = b_pawns;
        b
    }

    pub fn get_turn(&self) -> (t: Turn)
        ensures
            t == self.turn,
    {
        self.turn
    }

    pub fn set_turn(&mut self, turn: Turn)
        ensures
            *final(self) == (Board { turn, ..*old(self) }),
    {
        self.turn = turn;
    }

    /// Squares held by White.
    #[allow(non_snake_case)]
    pub fn getWhiteBitboard(&self) -> (r: u64)
        ensures
            r == self.white_occ(),
    {
        self.w_rooks | self.w_knights | self.w_bishops | self.w_queen | self.w_king | self.w_pawns
    }

    /// Squares held by Black.
    #[allow(non_snake_case)]
    pub fn getBlackBitboard(&self) -> (r: u64)
        ensures
            r == self.black_occ(),
    {
        self.b_rooks | self.b_knights | self.b_bishops | self.b_queen | self.b_king | self.b_pawns
    }

    /// Squares held by either side.
    #[allow(non_snake_case)]
    pub fn getOcupancy(&self) -> (r: u64)
        ensures
            r == self.occ(),
    {
        self.getWhiteBitboard() | self.getBlackBitboard()
    }

    /// Empty squares.
    #[allow(non_snake_case)]
    pub fn getNotOcupancy(&self) -> (r: u64)
        ensures
            r == !self.occ(),
            forall|i: int| 0 <= i < 64 ==> (member(r, i) <==> !member(self.occ(), i)),
    {
        broadcast use group_bits;

        !self.getOcupancy()
    }
}

} // verus!
