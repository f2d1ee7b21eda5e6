//! Bit utilities, the attack oracle, check detection and castling eligibility.
use vstd::prelude::*;
use crate::bits::{bit, member, count_below, count, test_bit, single, lemma_or_zero, lemma_bit_unique, group_bits};
use crate::board::{Board, Turn, PieceType, ally_of, enemy_of, opposite};
use crate::position::{CastleOptions, LegalMove};
use crate::pieces::{
    Bishop, King, Knight, Pawn, Queen, Rook, is_piece, square_of, knight_mask, king_mask,
    bishop_mask, rook_mask, queen_mask, pawn_mask, en_passant_mask, beside, square_index,
};

verus! {

/// Returned by the square finders when the mask is empty.
pub const NOT_FOUND: i8 = -1;

/// Destination mask of a piece of type `pt` on square `s`, for `color` to move.
pub open spec fn piece_moves(pt: PieceType, s: int, color: Turn, white: u64, black: u64) -> u64 {
    let own = ally_of(color, white, black);
    let other = enemy_of(color, white, black);
    match pt {
        PieceType::WhiteKing | PieceType::BlackKing => king_mask(s, own),
        PieceType::WhiteQueen | PieceType::BlackQueen => queen_mask(s, own, other),
        PieceType::WhiteRook | PieceType::BlackRook => rook_mask(s, own, other),
        PieceType::WhiteBishop | PieceType::BlackBishop => bishop_mask(s, own, other),
        PieceType::WhiteKnight | PieceType::BlackKnight => knight_mask(s, own),
        PieceType::WhitePawn | PieceType::BlackPawn => pawn_mask(s, color, white, black),
        _ => 0u64,
    }
}

/// Union of the destination masks of the pieces in `pieces` on squares below `n`.
pub open spec fn pieces_moves_below(
    pieces: u64,
    pt: PieceType,
    color: Turn,
    white: u64,
    black: u64,
    n: int,
) -> u64
    decreases n,
{
    if n <= 0 {
        0u64
    } else {
        pieces_moves_below(pieces, pt, color, white, black, n - 1) | if member(pieces, n - 1) {
            piece_moves(pt, n - 1, color, white, black)
        } else {
            0u64
        }
    }
}

/// Union of the destination masks of every piece in `pieces`.
pub open spec fn pieces_moves(pieces: u64, pt: PieceType, color: Turn, white: u64, black: u64) -> u64 {
    pieces_moves_below(pieces, pt, color, white, black, 64)
}

/// Every square some piece of `color` could move to on `b` (the king by its plain steps).
pub open spec fn attacks(b: Board, color: Turn) -> u64 {
    let w = b.white_occ();
    let k = b.black_occ();
    match color {
        Turn::White => pieces_moves(b.w_pawns, PieceType::WhitePawn, color, w, k) | pieces_moves(
            b.w_rooks,
            PieceType::WhiteRook,
            color,
            w,
            k,
        ) | pieces_moves(b.w_bishops, PieceType::WhiteBishop, color, w, k) | pieces_moves(
            b.w_knights,
            PieceType::WhiteKnight,
            color,
            w,
            k,
        ) | pieces_moves(b.w_queen, PieceType::WhiteQueen, color, w, k) | pieces_moves(
            b.w_king,
            PieceType::WhiteKing,
            color,
            w,
            k,
        ),
        Turn::Black => pieces_moves(b.b_pawns, PieceType::BlackPawn, color, w, k) | pieces_moves(
            b.b_rooks,
            PieceType::BlackRook,
            color,
            w,
            k,
        ) | pieces_moves(b.b_bishops, PieceType::BlackBishop, color, w, k) | pieces_moves(
            b.b_knights,
            PieceType::BlackKnight,
            color,
            w,
            k,
        ) | pieces_moves(b.b_queen, PieceType::BlackQueen, color, w, k) | pieces_moves(
            b.b_king,
            PieceType::BlackKing,
            color,
            w,
            k,
        ),
    }
}

/// `color`'s king stands on a square the other side attacks.
pub open spec fn in_check(b: Board, color: Turn) -> bool {
    attacks(b, opposite(color)) & b.king_of(color) != 0
}

/// King-side castling for `color`: right not spent, king not moved, king and rook on
/// their home squares, the squares between empty, and the king's squares not attacked.
pub open spec fn king_side_castle_allowed(b: Board, color: Turn) -> bool {
    match color {
        Turn::White => !(b.has_w_king_side_castle || b.w_king_has_moved) && b.w_king & 0x8 != 0
            && b.w_rooks & 0x1 != 0 && b.occ() & 0x6 == 0 && attacks(b, Turn::Black) & 0xe == 0,
        Turn::Black => !(b.has_b_king_side_castle || b.b_king_has_moved) && b.b_king
            & 0x800000000000000 != 0 && b.b_rooks & 0x100000000000000 != 0 && b.occ()
            & 0x600000000000000 == 0 && attacks(b, Turn::White) & 0xe00000000000000 == 0,
    }
}

/// Queen-side castling for `color`, under the same conditions as king-side.
pub open spec fn queen_side_castle_allowed(b: Board, color: Turn) -> bool {
    match color {
        Turn::White => !(b.has_w_queen_side_castle || b.w_king_has_moved) && b.w_king & 0x8 != 0
            && b.w_rooks & 0x80 != 0 && b.occ() & 0x70 == 0 && attacks(b, Turn::Black) & 0x38 == 0,
        Turn::Black => !(b.has_b_queen_side_castle || b.b_king_has_moved) && b.b_king
            & 0x800000000000000 != 0 && b.b_rooks & 0x8000000000000000 != 0 && b.occ()
            & 0x7000000000000000 == 0 && attacks(b, Turn::White) & 0x3800000000000000 == 0,
    }
}

/// A lone square makes a one-square mask naming that square.
pub proof fn lemma_single_square(i: int)
    requires
        0 <= i < 64,
    ensures
        is_piece(bit(i)),
        square_of(bit(i)) == i,
{
    assert(is_piece(bit(i)));
    let s = square_of(bit(i));
    lemma_bit_unique(s, i);
}

pub struct Movement {}

impl Movement {
    pub fn new() -> Movement {
        Movement {  }
    }

    /// Index of the lowest square of `piece_bits`, or `NOT_FOUND` when it is empty.
    pub fn get_piece_index(piece_bits: u64) -> (r: i8)
        ensures
            r == NOT_FOUND ==> forall|j: int| !member(piece_bits, j),
            r != NOT_FOUND ==> 0 <= r < 64 && member(piece_bits, r as int) && forall|j: int|
                0 <= j < r ==> !member(piece_bits, j),
            piece_bits == 0 ==> r == NOT_FOUND,
    {
        broadcast use group_bits;

        let mut pos: u64 = 0;
        while pos < 64 && !test_bit(piece_bits, pos)
            invariant
                pos <= 64,
                forall|j: int| 0 <= j < pos ==> !member(piece_bits, j),
            decreases 64 - pos,
        {
            pos = pos + 1;
        }
        if pos == 64 {
            NOT_FOUND
        } else {
            pos as i8
        }
    }

    /// Number of squares in `pieces_bitboard`.
    pub fn pieces_count(pieces_bitboard: u64) -> (r: i8)
        ensures
            r as int == count(pieces_bitboard),
            0 <= r <= 64,
    {
        let mut cnt: i8 = 0;
        let mut i: u64 = 0;
        while i < 64
            invariant
                i <= 64,
                0 <= cnt <= i,
                cnt as int == count_below(pieces_bitboard, i as int),
            decreases 64 - i,
        {
            if test_bit(pieces_bitboard, i) {
                cnt = cnt + 1;
            }
            i = i + 1;
        }
        cnt
    }

    /// Index of the highest square of `bits`, or `NOT_FOUND` when it is empty.
    pub fn msb_pos(bits: u64) -> (r: i8)
        ensures
            r == NOT_FOUND ==> forall|j: int| !member(bits, j),
            r != NOT_FOUND ==> 0 <= r < 64 && member(bits, r as int) && forall|j: int|
                r < j ==> !member(bits, j),
            bits == 0 ==> r == NOT_FOUND,
    {
        broadcast use group_bits;

        let mut pos: u64 = 64;
        while pos > 0 && !test_bit(bits, pos - 1)
            invariant
                pos <= 64,
                forall|j: int| pos <= j ==> !member(bits, j),
            decreases pos,
        {
            pos = pos - 1;
        }
        if pos == 0 {
            NOT_FOUND
        } else {
            (pos - 1) as i8
        }
    }

    /// Index of the lowest square of `bits`, or `NOT_FOUND` when it is empty.
    pub fn lsb_pos(bits: u64) -> (r: i8)
        ensures
            r == NOT_FOUND ==> forall|j: int| !member(bits, j),
            r != NOT_FOUND ==> 0 <= r < 64 && member(bits, r as int) && forall|j: int|
                0 <= j < r ==> !member(bits, j),
            bits == 0 ==> r == NOT_FOUND,
    {
        Movement::get_piece_index(bits)
    }

    /// Squares of the side `color` plays against.
    pub fn enemy_blockers(color: &Turn, white_bitboard: u64, black_bitboard: u64) -> (r: u64)
        ensures
            r == enemy_of(*color, white_bitboard, black_bitboard),
    {
        match color {
            Turn::White => black_bitboard,
            Turn::Black => white_bitboard,
        }
    }

    /// Squares of `color`'s own side.
    pub fn ally_blockers(color: &Turn, white_bitboard: u64, black_bitboard: u64) -> (r: u64)
        ensures
            r == ally_of(*color, white_bitboard, black_bitboard),
    {
        match color {
            Turn::White => white_bitboard,
            Turn::Black => black_bitboard,
        }
    }

    pub fn get_oposite_color(color: Turn) -> (r: Turn)
        ensures
            r == opposite(color),
            r != color,
    {
        match color {
            Turn::Black => Turn::White,
            Turn::White => Turn::Black,
        }
    }

    pub fn get_knigth_moves_bitboard(knight_bits: u64, color: Turn, white_bitboard: u64, black_bitboard: u64) -> (r: u64)
        requires
            is_piece(knight_bits),
        ensures
            r == knight_mask(square_of(knight_bits), ally_of(color, white_bitboard, black_bitboard)),
    {
        Knight::get_moves(knight_bits, color, white_bitboard, black_bitboard)
    }

    pub fn get_bishop_moves_bitboard(bishop_bits: u64, color: Turn, white_bitboard: u64, black_bitboard: u64) -> (r: u64)
        requires
            is_piece(bishop_bits),
        ensures
            r == bishop_mask(
                square_of(bishop_bits),
                ally_of(color, white_bitboard, black_bitboard),
                enemy_of(color, white_bitboard, black_bitboard),
            ),
    {
        Bishop::get_moves(bishop_bits, color, white_bitboard, black_bitboard)
    }

    pub fn get_knigth_moves(knight_bits: u64, color: Turn, board: Board) -> (r: u64)
        requires
            is_piece(knight_bits),
        ensures
            r == piece_moves(PieceType::WhiteKnight, square_of(knight_bits), color, board.white_occ(), board.black_occ()),
    {
        Knight::get_moves(knight_bits, color, board.getWhiteBitboard(), board.getBlackBitboard())
    }

    pub fn get_pawn_moves(pawn_bits: u64, color: Turn, white_bitboard: u64, black_bitboard: u64) -> (r: u64)
        requires
            is_piece(pawn_bits),
        ensures
            r == pawn_mask(square_of(pawn_bits), color, white_bitboard, black_bitboard),
    {
        Pawn::get_moves(pawn_bits, color, white_bitboard, black_bitboard)
    }

    /// Whether `en_passant_pos` holds a square right beside the piece in `piece_bits`, on
    /// the same row.
    pub fn is_enpassant(piece_bits: u64, en_passant_pos: u64) -> (r: bool)
        requires
            is_piece(piece_bits),
        ensures
            r == beside(square_of(piece_bits), en_passant_pos),
    {
        let s = square_index(piece_bits);
        let col: u64 = s % 8;
        (col >= 1 && test_bit(en_passant_pos, s - 1)) || (col <= 6 && test_bit(en_passant_pos, s + 1))
    }

    pub fn get_pawn_moves_enpassant(pawn_bits: u64, enpassant_bits: u64, color: Turn) -> (r: u64)
        requires
            is_piece(pawn_bits),
        ensures
            r == en_passant_mask(square_of(pawn_bits), enpassant_bits, color),
    {
        Pawn::get_moves_enpassant(pawn_bits, enpassant_bits, color)
    }

    pub fn get_rook_moves(rook_bits: u64, color: Turn, board: Board) -> (r: u64)
        requires
            is_piece(rook_bits),
        ensures
            r == piece_moves(PieceType::WhiteRook, square_of(rook_bits), color, board.white_occ(), board.black_occ()),
    {
        Rook::get_moves(rook_bits, color, board.getWhiteBitboard(), board.getBlackBitboard())
    }

    pub fn get_bishop_moves(bishop_bits: u64, color: Turn, board: Board) -> (r: u64)
        requires
            is_piece(bishop_bits),
        ensures
            r == piece_moves(PieceType::WhiteBishop, square_of(bishop_bits), color, board.white_occ(), board.black_occ()),
    {
        Bishop::get_moves(bishop_bits, color, board.getWhiteBitboard(), board.getBlackBitboard())
    }

    pub fn get_queen_moves(queen_bits: u64, color: Turn, board: Board) -> (r: u64)
        requires
            is_piece(queen_bits),
        ensures
            r == piece_moves(PieceType::WhiteQueen, square_of(queen_bits), color, board.white_occ(), board.black_occ()),
    {
        Queen::get_moves(queen_bits, color, board.getWhiteBitboard(), board.getBlackBitboard())
    }

    pub fn get_king_moves(king_bits: u64, color: Turn, board: Board) -> (r: u64)
        requires
            is_piece(king_bits),
        ensures
            r == piece_moves(PieceType::WhiteKing, square_of(king_bits), color, board.white_occ(), board.black_occ()),
    {
        King::get_moves(king_bits, color, board.getWhiteBitboard(), board.getBlackBitboard())
    }

    /// Destination mask of the single piece in `piece_bits`, moving as `piece_type`.
    pub(crate) fn extract_piece_moves_from_bitboard(piece_bits: u64, color: Turn, piece_type: PieceType, board: Board) -> (r: u64)
        requires
            is_piece(piece_bits),
        ensures
            r == piece_moves(piece_type, square_of(piece_bits), color, board.white_occ(), board.black_occ()),
    {
        match piece_type {
            PieceType::WhiteBishop | PieceType::BlackBishop => Movement::get_bishop_moves(piece_bits, color, board),
            PieceType::WhiteKnight | PieceType::BlackKnight => Movement::get_knigth_moves(piece_bits, color, board),
            PieceType::WhiteRook | PieceType::BlackRook => Movement::get_rook_moves(piece_bits, color, board),
            PieceType::WhiteQueen | PieceType::BlackQueen => Movement::get_queen_moves(piece_bits, color, board),
            PieceType::WhitePawn | PieceType::BlackPawn => Movement::get_pawn_moves(
                piece_bits,
                color,
                board.getWhiteBitboard(),
                board.getBlackBitboard(),
            ),
            PieceType::WhiteKing | PieceType::BlackKing => Movement::get_king_moves(piece_bits, color, board),
            _ => 0,
        }
    }

    /// Union of the destination masks of every piece in `pieces_bits`.
    pub fn extract_pieces_moves_from_bitboard(pieces_bits: u64, color: Turn, piece_type: PieceType, board: Board) -> (r: u64)
        ensures
            r == pieces_moves(pieces_bits, piece_type, color, board.white_occ(), board.black_occ()),
    {
        let mut move_bits: u64 = 0;
        let mut i: u64 = 0;
        while i < 64
            invariant
                i <= 64,
                move_bits == pieces_moves_below(pieces_bits, piece_type, color, board.white_occ(), board.black_occ(), i as int),
            decreases 64 - i,
        {
            if test_bit(pieces_bits, i) {
                proof {
                    lemma_single_square(i as int);
                }
                let piece = single(i);
                move_bits = move_bits | Movement::extract_piece_moves_from_bitboard(piece, color, piece_type, board);
            } else {
                proof {
                    lemma_or_zero(move_bits);
                }
            }
            i = i + 1;
        }
        move_bits
    }

    /// Every square some piece of `color` could move to.
    pub fn extract_all_attacks_for_color(board: Board, color: Turn) -> (r: u64)
        ensures
            r == attacks(board, color),
    {
        match color {
            Turn::White => {
                Movement::extract_pieces_moves_from_bitboard(board.w_pawns, color, PieceType::WhitePawn, board)
                    | Movement::extract_pieces_moves_from_bitboard(board.w_rooks, color, PieceType::WhiteRook, board)
                    | Movement::extract_pieces_moves_from_bitboard(board.w_bishops, color, PieceType::WhiteBishop, board)
                    | Movement::extract_pieces_moves_from_bitboard(board.w_knights, color, PieceType::WhiteKnight, board)
                    | Movement::extract_pieces_moves_from_bitboard(board.w_queen, color, PieceType::WhiteQueen, board)
                    | Movement::extract_pieces_moves_from_bitboard(board.w_king, color, PieceType::WhiteKing, board)
            },
            Turn::Black => {
                Movement::extract_pieces_moves_from_bitboard(board.b_pawns, color, PieceType::BlackPawn, board)
                    | Movement::extract_pieces_moves_from_bitboard(board.b_rooks, color, PieceType::BlackRook, board)
                    | Movement::extract_pieces_moves_from_bitboard(board.b_bishops, color, PieceType::BlackBishop, board)
                    | Movement::extract_pieces_moves_from_bitboard(board.b_knights, color, PieceType::BlackKnight, board)
                    | Movement::extract_pieces_moves_from_bitboard(board.b_queen, color, PieceType::BlackQueen, board)
                    | Movement::extract_pieces_moves_from_bitboard(board.b_king, color, PieceType::BlackKing, board)
            },
        }
    }

    /// Squares attacked by `check_for`.
    pub fn get_color_attacks(check_for: Turn, board: Board) -> (r: u64)
        ensures
            r == attacks(board, check_for),
    {
        Movement::extract_all_attacks_for_color(board, check_for)
    }

    /// Whether `check_for`'s king is attacked.
    pub fn check_for_check(check_for: Turn, board: Board) -> (r: bool)
        ensures
            r == in_check(board, check_for),
    {
        let other = Movement::get_oposite_color(check_for);
        let king = match check_for {
            Turn::White => board.w_king,
            Turn::Black => board.b_king,
        };
        Movement::extract_all_attacks_for_color(board, other) & king != 0
    }

    /// Whether the side `check_for` plays against attacks a square of `at_bitboard`.
    pub fn check_for_check_at(check_for: &Turn, board: Board, at_bitboard: u64) -> (r: bool)
        ensures
            r == (attacks(board, opposite(*check_for)) & at_bitboard != 0),
    {
        let other = Movement::get_oposite_color(*check_for);
        Movement::extract_all_attacks_for_color(board, other) & at_bitboard != 0
    }

    /// Whether a piece of `check_for` standing on `at_bitboard` could be taken.
    pub fn check_for_captures_at(check_for: &Turn, board: Board, at_bitboard: u64) -> (r: bool)
        ensures
            r == (attacks(board, opposite(*check_for)) & at_bitboard != 0),
    {
        Movement::check_for_check_at(check_for, board, at_bitboard)
    }

    pub fn can_castle_king_side(board: Board, playing_as: Turn) -> (r: bool)
        ensures
            r == king_side_castle_allowed(board, playing_as),
    {
        match playing_as {
            Turn::White => {
                let attacks = Movement::extract_all_attacks_for_color(board, Turn::Black);
                !(board.has_w_king_side_castle || board.w_king_has_moved) && board.w_king & 0x8 != 0
                    && board.w_rooks & 0x1 != 0 && board.getOcupancy() & 0x6 == 0 && attacks & 0xe == 0
            },
            Turn::Black => {
                let attacks = Movement::extract_all_attacks_for_color(board, Turn::White);
                !(board.has_b_king_side_castle || board.b_king_has_moved) && board.b_king
                    & 0x800000000000000 != 0 && board.b_rooks & 0x100000000000000 != 0
                    && board.getOcupancy() & 0x600000000000000 == 0 && attacks
                    & 0xe00000000000000 == 0
            },
        }
    }

    pub fn can_castle_queen_side(board: Board, playing_as: Turn) -> (r: bool)
        ensures
            r == queen_side_castle_allowed(board, playing_as),
    {
        match playing_as {
            Turn::White => {
                let attacks = Movement::extract_all_attacks_for_color(board, Turn::Black);
                !(board.has_w_queen_side_castle || board.w_king_has_moved) && board.w_king & 0x8 != 0
                    && board.w_rooks & 0x80 != 0 && board.getOcupancy() & 0x70 == 0 && attacks & 0x38 == 0
            },
            Turn::Black => {
                let attacks = Movement::extract_all_attacks_for_color(board, Turn::White);
                !(board.has_b_queen_side_castle || board.b_king_has_moved) && board.b_king
                    & 0x800000000000000 != 0 && board.b_rooks & 0x8000000000000000 != 0
                    && board.getOcupancy() & 0x7000000000000000 == 0 && attacks
                    & 0x3800000000000000 == 0
            },
        }
    }

    /// Whether `movve` is a castling move that `playing_as` may make.
    pub fn can_castle(board: Board, playing_as: Turn, movve: LegalMove) -> (r: bool)
        ensures
            r == match movve.castle {
                CastleOptions::KingSide => king_side_castle_allowed(board, playing_as),
                CastleOptions::QueenSide => queen_side_castle_allowed(board, playing_as),
                CastleOptions::NoCastle => false,
            },
    {
        match movve.castle {
            CastleOptions::KingSide => Movement::can_castle_king_side(board, playing_as),
            CastleOptions::QueenSide => Movement::can_castle_queen_side(board, playing_as),
            CastleOptions::NoCastle => false,
        }
    }
}

} // verus!
