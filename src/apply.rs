//! Applying a move to a board.
use vstd::prelude::*;
use crate::bits::{bit, member, single};
use crate::board::{Board, Turn, opposite};
use crate::position::{CastleOptions, LegalMove, Position};
use crate::pieces::{on_board, square, forward};

verus! {

/// The one-square mask of `p`, or the empty mask when `p` is off the board.
pub open spec fn pos_bit(p: Position) -> u64 {
    if on_board(p.row as int, p.colum as int) {
        bit(square(p.row as int, p.colum as int))
    } else {
        0u64
    }
}

/// Mask number `i` of `b`, in the order of `Board::masks`.
pub open spec fn mask_at(b: Board, i: int) -> u64 {
    b.masks()[i]
}

/// `b` with mask number `i` replaced by `v`.
pub open spec fn with_mask(b: Board, i: int, v: u64) -> Board {
    if i == 0 {
        Board { w_rooks: v, ..b }
    } else if i == 1 {
        Board { w_knights: v, ..b }
    } else if i == 2 {
        Board { w_bishops: v, ..b }
    } else if i == 3 {
        Board { w_queen: v, ..b }
    } else if i == 4 {
        Board { w_king: v, ..b }
    } else if i == 5 {
        Board { w_pawns: v, ..b }
    } else if i == 6 {
        Board { b_rooks: v, ..b }
    } else if i == 7 {
        Board { b_knights: v, ..b }
    } else if i == 8 {
        Board { b_bishops: v, ..b }
    } else if i == 9 {
        Board { b_queen: v, ..b }
    } else if i == 10 {
        Board { b_king: v, ..b }
    } else {
        Board { b_pawns: v, ..b }
    }
}

/// Replacing mask `k` by a mask whose squares were either in mask `k` already or empty
/// keeps the masks disjoint.
pub proof fn lemma_replace_keeps_disjoint(b: Board, k: int, v: u64)
    requires
        b.disjoint(),
        0 <= k < 12,
        forall|s: int| #[trigger] member(v, s) ==> member(mask_at(b, k), s) || !member(b.occ(), s),
    ensures
        with_mask(b, k, v).disjoint(),
{
    broadcast use crate::bits::group_bits;

    let nb = with_mask(b, k, v);
    assert forall|i: int, j: int, s: int|
        0 <= i < 12 && 0 <= j < 12 && i != j implies !(#[trigger] member(nb.masks()[i], s)
            && #[trigger] member(nb.masks()[j], s)) by {
        assert(forall|x: int| 0 <= x < 12 && x != k ==> nb.masks()[x] == b.masks()[x]);
        assert(nb.masks()[k] == v);
        if member(v, s) && !member(mask_at(b, k), s) {
            assert(forall|x: int| 0 <= x < 12 ==> !member(#[trigger] b.masks()[x], s));
        }
    }
}

/// Replacing mask `k` replaces entry `k` of the masks.
pub proof fn lemma_with_mask_masks(b: Board, k: int, v: u64)
    requires
        0 <= k < 12,
    ensures
        with_mask(b, k, v).masks() == b.masks().update(k, v),
{
    assert(with_mask(b, k, v).masks() =~= b.masks().update(k, v));
}

/// Putting a piece on an empty square of a board whose masks are disjoint keeps them
/// disjoint.
pub proof fn lemma_place_keeps_disjoint(b: Board, k: int, sq: int)
    requires
        b.disjoint(),
        0 <= k < 12,
        !member(b.occ(), sq),
    ensures
        with_mask(b, k, mask_at(b, k) | bit(sq)).disjoint(),
{
    broadcast use crate::bits::group_bits;

    lemma_replace_keeps_disjoint(b, k, mask_at(b, k) | bit(sq));
}

/// Masks that only lose squares stay disjoint.
pub proof fn lemma_shrink_keeps_disjoint(b: Board, nb: Board)
    requires
        b.disjoint(),
        forall|i: int, s: int| 0 <= i < 12 && #[trigger] member(nb.masks()[i], s) ==> member(b.masks()[i], s),
    ensures
        nb.disjoint(),
{
}

/// The masks after the capture on `cb` are those before, less `cb` on the enemy side.
proof fn lemma_taken_keeps_disjoint(b: Board, cb: u64, color: Turn)
    requires
        b.disjoint(),
    ensures
        taken(b, cb, color).disjoint(),
        forall|s: int| #[trigger] member(taken(b, cb, color).occ(), s) ==> member(b.occ(), s),
        forall|s: int| member(cb, s) ==> !member(#[trigger] taken(b, cb, color).side_occ(opposite(color)), s),
        taken(b, cb, color).side_occ(color) == b.side_occ(color),
{
    broadcast use crate::bits::group_bits;

    let nb = taken(b, cb, color);
    assert forall|i: int, s: int| 0 <= i < 12 && #[trigger] member(nb.masks()[i], s) implies member(b.masks()[i], s) by {
    }
    lemma_shrink_keeps_disjoint(b, nb);
}

/// Every board a move leads to keeps its twelve masks disjoint, when the masks were
/// disjoint before and a plain move does not land on a square of the mover's own side.
pub proof fn lemma_do_move_keeps_disjoint(b: Board, m: LegalMove, color: Turn)
    requires
        b.disjoint(),
        m.castle == CastleOptions::NoCastle ==> b.side_occ(color) & pos_bit(m.to) == 0,
    ensures
        after_move(b, m, color).disjoint(),
{
    broadcast use crate::bits::group_bits;

    match m.castle {
        CastleOptions::NoCastle => lemma_plain_move_keeps_disjoint(b, m, color),
        _ => lemma_castle_keeps_disjoint(b, m.castle, color),
    }
}

proof fn lemma_plain_move_keeps_disjoint(b: Board, m: LegalMove, color: Turn)
    requires
        b.disjoint(),
        m.castle == CastleOptions::NoCastle,
        b.side_occ(color) & pos_bit(m.to) == 0,
    ensures
        after_plain_move(b, m, color).disjoint(),
{
    broadcast use crate::bits::group_bits;

    let fb = pos_bit(m.from);
    let tb = pos_bit(m.to);
    let kind = mover_kind(b, color, fb);
    if kind != NO_PIECE as int {
        let idx = base_of(color) + kind;
        let cs = captured_square(b, m, color, kind);
        let b1 = taken(b, cs, color);
        lemma_taken_keeps_disjoint(b, cs, color);
        // the target square is empty after the capture
        assert forall|s: int| member(tb, s) implies !member(b1.occ(), s) by {
            assert(member(b.side_occ(color) & tb, s) == (member(b.side_occ(color), s) && member(tb, s)));
            assert(!member(0u64, s));
            assert(!member(b1.side_occ(color), s));
            if cs == tb {
                assert(!member(b1.side_occ(opposite(color)), s));
            } else {
                assert(b.occ() & tb == 0);
                assert(member(b.occ() & tb, s) == (member(b.occ(), s) && member(tb, s)));
            }
            match color {
                Turn::White => assert(b1.occ() == b1.side_occ(color) | b1.side_occ(opposite(color))),
                Turn::Black => {
                    assert(member(b1.occ(), s) == (member(b1.white_occ(), s) || member(b1.black_occ(), s)));
                },
            }
        }
        let v = (mask_at(b1, idx) & !fb) | tb;
        assert forall|s: int| #[trigger] member(v, s) implies member(mask_at(b1, idx), s) || !member(b1.occ(), s) by {
        }
        lemma_replace_keeps_disjoint(b1, idx, v);
        let b2 = with_mask(b1, idx, v);
        let b3 = flags_after(b2, color, kind, fb);
        assert(b3.masks() == b2.masks());
        let b4 = promoted(b3, color, kind, m);
        if kind == PAWN as int && m.to.row == last_row(color) {
            let base = base_of(color);
            let pb = with_mask(b3, base + PAWN as int, mask_at(b3, base + PAWN as int) & !tb);
            lemma_replace_keeps_disjoint(b3, base + PAWN as int, mask_at(b3, base + PAWN as int) & !tb);
            // the target square held only the pawn, and now nothing
            assert forall|s: int| member(tb, s) implies !member(pb.occ(), s) by {
                assert(forall|x: int| 0 <= x < 12 && x != idx ==> !member(#[trigger] b2.masks()[x], s));
            }
            let qv = mask_at(pb, base + QUEEN as int) | tb;
            assert forall|s: int| #[trigger] member(qv, s) implies member(mask_at(pb, base + QUEEN as int), s) || !member(pb.occ(), s) by {
            }
            lemma_replace_keeps_disjoint(pb, base + QUEEN as int, qv);
        }
        let b5 = en_passant_after(b4, m, color, kind);
        assert(b5.masks() == b4.masks());
        let b6 = Board { turn: opposite(color), ..b5 };
        assert(b6.masks() == b5.masks());
    }
}

proof fn lemma_castle_keeps_disjoint(b: Board, side: CastleOptions, color: Turn)
    requires
        b.disjoint(),
        side != CastleOptions::NoCastle,
    ensures
        after_castle(b, side, color).disjoint(),
{
    broadcast use crate::bits::group_bits;

    let (k, r, between, k_to, r_to) = castle_squares(color, side);
    let base = base_of(color);
    if mask_at(b, base + KING as int) & k != 0 && mask_at(b, base + ROOK as int) & r != 0 && b.occ()
        & between == 0 {
        assert(k_to & r_to == 0 && (k_to | r_to) & !between == 0) by {
            assert(0x2u64 & 0x4u64 == 0 && (0x2u64 | 0x4u64) & !0x6u64 == 0) by (bit_vector);
            assert(0x20u64 & 0x10u64 == 0 && (0x20u64 | 0x10u64) & !0x70u64 == 0) by (bit_vector);
            assert(0x200000000000000u64 & 0x400000000000000u64 == 0 && (0x200000000000000u64
                | 0x400000000000000u64) & !0x600000000000000u64 == 0) by (bit_vector);
            assert(0x2000000000000000u64 & 0x1000000000000000u64 == 0 && (0x2000000000000000u64
                | 0x1000000000000000u64) & !0x7000000000000000u64 == 0) by (bit_vector);
        }
        // the king's and rook's new squares lie between them, so they are empty
        assert forall|s: int| member(k_to, s) || member(r_to, s) implies !member(b.occ(), s) by {
            assert(member((k_to | r_to) & !between, s) == (member(k_to | r_to, s) && member(!between, s)));
            assert(!member(0u64, s));
            assert(member(b.occ() & between, s) == (member(b.occ(), s) && member(between, s)));
        }
        let ki = base + KING as int;
        let ri = base + ROOK as int;
        let rv = (mask_at(b, ri) & !r) | r_to;
        // rook first: its new squares are old rook squares or empty ones
        assert forall|s: int| #[trigger] member(rv, s) implies member(mask_at(b, ri), s) || !member(b.occ(), s) by {
        }
        lemma_replace_keeps_disjoint(b, ri, rv);
        let b0 = with_mask(b, ri, rv);
        assert forall|s: int| #[trigger] member(k_to, s) implies member(mask_at(b0, ki), s) || !member(b0.occ(), s) by {
            assert(!member(b.occ(), s));
            assert(!member(r_to, s)) by {
                assert(member(k_to & r_to, s) == (member(k_to, s) && member(r_to, s)));
                assert(!member(0u64, s));
            }
            assert(forall|x: int| 0 <= x < 12 && x != ri ==> b0.masks()[x] == b.masks()[x]);
            assert(forall|x: int| 0 <= x < 12 ==> !member(#[trigger] b.masks()[x], s));
        }
        lemma_replace_keeps_disjoint(b0, ki, k_to);
        let b1 = with_mask(with_mask(b, ki, k_to), ri, rv);
        assert(b1.masks() == with_mask(b0, ki, k_to).masks());
        let b2 = match (color, side) {
            (Turn::White, CastleOptions::KingSide) => Board {
                has_w_king_side_castle: true,
                w_king_has_moved: true,
                ..b1
            },
            (Turn::White, _) => Board { has_w_queen_side_castle: true, w_king_has_moved: true, ..b1 },
            (Turn::Black, CastleOptions::KingSide) => Board {
                has_b_king_side_castle: true,
                b_king_has_moved: true,
                ..b1
            },
            (Turn::Black, _) => Board { has_b_queen_side_castle: true, b_king_has_moved: true, ..b1 },
        };
        assert(b2.masks() == b1.masks());
        let b3 = Board { w_en_passant: 0, b_en_passant: 0, turn: opposite(color), ..b2 };
        assert(b3.masks() == b2.masks());
    }
}

/// Index of `color`'s first mask.
pub open spec fn base_of(color: Turn) -> int {
    match color {
        Turn::White => 0,
        Turn::Black => 6,
    }
}

pub const ROOK: usize = 0;
pub const QUEEN: usize = 3;
pub const KING: usize = 4;
pub const PAWN: usize = 5;
/// No piece of the mover stands on the from-square.
pub const NO_PIECE: usize = 6;

/// Which of `color`'s six masks holds `fb`, or `NO_PIECE`.
pub open spec fn mover_kind(b: Board, color: Turn, fb: u64) -> int {
    let base = base_of(color);
    if mask_at(b, base) & fb != 0 {
        0
    } else if mask_at(b, base + 1) & fb != 0 {
        1
    } else if mask_at(b, base + 2) & fb != 0 {
        2
    } else if mask_at(b, base + 3) & fb != 0 {
        3
    } else if mask_at(b, base + 4) & fb != 0 {
        4
    } else if mask_at(b, base + 5) & fb != 0 {
        5
    } else {
        6
    }
}

/// `b` after `color` captures whatever stands on `cb`: `cb` is cleared from every
/// enemy mask, the enemy's castling right on that corner is spent, and the half-move
/// counter restarts when a piece was taken.
pub open spec fn taken(b: Board, cb: u64, color: Turn) -> Board {
    match color {
        Turn::White => Board {
            b_rooks: b.b_rooks & !cb,
            b_knights: b.b_knights & !cb,
            b_bishops: b.b_bishops & !cb,
            b_queen: b.b_queen & !cb,
            b_king: b.b_king & !cb,
            b_pawns: b.b_pawns & !cb,
            has_b_king_side_castle: b.has_b_king_side_castle || cb == 0x100000000000000u64,
            has_b_queen_side_castle: b.has_b_queen_side_castle || cb == 0x8000000000000000u64,
            half_move_count: if b.black_occ() & cb != 0 {
                0
            } else {
                b.half_move_count
            },
            ..b
        },
        Turn::Black => Board {
            w_rooks: b.w_rooks & !cb,
            w_knights: b.w_knights & !cb,
            w_bishops: b.w_bishops & !cb,
            w_queen: b.w_queen & !cb,
            w_king: b.w_king & !cb,
            w_pawns: b.w_pawns & !cb,
            has_w_king_side_castle: b.has_w_king_side_castle || cb == 0x1u64,
            has_w_queen_side_castle: b.has_w_queen_side_castle || cb == 0x80u64,
            half_move_count: if b.white_occ() & cb != 0 {
                0
            } else {
                b.half_move_count
            },
            ..b
        },
    }
}

/// Square a pawn of `color` captures on when it takes en passant onto `tb`.
pub open spec fn passed_pawn(tb: u64, color: Turn) -> u64 {
    match color {
        Turn::White => tb >> 8u64,
        Turn::Black => tb << 8u64,
    }
}

/// Whether a pawn move of `color` from `from` to `to` is an en-passant capture: a
/// diagonal step onto an empty square.
pub open spec fn is_en_passant_move(b: Board, m: LegalMove, kind: int) -> bool {
    kind == PAWN as int && m.from.colum != m.to.colum && b.occ() & pos_bit(m.to) == 0
}

/// The square emptied by the capture of move `m`.
pub open spec fn captured_square(b: Board, m: LegalMove, color: Turn, kind: int) -> u64 {
    if is_en_passant_move(b, m, kind) {
        passed_pawn(pos_bit(m.to), color)
    } else {
        pos_bit(m.to)
    }
}

/// Castling flags after the piece of kind `kind` leaves `fb`.
pub open spec fn flags_after(b: Board, color: Turn, kind: int, fb: u64) -> Board {
    match color {
        Turn::White => Board {
            w_king_has_moved: b.w_king_has_moved || kind == KING as int,
            has_w_king_side_castle: b.has_w_king_side_castle || (kind == ROOK as int && fb == 0x1u64),
            has_w_queen_side_castle: b.has_w_queen_side_castle || (kind == ROOK as int && fb == 0x80u64),
            ..b
        },
        Turn::Black => Board {
            b_king_has_moved: b.b_king_has_moved || kind == KING as int,
            has_b_king_side_castle: b.has_b_king_side_castle || (kind == ROOK as int && fb
                == 0x100000000000000u64),
            has_b_queen_side_castle: b.has_b_queen_side_castle || (kind == ROOK as int && fb
                == 0x8000000000000000u64),
            ..b
        },
    }
}

/// Row a pawn of `color` promotes on.
pub open spec fn last_row(color: Turn) -> int {
    match color {
        Turn::White => 7,
        Turn::Black => 0,
    }
}

/// A pawn of `color` that reached its last row on `tb` becomes a queen.
pub open spec fn promoted(b: Board, color: Turn, kind: int, m: LegalMove) -> Board {
    let base = base_of(color);
    let tb = pos_bit(m.to);
    if kind == PAWN as int && m.to.row == last_row(color) {
        with_mask(
            with_mask(b, base + PAWN as int, mask_at(b, base + PAWN as int) & !tb),
            base + QUEEN as int,
            mask_at(b, base + QUEEN as int) | tb,
        )
    } else {
        b
    }
}

/// A pawn move two rows forward from the pawn's home row.
pub open spec fn is_double_push(m: LegalMove, color: Turn, kind: int) -> bool {
    kind == PAWN as int && m.from.colum == m.to.colum && m.to.row as int == m.from.row as int + 2
        * forward(color)
}

/// En-passant state after move `m`: both masks cleared, then the mover's set to the
/// pawn's new square after a double step.
pub open spec fn en_passant_after(b: Board, m: LegalMove, color: Turn, kind: int) -> Board {
    let tb = pos_bit(m.to);
    if is_double_push(m, color, kind) {
        match color {
            Turn::White => Board { w_en_passant: tb, b_en_passant: 0, ..b },
            Turn::Black => Board { w_en_passant: 0, b_en_passant: tb, ..b },
        }
    } else {
        Board { w_en_passant: 0, b_en_passant: 0, ..b }
    }
}

/// Board after the ordinary (non-castling) move `m` by `color`.
pub open spec fn after_plain_move(b: Board, m: LegalMove, color: Turn) -> Board {
    let fb = pos_bit(m.from);
    let tb = pos_bit(m.to);
    let kind = mover_kind(b, color, fb);
    if kind == NO_PIECE as int {
        b
    } else {
        let idx = base_of(color) + kind;
        let b1 = taken(b, captured_square(b, m, color, kind), color);
        let b2 = with_mask(b1, idx, (mask_at(b1, idx) & !fb) | tb);
        let b3 = flags_after(b2, color, kind, fb);
        let b4 = promoted(b3, color, kind, m);
        let b5 = en_passant_after(b4, m, color, kind);
        Board { turn: opposite(color), ..b5 }
    }
}

/// King, rook and between squares of a castle: `(king, rook, between, king_to, rook_to)`.
pub open spec fn castle_squares(color: Turn, side: CastleOptions) -> (u64, u64, u64, u64, u64) {
    match (color, side) {
        (Turn::White, CastleOptions::KingSide) => (0x8, 0x1, 0x6, 0x2, 0x4),
        (Turn::White, _) => (0x8, 0x80, 0x70, 0x20, 0x10),
        (Turn::Black, CastleOptions::KingSide) => (
            0x800000000000000,
            0x100000000000000,
            0x600000000000000,
            0x200000000000000,
            0x400000000000000,
        ),
        (Turn::Black, _) => (
            0x800000000000000,
            0x8000000000000000,
            0x7000000000000000,
            0x2000000000000000,
            0x1000000000000000,
        ),
    }
}

/// Board after castling on `side`; unchanged when the king or rook is missing from its
/// home square or a square between them is occupied.
pub open spec fn after_castle(b: Board, side: CastleOptions, color: Turn) -> Board {
    let (k, r, between, k_to, r_to) = castle_squares(color, side);
    let base = base_of(color);
    if mask_at(b, base + KING as int) & k != 0 && mask_at(b, base + ROOK as int) & r != 0 && b.occ()
        & between == 0 {
        let b1 = with_mask(
            with_mask(b, base + KING as int, k_to),
            base + ROOK as int,
            (mask_at(b, base + ROOK as int) & !r) | r_to,
        );
        let b2 = match (color, side) {
            (Turn::White, CastleOptions::KingSide) => Board {
                has_w_king_side_castle: true,
                w_king_has_moved: true,
                ..b1
            },
            (Turn::White, _) => Board { has_w_queen_side_castle: true, w_king_has_moved: true, ..b1 },
            (Turn::Black, CastleOptions::KingSide) => Board {
                has_b_king_side_castle: true,
                b_king_has_moved: true,
                ..b1
            },
            (Turn::Black, _) => Board { has_b_queen_side_castle: true, b_king_has_moved: true, ..b1 },
        };
        Board { w_en_passant: 0, b_en_passant: 0, turn: opposite(color), ..b2 }
    } else {
        b
    }
}

/// Board after `color` plays `m`.
pub open spec fn after_move(b: Board, m: LegalMove, color: Turn) -> Board {
    match m.castle {
        CastleOptions::NoCastle => after_plain_move(b, m, color),
        _ => after_castle(b, m.castle, color),
    }
}

impl Board {
    /// Mask number `i`, in the order of `masks`.
    pub fn mask(&self, i: usize) -> (r: u64)
        requires
            i < 12,
        ensures
            r == mask_at(*self, i as int),
    {
        if i == 0 {
            self.w_rooks
        } else if i == 1 {
            self.w_knights
        } else if i == 2 {
            self.w_bishops
        } else if i == 3 {
            self.w_queen
        } else if i == 4 {
            self.w_king
        } else if i == 5 {
            self.w_pawns
        } else if i == 6 {
            self.b_rooks
        } else if i == 7 {
            self.b_knights
        } else if i == 8 {
            self.b_bishops
        } else if i == 9 {
            self.b_queen
        } else if i == 10 {
            self.b_king
        } else {
            self.b_pawns
        }
    }

    /// Replaces mask number `i` by `v`.
    pub fn set_mask(&mut self, i: usize, v: u64)
        requires
            i < 12,
        ensures
            *final(self) == with_mask(*old(self), i as int, v),
    {
        if i == 0 {
            self.w_rooks = v;
        } else if i == 1 {
            self.w_knights = v;
        } else if i == 2 {
            self.w_bishops = v;
        } else if i == 3 {
            self.w_queen = v;
        } else if i == 4 {
            self.w_king = v;
        } else if i == 5 {
            self.w_pawns = v;
        } else if i == 6 {
            self.b_rooks = v;
        } else if i == 7 {
            self.b_knights = v;
        } else if i == 8 {
            self.b_bishops = v;
        } else if i == 9 {
            self.b_queen = v;
        } else if i == 10 {
            self.b_king = v;
        } else {
            self.b_pawns = v;
        }
    }

    /// The one-square mask of `movve`, or 0 when it is off the board.
    pub fn get_piece_bitboard_from_position(movve: Position) -> (r: u64)
        ensures
            r == pos_bit(movve),
    {
        if 0 <= movve.row && movve.row < 8 && 0 <= movve.colum && movve.colum < 8 {
            single((movve.row as u64) * 8 + movve.colum as u64)
        } else {
            0
        }
    }

    /// Removes whatever stands on `destin_board` from the side `color` plays against;
    /// returns whether a piece was taken.
    fn try_take(&mut self, destin_board: u64, color: Turn) -> (r: bool)
        ensures
            *final(self) == taken(*old(self), destin_board, color),
            r == (match color {
                Turn::White => old(self).black_occ() & destin_board != 0,
                Turn::Black => old(self).white_occ() & destin_board != 0,
            }),
    {
        let hit = match color {
            Turn::White => self.getBlackBitboard() & destin_board != 0,
            Turn::Black => self.getWhiteBitboard() & destin_board != 0,
        };
        match color {
            Turn::White => {
                self.b_rooks = self.b_rooks & !destin_board;
                self.b_knights = self.b_knights & !destin_board;
                self.b_bishops = self.b_bishops & !destin_board;
                self.b_queen = self.b_queen & !destin_board;
                self.b_king = self.b_king & !destin_board;
                self.b_pawns = self.b_pawns & !destin_board;
                self.has_b_king_side_castle = self.has_b_king_side_castle || destin_board
                    == 0x100000000000000;
                self.has_b_queen_side_castle = self.has_b_queen_side_castle || destin_board
                    == 0x8000000000000000;
            },
            Turn::Black => {
                self.w_rooks = self.w_rooks & !destin_board;
                self.w_knights = self.w_knights & !destin_board;
                self.w_bishops = self.w_bishops & !destin_board;
                self.w_queen = self.w_queen & !destin_board;
                self.w_king = self.w_king & !destin_board;
                self.w_pawns = self.w_pawns & !destin_board;
                self.has_w_king_side_castle = self.has_w_king_side_castle || destin_board == 0x1;
                self.has_w_queen_side_castle = self.has_w_queen_side_castle || destin_board == 0x80;
            },
        }
        if hit {
            self.half_move_count = 0;
        }
        hit
    }

    /// Relocates king and rook for a castle on `side`, when both stand at home and the
    /// squares between are empty.
    fn try_castle(&mut self, side: CastleOptions, playing_as: Turn)
        requires
            side != CastleOptions::NoCastle,
        ensures
            *final(self) == after_castle(*old(self), side, playing_as),
    {
        let (k, r, between, k_to, r_to): (u64, u64, u64, u64, u64) = match (playing_as, side) {
            (Turn::White, CastleOptions::KingSide) => (0x8, 0x1, 0x6, 0x2, 0x4),
            (Turn::White, _) => (0x8, 0x80, 0x70, 0x20, 0x10),
            (Turn::Black, CastleOptions::KingSide) => (
                0x800000000000000,
                0x100000000000000,
                0x600000000000000,
                0x200000000000000,
                0x400000000000000,
            ),
            (Turn::Black, _) => (
                0x800000000000000,
                0x8000000000000000,
                0x7000000000000000,
                0x2000000000000000,
                0x1000000000000000,
            ),
        };
        let base: usize = match playing_as {
            Turn::White => 0,
            Turn::Black => 6,
        };
        if self.mask(base + KING) & k != 0 && self.mask(base + ROOK) & r != 0 && self.getOcupancy()
            & between == 0 {
            let rooks = self.mask(base + ROOK);
            self.set_mask(base + KING, k_to);
            self.set_mask(base + ROOK, (rooks & !r) | r_to);
            match (playing_as, side) {
                (Turn::White, CastleOptions::KingSide) => {
                    self.has_w_king_side_castle = true;
                    self.w_king_has_moved = true;
                },
                (Turn::White, _) => {
                    self.has_w_queen_side_castle = true;
                    self.w_king_has_moved = true;
                },
                (Turn::Black, CastleOptions::KingSide) => {
                    self.has_b_king_side_castle = true;
                    self.b_king_has_moved = true;
                },
                (Turn::Black, _) => {
                    self.has_b_queen_side_castle = true;
                    self.b_king_has_moved = true;
                },
            }
            self.w_en_passant = 0;
            self.b_en_passant = 0;
            self.turn = opposite_turn(playing_as);
        }
    }

    /// Which of `color`'s masks holds `fb`.
    fn find_mover(&self, color: Turn, fb: u64) -> (k: usize)
        ensures
            k as int == mover_kind(*self, color, fb),
    {
        let base: usize = match color {
            Turn::White => 0,
            Turn::Black => 6,
        };
        if self.mask(base) & fb != 0 {
            0
        } else if self.mask(base + 1) & fb != 0 {
            1
        } else if self.mask(base + 2) & fb != 0 {
            2
        } else if self.mask(base + 3) & fb != 0 {
            3
        } else if self.mask(base + 4) & fb != 0 {
            4
        } else if self.mask(base + 5) & fb != 0 {
            5
        } else {
            NO_PIECE
        }
    }

    /// Plays `movve` for `playing_as`: captures (en passant included), moves the piece,
    /// updates castling flags, promotes a pawn on its last row to a queen, sets or clears
    /// the en-passant masks and passes the turn. A castling move relocates king and rook.
    /// A move whose from-square holds none of the mover's pieces changes nothing.
    pub fn do_move(&mut self, movve: LegalMove, playing_as: Turn)
        ensures
            *final(self) == after_move(*old(self), movve, playing_as),
    {
        match movve.castle {
            CastleOptions::KingSide => self.try_castle(CastleOptions::KingSide, playing_as),
            CastleOptions::QueenSide => self.try_castle(CastleOptions::QueenSide, playing_as),
            CastleOptions::NoCastle => {
                *self = plain_move(*self, movve, playing_as);
            },
        }
    }
}

fn base_index(color: Turn) -> (r: usize)
    ensures
        r as int == base_of(color),
{
    match color {
        Turn::White => 0,
        Turn::Black => 6,
    }
}

fn capture_square(b: &Board, m: LegalMove, color: Turn, kind: usize) -> (r: u64)
    ensures
        r == captured_square(*b, m, color, kind as int),
{
    let tb = Board::get_piece_bitboard_from_position(m.to);
    if kind == PAWN && m.from.colum != m.to.colum && b.getOcupancy() & tb == 0 {
        match color {
            Turn::White => tb >> 8,
            Turn::Black => tb << 8,
        }
    } else {
        tb
    }
}

fn flags_step(b: Board, color: Turn, kind: usize, fb: u64) -> (r: Board)
    ensures
        r == flags_after(b, color, kind as int, fb),
{
    let mut r = b;
    match color {
        Turn::White => {
            r.w_king_has_moved = b.w_king_has_moved || kind == KING;
            r.has_w_king_side_castle = b.has_w_king_side_castle || (kind == ROOK && fb == 0x1);
            r.has_w_queen_side_castle = b.has_w_queen_side_castle || (kind == ROOK && fb == 0x80);
        },
        Turn::Black => {
            r.b_king_has_moved = b.b_king_has_moved || kind == KING;
            r.has_b_king_side_castle = b.has_b_king_side_castle || (kind == ROOK && fb
                == 0x100000000000000);
            r.has_b_queen_side_castle = b.has_b_queen_side_castle || (kind == ROOK && fb
                == 0x8000000000000000);
        },
    }
    r
}

fn promote_step(b: Board, color: Turn, kind: usize, m: LegalMove) -> (r: Board)
    ensures
        r == promoted(b, color, kind as int, m),
{
    let last: i8 = match color {
        Turn::White => 7,
        Turn::Black => 0,
    };
    if kind == PAWN && m.to.row == last {
        let base = base_index(color);
        let tb = Board::get_piece_bitboard_from_position(m.to);
        let mut r = b;
        r.set_mask(base + PAWN, b.mask(base + PAWN) & !tb);
        r.set_mask(base + QUEEN, b.mask(base + QUEEN) | tb);
        r
    } else {
        b
    }
}

fn en_passant_step(b: Board, m: LegalMove, color: Turn, kind: usize) -> (r: Board)
    ensures
        r == en_passant_after(b, m, color, kind as int),
{
    let step: i16 = match color {
        Turn::White => 2,
        Turn::Black => -2,
    };
    let tb = Board::get_piece_bitboard_from_position(m.to);
    let mut r = b;
    r.w_en_passant = 0;
    r.b_en_passant = 0;
    if kind == PAWN && m.from.colum == m.to.colum && m.to.row as i16 == m.from.row as i16 + step {
        match color {
            Turn::White => r.w_en_passant = tb,
            Turn::Black => r.b_en_passant = tb,
        }
    }
    r
}

/// The board after the ordinary move `m` by `color`.
fn plain_move(b: Board, m: LegalMove, color: Turn) -> (r: Board)
    requires
        m.castle == CastleOptions::NoCastle,
    ensures
        r == after_plain_move(b, m, color),
{
    let fb = Board::get_piece_bitboard_from_position(m.from);
    let tb = Board::get_piece_bitboard_from_position(m.to);
    let kind = b.find_mover(color, fb);
    if kind == NO_PIECE {
        return b;
    }
    let idx = base_index(color) + kind;
    let cb = capture_square(&b, m, color, kind);
    let mut b1 = b;
    b1.try_take(cb, color);
    let mut b2 = b1;
    b2.set_mask(idx, (b1.mask(idx) & !fb) | tb);
    let b3 = flags_step(b2, color, kind, fb);
    let b4 = promote_step(b3, color, kind, m);
    let mut b5 = en_passant_step(b4, m, color, kind);
    b5.turn = opposite_turn(color);
    b5
}

fn opposite_turn(t: Turn) -> (r: Turn)
    ensures
        r == opposite(t),
{
    match t {
        Turn::White => Turn::Black,
        Turn::Black => Turn::White,
    }
}

} // verus!
