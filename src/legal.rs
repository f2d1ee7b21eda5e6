//! Move enumeration: pseudo-legal moves per side and the check-safe filter.
use vstd::prelude::*;
use crate::bits::{member, test_bit, single};
use crate::board::{Board, Turn, PieceType, opposite};
use crate::position::{CastleOptions, LegalMove, Position};
use crate::pieces::{en_passant_mask, Pawn, is_piece, square_of};
use crate::movement::{
    Movement, piece_moves, in_check, king_side_castle_allowed, queen_side_castle_allowed,
    lemma_single_square,
};
use crate::apply::{after_move, mask_at, base_of};

verus! {

/// The plain move from square `s` to square `t`.
pub open spec fn mv(s: int, t: int) -> LegalMove {
    LegalMove {
        from: Position { colum: (s % 8) as i8, row: (s / 8) as i8 },
        to: Position { colum: (t % 8) as i8, row: (t / 8) as i8 },
        castle: CastleOptions::NoCastle,
    }
}

/// Piece type of `color`'s mask number `kind` (rook, knight, bishop, queen, king, pawn).
pub open spec fn type_of(color: Turn, kind: int) -> PieceType {
    match color {
        Turn::White => if kind == 0 {
            PieceType::WhiteRook
        } else if kind == 1 {
            PieceType::WhiteKnight
        } else if kind == 2 {
            PieceType::WhiteBishop
        } else if kind == 3 {
            PieceType::WhiteQueen
        } else if kind == 4 {
            PieceType::WhiteKing
        } else {
            PieceType::WhitePawn
        },
        Turn::Black => if kind == 0 {
            PieceType::BlackRook
        } else if kind == 1 {
            PieceType::BlackKnight
        } else if kind == 2 {
            PieceType::BlackBishop
        } else if kind == 3 {
            PieceType::BlackQueen
        } else if kind == 4 {
            PieceType::BlackKing
        } else {
            PieceType::BlackPawn
        },
    }
}

/// En-passant mask left by `color`'s last double step.
pub open spec fn en_passant_of(b: Board, color: Turn) -> u64 {
    match color {
        Turn::White => b.w_en_passant,
        Turn::Black => b.b_en_passant,
    }
}

/// A piece of `color` on `s` may move to `t` by its movement pattern, or a pawn on `s`
/// may take en passant onto the empty square `t`.
pub open spec fn reaches(b: Board, color: Turn, s: int, t: int) -> bool {
    let w = b.white_occ();
    let k = b.black_occ();
    (exists|kind: int|
        0 <= kind < 6 && #[trigger] member(mask_at(b, base_of(color) + kind), s) && member(
            piece_moves(type_of(color, kind), s, color, w, k),
            t,
        )) || (member(mask_at(b, base_of(color) + 5), s) && member(
        en_passant_moves(b, color, s),
        t,
    ))
}

/// The castling move on `side`; its squares are not read and are both 0.
pub open spec fn castle_move(side: CastleOptions) -> LegalMove {
    LegalMove {
        from: Position { colum: 0, row: 0 },
        to: Position { colum: 0, row: 0 },
        castle: side,
    }
}

/// `m` follows the movement rules for `color` on `b`, ignoring the safety of the
/// mover's king (castling moves follow the full castling rule).
pub open spec fn pseudo_legal(b: Board, m: LegalMove, color: Turn) -> bool {
    match m.castle {
        CastleOptions::KingSide => m == castle_move(CastleOptions::KingSide) && king_side_castle_allowed(b, color),
        CastleOptions::QueenSide => m == castle_move(CastleOptions::QueenSide) && queen_side_castle_allowed(b, color),
        CastleOptions::NoCastle => exists|s: int, t: int|
            0 <= s < 64 && 0 <= t < 64 && m == mv(s, t) && #[trigger] reaches(b, color, s, t),
    }
}

/// After `color` plays `m`, `color`'s king is not attacked.
pub open spec fn leaves_king_safe(b: Board, m: LegalMove, color: Turn) -> bool {
    !in_check(after_move(b, m, color), color)
}

/// The moves of `s` that leave `side`'s king safe, in their order.
pub open spec fn safe_moves(b: Board, s: Seq<LegalMove>, side: Turn) -> Seq<LegalMove> {
    s.filter(|m: LegalMove| leaves_king_safe(b, m, side))
}

/// `color` has a move that follows the movement rules and leaves its king safe.
pub open spec fn has_legal_move(b: Board, color: Turn) -> bool {
    exists|m: LegalMove| pseudo_legal(b, m, color) && leaves_king_safe(b, m, color)
}

/// `color` is in check and has no legal move.
pub open spec fn checkmated(b: Board, color: Turn) -> bool {
    in_check(b, color) && !has_legal_move(b, color)
}

/// Appends the moves from `s` to every square of `mask`, lowest square first.
fn push_moves_to(s: u64, mask: u64, out: &mut Vec<LegalMove>)
    requires
        s < 64,
    ensures
        final(out)@.len() >= old(out)@.len(),
        forall|i: int| 0 <= i < old(out)@.len() ==> final(out)@[i] == old(out)@[i],
        forall|i: int|
            old(out)@.len() <= i < final(out)@.len() ==> exists|t: int|
                0 <= t < 64 && member(mask, t) && #[trigger] final(out)@[i] == mv(s as int, t),
        forall|t: int| 0 <= t < 64 && member(mask, t) ==> final(out)@.contains(#[trigger] mv(s as int, t)),
{
    let ghost start = out@;
    let from_row: i8 = (s / 8) as i8;
    let from_column: i8 = (s % 8) as i8;
    let mut t: u64 = 0;
    while t < 64
        invariant
            s < 64,
            t <= 64,
            from_row as int == s as int / 8,
            from_column as int == s as int % 8,
            out@.len() >= start.len(),
            forall|i: int| 0 <= i < start.len() ==> out@[i] == start[i],
            forall|i: int|
                start.len() <= i < out@.len() ==> exists|u: int|
                    0 <= u < 64 && member(mask, u) && #[trigger] out@[i] == mv(s as int, u),
            forall|u: int| 0 <= u < t && member(mask, u) ==> out@.contains(#[trigger] mv(s as int, u)),
        decreases 64 - t,
    {
        if test_bit(mask, t) {
            let m = LegalMove::new(from_row, from_column, (t / 8) as i8, (t % 8) as i8);
            assert(m == mv(s as int, t as int));
            let ghost before = out@;
            out.push(m);
            proof {
                assert forall|u: int| 0 <= u < t + 1 && member(mask, u) implies out@.contains(
                    #[trigger] mv(s as int, u),
                ) by {
                    if u < t {
                        let j = choose|j: int| 0 <= j < before.len() && before[j] == mv(s as int, u);
                        assert(out@[j] == mv(s as int, u));
                    } else {
                        assert(out@[before.len() as int] == mv(s as int, u));
                    }
                }
                assert forall|i: int| start.len() <= i < out@.len() implies exists|u: int|
                    0 <= u < 64 && member(mask, u) && #[trigger] out@[i] == mv(s as int, u) by {
                    if i == before.len() {
                        assert(member(mask, t as int) && out@[i] == mv(s as int, t as int));
                    } else {
                        assert(out@[i] == before[i]);
                    }
                }
            }
        }
        t = t + 1;
    }
}

/// Index of `color`'s first mask.
fn first_mask(color: Turn) -> (r: usize)
    ensures
        r as int == base_of(color),
{
    match color {
        Turn::White => 0,
        Turn::Black => 6,
    }
}

fn piece_type_of(color: Turn, kind: usize) -> (r: PieceType)
    requires
        kind < 6,
    ensures
        r == type_of(color, kind as int),
{
    match color {
        Turn::White => if kind == 0 {
            PieceType::WhiteRook
        } else if kind == 1 {
            PieceType::WhiteKnight
        } else if kind == 2 {
            PieceType::WhiteBishop
        } else if kind == 3 {
            PieceType::WhiteQueen
        } else if kind == 4 {
            PieceType::WhiteKing
        } else {
            PieceType::WhitePawn
        },
        Turn::Black => if kind == 0 {
            PieceType::BlackRook
        } else if kind == 1 {
            PieceType::BlackKnight
        } else if kind == 2 {
            PieceType::BlackBishop
        } else if kind == 3 {
            PieceType::BlackQueen
        } else if kind == 4 {
            PieceType::BlackKing
        } else {
            PieceType::BlackPawn
        },
    }
}

/// En-passant capture of a pawn of `color` on `s`, when the square it lands on is empty.
pub open spec fn en_passant_moves(b: Board, color: Turn, s: int) -> u64 {
    en_passant_mask(s, en_passant_of(b, opposite(color)), color) & !b.occ()
}

/// Destinations of the piece of `color`'s mask number `kind` on `s`, or of its
/// en-passant capture.
pub open spec fn kind_moves(b: Board, color: Turn, kind: int, en_passant: bool, s: int) -> u64 {
    if en_passant {
        en_passant_moves(b, color, s)
    } else {
        piece_moves(type_of(color, kind), s, color, b.white_occ(), b.black_occ())
    }
}

/// Appends the pseudo-legal plain moves of `color`'s pieces of mask number `kind`;
/// with `en_passant`, the en-passant captures of `color`'s pawns instead.
fn add_piece_moves(b: Board, color: Turn, kind: usize, en_passant: bool, out: &mut Vec<LegalMove>)
    requires
        kind < 6,
        en_passant ==> kind == 5,
        forall|i: int| 0 <= i < old(out)@.len() ==> pseudo_legal(b, #[trigger] old(out)@[i], color),
    ensures
        forall|i: int| 0 <= i < final(out)@.len() ==> pseudo_legal(b, #[trigger] final(out)@[i], color),
        final(out)@.len() >= old(out)@.len(),
        forall|i: int| 0 <= i < old(out)@.len() ==> final(out)@[i] == old(out)@[i],
        forall|x: LegalMove| old(out)@.contains(x) ==> #[trigger] final(out)@.contains(x),
        forall|q: int, t: int|
            0 <= q < 64 && 0 <= t < 64 && member(mask_at(b, base_of(color) + kind), q) && #[trigger] member(
                kind_moves(b, color, kind as int, en_passant, q),
                t,
            ) ==> final(out)@.contains(#[trigger] mv(q, t)),
{
    let ghost start = out@;
    let idx = first_mask(color) + kind;
    let pieces = b.mask(idx);
    let pt = piece_type_of(color, kind);
    let ep = match color {
        Turn::White => b.b_en_passant,
        Turn::Black => b.w_en_passant,
    };
    let mut s: u64 = 0;
    while s < 64
        invariant
            s <= 64,
            kind < 6,
            en_passant ==> kind == 5,
            idx as int == base_of(color) + kind,
            pieces == mask_at(b, idx as int),
            pt == type_of(color, kind as int),
            ep == en_passant_of(b, opposite(color)),
            forall|i: int| 0 <= i < out@.len() ==> pseudo_legal(b, #[trigger] out@[i], color),
            out@.len() >= start.len(),
            forall|i: int| 0 <= i < start.len() ==> out@[i] == start[i],
            forall|q: int, t: int|
                0 <= q < s && 0 <= t < 64 && member(pieces, q) && #[trigger] member(
                    kind_moves(b, color, kind as int, en_passant, q),
                    t,
                ) ==> out@.contains(#[trigger] mv(q, t)),
        decreases 64 - s,
    {
        if test_bit(pieces, s) {
            proof {
                lemma_single_square(s as int);
            }
            let piece = single(s);
            let mask = if en_passant {
                Pawn::get_moves_enpassant(piece, ep, color) & b.getNotOcupancy()
            } else {
                Movement::extract_piece_moves_from_bitboard(piece, color, pt, b)
            };
            let ghost before = out@;
            push_moves_to(s, mask, out);
            proof {
                assert forall|i: int| 0 <= i < out@.len() implies pseudo_legal(b, #[trigger] out@[i], color) by {
                    if i >= before.len() {
                        let t = choose|t: int| 0 <= t < 64 && member(mask, t) && out@[i] == mv(s as int, t);
                        if en_passant {
                            assert(reaches(b, color, s as int, t));
                        } else {
                            assert(member(mask_at(b, base_of(color) + kind), s as int));
                            assert(reaches(b, color, s as int, t));
                        }
                    } else {
                        assert(out@[i] == before[i]);
                    }
                }
                assert(mask == kind_moves(b, color, kind as int, en_passant, s as int));
                assert forall|q: int, t: int|
                    0 <= q < s + 1 && 0 <= t < 64 && member(pieces, q) && #[trigger] member(
                        kind_moves(b, color, kind as int, en_passant, q),
                        t,
                    ) implies out@.contains(#[trigger] mv(q, t)) by {
                    if q < s {
                        let j = choose|j: int| 0 <= j < before.len() && before[j] == mv(q, t);
                        assert(out@[j] == mv(q, t));
                    }
                }
            }
        }
        s = s + 1;
    }
    proof {
        assert forall|x: LegalMove| start.contains(x) implies #[trigger] out@.contains(x) by {
            let j = choose|j: int| 0 <= j < start.len() && start[j] == x;
            assert(out@[j] == x);
        }
    }
}

impl Board {
    /// Pseudo-legal moves of `color`: castles first, then pawns, en-passant captures,
    /// rooks, bishops, knights, queens and the king.
    pub fn pseudo_legal_moves(&self, color: Turn) -> (r: Vec<LegalMove>)
        ensures
            forall|i: int| 0 <= i < r@.len() ==> pseudo_legal(*self, #[trigger] r@[i], color),
            forall|m: LegalMove| pseudo_legal(*self, m, color) ==> #[trigger] r@.contains(m),
    {
        let mut moves: Vec<LegalMove> = Vec::new();
        let king_side = Movement::can_castle_king_side(*self, color);
        if king_side {
            moves.push(LegalMove::king_side_castle(color));
        }
        let ghost c0 = moves@;
        let queen_side = Movement::can_castle_queen_side(*self, color);
        if queen_side {
            moves.push(LegalMove::queen_side_castle(color));
        }
        proof {
            if king_side {
                assert(moves@[0] == castle_move(CastleOptions::KingSide));
                assert(moves@.contains(castle_move(CastleOptions::KingSide)));
            }
            if queen_side {
                assert(moves@[moves@.len() - 1] == castle_move(CastleOptions::QueenSide));
                assert(moves@.contains(castle_move(CastleOptions::QueenSide)));
            }
        }
        let ghost v0 = moves@;
        add_piece_moves(*self, color, 5, false, &mut moves);
        let ghost v1 = moves@;
        add_piece_moves(*self, color, 5, true, &mut moves);
        let ghost v2 = moves@;
        add_piece_moves(*self, color, 0, false, &mut moves);
        let ghost v3 = moves@;
        add_piece_moves(*self, color, 2, false, &mut moves);
        let ghost v4 = moves@;
        add_piece_moves(*self, color, 1, false, &mut moves);
        let ghost v5 = moves@;
        add_piece_moves(*self, color, 3, false, &mut moves);
        let ghost v6 = moves@;
        add_piece_moves(*self, color, 4, false, &mut moves);
        proof {
            let b = *self;
            assert forall|m: LegalMove| pseudo_legal(b, m, color) implies #[trigger] moves@.contains(m) by {
                if m.castle == CastleOptions::KingSide || m.castle == CastleOptions::QueenSide {
                    assert(v0.contains(m));
                } else {
                    let (s, t) = choose|s: int, t: int|
                        0 <= s < 64 && 0 <= t < 64 && m == mv(s, t) && #[trigger] reaches(b, color, s, t);
                    if member(mask_at(b, base_of(color) + 5), s) && member(
                        en_passant_moves(b, color, s),
                        t,
                    ) {
                        assert(member(kind_moves(b, color, 5, true, s), t));
                        assert(v2.contains(mv(s, t)));
                    } else {
                        let kind = choose|kind: int|
                            0 <= kind < 6 && #[trigger] member(mask_at(b, base_of(color) + kind), s)
                                && member(piece_moves(type_of(color, kind), s, color, b.white_occ(), b.black_occ()), t);
                        assert(member(kind_moves(b, color, kind, false, s), t));
                        if kind == 5 {
                            assert(v1.contains(mv(s, t)));
                        } else if kind == 0 {
                            assert(v3.contains(mv(s, t)));
                        } else if kind == 2 {
                            assert(v4.contains(mv(s, t)));
                        } else if kind == 1 {
                            assert(v5.contains(mv(s, t)));
                        } else if kind == 3 {
                            assert(v6.contains(mv(s, t)));
                        } else {
                            assert(moves@.contains(mv(s, t)));
                        }
                    }
                }
            }
        }
        moves
    }

    /// Whether `color`'s king is safe once `legal_move` is played on a copy.
    fn is_move_legal(self, legal_move: LegalMove, playing_as: Turn) -> (r: bool)
        ensures
            r == leaves_king_safe(self, legal_move, playing_as),
    {
        let mut board_check = self;
        board_check.do_move(legal_move, playing_as);
        !Movement::check_for_check(playing_as, board_check)
    }

    /// The moves of `moves` that leave `playing_as`'s king safe, in their order.
    pub fn legalize_moves(&mut self, moves: Vec<LegalMove>, playing_as: Turn) -> (r: Vec<LegalMove>)
        ensures
            *final(self) == *old(self),
            r@ == safe_moves(*old(self), moves@, playing_as),
            forall|i: int| 0 <= i < r@.len() ==> moves@.contains(#[trigger] r@[i]) && leaves_king_safe(*old(self), r@[i], playing_as),
            forall|m: LegalMove| moves@.contains(m) && leaves_king_safe(*old(self), m, playing_as) ==> r@.contains(m),
    {
        let mut legal_moves: Vec<LegalMove> = Vec::new();
        let mut i: usize = 0;
        while i < moves.len()
            invariant
                i <= moves@.len(),
                forall|k: int| 0 <= k < legal_moves@.len() ==> moves@.contains(#[trigger] legal_moves@[k]) && leaves_king_safe(*self, legal_moves@[k], playing_as),
                forall|k: int| 0 <= k < i && leaves_king_safe(*self, moves@[k], playing_as) ==> legal_moves@.contains(#[trigger] moves@[k]),
                legal_moves@ == safe_moves(*self, moves@.take(i as int), playing_as),
            decreases moves@.len() - i,
        {
            let m = moves[i];
            let ghost before = legal_moves@;
            proof {
                reveal(Seq::filter);
                assert(moves@.take(i + 1).drop_last() =~= moves@.take(i as int));
                assert(moves@.take(i + 1).last() == moves@[i as int]);
            }
            if self.is_move_legal(m, playing_as) {
                legal_moves.push(m);
                proof {
                    assert(legal_moves@[before.len() as int] == m);
                    assert forall|k: int| 0 <= k < i + 1 && leaves_king_safe(*self, moves@[k], playing_as) implies legal_moves@.contains(#[trigger] moves@[k]) by {
                        if k < i {
                            let j = choose|j: int| 0 <= j < before.len() && before[j] == moves@[k];
                            assert(legal_moves@[j] == moves@[k]);
                        }
                    }
                    assert forall|k: int| 0 <= k < legal_moves@.len() implies moves@.contains(#[trigger] legal_moves@[k]) && leaves_king_safe(*self, legal_moves@[k], playing_as) by {
                        if k < before.len() {
                            assert(legal_moves@[k] == before[k]);
                        } else {
                            assert(moves@[i as int] == m);
                        }
                    }
                }
            }
            i = i + 1;
        }
        assert(moves@.take(i as int) =~= moves@);
        legal_moves
    }

    /// Legal moves of `color`: pseudo-legal moves that leave its king safe.
    pub fn get_moves(&self, color: Turn) -> (r: Vec<LegalMove>)
        ensures
            forall|i: int| 0 <= i < r@.len() ==> pseudo_legal(*self, #[trigger] r@[i], color) && leaves_king_safe(*self, r@[i], color),
            forall|m: LegalMove| pseudo_legal(*self, m, color) && leaves_king_safe(*self, m, color) ==> #[trigger] r@.contains(m),
    {
        let mut board_copy = *self;
        let candidates = self.pseudo_legal_moves(color);
        let ghost cand = candidates@;
        let r = board_copy.legalize_moves(candidates, color);
        proof {
            assert forall|i: int| 0 <= i < r@.len() implies pseudo_legal(*self, #[trigger] r@[i], color) && leaves_king_safe(*self, r@[i], color) by {
                assert(cand.contains(r@[i]));
                let j = choose|j: int| 0 <= j < cand.len() && cand[j] == r@[i];
                assert(pseudo_legal(*self, cand[j], color));
            }
        }
        r
    }
}


/// The destination mask of a piece of type `pt` on `s`: en-passant types take en
/// passant against the other side's double-stepped pawn.
pub open spec fn type_moves(b: Board, pt: PieceType, s: int, color: Turn) -> u64 {
    match pt {
        PieceType::WhitePawnEnPassant | PieceType::BlackPawnEnPassant => en_passant_mask(
            s,
            en_passant_of(b, opposite(color)),
            color,
        ),
        _ => piece_moves(pt, s, color, b.white_occ(), b.black_occ()),
    }
}

/// A piece of `pieces` on `s` moving as `pt` reaches `t`.
pub open spec fn piece_from_to(b: Board, pieces: u64, pt: PieceType, color: Turn, s: int, t: int) -> bool {
    0 <= s < 64 && 0 <= t < 64 && member(pieces, s) && member(type_moves(b, pt, s, color), t)
}

/// `m` is a plain move of a piece of `pieces` moving as `pt`.
pub open spec fn moves_from(b: Board, pieces: u64, pt: PieceType, color: Turn, m: LegalMove) -> bool {
    exists|s: int, t: int| m == mv(s, t) && #[trigger] piece_from_to(b, pieces, pt, color, s, t)
}

impl Board {
    /// Legal moves of `color`; the attack caches are refreshed on the way.
    pub fn extract_all_legal_moves_for_color(&mut self, color: Turn) -> (r: Vec<LegalMove>)
        ensures
            final(self).white_attacks == crate::movement::attacks(*old(self), Turn::White),
            final(self).black_attacks == crate::movement::attacks(*old(self), Turn::Black),
            forall|i: int| 0 <= i < r@.len() ==> pseudo_legal(*old(self), #[trigger] r@[i], color) && leaves_king_safe(*old(self), r@[i], color),
            forall|m: LegalMove| pseudo_legal(*old(self), m, color) && leaves_king_safe(*old(self), m, color) ==> #[trigger] r@.contains(m),
    {
        let r = self.get_moves(color);
        let white = Movement::get_color_attacks(Turn::White, *self);
        let black = Movement::get_color_attacks(Turn::Black, *self);
        self.white_attacks = white;
        self.black_attacks = black;
        r
    }

    /// Legal moves of the pieces in `pieces_bits`, each moving as `piece_type`.
    pub fn extract_pieces_moves_from_bitboard(self, pieces_bits: u64, color: Turn, piece_type: PieceType) -> (r: Vec<LegalMove>)
        ensures
            forall|i: int| 0 <= i < r@.len() ==> leaves_king_safe(self, #[trigger] r@[i], color) && moves_from(self, pieces_bits, piece_type, color, r@[i]),
            forall|q: int, t: int|
                #[trigger] piece_from_to(self, pieces_bits, piece_type, color, q, t) && leaves_king_safe(self, mv(q, t), color)
                    ==> r@.contains(mv(q, t)),
    {
        let ep = match color {
            Turn::White => self.b_en_passant,
            Turn::Black => self.w_en_passant,
        };
        let mut candidates: Vec<LegalMove> = Vec::new();
        let mut s: u64 = 0;
        while s < 64
            invariant
                s <= 64,
                ep == en_passant_of(self, opposite(color)),
                forall|i: int| 0 <= i < candidates@.len() ==> moves_from(self, pieces_bits, piece_type, color, #[trigger] candidates@[i]),
                forall|q: int, t: int|
                    #[trigger] piece_from_to(self, pieces_bits, piece_type, color, q, t) && q < s ==> candidates@.contains(mv(q, t)),
            decreases 64 - s,
        {
            if test_bit(pieces_bits, s) {
                proof {
                    lemma_single_square(s as int);
                }
                let piece = single(s);
                let mask = match piece_type {
                    PieceType::WhitePawnEnPassant | PieceType::BlackPawnEnPassant => Pawn::get_moves_enpassant(piece, ep, color),
                    _ => Movement::extract_piece_moves_from_bitboard(piece, color, piece_type, self),
                };
                let ghost before = candidates@;
                push_moves_to(s, mask, &mut candidates);
                proof {
                    assert forall|i: int| 0 <= i < candidates@.len() implies moves_from(self, pieces_bits, piece_type, color, #[trigger] candidates@[i]) by {
                        if i >= before.len() {
                            let t = choose|t: int| 0 <= t < 64 && member(mask, t) && candidates@[i] == mv(s as int, t);
                            assert(member(type_moves(self, piece_type, s as int, color), t));
                            assert(piece_from_to(self, pieces_bits, piece_type, color, s as int, t));
                        } else {
                            assert(candidates@[i] == before[i]);
                        }
                    }
                    assert(mask == type_moves(self, piece_type, s as int, color));
                    assert forall|q: int, t: int|
                        #[trigger] piece_from_to(self, pieces_bits, piece_type, color, q, t) && q < s + 1 implies candidates@.contains(mv(q, t)) by {
                        if q < s {
                            let j = choose|j: int| 0 <= j < before.len() && before[j] == mv(q, t);
                            assert(candidates@[j] == mv(q, t));
                        }
                    }
                }
            }
            s = s + 1;
        }
        let mut board_copy = self;
        let ghost cand = candidates@;
        let r = board_copy.legalize_moves(candidates, color);
        proof {
            assert forall|i: int| 0 <= i < r@.len() implies leaves_king_safe(self, #[trigger] r@[i], color) && moves_from(self, pieces_bits, piece_type, color, r@[i]) by {
                assert(cand.contains(r@[i]));
                let j = choose|j: int| 0 <= j < cand.len() && cand[j] == r@[i];
                assert(moves_from(self, pieces_bits, piece_type, color, cand[j]));
            }
        }
        r
    }

    pub fn can_castle_king_side(&self, playing_as: Turn) -> (r: bool)
        ensures
            r == king_side_castle_allowed(*self, playing_as),
    {
        Movement::can_castle_king_side(*self, playing_as)
    }

    pub fn can_castle_queen_side(&self, playing_as: Turn) -> (r: bool)
        ensures
            r == queen_side_castle_allowed(*self, playing_as),
    {
        Movement::can_castle_queen_side(*self, playing_as)
    }

    pub fn pub_get_knigth_moves_bitboard(self, knight_bits: u64, color: Turn) -> (r: u64)
        requires
            is_piece(knight_bits),
        ensures
            r == piece_moves(PieceType::WhiteKnight, square_of(knight_bits), color, self.white_occ(), self.black_occ()),
    {
        Movement::get_knigth_moves(knight_bits, color, self)
    }

    pub fn pub_get_pawn_moves_bitboard(self, pawn_bits: u64, color: Turn) -> (r: u64)
        requires
            is_piece(pawn_bits),
        ensures
            r == piece_moves(PieceType::WhitePawn, square_of(pawn_bits), color, self.white_occ(), self.black_occ()),
    {
        Movement::get_pawn_moves(pawn_bits, color, self.getWhiteBitboard(), self.getBlackBitboard())
    }

    pub fn pub_is_enpassant_bitboard(self, piece_bits: u64, en_passant_pos: u64) -> (r: bool)
        requires
            is_piece(piece_bits),
        ensures
            r == crate::pieces::beside(square_of(piece_bits), en_passant_pos),
    {
        Movement::is_enpassant(piece_bits, en_passant_pos)
    }

    pub fn pub_get_pawn_moves_enpassant_bitboard(self, pawn_bits: u64, enpassant_bits: u64, color: Turn) -> (r: u64)
        requires
            is_piece(pawn_bits),
        ensures
            r == en_passant_mask(square_of(pawn_bits), enpassant_bits, color),
    {
        Movement::get_pawn_moves_enpassant(pawn_bits, enpassant_bits, color)
    }

    pub fn pub_get_rook_moves_bitboard(self, rook_bits: u64, color: Turn) -> (r: u64)
        requires
            is_piece(rook_bits),
        ensures
            r == piece_moves(PieceType::WhiteRook, square_of(rook_bits), color, self.white_occ(), self.black_occ()),
    {
        Movement::get_rook_moves(rook_bits, color, self)
    }

    pub fn pub_get_bishop_moves_bitboard(self, bishop_bits: u64, color: Turn) -> (r: u64)
        requires
            is_piece(bishop_bits),
        ensures
            r == piece_moves(PieceType::WhiteBishop, square_of(bishop_bits), color, self.white_occ(), self.black_occ()),
    {
        Movement::get_bishop_moves(bishop_bits, color, self)
    }

    pub fn pub_get_queen_moves_bitboard(self, queen_bits: u64, color: Turn) -> (r: u64)
        requires
            is_piece(queen_bits),
        ensures
            r == piece_moves(PieceType::WhiteQueen, square_of(queen_bits), color, self.white_occ(), self.black_occ()),
    {
        Movement::get_queen_moves(queen_bits, color, self)
    }

    pub fn pub_get_king_moves_bitboard(self, king_bits: u64, color: Turn) -> (r: u64)
        requires
            is_piece(king_bits),
        ensures
            r == piece_moves(PieceType::WhiteKing, square_of(king_bits), color, self.white_occ(), self.black_occ()),
    {
        Movement::get_king_moves(king_bits, color, self)
    }
}

/// Move lists for the search.
pub struct AnalyzerMovement {}

impl AnalyzerMovement {
    /// Legal moves of `color` on `board`.
    pub fn get_moves(board: Board, color: Turn) -> (r: Vec<LegalMove>)
        ensures
            forall|i: int| 0 <= i < r@.len() ==> pseudo_legal(board, #[trigger] r@[i], color) && leaves_king_safe(board, r@[i], color),
            forall|m: LegalMove| pseudo_legal(board, m, color) && leaves_king_safe(board, m, color) ==> #[trigger] r@.contains(m),
    {
        board.get_moves(color)
    }

    /// Pseudo-legal moves of `color` on `board`.
    pub fn extract_all_moves_for_color(board: Board, color: Turn) -> (r: Vec<LegalMove>)
        ensures
            forall|i: int| 0 <= i < r@.len() ==> pseudo_legal(board, #[trigger] r@[i], color),
            forall|m: LegalMove| pseudo_legal(board, m, color) ==> #[trigger] r@.contains(m),
    {
        board.pseudo_legal_moves(color)
    }
}

impl Movement {
    /// `check_for` is in check and has no legal move.
    pub fn check_for_checkmate(check_for: Turn, board: Board) -> (r: bool)
        ensures
            r == checkmated(board, check_for),
    {
        let check = Movement::check_for_check(check_for, board);
        let moves = board.get_moves(check_for);
        proof {
            if moves@.len() > 0 {
                assert(pseudo_legal(board, moves@[0], check_for) && leaves_king_safe(board, moves@[0], check_for));
            }
            if has_legal_move(board, check_for) {
                let m = choose|m: LegalMove| pseudo_legal(board, m, check_for) && leaves_king_safe(board, m, check_for);
                assert(moves@.contains(m));
            }
        }
        check && moves.len() == 0
    }
}

} // verus!
