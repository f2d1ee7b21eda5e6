//! Properties of the move generators and of castling, proved once for all positions.
use vstd::prelude::*;
use crate::bits::{member, group_bits};
use crate::board::{Board, Turn};
use crate::position::{CastleOptions, LegalMove};
use crate::pieces::{
    on_board, square, row_of, col_of, ray, ray_from, bishop_mask, rook_mask, en_passant_mask,
    en_passant_row, beside,
};
use crate::movement::{attacks, king_side_castle_allowed, queen_side_castle_allowed};
use crate::apply::{
    after_plain_move, after_move, mover_kind, pos_bit, is_en_passant_move, passed_pawn, PAWN, base_of,
    mask_at, lemma_do_move_keeps_disjoint,
};
use crate::legal::{type_of, mv, pseudo_legal, reaches, en_passant_moves};
use crate::movement::piece_moves;
use crate::bits::bit;
use crate::board::{ally_of, enemy_of};

verus! {

/// `t` lies `k >= 1` steps of `(dr, dc)` away from `(r, c)`.
pub open spec fn ahead(r: int, c: int, dr: int, dc: int, t: int) -> bool {
    exists|k: int| k >= 1 && #[trigger] (k * dr) == row_of(t) - r && k * dc == col_of(t) - c
}

/// `t` shares a diagonal with `s` and differs from it.
pub open spec fn on_diagonal(s: int, t: int) -> bool {
    let dr = row_of(t) - row_of(s);
    let dc = col_of(t) - col_of(s);
    dr != 0 && (dr == dc || dr == -dc)
}

/// `t` shares a row or a column with `s` and differs from it.
pub open spec fn on_line(s: int, t: int) -> bool {
    s != t && (row_of(t) == row_of(s) || col_of(t) == col_of(s))
}

/// Every square of a ray lies ahead of its start in the ray's direction: a walk never
/// wraps round an edge of the board.
pub proof fn lemma_ray_ahead(r: int, c: int, dr: int, dc: int, own: u64, enemy: u64, n: nat, t: int)
    requires
        -1 <= dr <= 1,
        -1 <= dc <= 1,
        member(ray(r, c, dr, dc, own, enemy, n), t),
    ensures
        ahead(r, c, dr, dc, t),
    decreases n,
{
    broadcast use group_bits;

    if n > 0 {
        let nr = r + dr;
        let nc = c + dc;
        if on_board(nr, nc) && !member(own, square(nr, nc)) {
            let sq = square(nr, nc);
            assert(sq / 8 == nr && sq % 8 == nc);
            if member(enemy, sq) || t == sq {
                assert(t == sq);
                assert(1 * dr == row_of(t) - r && 1 * dc == col_of(t) - c);
            } else {
                lemma_ray_ahead(nr, nc, dr, dc, own, enemy, (n - 1) as nat, t);
                let k = choose|k: int| k >= 1 && #[trigger] (k * dr) == row_of(t) - nr && k * dc == col_of(t) - nc;
                assert((k + 1) * dr == k * dr + dr && (k + 1) * dc == k * dc + dc) by (nonlinear_arith);
                assert((k + 1) * dr == row_of(t) - r);
            }
        }
    }
}

/// The squares strictly between `(r, c)` and the `k`-th step of `(dr, dc)` are on the
/// board and empty.
pub open spec fn clear_path(r: int, c: int, dr: int, dc: int, own: u64, enemy: u64, k: int) -> bool {
    forall|j: int| 1 <= j < k ==> #[trigger] free_step(r, c, dr, dc, own, enemy, j)
}

/// The `j`-th step of `(dr, dc)` from `(r, c)` is on the board and empty.
pub open spec fn free_step(r: int, c: int, dr: int, dc: int, own: u64, enemy: u64, j: int) -> bool {
    on_board(r + j * dr, c + j * dc) && !member(own, square(r + j * dr, c + j * dc)) && !member(
        enemy,
        square(r + j * dr, c + j * dc),
    )
}

/// A ray holds every square it can reach: the `k`-th step of `(dr, dc)`, when it is on
/// the board, holds no piece of its own side, and the squares before it are empty.
pub proof fn lemma_ray_reaches(r: int, c: int, dr: int, dc: int, own: u64, enemy: u64, n: nat, k: int)
    requires
        -1 <= dr <= 1,
        -1 <= dc <= 1,
        1 <= k <= n,
        on_board(r + k * dr, c + k * dc),
        !member(own, square(r + k * dr, c + k * dc)),
        clear_path(r, c, dr, dc, own, enemy, k),
    ensures
        member(ray(r, c, dr, dc, own, enemy, n), square(r + k * dr, c + k * dc)),
    decreases k,
{
    broadcast use group_bits;

    let nr = r + dr;
    let nc = c + dc;
    assert(1 * dr == dr && 1 * dc == dc);
    if k == 1 {
        assert(square(nr, nc) == square(r + k * dr, c + k * dc));
    } else {
        assert(free_step(r, c, dr, dc, own, enemy, 1));
        assert(nr + (k - 1) * dr == r + k * dr && nc + (k - 1) * dc == c + k * dc) by (nonlinear_arith)
            requires
                nr == r + dr,
                nc == c + dc,
        ;
        assert forall|j: int| 1 <= j < k - 1 implies #[trigger] free_step(nr, nc, dr, dc, own, enemy, j) by {
            assert(nr + j * dr == r + (j + 1) * dr && nc + j * dc == c + (j + 1) * dc) by (nonlinear_arith)
                requires
                    nr == r + dr,
                    nc == c + dc,
            ;
            assert(free_step(r, c, dr, dc, own, enemy, j + 1));
        }
        lemma_ray_reaches(nr, nc, dr, dc, own, enemy, (n - 1) as nat, k - 1);
    }
}

/// A bishop reaches every square along its diagonals up to and including the first
/// occupied one, unless that one holds a piece of its own side.
pub proof fn lemma_bishop_reaches(s: int, own: u64, enemy: u64, dr: int, dc: int, k: int)
    requires
        0 <= s < 64,
        dr == 1 || dr == -1,
        dc == 1 || dc == -1,
        k >= 1,
        on_board(row_of(s) + k * dr, col_of(s) + k * dc),
        !member(own, square(row_of(s) + k * dr, col_of(s) + k * dc)),
        clear_path(row_of(s), col_of(s), dr, dc, own, enemy, k),
    ensures
        member(bishop_mask(s, own, enemy), square(row_of(s) + k * dr, col_of(s) + k * dc)),
{
    broadcast use group_bits;

    assert(k <= 7) by {
        if dr == 1 {
            assert(k * dr == k);
        } else {
            assert(k * dr == -k) by (nonlinear_arith)
                requires
                    dr == -1,
            ;
        }
    }
    lemma_ray_reaches(row_of(s), col_of(s), dr, dc, own, enemy, 7, k);
}

/// A rook reaches every square along its row and column up to and including the first
/// occupied one, unless that one holds a piece of its own side.
pub proof fn lemma_rook_reaches(s: int, own: u64, enemy: u64, dr: int, dc: int, k: int)
    requires
        0 <= s < 64,
        (dr == 0 && (dc == 1 || dc == -1)) || (dc == 0 && (dr == 1 || dr == -1)),
        k >= 1,
        on_board(row_of(s) + k * dr, col_of(s) + k * dc),
        !member(own, square(row_of(s) + k * dr, col_of(s) + k * dc)),
        clear_path(row_of(s), col_of(s), dr, dc, own, enemy, k),
    ensures
        member(rook_mask(s, own, enemy), square(row_of(s) + k * dr, col_of(s) + k * dc)),
{
    broadcast use group_bits;

    assert(k <= 7) by {
        if dr == 1 {
            assert(k * dr == k);
        } else if dr == -1 {
            assert(k * dr == -k) by (nonlinear_arith)
                requires
                    dr == -1,
            ;
        } else if dc == 1 {
            assert(k * dc == k);
        } else {
            assert(k * dc == -k) by (nonlinear_arith)
                requires
                    dc == -1,
            ;
        }
    }
    lemma_ray_reaches(row_of(s), col_of(s), dr, dc, own, enemy, 7, k);
}

/// A bishop's destinations lie on its diagonals.
pub proof fn lemma_bishop_stays_on_diagonals(s: int, own: u64, enemy: u64, t: int)
    requires
        0 <= s < 64,
        member(bishop_mask(s, own, enemy), t),
    ensures
        on_diagonal(s, t),
{
    broadcast use group_bits;

    let r = row_of(s);
    let c = col_of(s);
    if member(ray_from(s, 1, 1, own, enemy), t) {
        lemma_ray_ahead(r, c, 1, 1, own, enemy, 7, t);
    } else if member(ray_from(s, 1, -1, own, enemy), t) {
        lemma_ray_ahead(r, c, 1, -1, own, enemy, 7, t);
    } else if member(ray_from(s, -1, 1, own, enemy), t) {
        lemma_ray_ahead(r, c, -1, 1, own, enemy, 7, t);
    } else {
        lemma_ray_ahead(r, c, -1, -1, own, enemy, 7, t);
    }
}

/// A rook's destinations lie on its row or its column.
pub proof fn lemma_rook_stays_on_lines(s: int, own: u64, enemy: u64, t: int)
    requires
        0 <= s < 64,
        member(rook_mask(s, own, enemy), t),
    ensures
        on_line(s, t),
{
    broadcast use group_bits;

    let r = row_of(s);
    let c = col_of(s);
    if member(ray_from(s, 1, 0, own, enemy), t) {
        lemma_ray_ahead(r, c, 1, 0, own, enemy, 7, t);
    } else if member(ray_from(s, -1, 0, own, enemy), t) {
        lemma_ray_ahead(r, c, -1, 0, own, enemy, 7, t);
    } else if member(ray_from(s, 0, 1, own, enemy), t) {
        lemma_ray_ahead(r, c, 0, 1, own, enemy, 7, t);
    } else {
        lemma_ray_ahead(r, c, 0, -1, own, enemy, 7, t);
    }
}

/// A ray never ends on a square of its own side.
pub proof fn lemma_ray_avoids_own(r: int, c: int, dr: int, dc: int, own: u64, enemy: u64, n: nat, t: int)
    requires
        member(ray(r, c, dr, dc, own, enemy, n), t),
    ensures
        !member(own, t),
    decreases n,
{
    broadcast use group_bits;

    if n > 0 {
        let nr = r + dr;
        let nc = c + dc;
        if on_board(nr, nc) && !member(own, square(nr, nc)) && !member(enemy, square(nr, nc)) {
            if t != square(nr, nc) {
                lemma_ray_avoids_own(nr, nc, dr, dc, own, enemy, (n - 1) as nat, t);
            }
        }
    }
}

/// The two sides' occupancies share no square on a board with disjoint masks.
pub proof fn lemma_sides_apart(b: Board, t: int)
    requires
        b.disjoint(),
    ensures
        !(member(b.white_occ(), t) && member(b.black_occ(), t)),
{
    broadcast use group_bits;

    assert(b.masks().len() == 12);
    if member(b.white_occ(), t) && member(b.black_occ(), t) {
        let i: int = if member(b.w_rooks, t) { 0 } else if member(b.w_knights, t) { 1 } else if member(b.w_bishops, t) {
            2
        } else if member(b.w_queen, t) { 3 } else if member(b.w_king, t) { 4 } else { 5 };
        let j: int = if member(b.b_rooks, t) { 6 } else if member(b.b_knights, t) { 7 } else if member(b.b_bishops, t) {
            8
        } else if member(b.b_queen, t) { 9 } else if member(b.b_king, t) { 10 } else { 11 };
        assert(member(b.masks()[i], t) && member(b.masks()[j], t));
    }
}

/// A destination a piece's movement pattern gives is never a square of its own side.
pub proof fn lemma_piece_moves_avoid_own(b: Board, color: Turn, kind: int, s: int, t: int)
    requires
        b.disjoint(),
        0 <= kind < 6,
        member(piece_moves(type_of(color, kind), s, color, b.white_occ(), b.black_occ()), t),
    ensures
        !member(b.side_occ(color), t),
{
    broadcast use group_bits;

    let w = b.white_occ();
    let k = b.black_occ();
    let own = ally_of(color, w, k);
    let other = enemy_of(color, w, k);
    lemma_sides_apart(b, t);
    if kind == 0 || kind == 2 || kind == 3 {
        let r = row_of(s);
        let c = col_of(s);
        if member(ray_from(s, 1, 1, own, other), t) {
            lemma_ray_avoids_own(r, c, 1, 1, own, other, 7, t);
        } else if member(ray_from(s, 1, -1, own, other), t) {
            lemma_ray_avoids_own(r, c, 1, -1, own, other, 7, t);
        } else if member(ray_from(s, -1, 1, own, other), t) {
            lemma_ray_avoids_own(r, c, -1, 1, own, other, 7, t);
        } else if member(ray_from(s, -1, -1, own, other), t) {
            lemma_ray_avoids_own(r, c, -1, -1, own, other, 7, t);
        } else if member(ray_from(s, 1, 0, own, other), t) {
            lemma_ray_avoids_own(r, c, 1, 0, own, other, 7, t);
        } else if member(ray_from(s, -1, 0, own, other), t) {
            lemma_ray_avoids_own(r, c, -1, 0, own, other, 7, t);
        } else if member(ray_from(s, 0, 1, own, other), t) {
            lemma_ray_avoids_own(r, c, 0, 1, own, other, 7, t);
        } else {
            lemma_ray_avoids_own(r, c, 0, -1, own, other, 7, t);
        }
    }
}

/// A plain move onto a square that holds no piece of the mover's side keeps the twelve
/// masks disjoint.
pub proof fn lemma_plain_target_keeps_disjoint(b: Board, color: Turn, s: int, t: int)
    requires
        b.disjoint(),
        0 <= s < 64,
        0 <= t < 64,
        !member(b.side_occ(color), t),
    ensures
        after_move(b, mv(s, t), color).disjoint(),
{
    let m = mv(s, t);
    assert(m.to.row as int == t / 8 && m.to.colum as int == t % 8);
    assert(pos_bit(m.to) == bit(t));
    let own = b.side_occ(color);
    let tt = t as u64;
    assert(own & bit(t) == 0) by {
        assert(!((own >> tt) & 1u64 == 1u64) && tt < 64 ==> own & (1u64 << tt) == 0u64) by (bit_vector);
    }
    lemma_do_move_keeps_disjoint(b, m, color);
}

/// A plain move that a piece's movement pattern gives keeps the twelve masks disjoint:
/// its destination holds no piece of the mover's side.
pub proof fn lemma_piece_move_keeps_disjoint(b: Board, color: Turn, kind: int, s: int, t: int)
    requires
        b.disjoint(),
        0 <= kind < 6,
        0 <= s < 64,
        0 <= t < 64,
        member(mask_at(b, base_of(color) + kind), s),
        member(piece_moves(type_of(color, kind), s, color, b.white_occ(), b.black_occ()), t),
    ensures
        after_move(b, mv(s, t), color).disjoint(),
{
    lemma_piece_moves_avoid_own(b, color, kind, s, t);
    lemma_plain_target_keeps_disjoint(b, color, s, t);
}

/// Every move the legal-move list can hold keeps the twelve masks disjoint: on a board
/// whose masks are disjoint, playing any pseudo-legal move (legal moves included) leaves
/// them disjoint.
pub proof fn lemma_legal_move_keeps_disjoint(b: Board, m: LegalMove, color: Turn)
    requires
        b.disjoint(),
        pseudo_legal(b, m, color),
    ensures
        after_move(b, m, color).disjoint(),
{
    broadcast use group_bits;

    if m.castle != CastleOptions::NoCastle {
        lemma_do_move_keeps_disjoint(b, m, color);
    } else {
        let (s, t) = choose|s: int, t: int|
            0 <= s < 64 && 0 <= t < 64 && m == mv(s, t) && #[trigger] reaches(b, color, s, t);
        if exists|kind: int|
            0 <= kind < 6 && #[trigger] member(mask_at(b, base_of(color) + kind), s) && member(
                piece_moves(type_of(color, kind), s, color, b.white_occ(), b.black_occ()),
                t,
            ) {
            let kind = choose|kind: int|
                0 <= kind < 6 && #[trigger] member(mask_at(b, base_of(color) + kind), s) && member(
                    piece_moves(type_of(color, kind), s, color, b.white_occ(), b.black_occ()),
                    t,
                );
            lemma_piece_move_keeps_disjoint(b, color, kind, s, t);
        } else {
            assert(member(en_passant_moves(b, color, s), t));
            assert(!member(b.occ(), t));
            lemma_plain_target_keeps_disjoint(b, color, s, t);
        }
    }
}

/// An en-passant capture is generated only for a pawn on its en-passant row with the
/// double-stepped enemy pawn right beside it.
pub proof fn lemma_en_passant_needs_neighbour(s: int, ep: u64, color: Turn)
    requires
        en_passant_mask(s, ep, color) != 0,
    ensures
        row_of(s) == en_passant_row(color),
        beside(s, ep),
{
}

/// Enemy pawns of `color` on `b`.
pub open spec fn enemy_pawns(b: Board, color: Turn) -> u64 {
    match color {
        Turn::White => b.b_pawns,
        Turn::Black => b.w_pawns,
    }
}

/// An en-passant capture removes the pawn that stepped past the destination, not a
/// piece on the destination square.
pub proof fn lemma_en_passant_takes_passed_pawn(b: Board, m: LegalMove, color: Turn)
    requires
        m.castle == CastleOptions::NoCastle,
        mover_kind(b, color, pos_bit(m.from)) == PAWN as int,
        is_en_passant_move(b, m, PAWN as int),
    ensures
        enemy_pawns(after_plain_move(b, m, color), color) == enemy_pawns(b, color) & !passed_pawn(
            pos_bit(m.to),
            color,
        ),
{
}

/// King-side castling is refused once the right is spent or the king has moved, when a
/// square between king and rook is occupied, or when the enemy attacks the king's path.
pub proof fn lemma_king_side_castle_conditions(b: Board, color: Turn)
    requires
        king_side_castle_allowed(b, color),
    ensures
        color == Turn::White ==> !b.has_w_king_side_castle && !b.w_king_has_moved && b.occ() & 0x6
            == 0 && attacks(b, Turn::Black) & 0xe == 0,
        color == Turn::Black ==> !b.has_b_king_side_castle && !b.b_king_has_moved && b.occ()
            & 0x600000000000000 == 0 && attacks(b, Turn::White) & 0xe00000000000000 == 0,
{
}

/// Queen-side castling is refused under the same conditions as king-side castling.
pub proof fn lemma_queen_side_castle_conditions(b: Board, color: Turn)
    requires
        queen_side_castle_allowed(b, color),
    ensures
        color == Turn::White ==> !b.has_w_queen_side_castle && !b.w_king_has_moved && b.occ() & 0x70
            == 0 && attacks(b, Turn::Black) & 0x38 == 0,
        color == Turn::Black ==> !b.has_b_queen_side_castle && !b.b_king_has_moved && b.occ()
            & 0x7000000000000000 == 0 && attacks(b, Turn::White) & 0x3800000000000000 == 0,
{
}

} // verus!
