//! Destination masks for a single piece of each kind (pseudo-legal: the mover's own
//! king safety is not considered here).
use vstd::prelude::*;
use crate::bits::{bit, member, test_bit, single, lemma_or_assoc, lemma_or_zero, group_bits};
use crate::board::{Turn, ally_of, enemy_of};

verus! {

pub open spec fn on_board(r: int, c: int) -> bool {
    0 <= r < 8 && 0 <= c < 8
}

pub open spec fn square(r: int, c: int) -> int {
    r * 8 + c
}

pub open spec fn row_of(s: int) -> int {
    s / 8
}

pub open spec fn col_of(s: int) -> int {
    s % 8
}

/// `bits` holds exactly one square.
pub open spec fn is_piece(bits: u64) -> bool {
    exists|s: int| 0 <= s < 64 && bits == bit(s)
}

/// The square held by a one-square mask.
pub open spec fn square_of(bits: u64) -> int {
    choose|s: int| 0 <= s < 64 && bits == bit(s)
}

/// The square `(dr, dc)` away from `s`, when it is on the board and not held by `own`.
pub open spec fn jump_mask(s: int, dr: int, dc: int, own: u64) -> u64 {
    let r = row_of(s) + dr;
    let c = col_of(s) + dc;
    if on_board(r, c) && !member(own, square(r, c)) {
        bit(square(r, c))
    } else {
        0u64
    }
}

/// The squares reached from `(r, c)` by up to `n` steps of `(dr, dc)`: the walk stops
/// before a square held by `own`, and on a square held by `enemy`.
pub open spec fn ray(r: int, c: int, dr: int, dc: int, own: u64, enemy: u64, n: nat) -> u64
    decreases n,
{
    if n == 0 {
        0u64
    } else {
        let nr = r + dr;
        let nc = c + dc;
        if !on_board(nr, nc) || member(own, square(nr, nc)) {
            0u64
        } else if member(enemy, square(nr, nc)) {
            bit(square(nr, nc))
        } else {
            bit(square(nr, nc)) | ray(nr, nc, dr, dc, own, enemy, (n - 1) as nat)
        }
    }
}

pub open spec fn ray_from(s: int, dr: int, dc: int, own: u64, enemy: u64) -> u64 {
    ray(row_of(s), col_of(s), dr, dc, own, enemy, 7)
}

pub open spec fn knight_mask(s: int, own: u64) -> u64 {
    jump_mask(s, 1, 2, own) | jump_mask(s, 2, 1, own) | jump_mask(s, 2, -1, own) | jump_mask(
        s,
        1,
        -2,
        own,
    ) | jump_mask(s, -1, -2, own) | jump_mask(s, -2, -1, own) | jump_mask(s, -2, 1, own)
        | jump_mask(s, -1, 2, own)
}

pub open spec fn king_mask(s: int, own: u64) -> u64 {
    jump_mask(s, 1, -1, own) | jump_mask(s, 1, 0, own) | jump_mask(s, 1, 1, own) | jump_mask(
        s,
        0,
        -1,
        own,
    ) | jump_mask(s, 0, 1, own) | jump_mask(s, -1, -1, own) | jump_mask(s, -1, 0, own)
        | jump_mask(s, -1, 1, own)
}

pub open spec fn bishop_mask(s: int, own: u64, enemy: u64) -> u64 {
    ray_from(s, 1, 1, own, enemy) | ray_from(s, 1, -1, own, enemy) | ray_from(s, -1, 1, own, enemy)
        | ray_from(s, -1, -1, own, enemy)
}

pub open spec fn rook_mask(s: int, own: u64, enemy: u64) -> u64 {
    ray_from(s, 1, 0, own, enemy) | ray_from(s, -1, 0, own, enemy) | ray_from(s, 0, 1, own, enemy)
        | ray_from(s, 0, -1, own, enemy)
}

pub open spec fn queen_mask(s: int, own: u64, enemy: u64) -> u64 {
    rook_mask(s, own, enemy) | bishop_mask(s, own, enemy)
}

/// Row direction in which `color`'s pawns advance.
pub open spec fn forward(color: Turn) -> int {
    match color {
        Turn::White => 1,
        Turn::Black => -1,
    }
}

/// Row on which `color`'s pawns start.
pub open spec fn pawn_home(color: Turn) -> int {
    match color {
        Turn::White => 1,
        Turn::Black => 6,
    }
}

/// The diagonal square `(dr, dc)` away from `s`, when an enemy piece stands there.
pub open spec fn capture_mask(s: int, dr: int, dc: int, enemy: u64) -> u64 {
    let r = row_of(s) + dr;
    let c = col_of(s) + dc;
    if on_board(r, c) && member(enemy, square(r, c)) {
        bit(square(r, c))
    } else {
        0u64
    }
}

/// Pawn destinations: one step forward onto an empty square; two steps from the home
/// row when both squares are empty; a diagonal step forward onto an enemy piece.
pub open spec fn pawn_mask(s: int, color: Turn, white: u64, black: u64) -> u64 {
    let occ = white | black;
    let enemy = enemy_of(color, white, black);
    let f = forward(color);
    let r = row_of(s);
    let c = col_of(s);
    let one = square(r + f, c);
    let two = square(r + 2 * f, c);
    let single_step = if on_board(r + f, c) && !member(occ, one) {
        bit(one)
    } else {
        0u64
    };
    let double_step = if r == pawn_home(color) && !member(occ, one) && !member(occ, two) {
        bit(two)
    } else {
        0u64
    };
    single_step | double_step | capture_mask(s, f, -1, enemy) | capture_mask(s, f, 1, enemy)
}

/// Row on which a pawn of `color` may capture en passant.
pub open spec fn en_passant_row(color: Turn) -> int {
    match color {
        Turn::White => 4,
        Turn::Black => 3,
    }
}

/// Whether `ep` holds a square beside `s` on the same row.
pub open spec fn beside(s: int, ep: u64) -> bool {
    (col_of(s) >= 1 && member(ep, s - 1)) || (col_of(s) <= 6 && member(ep, s + 1))
}

/// En-passant destination: the square behind the enemy pawn in `ep`, when the pawn on
/// `s` stands on its en-passant row right beside it.
pub open spec fn en_passant_mask(s: int, ep: u64, color: Turn) -> u64 {
    if row_of(s) == en_passant_row(color) && beside(s, ep) {
        match color {
            Turn::White => ep << 8u64,
            Turn::Black => ep >> 8u64,
        }
    } else {
        0u64
    }
}

/// Index of the single square in `bits`.
pub fn square_index(bits: u64) -> (s: u64)
    requires
        is_piece(bits),
    ensures
        s < 64,
        s as int == square_of(bits),
{
    broadcast use group_bits;

    let ghost k = square_of(bits);
    let mut i: u64 = 0;
    assert(member(bits, k));
    while i < 64 && !test_bit(bits, i)
        invariant
            0 <= k < 64,
            bits == bit(k),
            member(bits, k),
            i <= k,
        decreases 64 - i,
    {
        i = i + 1;
    }
    i
}

/// The square `(dr, dc)` away from `s` unless it is off the board or held by `own`.
fn jump(s: u64, dr: i64, dc: i64, own: u64) -> (m: u64)
    requires
        s < 64,
        -2 <= dr <= 2,
        -2 <= dc <= 2,
    ensures
        m == jump_mask(s as int, dr as int, dc as int, own),
{
    let r: i64 = (s / 8) as i64 + dr;
    let c: i64 = (s % 8) as i64 + dc;
    if 0 <= r && r < 8 && 0 <= c && c < 8 {
        let t: u64 = (r * 8 + c) as u64;
        if test_bit(own, t) {
            0
        } else {
            single(t)
        }
    } else {
        0
    }
}

/// Walks from `s` in direction `(dr, dc)` and collects the squares passed over.
fn ray_walk(s: u64, dr: i64, dc: i64, own: u64, enemy: u64) -> (m: u64)
    requires
        s < 64,
        -1 <= dr <= 1,
        -1 <= dc <= 1,
    ensures
        m == ray_from(s as int, dr as int, dc as int, own, enemy),
{
    let ghost total = ray_from(s as int, dr as int, dc as int, own, enemy);
    let mut r: i64 = (s / 8) as i64;
    let mut c: i64 = (s % 8) as i64;
    let mut acc: u64 = 0;
    let mut n: u64 = 7;
    proof {
        lemma_or_zero(total);
    }
    loop
        invariant
            0 <= r < 8,
            0 <= c < 8,
            n <= 7,
            -1 <= dr <= 1,
            -1 <= dc <= 1,
            total == ray_from(s as int, dr as int, dc as int, own, enemy),
            acc | ray(r as int, c as int, dr as int, dc as int, own, enemy, n as nat) == total,
        decreases n,
    {
        if n == 0 {
            proof {
                lemma_or_zero(acc);
            }
            return acc;
        }
        let nr: i64 = r + dr;
        let nc: i64 = c + dc;
        let ghost cur = ray(r as int, c as int, dr as int, dc as int, own, enemy, n as nat);
        if !(0 <= nr && nr < 8 && 0 <= nc && nc < 8) {
            proof {
                lemma_or_zero(acc);
                assert(cur == 0u64);
            }
            return acc;
        }
        let t: u64 = (nr * 8 + nc) as u64;
        assert(t as int == square(nr as int, nc as int));
        if test_bit(own, t) {
            proof {
                lemma_or_zero(acc);
                assert(cur == 0u64);
            }
            return acc;
        }
        let b = single(t);
        if test_bit(enemy, t) {
            assert(cur == b);
            return acc | b;
        }
        proof {
            lemma_or_assoc(acc, b, ray(nr as int, nc as int, dr as int, dc as int, own, enemy, (n - 1) as nat));
        }
        acc = acc | b;
        r = nr;
        c = nc;
        n = n - 1;
    }
}

/// Squares `color`'s pieces stand on.
pub fn ally(color: Turn, white_bitboard: u64, black_bitboard: u64) -> (r: u64)
    ensures
        r == ally_of(color, white_bitboard, black_bitboard),
{
    match color {
        Turn::White => white_bitboard,
        Turn::Black => black_bitboard,
    }
}

/// Squares the opponent of `color` stands on.
pub fn enemy(color: Turn, white_bitboard: u64, black_bitboard: u64) -> (r: u64)
    ensures
        r == enemy_of(color, white_bitboard, black_bitboard),
{
    match color {
        Turn::White => black_bitboard,
        Turn::Black => white_bitboard,
    }
}

pub struct Knight {}

impl Knight {
    /// Knight jumps from the square in `knight_bits`, less the squares of its own side.
    pub fn get_moves(knight_bits: u64, color: Turn, white_bitboard: u64, black_bitboard: u64) -> (r: u64)
        requires
            is_piece(knight_bits),
        ensures
            r == knight_mask(square_of(knight_bits), ally_of(color, white_bitboard, black_bitboard)),
    {
        let s = square_index(knight_bits);
        let own = ally(color, white_bitboard, black_bitboard);
        jump(s, 1, 2, own) | jump(s, 2, 1, own) | jump(s, 2, -1, own) | jump(s, 1, -2, own) | jump(
            s,
            -1,
            -2,
            own,
        ) | jump(s, -2, -1, own) | jump(s, -2, 1, own) | jump(s, -1, 2, own)
    }
}

pub struct King {}

impl King {
    /// King steps from the square in `king_bits`, less the squares of its own side.
    pub fn get_moves(king_bits: u64, color: Turn, white_bitboard: u64, black_bitboard: u64) -> (r: u64)
        requires
            is_piece(king_bits),
        ensures
            r == king_mask(square_of(king_bits), ally_of(color, white_bitboard, black_bitboard)),
    {
        let s = square_index(king_bits);
        let own = ally(color, white_bitboard, black_bitboard);
        jump(s, 1, -1, own) | jump(s, 1, 0, own) | jump(s, 1, 1, own) | jump(s, 0, -1, own) | jump(
            s,
            0,
            1,
            own,
        ) | jump(s, -1, -1, own) | jump(s, -1, 0, own) | jump(s, -1, 1, own)
    }
}

pub struct Bishop {}

impl Bishop {
    /// The four diagonal rays from the square in `bishop_bits`.
    pub fn get_moves(bishop_bits: u64, color: Turn, white_bitboard: u64, black_bitboard: u64) -> (r: u64)
        requires
            is_piece(bishop_bits),
        ensures
            r == bishop_mask(
                square_of(bishop_bits),
                ally_of(color, white_bitboard, black_bitboard),
                enemy_of(color, white_bitboard, black_bitboard),
            ),
    {
        let s = square_index(bishop_bits);
        let own = ally(color, white_bitboard, black_bitboard);
        let other = enemy(color, white_bitboard, black_bitboard);
        ray_walk(s, 1, 1, own, other) | ray_walk(s, 1, -1, own, other) | ray_walk(s, -1, 1, own, other)
            | ray_walk(s, -1, -1, own, other)
    }
}

pub struct Rook {}

impl Rook {
    /// The four straight rays from the square in `rook_bits`.
    pub fn get_moves(rook_bits: u64, color: Turn, white_bitboard: u64, black_bitboard: u64) -> (r: u64)
        requires
            is_piece(rook_bits),
        ensures
            r == rook_mask(
                square_of(rook_bits),
                ally_of(color, white_bitboard, black_bitboard),
                enemy_of(color, white_bitboard, black_bitboard),
            ),
    {
        let s = square_index(rook_bits);
        let own = ally(color, white_bitboard, black_bitboard);
        let other = enemy(color, white_bitboard, black_bitboard);
        ray_walk(s, 1, 0, own, other) | ray_walk(s, -1, 0, own, other) | ray_walk(s, 0, 1, own, other)
            | ray_walk(s, 0, -1, own, other)
    }
}

pub struct Queen {}

impl Queen {
    /// The union of the rook and bishop rays from the square in `queen_bits`.
    pub fn get_moves(queen_bits: u64, color: Turn, white_bitboard: u64, black_bitboard: u64) -> (r: u64)
        requires
            is_piece(queen_bits),
        ensures
            r == queen_mask(
                square_of(queen_bits),
                ally_of(color, white_bitboard, black_bitboard),
                enemy_of(color, white_bitboard, black_bitboard),
            ),
    {
        Rook::get_moves(queen_bits, color, white_bitboard, black_bitboard) | Bishop::get_moves(
            queen_bits,
            color,
            white_bitboard,
            black_bitboard,
        )
    }
}

pub struct Pawn {}

impl Pawn {
    /// Pushes and captures of the pawn in `pawn_bits` (en passant excluded).
    pub fn get_moves(pawn_bits: u64, color: Turn, white_bitboard: u64, black_bitboard: u64) -> (r: u64)
        requires
            is_piece(pawn_bits),
        ensures
            r == pawn_mask(square_of(pawn_bits), color, white_bitboard, black_bitboard),
    {
        let s = square_index(pawn_bits);
        let occ = white_bitboard | black_bitboard;
        let other = enemy(color, white_bitboard, black_bitboard);
        let f: i64 = match color {
            Turn::White => 1,
            Turn::Black => -1,
        };
        let home: i64 = match color {
            Turn::White => 1,
            Turn::Black => 6,
        };
        let r: i64 = (s / 8) as i64;
        let c: i64 = (s % 8) as i64;
        let mut moves: u64 = 0;
        if 0 <= r + f && r + f < 8 {
            let one: u64 = ((r + f) * 8 + c) as u64;
            if !test_bit(occ, one) {
                moves = single(one);
            }
        }
        if r == home {
            let one: u64 = ((r + f) * 8 + c) as u64;
            let two: u64 = ((r + 2 * f) * 8 + c) as u64;
            if !test_bit(occ, one) && !test_bit(occ, two) {
                moves = moves | single(two);
            } else {
                proof {
                    lemma_or_zero(moves);
                }
            }
        } else {
            proof {
                lemma_or_zero(moves);
            }
        }
        moves | capture(s, f, -1, other) | capture(s, f, 1, other)
    }

    /// The en-passant capture of the pawn in `pawn_bits` against the enemy pawn in
    /// `unpassant_bits`.
    pub fn get_moves_enpassant(pawn_bits: u64, unpassant_bits: u64, color: Turn) -> (r: u64)
        requires
            is_piece(pawn_bits),
        ensures
            r == en_passant_mask(square_of(pawn_bits), unpassant_bits, color),
    {
        let s = square_index(pawn_bits);
        let row: u64 = s / 8;
        let col: u64 = s % 8;
        let target_row: u64 = match color {
            Turn::White => 4,
            Turn::Black => 3,
        };
        if row != target_row {
            return 0;
        }
        let near = (col >= 1 && test_bit(unpassant_bits, s - 1)) || (col <= 6 && test_bit(
            unpassant_bits,
            s + 1,
        ));
        if !near {
            return 0;
        }
        match color {
            Turn::White => unpassant_bits << 8,
            Turn::Black => unpassant_bits >> 8,
        }
    }
}

/// The diagonal square `(dr, dc)` away from `s` when an enemy piece stands there.
fn capture(s: u64, dr: i64, dc: i64, enemy: u64) -> (m: u64)
    requires
        s < 64,
        -1 <= dr <= 1,
        -1 <= dc <= 1,
    ensures
        m == capture_mask(s as int, dr as int, dc as int, enemy),
{
    let r: i64 = (s / 8) as i64 + dr;
    let c: i64 = (s % 8) as i64 + dc;
    if 0 <= r && r < 8 && 0 <= c && c < 8 {
        let t: u64 = (r * 8 + c) as u64;
        if test_bit(enemy, t) {
            single(t)
        } else {
            0
        }
    } else {
        0
    }
}

} // verus!
