//! Reading a position from its record in Forsyth-Edwards notation.
use vstd::prelude::*;
use vstd::string::StringSliceAdditionalSpecFns;
use crate::bits::{bit, member, test_bit, single};
use crate::board::{Board, Turn};
use crate::apply::{lemma_place_keeps_disjoint, lemma_with_mask_masks};

verus! {

pub struct FEN {}

/// Mask number (in the order of `Board::masks`) of the piece letter `c`, or 12 for a
/// byte that names no piece.
pub open spec fn piece_of(c: u8) -> int {
    if c == 82 {
        0
    } else if c == 78 {
        1
    } else if c == 66 {
        2
    } else if c == 81 {
        3
    } else if c == 75 {
        4
    } else if c == 80 {
        5
    } else if c == 114 {
        6
    } else if c == 110 {
        7
    } else if c == 98 {
        8
    } else if c == 113 {
        9
    } else if c == 107 {
        10
    } else if c == 112 {
        11
    } else {
        12
    }
}

/// Squares held by any of the twelve masks `m`.
pub open spec fn occupied(m: Seq<u64>) -> u64 {
    (m[0] | m[1] | m[2] | m[3] | m[4] | m[5]) | (m[6] | m[7] | m[8] | m[9] | m[10] | m[11])
}

/// Row, column counted from the a-file, and the twelve masks after the placement
/// field's bytes `bytes[0..n]`: ranks run from 8 down to 1 separated by `/`, a digit
/// skips that many squares, a piece letter puts its piece on the next square unless the
/// square is off the board or already taken, and any other byte is skipped.
pub open spec fn place_state(bytes: Seq<u8>, n: int) -> (int, int, Seq<u64>)
    decreases n,
{
    if n <= 0 || n > bytes.len() {
        (7, 0, Seq::new(12, |i: int| 0u64))
    } else {
        let (row, col, m) = place_state(bytes, n - 1);
        let c = bytes[n - 1];
        if c == 47 {
            (if row > -64 {
                row - 1
            } else {
                row
            }, 0, m)
        } else if 49 <= c <= 56 {
            (row, if col < 64 {
                col + (c - 48)
            } else {
                col
            }, m)
        } else if piece_of(c) < 12 {
            let k = piece_of(c);
            let sq = row * 8 + (7 - col);
            let m2 = if 0 <= row < 8 && col < 8 && !member(occupied(m), sq) {
                m.update(k, m[k] | bit(sq))
            } else {
                m
            };
            (row, if col < 64 {
                col + 1
            } else {
                col
            }, m2)
        } else {
            (row, col, m)
        }
    }
}

/// The twelve masks the placement field of the record `bytes` gives.
pub open spec fn placed(bytes: Seq<u8>) -> Seq<u64> {
    place_state(bytes, end_from(bytes, 0)).2
}

/// Index of the first byte at or after `i` that is not a space.
pub open spec fn skip_from(bytes: Seq<u8>, i: int) -> int
    decreases bytes.len() - i,
{
    if i < 0 || i >= bytes.len() || bytes[i] != 32 {
        i
    } else {
        skip_from(bytes, i + 1)
    }
}

/// Index of the first space at or after `i`, or the length.
pub open spec fn end_from(bytes: Seq<u8>, i: int) -> int
    decreases bytes.len() - i,
{
    if i < 0 || i >= bytes.len() || bytes[i] == 32 {
        i
    } else {
        end_from(bytes, i + 1)
    }
}

/// Start and end of field `k` of a record whose fields are separated by spaces.
pub open spec fn field(bytes: Seq<u8>, k: nat) -> (int, int)
    decreases k,
{
    if k == 0 {
        (0, end_from(bytes, 0))
    } else {
        let start = skip_from(bytes, field(bytes, (k - 1) as nat).1);
        (start, end_from(bytes, start))
    }
}

/// Whether byte `c` occurs in `bytes[start..end]`.
pub open spec fn holds_byte(bytes: Seq<u8>, start: int, end: int, c: u8) -> bool {
    exists|j: int| start <= j < end && bytes[j] == c
}

/// `bytes[start..end]` are all decimal digits.
pub open spec fn all_digits(bytes: Seq<u8>, start: int, end: int) -> bool {
    forall|j: int| start <= j < end ==> 48 <= #[trigger] bytes[j] <= 57
}

/// Decimal value of the digits `bytes[start..end]`.
pub open spec fn decimal(bytes: Seq<u8>, start: int, end: int) -> int
    decreases end - start,
{
    if end <= start {
        0
    } else {
        decimal(bytes, start, end - 1) * 10 + (bytes[end - 1] - 48)
    }
}

/// A move counter as the record gives it: its value when it is a number that fits an
/// `i8`, else 0.
pub open spec fn counter(bytes: Seq<u8>, start: int, end: int) -> int {
    if start < end && all_digits(bytes, start, end) && decimal(bytes, start, end) <= 127 {
        decimal(bytes, start, end)
    } else {
        0
    }
}

/// Side to move the record names: Black for a lone `b`, else White.
pub open spec fn turn_of(bytes: Seq<u8>) -> Turn {
    let (s, e) = field(bytes, 1);
    if e - s == 1 && bytes[s] == 98 {
        Turn::Black
    } else {
        Turn::White
    }
}

/// The castling right written `c` is spent: the castling field does not hold it.
pub open spec fn right_spent(bytes: Seq<u8>, c: u8) -> bool {
    let (s, e) = field(bytes, 2);
    !holds_byte(bytes, s, e, c)
}

/// En-passant mask the record gives when its en-passant square is on rank `rank` (the
/// digit's byte): the square of the pawn that stepped past it, on row `row`.
pub open spec fn en_passant_field(bytes: Seq<u8>, rank: u8, row: int) -> u64 {
    let (s, e) = field(bytes, 3);
    if e - s == 2 && 97 <= bytes[s] <= 104 && bytes[s + 1] == rank {
        bit(row * 8 + 7 - (bytes[s] - 97))
    } else {
        0u64
    }
}

/// Move counter in field `k`.
pub open spec fn counter_field(bytes: Seq<u8>, k: nat) -> int {
    counter(bytes, field(bytes, k).0, field(bytes, k).1)
}

/// `b` is a board the record `bytes` gives: its masks are those the placement field
/// gives, and disjoint, and side to move,
/// castling rights, en-passant masks and counters are those the record's fields name.
pub open spec fn describes(b: Board, bytes: Seq<u8>) -> bool {
    &&& b.masks() == placed(bytes)
    &&& b.disjoint()
    &&& b.white_attacks == 0 && b.black_attacks == 0
    &&& b.turn == turn_of(bytes)
    &&& b.has_w_king_side_castle == right_spent(bytes, 75)
    &&& b.has_w_queen_side_castle == right_spent(bytes, 81)
    &&& b.has_b_king_side_castle == right_spent(bytes, 107)
    &&& b.has_b_queen_side_castle == right_spent(bytes, 113)
    &&& b.w_en_passant == en_passant_field(bytes, 51, 3)
    &&& b.b_en_passant == en_passant_field(bytes, 54, 4)
    &&& b.half_move_count as int == counter_field(bytes, 4)
    &&& b.full_move_count as int == counter_field(bytes, 5)
    &&& !b.w_king_has_moved && !b.b_king_has_moved
}

proof fn lemma_decimal_grows(bytes: Seq<u8>, start: int, end: int, k: int)
    requires
        start <= k <= end,
        all_digits(bytes, start, end),
    ensures
        0 <= decimal(bytes, start, k) <= decimal(bytes, start, end),
    decreases end - k,
{
    if k < end {
        lemma_decimal_grows(bytes, start, end, k + 1);
        assert(48 <= bytes[k] <= 57);
        lemma_decimal_nonneg(bytes, start, k);
    } else {
        lemma_decimal_nonneg(bytes, start, end);
    }
}

proof fn lemma_decimal_nonneg(bytes: Seq<u8>, start: int, end: int)
    requires
        all_digits(bytes, start, end),
    ensures
        0 <= decimal(bytes, start, end),
    decreases end - start,
{
    if end > start {
        lemma_decimal_nonneg(bytes, start, end - 1);
        assert(48 <= bytes[end - 1] <= 57);
    }
}

/// Mask number (in the order of `Board::masks`) of the piece letter `c`, or 12.
fn piece_index(c: u8) -> (k: usize)
    ensures
        k as int == piece_of(c),
{
    if c == 82 {
        0
    } else if c == 78 {
        1
    } else if c == 66 {
        2
    } else if c == 81 {
        3
    } else if c == 75 {
        4
    } else if c == 80 {
        5
    } else if c == 114 {
        6
    } else if c == 110 {
        7
    } else if c == 98 {
        8
    } else if c == 113 {
        9
    } else if c == 107 {
        10
    } else if c == 112 {
        11
    } else {
        12
    }
}

/// Reads a decimal number from `bytes[start..end]`; 0 unless it is all digits and fits
/// an `i8`.
fn parse_count(bytes: &[u8], start: usize, end: usize) -> (r: i8)
    requires
        start <= end <= bytes@.len(),
    ensures
        r as int == counter(bytes@, start as int, end as int),
{
    if start == end {
        return 0;
    }
    let mut value: i64 = 0;
    let mut i: usize = start;
    while i < end
        invariant
            start <= i <= end <= bytes@.len(),
            0 <= value <= 127,
            value as int == decimal(bytes@, start as int, i as int),
            all_digits(bytes@, start as int, i as int),
        decreases end - i,
    {
        let c = bytes[i];
        if c < 48 || c > 57 {
            proof {
                assert(!all_digits(bytes@, start as int, end as int));
            }
            return 0;
        }
        value = value * 10 + (c - 48) as i64;
        proof {
            assert(all_digits(bytes@, start as int, i + 1)) by {
                assert forall|j: int| start <= j < i + 1 implies 48 <= #[trigger] bytes@[j] <= 57 by {
                    if j < i {
                        assert(48 <= bytes@[j] <= 57);
                    }
                }
            }
        }
        if value > 127 {
            proof {
                if all_digits(bytes@, start as int, end as int) {
                    lemma_decimal_grows(bytes@, start as int, end as int, i + 1);
                }
            }
            return 0;
        }
        i = i + 1;
    }
    value as i8
}

/// Index just past the run of bytes other than a space that starts at `i`.
fn field_end(bytes: &[u8], i: usize) -> (r: usize)
    requires
        i <= bytes@.len(),
    ensures
        i <= r <= bytes@.len(),
        r as int == end_from(bytes@, i as int),
{
    let mut j = i;
    while j < bytes.len() && bytes[j] != 32
        invariant
            i <= j <= bytes@.len(),
            end_from(bytes@, j as int) == end_from(bytes@, i as int),
        decreases bytes@.len() - j,
    {
        j = j + 1;
    }
    j
}

/// Index of the first byte other than a space at or after `i`.
fn skip_spaces(bytes: &[u8], i: usize) -> (r: usize)
    requires
        i <= bytes@.len(),
    ensures
        i <= r <= bytes@.len(),
        r as int == skip_from(bytes@, i as int),
{
    let mut j = i;
    while j < bytes.len() && bytes[j] == 32
        invariant
            i <= j <= bytes@.len(),
            skip_from(bytes@, j as int) == skip_from(bytes@, i as int),
        decreases bytes@.len() - j,
    {
        j = j + 1;
    }
    j
}

impl FEN {
    /// The position the record describes: piece placement, side to move, castling
    /// rights, en-passant square and the two move counters. Unknown letters are skipped;
    /// a piece never lands on a square already taken; a counter that is not a number
    /// reads as 0. The en-passant square is kept as the square of the pawn that stepped
    /// past it.
    pub fn get_board_from_fenn_str(fen_str: &str) -> (b: Board)
        ensures
            describes(b, fen_str.spec_bytes()),
    {
        FEN::parse(fen_str.as_bytes())
    }

    /// The position a record given as bytes describes.
    pub fn parse(bytes: &[u8]) -> (b: Board)
        ensures
            describes(b, bytes@),
    {
        let mut board = Board::new_empty();
        let n = bytes.len();
        assert(board.masks() == place_state(bytes@, 0).2);
        let mut i: usize = 0;
        let mut row: i64 = 7;
        let mut col: i64 = 0;
        while i < n && bytes[i] != 32
            invariant
                i <= n == bytes@.len(),
                -64 <= row <= 7,
                0 <= col <= 72,
                board.disjoint(),
                board.white_attacks == 0 && board.black_attacks == 0,
                end_from(bytes@, i as int) == end_from(bytes@, 0),
                row == place_state(bytes@, i as int).0,
                col == place_state(bytes@, i as int).1,
                board.masks() == place_state(bytes@, i as int).2,
                board.turn == Turn::White,
                board.w_en_passant == 0 && board.b_en_passant == 0,
                !board.w_king_has_moved && !board.b_king_has_moved,
            decreases n - i,
        {
            let c = bytes[i];
            if c == 47 {
                if row > -64 {
                    row = row - 1;
                }
                col = 0;
            } else if 49 <= c && c <= 56 {
                if col < 64 {
                    col = col + (c - 48) as i64;
                }
            } else {
                let k = piece_index(c);
                if k < 12 {
                    if 0 <= row && row < 8 && col < 8 {
                        let sq: u64 = (row * 8 + (7 - col)) as u64;
                        assert(occupied(board.masks()) == board.occ());
                        if !test_bit(board.getOcupancy(), sq) {
                            proof {
                                lemma_place_keeps_disjoint(board, k as int, sq as int);
                            }
                            let m = board.mask(k) | single(sq);
                            let ghost before = board;
                            board.set_mask(k, m);
                            proof {
                                lemma_with_mask_masks(before, k as int, m);
                            }
                        }
                    }
                    if col < 64 {
                        col = col + 1;
                    }
                }
            }
            i = i + 1;
        }
        assert(i as int == field(bytes@, 0).1);
        i = skip_spaces(bytes, i);
        let end = field_end(bytes, i);
        assert(i as int == field(bytes@, 1).0 && end as int == field(bytes@, 1).1);
        if end - i == 1 {
            if bytes[i] == 98 {
                board.turn = Turn::Black;
            } else if bytes[i] == 119 {
                board.turn = Turn::White;
            }
        }
        i = skip_spaces(bytes, end);
        let end = field_end(bytes, i);
        board.has_w_king_side_castle = true;
        board.has_w_queen_side_castle = true;
        board.has_b_king_side_castle = true;
        board.has_b_queen_side_castle = true;
        assert(i as int == field(bytes@, 2).0 && end as int == field(bytes@, 2).1);
        let ghost t = board.turn;
        let mut j = i;
        while j < end
            invariant
                i <= j <= end <= bytes@.len(),
                board.disjoint(),
                board.white_attacks == 0 && board.black_attacks == 0,
                board.turn == t,
                board.w_en_passant == 0 && board.b_en_passant == 0,
                !board.w_king_has_moved && !board.b_king_has_moved,
                board.has_w_king_side_castle == !holds_byte(bytes@, i as int, j as int, 75),
                board.has_w_queen_side_castle == !holds_byte(bytes@, i as int, j as int, 81),
                board.has_b_king_side_castle == !holds_byte(bytes@, i as int, j as int, 107),
                board.has_b_queen_side_castle == !holds_byte(bytes@, i as int, j as int, 113),
                board.masks() == placed(bytes@),
            decreases end - j,
        {
            let c = bytes[j];
            if c == 75 {
                board.has_w_king_side_castle = false;
            } else if c == 81 {
                board.has_w_queen_side_castle = false;
            } else if c == 107 {
                board.has_b_king_side_castle = false;
            } else if c == 113 {
                board.has_b_queen_side_castle = false;
            }
            proof {
                assert forall|c: u8| holds_byte(bytes@, i as int, j + 1, c) == (holds_byte(bytes@, i as int, j as int, c) || bytes@[j as int] == c) by {
                    if holds_byte(bytes@, i as int, j + 1, c) && bytes@[j as int] != c {
                        let q = choose|q: int| i <= q < j + 1 && bytes@[q] == c;
                        assert(holds_byte(bytes@, i as int, j as int, c));
                    }
                    if bytes@[j as int] == c {
                        assert(bytes@[j as int] == c);
                    }
                }
            }
            j = j + 1;
        }
        i = skip_spaces(bytes, end);
        let end = field_end(bytes, i);
        assert(i as int == field(bytes@, 3).0 && end as int == field(bytes@, 3).1);
        if end - i == 2 && 97 <= bytes[i] && bytes[i] <= 104 {
            let column: u64 = 7 - (bytes[i] - 97) as u64;
            if bytes[i + 1] == 51 {
                board.w_en_passant = single(24 + column);
            } else if bytes[i + 1] == 54 {
                board.b_en_passant = single(32 + column);
            }
        }
        i = skip_spaces(bytes, end);
        let end = field_end(bytes, i);
        assert(i as int == field(bytes@, 4).0 && end as int == field(bytes@, 4).1);
        board.half_move_count = parse_count(bytes, i, end);
        i = skip_spaces(bytes, end);
        let end = field_end(bytes, i);
        assert(i as int == field(bytes@, 5).0 && end as int == field(bytes@, 5).1);
        board.full_move_count = parse_count(bytes, i, end);
        board
    }
}

/// The twelve masks of the starting position.
pub open spec fn start_masks(b: Board) -> bool {
    &&& b.w_rooks == 0x81u64
    &&& b.w_knights == 0x42u64
    &&& b.w_bishops == 0x24u64
    &&& b.w_queen == 0x10u64
    &&& b.w_king == 0x8u64
    &&& b.w_pawns == 0xff00u64
    &&& b.b_rooks == 0x8100000000000000u64
    &&& b.b_knights == 0x4200000000000000u64
    &&& b.b_bishops == 0x2400000000000000u64
    &&& b.b_queen == 0x1000000000000000u64
    &&& b.b_king == 0x800000000000000u64
    &&& b.b_pawns == 0xff000000000000u64
}

/// The standard starting position: the starting masks, White to move, no castling right
/// spent, no king moved, no en-passant square, counters 0 and 1.
pub open spec fn start_position(b: Board) -> bool {
    &&& start_masks(b)
    &&& b.turn == Turn::White
    &&& !b.has_w_king_side_castle && !b.has_w_queen_side_castle && !b.w_king_has_moved
    &&& !b.has_b_king_side_castle && !b.has_b_queen_side_castle && !b.b_king_has_moved
    &&& b.w_en_passant == 0 && b.b_en_passant == 0
    &&& b.half_move_count == 0 && b.full_move_count == 1
    &&& b.white_attacks == 0 && b.black_attacks == 0
}

proof fn lemma_start_disjoint(b: Board)
    requires
        start_masks(b),
    ensures
        b.disjoint(),
{
    broadcast use crate::bits::group_bits;

    assert(
        0x81u64 & 0x42u64 == 0u64 &&
        0x81u64 & 0x24u64 == 0u64 &&
        0x81u64 & 0x10u64 == 0u64 &&
        0x81u64 & 0x8u64 == 0u64 &&
        0x81u64 & 0xff00u64 == 0u64 &&
        0x81u64 & 0x8100000000000000u64 == 0u64 &&
        0x81u64 & 0x4200000000000000u64 == 0u64 &&
        0x81u64 & 0x2400000000000000u64 == 0u64 &&
        0x81u64 & 0x1000000000000000u64 == 0u64 &&
        0x81u64 & 0x800000000000000u64 == 0u64 &&
        0x81u64 & 0xff000000000000u64 == 0u64 &&
        0x42u64 & 0x24u64 == 0u64 &&
        0x42u64 & 0x10u64 == 0u64 &&
        0x42u64 & 0x8u64 == 0u64 &&
        0x42u64 & 0xff00u64 == 0u64 &&
        0x42u64 & 0x8100000000000000u64 == 0u64 &&
        0x42u64 & 0x4200000000000000u64 == 0u64 &&
        0x42u64 & 0x2400000000000000u64 == 0u64 &&
        0x42u64 & 0x1000000000000000u64 == 0u64 &&
        0x42u64 & 0x800000000000000u64 == 0u64 &&
        0x42u64 & 0xff000000000000u64 == 0u64 &&
        0x24u64 & 0x10u64 == 0u64 &&
        0x24u64 & 0x8u64 == 0u64 &&
        0x24u64 & 0xff00u64 == 0u64 &&
        0x24u64 & 0x8100000000000000u64 == 0u64 &&
        0x24u64 & 0x4200000000000000u64 == 0u64 &&
        0x24u64 & 0x2400000000000000u64 == 0u64 &&
        0x24u64 & 0x1000000000000000u64 == 0u64 &&
        0x24u64 & 0x800000000000000u64 == 0u64 &&
        0x24u64 & 0xff000000000000u64 == 0u64 &&
        0x10u64 & 0x8u64 == 0u64 &&
        0x10u64 & 0xff00u64 == 0u64 &&
        0x10u64 & 0x8100000000000000u64 == 0u64 &&
        0x10u64 & 0x4200000000000000u64 == 0u64 &&
        0x10u64 & 0x2400000000000000u64 == 0u64 &&
        0x10u64 & 0x1000000000000000u64 == 0u64 &&
        0x10u64 & 0x800000000000000u64 == 0u64 &&
        0x10u64 & 0xff000000000000u64 == 0u64 &&
        0x8u64 & 0xff00u64 == 0u64 &&
        0x8u64 & 0x8100000000000000u64 == 0u64 &&
        0x8u64 & 0x4200000000000000u64 == 0u64 &&
        0x8u64 & 0x2400000000000000u64 == 0u64 &&
        0x8u64 & 0x1000000000000000u64 == 0u64 &&
        0x8u64 & 0x800000000000000u64 == 0u64 &&
        0x8u64 & 0xff000000000000u64 == 0u64 &&
        0xff00u64 & 0x8100000000000000u64 == 0u64 &&
        0xff00u64 & 0x4200000000000000u64 == 0u64 &&
        0xff00u64 & 0x2400000000000000u64 == 0u64 &&
        0xff00u64 & 0x1000000000000000u64 == 0u64 &&
        0xff00u64 & 0x800000000000000u64 == 0u64 &&
        0xff00u64 & 0xff000000000000u64 == 0u64 &&
        0x8100000000000000u64 & 0x4200000000000000u64 == 0u64 &&
        0x8100000000000000u64 & 0x2400000000000000u64 == 0u64 &&
        0x8100000000000000u64 & 0x1000000000000000u64 == 0u64 &&
        0x8100000000000000u64 & 0x800000000000000u64 == 0u64 &&
        0x8100000000000000u64 & 0xff000000000000u64 == 0u64 &&
        0x4200000000000000u64 & 0x2400000000000000u64 == 0u64 &&
        0x4200000000000000u64 & 0x1000000000000000u64 == 0u64 &&
        0x4200000000000000u64 & 0x800000000000000u64 == 0u64 &&
        0x4200000000000000u64 & 0xff000000000000u64 == 0u64 &&
        0x2400000000000000u64 & 0x1000000000000000u64 == 0u64 &&
        0x2400000000000000u64 & 0x800000000000000u64 == 0u64 &&
        0x2400000000000000u64 & 0xff000000000000u64 == 0u64 &&
        0x1000000000000000u64 & 0x800000000000000u64 == 0u64 &&
        0x1000000000000000u64 & 0xff000000000000u64 == 0u64 &&
        0x800000000000000u64 & 0xff000000000000u64 == 0u64
    ) by (bit_vector);
    let m = b.masks();
    assert forall|i: int, j: int, s: int|
        0 <= i < m.len() && 0 <= j < m.len() && i != j implies !(#[trigger] member(m[i], s) && #[trigger] member(m[j], s)) by {
        assert(i == 0 || i == 1 || i == 2 || i == 3 || i == 4 || i == 5 || i == 6 || i == 7 || i == 8 || i == 9 || i == 10 || i == 11);
        assert(j == 0 || j == 1 || j == 2 || j == 3 || j == 4 || j == 5 || j == 6 || j == 7 || j == 8 || j == 9 || j == 10 || j == 11);
        assert(member(m[i] & m[j], s) == (member(m[i], s) && member(m[j], s)));
        assert(m[i] & m[j] == m[j] & m[i]) by {
            let x = m[i];
            let y = m[j];
            assert(x & y == y & x) by (bit_vector);
        }
    }
}

impl Board {
    /// The standard starting position, White to move.
    pub fn new() -> (b: Board)
        ensures
            start_position(b),
            b.disjoint(),
    {
        let mut b = Board::new_from_values(
            0x81, 0x42, 0x24, 0x10, 0x8, 0xff00, 0x8100000000000000, 0x4200000000000000, 0x2400000000000000, 0x1000000000000000, 0x800000000000000, 0xff000000000000,
        );
        b.full_move_count = 1;
        proof {
            lemma_start_disjoint(b);
        }
        b
    }

    /// The position the record `board_fenn` describes.
    pub fn new_from_fenn_notation(board_fenn: &str) -> (b: Board)
        ensures
            describes(b, board_fenn.spec_bytes()),
    {
        FEN::get_board_from_fenn_str(board_fenn)
    }
}

} // verus!
