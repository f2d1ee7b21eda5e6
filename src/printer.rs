//! The text of a board: one letter per square.
use vstd::prelude::*;
use crate::bits::{member, test_bit};
use crate::board::Board;

verus! {

/// Letter of the piece on square `i` of `b` (upper case for White, lower case for Black,
/// `.` for an empty square); masks are read in the order of `Board::masks`.
pub open spec fn letter_at(b: Board, i: int) -> u8 {
    if member(b.w_rooks, i) {
        82
    } else if member(b.w_knights, i) {
        78
    } else if member(b.w_bishops, i) {
        66
    } else if member(b.w_queen, i) {
        81
    } else if member(b.w_king, i) {
        75
    } else if member(b.w_pawns, i) {
        80
    } else if member(b.b_rooks, i) {
        114
    } else if member(b.b_knights, i) {
        110
    } else if member(b.b_bishops, i) {
        98
    } else if member(b.b_queen, i) {
        113
    } else if member(b.b_king, i) {
        107
    } else if member(b.b_pawns, i) {
        112
    } else {
        46
    }
}

pub struct Printer {}

impl Printer {
    /// The letter of every square, square 0 first.
    pub fn piece_letters(board: Board) -> (r: Vec<u8>)
        ensures
            r@.len() == 64,
            forall|i: int| 0 <= i < 64 ==> r@[i] == letter_at(board, i),
    {
        let mut letters: Vec<u8> = Vec::new();
        let mut i: u64 = 0;
        while i < 64
            invariant
                i <= 64,
                letters@.len() == i,
                forall|k: int| 0 <= k < i ==> letters@[k] == letter_at(board, k),
            decreases 64 - i,
        {
            let c: u8 = if test_bit(board.w_rooks, i) {
                82
            } else if test_bit(board.w_knights, i) {
                78
            } else if test_bit(board.w_bishops, i) {
                66
            } else if test_bit(board.w_queen, i) {
                81
            } else if test_bit(board.w_king, i) {
                75
            } else if test_bit(board.w_pawns, i) {
                80
            } else if test_bit(board.b_rooks, i) {
                114
            } else if test_bit(board.b_knights, i) {
                110
            } else if test_bit(board.b_bishops, i) {
                98
            } else if test_bit(board.b_queen, i) {
                113
            } else if test_bit(board.b_king, i) {
                107
            } else if test_bit(board.b_pawns, i) {
                112
            } else {
                46
            };
            letters.push(c);
            i = i + 1;
        }
        letters
    }
}

} // verus!
