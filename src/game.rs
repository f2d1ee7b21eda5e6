//! A game between two players, and reading a human player's move.
use vstd::prelude::*;
use vstd::string::StringSliceAdditionalSpecFns;
use crate::board::{Board, Turn};
use crate::position::{CastleOptions, LegalMove, Position};
use crate::movement::Movement;
use crate::legal::checkmated;
use crate::apply::after_move;
use crate::fen::{FEN, start_position, describes};
use crate::search::{Analyzer, SEARCH_DEPTH, MATE_SCORE};

verus! {

/// Who plays a side.
#[derive(PartialEq, Eq, Structural, Clone, Copy, Debug)]
pub enum PlayerTypes {
    AI,
    HUMAN,
}

/// A source of moves.
pub trait Player {
    fn do_move(board: Board, color: Turn) -> LegalMove;
}

impl Player for Analyzer {
    fn do_move(board: Board, color: Turn) -> LegalMove {
        Analyzer::minimax(board, color, color, SEARCH_DEPTH, -MATE_SCORE, MATE_SCORE)
    }
}

/// A game: who plays each side, and the position.
pub struct Game {
    pub white: PlayerTypes,
    pub black: PlayerTypes,
    pub board: Board,
}

impl Game {
    /// A game from the starting position.
    pub fn setup(white: PlayerTypes, black: PlayerTypes) -> (g: Game)
        ensures
            g.white == white && g.black == black,
            start_position(g.board),
            g.board.disjoint(),
    {
        Game { white, black, board: Board::new() }
    }

    /// A game from the position the record `board_state` describes.
    pub fn setup_from_fenn(board_state: &str, white: PlayerTypes, black: PlayerTypes) -> (g: Game)
        ensures
            g.white == white && g.black == black,
            describes(g.board, board_state.spec_bytes()),
    {
        Game { white, black, board: FEN::get_board_from_fenn_str(board_state) }
    }

    /// Whether `color` is checkmated.
    pub fn is_checkmate(&self, color: Turn) -> (r: bool)
        ensures
            r == checkmated(self.board, color),
    {
        Movement::check_for_checkmate(color, self.board)
    }

    pub fn get_board(&self) -> (b: Board)
        ensures
            b == self.board,
    {
        self.board
    }

    pub fn get_board_copy(&self) -> (b: Board)
        ensures
            b == self.board,
    {
        self.board
    }

    /// Who plays the side to move.
    pub fn player_to_move(&self) -> (p: PlayerTypes)
        ensures
            p == (match self.board.turn {
                Turn::White => self.white,
                Turn::Black => self.black,
            }),
    {
        match self.board.turn {
            Turn::White => self.white,
            Turn::Black => self.black,
        }
    }

    /// Plays `movve` for the side to move.
    pub fn play(&mut self, movve: LegalMove)
        ensures
            final(self).white == old(self).white && final(self).black == old(self).black,
            final(self).board == after_move(old(self).board, movve, old(self).board.turn),
    {
        let turn = self.board.turn;
        self.board.do_move(movve, turn);
    }
}

/// A player at the console.
pub struct Human {}

/// Whether byte `c` is white space or a control character.
pub open spec fn blank(c: u8) -> bool {
    c <= 32
}

/// Index of the first byte at or after `i` that is not blank.
pub open spec fn trim_start(bytes: Seq<u8>, i: int) -> int
    decreases bytes.len() - i,
{
    if 0 <= i < bytes.len() && blank(bytes[i]) {
        trim_start(bytes, i + 1)
    } else {
        i
    }
}

/// End of `bytes[start..end]` once trailing blanks are dropped.
pub open spec fn trim_end(bytes: Seq<u8>, start: int, end: int) -> int
    decreases end - start,
{
    if start < end && blank(bytes[end - 1]) {
        trim_end(bytes, start, end - 1)
    } else {
        end
    }
}

/// Index of the first `;` in `bytes[i..end]`, or `end`.
pub open spec fn semicolon(bytes: Seq<u8>, i: int, end: int) -> int
    decreases end - i,
{
    if i < end && bytes[i] != 59 {
        semicolon(bytes, i + 1, end)
    } else {
        i
    }
}

/// The square written `<file><rank>` at the start of `bytes[start..end]`; an unreadable
/// file reads as the a-file and an unreadable rank as row -1.
pub open spec fn square_text(bytes: Seq<u8>, start: int, end: int) -> Position {
    Position {
        colum: if start < end && 97 <= bytes[start] <= 104 {
            (7 - (bytes[start] - 97)) as i8
        } else {
            7i8
        },
        row: if end - start >= 2 && 49 <= bytes[start + 1] <= 56 {
            (bytes[start + 1] - 49) as i8
        } else {
            -1i8
        },
    }
}

/// The move a line of input names: `O-O` or `O-O-O` castle, anything else is read as
/// `<file><rank>;<file><rank>`; blanks around the line are ignored.
pub open spec fn move_text(bytes: Seq<u8>) -> LegalMove {
    let s = trim_start(bytes, 0);
    let e = trim_end(bytes, s, bytes.len() as int);
    if e - s == 3 && bytes[s] == 79 && bytes[s + 1] == 45 && bytes[s + 2] == 79 {
        LegalMove {
            from: Position { colum: 0, row: 0 },
            to: Position { colum: 0, row: 0 },
            castle: CastleOptions::KingSide,
        }
    } else if e - s == 5 && bytes[s] == 79 && bytes[s + 1] == 45 && bytes[s + 2] == 79 && bytes[s + 3]
        == 45 && bytes[s + 4] == 79 {
        LegalMove {
            from: Position { colum: 0, row: 0 },
            to: Position { colum: 0, row: 0 },
            castle: CastleOptions::QueenSide,
        }
    } else {
        let k = semicolon(bytes, s, e);
        LegalMove {
            from: square_text(bytes, s, k),
            to: if k < e {
                square_text(bytes, k + 1, e)
            } else {
                square_text(bytes, e, e)
            },
            castle: CastleOptions::NoCastle,
        }
    }
}

/// The square written `<file><rank>` in `bytes[start..end]`.
fn read_square(bytes: &[u8], start: usize, end: usize) -> (p: Position)
    requires
        start <= end <= bytes@.len(),
    ensures
        p == square_text(bytes@, start as int, end as int),
{
    let mut colum: i8 = 7;
    let mut row: i8 = -1;
    if start < end && 97 <= bytes[start] && bytes[start] <= 104 {
        colum = 7 - (bytes[start] - 97) as i8;
    }
    if end - start >= 2 && 49 <= bytes[start + 1] && bytes[start + 1] <= 56 {
        row = (bytes[start + 1] - 49) as i8;
    }
    Position { colum, row }
}

impl Human {
    pub fn new() -> Human {
        Human {  }
    }

    /// The move written on a line: `<file><rank>;<file><rank>`, or `O-O` / `O-O-O` for
    /// castling. White space around the line is ignored.
    pub fn parse_move(line: &str) -> (m: LegalMove)
        ensures
            m == move_text(line.spec_bytes()),
    {
        let bytes = line.as_bytes();
        let mut start: usize = 0;
        while start < bytes.len() && bytes[start] <= 32
            invariant
                start <= bytes@.len(),
                bytes@ == line.spec_bytes(),
                trim_start(bytes@, start as int) == trim_start(bytes@, 0),
            decreases bytes@.len() - start,
        {
            start = start + 1;
        }
        let mut end: usize = bytes.len();
        while end > start && bytes[end - 1] <= 32
            invariant
                start <= end <= bytes@.len(),
                trim_end(bytes@, start as int, end as int) == trim_end(bytes@, start as int, bytes@.len() as int),
            decreases end,
        {
            end = end - 1;
        }
        let len = end - start;
        if len == 3 && bytes[start] == 79 && bytes[start + 1] == 45 && bytes[start + 2] == 79 {
            return LegalMove {
                from: Position { colum: 0, row: 0 },
                to: Position { colum: 0, row: 0 },
                castle: CastleOptions::KingSide,
            };
        }
        if len == 5 && bytes[start] == 79 && bytes[start + 1] == 45 && bytes[start + 2] == 79
            && bytes[start + 3] == 45 && bytes[start + 4] == 79 {
            return LegalMove {
                from: Position { colum: 0, row: 0 },
                to: Position { colum: 0, row: 0 },
                castle: CastleOptions::QueenSide,
            };
        }
        let mut split = start;
        while split < end && bytes[split] != 59
            invariant
                start <= split <= end <= bytes@.len(),
                semicolon(bytes@, split as int, end as int) == semicolon(bytes@, start as int, end as int),
            decreases end - split,
        {
            split = split + 1;
        }
        let from = read_square(bytes, start, split);
        let to = if split < end {
            read_square(bytes, split + 1, end)
        } else {
            read_square(bytes, end, end)
        };
        LegalMove { from, to, castle: CastleOptions::NoCastle }
    }
}

} // verus!
