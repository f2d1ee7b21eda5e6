//! Squares and moves.
use vstd::prelude::*;
use crate::board::{PieceType, Turn};

verus! {

/// Castling tag of a move.
#[derive(PartialEq, Eq, Structural, Clone, Copy, Debug)]
pub enum CastleOptions {
    NoCastle,
    KingSide,
    QueenSide,
}

/// A square by column (0 is the h-file) and row (0 is White's first rank).
#[derive(PartialEq, Eq, Structural, Clone, Copy, Debug)]
pub struct Position {
    pub colum: i8,
    pub row: i8,
}

/// A move: from-square, to-square and castling tag. For a castling move the squares are
/// not read; the king's and rook's squares follow from the colour and the tag.
#[derive(PartialEq, Eq, Structural, Clone, Copy, Debug)]
pub struct LegalMove {
    pub from: Position,
    pub to: Position,
    pub castle: CastleOptions,
}

impl LegalMove {
    pub fn new(from_row: i8, from_column: i8, to_row: i8, to_column: i8) -> (m: LegalMove)
        ensures
            m == (LegalMove {
                from: Position { colum: from_column, row: from_row },
                to: Position { colum: to_column, row: to_row },
                castle: CastleOptions::NoCastle,
            }),
    {
        LegalMove {
            from: Position { colum: from_column, row: from_row },
            to: Position { colum: to_column, row: to_row },
            castle: CastleOptions::NoCastle,
        }
    }

    pub fn king_side_castle(color: Turn) -> (m: LegalMove)
        ensures
            m == (LegalMove {
                from: Position { colum: 0, row: 0 },
                to: Position { colum: 0, row: 0 },
                castle: CastleOptions::KingSide,
            }),
    {
        LegalMove {
            from: Position { colum: 0, row: 0 },
            to: Position { colum: 0, row: 0 },
            castle: CastleOptions::KingSide,
        }
    }

    pub fn queen_side_castle(color: Turn) -> (m: LegalMove)
        ensures
            m == (LegalMove {
                from: Position { colum: 0, row: 0 },
                to: Position { colum: 0, row: 0 },
                castle: CastleOptions::QueenSide,
            }),
    {
        LegalMove {
            from: Position { colum: 0, row: 0 },
            to: Position { colum: 0, row: 0 },
            castle: CastleOptions::QueenSide,
        }
    }
}

/// Piece types as the move lists name them.
#[derive(PartialEq, Eq, Structural, Clone, Copy, Debug)]
pub enum AnalyzerPieceType {
    WhiteKing,
    WhiteQueen,
    WhiteRook,
    WhiteBishop,
    WhiteKnight,
    WhitePawn,
    WhitePawnEnPassant,
    BlackKing,
    BlackQueen,
    BlackRook,
    BlackBishop,
    BlackKnight,
    BlackPawn,
    BlackPawnEnPassant,
}

/// A move that carries the type of the piece making it, before any legality check.
#[derive(PartialEq, Eq, Structural, Clone, Copy, Debug)]
pub struct UnCheckedMove {
    pub from: Position,
    pub to: Position,
    pub piece: PieceType,
    pub castle: CastleOptions,
}

impl UnCheckedMove {
    pub fn new(from_row: i8, from_column: i8, to_row: i8, to_colum: i8, piece: PieceType) -> (m: UnCheckedMove)
        ensures
            m == (UnCheckedMove {
                from: Position { colum: from_column, row: from_row },
                to: Position { colum: to_colum, row: to_row },
                piece,
                castle: CastleOptions::NoCastle,
            }),
    {
        UnCheckedMove {
            from: Position { colum: from_column, row: from_row },
            to: Position { colum: to_colum, row: to_row },
            piece,
            castle: CastleOptions::NoCastle,
        }
    }

    pub fn to_legal_move(analyzer_move: UnCheckedMove) -> (m: LegalMove)
        ensures
            m == (LegalMove { from: analyzer_move.from, to: analyzer_move.to, castle: analyzer_move.castle }),
    {
        LegalMove { from: analyzer_move.from, to: analyzer_move.to, castle: analyzer_move.castle }
    }

    pub fn king_side_castle(color: Turn) -> (m: UnCheckedMove)
        ensures
            m.castle == CastleOptions::KingSide,
            m.piece == (match color {
                Turn::White => PieceType::WhiteKing,
                Turn::Black => PieceType::BlackKing,
            }),
            m.from == (Position { colum: 0, row: 0 }) && m.to == (Position { colum: 0, row: 0 }),
    {
        let piece = match color {
            Turn::White => PieceType::WhiteKing,
            Turn::Black => PieceType::BlackKing,
        };
        UnCheckedMove {
            from: Position { colum: 0, row: 0 },
            to: Position { colum: 0, row: 0 },
            piece,
            castle: CastleOptions::KingSide,
        }
    }

    pub fn queen_side_castle(color: Turn) -> (m: UnCheckedMove)
        ensures
            m.castle == CastleOptions::QueenSide,
            m.piece == (match color {
                Turn::White => PieceType::WhiteKing,
                Turn::Black => PieceType::BlackKing,
            }),
            m.from == (Position { colum: 0, row: 0 }) && m.to == (Position { colum: 0, row: 0 }),
    {
        let piece = match color {
            Turn::White => PieceType::WhiteKing,
            Turn::Black => PieceType::BlackKing,
        };
        UnCheckedMove {
            from: Position { colum: 0, row: 0 },
            to: Position { colum: 0, row: 0 },
            piece,
            castle: CastleOptions::QueenSide,
        }
    }
}

/// A move as the search lists it, with the type of the piece making it.
#[derive(PartialEq, Eq, Structural, Clone, Copy, Debug)]
pub struct AnalyzerMove {
    pub from: Position,
    pub to: Position,
    pub piece: AnalyzerPieceType,
    pub castle: CastleOptions,
}

impl AnalyzerMove {
    pub fn new(from_row: i8, from_column: i8, to_row: i8, to_colum: i8, piece: AnalyzerPieceType) -> (m: AnalyzerMove)
        ensures
            m == (AnalyzerMove {
                from: Position { colum: from_column, row: from_row },
                to: Position { colum: to_colum, row: to_row },
                piece,
                castle: CastleOptions::NoCastle,
            }),
    {
        AnalyzerMove {
            from: Position { colum: from_column, row: from_row },
            to: Position { colum: to_colum, row: to_row },
            piece,
            castle: CastleOptions::NoCastle,
        }
    }

    pub fn to_legal_move(analyzer_move: AnalyzerMove) -> (m: LegalMove)
        ensures
            m == (LegalMove { from: analyzer_move.from, to: analyzer_move.to, castle: analyzer_move.castle }),
    {
        LegalMove { from: analyzer_move.from, to: analyzer_move.to, castle: analyzer_move.castle }
    }

    pub fn king_side_castle(color: Turn) -> (m: AnalyzerMove)
        ensures
            m.castle == CastleOptions::KingSide,
            m.piece == (match color {
                Turn::White => AnalyzerPieceType::WhiteKing,
                Turn::Black => AnalyzerPieceType::BlackKing,
            }),
            m.from == (Position { colum: 0, row: 0 }) && m.to == (Position { colum: 0, row: 0 }),
    {
        let piece = match color {
            Turn::White => AnalyzerPieceType::WhiteKing,
            Turn::Black => AnalyzerPieceType::BlackKing,
        };
        AnalyzerMove {
            from: Position { colum: 0, row: 0 },
            to: Position { colum: 0, row: 0 },
            piece,
            castle: CastleOptions::KingSide,
        }
    }

    pub fn queen_side_castle(color: Turn) -> (m: AnalyzerMove)
        ensures
            m.castle == CastleOptions::QueenSide,
            m.piece == (match color {
                Turn::White => AnalyzerPieceType::WhiteKing,
                Turn::Black => AnalyzerPieceType::BlackKing,
            }),
            m.from == (Position { colum: 0, row: 0 }) && m.to == (Position { colum: 0, row: 0 }),
    {
        let piece = match color {
            Turn::White => AnalyzerPieceType::WhiteKing,
            Turn::Black => AnalyzerPieceType::BlackKing,
        };
        AnalyzerMove {
            from: Position { colum: 0, row: 0 },
            to: Position { colum: 0, row: 0 },
            piece,
            castle: CastleOptions::QueenSide,
        }
    }
}

} // verus!
