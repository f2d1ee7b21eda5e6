//! Static evaluation and the depth-limited minimax search with alpha-beta pruning.
use vstd::prelude::*;
use crate::bits::{count, lemma_count_bounds};
use crate::board::{Board, Turn, PieceType, opposite};
use crate::position::{CastleOptions, LegalMove, Position};
use crate::movement::{Movement, pieces_moves, in_check};
use crate::legal::{pseudo_legal, leaves_king_safe, has_legal_move};
use crate::minimax::{
    mm, legal, child, child_value, any_legal, best_value, lemma_any_legal, lemma_mm_is_best,
    lemma_mm_unique, lemma_mm_terminal, lemma_mm_bounds,
};

verus! {

pub const PAWN_VALUE: i64 = 100;
pub const KNIGHT_VALUE: i64 = 300;
pub const BISHOP_VALUE: i64 = 350;
pub const ROOK_VALUE: i64 = 500;
pub const QUEEN_VALUE: i64 = 1000;
/// Weight of one destination square in the mobility term.
pub const MOBILITY_WEIGHT: i64 = 2;
/// Score of a won position; a lost one scores its negation.
pub const MATE_SCORE: i64 = 1000000;
/// Score, for the stalemated side, of a position where the side to move is not in check
/// and has no legal move.
pub const STALEMATE_SCORE: i64 = 500000;
/// Plies searched when the engine picks a move for a player.
pub const SEARCH_DEPTH: i8 = 6;

/// Material of `side` alone.
pub open spec fn side_material(b: Board, side: Turn) -> int {
    match side {
        Turn::White => PAWN_VALUE * count(b.w_pawns) + KNIGHT_VALUE * count(b.w_knights)
            + BISHOP_VALUE * count(b.w_bishops) + ROOK_VALUE * count(b.w_rooks) + QUEEN_VALUE
            * count(b.w_queen),
        Turn::Black => PAWN_VALUE * count(b.b_pawns) + KNIGHT_VALUE * count(b.b_knights)
            + BISHOP_VALUE * count(b.b_bishops) + ROOK_VALUE * count(b.b_rooks) + QUEEN_VALUE
            * count(b.b_queen),
    }
}

/// Material balance seen from `side`.
pub open spec fn material_score(b: Board, side: Turn) -> int {
    side_material(b, side) - side_material(b, opposite(side))
}

/// Destination squares of `side`'s pawns, knights, bishops, rooks and queens, counted
/// per piece kind.
pub open spec fn side_mobility(b: Board, side: Turn) -> int {
    let w = b.white_occ();
    let k = b.black_occ();
    match side {
        Turn::White => count(pieces_moves(b.w_pawns, PieceType::WhitePawn, side, w, k)) + count(
            pieces_moves(b.w_knights, PieceType::WhiteKnight, side, w, k),
        ) + count(pieces_moves(b.w_bishops, PieceType::WhiteBishop, side, w, k)) + count(
            pieces_moves(b.w_rooks, PieceType::WhiteRook, side, w, k),
        ) + count(pieces_moves(b.w_queen, PieceType::WhiteQueen, side, w, k)),
        Turn::Black => count(pieces_moves(b.b_pawns, PieceType::BlackPawn, side, w, k)) + count(
            pieces_moves(b.b_knights, PieceType::BlackKnight, side, w, k),
        ) + count(pieces_moves(b.b_bishops, PieceType::BlackBishop, side, w, k)) + count(
            pieces_moves(b.b_rooks, PieceType::BlackRook, side, w, k),
        ) + count(pieces_moves(b.b_queen, PieceType::BlackQueen, side, w, k)),
    }
}

/// Mobility balance seen from `side`.
pub open spec fn mobility_score(b: Board, side: Turn) -> int {
    MOBILITY_WEIGHT * (side_mobility(b, side) - side_mobility(b, opposite(side)))
}

/// Static evaluation of `b` for `root`.
pub open spec fn evaluation(b: Board, root: Turn) -> int {
    material_score(b, root) + mobility_score(b, root)
}

/// Score of a position where the side to move has no legal move: beyond any static
/// evaluation, negative for the side to move when it is checkmated and positive when it
/// is stalemated, seen from `root`.
pub open spec fn terminal_score(b: Board, side: Turn, root: Turn) -> int {
    let own = if in_check(b, side) {
        -MATE_SCORE
    } else {
        STALEMATE_SCORE as int
    };
    if side == root {
        own
    } else {
        -own
    }
}

proof fn lemma_material_bounds(b: Board, side: Turn)
    ensures
        0 <= side_material(b, side) <= 2250 * 64,
{
    lemma_count_bounds(b.w_pawns, 64);
    lemma_count_bounds(b.w_knights, 64);
    lemma_count_bounds(b.w_bishops, 64);
    lemma_count_bounds(b.w_rooks, 64);
    lemma_count_bounds(b.w_queen, 64);
    lemma_count_bounds(b.b_pawns, 64);
    lemma_count_bounds(b.b_knights, 64);
    lemma_count_bounds(b.b_bishops, 64);
    lemma_count_bounds(b.b_rooks, 64);
    lemma_count_bounds(b.b_queen, 64);
}

proof fn lemma_mobility_bounds(b: Board, side: Turn)
    ensures
        0 <= side_mobility(b, side) <= 5 * 64,
{
    let w = b.white_occ();
    let k = b.black_occ();
    match side {
        Turn::White => {
            lemma_count_bounds(pieces_moves(b.w_pawns, PieceType::WhitePawn, side, w, k), 64);
            lemma_count_bounds(pieces_moves(b.w_knights, PieceType::WhiteKnight, side, w, k), 64);
            lemma_count_bounds(pieces_moves(b.w_bishops, PieceType::WhiteBishop, side, w, k), 64);
            lemma_count_bounds(pieces_moves(b.w_rooks, PieceType::WhiteRook, side, w, k), 64);
            lemma_count_bounds(pieces_moves(b.w_queen, PieceType::WhiteQueen, side, w, k), 64);
        },
        Turn::Black => {
            lemma_count_bounds(pieces_moves(b.b_pawns, PieceType::BlackPawn, side, w, k), 64);
            lemma_count_bounds(pieces_moves(b.b_knights, PieceType::BlackKnight, side, w, k), 64);
            lemma_count_bounds(pieces_moves(b.b_bishops, PieceType::BlackBishop, side, w, k), 64);
            lemma_count_bounds(pieces_moves(b.b_rooks, PieceType::BlackRook, side, w, k), 64);
            lemma_count_bounds(pieces_moves(b.b_queen, PieceType::BlackQueen, side, w, k), 64);
        },
    }
}

/// The static evaluation stays well inside the mate scores.
pub proof fn lemma_evaluation_bounds(b: Board, root: Turn)
    ensures
        -MATE_SCORE < evaluation(b, root) < MATE_SCORE,
{
    lemma_material_bounds(b, root);
    lemma_material_bounds(b, opposite(root));
    lemma_mobility_bounds(b, root);
    lemma_mobility_bounds(b, opposite(root));
}

/// The move returned when no legal move exists.
pub open spec fn no_move() -> LegalMove {
    LegalMove {
        from: Position { colum: 0, row: 0 },
        to: Position { colum: 0, row: 0 },
        castle: CastleOptions::NoCastle,
    }
}

/// A score `r` returned for a window `(alpha, betha)` agrees with the value `v`: exact
/// inside the window, and on the same side of it outside.
pub open spec fn window_ok(v: int, alpha: int, betha: int, r: int) -> bool {
    &&& (alpha < v < betha ==> r == v)
    &&& (v <= alpha ==> r <= alpha)
    &&& (v >= betha ==> r >= betha)
}

/// The board after `m`, played on a copy.
fn child_of(board: Board, m: LegalMove, side: Turn) -> (c: Board)
    ensures
        c == child(board, m, side),
{
    let mut c = board;
    c.do_move(m, side);
    proof {
        reveal(child);
    }
    c
}

/// Legal moves of `side`, stated through `legal`.
fn legal_list(board: Board, side: Turn) -> (r: Vec<LegalMove>)
    ensures
        forall|k: int| 0 <= k < r@.len() ==> legal(board, #[trigger] r@[k], side),
        forall|m: LegalMove| legal(board, m, side) ==> #[trigger] r@.contains(m),
        r@.len() > 0 <==> any_legal(board, side),
{
    let r = board.get_moves(side);
    proof {
        reveal(legal);
        if r@.len() > 0 {
            assert(legal(board, r@[0], side));
        }
        if any_legal(board, side) {
            let m = choose|m: LegalMove| legal(board, m, side);
            assert(r@.contains(m));
        }
    }
    r
}

/// After a loop over the moves in `list` that ended at `i`, with `top` the best child
/// value met and `cut` set when the loop stopped early, `top` is the node's value, or
/// the node's value is at least as good as `top`.
proof fn lemma_node_value(b: Board, side: Turn, root: Turn, d: nat, list: Seq<LegalMove>, i: int, top: int, cut: bool)
    requires
        d > 0,
        0 < i <= list.len(),
        !cut ==> i == list.len(),
        forall|k: int| 0 <= k < list.len() ==> legal(b, #[trigger] list[k], side),
        forall|m: LegalMove| legal(b, m, side) ==> #[trigger] list.contains(m),
        exists|k: int| 0 <= k < i && child_value(b, #[trigger] list[k], side, root, d) == top,
        forall|k: int| 0 <= k < i ==> crate::minimax::prefers(side, root, top, child_value(b, #[trigger] list[k], side, root, d)),
    ensures
        !cut ==> mm(b, side, root, d) == top,
        cut ==> crate::minimax::prefers(side, root, mm(b, side, root, d), top),
{
    let w = choose|k: int| 0 <= k < i && child_value(b, #[trigger] list[k], side, root, d) == top;
    assert(legal(b, list[w], side));
    assert(any_legal(b, side));
    lemma_mm_is_best(b, side, root, d);
    if !cut {
        assert forall|m: LegalMove| legal(b, m, side) implies crate::minimax::prefers(
            side,
            root,
            top,
            #[trigger] mm(child(b, m, side), opposite(side), root, (d - 1) as nat),
        ) by {
            assert(list.contains(m));
            let j = choose|j: int| 0 <= j < list.len() && list[j] == m;
            assert(child_value(b, list[j], side, root, d) == mm(child(b, m, side), opposite(side), root, (d - 1) as nat));
        }
        assert(mm(child(b, list[w], side), opposite(side), root, (d - 1) as nat) == top);
        assert(best_value(b, side, root, d, top));
        lemma_mm_unique(b, side, root, d, top);
    } else {
        assert(mm(child(b, list[w], side), opposite(side), root, (d - 1) as nat) == top);
    }
}

/// `k` is the first position of `s` whose child value, seen from `root`, is the best of
/// `s`.
pub open spec fn first_best(b: Board, side: Turn, root: Turn, d: nat, s: Seq<LegalMove>, k: int) -> bool {
    &&& 0 <= k < s.len()
    &&& forall|j: int| 0 <= j < s.len() ==> child_value(b, #[trigger] s[j], side, root, d) <= child_value(b, s[k], side, root, d)
    &&& forall|j: int| 0 <= j < k ==> child_value(b, #[trigger] s[j], side, root, d) < child_value(b, s[k], side, root, d)
}

/// Over the same list of moves, alpha-beta pruning and full minimax pick the same move:
/// there is only one first move with the best child value.
pub proof fn lemma_pruning_keeps_best_move(b: Board, side: Turn, root: Turn, d: nat, s: Seq<LegalMove>, pruned: int, full: int)
    requires
        first_best(b, side, root, d, s, pruned),
        first_best(b, side, root, d, s, full),
    ensures
        pruned == full,
{
    if pruned < full {
        assert(child_value(b, s[pruned], side, root, d) < child_value(b, s[full], side, root, d));
    } else if full < pruned {
        assert(child_value(b, s[full], side, root, d) < child_value(b, s[pruned], side, root, d));
    }
}

/// For a list holding exactly the legal moves, some move reaches the minimax value and
/// none beats it.
proof fn lemma_list_value(b: Board, side: Turn, d: nat, s: Seq<LegalMove>)
    requires
        d > 0,
        s.len() > 0,
        forall|k: int| 0 <= k < s.len() ==> legal(b, #[trigger] s[k], side),
        forall|m: LegalMove| legal(b, m, side) ==> #[trigger] s.contains(m),
    ensures
        exists|j: int| 0 <= j < s.len() && child_value(b, #[trigger] s[j], side, side, d) == mm(b, side, side, d),
        forall|j: int| 0 <= j < s.len() ==> child_value(b, #[trigger] s[j], side, side, d) <= mm(b, side, side, d),
{
    assert(legal(b, s[0], side));
    assert(any_legal(b, side));
    lemma_mm_is_best(b, side, side, d);
    let v = mm(b, side, side, d);
    let m = choose|m: LegalMove| legal(b, m, side) && #[trigger] mm(child(b, m, side), opposite(side), side, (d - 1) as nat) == v;
    assert(s.contains(m));
    let j = choose|j: int| 0 <= j < s.len() && s[j] == m;
    assert(child_value(b, s[j], side, side, d) == v);
    assert forall|j: int| 0 <= j < s.len() implies child_value(b, #[trigger] s[j], side, side, d) <= v by {
        assert(legal(b, s[j], side));
    }
}

pub struct Analyzer {}

impl Analyzer {
    /// Material balance seen from `playing_as`.
    pub fn get_plain_score(board: Board, playing_as: Turn) -> (r: i64)
        ensures
            r == material_score(board, playing_as),
    {
        proof {
            lemma_material_bounds(board, playing_as);
            lemma_material_bounds(board, opposite(playing_as));
        }
        let w = PAWN_VALUE * Movement::pieces_count(board.w_pawns) as i64 + KNIGHT_VALUE
            * Movement::pieces_count(board.w_knights) as i64 + BISHOP_VALUE * Movement::pieces_count(
            board.w_bishops,
        ) as i64 + ROOK_VALUE * Movement::pieces_count(board.w_rooks) as i64 + QUEEN_VALUE
            * Movement::pieces_count(board.w_queen) as i64;
        let k = PAWN_VALUE * Movement::pieces_count(board.b_pawns) as i64 + KNIGHT_VALUE
            * Movement::pieces_count(board.b_knights) as i64 + BISHOP_VALUE * Movement::pieces_count(
            board.b_bishops,
        ) as i64 + ROOK_VALUE * Movement::pieces_count(board.b_rooks) as i64 + QUEEN_VALUE
            * Movement::pieces_count(board.b_queen) as i64;
        match playing_as {
            Turn::White => w - k,
            Turn::Black => k - w,
        }
    }

    /// Destination squares of `turn`'s pawns, knights, bishops, rooks and queens.
    pub fn get_attacked_score(turn: Turn, board: Board) -> (r: i64)
        ensures
            r == side_mobility(board, turn),
            0 <= r <= 5 * 64,
    {
        proof {
            lemma_mobility_bounds(board, turn);
        }
        let (p, n, b, r, q) = match turn {
            Turn::White => (
                PieceType::WhitePawn,
                PieceType::WhiteKnight,
                PieceType::WhiteBishop,
                PieceType::WhiteRook,
                PieceType::WhiteQueen,
            ),
            Turn::Black => (
                PieceType::BlackPawn,
                PieceType::BlackKnight,
                PieceType::BlackBishop,
                PieceType::BlackRook,
                PieceType::BlackQueen,
            ),
        };
        let (pawns, knights, bishops, rooks, queens) = match turn {
            Turn::White => (board.w_pawns, board.w_knights, board.w_bishops, board.w_rooks, board.w_queen),
            Turn::Black => (board.b_pawns, board.b_knights, board.b_bishops, board.b_rooks, board.b_queen),
        };
        let c1 = Movement::pieces_count(Movement::extract_pieces_moves_from_bitboard(pawns, turn, p, board)) as i64;
        let c2 = Movement::pieces_count(Movement::extract_pieces_moves_from_bitboard(knights, turn, n, board)) as i64;
        let c3 = Movement::pieces_count(Movement::extract_pieces_moves_from_bitboard(bishops, turn, b, board)) as i64;
        let c4 = Movement::pieces_count(Movement::extract_pieces_moves_from_bitboard(rooks, turn, r, board)) as i64;
        let c5 = Movement::pieces_count(Movement::extract_pieces_moves_from_bitboard(queens, turn, q, board)) as i64;
        c1 + c2 + c3 + c4 + c5
    }

    /// Mobility balance seen from `playing_as`.
    pub fn get_activity_score(board: Board, playing_as: Turn) -> (r: i64)
        ensures
            r == mobility_score(board, playing_as),
    {
        let own = Analyzer::get_attacked_score(playing_as, board);
        let other = Analyzer::get_attacked_score(Movement::get_oposite_color(playing_as), board);
        MOBILITY_WEIGHT * (own - other)
    }

    /// Static evaluation of `board` for `playing_as`: material plus mobility.
    pub fn analyze_state(board: Board, playing_as: Turn) -> (r: i64)
        ensures
            r == evaluation(board, playing_as),
            -MATE_SCORE < r < MATE_SCORE,
    {
        proof {
            lemma_evaluation_bounds(board, playing_as);
        }
        Analyzer::get_plain_score(board, playing_as) + Analyzer::get_activity_score(board, playing_as)
    }

    /// Score of `board` for `root_turn` with `playing_as` to move, searched `depth`
    /// plies deep with alpha-beta pruning inside the window `(alpha, betha)`. Inside the
    /// window the score is the minimax value; a value at or below `alpha` scores at or
    /// below `alpha`, one at or above `betha` scores at or above `betha`. At depth 0 the
    /// score is the static evaluation, whatever the window.
    pub fn r_minimax(board: Board, playing_as: Turn, root_turn: Turn, depth: i8, alpha: i64, betha: i64) -> (r: i64)
        requires
            depth >= 0,
            depth > 0 ==> -MATE_SCORE <= alpha < betha <= MATE_SCORE,
        ensures
            depth == 0 ==> r == evaluation(board, root_turn),
            depth > 0 && !has_legal_move(board, playing_as) ==> r == terminal_score(board, playing_as, root_turn),
            window_ok(mm(board, playing_as, root_turn, depth as nat), alpha as int, betha as int, r as int),
            alpha == -MATE_SCORE && betha == MATE_SCORE ==> r == mm(board, playing_as, root_turn, depth as nat),
            -MATE_SCORE <= r <= MATE_SCORE,
        decreases depth, 1int,
    {
        let ghost d = depth as nat;
        proof {
            lemma_any_legal(board, playing_as);
            lemma_mm_bounds(board, playing_as, root_turn, d);
        }
        if depth == 0 {
            return Analyzer::analyze_state(board, root_turn);
        }
        let legal_moves = legal_list(board, playing_as);
        if legal_moves.len() == 0 {
            proof {
                lemma_mm_terminal(board, playing_as, root_turn, d);
            }
            return Analyzer::terminal(board, playing_as, root_turn);
        }
        if playing_as == root_turn {
            Analyzer::max_node(board, playing_as, root_turn, depth, alpha, betha, &legal_moves)
        } else {
            Analyzer::min_node(board, playing_as, root_turn, depth, alpha, betha, &legal_moves)
        }
    }

    /// Alpha-beta over the children of a node where the root side moves.
    fn max_node(board: Board, playing_as: Turn, root_turn: Turn, depth: i8, alpha: i64, betha: i64, legal_moves: &Vec<LegalMove>) -> (r: i64)
        requires
            depth > 0,
            playing_as == root_turn,
            -MATE_SCORE <= alpha < betha <= MATE_SCORE,
            legal_moves@.len() > 0,
            forall|k: int| 0 <= k < legal_moves@.len() ==> legal(board, #[trigger] legal_moves@[k], playing_as),
            forall|m: LegalMove| legal(board, m, playing_as) ==> #[trigger] legal_moves@.contains(m),
        ensures
            window_ok(mm(board, playing_as, root_turn, depth as nat), alpha as int, betha as int, r as int),
            -MATE_SCORE <= r <= MATE_SCORE,
        decreases depth, 0int,
    {
        let ghost d = depth as nat;
        let next = Movement::get_oposite_color(playing_as);
        let mut a = alpha;
        let mut best: i64 = -MATE_SCORE;
        let ghost mut top: int = -MATE_SCORE as int;
        let mut cut = false;
        let mut i: usize = 0;
        while i < legal_moves.len() && !cut
            invariant
                d == depth as nat,
                depth > 0,
                -MATE_SCORE <= alpha < betha <= MATE_SCORE,
                i <= legal_moves@.len(),
                next == opposite(playing_as),
                playing_as == root_turn,
                forall|k: int| 0 <= k < legal_moves@.len() ==> legal(board, #[trigger] legal_moves@[k], playing_as),
                -MATE_SCORE <= best <= MATE_SCORE,
                -MATE_SCORE <= top <= MATE_SCORE,
                i == 0 ==> best == -MATE_SCORE && top == -MATE_SCORE && !cut,
                i > 0 ==> exists|k: int| 0 <= k < i && child_value(board, #[trigger] legal_moves@[k], playing_as, root_turn, d) == top,
                forall|k: int| 0 <= k < i ==> child_value(board, #[trigger] legal_moves@[k], playing_as, root_turn, d) <= top,
                a == (if best > alpha { best } else { alpha }),
                !cut ==> (top > alpha ==> best == top) && (top <= alpha ==> best <= alpha) && a < betha,
                cut ==> best >= betha && top >= betha,
            decreases legal_moves@.len() - i,
        {
            let child_board = child_of(board, legal_moves[i], playing_as);
            let ghost c = child_value(board, legal_moves@[i as int], playing_as, root_turn, d);
            proof {
                lemma_mm_bounds(child_board, next, root_turn, (d - 1) as nat);
            }
            let eval = Analyzer::r_minimax(child_board, next, root_turn, depth - 1, a, betha);
            if eval > best {
                best = eval;
            }
            if eval > a {
                a = eval;
            }
            proof {
                if i == 0 || c > top {
                    top = c;
                }
            }
            if betha <= a {
                cut = true;
            }
            i = i + 1;
        }
        proof {
            lemma_node_value(board, playing_as, root_turn, d, legal_moves@, i as int, top, cut);
        }
        best
    }

    /// Alpha-beta over the children of a node where the root side's opponent moves.
    fn min_node(board: Board, playing_as: Turn, root_turn: Turn, depth: i8, alpha: i64, betha: i64, legal_moves: &Vec<LegalMove>) -> (r: i64)
        requires
            depth > 0,
            playing_as != root_turn,
            -MATE_SCORE <= alpha < betha <= MATE_SCORE,
            legal_moves@.len() > 0,
            forall|k: int| 0 <= k < legal_moves@.len() ==> legal(board, #[trigger] legal_moves@[k], playing_as),
            forall|m: LegalMove| legal(board, m, playing_as) ==> #[trigger] legal_moves@.contains(m),
        ensures
            window_ok(mm(board, playing_as, root_turn, depth as nat), alpha as int, betha as int, r as int),
            -MATE_SCORE <= r <= MATE_SCORE,
        decreases depth, 0int,
    {
        let ghost d = depth as nat;
        let next = Movement::get_oposite_color(playing_as);
        let mut bt = betha;
        let mut best: i64 = MATE_SCORE;
        let ghost mut top: int = MATE_SCORE as int;
        let mut cut = false;
        let mut i: usize = 0;
        while i < legal_moves.len() && !cut
            invariant
                d == depth as nat,
                depth > 0,
                -MATE_SCORE <= alpha < betha <= MATE_SCORE,
                i <= legal_moves@.len(),
                next == opposite(playing_as),
                playing_as != root_turn,
                forall|k: int| 0 <= k < legal_moves@.len() ==> legal(board, #[trigger] legal_moves@[k], playing_as),
                -MATE_SCORE <= best <= MATE_SCORE,
                -MATE_SCORE <= top <= MATE_SCORE,
                i == 0 ==> best == MATE_SCORE && top == MATE_SCORE && !cut,
                i > 0 ==> exists|k: int| 0 <= k < i && child_value(board, #[trigger] legal_moves@[k], playing_as, root_turn, d) == top,
                forall|k: int| 0 <= k < i ==> child_value(board, #[trigger] legal_moves@[k], playing_as, root_turn, d) >= top,
                bt == (if best < betha { best } else { betha }),
                !cut ==> (top < betha ==> best == top) && (top >= betha ==> best >= betha) && alpha < bt,
                cut ==> best <= alpha && top <= alpha,
            decreases legal_moves@.len() - i,
        {
            let child_board = child_of(board, legal_moves[i], playing_as);
            let ghost c = child_value(board, legal_moves@[i as int], playing_as, root_turn, d);
            proof {
                lemma_mm_bounds(child_board, next, root_turn, (d - 1) as nat);
            }
            let eval = Analyzer::r_minimax(child_board, next, root_turn, depth - 1, alpha, bt);
            if eval < best {
                best = eval;
            }
            if eval < bt {
                bt = eval;
            }
            proof {
                if i == 0 || c < top {
                    top = c;
                }
            }
            if bt <= alpha {
                cut = true;
            }
            i = i + 1;
        }
        proof {
            lemma_node_value(board, playing_as, root_turn, d, legal_moves@, i as int, top, cut);
        }
        best
    }

    /// Score of a position where `playing_as` has no legal move.
    fn terminal(board: Board, playing_as: Turn, root_turn: Turn) -> (r: i64)
        ensures
            r == terminal_score(board, playing_as, root_turn),
    {
        let own: i64 = if Movement::check_for_check(playing_as, board) {
            -MATE_SCORE
        } else {
            STALEMATE_SCORE
        };
        if playing_as == root_turn {
            own
        } else {
            -own
        }
    }

    /// Index of the move of `moves` that a `depth`-ply alpha-beta search in the window
    /// `(alpha, betha)` picks for `playing_as`, scoring children for `player_color`: the
    /// first one with the highest score. With `cv` the child values seen from
    /// `player_color`: when the highest `cv` of `moves` lies inside the window it is the
    /// first move with the highest `cv`; when some `cv` reaches `betha` it is the first
    /// such move; when `alpha` is the lowest score and no `cv` exceeds it, it is the
    /// first move.
    pub fn best_index_pruned(board: Board, playing_as: Turn, player_color: Turn, depth: i8, moves: &Vec<LegalMove>, alpha: i64, betha: i64) -> (r: usize)
        requires
            depth >= 0,
            -MATE_SCORE <= alpha < betha <= MATE_SCORE,
            moves@.len() > 0,
        ensures
            r < moves@.len(),
            (exists|j: int| 0 <= j < moves@.len() && child_value(board, #[trigger] moves@[j], playing_as, player_color, depth as nat) > alpha)
                && (forall|j: int| 0 <= j < moves@.len() ==> child_value(board, #[trigger] moves@[j], playing_as, player_color, depth as nat) < betha)
                ==> first_best(board, playing_as, player_color, depth as nat, moves@, r as int),
            (exists|j: int| 0 <= j < moves@.len() && child_value(board, #[trigger] moves@[j], playing_as, player_color, depth as nat) >= betha)
                ==> child_value(board, moves@[r as int], playing_as, player_color, depth as nat) >= betha
                && forall|j: int| 0 <= j < r ==> child_value(board, #[trigger] moves@[j], playing_as, player_color, depth as nat) < betha,
            alpha == -MATE_SCORE && (forall|j: int| 0 <= j < moves@.len() ==> child_value(board, #[trigger] moves@[j], playing_as, player_color, depth as nat) <= alpha)
                ==> r == 0,
    {
        let ghost d = depth as nat;
        let next = Movement::get_oposite_color(playing_as);
        let cd: i8 = if depth > 0 {
            depth - 1
        } else {
            0
        };
        let mut a = alpha;
        let mut best_k: usize = 0;
        let mut max_value: i64 = i64::MIN;
        let ghost mut top: int = -MATE_SCORE as int;
        let mut cut = false;
        let mut i: usize = 0;
        while i < moves.len() && !cut
            invariant
                d == depth as nat,
                depth >= 0,
                cd as nat == crate::minimax::child_depth(d),
                cd >= 0,
                -MATE_SCORE <= alpha < betha <= MATE_SCORE,
                i <= moves@.len(),
                next == opposite(playing_as),
                best_k < moves@.len(),
                i == 0 ==> max_value == i64::MIN && a == alpha && !cut,
                i > 0 ==> -MATE_SCORE <= max_value <= MATE_SCORE && a == (if max_value > alpha { max_value } else { alpha }) && best_k < i,
                -MATE_SCORE <= top <= MATE_SCORE,
                i > 0 ==> exists|k: int| 0 <= k < i && child_value(board, #[trigger] moves@[k], playing_as, player_color, d) == top,
                forall|k: int| 0 <= k < i ==> child_value(board, #[trigger] moves@[k], playing_as, player_color, d) <= top,
                i > 0 && !cut && top > alpha ==> max_value == top
                    && child_value(board, moves@[best_k as int], playing_as, player_color, d) == top
                    && forall|k: int| 0 <= k < best_k ==> child_value(board, #[trigger] moves@[k], playing_as, player_color, d) < top,
                i > 0 && !cut && top <= alpha ==> max_value <= alpha,
                alpha == -MATE_SCORE && i > 0 && top <= alpha ==> best_k == 0 && max_value == -MATE_SCORE,
                !cut ==> forall|k: int| 0 <= k < i ==> child_value(board, #[trigger] moves@[k], playing_as, player_color, d) < betha,
                cut ==> child_value(board, moves@[best_k as int], playing_as, player_color, d) >= betha
                    && forall|k: int| 0 <= k < best_k ==> child_value(board, #[trigger] moves@[k], playing_as, player_color, d) < betha,
                cut ==> top >= betha,
                !cut ==> a < betha,
                alpha <= a,
            decreases moves@.len() - i,
        {
            let child_board = child_of(board, moves[i], playing_as);
            let ghost c = child_value(board, moves@[i as int], playing_as, player_color, d);
            proof {
                lemma_mm_bounds(child_board, next, player_color, cd as nat);
            }
            let score = Analyzer::r_minimax(child_board, next, player_color, cd, a, betha);
            if score > max_value {
                max_value = score;
                best_k = i;
            }
            if score > a {
                a = score;
            }
            proof {
                if i == 0 || c > top {
                    top = c;
                }
            }
            if betha <= a {
                cut = true;
            }
            i = i + 1;
        }
        proof {
            if (exists|j: int| 0 <= j < moves@.len() && child_value(board, #[trigger] moves@[j], playing_as, player_color, d) > alpha)
                && (forall|j: int| 0 <= j < moves@.len() ==> child_value(board, #[trigger] moves@[j], playing_as, player_color, d) < betha) {
                let w = choose|k: int| 0 <= k < i && child_value(board, #[trigger] moves@[k], playing_as, player_color, d) == top;
                assert(!cut);
                let j = choose|j: int| 0 <= j < moves@.len() && child_value(board, #[trigger] moves@[j], playing_as, player_color, d) > alpha;
                assert(top > alpha);
            }
            if exists|j: int| 0 <= j < moves@.len() && child_value(board, #[trigger] moves@[j], playing_as, player_color, d) >= betha {
                let j = choose|j: int| 0 <= j < moves@.len() && child_value(board, #[trigger] moves@[j], playing_as, player_color, d) >= betha;
                assert(cut);
            }
            if alpha == -MATE_SCORE && (forall|j: int| 0 <= j < moves@.len() ==> child_value(board, #[trigger] moves@[j], playing_as, player_color, d) <= alpha) {
                let w = choose|k: int| 0 <= k < i && child_value(board, #[trigger] moves@[k], playing_as, player_color, d) == top;
                assert(top <= alpha);
            }
        }
        best_k
    }

    /// Best move for `playing_as` by a `depth`-ply alpha-beta search in the window
    /// `(alpha, betha)`, each move scored by the value of its child for `player_color`;
    /// the first of the highest scored moves wins. When `playing_as` is `player_color`
    /// and a legal move exists, the move reaches the minimax value if that value lies
    /// inside the window, and always with the full window `(-MATE_SCORE, MATE_SCORE)`.
    /// At depth 0 the children are scored by their static evaluation. Without a legal
    /// move the result is the plain move from and to square 0.
    pub fn minimax(board: Board, playing_as: Turn, player_color: Turn, depth: i8, alpha: i64, betha: i64) -> (r: LegalMove)
        requires
            depth >= 0,
            -MATE_SCORE <= alpha < betha <= MATE_SCORE,
        ensures
            has_legal_move(board, playing_as) ==> pseudo_legal(board, r, playing_as) && leaves_king_safe(board, r, playing_as),
            !has_legal_move(board, playing_as) ==> r == no_move(),
            has_legal_move(board, playing_as) && playing_as == player_color && depth >= 1 && alpha < mm(board, playing_as, player_color, depth as nat) < betha
                ==> child_value(board, r, playing_as, player_color, depth as nat) == mm(board, playing_as, player_color, depth as nat),
            has_legal_move(board, playing_as) && playing_as == player_color && depth >= 1 && alpha == -MATE_SCORE && betha == MATE_SCORE
                ==> child_value(board, r, playing_as, player_color, depth as nat) == mm(board, playing_as, player_color, depth as nat),
    {
        proof {
            lemma_any_legal(board, playing_as);
        }
        let legal_moves = legal_list(board, playing_as);
        if legal_moves.len() == 0 {
            return LegalMove {
                from: Position { colum: 0, row: 0 },
                to: Position { colum: 0, row: 0 },
                castle: CastleOptions::NoCastle,
            };
        }
        let k = Analyzer::best_index_pruned(board, playing_as, player_color, depth, &legal_moves, alpha, betha);
        proof {
            reveal(legal);
            assert(legal(board, legal_moves@[k as int], playing_as));
            if playing_as == player_color && depth >= 1 {
                let d = depth as nat;
                lemma_list_value(board, playing_as, d, legal_moves@);
                let v = mm(board, playing_as, playing_as, d);
                let w = choose|j: int| 0 <= j < legal_moves@.len() && child_value(board, #[trigger] legal_moves@[j], playing_as, playing_as, d) == v;
                lemma_mm_bounds(board, playing_as, playing_as, d);
                if alpha < v < betha {
                    assert(child_value(board, legal_moves@[w], playing_as, playing_as, d) > alpha);
                }
                if alpha == -MATE_SCORE && betha == MATE_SCORE {
                    if v == MATE_SCORE {
                        assert(child_value(board, legal_moves@[w], playing_as, playing_as, d) >= betha);
                    } else if v == -MATE_SCORE {
                        lemma_mm_bounds(child(board, legal_moves@[0], playing_as), opposite(playing_as), playing_as, crate::minimax::child_depth(d));
                        assert(child_value(board, legal_moves@[0], playing_as, playing_as, d) <= v);
                    } else {
                        assert(child_value(board, legal_moves@[w], playing_as, playing_as, d) > alpha);
                    }
                }
            }
        }
        legal_moves[k]
    }

    /// Score of `board` for `root_turn` with `playing_as` to move by a full minimax
    /// search of `depth` plies, without pruning: the minimax value.
    pub fn full_minimax(board: Board, playing_as: Turn, root_turn: Turn, depth: i8) -> (r: i64)
        requires
            depth >= 0,
        ensures
            r == mm(board, playing_as, root_turn, depth as nat),
            depth == 0 ==> r == evaluation(board, root_turn),
            depth > 0 && !has_legal_move(board, playing_as) ==> r == terminal_score(board, playing_as, root_turn),
            -MATE_SCORE <= r <= MATE_SCORE,
        decreases depth,
    {
        let ghost d = depth as nat;
        proof {
            lemma_any_legal(board, playing_as);
            lemma_mm_bounds(board, playing_as, root_turn, d);
        }
        if depth == 0 {
            return Analyzer::analyze_state(board, root_turn);
        }
        let legal_moves = legal_list(board, playing_as);
        if legal_moves.len() == 0 {
            proof {
                lemma_mm_terminal(board, playing_as, root_turn, d);
            }
            return Analyzer::terminal(board, playing_as, root_turn);
        }
        let next = Movement::get_oposite_color(playing_as);
        let maximizing = playing_as == root_turn;
        let mut best: i64 = 0;
        let mut i: usize = 0;
        while i < legal_moves.len()
            invariant
                d == depth as nat,
                depth > 0,
                i <= legal_moves@.len(),
                next == opposite(playing_as),
                maximizing == (playing_as == root_turn),
                forall|k: int| 0 <= k < legal_moves@.len() ==> legal(board, #[trigger] legal_moves@[k], playing_as),
                -MATE_SCORE <= best <= MATE_SCORE,
                i > 0 ==> exists|k: int| 0 <= k < i && child_value(board, #[trigger] legal_moves@[k], playing_as, root_turn, d) == best,
                forall|k: int| 0 <= k < i ==> crate::minimax::prefers(playing_as, root_turn, best as int, child_value(board, #[trigger] legal_moves@[k], playing_as, root_turn, d)),
            decreases legal_moves@.len() - i,
        {
            let child_board = child_of(board, legal_moves[i], playing_as);
            let eval = Analyzer::full_minimax(child_board, next, root_turn, depth - 1);
            if i == 0 || (maximizing && eval > best) || (!maximizing && eval < best) {
                best = eval;
            }
            i = i + 1;
        }
        proof {
            lemma_node_value(board, playing_as, root_turn, d, legal_moves@, i as int, best as int, false);
        }
        best
    }

    /// Index of the first move of `moves` with the highest child value seen from
    /// `player_color`, found by full minimax searches of `depth` plies without pruning.
    pub fn best_index_full(board: Board, playing_as: Turn, player_color: Turn, depth: i8, moves: &Vec<LegalMove>) -> (r: usize)
        requires
            depth >= 0,
            moves@.len() > 0,
        ensures
            first_best(board, playing_as, player_color, depth as nat, moves@, r as int),
    {
        let ghost d = depth as nat;
        let next = Movement::get_oposite_color(playing_as);
        let cd: i8 = if depth > 0 {
            depth - 1
        } else {
            0
        };
        let mut best_k: usize = 0;
        let mut max_value: i64 = i64::MIN;
        let mut i: usize = 0;
        while i < moves.len()
            invariant
                d == depth as nat,
                depth >= 0,
                cd as nat == crate::minimax::child_depth(d),
                cd >= 0,
                i <= moves@.len(),
                next == opposite(playing_as),
                best_k < moves@.len(),
                i == 0 ==> max_value == i64::MIN,
                i > 0 ==> best_k < i && child_value(board, moves@[best_k as int], playing_as, player_color, d) == max_value,
                forall|k: int| 0 <= k < i ==> child_value(board, #[trigger] moves@[k], playing_as, player_color, d) <= max_value,
                forall|k: int| 0 <= k < best_k ==> child_value(board, #[trigger] moves@[k], playing_as, player_color, d) < max_value,
            decreases moves@.len() - i,
        {
            let child_board = child_of(board, moves[i], playing_as);
            let score = Analyzer::full_minimax(child_board, next, player_color, cd);
            if score > max_value {
                max_value = score;
                best_k = i;
            }
            i = i + 1;
        }
        best_k
    }

    /// Best move for `playing_as` by a full `depth`-ply minimax search without pruning;
    /// the first of equally scored moves wins. From depth 1 on, the move returned reaches
    /// the minimax value. Without a legal move the result is the plain move from and to
    /// square 0.
    pub fn full_minimax_move(board: Board, playing_as: Turn, depth: i8) -> (r: LegalMove)
        requires
            depth >= 0,
        ensures
            has_legal_move(board, playing_as) ==> pseudo_legal(board, r, playing_as) && leaves_king_safe(board, r, playing_as),
            !has_legal_move(board, playing_as) ==> r == no_move(),
            has_legal_move(board, playing_as) && depth >= 1 ==> child_value(board, r, playing_as, playing_as, depth as nat) == mm(board, playing_as, playing_as, depth as nat),
    {
        proof {
            lemma_any_legal(board, playing_as);
        }
        let legal_moves = legal_list(board, playing_as);
        if legal_moves.len() == 0 {
            return LegalMove {
                from: Position { colum: 0, row: 0 },
                to: Position { colum: 0, row: 0 },
                castle: CastleOptions::NoCastle,
            };
        }
        let k = Analyzer::best_index_full(board, playing_as, playing_as, depth, &legal_moves);
        proof {
            reveal(legal);
            assert(legal(board, legal_moves@[k as int], playing_as));
            if depth >= 1 {
                lemma_list_value(board, playing_as, depth as nat, legal_moves@);
                let v = mm(board, playing_as, playing_as, depth as nat);
                let w = choose|j: int| 0 <= j < legal_moves@.len() && child_value(board, #[trigger] legal_moves@[j], playing_as, playing_as, depth as nat) == v;
                assert(child_value(board, legal_moves@[w], playing_as, playing_as, depth as nat) <= child_value(board, legal_moves@[k as int], playing_as, playing_as, depth as nat));
            }
        }
        legal_moves[k]
    }

    /// The engine's move for `color`: an alpha-beta search of `SEARCH_DEPTH` plies over
    /// the full window. When a legal move exists, the move reaches the minimax value.
    pub fn do_move(board: Board, color: Turn) -> (r: LegalMove)
        ensures
            has_legal_move(board, color) ==> pseudo_legal(board, r, color) && leaves_king_safe(board, r, color),
            !has_legal_move(board, color) ==> r == no_move(),
            has_legal_move(board, color) ==> child_value(board, r, color, color, SEARCH_DEPTH as nat) == mm(board, color, color, SEARCH_DEPTH as nat),
    {
        Analyzer::minimax(board, color, color, SEARCH_DEPTH, -MATE_SCORE, MATE_SCORE)
    }
}

} // verus!
