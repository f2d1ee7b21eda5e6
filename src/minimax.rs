//! The minimax value of a position, defined over the legal moves as a set.
use vstd::prelude::*;
use vstd::arithmetic::div_mod::lemma_fundamental_div_mod_converse;
use crate::board::{Board, Turn, opposite};
use crate::position::{CastleOptions, LegalMove};
use crate::legal::{pseudo_legal, leaves_king_safe, has_legal_move, mv, castle_move, reaches};
use crate::apply::after_move;
use crate::search::{evaluation, terminal_score, lemma_evaluation_bounds, MATE_SCORE};

verus! {

/// `m` is a legal move of `side` on `b`.
#[verifier::opaque]
pub open spec fn legal(b: Board, m: LegalMove, side: Turn) -> bool {
    pseudo_legal(b, m, side) && leaves_king_safe(b, m, side)
}

/// The board `m` leads to.
#[verifier::opaque]
pub open spec fn child(b: Board, m: LegalMove, side: Turn) -> Board {
    after_move(b, m, side)
}

/// `side` has a legal move on `b`.
pub open spec fn any_legal(b: Board, side: Turn) -> bool {
    exists|m: LegalMove| legal(b, m, side)
}

pub proof fn lemma_any_legal(b: Board, side: Turn)
    ensures
        any_legal(b, side) == has_legal_move(b, side),
{
    reveal(legal);
    if has_legal_move(b, side) {
        let m = choose|m: LegalMove| pseudo_legal(b, m, side) && leaves_king_safe(b, m, side);
        assert(legal(b, m, side));
    }
}

/// For the side to move, score `x` is at least as good as score `y`: the root side
/// maximises, the other side minimises.
pub open spec fn prefers(side: Turn, root: Turn, x: int, y: int) -> bool {
    if side == root {
        x >= y
    } else {
        x <= y
    }
}

/// Best child value among the legal moves in `all_moves()[0..n]`, with whether there is
/// one; at depth 0 the static evaluation.
pub open spec fn search_value(b: Board, side: Turn, root: Turn, depth: nat, n: int) -> (bool, int)
    decreases depth, n,
{
    if depth == 0 {
        (true, evaluation(b, root))
    } else if n <= 0 || n > 4098 {
        (false, 0)
    } else {
        let (found, v) = search_value(b, side, root, depth, n - 1);
        let m = all_moves()[n - 1];
        if legal(b, m, side) {
            let c = child(b, m, side);
            let (cf, cv) = search_value(c, opposite(side), root, (depth - 1) as nat, 4098);
            let cval = if depth - 1 == 0 || cf {
                cv
            } else {
                terminal_score(c, opposite(side), root)
            };
            if !found || prefers(side, root, cval, v) {
                (true, cval)
            } else {
                (true, v)
            }
        } else {
            (found, v)
        }
    }
}

/// Minimax value of `b` for `root`, with `side` to move and `depth` plies to search: the
/// static evaluation at depth 0, the terminal score without a legal move, and otherwise
/// the best value, for the side to move, among the children of the legal moves.
pub open spec fn mm(b: Board, side: Turn, root: Turn, depth: nat) -> int {
    let (found, v) = search_value(b, side, root, depth, 4098);
    if depth == 0 || found {
        v
    } else {
        terminal_score(b, side, root)
    }
}

/// `v` is the value of some legal move's child and at least as good, for the side to
/// move, as every legal move's child.
pub open spec fn best_value(b: Board, side: Turn, root: Turn, depth: nat, v: int) -> bool {
    (exists|m: LegalMove|
        legal(b, m, side) && #[trigger] mm(child(b, m, side), opposite(side), root, (depth - 1) as nat) == v)
        && (forall|m: LegalMove|
        legal(b, m, side) ==> prefers(
            side,
            root,
            v,
            #[trigger] mm(child(b, m, side), opposite(side), root, (depth - 1) as nat),
        ))
}

/// Value of the child reached by `m`.
pub open spec fn child_value(b: Board, m: LegalMove, side: Turn, root: Turn, depth: nat) -> int {
    mm(child(b, m, side), opposite(side), root, child_depth(depth))
}

/// Depth the children of a node searched `depth` plies deep are searched to: one less,
/// and no less than 0.
pub open spec fn child_depth(depth: nat) -> nat {
    if depth > 0 {
        (depth - 1) as nat
    } else {
        0
    }
}

/// Every move the rules can produce: the plain moves between two squares, then the two
/// castles.
pub open spec fn all_moves() -> Seq<LegalMove> {
    Seq::new(
        4098,
        |i: int|
            if i < 4096 {
                mv(i / 64, i % 64)
            } else if i == 4096 {
                castle_move(CastleOptions::KingSide)
            } else {
                castle_move(CastleOptions::QueenSide)
            },
    )
}

proof fn lemma_all_moves_cover(b: Board, m: LegalMove, side: Turn)
    requires
        legal(b, m, side),
    ensures
        exists|i: int| 0 <= i < 4098 && all_moves()[i] == m,
{
    reveal(legal);
    match m.castle {
        CastleOptions::KingSide => {
            assert(all_moves()[4096] == m);
        },
        CastleOptions::QueenSide => {
            assert(all_moves()[4097] == m);
        },
        CastleOptions::NoCastle => {
            let (s, t) = choose|s: int, t: int|
                0 <= s < 64 && 0 <= t < 64 && m == mv(s, t) && #[trigger] reaches(b, side, s, t);
            let i = s * 64 + t;
            lemma_fundamental_div_mod_converse(i, 64, s, t);
            assert(all_moves()[i] == m);
        },
    }
}

proof fn lemma_search_value(b: Board, side: Turn, root: Turn, depth: nat, n: int)
    requires
        depth > 0,
        0 <= n <= 4098,
    ensures
        search_value(b, side, root, depth, n).0 == exists|k: int| 0 <= k < n && legal(b, #[trigger] all_moves()[k], side),
        search_value(b, side, root, depth, n).0 ==> exists|k: int|
            0 <= k < n && legal(b, all_moves()[k], side) && child_value(b, all_moves()[k], side, root, depth)
                == search_value(b, side, root, depth, n).1,
        forall|k: int|
            0 <= k < n && legal(b, #[trigger] all_moves()[k], side) ==> prefers(
                side,
                root,
                search_value(b, side, root, depth, n).1,
                child_value(b, all_moves()[k], side, root, depth),
            ),
    decreases depth, n,
{
    if n > 0 {
        lemma_search_value(b, side, root, depth, n - 1);
        let m = all_moves()[n - 1];
        if legal(b, m, side) {
            let c = child(b, m, side);
            if depth - 1 > 0 {
                lemma_search_value(c, opposite(side), root, (depth - 1) as nat, 4098);
            }
            assert(child_value(b, m, side, root, depth) == mm(c, opposite(side), root, (depth - 1) as nat));
        }
    }
}

/// The minimax value is a best child value whenever a legal move exists.
pub proof fn lemma_mm_is_best(b: Board, side: Turn, root: Turn, depth: nat)
    requires
        depth > 0,
        any_legal(b, side),
    ensures
        best_value(b, side, root, depth, mm(b, side, root, depth)),
{
    lemma_search_value(b, side, root, depth, 4098);
    let (found, v) = search_value(b, side, root, depth, 4098);
    let m0 = choose|m: LegalMove| legal(b, m, side);
    lemma_all_moves_cover(b, m0, side);
    let i0 = choose|i: int| 0 <= i < 4098 && all_moves()[i] == m0;
    assert(legal(b, all_moves()[i0], side));
    let k = choose|k: int|
        0 <= k < 4098 && legal(b, all_moves()[k], side) && child_value(b, all_moves()[k], side, root, depth) == v;
    assert(mm(child(b, all_moves()[k], side), opposite(side), root, (depth - 1) as nat) == v);
    assert forall|m: LegalMove| legal(b, m, side) implies prefers(
        side,
        root,
        v,
        #[trigger] mm(child(b, m, side), opposite(side), root, (depth - 1) as nat),
    ) by {
        lemma_all_moves_cover(b, m, side);
        let i = choose|i: int| 0 <= i < 4098 && all_moves()[i] == m;
        assert(legal(b, all_moves()[i], side));
    }
    let mk = all_moves()[k];
    assert(legal(b, mk, side) && mm(child(b, mk, side), opposite(side), root, (depth - 1) as nat) == v);
    assert(exists|m: LegalMove|
        legal(b, m, side) && #[trigger] mm(child(b, m, side), opposite(side), root, (depth - 1) as nat) == v);
    assert(best_value(b, side, root, depth, v));
}

/// A best child value is the minimax value.
pub proof fn lemma_mm_unique(b: Board, side: Turn, root: Turn, depth: nat, v: int)
    requires
        depth > 0,
        any_legal(b, side),
        best_value(b, side, root, depth, v),
    ensures
        mm(b, side, root, depth) == v,
{
    lemma_mm_is_best(b, side, root, depth);
    let w = mm(b, side, root, depth);
    let m1 = choose|m: LegalMove|
        legal(b, m, side) && #[trigger] mm(child(b, m, side), opposite(side), root, (depth - 1) as nat) == v;
    let m2 = choose|m: LegalMove|
        legal(b, m, side) && #[trigger] mm(child(b, m, side), opposite(side), root, (depth - 1) as nat) == w;
    assert(prefers(side, root, v, mm(child(b, m2, side), opposite(side), root, (depth - 1) as nat)));
    assert(prefers(side, root, w, mm(child(b, m1, side), opposite(side), root, (depth - 1) as nat)));
}

/// Without a legal move the minimax value is the terminal score.
pub proof fn lemma_mm_terminal(b: Board, side: Turn, root: Turn, depth: nat)
    requires
        depth > 0,
        !any_legal(b, side),
    ensures
        mm(b, side, root, depth) == terminal_score(b, side, root),
{
    lemma_search_value(b, side, root, depth, 4098);
    assert forall|k: int| 0 <= k < 4098 implies !legal(b, #[trigger] all_moves()[k], side) by {
        if legal(b, all_moves()[k], side) {
            assert(any_legal(b, side));
        }
    }
}

/// Minimax values lie between the two mate scores.
pub proof fn lemma_mm_bounds(b: Board, side: Turn, root: Turn, depth: nat)
    ensures
        -MATE_SCORE <= mm(b, side, root, depth) <= MATE_SCORE,
    decreases depth,
{
    if depth == 0 {
        lemma_evaluation_bounds(b, root);
    } else if any_legal(b, side) {
        lemma_mm_is_best(b, side, root, depth);
        let v = mm(b, side, root, depth);
        let m = choose|m: LegalMove|
            legal(b, m, side) && #[trigger] mm(child(b, m, side), opposite(side), root, (depth - 1) as nat) == v;
        lemma_mm_bounds(child(b, m, side), opposite(side), root, (depth - 1) as nat);
    } else {
        lemma_search_value(b, side, root, depth, 4098);
        assert forall|k: int| 0 <= k < 4098 implies !legal(b, #[trigger] all_moves()[k], side) by {
            if legal(b, all_moves()[k], side) {
                assert(any_legal(b, side));
            }
        }
    }
}

} // verus!
