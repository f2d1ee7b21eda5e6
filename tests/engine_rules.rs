use chess_engine::board::{Board, Turn};
use chess_engine::fen::FEN;
use chess_engine::game::{Game, Human, PlayerTypes};
use chess_engine::movement::Movement;
use chess_engine::pieces::{Knight, Pawn, Rook, Queen, King};
use chess_engine::position::{CastleOptions, LegalMove, Position};
use chess_engine::search::{Analyzer, MATE_SCORE};

fn masks(b: &Board) -> [u64; 12] {
    [
        b.w_rooks, b.w_knights, b.w_bishops, b.w_queen, b.w_king, b.w_pawns, b.b_rooks,
        b.b_knights, b.b_bishops, b.b_queen, b.b_king, b.b_pawns,
    ]
}

fn assert_disjoint(b: &Board) {
    let m = masks(b);
    for i in 0..12 {
        for j in 0..12 {
            if i != j {
                assert_eq!(m[i] & m[j], 0, "masks {} and {} overlap", i, j);
            }
        }
    }
}

#[test]
fn start_position_masks() {
    let b = Board::new();
    assert_eq!(b.w_pawns, 0xff00);
    assert_eq!(b.b_pawns, 0x00ff_0000_0000_0000);
    assert_eq!(b.w_king, 0x8);
    assert_eq!(b.b_king, 0x0800_0000_0000_0000);
    assert_eq!(b.w_queen, 0x10);
    assert_eq!(b.w_rooks, 0x81);
    assert_eq!(b.getOcupancy(), 0xffff_0000_0000_ffff);
    assert_eq!(b.getNotOcupancy(), 0x0000_ffff_ffff_0000);
    assert_eq!(b.turn, Turn::White);
    assert!(!b.has_w_king_side_castle && !b.has_b_queen_side_castle);
    assert_disjoint(&b);
}

#[test]
fn fen_side_counters_and_rights() {
    let b = FEN::get_board_from_fenn_str("4k3/8/8/8/8/8/8/4K2R b K - 12 40");
    assert_eq!(b.turn, Turn::Black);
    assert!(!b.has_w_king_side_castle);
    assert!(b.has_w_queen_side_castle && b.has_b_king_side_castle && b.has_b_queen_side_castle);
    assert_eq!(b.half_move_count, 12);
    assert_eq!(b.full_move_count, 40);
    let bad = FEN::get_board_from_fenn_str("4k3/8/8/8/8/8/8/4K3 w - - x 300");
    assert_eq!(bad.half_move_count, 0);
    assert_eq!(bad.full_move_count, 0);
}

#[test]
fn knight_in_corner_exact_mask() {
    let b = Board::new_empty();
    assert_eq!(Knight::get_moves(0x1, Turn::White, b.getWhiteBitboard(), b.getBlackBitboard()), 0x20400);
}

#[test]
fn bishop_long_diagonal_without_wrap() {
    let b = Board::new_empty();
    let r = Movement::get_bishop_moves_bitboard(0x1, Turn::White, b.getWhiteBitboard(), b.getBlackBitboard());
    assert_eq!(r, 0x8040201008040200);
}

#[test]
fn rook_in_corner_and_blocked() {
    let empty = Board::new_empty();
    assert_eq!(Rook::get_moves(0x1, Turn::White, 0, 0), 0x01010101010101fe);
    let _ = empty;
    // own piece on the file stops the ray before it, an enemy piece is taken
    let r = Rook::get_moves(0x1, Turn::White, 0x1 | 0x10000, 0x4);
    assert_eq!(r, 0x100 | 0x2 | 0x4);
}

#[test]
fn queen_is_rook_and_bishop() {
    let r = Queen::get_moves(0x1, Turn::Black, 0, 0);
    assert_eq!(r, 0x01010101010101fe | 0x8040201008040200);
}

#[test]
fn king_steps_in_corner() {
    assert_eq!(King::get_moves(0x1, Turn::White, 0x1, 0), 0x302);
    assert_eq!(King::get_moves(0x80, Turn::White, 0x80 | 0x40, 0), 0xc000);
}

#[test]
fn pawn_double_step_needs_empty_squares() {
    assert_eq!(Pawn::get_moves(0x800, Turn::White, 0x800, 0), 0x0808_0000);
    assert_eq!(Pawn::get_moves(0x800, Turn::White, 0x800, 0x0800_0000), 0x0008_0000);
    assert_eq!(Pawn::get_moves(0x800, Turn::White, 0x800, 0x0008_0000), 0);
    assert_eq!(
        Pawn::get_moves(0x0008_0000_0000_0000, Turn::Black, 0, 0x0008_0000_0000_0000),
        0x0000_0808_0000_0000
    );
}

#[test]
fn pawn_captures_diagonally_only_enemies() {
    assert_eq!(Pawn::get_moves(0x800, Turn::White, 0x800 | 0x40000, 0x100000), 0x0808_0000 | 0x100000);
}

#[test]
fn en_passant_generated_only_beside_on_fifth_rank() {
    // white pawn on e5 (row 4, column 3), black pawn just stepped to d5 (row 4, column 4)
    let ep = 1u64 << 36;
    assert_eq!(Pawn::get_moves_enpassant(1u64 << 35, ep, Turn::White), 1u64 << 44);
    assert_eq!(Pawn::get_moves_enpassant(1u64 << 27, ep, Turn::White), 0);
    assert_eq!(Pawn::get_moves_enpassant(1u64 << 33, ep, Turn::White), 0);
    assert!(Movement::is_enpassant(1u64 << 35, ep));
}

#[test]
fn en_passant_removes_the_double_stepped_pawn() {
    let mut b = FEN::get_board_from_fenn_str("4k3/3p4/8/4P3/8/8/8/4K3 b - - 0 1");
    b.do_move(LegalMove::new(6, 4, 4, 4), Turn::Black);
    assert_eq!(b.b_en_passant, 1u64 << 36);
    let moves = b.get_moves(Turn::White);
    let capture = LegalMove::new(4, 3, 5, 4);
    assert!(moves.contains(&capture));
    b.do_move(capture, Turn::White);
    assert_eq!(b.b_pawns, 0);
    assert_eq!(b.w_pawns, 1u64 << 44);
    assert_disjoint(&b);
}

#[test]
fn promotion_makes_a_queen() {
    let mut b = FEN::get_board_from_fenn_str("k7/4P3/8/8/8/8/8/4K3 w - - 0 1");
    b.do_move(LegalMove::new(6, 3, 7, 3), Turn::White);
    assert_eq!(b.w_pawns, 0);
    assert_eq!(b.w_queen, 1u64 << 59);
    assert_eq!(b.turn, Turn::Black);
}

#[test]
fn castling_rules() {
    let b = FEN::get_board_from_fenn_str("r3k2r/8/8/8/8/8/8/R3K2R w KQkq - 0 1");
    assert!(b.can_castle_king_side(Turn::White));
    assert!(b.can_castle_queen_side(Turn::White));
    assert!(b.can_castle_king_side(Turn::Black));
    // right spent
    let spent = FEN::get_board_from_fenn_str("r3k2r/8/8/8/8/8/8/R3K2R w Qkq - 0 1");
    assert!(!spent.can_castle_king_side(Turn::White));
    // square between occupied
    let blocked = FEN::get_board_from_fenn_str("r3k2r/8/8/8/8/8/8/R3KB1R w KQkq - 0 1");
    assert!(!blocked.can_castle_king_side(Turn::White));
    // king's path attacked by a black rook on the f-file
    let attacked = FEN::get_board_from_fenn_str("r3kr2/8/8/8/8/8/8/R3K2R w KQq - 0 1");
    assert!(!attacked.can_castle_king_side(Turn::White));
    assert!(attacked.can_castle_queen_side(Turn::White));
    // after the king moves no castling is left
    let mut moved = b;
    moved.do_move(LegalMove::new(0, 3, 1, 3), Turn::White);
    moved.do_move(LegalMove::new(1, 3, 0, 3), Turn::White);
    assert!(!moved.can_castle_king_side(Turn::White));
    assert!(!moved.can_castle_queen_side(Turn::White));
}

#[test]
fn castle_relocates_king_and_rook() {
    let mut b = FEN::get_board_from_fenn_str("r3k2r/8/8/8/8/8/8/R3K2R w KQkq - 0 1");
    b.do_move(LegalMove::king_side_castle(Turn::White), Turn::White);
    assert_eq!(b.w_king, 0x2);
    assert_eq!(b.w_rooks, 0x80 | 0x4);
    assert!(b.has_w_king_side_castle && b.w_king_has_moved);
    b.do_move(LegalMove::queen_side_castle(Turn::Black), Turn::Black);
    assert_eq!(b.b_king, 0x2000_0000_0000_0000);
    assert_eq!(b.b_rooks, 0x0100_0000_0000_0000 | 0x1000_0000_0000_0000);
    assert_disjoint(&b);
}

#[test]
fn legal_moves_leave_king_safe() {
    // white king on e1 pinned knight on e2 by a black rook on e8
    let b = FEN::get_board_from_fenn_str("4r2k/8/8/8/8/8/4N3/4K3 w - - 0 1");
    let moves = b.get_moves(Turn::White);
    assert!(!moves.is_empty());
    for m in moves.iter() {
        let mut c = b;
        c.do_move(*m, Turn::White);
        assert!(!Movement::check_for_check(Turn::White, c));
        assert!(!(m.from.row == 1 && m.from.colum == 3), "pinned knight moved");
    }
    let start = Board::new();
    assert_eq!(start.get_moves(Turn::White).len(), 20);
    assert_eq!(start.get_moves(Turn::Black).len(), 20);
}

#[test]
fn moves_keep_masks_disjoint() {
    let mut b = Board::new();
    let mut side = Turn::White;
    for _ in 0..6 {
        let moves = b.get_moves(side);
        let m = moves[moves.len() / 2];
        b.do_move(m, side);
        assert_disjoint(&b);
        side = Movement::get_oposite_color(side);
    }
}

#[test]
fn check_and_checkmate() {
    // fool's mate
    let b = FEN::get_board_from_fenn_str("rnb1kbnr/pppp1ppp/8/4p3/6Pq/5P2/PPPPP2P/RNBQKBNR w KQkq - 1 3");
    assert!(Movement::check_for_check(Turn::White, b));
    assert!(Movement::check_for_checkmate(Turn::White, b));
    assert!(!Movement::check_for_checkmate(Turn::Black, b));
    let g = Game::setup_from_fenn("rnb1kbnr/pppp1ppp/8/4p3/6Pq/5P2/PPPPP2P/RNBQKBNR w KQkq - 1 3", PlayerTypes::HUMAN, PlayerTypes::AI);
    assert!(g.is_checkmate(Turn::White));
    assert!(!Game::setup(PlayerTypes::AI, PlayerTypes::AI).is_checkmate(Turn::White));
}

#[test]
fn scores_of_start_position() {
    let b = Board::new();
    assert_eq!(Analyzer::get_plain_score(b, Turn::White), 0);
    assert_eq!(Analyzer::get_attacked_score(Turn::White, b), 20);
    assert_eq!(Analyzer::get_activity_score(b, Turn::White), 0);
    let up = FEN::get_board_from_fenn_str("4k3/8/8/8/8/8/8/3QK3 w - - 0 1");
    assert_eq!(Analyzer::get_plain_score(up, Turn::White), 1000);
    assert_eq!(Analyzer::get_plain_score(up, Turn::Black), -1000);
    assert_eq!(Movement::pieces_count(up.w_queen), 1);
    assert_eq!(Movement::pieces_count(0xff), 8);
}

#[test]
fn depth_zero_is_static_evaluation() {
    let b = FEN::get_board_from_fenn_str("4k3/8/8/8/8/8/3P4/3QK3 w - - 0 1");
    let e = Analyzer::analyze_state(b, Turn::Black);
    assert_eq!(Analyzer::r_minimax(b, Turn::White, Turn::Black, 0, -5, 5), e);
    assert_eq!(e, Analyzer::get_plain_score(b, Turn::Black) + Analyzer::get_activity_score(b, Turn::Black));
}

#[test]
fn pruning_keeps_the_best_move() {
    let positions = [
        "4k3/8/8/8/8/8/3P4/3QK3 w - - 0 1",
        "6k1/5ppp/8/8/8/8/5PPP/3R2K1 w - - 0 1",
        "r3k3/8/8/8/8/8/8/4K2R b - - 0 1",
    ];
    for p in positions.iter() {
        let b = FEN::get_board_from_fenn_str(p);
        let side = b.turn;
        for depth in 1..3 {
            let pruned = Analyzer::minimax(b, side, side, depth, -MATE_SCORE, MATE_SCORE);
            let full = Analyzer::full_minimax_move(b, side, depth);
            assert_eq!(pruned, full, "position {} depth {}", p, depth);
        }
    }
}

#[test]
fn pruning_picks_same_index_in_same_list() {
    let b = FEN::get_board_from_fenn_str("r3k3/8/8/8/8/8/8/4K2R w - - 0 1");
    let moves = b.get_moves(Turn::White);
    for depth in 1..3 {
        let pruned = Analyzer::best_index_pruned(b, Turn::White, Turn::White, depth, &moves, -MATE_SCORE, MATE_SCORE);
        let full = Analyzer::best_index_full(b, Turn::White, Turn::White, depth, &moves);
        assert_eq!(pruned, full);
    }
}

#[test]
fn pruned_score_equals_full_score() {
    let positions = [
        "4k3/8/8/8/8/8/3P4/3QK3 w - - 0 1",
        "6k1/5ppp/8/8/8/8/5PPP/3R2K1 b - - 0 1",
    ];
    for p in positions.iter() {
        let b = FEN::get_board_from_fenn_str(p);
        let side = b.turn;
        for depth in 0..3 {
            let full = Analyzer::full_minimax(b, side, Turn::White, depth);
            let pruned = Analyzer::r_minimax(b, side, Turn::White, depth, -MATE_SCORE, MATE_SCORE);
            assert_eq!(pruned, full, "position {} depth {}", p, depth);
        }
    }
}

#[test]
fn search_finds_mate_in_one() {
    let b = FEN::get_board_from_fenn_str("6k1/5ppp/8/8/8/8/5PPP/3R2K1 w - - 0 1");
    let m = Analyzer::minimax(b, Turn::White, Turn::White, 2, -MATE_SCORE, MATE_SCORE);
    assert_eq!(m, LegalMove::new(0, 4, 7, 4));
}

#[test]
fn no_move_sentinel_when_mated() {
    let b = FEN::get_board_from_fenn_str("rnb1kbnr/pppp1ppp/8/4p3/6Pq/5P2/PPPPP2P/RNBQKBNR w KQkq - 1 3");
    let m = Analyzer::minimax(b, Turn::White, Turn::White, 1, -MATE_SCORE, MATE_SCORE);
    assert_eq!(m, LegalMove::new(0, 0, 0, 0));
}

#[test]
fn human_input_is_read() {
    assert_eq!(Human::parse_move("e2;e4\n"), LegalMove::new(1, 3, 3, 3));
    assert_eq!(Human::parse_move(" O-O ").castle, CastleOptions::KingSide);
    assert_eq!(Human::parse_move("O-O-O").castle, CastleOptions::QueenSide);
    let junk = Human::parse_move("zz");
    assert_eq!(junk.castle, CastleOptions::NoCastle);
    assert_eq!(junk.from, Position { colum: 7, row: -1 });
}

#[test]
fn bit_finders() {
    assert_eq!(Movement::get_piece_index(0), -1);
    assert_eq!(Movement::get_piece_index(0x80), 7);
    assert_eq!(Movement::msb_pos(0x8000_0000_0000_0001), 63);
    assert_eq!(Movement::lsb_pos(0x8000_0000_0000_0100), 8);
    assert_eq!(Movement::msb_pos(0), -1);
    assert_eq!(Movement::get_oposite_color(Turn::White), Turn::Black);
    assert_eq!(Movement::enemy_blockers(&Turn::White, 1, 2), 2);
    assert_eq!(Movement::ally_blockers(&Turn::White, 1, 2), 1);
}

#[test]
fn game_plays_for_side_to_move() {
    let mut g = Game::setup(PlayerTypes::HUMAN, PlayerTypes::AI);
    assert_eq!(g.player_to_move(), PlayerTypes::HUMAN);
    g.play(LegalMove::new(1, 3, 3, 3));
    assert_eq!(g.get_board().turn, Turn::Black);
    assert_eq!(g.player_to_move(), PlayerTypes::AI);
    assert_eq!(g.get_board_copy().w_pawns, (0xff00 & !0x800) | 0x0800_0000);
}

#[test]
fn board_letters() {
    let letters = chess_engine::printer::Printer::piece_letters(Board::new());
    assert_eq!(letters.len(), 64);
    assert_eq!(letters[3], b'K');
    assert_eq!(letters[59], b'k');
    assert_eq!(letters[4], b'Q');
    assert_eq!(letters[8], b'P');
    assert_eq!(letters[32], b'.');
    assert_eq!(letters[63], b'r');
}

#[test]
fn en_passant_neighbour_stays_on_the_row() {
    assert!(!Movement::is_enpassant(1u64 << 8, 1u64 << 7));
    assert!(!Movement::is_enpassant(1u64 << 7, 1u64 << 8));
    assert!(Movement::is_enpassant(1u64 << 9, 1u64 << 8));
    assert!(Board::new_empty().pub_is_enpassant_bitboard(1u64 << 36, 1u64 << 35));
}

#[test]
fn queen_side_castle_ignores_attack_on_b1() {
    // a black bishop on a2 attacks b1 only among the queen-side squares
    let b = FEN::get_board_from_fenn_str("4k3/8/8/8/8/8/b7/R3K3 w Q - 0 1");
    assert!(b.can_castle_queen_side(Turn::White));
    // a black rook on d8 attacks d1, which the king crosses
    let d = FEN::get_board_from_fenn_str("3rk3/8/8/8/8/8/8/R3K3 w Q - 0 1");
    assert!(!d.can_castle_queen_side(Turn::White));
}

#[test]
fn stalemate_scores_large_for_the_stalemated_side() {
    // black to move, not in check, no legal move
    let b = FEN::get_board_from_fenn_str("7k/5Q2/6K1/8/8/8/8/8 b - - 0 1");
    assert!(!Movement::check_for_check(Turn::Black, b));
    assert!(b.get_moves(Turn::Black).is_empty());
    assert_eq!(Analyzer::r_minimax(b, Turn::Black, Turn::Black, 1, -MATE_SCORE, MATE_SCORE), 500000);
    assert_eq!(Analyzer::r_minimax(b, Turn::Black, Turn::White, 1, -MATE_SCORE, MATE_SCORE), -500000);
}

#[test]
fn minimax_at_depth_zero_scores_children_statically() {
    let b = FEN::get_board_from_fenn_str("4k3/8/8/8/8/8/3P4/3QK3 w - - 0 1");
    let m = Analyzer::minimax(b, Turn::White, Turn::White, 0, -MATE_SCORE, MATE_SCORE);
    assert!(b.get_moves(Turn::White).contains(&m));
    assert_eq!(m, Analyzer::full_minimax_move(b, Turn::White, 0));
}

#[test]
fn fen_places_pieces() {
    let b = FEN::get_board_from_fenn_str("R6R/1N4N1/2B2B2/4Q3/3PP3/2B2B2/1N4N1/R6R w - - 0 1");
    assert_eq!(b.w_rooks, 0x8100000000000081);
    assert_eq!(b.w_knights, 0x42000000004200);
    assert_eq!(b.w_bishops, 0x240000240000);
    assert_eq!(b.w_queen, 0x800000000);
    assert_eq!(b.w_pawns, 0x18000000);
    assert_eq!(b.getBlackBitboard(), 0);
    assert_eq!(b.full_move_count, 1);
}

#[test]
fn legalize_keeps_order() {
    let mut b = FEN::get_board_from_fenn_str("4r2k/8/8/8/8/8/4N3/4K3 w - - 0 1");
    let moves = b.pseudo_legal_moves(Turn::White);
    let kept = b.legalize_moves(moves.clone(), Turn::White);
    let mut it = moves.iter();
    for m in kept.iter() {
        assert!(it.any(|x| x == m));
    }
}
