use ress::coordinate::{Coordinate, File, Move, Rank, Side};
use ress::piece::{Color, Piece, PieceKind};
use ress::{Board, DrawReason, GameOutcome, MoveError, PlayerMove, WinReason};

fn play(board: &mut Board, raw: &str) -> Result<Option<GameOutcome>, MoveError> {
    let m = PlayerMove::parse(raw).expect("the move text should parse");
    board.play_move(m)
}

fn play_all(board: &mut Board, moves: &[&str]) {
    for raw in moves {
        assert_eq!(play(board, raw), Ok(None), "move {raw} should be accepted");
    }
}

fn sq(file: File, rank: Rank) -> Coordinate {
    Coordinate { file, rank }
}

fn current(board: &Board) -> ress::Grid {
    *board.grid()
}

#[test]
fn starting_position_has_twenty_moves() {
    let board = Board::default();
    assert_eq!(board.possible_moves(Color::White).len(), 20);
    assert_eq!(board.possible_moves(Color::Black).len(), 20);
}

#[test]
fn starting_position_pieces() {
    let board = Board::default();
    let g = current(&board);
    assert_eq!(g.get(sq(File::E, Rank::First)), Some(Piece { kind: PieceKind::King, color: Color::White }));
    assert_eq!(g.get(sq(File::D, Rank::Eighth)), Some(Piece { kind: PieceKind::Queen, color: Color::Black }));
    assert_eq!(g.get(sq(File::C, Rank::Seventh)), Some(Piece { kind: PieceKind::Pawn, color: Color::Black }));
    assert_eq!(g.get(sq(File::C, Rank::Fourth)), None);
    assert_eq!(board.white_castle, (true, true));
    assert_eq!(board.move_color, Color::White);
    assert_eq!(board.grid_history.len(), 1);
}

#[test]
fn scholars_mate_is_checkmate() {
    let mut board = Board::default();
    play_all(&mut board, &["e2e4", "e7e5", "f1c4", "b8c6", "d1h5", "g8f6"]);
    let r = play(&mut board, "h5f7");
    let mate = GameOutcome::Decisive { won: Color::White, reason: WinReason::Checkmate };
    assert_eq!(r, Ok(Some(mate)));
    assert_eq!(board.game_outcome, Some(mate));
    assert_eq!(board.move_color, Color::White);
    assert_eq!(play(&mut board, "a7a6"), Err(MoveError::GameHasOutcome(mate)));
}

#[test]
fn en_passant_right_after_double_step() {
    let mut board = Board::default();
    play_all(&mut board, &["e2e4", "a7a6", "e4e5", "d7d5"]);
    let ep = Move::EnPassant { from: File::E, to: File::D };
    assert!(board.possible_moves(Color::White).contains(&ep));
    assert_eq!(play(&mut board, "e5d6"), Ok(None));
    let g = current(&board);
    assert_eq!(g.get(sq(File::D, Rank::Sixth)), Some(Piece { kind: PieceKind::Pawn, color: Color::White }));
    assert_eq!(g.get(sq(File::D, Rank::Fifth)), None);
    assert_eq!(g.get(sq(File::E, Rank::Fifth)), None);
    assert_eq!(board.last_move, Some(ep));
    assert_eq!(board.stale_plies, 0);
}

#[test]
fn en_passant_in_internal_form() {
    let mut board = Board::default();
    play_all(&mut board, &["e2e4", "a7a6", "e4e5", "f7f5"]);
    assert_eq!(play(&mut board, "~ef"), Ok(None));
    assert_eq!(current(&board).get(sq(File::F, Rank::Fifth)), None);
}

#[test]
fn en_passant_refused_after_another_move() {
    let mut board = Board::default();
    play_all(&mut board, &["e2e4", "a7a6", "e4e5", "d7d5", "h2h3", "h7h6"]);
    assert_eq!(play(&mut board, "e5d6"), Err(MoveError::IllegalMove));
    assert_eq!(play(&mut board, "~ed"), Err(MoveError::IllegalMove));
    assert_eq!(board.grid_history.len(), 7);
}

#[test]
fn en_passant_refused_after_single_steps() {
    let mut board = Board::default();
    play_all(&mut board, &["e2e4", "d7d6", "e4e5", "d6d5"]);
    assert!(!board.possible_moves(Color::White).contains(&Move::EnPassant { from: File::E, to: File::D }));
}

#[test]
fn stalemate_draws() {
    let mut board = Board::from_fen("k7/8/8/1Q6/8/8/8/7K w - - 0 1").unwrap();
    assert_eq!(play(&mut board, "b5b6"), Ok(Some(GameOutcome::Draw(DrawReason::Stalemate))));
    assert!(board.possible_moves(Color::Black).is_empty());
}

#[test]
fn bare_kings_draw() {
    let mut board = Board::from_fen("k7/8/8/8/8/8/1p6/K7 w - - 0 1").unwrap();
    assert_eq!(play(&mut board, "a1b2"), Ok(Some(GameOutcome::Draw(DrawReason::InsufficientMaterial))));
}

#[test]
fn king_and_knight_draw() {
    let mut board = Board::from_fen("k7/8/8/8/8/8/8/6NK w - - 0 1").unwrap();
    assert_eq!(play(&mut board, "g1f3"), Ok(Some(GameOutcome::Draw(DrawReason::InsufficientMaterial))));
}

#[test]
fn king_and_bishop_draw() {
    let mut board = Board::from_fen("k7/8/8/8/8/8/8/5B1K w - - 0 1").unwrap();
    assert_eq!(play(&mut board, "f1e2"), Ok(Some(GameOutcome::Draw(DrawReason::InsufficientMaterial))));
}

#[test]
fn bishop_and_knight_can_mate() {
    let mut board = Board::from_fen("k7/8/8/8/8/8/8/5BNK w - - 0 1").unwrap();
    assert!(board.is_material_sufficient_for_checkmate());
    assert_eq!(play(&mut board, "g1f3"), Ok(None));
    assert_eq!(board.move_color, Color::Black);
}

#[test]
fn fifty_move_rule() {
    let mut board = Board::from_fen("k7/8/8/8/8/8/8/1R5K w - - 99 1").unwrap();
    assert_eq!(board.stale_plies, 99);
    assert_eq!(play(&mut board, "h1g1"), Ok(Some(GameOutcome::Draw(DrawReason::NoAdvancement))));
    assert_eq!(board.stale_plies, 100);
}

#[test]
fn pawn_move_resets_stale_plies() {
    let mut board = Board::from_fen("k7/8/8/8/8/8/P7/1R5K w - - 99 1").unwrap();
    assert_eq!(play(&mut board, "a2a3"), Ok(None));
    assert_eq!(board.stale_plies, 0);
}

#[test]
fn quiet_moves_count_stale_plies() {
    let mut board = Board::default();
    play_all(&mut board, &["g1f3", "g8f6", "e2e4"]);
    assert_eq!(board.stale_plies, 0);
    play_all(&mut board, &["b8c6"]);
    assert_eq!(board.stale_plies, 1);
}

const CYCLE: [&str; 4] = ["g1f3", "g8f6", "f3g1", "f6g8"];

#[test]
fn third_repetition_offers_draw_and_acceptance_draws() {
    let mut board = Board::default();
    play_all(&mut board, &CYCLE);
    play_all(&mut board, &CYCLE[..3]);
    assert_eq!(board.draw_pending, None);
    assert_eq!(play(&mut board, CYCLE[3]), Ok(None));
    assert_eq!(board.draw_pending, Some((true, Color::Black)));
    assert_eq!(board.game_outcome, None);
    assert_eq!(play(&mut board, "e2e4"), Err(MoveError::DrawPending));
    board.propose_draw(Color::White);
    assert_eq!(board.game_outcome, Some(GameOutcome::Draw(DrawReason::ThreefoldRepetition)));
}

#[test]
fn declined_repetitions_end_in_fivefold() {
    let mut board = Board::default();
    let mut plies = 0;
    while board.game_outcome.is_none() {
        if board.draw_pending.is_some() {
            board.decline_draw();
            assert_eq!(board.draw_pending, None);
        }
        let r = play(&mut board, CYCLE[plies % 4]);
        assert!(r.is_ok());
        plies += 1;
        assert!(plies <= 16);
    }
    assert_eq!(plies, 16);
    assert_eq!(board.game_outcome, Some(GameOutcome::Draw(DrawReason::FivefoldRepetition)));
}

#[test]
fn draw_by_agreement() {
    let mut board = Board::default();
    board.propose_draw(Color::White);
    assert_eq!(board.draw_pending, Some((false, Color::White)));
    board.propose_draw(Color::White);
    assert_eq!(board.game_outcome, None);
    board.propose_draw(Color::Black);
    assert_eq!(board.game_outcome, Some(GameOutcome::Draw(DrawReason::Agreement)));
}

#[test]
fn declined_offer_lets_play_go_on() {
    let mut board = Board::default();
    board.propose_draw(Color::Black);
    assert_eq!(play(&mut board, "e2e4"), Err(MoveError::DrawPending));
    board.decline_draw();
    assert_eq!(play(&mut board, "e2e4"), Ok(None));
}

#[test]
fn resignation() {
    let mut board = Board::default();
    board.propose_draw(Color::White);
    board.resign(Color::White);
    let won = GameOutcome::Decisive { won: Color::Black, reason: WinReason::Resignation };
    assert_eq!(board.game_outcome, Some(won));
    assert_eq!(play(&mut board, "e2e4"), Err(MoveError::GameHasOutcome(won)));
}

#[test]
fn illegal_moves_refused() {
    let mut board = Board::default();
    assert_eq!(play(&mut board, "e2e5"), Err(MoveError::IllegalMove));
    assert_eq!(play(&mut board, "e7e5"), Err(MoveError::IllegalMove));
    assert_eq!(play(&mut board, "g1g3"), Err(MoveError::IllegalMove));
    assert_eq!(board.grid_history.len(), 1);
    assert_eq!(board.move_color, Color::White);
}

#[test]
fn short_form_is_not_resolved() {
    let mut board = Board::default();
    let m = PlayerMove::Short {
        piece: PieceKind::Pawn,
        to: (File::E, Some(Rank::Fourth)),
        from: (None, None),
        capture: false,
        promotion: None,
    };
    assert_eq!(board.play_move(m), Err(MoveError::IllegalMove));
}

#[test]
fn pinned_piece_cannot_move() {
    let board = Board::from_fen("4k3/4r3/8/8/8/8/4B3/4K3 w - - 0 1").unwrap();
    let moves = board.possible_moves(Color::White);
    assert!(moves.iter().all(|m| m.resolve_from(Color::White) != sq(File::E, Rank::Second)));
    assert!(!moves.is_empty());
}

#[test]
fn king_must_leave_check() {
    let board = Board::from_fen("4k3/8/8/8/8/8/8/r3K3 w - - 0 1").unwrap();
    let moves = board.possible_moves(Color::White);
    for m in &moves {
        assert!(!board.is_under_attack(Color::Black, sq(File::E, Rank::First), Some((Color::White, *m, true))));
    }
    assert_eq!(moves.len(), 3);
}

#[test]
fn castling_both_sides() {
    let board = Board::from_fen("r3k2r/8/8/8/8/8/8/R3K2R w KQkq - 0 1").unwrap();
    let moves = board.possible_moves(Color::White);
    assert!(moves.contains(&Move::Castling { side: Side::King }));
    assert!(moves.contains(&Move::Castling { side: Side::Queen }));
    let mut kingside = board.clone();
    assert_eq!(play(&mut kingside, "e1g1"), Ok(None));
    let g = current(&kingside);
    assert_eq!(g.get(sq(File::G, Rank::First)), Some(Piece { kind: PieceKind::King, color: Color::White }));
    assert_eq!(g.get(sq(File::F, Rank::First)), Some(Piece { kind: PieceKind::Rook, color: Color::White }));
    assert_eq!(g.get(sq(File::H, Rank::First)), None);
    assert_eq!(kingside.white_castle, (false, false));
    assert_eq!(kingside.black_castle, (true, true));
    let mut queenside = board.clone();
    assert_eq!(play(&mut queenside, "cooooo"), Ok(None));
    let g = current(&queenside);
    assert_eq!(g.get(sq(File::C, Rank::First)), Some(Piece { kind: PieceKind::King, color: Color::White }));
    assert_eq!(g.get(sq(File::D, Rank::First)), Some(Piece { kind: PieceKind::Rook, color: Color::White }));
}

#[test]
fn castling_needs_empty_path() {
    let board = Board::from_fen("r3k2r/8/8/8/8/8/8/RN2K1NR w KQkq - 0 1").unwrap();
    let moves = board.possible_moves(Color::White);
    assert!(!moves.contains(&Move::Castling { side: Side::King }));
    assert!(!moves.contains(&Move::Castling { side: Side::Queen }));
}

#[test]
fn castling_not_through_attacked_square() {
    let board = Board::from_fen("r3k2r/8/8/8/8/8/5r2/R3K2R w KQkq - 0 1").unwrap();
    let moves = board.possible_moves(Color::White);
    assert!(!moves.contains(&Move::Castling { side: Side::King }));
    assert!(moves.contains(&Move::Castling { side: Side::Queen }));
}

#[test]
fn castling_not_onto_attacked_square() {
    let board = Board::from_fen("r3k2r/8/8/8/8/8/6r1/R3K2R w KQkq - 0 1").unwrap();
    let moves = board.possible_moves(Color::White);
    assert!(!moves.contains(&Move::Castling { side: Side::King }));
}

#[test]
fn king_move_revokes_castling() {
    let mut board = Board::from_fen("r3k2r/8/8/8/8/8/8/R3K2R w KQkq - 0 1").unwrap();
    play_all(&mut board, &["e1f1", "e8f8", "f1e1", "f8e8"]);
    assert_eq!(board.white_castle, (false, false));
    assert_eq!(board.black_castle, (false, false));
    let moves = board.possible_moves(Color::White);
    assert!(!moves.contains(&Move::Castling { side: Side::King }));
    assert!(!moves.contains(&Move::Castling { side: Side::Queen }));
}

#[test]
fn rook_move_revokes_one_side() {
    let mut board = Board::from_fen("r3k2r/8/8/8/8/8/8/R3K2R w KQkq - 0 1").unwrap();
    play_all(&mut board, &["h1h2", "a8a7"]);
    assert_eq!(board.white_castle, (true, false));
    assert_eq!(board.black_castle, (false, true));
}

#[test]
fn captured_rook_revokes_castling() {
    let mut board = Board::from_fen("r3k2r/8/8/8/8/8/8/R3K2R b KQkq - 0 1").unwrap();
    assert_eq!(play(&mut board, "a8a1"), Ok(None));
    assert_eq!(board.white_castle, (false, true));
    assert_eq!(board.black_castle, (false, true));
}

#[test]
fn promotion_in_long_form() {
    let mut board = Board::from_fen("k7/4P3/8/8/8/8/p7/4K3 w - - 0 1").unwrap();
    assert_eq!(play(&mut board, "e7e8"), Err(MoveError::IllegalMove));
    assert_eq!(play(&mut board, "e7e8n"), Ok(None));
    assert_eq!(current(&board).get(sq(File::E, Rank::Eighth)), Some(Piece { kind: PieceKind::Knight, color: Color::White }));
    assert_eq!(current(&board).get(sq(File::E, Rank::Seventh)), None);
    assert_eq!(board.last_move, Some(Move::Promotion { from: File::E, to: File::E, piece: PieceKind::Knight }));
}

#[test]
fn promotion_moves_generated() {
    let board = Board::from_fen("3r3k/4P3/8/8/8/8/8/4K3 w - - 0 1").unwrap();
    let moves = board.possible_moves(Color::White);
    let promotions = moves.iter().filter(|m| matches!(m, Move::Promotion { .. })).count();
    assert_eq!(promotions, 8);
    assert!(moves.contains(&Move::Promotion { from: File::E, to: File::D, piece: PieceKind::Queen }));
}

#[test]
fn promotion_in_internal_form() {
    let mut board = Board::from_fen("3r3k/4P3/8/8/8/8/8/4K3 w - - 0 1").unwrap();
    assert_eq!(play(&mut board, "=edq"), Ok(None));
    assert_eq!(current(&board).get(sq(File::D, Rank::Eighth)), Some(Piece { kind: PieceKind::Queen, color: Color::White }));
    assert_eq!(board.stale_plies, 0);
}

#[test]
fn checkmate_detected_for_black() {
    let mut board = Board::default();
    play_all(&mut board, &["f2f3", "e7e5", "g2g4"]);
    let r = play(&mut board, "d8h4");
    assert_eq!(r, Ok(Some(GameOutcome::Decisive { won: Color::Black, reason: WinReason::Checkmate })));
}

#[test]
fn history_grows_by_one_per_move() {
    let mut board = Board::default();
    play_all(&mut board, &["d2d4", "d7d5", "c2c4"]);
    assert_eq!(board.grid_history.len(), 4);
    assert_eq!(board.move_color, Color::Black);
    assert_eq!(board.last_move, Some(Move::Simple { from: sq(File::C, Rank::Second), to: sq(File::C, Rank::Fourth) }));
}

#[test]
fn self_play_never_leaves_own_king_attacked() {
    let mut board = Board::default();
    let mut pick = 7usize;
    for _ in 0..80 {
        if board.game_outcome.is_some() {
            break;
        }
        if board.draw_pending.is_some() {
            board.decline_draw();
        }
        let color = board.move_color;
        let moves = board.possible_moves(color);
        assert!(!moves.is_empty());
        pick = (pick * 31 + 17) % 1009;
        let m = moves[pick % moves.len()];
        assert!(board.play_move(PlayerMove::Internal(m)).is_ok());
        let king = board.find_piece(Piece { kind: PieceKind::King, color }).unwrap();
        assert!(!board.is_under_attack(color.the_other(), king, None));
    }
}

#[test]
fn offset_between_squares() {
    let off = sq(File::B, Rank::First).offset_from(sq(File::G, Rank::Third));
    assert_eq!((off.horizontal, off.vertical), (-5, -2));
    assert_eq!(sq(File::G, Rank::Third).checked_add_offset(off), Some(sq(File::B, Rank::First)));
}
