use ress::coordinate::{Coordinate, File, Move, Offset, Rank, Side};
use ress::piece::{Color, Piece, PieceKind};
use ress::{Board, Grid, PlayerMove};

fn sq(file: File, rank: Rank) -> Coordinate {
    Coordinate { file, rank }
}

#[test]
fn rank_and_file_parse() {
    assert_eq!(Rank::parse("1"), Some(Rank::First));
    assert_eq!(Rank::parse("8"), Some(Rank::Eighth));
    assert_eq!(Rank::parse("9"), None);
    assert_eq!(Rank::parse("11"), None);
    assert_eq!(Rank::parse(""), None);
    assert_eq!(File::parse("a"), Some(File::A));
    assert_eq!(File::parse("h"), Some(File::H));
    assert_eq!(File::parse("i"), None);
    assert_eq!(File::parse("A"), None);
}

#[test]
fn rank_and_file_arithmetic() {
    assert_eq!(Rank::Second.checked_add(2), Some(Rank::Fourth));
    assert_eq!(Rank::Eighth.checked_add(1), None);
    assert_eq!(Rank::First.checked_sub(1), None);
    assert_eq!(Rank::Fifth.checked_sub(3), Some(Rank::Second));
    assert_eq!(File::G.checked_add(1), Some(File::H));
    assert_eq!(File::H.checked_add(1), None);
    assert_eq!(File::A.checked_add(-1), None);
    assert_eq!(File::C.checked_add(127), None);
    assert_eq!(File::C.checked_sub(-128), None);
    assert_eq!(Rank::from_ord(3), Some(Rank::Fourth));
    assert_eq!(File::from_ord(8), None);
}

#[test]
fn coordinate_offsets() {
    let e4 = sq(File::E, Rank::Fourth);
    assert_eq!(e4.checked_add_offset(Offset { vertical: 2, horizontal: 1 }), Some(sq(File::F, Rank::Sixth)));
    assert_eq!(e4.checked_add_offset(Offset { vertical: -4, horizontal: 0 }), None);
    assert_eq!(e4.checked_add_offset(Offset { vertical: 0, horizontal: 4 }), None);
    let off = Offset::from_pair((1, -2));
    assert_eq!((off.horizontal, off.vertical), (1, -2));
}

#[test]
fn coordinate_parse() {
    assert_eq!(Coordinate::parse("e4"), Some(sq(File::E, Rank::Fourth)));
    assert_eq!(Coordinate::parse("h8x"), Some(sq(File::H, Rank::Eighth)));
    assert_eq!(Coordinate::parse("e"), None);
    assert_eq!(Coordinate::parse("4e"), None);
    assert_eq!(Coordinate::parse("e9"), None);
}

#[test]
fn ascending_walk_covers_board() {
    let mut it = Coordinate::iter();
    let mut seen = Vec::new();
    while let Some(c) = it.next() {
        seen.push(c);
    }
    assert_eq!(seen.len(), 64);
    assert_eq!(seen[0], sq(File::A, Rank::First));
    assert_eq!(seen[8], sq(File::A, Rank::Second));
    assert_eq!(seen[63], sq(File::H, Rank::Eighth));
}

#[test]
fn description_walk_covers_board() {
    let mut it = Coordinate::iter();
    let mut seen = Vec::new();
    while let Some(c) = it.next_back() {
        seen.push(c);
    }
    assert_eq!(seen.len(), 64);
    assert_eq!(seen[0], sq(File::A, Rank::Eighth));
    assert_eq!(seen[7], sq(File::H, Rank::Eighth));
    assert_eq!(seen[8], sq(File::A, Rank::Seventh));
    assert_eq!(seen[63], sq(File::H, Rank::First));
    assert_eq!(sq(File::H, Rank::First).back_next(), None);
    assert_eq!(sq(File::H, Rank::Eighth).next(), None);
}

#[test]
fn side_files() {
    assert_eq!(Side::King.king_safespot_file(), File::G);
    assert_eq!(Side::Queen.king_safespot_file(), File::C);
    assert_eq!(Side::King.rook_home_file(), File::H);
    assert_eq!(Side::Queen.rook_home_file(), File::A);
    assert_eq!(Side::King.rook_castled_file(), File::F);
    assert_eq!(Side::Queen.rook_castled_file(), File::D);
}

#[test]
fn color_ranks() {
    assert_eq!(Color::White.the_other(), Color::Black);
    assert_eq!(Color::Black.direction(), -1);
    assert_eq!(Color::White.home_rank(), Rank::First);
    assert_eq!(Color::Black.pawn_rank(), Rank::Seventh);
    assert_eq!(Color::White.prepromotion_rank(), Rank::Seventh);
    assert_eq!(Color::Black.promotion_rank(), Rank::First);
    assert_eq!(Color::White.en_passant_rank(), Rank::Fifth);
    assert_eq!(Color::Black.unpassable_rank(), Rank::Third);
}

#[test]
fn move_resolution() {
    let p = Move::Promotion { from: File::B, to: File::A, piece: PieceKind::Rook };
    assert_eq!(p.resolve_from(Color::Black), sq(File::B, Rank::Second));
    assert_eq!(p.resolve_to(Color::Black), sq(File::A, Rank::First));
    let ep = Move::EnPassant { from: File::E, to: File::D };
    assert_eq!(ep.resolve_from(Color::White), sq(File::E, Rank::Fifth));
    assert_eq!(ep.resolve_to(Color::White), sq(File::D, Rank::Sixth));
    let c = Move::Castling { side: Side::Queen };
    assert_eq!(c.resolve_from(Color::Black), sq(File::E, Rank::Eighth));
    assert_eq!(c.resolve_to(Color::Black), sq(File::C, Rank::Eighth));
}

#[test]
fn piece_parse() {
    assert_eq!(PieceKind::parse("q"), Some(PieceKind::Queen));
    assert_eq!(PieceKind::parse("Q"), None);
    assert_eq!(PieceKind::parse("qq"), None);
    assert_eq!(Piece::parse("N"), Some(Piece { kind: PieceKind::Knight, color: Color::White }));
    assert_eq!(Piece::parse("k"), Some(Piece { kind: PieceKind::King, color: Color::Black }));
    assert_eq!(Piece::parse("x"), None);
    assert_eq!(Piece::parse(""), None);
}

#[test]
fn player_move_parse() {
    assert!(matches!(
        PlayerMove::parse("e2e4"),
        Some(PlayerMove::Long { from, to, promotion: None })
            if from == sq(File::E, Rank::Second) && to == sq(File::E, Rank::Fourth)
    ));
    assert!(matches!(
        PlayerMove::parse("e7e8q"),
        Some(PlayerMove::Long { promotion: Some(PieceKind::Queen), .. })
    ));
    assert!(matches!(
        PlayerMove::parse("=efn"),
        Some(PlayerMove::Internal(Move::Promotion { from: File::E, to: File::F, piece: PieceKind::Knight }))
    ));
    assert!(matches!(
        PlayerMove::parse("~de"),
        Some(PlayerMove::Internal(Move::EnPassant { from: File::D, to: File::E }))
    ));
    assert!(matches!(
        PlayerMove::parse("cabc"),
        Some(PlayerMove::Internal(Move::Castling { side: Side::King }))
    ));
    assert!(matches!(
        PlayerMove::parse("c-o-oo"),
        Some(PlayerMove::Internal(Move::Castling { side: Side::Queen }))
    ));
    assert!(PlayerMove::parse("").is_none());
    assert!(PlayerMove::parse("e2e9").is_none());
    assert!(PlayerMove::parse("e7e8x").is_none());
    assert!(PlayerMove::parse("=ezq").is_none());
    assert!(PlayerMove::parse("c12").is_none());
}

#[test]
fn grid_simple_move() {
    let mut g = *Board::default().grid();
    let adv = g.apply(Move::Simple { from: sq(File::G, Rank::First), to: sq(File::F, Rank::Third) }, Color::White);
    assert!(!adv);
    assert_eq!(g.get(sq(File::F, Rank::Third)), Some(Piece { kind: PieceKind::Knight, color: Color::White }));
    assert_eq!(g.get(sq(File::G, Rank::First)), None);
    let adv = g.apply(Move::Simple { from: sq(File::E, Rank::Second), to: sq(File::E, Rank::Fourth) }, Color::White);
    assert!(adv);
}

#[test]
fn grid_capture_is_advancing() {
    let mut g = *Board::default().grid();
    let adv = g.apply(Move::Simple { from: sq(File::D, Rank::First), to: sq(File::D, Rank::Seventh) }, Color::White);
    assert!(adv);
    assert_eq!(g.get(sq(File::D, Rank::Seventh)), Some(Piece { kind: PieceKind::Queen, color: Color::White }));
}

#[test]
fn grid_castling_and_en_passant() {
    let mut g = Grid::empty();
    g.set(sq(File::E, Rank::Eighth), Some(Piece { kind: PieceKind::King, color: Color::Black }));
    g.set(sq(File::H, Rank::Eighth), Some(Piece { kind: PieceKind::Rook, color: Color::Black }));
    assert!(!g.apply(Move::Castling { side: Side::King }, Color::Black));
    assert_eq!(g.get(sq(File::G, Rank::Eighth)), Some(Piece { kind: PieceKind::King, color: Color::Black }));
    assert_eq!(g.get(sq(File::F, Rank::Eighth)), Some(Piece { kind: PieceKind::Rook, color: Color::Black }));
    assert_eq!(g.get(sq(File::E, Rank::Eighth)), None);
    assert_eq!(g.get(sq(File::H, Rank::Eighth)), None);
    g.set(sq(File::C, Rank::Fourth), Some(Piece { kind: PieceKind::Pawn, color: Color::Black }));
    g.set(sq(File::D, Rank::Fourth), Some(Piece { kind: PieceKind::Pawn, color: Color::White }));
    assert!(g.apply(Move::EnPassant { from: File::C, to: File::D }, Color::Black));
    assert_eq!(g.get(sq(File::D, Rank::Third)), Some(Piece { kind: PieceKind::Pawn, color: Color::Black }));
    assert_eq!(g.get(sq(File::D, Rank::Fourth)), None);
    assert_eq!(g.get(sq(File::C, Rank::Fourth)), None);
}

#[test]
fn grid_promotion() {
    let mut g = Grid::empty();
    g.set(sq(File::A, Rank::Second), Some(Piece { kind: PieceKind::Pawn, color: Color::Black }));
    assert!(g.apply(Move::Promotion { from: File::A, to: File::A, piece: PieceKind::Queen }, Color::Black));
    assert_eq!(g.get(sq(File::A, Rank::First)), Some(Piece { kind: PieceKind::Queen, color: Color::Black }));
    assert_eq!(g.get(sq(File::A, Rank::Second)), None);
}

#[test]
fn grid_walk_yields_pieces() {
    let g = *Board::default().grid();
    let mut it = g.iter_coord();
    assert_eq!(it.next(), Some((Some(Piece { kind: PieceKind::Rook, color: Color::White }), sq(File::A, Rank::First))));
    assert_eq!(it.next_back(), Some((Some(Piece { kind: PieceKind::Rook, color: Color::Black }), sq(File::A, Rank::Eighth))));
    let mut count = 2;
    while it.next().is_some() {
        count += 1;
    }
    assert_eq!(count, 65);
}

#[test]
fn same_position_compares_pieces() {
    let a = *Board::default().grid();
    let mut b = a;
    assert!(a.same_position(&b));
    b.set(sq(File::A, Rank::Third), Some(Piece { kind: PieceKind::Pawn, color: Color::White }));
    assert!(!a.same_position(&b));
}

#[test]
fn from_fen_start_position() {
    let board = Board::from_fen("rnbqkbnr/pppppppp/8/8/8/8/PPPPPPPP/RNBQKBNR w KQkq - 0 1").unwrap();
    assert_eq!(board.grid(), Board::default().grid());
    assert_eq!(board.white_castle, (true, true));
    assert_eq!(board.black_castle, (true, true));
    assert_eq!(board.move_color, Color::White);
    assert_eq!(board.stale_plies, 0);
    assert_eq!(board.possible_moves(Color::White).len(), 20);
}

#[test]
fn from_fen_fields() {
    let board = Board::from_fen("4k3/8/8/8/8/8/8/4K2R b Kq - 17 40").unwrap();
    assert_eq!(board.move_color, Color::Black);
    assert_eq!(board.white_castle, (false, true));
    assert_eq!(board.black_castle, (true, false));
    assert_eq!(board.stale_plies, 17);
    assert_eq!(board.grid().get(sq(File::H, Rank::First)), Some(Piece { kind: PieceKind::Rook, color: Color::White }));
    assert_eq!(board.grid().get(sq(File::E, Rank::Eighth)), Some(Piece { kind: PieceKind::King, color: Color::Black }));
    let plus = Board::from_fen("4k3/8/8/8/8/8/8/4K3 w - - +5 1").unwrap();
    assert_eq!(plus.stale_plies, 5);
}

#[test]
fn from_fen_rejects() {
    assert!(Board::from_fen("8/8/8/8/8/8/8/4K3 w - - 0 1").is_none());
    assert!(Board::from_fen("4k3/8/8/8/8/8/8/4K3 w - - x 1").is_none());
    assert!(Board::from_fen("4k3/8/8/8/8/8/8/4K3 w - - 256 1").is_none());
    assert!(Board::from_fen("4k3/8/8/8/8/8/8/4K3 w - -").is_none());
    assert!(Board::from_fen("4k3/8/8/8/8/8/8/8/4K3 w - - 0 1").is_none());
}

#[test]
fn attack_detection() {
    let board = Board::from_fen("4k3/8/8/8/8/8/3p4/R3K3 w - - 0 1").unwrap();
    assert!(board.is_under_attack(Color::White, sq(File::A, Rank::Eighth), None));
    assert!(board.is_under_attack(Color::Black, sq(File::E, Rank::First), None));
    assert!(!board.is_under_attack(Color::Black, sq(File::D, Rank::First), None));
    assert!(board.is_under_attack(Color::Black, sq(File::C, Rank::First), None));
    let m = Move::Simple { from: sq(File::E, Rank::First), to: sq(File::F, Rank::Second) };
    assert!(!board.is_under_attack(Color::Black, sq(File::E, Rank::First), Some((Color::White, m, true))));
    assert!(board.is_under_attack(Color::Black, sq(File::E, Rank::First), Some((Color::White, m, false))));
}

#[test]
fn find_and_material() {
    let board = Board::default();
    assert_eq!(board.find_piece(Piece { kind: PieceKind::King, color: Color::Black }), Some(sq(File::E, Rank::Eighth)));
    assert_eq!(board.find_piece(Piece { kind: PieceKind::Rook, color: Color::White }), Some(sq(File::A, Rank::First)));
    assert!(board.is_material_sufficient_for_checkmate());
    assert_eq!(board.repetitions(), 1);
    let pseudo = board.unchecked_for_check_possible_moves(Color::White);
    assert_eq!(pseudo.len(), 20);
}

#[test]
fn rights_update_by_hand() {
    let mut board = Board::default();
    board.handle_castling_rights_update(Color::White, Move::Simple { from: sq(File::A, Rank::First), to: sq(File::A, Rank::Third) });
    assert_eq!(board.white_castle, (false, true));
    board.handle_castling_rights_update(Color::Black, Move::Castling { side: Side::Queen });
    assert_eq!(board.black_castle, (false, false));
    assert_eq!(board.white_castle, (false, true));
}
