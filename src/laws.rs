use vstd::prelude::*;

use crate::board::{
    count_in, heavy, rights_after, sufficient_material, Board, DrawReason, GameOutcome,
};
use crate::coordinate::{Coordinate, File, Move, Side};
use crate::grid::{has_piece, holds, king_square, Grid};
use crate::piece::{Color, PieceKind};
use crate::rules::attacked;

verus! {

/// Whether `color` has at most one king on the grid.
pub open spec fn unique_king(g: Grid, color: Color) -> bool {
    forall|x: Coordinate, y: Coordinate|
        holds(#[trigger] g.at(x), PieceKind::King, color) && holds(#[trigger] g.at(y), PieceKind::King, color)
            ==> x == y
}

/// An en passant capture is legal only right after the opposing pawn on the
/// target file advanced two squares to stand beside the capturing pawn.
pub proof fn lemma_en_passant_needs_double_step(b: Board, c: Color, from: File, to: File)
    requires
        b.legal(c, Move::EnPassant { from, to }),
    ensures
        b.last_move == Some(
            Move::Simple {
                from: Coordinate { file: to, rank: c.spec_the_other().spec_pawn_rank() },
                to: Coordinate { file: to, rank: c.spec_en_passant_rank() },
            },
        ),
        holds(
            b.current().at(Coordinate { file: to, rank: c.spec_en_passant_rank() }),
            PieceKind::Pawn,
            c.spec_the_other(),
        ),
        from.spec_ord() - to.spec_ord() == 1 || to.spec_ord() - from.spec_ord() == 1,
{
    let m = Move::EnPassant { from, to };
    let s = choose|s: Coordinate| #[trigger] b.pseudo_at(c, s, m);
    assert(b.pseudo_at(c, s, m));
}

/// Right after an opposing pawn advanced two squares to stand beside a pawn of
/// `c`, capturing it en passant is a move of that pawn (legal unless it leaves
/// the king of `c` attacked).
pub proof fn lemma_en_passant_available(b: Board, c: Color, from: File, to: File)
    requires
        b.last_move == Some(
            Move::Simple {
                from: Coordinate { file: to, rank: c.spec_the_other().spec_pawn_rank() },
                to: Coordinate { file: to, rank: c.spec_en_passant_rank() },
            },
        ),
        holds(
            b.current().at(Coordinate { file: to, rank: c.spec_en_passant_rank() }),
            PieceKind::Pawn,
            c.spec_the_other(),
        ),
        holds(
            b.current().at(Coordinate { file: from, rank: c.spec_en_passant_rank() }),
            PieceKind::Pawn,
            c,
        ),
        from.spec_ord() - to.spec_ord() == 1 || to.spec_ord() - from.spec_ord() == 1,
    ensures
        b.pseudo_legal(c, Move::EnPassant { from, to }),
{
    let s = Coordinate { file: from, rank: c.spec_en_passant_rank() };
    assert(crate::rules::pawn_en_passant(b.current(), c, b.last_move, s, Move::EnPassant { from, to }));
    assert(b.pseudo_at(c, s, Move::EnPassant { from, to }));
}

/// Castling is legal only while the right is kept, the squares between king and
/// rook are empty, and the square the king passes is not attacked.
pub proof fn lemma_castling_conditions(b: Board, c: Color, side: Side)
    requires
        b.legal(c, Move::Castling { side }),
    ensures
        ({
            let g = b.current();
            let home = c.spec_home_rank();
            let other = c.spec_the_other();
            let rights = b.castle_rights(c);
            match side {
                Side::King => {
                    &&& rights.1
                    &&& !attacked(g, other, Coordinate { file: File::F, rank: home })
                    &&& g.at(Coordinate { file: File::F, rank: home }) is None
                    &&& g.at(Coordinate { file: File::G, rank: home }) is None
                },
                Side::Queen => {
                    &&& rights.0
                    &&& !attacked(g, other, Coordinate { file: File::D, rank: home })
                    &&& g.at(Coordinate { file: File::D, rank: home }) is None
                    &&& g.at(Coordinate { file: File::C, rank: home }) is None
                    &&& g.at(Coordinate { file: File::B, rank: home }) is None
                },
            }
        }),
{
    let m = Move::Castling { side };
    let s = choose|s: Coordinate| #[trigger] b.pseudo_at(c, s, m);
    assert(b.pseudo_at(c, s, m));
}

/// Castling rights are never given back, and are lost for good: castling or a
/// king move from its home square clears both of the mover's rights, a rook
/// leaving its corner clears that side's right, and a piece landing on a rook's
/// corner clears the right of the rook's owner.
pub proof fn lemma_castling_rights_revoked(rights: (bool, bool), owner: Color, mover: Color, m: Move)
    ensures
        rights_after(rights, owner, mover, m).0 ==> rights.0,
        rights_after(rights, owner, mover, m).1 ==> rights.1,
        owner == mover && m is Castling ==> rights_after(rights, owner, mover, m) == (false, false),
        owner == mover && m == (Move::Simple {
            from: Coordinate { file: File::E, rank: owner.spec_home_rank() },
            to: m->Simple_to,
        }) ==> rights_after(rights, owner, mover, m) == (false, false),
        owner == mover && m == (Move::Simple {
            from: Coordinate { file: File::H, rank: owner.spec_home_rank() },
            to: m->Simple_to,
        }) ==> !rights_after(rights, owner, mover, m).1,
        owner == mover && m == (Move::Simple {
            from: Coordinate { file: File::A, rank: owner.spec_home_rank() },
            to: m->Simple_to,
        }) ==> !rights_after(rights, owner, mover, m).0,
        owner != mover && m.spec_resolve_to(mover) == (Coordinate {
            file: File::H,
            rank: owner.spec_home_rank(),
        }) ==> !rights_after(rights, owner, mover, m).1,
        owner != mover && m.spec_resolve_to(mover) == (Coordinate {
            file: File::A,
            rank: owner.spec_home_rank(),
        }) ==> !rights_after(rights, owner, mover, m).0,
{
}

/// A third occurrence of a position raises an offer of a draw from the side that
/// moved, not a draw; the other side accepting it draws by threefold repetition.
/// A fifth occurrence draws at once.
pub proof fn lemma_repetition(b: Board, mover: Color)
    requires
        b.has_legal_move(mover.spec_the_other()),
        b.stale_plies < 100,
        sufficient_material(b.current()),
    ensures
        count_in(b.grid_history@, b.current()) == 3 ==> b.spec_verdict(mover) == (
            None::<GameOutcome>,
            Some((true, mover)),
        ),
        count_in(b.grid_history@, b.current()) == 5 ==> b.spec_verdict(mover) == (
            Some(GameOutcome::Draw(DrawReason::FivefoldRepetition)),
            None::<(bool, Color)>,
        ),
        b.draw_pending == Some((true, mover)) ==> b.spec_propose_draw(mover.spec_the_other()).0
            == Some(GameOutcome::Draw(DrawReason::ThreefoldRepetition)),
{
    assert(mover.spec_the_other().spec_the_other() == mover);
}

/// With a hundred plies or more since the last pawn move or capture, a position in
/// which the other side can move is drawn, whatever the material or repetitions.
pub proof fn lemma_fifty_move_rule(b: Board, mover: Color)
    requires
        b.has_legal_move(mover.spec_the_other()),
        b.stale_plies >= 100,
    ensures
        b.spec_verdict(mover) == (
            Some(GameOutcome::Draw(DrawReason::NoAdvancement)),
            None::<(bool, Color)>,
        ),
{
}

/// Kings with at most bishops or knights, no side holding both, cannot force
/// checkmate; a side with a bishop and a knight can.
pub proof fn lemma_material(g: Grid)
    ensures
        (forall|c: Coordinate| #[trigger] g.at(c) matches Some(p) ==> (p.kind == PieceKind::King
            || p.kind == PieceKind::Bishop || p.kind == PieceKind::Knight)) && !(has_piece(
            g,
            PieceKind::Bishop,
            Color::White,
        ) && has_piece(g, PieceKind::Knight, Color::White)) && !(has_piece(
            g,
            PieceKind::Bishop,
            Color::Black,
        ) && has_piece(g, PieceKind::Knight, Color::Black)) ==> !sufficient_material(g),
        has_piece(g, PieceKind::Bishop, Color::White) && has_piece(g, PieceKind::Knight, Color::White)
            ==> sufficient_material(g),
        has_piece(g, PieceKind::Bishop, Color::Black) && has_piece(g, PieceKind::Knight, Color::Black)
            ==> sufficient_material(g),
{
    if forall|c: Coordinate| #[trigger] g.at(c) matches Some(p) ==> (p.kind == PieceKind::King
        || p.kind == PieceKind::Bishop || p.kind == PieceKind::Knight) {
        assert forall|c: Coordinate| !(#[trigger] g.at(c) matches Some(p) && heavy(p)) by {}
    }
}

/// When the other side has a legal move, the fifty-move rule does not apply, and
/// the material cannot force checkmate, the game is drawn for insufficient material.
pub proof fn lemma_insufficient_material_draw(b: Board, mover: Color)
    requires
        b.has_legal_move(mover.spec_the_other()),
        b.stale_plies < 100,
        !sufficient_material(b.current()),
    ensures
        b.spec_verdict(mover) == (
            Some(GameOutcome::Draw(DrawReason::InsufficientMaterial)),
            None::<(bool, Color)>,
        ),
{
}

proof fn lemma_king_square_unique(g: Grid, color: Color, t: Coordinate)
    requires
        holds(g.at(t), PieceKind::King, color),
        forall|x: Coordinate| #[trigger] holds(g.at(x), PieceKind::King, color) ==> x == t,
    ensures
        king_square(g, color) == Some(t),
{
    crate::grid::lemma_king_square(g, color);
}

proof fn lemma_promotion_source(b: Board, c: Color, from: File, to: File, piece: PieceKind)
    requires
        b.pseudo_legal(c, Move::Promotion { from, to, piece }),
    ensures
        holds(b.current().at(Move::Promotion { from, to, piece }.spec_resolve_from(c)), PieceKind::Pawn, c),
        crate::rules::open_to(b.current(), c, Move::Promotion { from, to, piece }.spec_resolve_to(c)),
        crate::rules::promotable(piece),
{
    let m = Move::Promotion { from, to, piece };
    let g = b.current();
    let s = choose|s: Coordinate| #[trigger] b.pseudo_at(c, s, m);
    assert(b.pseudo_at(c, s, m));
    let d = c.spec_direction() as int;
    let t = if crate::rules::pawn_advance(g, c, s, m) {
        s.spec_offset(d, 0).unwrap()
    } else if crate::rules::pawn_capture(g, c, s, 1, m) {
        s.spec_offset(d, 1).unwrap()
    } else {
        s.spec_offset(d, -1).unwrap()
    };
    let dh: int = if crate::rules::pawn_advance(g, c, s, m) {
        0
    } else if crate::rules::pawn_capture(g, c, s, 1, m) {
        1
    } else {
        -1
    };
    crate::coordinate::lemma_square_at(s.file.spec_ord() + dh, s.rank.spec_ord() + d);
    crate::coordinate::lemma_rank_from_int(s.rank.spec_ord() as int);
    assert(t.rank == c.spec_promotion_rank());
    assert(s.rank == c.spec_prepromotion_rank());
}

/// A legal move leaves the mover's king unattacked in the position it produces:
/// the king found afresh on the new grid is not attacked by the other side. This
/// holds where the mover has a single king, and for castling where that king
/// stands on its home square.
pub proof fn lemma_legal_move_keeps_king_out_of_check(b: Board, c: Color, m: Move)
    requires
        b.wf(),
        unique_king(b.current(), c),
        b.legal(c, m),
        m is Castling ==> holds(
            b.current().at(Coordinate { file: File::E, rank: c.spec_home_rank() }),
            PieceKind::King,
            c,
        ),
    ensures
        !crate::board::in_check(b.current().spec_apply(m, c), c),
{
    broadcast use Grid::lemma_with_at;

    let g = b.current();
    let after = g.spec_apply(m, c);
    let k = king_square(g, c).unwrap();
    crate::grid::lemma_king_square(g, c);
    let target = if m.spec_resolve_from(c) == k {
        m.spec_resolve_to(c)
    } else {
        k
    };
    assert(forall|x: Coordinate| #[trigger] holds(g.at(x), PieceKind::King, c) ==> x == k);
    match m {
        Move::Simple { from, to } => {
            let s = choose|s: Coordinate| #[trigger] b.pseudo_at(c, s, m);
            assert(b.pseudo_at(c, s, m));
            assert(s == from);
            assert(crate::rules::open_to(g, c, to));
        },
        Move::Promotion { from, to, piece } => {
            lemma_promotion_source(b, c, from, to, piece);
        },
        Move::EnPassant { from, to } => {
            let s = choose|s: Coordinate| #[trigger] b.pseudo_at(c, s, m);
            assert(b.pseudo_at(c, s, m));
            let dest = m.spec_resolve_to(c);
            if k == dest {
                assert forall|x: Coordinate| !holds(#[trigger] after.at(x), PieceKind::King, c) by {}
                assert(!has_piece(after, PieceKind::King, c));
                assert(false);
            }
        },
        Move::Castling { side } => {
            let s = choose|s: Coordinate| #[trigger] b.pseudo_at(c, s, m);
            assert(b.pseudo_at(c, s, m));
        },
    }
    assert(holds(after.at(target), PieceKind::King, c));
    assert(forall|x: Coordinate| #[trigger] holds(after.at(x), PieceKind::King, c) ==> x == target);
    lemma_king_square_unique(after, c, target);
}

} // verus!
