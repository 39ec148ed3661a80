use vstd::prelude::*;

use crate::coordinate::{lemma_index, lemma_index_injective, Coordinate, File, Move, Rank, Side};
use crate::grid::{
    find_in, has_piece, holds, king_square, lemma_king_square, Grid,
};
use crate::piece::{Color, Piece, PieceKind};
use crate::player_move::PlayerMove;
use crate::rules::{
    attacked, attacked_on, jump_move, pawn_move, push_jumps, push_move, push_pawn_moves,
    push_slides, slides,
};

verus! {

/// How a game ended.
#[derive(Debug, Copy, Clone, PartialEq, Eq, Structural)]
pub enum GameOutcome {
    Decisive { won: Color, reason: WinReason },
    Draw(DrawReason),
}

#[derive(Debug, Copy, Clone, PartialEq, Eq, Structural)]
pub enum WinReason {
    Checkmate,
    Resignation,
}

#[derive(Debug, Copy, Clone, PartialEq, Eq, Structural)]
pub enum DrawReason {
    Agreement,
    Stalemate,
    ThreefoldRepetition,
    FivefoldRepetition,
    NoAdvancement,
    InsufficientMaterial,
}

/// Why a move was refused.
#[derive(Debug, Copy, Clone, PartialEq, Eq, Structural)]
pub enum MoveError {
    GameHasOutcome(GameOutcome),
    IllegalMove,
    AmbiguousMove,
    DrawPending,
}

/// A game: the positions so far and what the rules need to know about them.
#[derive(Debug)]
pub struct Board {
    /// Every position of the game, the current one last.
    pub grid_history: Vec<Grid>,
    /// The move that led to the current position.
    pub last_move: Option<Move>,
    /// Plies since the last pawn move or capture.
    pub stale_plies: u8,
    /// White's rights to castle: (queenside, kingside).
    pub white_castle: (bool, bool),
    /// Black's rights to castle: (queenside, kingside).
    pub black_castle: (bool, bool),
    /// The side to move.
    pub move_color: Color,
    pub game_outcome: Option<GameOutcome>,
    /// An offer of a draw: whether a repetition raised it, and who offers.
    pub draw_pending: Option<(bool, Color)>,
}

/// Whether a king of each color stands on the grid.
pub open spec fn both_kings(g: Grid) -> bool {
    has_piece(g, PieceKind::King, Color::White) && has_piece(g, PieceKind::King, Color::Black)
}

/// Whether the first king of `color` is attacked by the other side.
pub open spec fn in_check(g: Grid, color: Color) -> bool {
    match king_square(g, color) {
        Some(k) => attacked(g, color.spec_the_other(), k),
        None => false,
    }
}

/// A pawn, rook or queen.
pub open spec fn heavy(p: Piece) -> bool {
    p.kind == PieceKind::Pawn || p.kind == PieceKind::Rook || p.kind == PieceKind::Queen
}

/// Whether checkmate can still be forced: some side has a pawn, rook or queen, or
/// a bishop together with a knight.
pub open spec fn sufficient_material(g: Grid) -> bool {
    (exists|c: Coordinate| #[trigger] g.at(c) matches Some(p) && heavy(p)) || (has_piece(
        g,
        PieceKind::Bishop,
        Color::White,
    ) && has_piece(g, PieceKind::Knight, Color::White)) || (has_piece(
        g,
        PieceKind::Bishop,
        Color::Black,
    ) && has_piece(g, PieceKind::Knight, Color::Black))
}

/// How many positions of `h` equal `g`.
pub open spec fn count_in(h: Seq<Grid>, g: Grid) -> nat
    decreases h.len(),
{
    if h.len() == 0 {
        0
    } else {
        count_in(h.drop_last(), g) + if h.last() == g {
            1nat
        } else {
            0nat
        }
    }
}

/// The castling rights of `owner` after `mover` plays `m`: a king move from its
/// home square or castling clears both; a rook leaving its corner, or a piece
/// landing on the opposing rook's corner, clears that side's right.
pub open spec fn rights_after(rights: (bool, bool), owner: Color, mover: Color, m: Move) -> (bool, bool) {
    let home = owner.spec_home_rank();
    if owner == mover {
        match m {
            Move::Castling { .. } => (false, false),
            Move::Simple { from, .. } => if from == (Coordinate { file: File::E, rank: home }) {
                (false, false)
            } else if from == (Coordinate { file: File::H, rank: home }) {
                (rights.0, false)
            } else if from == (Coordinate { file: File::A, rank: home }) {
                (false, rights.1)
            } else {
                rights
            },
            _ => rights,
        }
    } else {
        let to = m.spec_resolve_to(mover);
        if to == (Coordinate { file: File::H, rank: home }) {
            (rights.0, false)
        } else if to == (Coordinate { file: File::A, rank: home }) {
            (false, rights.1)
        } else {
            rights
        }
    }
}

/// The stale-ply counter after a move: reset by a pawn move or capture, else one
/// more (held at the counter's limit).
pub open spec fn stale_after(stale: u8, advancing: bool) -> u8 {
    if advancing {
        0
    } else if stale < 255 {
        (stale + 1) as u8
    } else {
        255
    }
}

/// The kind that starts on file `f` of a home rank.
pub open spec fn back_rank_kind(f: File) -> PieceKind {
    match f {
        File::A | File::H => PieceKind::Rook,
        File::B | File::G => PieceKind::Knight,
        File::C | File::F => PieceKind::Bishop,
        File::D => PieceKind::Queen,
        File::E => PieceKind::King,
    }
}

/// What stands on square `c` at the start of a game.
pub open spec fn start_piece(c: Coordinate) -> Option<Piece> {
    match c.rank {
        Rank::First => Some(Piece { kind: back_rank_kind(c.file), color: Color::White }),
        Rank::Second => Some(Piece { kind: PieceKind::Pawn, color: Color::White }),
        Rank::Seventh => Some(Piece { kind: PieceKind::Pawn, color: Color::Black }),
        Rank::Eighth => Some(Piece { kind: back_rank_kind(c.file), color: Color::Black }),
        _ => None,
    }
}

fn back_rank(color: Color) -> (r: [Option<Piece>; 8])
    ensures
        forall|f: File| #[trigger] r@[f.spec_ord() as int] == Some(Piece { kind: back_rank_kind(f), color }),
{
    [
        Some(Piece { kind: PieceKind::Rook, color }),
        Some(Piece { kind: PieceKind::Knight, color }),
        Some(Piece { kind: PieceKind::Bishop, color }),
        Some(Piece { kind: PieceKind::Queen, color }),
        Some(Piece { kind: PieceKind::King, color }),
        Some(Piece { kind: PieceKind::Bishop, color }),
        Some(Piece { kind: PieceKind::Knight, color }),
        Some(Piece { kind: PieceKind::Rook, color }),
    ]
}

fn uniform_rank(p: Option<Piece>) -> (r: [Option<Piece>; 8])
    ensures
        forall|f: File| #[trigger] r@[f.spec_ord() as int] == p,
{
    [p, p, p, p, p, p, p, p]
}

impl Default for Board {
    /// The standard starting position, White to move, all castling rights kept.
    fn default() -> (r: Self)
        ensures
            r.wf(),
            r.grid_history@.len() == 1,
            forall|c: Coordinate| #[trigger] r.current().at(c) == start_piece(c),
            r.last_move is None,
            r.stale_plies == 0,
            r.white_castle == (true, true),
            r.black_castle == (true, true),
            r.move_color == Color::White,
            r.game_outcome is None,
            r.draw_pending is None,
    {
        let white_pawns = uniform_rank(Some(Piece { kind: PieceKind::Pawn, color: Color::White }));
        let black_pawns = uniform_rank(Some(Piece { kind: PieceKind::Pawn, color: Color::Black }));
        let empty = uniform_rank(None);
        let grid = Grid(
            [
                back_rank(Color::White),
                white_pawns,
                empty,
                empty,
                empty,
                empty,
                black_pawns,
                back_rank(Color::Black),
            ],
        );
        let grid_history = vec![grid];
        let r = Board {
            grid_history,
            last_move: None,
            stale_plies: 0,
            white_castle: (true, true),
            black_castle: (true, true),
            move_color: Color::White,
            game_outcome: None,
            draw_pending: None,
        };
        proof {
            assert(r.current() == grid);
            assert forall|c: Coordinate| #[trigger] grid.at(c) == start_piece(c) by {
                assert(grid.0@[c.rank.spec_ord() as int]@[c.file.spec_ord() as int] == start_piece(c));
            }
            assert(holds(grid.at(Coordinate { file: File::E, rank: Rank::First }), PieceKind::King, Color::White));
            assert(holds(grid.at(Coordinate { file: File::E, rank: Rank::Eighth }), PieceKind::King, Color::Black));
        }
        r
    }
}

impl Clone for Board {
    fn clone(&self) -> (r: Self)
        ensures
            r.grid_history@ == self.grid_history@,
            r.last_move == self.last_move,
            r.stale_plies == self.stale_plies,
            r.white_castle == self.white_castle,
            r.black_castle == self.black_castle,
            r.move_color == self.move_color,
            r.game_outcome == self.game_outcome,
            r.draw_pending == self.draw_pending,
    {
        let mut grid_history: Vec<Grid> = Vec::new();
        let mut i: usize = 0;
        while i < self.grid_history.len()
            invariant
                0 <= i <= self.grid_history@.len(),
                grid_history@ == self.grid_history@.subrange(0, i as int),
            decreases self.grid_history@.len() - i,
        {
            grid_history.push(self.grid_history[i]);
            i += 1;
            assert(grid_history@ =~= self.grid_history@.subrange(0, i as int));
        }
        assert(grid_history@ =~= self.grid_history@);
        Board {
            grid_history,
            last_move: self.last_move,
            stale_plies: self.stale_plies,
            white_castle: self.white_castle,
            black_castle: self.black_castle,
            move_color: self.move_color,
            game_outcome: self.game_outcome,
            draw_pending: self.draw_pending,
        }
    }
}

impl Board {
    /// The current position.
    pub open spec fn current(self) -> Grid {
        self.grid_history@.last()
    }

    /// The history is never empty and a king of each color stands on the board.
    pub open spec fn wf(self) -> bool {
        self.grid_history@.len() >= 1 && both_kings(self.current())
    }

    pub open spec fn castle_rights(self, color: Color) -> (bool, bool) {
        match color {
            Color::White => self.white_castle,
            Color::Black => self.black_castle,
        }
    }

    /// Castling toward `side`: the right is kept, the squares between king and
    /// rook are empty, and the square the king passes is not attacked.
    pub open spec fn castle_move(self, color: Color, m: Move) -> bool {
        let g = self.current();
        let home = color.spec_home_rank();
        let other = color.spec_the_other();
        let rights = self.castle_rights(color);
        match m {
            Move::Castling { side: Side::King } => {
                &&& rights.1
                &&& !attacked(g, other, Coordinate { file: File::F, rank: home })
                &&& g.at(Coordinate { file: File::F, rank: home }) is None
                &&& g.at(Coordinate { file: File::G, rank: home }) is None
            },
            Move::Castling { side: Side::Queen } => {
                &&& rights.0
                &&& !attacked(g, other, Coordinate { file: File::D, rank: home })
                &&& g.at(Coordinate { file: File::D, rank: home }) is None
                &&& g.at(Coordinate { file: File::C, rank: home }) is None
                &&& g.at(Coordinate { file: File::B, rank: home }) is None
            },
            _ => false,
        }
    }

    /// `m` is a move of the piece of `color` on `s`, by that piece's pattern,
    /// whether or not it leaves its own king in check.
    pub open spec fn pseudo_at(self, color: Color, s: Coordinate, m: Move) -> bool {
        let g = self.current();
        g.at(s) matches Some(p) && p.color == color && match p.kind {
            PieceKind::Pawn => pawn_move(g, color, self.last_move, s, m),
            PieceKind::Knight => jump_move(g, color, s, true, m),
            PieceKind::Bishop => slides(g, color, s, 4, 8, m),
            PieceKind::Rook => slides(g, color, s, 0, 4, m),
            PieceKind::Queen => slides(g, color, s, 0, 8, m),
            PieceKind::King => jump_move(g, color, s, false, m) || self.castle_move(color, m),
        }
    }

    /// `m` is a move of some piece of `color`, whether or not it leaves its own
    /// king in check.
    pub open spec fn pseudo_legal(self, color: Color, m: Move) -> bool {
        exists|s: Coordinate| #[trigger] self.pseudo_at(color, s, m)
    }

    /// Whether `coord` is attacked by `by`, in the current position or, given
    /// `(color, m, adapt)`, after `color` plays `m`; with `adapt`, a piece that
    /// `m` moves away from `coord` is followed to where it lands.
    pub open spec fn spec_under_attack(self, by: Color, coord: Coordinate, after: Option<(Color, Move, bool)>) -> bool {
        match after {
            None => attacked(self.current(), by, coord),
            Some((color, m, adapt)) => attacked(
                self.current().spec_apply(m, color),
                by,
                if adapt && m.spec_resolve_from(color) == coord {
                    m.spec_resolve_to(color)
                } else {
                    coord
                },
            ),
        }
    }

    /// A legal move: a move of a piece of `color` after which the king of `color`
    /// is not attacked, and which leaves both kings on the board.
    pub open spec fn legal(self, color: Color, m: Move) -> bool {
        &&& self.pseudo_legal(color, m)
        &&& both_kings(self.current().spec_apply(m, color))
        &&& king_square(self.current(), color) matches Some(k)
        &&& !self.spec_under_attack(color.spec_the_other(), k, Some((color, m, true)))
    }

    pub open spec fn has_legal_move(self, color: Color) -> bool {
        exists|m: Move| #[trigger] self.legal(color, m)
    }

    /// What the position means once `mover` has moved: checkmate or stalemate when
    /// the other side has no legal move, else a draw by the fifty-move rule, by
    /// insufficient material, or on a fifth repetition; a third repetition raises
    /// an offer of a draw from `mover`.
    pub open spec fn spec_verdict(self, mover: Color) -> (Option<GameOutcome>, Option<(bool, Color)>) {
        let other = mover.spec_the_other();
        let g = self.current();
        if !self.has_legal_move(other) {
            if in_check(g, other) {
                (Some(GameOutcome::Decisive { won: mover, reason: WinReason::Checkmate }), None)
            } else {
                (Some(GameOutcome::Draw(DrawReason::Stalemate)), None)
            }
        } else if self.stale_plies >= 100 {
            (Some(GameOutcome::Draw(DrawReason::NoAdvancement)), None)
        } else if !sufficient_material(g) {
            (Some(GameOutcome::Draw(DrawReason::InsufficientMaterial)), None)
        } else {
            let n = count_in(self.grid_history@, g);
            if n == 3 {
                (None, Some((true, mover)))
            } else if n == 5 {
                (Some(GameOutcome::Draw(DrawReason::FivefoldRepetition)), None)
            } else {
                (None, None)
            }
        }
    }

    /// The current position.
    pub fn grid(&self) -> (r: &Grid)
        requires
            self.grid_history@.len() >= 1,
        ensures
            *r == self.current(),
    {
        &self.grid_history[self.grid_history.len() - 1]
    }

    pub fn castle_rights_of(&self, color: Color) -> (r: (bool, bool))
        ensures
            r == self.castle_rights(color),
    {
        match color {
            Color::White => self.white_castle,
            Color::Black => self.black_castle,
        }
    }

    fn push_castling(&self, color: Color, out: &mut Vec<Move>)
        requires
            self.grid_history@.len() >= 1,
        ensures
            forall|m: Move| #[trigger]
                final(out)@.contains(m) <==> old(out)@.contains(m) || self.castle_move(color, m),
    {
        let g = self.grid();
        let home = color.home_rank();
        let other = color.the_other();
        let rights = self.castle_rights_of(color);
        let ghost before = out@;
        if rights.1 && !attacked_on(g, other, Coordinate { file: File::F, rank: home }) && g.get(
            Coordinate { file: File::F, rank: home },
        ).is_none() && g.get(Coordinate { file: File::G, rank: home }).is_none() {
            push_move(out, Move::Castling { side: Side::King });
        }
        let ghost mid = out@;
        if rights.0 && !attacked_on(g, other, Coordinate { file: File::D, rank: home }) && g.get(
            Coordinate { file: File::D, rank: home },
        ).is_none() && g.get(Coordinate { file: File::C, rank: home }).is_none() && g.get(
            Coordinate { file: File::B, rank: home },
        ).is_none() {
            push_move(out, Move::Castling { side: Side::Queen });
        }
        proof {
            assert forall|m: Move| #[trigger]
                out@.contains(m) <==> before.contains(m) || self.castle_move(color, m) by {
                assert(mid.contains(m) <==> before.contains(m) || (m == Move::Castling {
                    side: Side::King,
                } && self.castle_move(color, m)));
            }
        }
    }

    fn push_moves_at(&self, color: Color, s: Coordinate, out: &mut Vec<Move>)
        requires
            self.grid_history@.len() >= 1,
        ensures
            forall|m: Move| #[trigger]
                final(out)@.contains(m) <==> old(out)@.contains(m) || self.pseudo_at(color, s, m),
    {
        let g = self.grid();
        match g.get(s) {
            Some(p) => {
                if p.color == color {
                    match p.kind {
                        PieceKind::Pawn => push_pawn_moves(g, color, self.last_move, s, out),
                        PieceKind::Knight => push_jumps(g, color, s, true, out),
                        PieceKind::Bishop => push_slides(g, color, s, 4, 8, out),
                        PieceKind::Rook => push_slides(g, color, s, 0, 4, out),
                        PieceKind::Queen => push_slides(g, color, s, 0, 8, out),
                        PieceKind::King => {
                            push_jumps(g, color, s, false, out);
                            self.push_castling(color, out);
                        },
                    }
                }
            },
            None => {},
        }
    }

    /// Every move of a piece of `for_color`, whether or not it leaves its own king
    /// in check.
    pub fn unchecked_for_check_possible_moves(&self, for_color: Color) -> (r: Vec<Move>)
        requires
            self.grid_history@.len() >= 1,
        ensures
            forall|m: Move| #[trigger] r@.contains(m) <==> self.pseudo_legal(for_color, m),
    {
        let mut out: Vec<Move> = Vec::new();
        let mut i: usize = 0;
        while i < 64
            invariant
                0 <= i <= 64,
                self.grid_history@.len() >= 1,
                forall|m: Move| #[trigger]
                    out@.contains(m) <==> exists|s: Coordinate|
                        s.index() < i && #[trigger] self.pseudo_at(for_color, s, m),
            decreases 64 - i,
        {
            let s = Coordinate::from_index(i);
            let ghost before = out@;
            self.push_moves_at(for_color, s, &mut out);
            proof {
                assert forall|m: Move| #[trigger]
                    out@.contains(m) <==> exists|t: Coordinate|
                        t.index() < i + 1 && #[trigger] self.pseudo_at(for_color, t, m) by {
                    if exists|t: Coordinate|
                        t.index() < i + 1 && #[trigger] self.pseudo_at(for_color, t, m) {
                        let t = choose|t: Coordinate|
                            t.index() < i + 1 && #[trigger] self.pseudo_at(for_color, t, m);
                        lemma_index_injective(t, s);
                    }
                }
            }
            i += 1;
        }
        proof {
            assert forall|m: Move| #[trigger]
                out@.contains(m) <==> self.pseudo_legal(for_color, m) by {
                if self.pseudo_legal(for_color, m) {
                    let t = choose|t: Coordinate| #[trigger] self.pseudo_at(for_color, t, m);
                    lemma_index(t);
                }
            }
        }
        out
    }

    /// Whether `coord` is attacked by `by`, now or after a hypothetical move (see
    /// `spec_under_attack`). The board itself is left as it is.
    pub fn is_under_attack(&self, by: Color, coord: Coordinate, after: Option<(Color, Move, bool)>) -> (r: bool)
        requires
            self.grid_history@.len() >= 1,
        ensures
            r == self.spec_under_attack(by, coord, after),
    {
        let mut grid = *self.grid();
        let mut target = coord;
        match after {
            Some((color, m, adapt)) => {
                grid.apply(m, color);
                if adapt && m.resolve_from(color) == coord {
                    target = m.resolve_to(color);
                }
            },
            None => {},
        }
        attacked_on(&grid, by, target)
    }

    /// The first square, in A1..H8 order, that holds `piece`.
    pub fn find_piece(&self, piece: Piece) -> (r: Option<Coordinate>)
        requires
            self.grid_history@.len() >= 1,
        ensures
            r == crate::grid::find_from(self.current(), piece, 0),
    {
        find_in(self.grid(), piece)
    }

    /// The legal moves of `color`.
    pub fn possible_moves(&self, color: Color) -> (r: Vec<Move>)
        requires
            self.wf(),
        ensures
            forall|m: Move| #[trigger] r@.contains(m) <==> self.legal(color, m),
    {
        proof {
            lemma_king_square(self.current(), color);
        }
        let king = match self.find_piece(Piece { kind: PieceKind::King, color }) {
            Some(k) => k,
            None => {
                proof {
                    assert(false);
                }
                return Vec::new();
            },
        };
        let candidates = self.unchecked_for_check_possible_moves(color);
        let mut out: Vec<Move> = Vec::new();
        let mut i: usize = 0;
        while i < candidates.len()
            invariant
                0 <= i <= candidates@.len(),
                self.wf(),
                king_square(self.current(), color) == Some(king),
                forall|m: Move| #[trigger]
                    candidates@.contains(m) <==> self.pseudo_legal(color, m),
                forall|m: Move| #[trigger]
                    out@.contains(m) <==> exists|j: int|
                        0 <= j < i && candidates@[j] == m && #[trigger] self.legal(color, candidates@[j]),
            decreases candidates@.len() - i,
        {
            let m = candidates[i];
            let ghost before = out@;
            let mut after = *self.grid();
            after.apply(m, color);
            let white_king = find_in(&after, Piece { kind: PieceKind::King, color: Color::White });
            let black_king = find_in(&after, Piece { kind: PieceKind::King, color: Color::Black });
            proof {
                lemma_king_square(after, Color::White);
                lemma_king_square(after, Color::Black);
                assert(candidates@.contains(m));
            }
            let keep = white_king.is_some() && black_king.is_some() && !self.is_under_attack(
                color.the_other(),
                king,
                Some((color, m, true)),
            );
            proof {
                assert(self.pseudo_legal(color, m));
                assert(keep == self.legal(color, m));
            }
            if keep {
                push_move(&mut out, m);
            }
            proof {
                assert forall|x: Move| #[trigger]
                    out@.contains(x) <==> exists|j: int|
                        0 <= j < i + 1 && candidates@[j] == x && #[trigger] self.legal(color, candidates@[j]) by {
                    if exists|j: int|
                        0 <= j < i + 1 && candidates@[j] == x && #[trigger] self.legal(color, candidates@[j]) {
                        let j = choose|j: int|
                            0 <= j < i + 1 && candidates@[j] == x && #[trigger] self.legal(color, candidates@[j]);
                        if j < i {
                            assert(before.contains(x));
                        }
                    }
                    if before.contains(x) {
                        let j = choose|j: int|
                            0 <= j < i && candidates@[j] == x && #[trigger] self.legal(color, candidates@[j]);
                        assert(0 <= j < i + 1);
                    }
                }
            }
            i += 1;
        }
        proof {
            assert forall|m: Move| #[trigger] out@.contains(m) <==> self.legal(color, m) by {
                if self.legal(color, m) {
                    assert(candidates@.contains(m));
                    let j = choose|j: int| 0 <= j < candidates@.len() && candidates@[j] == m;
                    assert(self.legal(color, candidates@[j]));
                }
            }
        }
        out
    }

    /// Whether checkmate can still be forced with the material on the board.
    pub fn is_material_sufficient_for_checkmate(&self) -> (r: bool)
        requires
            self.grid_history@.len() >= 1,
        ensures
            r == sufficient_material(self.current()),
    {
        let g = self.grid();
        let mut white_bishop = false;
        let mut black_bishop = false;
        let mut white_knight = false;
        let mut black_knight = false;
        let mut i: usize = 0;
        while i < 64
            invariant
                0 <= i <= 64,
                *g == self.current(),
                forall|c: Coordinate| #[trigger]
                    g.at(c) matches Some(p) && heavy(p) ==> c.index() >= i,
                white_bishop == exists|c: Coordinate|
                    c.index() < i && holds(#[trigger] g.at(c), PieceKind::Bishop, Color::White),
                black_bishop == exists|c: Coordinate|
                    c.index() < i && holds(#[trigger] g.at(c), PieceKind::Bishop, Color::Black),
                white_knight == exists|c: Coordinate|
                    c.index() < i && holds(#[trigger] g.at(c), PieceKind::Knight, Color::White),
                black_knight == exists|c: Coordinate|
                    c.index() < i && holds(#[trigger] g.at(c), PieceKind::Knight, Color::Black),
            decreases 64 - i,
        {
            let s = Coordinate::from_index(i);
            match g.get(s) {
                Some(p) => match p.kind {
                    PieceKind::Bishop => match p.color {
                        Color::White => white_bishop = true,
                        Color::Black => black_bishop = true,
                    },
                    PieceKind::Knight => match p.color {
                        Color::White => white_knight = true,
                        Color::Black => black_knight = true,
                    },
                    PieceKind::King => {},
                    _ => {
                        return true;
                    },
                },
                None => {},
            }
            proof {
                assert forall|c: Coordinate| c.index() < i + 1 && c.index() != i implies c.index() < i by {}
                assert forall|c: Coordinate| c.index() == i implies c == s by {
                    lemma_index_injective(c, s);
                }
            }
            i += 1;
        }
        proof {
            assert forall|c: Coordinate| #[trigger] g.at(c) matches Some(p) && heavy(p) implies false by {
                lemma_index(c);
            }
            assert forall|c: Coordinate| c.index() < 64 by {
                lemma_index(c);
            }
        }
        (white_knight && white_bishop) || (black_knight && black_bishop)
    }

    /// Whether two boards hold the same state.
    pub open spec fn same_state(self, other: Board) -> bool {
        &&& self.grid_history@ == other.grid_history@
        &&& self.last_move == other.last_move
        &&& self.stale_plies == other.stale_plies
        &&& self.white_castle == other.white_castle
        &&& self.black_castle == other.black_castle
        &&& self.move_color == other.move_color
        &&& self.game_outcome == other.game_outcome
        &&& self.draw_pending == other.draw_pending
    }

    /// `next` is this board after the side to move plays the legal move `m`: the
    /// new position is appended, castling rights and the stale-ply counter are
    /// brought up to date, the outcome is settled, and the turn passes unless the
    /// game has ended.
    pub open spec fn moved_to(self, next: Board, m: Move) -> bool {
        let c = self.move_color;
        let g = self.current();
        &&& self.legal(c, m)
        &&& next.grid_history@ == self.grid_history@.push(g.spec_apply(m, c))
        &&& next.last_move == Some(m)
        &&& next.white_castle == rights_after(self.white_castle, Color::White, c, m)
        &&& next.black_castle == rights_after(self.black_castle, Color::Black, c, m)
        &&& next.stale_plies == stale_after(self.stale_plies, g.spec_advancing(m))
        &&& (next.game_outcome, next.draw_pending) == next.spec_verdict(c)
        &&& next.move_color == if next.game_outcome is None {
            c.spec_the_other()
        } else {
            c
        }
    }

    /// What `propose_draw(by)` makes of the outcome and the pending offer: an offer
    /// pending from the other side is accepted (a draw by threefold repetition
    /// when a repetition raised it, else by agreement); otherwise `by` offers one.
    pub open spec fn spec_propose_draw(self, by: Color) -> (Option<GameOutcome>, Option<(bool, Color)>) {
        match self.draw_pending {
            Some((repetition, c)) if c.spec_the_other() == by => (
                Some(
                    GameOutcome::Draw(
                        if repetition {
                            DrawReason::ThreefoldRepetition
                        } else {
                            DrawReason::Agreement
                        },
                    ),
                ),
                self.draw_pending,
            ),
            _ => (self.game_outcome, Some((false, by))),
        }
    }

    fn rights_update(rights: (bool, bool), owner: Color, mover: Color, m: Move) -> (r: (bool, bool))
        ensures
            r == rights_after(rights, owner, mover, m),
    {
        let home = owner.home_rank();
        if owner == mover {
            match m {
                Move::Castling { .. } => (false, false),
                Move::Simple { from, .. } => if from == (Coordinate { file: File::E, rank: home }) {
                    (false, false)
                } else if from == (Coordinate { file: File::H, rank: home }) {
                    (rights.0, false)
                } else if from == (Coordinate { file: File::A, rank: home }) {
                    (false, rights.1)
                } else {
                    rights
                },
                _ => rights,
            }
        } else {
            let to = m.resolve_to(mover);
            if to == (Coordinate { file: File::H, rank: home }) {
                (rights.0, false)
            } else if to == (Coordinate { file: File::A, rank: home }) {
                (false, rights.1)
            } else {
                rights
            }
        }
    }

    /// Brings both sides' castling rights up to date after `color` plays `m`.
    pub fn handle_castling_rights_update(&mut self, color: Color, m: Move)
        ensures
            final(self).white_castle == rights_after(old(self).white_castle, Color::White, color, m),
            final(self).black_castle == rights_after(old(self).black_castle, Color::Black, color, m),
            final(self).grid_history@ == old(self).grid_history@,
            final(self).last_move == old(self).last_move,
            final(self).stale_plies == old(self).stale_plies,
            final(self).move_color == old(self).move_color,
            final(self).game_outcome == old(self).game_outcome,
            final(self).draw_pending == old(self).draw_pending,
    {
        self.white_castle = Self::rights_update(self.white_castle, Color::White, color, m);
        self.black_castle = Self::rights_update(self.black_castle, Color::Black, color, m);
    }

    /// How many positions of the history equal the current one, itself included.
    pub fn repetitions(&self) -> (r: usize)
        requires
            self.grid_history@.len() >= 1,
        ensures
            r == count_in(self.grid_history@, self.current()),
    {
        let g = self.grid();
        let mut n: usize = 0;
        let mut i: usize = 0;
        while i < self.grid_history.len()
            invariant
                0 <= i <= self.grid_history@.len(),
                *g == self.current(),
                n == count_in(self.grid_history@.subrange(0, i as int), *g),
                n <= i,
            decreases self.grid_history@.len() - i,
        {
            let ghost prefix = self.grid_history@.subrange(0, i as int + 1);
            assert(prefix.drop_last() =~= self.grid_history@.subrange(0, i as int));
            if self.grid_history[i].same_position(g) {
                n += 1;
            }
            i += 1;
        }
        assert(self.grid_history@.subrange(0, i as int) =~= self.grid_history@);
        n
    }

    fn select_move(legal: &Vec<Move>, color: Color, player_move: &PlayerMove) -> (r: Option<Move>)
        ensures
            r matches Some(m) ==> legal@.contains(m) && player_move.spec_selects(color, m),
            r is None ==> forall|m: Move| #[trigger] legal@.contains(m) ==> !player_move.spec_selects(color, m),
    {
        let mut i: usize = 0;
        while i < legal.len()
            invariant
                0 <= i <= legal@.len(),
                forall|j: int| 0 <= j < i ==> !player_move.spec_selects(color, #[trigger] legal@[j]),
            decreases legal@.len() - i,
        {
            if player_move.selects(color, legal[i]) {
                assert(legal@.contains(legal@[i as int]));
                return Some(legal[i]);
            }
            i += 1;
        }
        None
    }

    /// Settles the outcome after `mover` has moved and passes the turn if the game
    /// goes on.
    fn conclude(&mut self, mover: Color)
        requires
            old(self).wf(),
            old(self).draw_pending is None,
            old(self).game_outcome is None,
        ensures
            final(self).wf(),
            final(self).grid_history@ == old(self).grid_history@,
            final(self).last_move == old(self).last_move,
            final(self).stale_plies == old(self).stale_plies,
            final(self).white_castle == old(self).white_castle,
            final(self).black_castle == old(self).black_castle,
            (final(self).game_outcome, final(self).draw_pending) == old(self).spec_verdict(mover),
            final(self).move_color == if final(self).game_outcome is None {
                mover.spec_the_other()
            } else {
                mover
            },
    {
        let other = mover.the_other();
        let replies = self.possible_moves(other);
        proof {
            if replies.len() > 0 {
                assert(replies@.contains(replies@[0]));
                assert(self.legal(other, replies@[0]));
            } else {
                assert forall|m: Move| !#[trigger] self.legal(other, m) by {
                    assert(!replies@.contains(m));
                }
            }
            lemma_king_square(self.current(), other);
        }
        if replies.len() == 0 {
            let checked = match self.find_piece(Piece { kind: PieceKind::King, color: other }) {
                Some(k) => self.is_under_attack(mover, k, None),
                None => false,
            };
            if checked {
                self.game_outcome = Some(GameOutcome::Decisive { won: mover, reason: WinReason::Checkmate });
            } else {
                self.game_outcome = Some(GameOutcome::Draw(DrawReason::Stalemate));
            }
        } else if self.stale_plies >= 100 {
            self.game_outcome = Some(GameOutcome::Draw(DrawReason::NoAdvancement));
        } else if !self.is_material_sufficient_for_checkmate() {
            self.game_outcome = Some(GameOutcome::Draw(DrawReason::InsufficientMaterial));
        } else {
            let n = self.repetitions();
            if n == 3 {
                self.draw_pending = Some((true, mover));
            } else if n == 5 {
                self.game_outcome = Some(GameOutcome::Draw(DrawReason::FivefoldRepetition));
            }
        }
        if self.game_outcome.is_none() {
            self.move_color = other;
        } else {
            self.move_color = mover;
        }
    }

    /// Plays a move for the side to move. Refused while the game is over or a draw
    /// offer awaits an answer, and when no legal move matches the input.
    pub fn play_move(&mut self, player_move: PlayerMove) -> (r: Result<Option<GameOutcome>, MoveError>)
        requires
            old(self).wf(),
        ensures
            final(self).wf(),
            old(self).game_outcome matches Some(o) ==> r == Err::<Option<GameOutcome>, MoveError>(
                MoveError::GameHasOutcome(o),
            ) && final(self).same_state(*old(self)),
            old(self).game_outcome is None && old(self).draw_pending is Some ==> r == Err::<
                Option<GameOutcome>,
                MoveError,
            >(MoveError::DrawPending) && final(self).same_state(*old(self)),
            old(self).game_outcome is None && old(self).draw_pending is None ==> (r is Ok <==> exists|m: Move|
                old(self).legal(old(self).move_color, m) && #[trigger] player_move.spec_selects(
                    old(self).move_color,
                    m,
                )),
            old(self).game_outcome is None && old(self).draw_pending is None && r is Err ==> r
                == Err::<Option<GameOutcome>, MoveError>(MoveError::IllegalMove) && final(self).same_state(
                *old(self),
            ),
            r is Ok ==> (final(self).last_move matches Some(m) && player_move.spec_selects(
                old(self).move_color,
                m,
            ) && old(self).moved_to(*final(self), m) && r == Ok::<Option<GameOutcome>, MoveError>(
                final(self).game_outcome,
            )),
    {
        match self.game_outcome {
            Some(o) => {
                return Err(MoveError::GameHasOutcome(o));
            },
            None => {},
        }
        if self.draw_pending.is_some() {
            return Err(MoveError::DrawPending);
        }
        let color = self.move_color;
        let legal = self.possible_moves(color);
        let m = match Self::select_move(&legal, color, &player_move) {
            Some(m) => m,
            None => {
                proof {
                    assert forall|x: Move| #[trigger]
                        player_move.spec_selects(color, x) implies !self.legal(color, x) by {
                        if self.legal(color, x) {
                            assert(legal@.contains(x));
                        }
                    }
                }
                return Err(MoveError::IllegalMove);
            },
        };
        assert(self.legal(color, m));
        let ghost before = *self;
        let mut g = *self.grid();
        let advancing = g.apply(m, color);
        self.grid_history.push(g);
        self.last_move = Some(m);
        self.handle_castling_rights_update(color, m);
        self.stale_plies = if advancing {
            0
        } else if self.stale_plies < 255 {
            self.stale_plies + 1
        } else {
            255
        };
        assert(self.current() == g);
        let ghost settled = *self;
        self.conclude(color);
        proof {
            lemma_same_rules(settled, *self);
        }
        Ok(self.game_outcome)
    }

    /// Offers a draw for `by`, or accepts the other side's pending offer.
    pub fn propose_draw(&mut self, by: Color)
        ensures
            (final(self).game_outcome, final(self).draw_pending) == old(self).spec_propose_draw(by),
            final(self).grid_history@ == old(self).grid_history@,
            final(self).last_move == old(self).last_move,
            final(self).stale_plies == old(self).stale_plies,
            final(self).white_castle == old(self).white_castle,
            final(self).black_castle == old(self).black_castle,
            final(self).move_color == old(self).move_color,
    {
        match self.draw_pending {
            Some((repetition, c)) => {
                if c.the_other() == by {
                    if repetition {
                        self.game_outcome = Some(GameOutcome::Draw(DrawReason::ThreefoldRepetition));
                    } else {
                        self.game_outcome = Some(GameOutcome::Draw(DrawReason::Agreement));
                    }
                    return;
                }
            },
            None => {},
        }
        self.draw_pending = Some((false, by));
    }

    /// Withdraws any pending offer of a draw.
    pub fn decline_draw(&mut self)
        ensures
            final(self).draw_pending is None,
            final(self).grid_history@ == old(self).grid_history@,
            final(self).last_move == old(self).last_move,
            final(self).stale_plies == old(self).stale_plies,
            final(self).white_castle == old(self).white_castle,
            final(self).black_castle == old(self).black_castle,
            final(self).move_color == old(self).move_color,
            final(self).game_outcome == old(self).game_outcome,
    {
        self.draw_pending = None;
    }

    /// `by` resigns: the other side wins.
    pub fn resign(&mut self, by: Color)
        ensures
            final(self).game_outcome == Some(
                GameOutcome::Decisive { won: by.spec_the_other(), reason: WinReason::Resignation },
            ),
            final(self).grid_history@ == old(self).grid_history@,
            final(self).last_move == old(self).last_move,
            final(self).stale_plies == old(self).stale_plies,
            final(self).white_castle == old(self).white_castle,
            final(self).black_castle == old(self).black_castle,
            final(self).move_color == old(self).move_color,
            final(self).draw_pending == old(self).draw_pending,
    {
        self.game_outcome = Some(GameOutcome::Decisive { won: by.the_other(), reason: WinReason::Resignation });
    }
}

/// Two boards with the same history, last move, castling rights and stale-ply
/// counter have the same legal moves and the same verdict.
pub proof fn lemma_same_rules(a: Board, b: Board)
    requires
        a.grid_history@ == b.grid_history@,
        a.last_move == b.last_move,
        a.white_castle == b.white_castle,
        a.black_castle == b.black_castle,
        a.stale_plies == b.stale_plies,
    ensures
        forall|c: Color, m: Move| #[trigger] a.legal(c, m) == b.legal(c, m),
        forall|c: Color| #[trigger] a.spec_verdict(c) == b.spec_verdict(c),
{
    assert forall|c: Color, m: Move| #[trigger] a.legal(c, m) == b.legal(c, m) by {
        assert forall|s: Coordinate| #[trigger] a.pseudo_at(c, s, m) == b.pseudo_at(c, s, m) by {
            assert(a.castle_rights(c) == b.castle_rights(c));
        }
        if a.pseudo_legal(c, m) {
            let s = choose|s: Coordinate| #[trigger] a.pseudo_at(c, s, m);
            assert(b.pseudo_at(c, s, m));
        }
        if b.pseudo_legal(c, m) {
            let s = choose|s: Coordinate| #[trigger] b.pseudo_at(c, s, m);
            assert(a.pseudo_at(c, s, m));
        }
    }
    assert forall|c: Color| #[trigger] a.spec_verdict(c) == b.spec_verdict(c) by {
        let o = c.spec_the_other();
        if a.has_legal_move(o) {
            let m = choose|m: Move| #[trigger] a.legal(o, m);
            assert(b.legal(o, m));
        }
        if b.has_legal_move(o) {
            let m = choose|m: Move| #[trigger] b.legal(o, m);
            assert(a.legal(o, m));
        }
    }
}

} // verus!
