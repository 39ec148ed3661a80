use vstd::prelude::*;

use crate::coordinate::{
    lemma_index, lemma_index_injective, lemma_square_at, square_at, square_of_index, Coordinate,
    File, Move, Rank,
};
use crate::piece::{Color, Piece, PieceKind};

verus! {

broadcast use vstd::array::group_array_axioms;

/// One position of the board: 8 ranks of 8 squares, each empty or holding a piece.
/// The outer index is the rank, the inner one the file.
#[derive(Debug, Clone, Copy)]
pub struct Grid(pub [[Option<Piece>; 8]; 8]);

/// Whether a square holds a piece of the given kind and color.
pub open spec fn holds(p: Option<Piece>, kind: PieceKind, color: Color) -> bool {
    p == Some(Piece { kind, color })
}

impl Grid {
    /// What stands on a square.
    pub open spec fn at(self, c: Coordinate) -> Option<Piece> {
        self.0@[c.rank.spec_ord() as int]@[c.file.spec_ord() as int]
    }

    /// This grid with square `c` set to `p`.
    pub open spec fn with(self, c: Coordinate, p: Option<Piece>) -> Grid {
        let r = c.rank.spec_ord() as int;
        let f = c.file.spec_ord() as int;
        Grid(vstd::array::spec_array_update(self.0, r, vstd::array::spec_array_update(self.0@[r], f, p)))
    }

    pub proof fn lemma_with(self, c: Coordinate, p: Option<Piece>)
        ensures
            forall|d: Coordinate| #[trigger] self.with(c, p).at(d) == if d == c { p } else { self.at(d) },
    {
        assert forall|d: Coordinate| #[trigger] self.with(c, p).at(d) == if d == c { p } else { self.at(d) } by {
            if d.rank != c.rank {
                assert(d.rank.spec_ord() != c.rank.spec_ord());
            } else if d.file != c.file {
                assert(d.file.spec_ord() != c.file.spec_ord());
            }
        }
    }

    /// Setting a square changes that square only.
    pub broadcast proof fn lemma_with_at(self, c: Coordinate, p: Option<Piece>, d: Coordinate)
        ensures
            #[trigger] self.with(c, p).at(d) == if d == c {
                p
            } else {
                self.at(d)
            },
    {
        self.lemma_with(c, p);
    }

    /// The grid with no pieces.
    pub open spec fn spec_empty() -> Grid {
        Grid(
            [
                [None, None, None, None, None, None, None, None],
                [None, None, None, None, None, None, None, None],
                [None, None, None, None, None, None, None, None],
                [None, None, None, None, None, None, None, None],
                [None, None, None, None, None, None, None, None],
                [None, None, None, None, None, None, None, None],
                [None, None, None, None, None, None, None, None],
                [None, None, None, None, None, None, None, None],
            ],
        )
    }

    pub fn empty() -> (r: Self)
        ensures
            r == Self::spec_empty(),
            forall|d: Coordinate| #[trigger] r.at(d) == None::<Piece>,
    {
        let row: [Option<Piece>; 8] = [None, None, None, None, None, None, None, None];
        let r = Grid([row, row, row, row, row, row, row, row]);
        r
    }

    pub fn get(&self, c: Coordinate) -> (r: Option<Piece>)
        ensures
            r == self.at(c),
    {
        self.0[c.rank.ord() as usize][c.file.ord() as usize]
    }

    pub fn set(&mut self, c: Coordinate, p: Option<Piece>)
        ensures
            *final(self) == old(self).with(c, p),
            forall|d: Coordinate| #[trigger] final(self).at(d) == if d == c { p } else { old(self).at(d) },
    {
        proof {
            self.lemma_with(c, p);
        }
        let r = c.rank.ord() as usize;
        let mut row = self.0[r];
        row[c.file.ord() as usize] = p;
        self.0[r] = row;
    }

    /// Whether two grids hold the same pieces on the same squares.
    pub fn same_position(&self, other: &Grid) -> (r: bool)
        ensures
            r == (*self == *other),
    {
        let mut i: usize = 0;
        while i < 8
            invariant
                0 <= i <= 8,
                forall|k: int| 0 <= k < i ==> self.0@[k] == other.0@[k],
            decreases 8 - i,
        {
            let a = self.0[i];
            let b = other.0[i];
            let mut j: usize = 0;
            while j < 8
                invariant
                    0 <= j <= 8,
                    a == self.0@[i as int],
                    b == other.0@[i as int],
                    forall|k: int| 0 <= k < j ==> a@[k] == b@[k],
                decreases 8 - j,
            {
                if !same_cell(a[j], b[j]) {
                    assert(self.0@[i as int]@[j as int] != other.0@[i as int]@[j as int]);
                    assert(self.0 != other.0);
                    return false;
                }
                j += 1;
            }
            assert(a =~= b);
            i += 1;
        }
        assert(self.0 =~= other.0);
        true
    }

    /// The grid after a move's squares are changed, without any check of legality.
    pub open spec fn spec_apply(self, m: Move, color: Color) -> Grid {
        match m {
            Move::Simple { from, to } => self.with(from, None).with(to, self.at(from)),
            Move::Promotion { piece, .. } => self.with(
                m.spec_resolve_to(color),
                Some(Piece { color, kind: piece }),
            ).with(m.spec_resolve_from(color), None),
            Move::EnPassant { to, .. } => {
                let src = m.spec_resolve_from(color);
                self.with(src, None).with(m.spec_resolve_to(color), self.at(src)).with(
                    Coordinate { file: to, rank: color.spec_en_passant_rank() },
                    None,
                )
            },
            Move::Castling { side } => {
                let src = m.spec_resolve_from(color);
                let g = self.with(src, None).with(m.spec_resolve_to(color), self.at(src));
                let rook_from = Coordinate { file: side.spec_rook_home_file(), rank: color.spec_home_rank() };
                let rook_to = Coordinate { file: side.spec_rook_castled_file(), rank: color.spec_home_rank() };
                g.with(rook_from, None).with(rook_to, g.at(rook_from))
            },
        }
    }

    /// Whether a move is a pawn move or a capture.
    pub open spec fn spec_advancing(self, m: Move) -> bool {
        match m {
            Move::Simple { from, to } => (self.at(from) matches Some(p) && p.kind == PieceKind::Pawn)
                || self.at(to) is Some,
            Move::Promotion { .. } => true,
            Move::EnPassant { .. } => true,
            Move::Castling { .. } => false,
        }
    }

    /// Moves pieces as `m` played by `color` does, with no check of legality, and
    /// tells whether the move was a pawn move or a capture.
    pub fn apply(&mut self, m: Move, color: Color) -> (advancing: bool)
        ensures
            *final(self) == old(self).spec_apply(m, color),
            advancing == old(self).spec_advancing(m),
    {
        match m {
            Move::Simple { from, to } => {
                let moving = self.get(from);
                let advancing = match moving {
                    Some(p) => match p.kind {
                        PieceKind::Pawn => true,
                        _ => false,
                    },
                    None => false,
                } || self.get(to).is_some();
                self.set(from, None);
                self.set(to, moving);
                advancing
            },
            Move::Promotion { piece, .. } => {
                self.set(m.resolve_to(color), Some(Piece { color, kind: piece }));
                self.set(m.resolve_from(color), None);
                true
            },
            Move::EnPassant { to, .. } => {
                let src = m.resolve_from(color);
                let moving = self.get(src);
                self.set(src, None);
                self.set(m.resolve_to(color), moving);
                self.set(Coordinate { file: to, rank: color.en_passant_rank() }, None);
                true
            },
            Move::Castling { side } => {
                let src = m.resolve_from(color);
                let moving = self.get(src);
                self.set(src, None);
                self.set(m.resolve_to(color), moving);
                let rank = color.home_rank();
                let rook_from = Coordinate { file: side.rook_home_file(), rank };
                let rook = self.get(rook_from);
                self.set(rook_from, None);
                self.set(Coordinate { file: side.rook_castled_file(), rank }, rook);
                false
            },
        }
    }

    /// A walk over the squares of this grid with what stands on them.
    pub fn iter_coord(&self) -> (r: Iter)
        ensures
            r.grid == *self,
            r.next == Some(Coordinate { file: File::A, rank: Rank::First }),
            r.back_next == Some(Coordinate { file: File::A, rank: Rank::Eighth }),
    {
        Iter {
            grid: *self,
            next: Some(Coordinate { file: File::A, rank: Rank::First }),
            back_next: Some(Coordinate { file: File::A, rank: Rank::Eighth }),
        }
    }
}

impl PartialEq for Grid {
    fn eq(&self, other: &Grid) -> (r: bool)
        ensures
            r == (*self == *other),
    {
        self.same_position(other)
    }
}

impl vstd::std_specs::cmp::PartialEqSpecImpl for Grid {
    open spec fn obeys_eq_spec() -> bool {
        true
    }

    open spec fn eq_spec(&self, other: &Grid) -> bool {
        *self == *other
    }
}

impl Default for Grid {
    fn default() -> (r: Self)
        ensures
            forall|d: Coordinate| #[trigger] r.at(d) == None::<Piece>,
    {
        Grid::empty()
    }
}

/// Whether two squares hold the same thing.
pub fn same_cell(a: Option<Piece>, b: Option<Piece>) -> (r: bool)
    ensures
        r == (a == b),
{
    match (a, b) {
        (None, None) => true,
        (Some(x), Some(y)) => x == y,
        _ => false,
    }
}

/// A walk over the squares of a grid, yielding what stands on each square with
/// the square: `next` from A1 to H8, `next_back` from A8 to H1 rank by rank.
pub struct Iter {
    pub grid: Grid,
    pub next: Option<Coordinate>,
    pub back_next: Option<Coordinate>,
}

impl Iter {
    pub fn next(&mut self) -> (r: Option<(Option<Piece>, Coordinate)>)
        ensures
            final(self).grid == old(self).grid,
            final(self).back_next == old(self).back_next,
            r == (match old(self).next {
                Some(c) => Some((old(self).grid.at(c), c)),
                None => None,
            }),
            final(self).next == (match old(self).next {
                Some(c) => square_of_index(c.index() + 1),
                None => None,
            }),
    {
        match self.next {
            Some(c) => {
                self.next = c.next();
                Some((self.grid.get(c), c))
            },
            None => None,
        }
    }

    pub fn next_back(&mut self) -> (r: Option<(Option<Piece>, Coordinate)>)
        ensures
            final(self).grid == old(self).grid,
            final(self).next == old(self).next,
            r == (match old(self).back_next {
                Some(c) => Some((old(self).grid.at(c), c)),
                None => None,
            }),
            final(self).back_next == (match old(self).back_next {
                Some(c) => if c.file == File::H {
                    square_at(0, c.rank.spec_ord() - 1)
                } else {
                    square_at(c.file.spec_ord() + 1, c.rank.spec_ord() as int)
                },
                None => None,
            }),
    {
        match self.back_next {
            Some(c) => {
                self.back_next = c.back_next();
                Some((self.grid.get(c), c))
            },
            None => None,
        }
    }
}

/// The first square, in A1..H8 order from position `i` on, that holds `piece`.
pub open spec fn find_from(g: Grid, piece: Piece, i: int) -> Option<Coordinate>
    decreases 64 - i,
{
    if i < 0 || i >= 64 {
        None
    } else if g.at(square_of_index(i).unwrap()) == Some(piece) {
        square_of_index(i)
    } else {
        find_from(g, piece, i + 1)
    }
}

/// Whether some square of `g` holds a piece of `kind` and `color`.
pub open spec fn has_piece(g: Grid, kind: PieceKind, color: Color) -> bool {
    exists|c: Coordinate| holds(#[trigger] g.at(c), kind, color)
}

/// The square of the first king of `color` in A1..H8 order.
pub open spec fn king_square(g: Grid, color: Color) -> Option<Coordinate> {
    find_from(g, Piece { kind: PieceKind::King, color }, 0)
}

pub proof fn lemma_find_from(g: Grid, piece: Piece, i: int)
    requires
        0 <= i <= 64,
    ensures
        find_from(g, piece, i) matches Some(c) ==> g.at(c) == Some(piece) && c.index() >= i,
        find_from(g, piece, i) is None <==> forall|c: Coordinate|
            #[trigger] c.index() >= i ==> g.at(c) != Some(piece),
    decreases 64 - i,
{
    if i == 64 {
        assert forall|c: Coordinate| #[trigger] c.index() >= i implies g.at(c) != Some(piece) by {
            lemma_index(c);
        }
    } else {
        lemma_square_at(i % 8, i / 8);
        let s = square_of_index(i).unwrap();
        lemma_index(s);
        assert forall|c: Coordinate| c.index() == i implies c == s by {
            lemma_index_injective(c, s);
        }
        lemma_find_from(g, piece, i + 1);
    }
}

/// A king of `color` stands on the board exactly when `king_square` finds one.
pub proof fn lemma_king_square(g: Grid, color: Color)
    ensures
        king_square(g, color) is Some <==> has_piece(g, PieceKind::King, color),
        king_square(g, color) matches Some(k) ==> holds(g.at(k), PieceKind::King, color),
{
    let piece = Piece { kind: PieceKind::King, color };
    lemma_find_from(g, piece, 0);
    if has_piece(g, PieceKind::King, color) {
        let c = choose|c: Coordinate| holds(#[trigger] g.at(c), PieceKind::King, color);
        lemma_index(c);
    }
}

/// The first square of `g`, in A1..H8 order, that holds `piece`.
pub fn find_in(g: &Grid, piece: Piece) -> (r: Option<Coordinate>)
    ensures
        r == find_from(*g, piece, 0),
{
    let mut i: usize = 0;
    while i < 64
        invariant
            0 <= i <= 64,
            find_from(*g, piece, 0) == find_from(*g, piece, i as int),
        decreases 64 - i,
    {
        let s = Coordinate::from_index(i);
        if same_cell(g.get(s), Some(piece)) {
            return Some(s);
        }
        i += 1;
    }
    None
}

} // verus!
