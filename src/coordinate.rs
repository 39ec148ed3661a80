use vstd::prelude::*;

use crate::piece::{Color, PieceKind};

verus! {

/// A rank of the board, from the first (White's home) to the eighth.
#[derive(Clone, Debug, Copy, PartialEq, Eq, Structural)]
pub enum Rank {
    First,
    Second,
    Third,
    Fourth,
    Fifth,
    Sixth,
    Seventh,
    Eighth,
}

impl Rank {
    /// The rank's position, 0 for the first up to 7 for the eighth.
    pub open spec fn spec_ord(self) -> u8 {
        match self {
            Rank::First => 0,
            Rank::Second => 1,
            Rank::Third => 2,
            Rank::Fourth => 3,
            Rank::Fifth => 4,
            Rank::Sixth => 5,
            Rank::Seventh => 6,
            Rank::Eighth => 7,
        }
    }

    #[verifier::when_used_as_spec(spec_ord)]
    pub fn ord(self) -> (r: u8)
        ensures
            r == self.spec_ord(),
    {
        match self {
            Rank::First => 0,
            Rank::Second => 1,
            Rank::Third => 2,
            Rank::Fourth => 3,
            Rank::Fifth => 4,
            Rank::Sixth => 5,
            Rank::Seventh => 6,
            Rank::Eighth => 7,
        }
    }

    /// The rank at position `i`, if `i` lies in 0..8.
    pub open spec fn spec_from_int(i: int) -> Option<Rank> {
        if i == 0 {
            Some(Rank::First)
        } else if i == 1 {
            Some(Rank::Second)
        } else if i == 2 {
            Some(Rank::Third)
        } else if i == 3 {
            Some(Rank::Fourth)
        } else if i == 4 {
            Some(Rank::Fifth)
        } else if i == 5 {
            Some(Rank::Sixth)
        } else if i == 6 {
            Some(Rank::Seventh)
        } else if i == 7 {
            Some(Rank::Eighth)
        } else {
            None
        }
    }

    pub fn from_ord(value: i16) -> (r: Option<Self>)
        ensures
            r == Self::spec_from_int(value as int),
    {
        match value {
            0 => Some(Rank::First),
            1 => Some(Rank::Second),
            2 => Some(Rank::Third),
            3 => Some(Rank::Fourth),
            4 => Some(Rank::Fifth),
            5 => Some(Rank::Sixth),
            6 => Some(Rank::Seventh),
            7 => Some(Rank::Eighth),
            _ => None,
        }
    }

    /// The rank `n` ranks above this one; `None` off the board.
    pub fn checked_add(self, n: i8) -> (r: Option<Self>)
        ensures
            r == Self::spec_from_int(self.spec_ord() + n),
    {
        Self::from_ord(self.ord() as i16 + n as i16)
    }

    /// The rank `n` ranks below this one; `None` off the board.
    pub fn checked_sub(self, n: i8) -> (r: Option<Self>)
        ensures
            r == Self::spec_from_int(self.spec_ord() - n),
    {
        Self::from_ord(self.ord() as i16 - n as i16)
    }

    /// The rank named by a digit character `1` to `8`.
    pub open spec fn spec_from_char(c: char) -> Option<Rank> {
        if '1' <= c && c <= '8' {
            Self::spec_from_int(c as int - '1' as int)
        } else {
            None
        }
    }

    pub open spec fn spec_parse(s: Seq<char>) -> Option<Rank> {
        if s.len() == 1 {
            Self::spec_from_char(s[0])
        } else {
            None
        }
    }

    pub fn from_char(c: char) -> (r: Option<Self>)
        ensures
            r == Self::spec_from_char(c),
    {
        if '1' <= c && c <= '8' {
            Self::from_ord((c as u32 - '1' as u32) as i16)
        } else {
            None
        }
    }

    pub fn parse(raw: &str) -> (r: Option<Self>)
        ensures
            r == Self::spec_parse(raw@),
    {
        if raw.unicode_len() != 1 {
            return None;
        }
        Self::from_char(raw.get_char(0))
    }
}

/// A file of the board, from `a` (queenside) to `h` (kingside).
#[derive(Clone, Debug, Copy, PartialEq, Eq, Structural)]
pub enum File {
    A,
    B,
    C,
    D,
    E,
    F,
    G,
    H,
}

impl File {
    /// The file's position, 0 for `a` up to 7 for `h`.
    pub open spec fn spec_ord(self) -> u8 {
        match self {
            File::A => 0,
            File::B => 1,
            File::C => 2,
            File::D => 3,
            File::E => 4,
            File::F => 5,
            File::G => 6,
            File::H => 7,
        }
    }

    #[verifier::when_used_as_spec(spec_ord)]
    pub fn ord(self) -> (r: u8)
        ensures
            r == self.spec_ord(),
    {
        match self {
            File::A => 0,
            File::B => 1,
            File::C => 2,
            File::D => 3,
            File::E => 4,
            File::F => 5,
            File::G => 6,
            File::H => 7,
        }
    }

    /// The file at position `i`, if `i` lies in 0..8.
    pub open spec fn spec_from_int(i: int) -> Option<File> {
        if i == 0 {
            Some(File::A)
        } else if i == 1 {
            Some(File::B)
        } else if i == 2 {
            Some(File::C)
        } else if i == 3 {
            Some(File::D)
        } else if i == 4 {
            Some(File::E)
        } else if i == 5 {
            Some(File::F)
        } else if i == 6 {
            Some(File::G)
        } else if i == 7 {
            Some(File::H)
        } else {
            None
        }
    }

    pub fn from_ord(value: i16) -> (r: Option<Self>)
        ensures
            r == Self::spec_from_int(value as int),
    {
        match value {
            0 => Some(File::A),
            1 => Some(File::B),
            2 => Some(File::C),
            3 => Some(File::D),
            4 => Some(File::E),
            5 => Some(File::F),
            6 => Some(File::G),
            7 => Some(File::H),
            _ => None,
        }
    }

    /// The file `n` files to the right of this one; `None` off the board.
    pub fn checked_add(self, n: i8) -> (r: Option<Self>)
        ensures
            r == Self::spec_from_int(self.spec_ord() + n),
    {
        Self::from_ord(self.ord() as i16 + n as i16)
    }

    /// The file `n` files to the left of this one; `None` off the board.
    pub fn checked_sub(self, n: i8) -> (r: Option<Self>)
        ensures
            r == Self::spec_from_int(self.spec_ord() - n),
    {
        Self::from_ord(self.ord() as i16 - n as i16)
    }

    /// The file named by a letter `a` to `h`.
    pub open spec fn spec_from_char(c: char) -> Option<File> {
        if 'a' <= c && c <= 'h' {
            Self::spec_from_int(c as int - 'a' as int)
        } else {
            None
        }
    }

    pub open spec fn spec_parse(s: Seq<char>) -> Option<File> {
        if s.len() == 1 {
            Self::spec_from_char(s[0])
        } else {
            None
        }
    }

    pub fn from_char(c: char) -> (r: Option<Self>)
        ensures
            r == Self::spec_from_char(c),
    {
        if 'a' <= c && c <= 'h' {
            Self::from_ord((c as u32 - 'a' as u32) as i16)
        } else {
            None
        }
    }

    pub fn parse(raw: &str) -> (r: Option<Self>)
        ensures
            r == Self::spec_parse(raw@),
    {
        if raw.unicode_len() != 1 {
            return None;
        }
        Self::from_char(raw.get_char(0))
    }
}

/// A square of the board.
#[derive(Clone, Debug, Copy, PartialEq, Eq, Structural)]
pub struct Coordinate {
    pub file: File,
    pub rank: Rank,
}

/// A displacement on the board, in ranks and files.
#[derive(Clone, Debug, Copy)]
pub struct Offset {
    pub vertical: i8,
    pub horizontal: i8,
}

impl Offset {
    /// An offset from a `(horizontal, vertical)` pair.
    pub fn from_pair(of: (i8, i8)) -> (r: Self)
        ensures
            r.horizontal == of.0,
            r.vertical == of.1,
    {
        Offset { horizontal: of.0, vertical: of.1 }
    }
}

/// The square at file position `f` and rank position `r`, if both lie in 0..8.
pub open spec fn square_at(f: int, r: int) -> Option<Coordinate> {
    match (File::spec_from_int(f), Rank::spec_from_int(r)) {
        (Some(file), Some(rank)) => Some(Coordinate { file, rank }),
        _ => None,
    }
}

/// The square whose position in A1..H8 row-major order is `i`.
pub open spec fn square_of_index(i: int) -> Option<Coordinate> {
    if 0 <= i < 64 {
        square_at(i % 8, i / 8)
    } else {
        None
    }
}

pub proof fn lemma_rank_from_int(i: int)
    ensures
        Rank::spec_from_int(i) is Some <==> 0 <= i < 8,
        Rank::spec_from_int(i) matches Some(r) ==> r.spec_ord() == i,
        forall|r: Rank| #[trigger] Rank::spec_from_int(r.spec_ord() as int) == Some(r),
{
}

pub proof fn lemma_file_from_int(i: int)
    ensures
        File::spec_from_int(i) is Some <==> 0 <= i < 8,
        File::spec_from_int(i) matches Some(f) ==> f.spec_ord() == i,
        forall|f: File| #[trigger] File::spec_from_int(f.spec_ord() as int) == Some(f),
{
}

pub proof fn lemma_square_at(f: int, r: int)
    ensures
        square_at(f, r) is Some <==> (0 <= f < 8 && 0 <= r < 8),
        square_at(f, r) matches Some(c) ==> c.file.spec_ord() == f && c.rank.spec_ord() == r,
{
    lemma_rank_from_int(r);
    lemma_file_from_int(f);
}

pub proof fn lemma_square_at_ords(c: Coordinate)
    ensures
        square_at(c.file.spec_ord() as int, c.rank.spec_ord() as int) == Some(c),
{
    lemma_rank_from_int(0);
    lemma_file_from_int(0);
}

/// Every square has a position in 0..64, and that position names it.
pub proof fn lemma_index(c: Coordinate)
    ensures
        0 <= c.index() < 64,
        square_of_index(c.index()) == Some(c),
{
    let f = c.file.spec_ord() as int;
    let r = c.rank.spec_ord() as int;
    assert(0 <= r * 8 + f < 64) by (nonlinear_arith)
        requires
            0 <= f < 8,
            0 <= r < 8,
    ;
    assert((r * 8 + f) % 8 == f && (r * 8 + f) / 8 == r) by (nonlinear_arith)
        requires
            0 <= f < 8,
            0 <= r < 8,
    ;
    lemma_square_at_ords(c);
}

/// Two squares with the same position are the same square.
pub proof fn lemma_index_injective(c: Coordinate, d: Coordinate)
    ensures
        c.index() == d.index() ==> c == d,
{
    lemma_index(c);
    lemma_index(d);
}

impl Coordinate {
    /// The position of this square in A1..H8 row-major order.
    pub open spec fn index(self) -> int {
        self.rank.spec_ord() * 8 + self.file.spec_ord()
    }

    /// The square `vertical` ranks up and `horizontal` files right of this one.
    pub open spec fn spec_offset(self, vertical: int, horizontal: int) -> Option<Coordinate> {
        square_at(self.file.spec_ord() + horizontal, self.rank.spec_ord() + vertical)
    }

    /// The square at position `i` in A1..H8 row-major order.
    pub fn from_index(i: usize) -> (r: Coordinate)
        requires
            i < 64,
        ensures
            square_of_index(i as int) == Some(r),
            r.index() == i,
    {
        proof {
            lemma_square_at(i as int % 8, i as int / 8);
        }
        match (File::from_ord((i % 8) as i16), Rank::from_ord((i / 8) as i16)) {
            (Some(file), Some(rank)) => Coordinate { file, rank },
            _ => {
                proof {
                    assert(false);
                }
                Coordinate { file: File::A, rank: Rank::First }
            },
        }
    }

    /// The next square in ascending order: along the rank, then to the start of the
    /// rank above.
    pub fn next(self) -> (r: Option<Self>)
        ensures
            r == (if self.file == File::H {
                square_at(0, self.rank.spec_ord() + 1)
            } else {
                square_at(self.file.spec_ord() + 1, self.rank.spec_ord() as int)
            }),
            r == square_of_index(self.index() + 1),
    {
        proof {
            lemma_square_at(self.file.spec_ord() + 1, self.rank.spec_ord() as int);
            lemma_square_at(0, self.rank.spec_ord() + 1);
            lemma_square_at((self.index() + 1) % 8, (self.index() + 1) / 8);
            lemma_rank_from_int(0);
            lemma_file_from_int(0);
        }
        if let Some(file) = self.file.checked_add(1) {
            Some(Coordinate { file, rank: self.rank })
        } else {
            match self.rank.checked_add(1) {
                Some(rank) => Some(Coordinate { file: File::A, rank }),
                None => None,
            }
        }
    }

    /// The next square in the order of a position description: along the rank,
    /// then to the start of the rank below.
    pub fn back_next(self) -> (r: Option<Self>)
        ensures
            r == (if self.file == File::H {
                square_at(0, self.rank.spec_ord() - 1)
            } else {
                square_at(self.file.spec_ord() + 1, self.rank.spec_ord() as int)
            }),
    {
        proof {
            lemma_square_at(self.file.spec_ord() + 1, self.rank.spec_ord() as int);
            lemma_file_from_int(self.file.spec_ord() + 1);
        }
        if let Some(file) = self.file.checked_add(1) {
            Some(Coordinate { file, rank: self.rank })
        } else {
            match self.rank.checked_sub(1) {
                Some(rank) => Some(Coordinate { file: File::A, rank }),
                None => None,
            }
        }
    }

    /// A walk over all squares, forwards from A1 and backwards from A8.
    pub fn iter() -> (r: Iter)
        ensures
            r.next == Some(Coordinate { file: File::A, rank: Rank::First }),
            r.back_next == Some(Coordinate { file: File::A, rank: Rank::Eighth }),
    {
        Iter::new()
    }

    pub fn checked_add_offset(self, offset: Offset) -> (r: Option<Self>)
        ensures
            r == self.spec_offset(offset.vertical as int, offset.horizontal as int),
    {
        let file = match self.file.checked_add(offset.horizontal) {
            Some(f) => f,
            None => return None,
        };
        let rank = match self.rank.checked_add(offset.vertical) {
            Some(r) => r,
            None => return None,
        };
        Some(Coordinate { file, rank })
    }

    /// The offset that leads from `rhs` to this square.
    pub fn offset_from(self, rhs: Coordinate) -> (r: Offset)
        ensures
            r.horizontal == self.file.spec_ord() - rhs.file.spec_ord(),
            r.vertical == self.rank.spec_ord() - rhs.rank.spec_ord(),
            rhs.spec_offset(r.vertical as int, r.horizontal as int) == Some(self),
    {
        proof {
            lemma_square_at_ords(self);
        }
        Offset {
            horizontal: self.file.ord() as i8 - rhs.file.ord() as i8,
            vertical: self.rank.ord() as i8 - rhs.rank.ord() as i8,
        }
    }

    /// The square named by the first two characters of a string, such as `e4`.
    pub open spec fn spec_parse(s: Seq<char>) -> Option<Coordinate> {
        if s.len() < 2 {
            None
        } else {
            Self::spec_from_chars(s[0], s[1])
        }
    }

    /// The square named by a file letter and a rank digit.
    pub open spec fn spec_from_chars(f: char, r: char) -> Option<Coordinate> {
        match (File::spec_from_char(f), Rank::spec_from_char(r)) {
            (Some(file), Some(rank)) => Some(Coordinate { file, rank }),
            _ => None,
        }
    }

    pub fn parse(raw: &str) -> (r: Option<Self>)
        ensures
            r == Self::spec_parse(raw@),
    {
        if raw.unicode_len() < 2 {
            return None;
        }
        Self::from_chars(raw.get_char(0), raw.get_char(1))
    }

    /// The square named by a file letter and a rank digit.
    pub fn from_chars(f: char, r: char) -> (res: Option<Self>)
        ensures
            res == Self::spec_from_chars(f, r),
    {
        let file = match File::from_char(f) {
            Some(x) => x,
            None => return None,
        };
        let rank = match Rank::from_char(r) {
            Some(x) => x,
            None => return None,
        };
        Some(Coordinate { file, rank })
    }
}

/// A side of the board to castle toward.
#[derive(Clone, Debug, Copy, PartialEq, Eq, Structural)]
pub enum Side {
    King,
    Queen,
}

impl Side {
    /// The file on which the king lands.
    pub open spec fn spec_king_safespot_file(self) -> File {
        match self {
            Side::King => File::G,
            Side::Queen => File::C,
        }
    }

    #[verifier::when_used_as_spec(spec_king_safespot_file)]
    pub fn king_safespot_file(self) -> (r: File)
        ensures
            r == self.spec_king_safespot_file(),
    {
        match self {
            Side::King => File::G,
            Side::Queen => File::C,
        }
    }

    /// The file on which the rook starts.
    pub open spec fn spec_rook_home_file(self) -> File {
        match self {
            Side::King => File::H,
            Side::Queen => File::A,
        }
    }

    #[verifier::when_used_as_spec(spec_rook_home_file)]
    pub fn rook_home_file(self) -> (r: File)
        ensures
            r == self.spec_rook_home_file(),
    {
        match self {
            Side::King => File::H,
            Side::Queen => File::A,
        }
    }

    /// The file on which the rook lands.
    pub open spec fn spec_rook_castled_file(self) -> File {
        match self {
            Side::King => File::F,
            Side::Queen => File::D,
        }
    }

    #[verifier::when_used_as_spec(spec_rook_castled_file)]
    pub fn rook_castled_file(self) -> (r: File)
        ensures
            r == self.spec_rook_castled_file(),
    {
        match self {
            Side::King => File::F,
            Side::Queen => File::D,
        }
    }
}

/// A move. Promotion, en passant and castling leave the ranks implied by the
/// mover's color.
#[derive(Clone, Debug, Copy, PartialEq, Eq, Structural)]
#[allow(inconsistent_fields)]
pub enum Move {
    Simple { from: Coordinate, to: Coordinate },
    Promotion { from: File, to: File, piece: PieceKind },
    EnPassant { from: File, to: File },
    Castling { side: Side },
}

impl Move {
    pub open spec fn spec_resolve_from(self, color: Color) -> Coordinate {
        match self {
            Move::Simple { from, .. } => from,
            Move::Promotion { from, .. } => Coordinate {
                file: from,
                rank: color.spec_prepromotion_rank(),
            },
            Move::EnPassant { from, .. } => Coordinate {
                file: from,
                rank: color.spec_en_passant_rank(),
            },
            Move::Castling { .. } => Coordinate { file: File::E, rank: color.spec_home_rank() },
        }
    }

    /// The square the moving piece leaves.
    #[verifier::when_used_as_spec(spec_resolve_from)]
    pub fn resolve_from(self, color: Color) -> (r: Coordinate)
        ensures
            r == self.spec_resolve_from(color),
    {
        match self {
            Move::Simple { from, .. } => from,
            Move::Promotion { from, .. } => Coordinate {
                file: from,
                rank: color.prepromotion_rank(),
            },
            Move::EnPassant { from, .. } => Coordinate {
                file: from,
                rank: color.en_passant_rank(),
            },
            Move::Castling { .. } => Coordinate { file: File::E, rank: color.home_rank() },
        }
    }

    pub open spec fn spec_resolve_to(self, color: Color) -> Coordinate {
        match self {
            Move::Simple { to, .. } => to,
            Move::Promotion { to, .. } => Coordinate {
                file: to,
                rank: color.spec_promotion_rank(),
            },
            Move::EnPassant { to, .. } => Coordinate {
                file: to,
                rank: color.spec_unpassable_rank(),
            },
            Move::Castling { side } => Coordinate {
                file: side.spec_king_safespot_file(),
                rank: color.spec_home_rank(),
            },
        }
    }

    /// The square the moving piece (the king, for castling) lands on.
    #[verifier::when_used_as_spec(spec_resolve_to)]
    pub fn resolve_to(self, color: Color) -> (r: Coordinate)
        ensures
            r == self.spec_resolve_to(color),
    {
        match self {
            Move::Simple { to, .. } => to,
            Move::Promotion { to, .. } => Coordinate { file: to, rank: color.promotion_rank() },
            Move::EnPassant { to, .. } => Coordinate { file: to, rank: color.unpassable_rank() },
            Move::Castling { side } => Coordinate {
                file: side.king_safespot_file(),
                rank: color.home_rank(),
            },
        }
    }
}

/// A walk over the squares: `next` ascends from A1 to H8 rank by rank, and
/// `next_back` goes from A8 to H1 in the order of a position description.
pub struct Iter {
    pub next: Option<Coordinate>,
    pub back_next: Option<Coordinate>,
}

impl Iter {
    pub fn new() -> (r: Self)
        ensures
            r.next == Some(Coordinate { file: File::A, rank: Rank::First }),
            r.back_next == Some(Coordinate { file: File::A, rank: Rank::Eighth }),
    {
        Iter {
            next: Some(Coordinate { file: File::A, rank: Rank::First }),
            back_next: Some(Coordinate { file: File::A, rank: Rank::Eighth }),
        }
    }

    /// The square at the forward position, which then advances.
    pub fn next(&mut self) -> (r: Option<Coordinate>)
        ensures
            r == old(self).next,
            final(self).back_next == old(self).back_next,
            final(self).next == (match old(self).next {
                Some(c) => square_of_index(c.index() + 1),
                None => None,
            }),
    {
        match self.next {
            Some(c) => {
                self.next = c.next();
                Some(c)
            },
            None => None,
        }
    }

    /// The square at the backward position, which then advances.
    pub fn next_back(&mut self) -> (r: Option<Coordinate>)
        ensures
            r == old(self).back_next,
            final(self).next == old(self).next,
            final(self).back_next == (match old(self).back_next {
                Some(c) => if c.file == File::H {
                    square_at(0, c.rank.spec_ord() - 1)
                } else {
                    square_at(c.file.spec_ord() + 1, c.rank.spec_ord() as int)
                },
                None => None,
            }),
    {
        match self.back_next {
            Some(c) => {
                self.back_next = c.back_next();
                Some(c)
            },
            None => None,
        }
    }
}

} // verus!
