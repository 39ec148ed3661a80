use vstd::prelude::*;

use crate::coordinate::Rank;

verus! {

/// The six kinds of chess pieces.
#[derive(Debug, Clone, Copy, PartialEq, Eq, Structural)]
pub enum PieceKind {
    Pawn,
    Knight,
    Bishop,
    Rook,
    Queen,
    King,
}

impl PieceKind {
    /// The lowercase letter that names a kind: `p n b r q k`.
    pub open spec fn spec_letter(self) -> char {
        match self {
            PieceKind::Pawn => 'p',
            PieceKind::Knight => 'n',
            PieceKind::Bishop => 'b',
            PieceKind::Rook => 'r',
            PieceKind::Queen => 'q',
            PieceKind::King => 'k',
        }
    }

    /// The kind named by a one-letter lowercase string, if any.
    pub open spec fn spec_parse(s: Seq<char>) -> Option<PieceKind> {
        if s.len() != 1 {
            None
        } else if s[0] == 'p' {
            Some(PieceKind::Pawn)
        } else if s[0] == 'n' {
            Some(PieceKind::Knight)
        } else if s[0] == 'b' {
            Some(PieceKind::Bishop)
        } else if s[0] == 'r' {
            Some(PieceKind::Rook)
        } else if s[0] == 'q' {
            Some(PieceKind::Queen)
        } else if s[0] == 'k' {
            Some(PieceKind::King)
        } else {
            None
        }
    }

    pub fn parse(raw: &str) -> (r: Option<Self>)
        ensures
            r == Self::spec_parse(raw@),
            r matches Some(k) ==> raw@ == seq![k.spec_letter()],
    {
        if raw.unicode_len() != 1 {
            return None;
        }
        let c = raw.get_char(0);
        let r = Self::from_letter(c);
        proof {
            if let Some(k) = r {
                assert(raw@ =~= seq![k.spec_letter()]);
            }
        }
        r
    }

    /// The kind named by one lowercase letter.
    pub fn from_letter(c: char) -> (r: Option<Self>)
        ensures
            r == Self::spec_parse(seq![c]),
    {
        if c == 'p' {
            Some(PieceKind::Pawn)
        } else if c == 'n' {
            Some(PieceKind::Knight)
        } else if c == 'b' {
            Some(PieceKind::Bishop)
        } else if c == 'r' {
            Some(PieceKind::Rook)
        } else if c == 'q' {
            Some(PieceKind::Queen)
        } else if c == 'k' {
            Some(PieceKind::King)
        } else {
            None
        }
    }
}

/// The two sides.
#[derive(Debug, Clone, Copy, PartialEq, Eq, Structural)]
pub enum Color {
    Black,
    White,
}

impl Color {
    pub open spec fn spec_the_other(self) -> Color {
        match self {
            Color::Black => Color::White,
            Color::White => Color::Black,
        }
    }

    #[verifier::when_used_as_spec(spec_the_other)]
    pub fn the_other(self) -> (r: Self)
        ensures
            r == self.spec_the_other(),
            r != self,
    {
        match self {
            Color::Black => Color::White,
            Color::White => Color::Black,
        }
    }

    /// The direction in which this side's pawns advance: +1 rank for White, -1 for Black.
    pub open spec fn spec_direction(self) -> i8 {
        match self {
            Color::White => 1,
            Color::Black => -1i8,
        }
    }

    #[verifier::when_used_as_spec(spec_direction)]
    pub fn direction(self) -> (r: i8)
        ensures
            r == self.spec_direction(),
    {
        match self {
            Color::White => 1,
            Color::Black => -1i8,
        }
    }

    /// The rank on which this side's king and rooks start.
    pub open spec fn spec_home_rank(self) -> Rank {
        match self {
            Color::White => Rank::First,
            Color::Black => Rank::Eighth,
        }
    }

    #[verifier::when_used_as_spec(spec_home_rank)]
    pub fn home_rank(self) -> (r: Rank)
        ensures
            r == self.spec_home_rank(),
    {
        match self {
            Color::White => Rank::First,
            Color::Black => Rank::Eighth,
        }
    }

    /// The rank on which this side's pawns start.
    pub open spec fn spec_pawn_rank(self) -> Rank {
        match self {
            Color::White => Rank::Second,
            Color::Black => Rank::Seventh,
        }
    }

    #[verifier::when_used_as_spec(spec_pawn_rank)]
    pub fn pawn_rank(self) -> (r: Rank)
        ensures
            r == self.spec_pawn_rank(),
    {
        match self {
            Color::White => Rank::Second,
            Color::Black => Rank::Seventh,
        }
    }

    /// The rank from which this side's pawns promote.
    pub open spec fn spec_prepromotion_rank(self) -> Rank {
        match self {
            Color::White => Rank::Seventh,
            Color::Black => Rank::Second,
        }
    }

    #[verifier::when_used_as_spec(spec_prepromotion_rank)]
    pub fn prepromotion_rank(self) -> (r: Rank)
        ensures
            r == self.spec_prepromotion_rank(),
    {
        match self {
            Color::White => Rank::Seventh,
            Color::Black => Rank::Second,
        }
    }

    /// The rank on which this side's pawns promote.
    pub open spec fn spec_promotion_rank(self) -> Rank {
        match self {
            Color::White => Rank::Eighth,
            Color::Black => Rank::First,
        }
    }

    #[verifier::when_used_as_spec(spec_promotion_rank)]
    pub fn promotion_rank(self) -> (r: Rank)
        ensures
            r == self.spec_promotion_rank(),
    {
        match self {
            Color::White => Rank::Eighth,
            Color::Black => Rank::First,
        }
    }

    /// The rank on which this side's pawns may capture en passant.
    pub open spec fn spec_en_passant_rank(self) -> Rank {
        match self {
            Color::White => Rank::Fifth,
            Color::Black => Rank::Fourth,
        }
    }

    #[verifier::when_used_as_spec(spec_en_passant_rank)]
    pub fn en_passant_rank(self) -> (r: Rank)
        ensures
            r == self.spec_en_passant_rank(),
    {
        match self {
            Color::White => Rank::Fifth,
            Color::Black => Rank::Fourth,
        }
    }

    /// The rank on which this side's pawns land after an en passant capture.
    pub open spec fn spec_unpassable_rank(self) -> Rank {
        match self {
            Color::White => Rank::Sixth,
            Color::Black => Rank::Third,
        }
    }

    #[verifier::when_used_as_spec(spec_unpassable_rank)]
    pub fn unpassable_rank(self) -> (r: Rank)
        ensures
            r == self.spec_unpassable_rank(),
    {
        match self {
            Color::White => Rank::Sixth,
            Color::Black => Rank::Third,
        }
    }
}

/// A piece: a kind and a side.
#[derive(Debug, Clone, Copy, PartialEq, Eq, Structural)]
pub struct Piece {
    pub kind: PieceKind,
    pub color: Color,
}

impl Piece {
    /// The piece named by a letter of the position notation: uppercase for White,
    /// lowercase for Black.
    pub open spec fn spec_from_letter(c: char) -> Option<Piece> {
        if c == 'P' {
            Some(Piece { kind: PieceKind::Pawn, color: Color::White })
        } else if c == 'N' {
            Some(Piece { kind: PieceKind::Knight, color: Color::White })
        } else if c == 'B' {
            Some(Piece { kind: PieceKind::Bishop, color: Color::White })
        } else if c == 'R' {
            Some(Piece { kind: PieceKind::Rook, color: Color::White })
        } else if c == 'Q' {
            Some(Piece { kind: PieceKind::Queen, color: Color::White })
        } else if c == 'K' {
            Some(Piece { kind: PieceKind::King, color: Color::White })
        } else if c == 'p' {
            Some(Piece { kind: PieceKind::Pawn, color: Color::Black })
        } else if c == 'n' {
            Some(Piece { kind: PieceKind::Knight, color: Color::Black })
        } else if c == 'b' {
            Some(Piece { kind: PieceKind::Bishop, color: Color::Black })
        } else if c == 'r' {
            Some(Piece { kind: PieceKind::Rook, color: Color::Black })
        } else if c == 'q' {
            Some(Piece { kind: PieceKind::Queen, color: Color::Black })
        } else if c == 'k' {
            Some(Piece { kind: PieceKind::King, color: Color::Black })
        } else {
            None
        }
    }

    pub open spec fn spec_parse(s: Seq<char>) -> Option<Piece> {
        if s.len() == 1 {
            Self::spec_from_letter(s[0])
        } else {
            None
        }
    }

    pub fn parse(raw: &str) -> (r: Option<Self>)
        ensures
            r == Self::spec_parse(raw@),
    {
        if raw.unicode_len() != 1 {
            return None;
        }
        Self::from_letter(raw.get_char(0))
    }

    pub fn from_letter(c: char) -> (r: Option<Self>)
        ensures
            r == Self::spec_from_letter(c),
    {
        let (kind, color) = if c == 'P' {
            (PieceKind::Pawn, Color::White)
        } else if c == 'N' {
            (PieceKind::Knight, Color::White)
        } else if c == 'B' {
            (PieceKind::Bishop, Color::White)
        } else if c == 'R' {
            (PieceKind::Rook, Color::White)
        } else if c == 'Q' {
            (PieceKind::Queen, Color::White)
        } else if c == 'K' {
            (PieceKind::King, Color::White)
        } else if c == 'p' {
            (PieceKind::Pawn, Color::Black)
        } else if c == 'n' {
            (PieceKind::Knight, Color::Black)
        } else if c == 'b' {
            (PieceKind::Bishop, Color::Black)
        } else if c == 'r' {
            (PieceKind::Rook, Color::Black)
        } else if c == 'q' {
            (PieceKind::Queen, Color::Black)
        } else if c == 'k' {
            (PieceKind::King, Color::Black)
        } else {
            return None;
        };
        Some(Piece { kind, color })
    }
}

} // verus!
