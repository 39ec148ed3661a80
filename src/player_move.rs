use vstd::prelude::*;

use crate::coordinate::{Coordinate, File, Move, Rank, Side};
use crate::piece::{Color, PieceKind};

verus! {

/// A move as a player submits it.
#[derive(Debug, Clone, Copy)]
#[allow(inconsistent_fields)]
pub enum PlayerMove {
    /// A move in the engine's own form.
    Internal(Move),
    /// The squares left and reached, with the piece chosen for a promotion.
    Long { from: Coordinate, to: Coordinate, promotion: Option<PieceKind> },
    /// A piece, its target and what disambiguates it; never resolved against a board.
    Short {
        piece: PieceKind,
        to: (File, Option<Rank>),
        from: (Option<File>, Option<Rank>),
        capture: bool,
        promotion: Option<PieceKind>,
    },
}

impl PlayerMove {
    /// Whether the engine move `m`, played by `color`, is the one this input names:
    /// the same move for the engine's form; for the long form the same squares, and
    /// for a promotion the requested piece. The short form names none.
    pub open spec fn spec_selects(self, color: Color, m: Move) -> bool {
        match self {
            PlayerMove::Internal(x) => m == x,
            PlayerMove::Long { from, to, promotion } => {
                &&& m.spec_resolve_from(color) == from
                &&& m.spec_resolve_to(color) == to
                &&& (m matches Move::Promotion { piece, .. } ==> promotion == Some(piece))
            },
            PlayerMove::Short { .. } => false,
        }
    }

    pub fn selects(&self, color: Color, m: Move) -> (r: bool)
        ensures
            r == self.spec_selects(color, m),
    {
        match *self {
            PlayerMove::Internal(x) => m == x,
            PlayerMove::Long { from, to, promotion } => {
                m.resolve_from(color) == from && m.resolve_to(color) == to && match m {
                    Move::Promotion { piece, .. } => match promotion {
                        Some(p) => p == piece,
                        None => false,
                    },
                    _ => true,
                }
            },
            PlayerMove::Short { .. } => false,
        }
    }

    /// The move named by a string: `e2e4` (long form), `e7e8q` (long form with a
    /// promotion), `=efq` (promotion from file e to file f), `~de` (en passant from
    /// file d to file e), and any four- or six-character string starting with `c`
    /// that is not a long form (castling kingside or queenside).
    pub open spec fn spec_parse(s: Seq<char>) -> Option<PlayerMove> {
        if s.len() == 4 && Coordinate::spec_from_chars(s[0], s[1]) is Some
            && Coordinate::spec_from_chars(s[2], s[3]) is Some {
            Some(
                PlayerMove::Long {
                    from: Coordinate::spec_from_chars(s[0], s[1]).unwrap(),
                    to: Coordinate::spec_from_chars(s[2], s[3]).unwrap(),
                    promotion: None,
                },
            )
        } else if s.len() == 5 && Coordinate::spec_from_chars(s[0], s[1]) is Some
            && Coordinate::spec_from_chars(s[2], s[3]) is Some && PieceKind::spec_parse(seq![s[4]]) is Some {
            Some(
                PlayerMove::Long {
                    from: Coordinate::spec_from_chars(s[0], s[1]).unwrap(),
                    to: Coordinate::spec_from_chars(s[2], s[3]).unwrap(),
                    promotion: PieceKind::spec_parse(seq![s[4]]),
                },
            )
        } else if s.len() == 4 && s[0] == '=' {
            match (File::spec_from_char(s[1]), File::spec_from_char(s[2]), PieceKind::spec_parse(seq![s[3]])) {
                (Some(from), Some(to), Some(piece)) => Some(
                    PlayerMove::Internal(Move::Promotion { from, to, piece }),
                ),
                _ => None,
            }
        } else if s.len() == 3 && s[0] == '~' {
            match (File::spec_from_char(s[1]), File::spec_from_char(s[2])) {
                (Some(from), Some(to)) => Some(PlayerMove::Internal(Move::EnPassant { from, to })),
                _ => None,
            }
        } else if s.len() == 4 && s[0] == 'c' {
            Some(PlayerMove::Internal(Move::Castling { side: Side::King }))
        } else if s.len() == 6 && s[0] == 'c' {
            Some(PlayerMove::Internal(Move::Castling { side: Side::Queen }))
        } else {
            None
        }
    }

    /// Reads a move; `None` when the text names none.
    pub fn parse(raw: &str) -> (r: Option<Self>)
        ensures
            r == Self::spec_parse(raw@),
    {
        let n = raw.unicode_len();
        if n == 4 || n == 5 {
            let from = Coordinate::from_chars(raw.get_char(0), raw.get_char(1));
            let to = Coordinate::from_chars(raw.get_char(2), raw.get_char(3));
            match (from, to) {
                (Some(from), Some(to)) => {
                    if n == 4 {
                        return Some(PlayerMove::Long { from, to, promotion: None });
                    }
                    let kind = PieceKind::from_letter(raw.get_char(4));
                    if kind.is_some() {
                        return Some(PlayerMove::Long { from, to, promotion: kind });
                    }
                },
                _ => {},
            }
        }
        if n == 0 {
            return None;
        }
        let first = raw.get_char(0);
        if first == '=' && n == 4 {
            match (
                File::from_char(raw.get_char(1)),
                File::from_char(raw.get_char(2)),
                PieceKind::from_letter(raw.get_char(3)),
            ) {
                (Some(from), Some(to), Some(piece)) => Some(
                    PlayerMove::Internal(Move::Promotion { from, to, piece }),
                ),
                _ => None,
            }
        } else if first == '~' && n == 3 {
            match (File::from_char(raw.get_char(1)), File::from_char(raw.get_char(2))) {
                (Some(from), Some(to)) => Some(PlayerMove::Internal(Move::EnPassant { from, to })),
                _ => None,
            }
        } else if first == 'c' && n == 4 {
            Some(PlayerMove::Internal(Move::Castling { side: Side::King }))
        } else if first == 'c' && n == 6 {
            Some(PlayerMove::Internal(Move::Castling { side: Side::Queen }))
        } else {
            None
        }
    }
}

} // verus!
