use vstd::prelude::*;

use crate::board::{both_kings, Board};
use crate::coordinate::{square_at, Coordinate};
use crate::grid::Grid;
use crate::piece::{Color, Piece};

verus! {

/// A text cut at every space into the parts between spaces.
pub open spec fn split_spaces(s: Seq<char>) -> Seq<Seq<char>>
    decreases s.len(),
{
    if s.len() == 0 {
        seq![Seq::<char>::empty()]
    } else {
        let init = split_spaces(s.drop_last());
        if s.last() == ' ' {
            init.push(Seq::<char>::empty())
        } else {
            init.update(init.len() - 1, init.last().push(s.last()))
        }
    }
}

/// Field `k` of a position description: the `k`-th part between spaces, empty
/// when there are fewer parts.
pub open spec fn fen_field(s: Seq<char>, k: int) -> Seq<char> {
    let parts = split_spaces(s);
    if 0 <= k < parts.len() {
        parts[k]
    } else {
        Seq::<char>::empty()
    }
}

proof fn lemma_split_len(s: Seq<char>)
    ensures
        1 <= split_spaces(s).len() <= s.len() + 1,
    decreases s.len(),
{
    if s.len() > 0 {
        lemma_split_len(s.drop_last());
    }
}

/// The square at position `pos` in the order of a position description: the
/// eighth rank first, each rank from `a` to `h`.
pub open spec fn description_square(pos: int) -> Option<Coordinate> {
    if 0 <= pos < 64 {
        square_at(pos % 8, 7 - pos / 8)
    } else {
        None
    }
}

/// The grid that the placement field `s` describes, read from position `pos` on
/// into `g`: a digit 1 to 8 skips that many squares, a piece letter fills the next
/// square, any other character is ignored. `None` when a piece falls past the
/// last square.
pub open spec fn place(s: Seq<char>, pos: int, g: Grid) -> Option<Grid>
    decreases s.len(),
{
    if s.len() == 0 {
        Some(g)
    } else {
        let c = s[0];
        let rest = s.drop_first();
        if '1' <= c && c <= '8' {
            place(rest, pos + (c as int - '0' as int), g)
        } else if Piece::spec_from_letter(c) is Some {
            if 0 <= pos < 64 {
                place(rest, pos + 1, g.with(description_square(pos).unwrap(), Piece::spec_from_letter(c)))
            } else {
                None
            }
        } else {
            place(rest, pos, g)
        }
    }
}

/// The decimal value of a string of digits.
pub open spec fn digits_value(s: Seq<char>) -> int
    decreases s.len(),
{
    if s.len() == 0 {
        0
    } else {
        digits_value(s.drop_last()) * 10 + (s.last() as int - '0' as int)
    }
}

pub open spec fn all_digits(s: Seq<char>) -> bool {
    forall|i: int| 0 <= i < s.len() ==> '0' <= #[trigger] s[i] && s[i] <= '9'
}

/// A `u8` written in decimal, with an optional leading `+`.
pub open spec fn spec_parse_u8(s: Seq<char>) -> Option<u8> {
    let t = if s.len() > 0 && s[0] == '+' {
        s.drop_first()
    } else {
        s
    };
    if t.len() > 0 && all_digits(t) && digits_value(t) <= 255 {
        Some(digits_value(t) as u8)
    } else {
        None
    }
}

/// The grid a description's first field gives, filled into an empty grid.
pub open spec fn fen_grid(s: Seq<char>) -> Option<Grid> {
    place(fen_field(s, 0), 0, Grid::spec_empty())
}

/// The side to move: Black when the second field ends in `b`, else White.
pub open spec fn fen_color(s: Seq<char>) -> Color {
    let f = fen_field(s, 1);
    if f.len() > 0 && f.last() == 'b' {
        Color::Black
    } else {
        Color::White
    }
}

/// Castling rights, (queenside, kingside), from the letters of the third field:
/// `Q`, `K` for White and `q`, `k` for Black.
pub open spec fn fen_rights(s: Seq<char>, color: Color) -> (bool, bool) {
    let f = fen_field(s, 2);
    match color {
        Color::White => (f.contains('Q'), f.contains('K')),
        Color::Black => (f.contains('q'), f.contains('k')),
    }
}

/// Whether a description is read into a board: its grid is complete with a king
/// of each color, and its fifth field is a stale-ply count.
pub open spec fn fen_accepts(s: Seq<char>) -> bool {
    &&& fen_grid(s) matches Some(g)
    &&& both_kings(g)
    &&& spec_parse_u8(fen_field(s, 4)) is Some
}

proof fn lemma_digits_value_nonneg(s: Seq<char>)
    requires
        all_digits(s),
    ensures
        digits_value(s) >= 0,
    decreases s.len(),
{
    if s.len() > 0 {
        assert(all_digits(s.drop_last()));
        lemma_digits_value_nonneg(s.drop_last());
    }
}

proof fn lemma_digits_value_prefix(s: Seq<char>, j: int)
    requires
        all_digits(s),
        0 <= j <= s.len(),
    ensures
        digits_value(s.subrange(0, j)) <= digits_value(s),
    decreases s.len(),
{
    if j < s.len() {
        let init = s.drop_last();
        assert(all_digits(init));
        lemma_digits_value_prefix(init, j);
        assert(init.subrange(0, j) =~= s.subrange(0, j));
        lemma_digits_value_nonneg(init);
    } else {
        assert(s.subrange(0, j) =~= s);
    }
}

fn parse_u8(v: &Vec<char>) -> (r: Option<u8>)
    ensures
        r == spec_parse_u8(v@),
{
    let n = v.len();
    let start: usize = if n > 0 && v[0] == '+' {
        1
    } else {
        0
    };
    let ghost t = if v@.len() > 0 && v@[0] == '+' {
        v@.drop_first()
    } else {
        v@
    };
    assert(t =~= v@.subrange(start as int, n as int));
    assert(spec_parse_u8(v@) == (if t.len() > 0 && all_digits(t) && digits_value(t) <= 255 {
        Some(digits_value(t) as u8)
    } else {
        None
    }));
    if start == n {
        return None;
    }
    let mut acc: u16 = 0;
    let mut i: usize = start;
    while i < n
        invariant
            start <= i <= n,
            n == v@.len(),
            t =~= v@.subrange(start as int, n as int),
            spec_parse_u8(v@) == (if t.len() > 0 && all_digits(t) && digits_value(t) <= 255 {
                Some(digits_value(t) as u8)
            } else {
                None
            }),
            all_digits(t.subrange(0, i - start)),
            acc == digits_value(t.subrange(0, i - start)),
            acc <= 255,
        decreases n - i,
    {
        let c = v[i];
        assert(t[i - start] == c);
        if !('0' <= c && c <= '9') {
            assert(!all_digits(t));
            return None;
        }
        let ghost prefix = t.subrange(0, i - start + 1);
        assert(prefix.drop_last() =~= t.subrange(0, i - start));
        assert(prefix.last() == c);
        assert(all_digits(prefix));
        acc = acc * 10 + (c as u32 - '0' as u32) as u16;
        assert(acc == digits_value(prefix));
        i += 1;
        if acc > 255 {
            proof {
                if all_digits(t) {
                    lemma_digits_value_prefix(t, i - start);
                    assert(digits_value(t) > 255);
                }
            }
            return None;
        }
    }
    assert(t.subrange(0, i - start) =~= t);
    Some(acc as u8)
}

fn has_char(v: &Vec<char>, c: char) -> (r: bool)
    ensures
        r == v@.contains(c),
{
    let mut i: usize = 0;
    while i < v.len()
        invariant
            0 <= i <= v@.len(),
            forall|j: int| 0 <= j < i ==> v@[j] != c,
        decreases v@.len() - i,
    {
        if v[i] == c {
            return true;
        }
        i += 1;
    }
    false
}

proof fn lemma_description_step(pos: int)
    requires
        0 <= pos,
    ensures
        (match description_square(pos) {
            Some(c) => if c.file == crate::coordinate::File::H {
                square_at(0, c.rank.spec_ord() - 1)
            } else {
                square_at(c.file.spec_ord() + 1, c.rank.spec_ord() as int)
            },
            None => None,
        }) == description_square(pos + 1),
{
    if pos < 64 {
        let q = pos / 8;
        let r = pos % 8;
        crate::coordinate::lemma_square_at(r, 7 - q);
        assert(pos == 8 * q + r && 0 <= r < 8 && 0 <= q < 8);
        if r == 7 {
            assert((pos + 1) / 8 == q + 1 && (pos + 1) % 8 == 0);
        } else {
            assert((pos + 1) / 8 == q && (pos + 1) % 8 == r + 1);
        }
        crate::coordinate::lemma_square_at((pos + 1) % 8, 7 - (pos + 1) / 8);
    }
}

fn place_pieces(field: &Vec<char>) -> (r: Option<Grid>)
    ensures
        r == place(field@, 0, Grid::spec_empty()),
{
    let mut grid = Grid::empty();
    let mut coords = Coordinate::iter();
    assert(field@.subrange(0, field@.len() as int) =~= field@);
    let ghost mut pos: int = 0;
    let mut i: usize = 0;
    while i < field.len()
        invariant
            0 <= i <= field@.len(),
            pos >= 0,
            coords.back_next == description_square(pos),
            place(field@, 0, Grid::spec_empty()) == place(field@.subrange(i as int, field@.len() as int), pos, grid),
        decreases field@.len() - i,
    {
        let ghost rest = field@.subrange(i as int, field@.len() as int);
        assert(rest.drop_first() =~= field@.subrange(i + 1, field@.len() as int));
        let c = field[i];
        if '1' <= c && c <= '8' {
            let skip = c as u32 - '0' as u32;
            let mut j: u32 = 0;
            while j < skip
                invariant
                    0 <= j <= skip,
                    pos >= 0,
                    coords.back_next == description_square(pos + j),
                decreases skip - j,
            {
                proof {
                    lemma_description_step(pos + j);
                }
                coords.next_back();
                j += 1;
            }
            proof {
                pos = pos + skip;
            }
        } else {
            match Piece::from_letter(c) {
                Some(p) => match coords.next_back() {
                    Some(sq) => {
                        proof {
                            lemma_description_step(pos);
                        }
                        grid.set(sq, Some(p));
                        proof {
                            pos = pos + 1;
                        }
                    },
                    None => {
                        return None;
                    },
                },
                None => {},
            }
        }
        i += 1;
    }
    assert(field@.subrange(i as int, field@.len() as int) =~= Seq::<char>::empty());
    Some(grid)
}

fn split_fields(raw: &str) -> (r: (Vec<char>, Vec<char>, Vec<char>, Vec<char>))
    ensures
        r.0@ == fen_field(raw@, 0),
        r.1@ == fen_field(raw@, 1),
        r.2@ == fen_field(raw@, 2),
        r.3@ == fen_field(raw@, 4),
{
    let n = raw.unicode_len();
    let mut f0: Vec<char> = Vec::new();
    let mut f1: Vec<char> = Vec::new();
    let mut f2: Vec<char> = Vec::new();
    let mut f4: Vec<char> = Vec::new();
    let mut k: usize = 0;
    let mut i: usize = 0;
    while i < n
        invariant
            0 <= i <= n,
            n == raw@.len(),
            k + 1 == split_spaces(raw@.subrange(0, i as int)).len(),
            k <= i,
            f0@ == fen_field(raw@.subrange(0, i as int), 0),
            f1@ == fen_field(raw@.subrange(0, i as int), 1),
            f2@ == fen_field(raw@.subrange(0, i as int), 2),
            f4@ == fen_field(raw@.subrange(0, i as int), 4),
        decreases n - i,
    {
        let c = raw.get_char(i);
        let ghost prefix = raw@.subrange(0, i + 1);
        assert(prefix.drop_last() =~= raw@.subrange(0, i as int));
        proof {
            lemma_split_len(raw@.subrange(0, i as int));
        }
        if c == ' ' {
            k += 1;
        } else if k == 0 {
            f0.push(c);
        } else if k == 1 {
            f1.push(c);
        } else if k == 2 {
            f2.push(c);
        } else if k == 4 {
            f4.push(c);
        }
        i += 1;
    }
    assert(raw@.subrange(0, n as int) =~= raw@);
    (f0, f1, f2, f4)
}

impl Board {
    /// Reads a position description: placement (eighth rank first), side to move,
    /// castling rights, an ignored field and the stale-ply counter, separated by
    /// single spaces. `None` unless the placement fits the board with a king of
    /// each color and the counter is a number from 0 to 255.
    pub fn from_fen(raw: &str) -> (r: Option<Self>)
        ensures
            r is Some <==> fen_accepts(raw@),
            r matches Some(b) ==> {
                &&& b.wf()
                &&& b.grid_history@ == seq![fen_grid(raw@).unwrap()]
                &&& b.move_color == fen_color(raw@)
                &&& b.white_castle == fen_rights(raw@, Color::White)
                &&& b.black_castle == fen_rights(raw@, Color::Black)
                &&& b.stale_plies == spec_parse_u8(fen_field(raw@, 4)).unwrap()
                &&& b.last_move is None
                &&& b.game_outcome is None
                &&& b.draw_pending is None
            },
    {
        let (placement, side, castling, stale) = split_fields(raw);
        let grid = match place_pieces(&placement) {
            Some(g) => g,
            None => {
                return None;
            },
        };
        let stale_plies = match parse_u8(&stale) {
            Some(n) => n,
            None => {
                return None;
            },
        };
        let white_king = crate::grid::find_in(&grid, Piece { kind: crate::piece::PieceKind::King, color: Color::White });
        let black_king = crate::grid::find_in(&grid, Piece { kind: crate::piece::PieceKind::King, color: Color::Black });
        proof {
            crate::grid::lemma_king_square(grid, Color::White);
            crate::grid::lemma_king_square(grid, Color::Black);
        }
        if white_king.is_none() || black_king.is_none() {
            return None;
        }
        let move_color = if side.len() > 0 && side[side.len() - 1] == 'b' {
            Color::Black
        } else {
            Color::White
        };
        let white_castle = (has_char(&castling, 'Q'), has_char(&castling, 'K'));
        let black_castle = (has_char(&castling, 'q'), has_char(&castling, 'k'));
        let grid_history = vec![grid];
        Some(
            Board {
                grid_history,
                last_move: None,
                stale_plies,
                white_castle,
                black_castle,
                move_color,
                game_outcome: None,
                draw_pending: None,
            },
        )
    }
}

} // verus!
