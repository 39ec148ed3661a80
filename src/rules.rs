use vstd::prelude::*;

use crate::coordinate::{Coordinate, Move, Offset};
use crate::grid::{holds, Grid};
use crate::piece::{Color, Piece, PieceKind};

verus! {

/// The eight neighbouring directions as `(ranks, files)`: the four lines first,
/// then the four diagonals.
pub open spec fn king_offset(i: int) -> (int, int) {
    if i == 0 {
        (0, 1)
    } else if i == 1 {
        (0, -1)
    } else if i == 2 {
        (1, 0)
    } else if i == 3 {
        (-1, 0)
    } else if i == 4 {
        (1, 1)
    } else if i == 5 {
        (1, -1)
    } else if i == 6 {
        (-1, 1)
    } else {
        (-1, -1)
    }
}

/// The eight L-shaped knight jumps as `(ranks, files)`.
pub open spec fn knight_offset(i: int) -> (int, int) {
    if i == 0 {
        (1, 2)
    } else if i == 1 {
        (-1, 2)
    } else if i == 2 {
        (1, -2)
    } else if i == 3 {
        (-1, -2)
    } else if i == 4 {
        (2, 1)
    } else if i == 5 {
        (2, -1)
    } else if i == 6 {
        (-2, 1)
    } else {
        (-2, -1)
    }
}

/// A knight jump when `knight`, else a king step.
pub open spec fn jump_offset(knight: bool, i: int) -> (int, int) {
    if knight {
        knight_offset(i)
    } else {
        king_offset(i)
    }
}

pub fn jump_offset_at(knight: bool, i: usize) -> (r: Offset)
    requires
        i < 8,
    ensures
        r.vertical == jump_offset(knight, i as int).0,
        r.horizontal == jump_offset(knight, i as int).1,
{
    let (v, h): (i8, i8) = if knight {
        if i == 0 {
            (1, 2)
        } else if i == 1 {
            (-1, 2)
        } else if i == 2 {
            (1, -2)
        } else if i == 3 {
            (-1, -2)
        } else if i == 4 {
            (2, 1)
        } else if i == 5 {
            (2, -1)
        } else if i == 6 {
            (-2, 1)
        } else {
            (-2, -1)
        }
    } else {
        if i == 0 {
            (0, 1)
        } else if i == 1 {
            (0, -1)
        } else if i == 2 {
            (1, 0)
        } else if i == 3 {
            (-1, 0)
        } else if i == 4 {
            (1, 1)
        } else if i == 5 {
            (1, -1)
        } else if i == 6 {
            (-1, 1)
        } else {
            (-1, -1)
        }
    };
    Offset { vertical: v, horizontal: h }
}

/// The first occupied square met when walking from `c` (excluded) in direction
/// `(dv, dh)` for at most `n` squares. A ray on the board has at most 7 squares.
pub open spec fn ray_first(g: Grid, c: Coordinate, dv: int, dh: int, n: nat) -> Option<Coordinate>
    decreases n,
{
    if n == 0 {
        None
    } else {
        match c.spec_offset(dv, dh) {
            None => None,
            Some(d) => if g.at(d) is Some {
                Some(d)
            } else {
                ray_first(g, d, dv, dh, (n - 1) as nat)
            },
        }
    }
}

/// Whether `to` lies within `n` squares of `c` in direction `(dv, dh)` with every
/// square strictly between empty.
pub open spec fn ray_reaches(g: Grid, c: Coordinate, dv: int, dh: int, to: Coordinate, n: nat) -> bool
    decreases n,
{
    if n == 0 {
        false
    } else {
        match c.spec_offset(dv, dh) {
            None => false,
            Some(d) => d == to || (g.at(d) is None && ray_reaches(g, d, dv, dh, to, (n - 1) as nat)),
        }
    }
}

/// Whether the square at `(dv, dh)` from `t` holds a piece of `kind` and `by`.
pub open spec fn piece_at_offset(g: Grid, t: Coordinate, dv: int, dh: int, kind: PieceKind, by: Color) -> bool {
    t.spec_offset(dv, dh) matches Some(s) && holds(g.at(s), kind, by)
}

/// Whether the first piece on the ray from `t` in direction `(dv, dh)` is a queen
/// of `by`, or a bishop (diagonal rays) or rook (straight rays) of `by`.
pub open spec fn slider_hit(g: Grid, by: Color, t: Coordinate, dv: int, dh: int, diagonal: bool) -> bool {
    ray_first(g, t, dv, dh, 7) matches Some(s) && g.at(s) matches Some(p) && p.color == by && (
    p.kind == PieceKind::Queen || (if diagonal {
        p.kind == PieceKind::Bishop
    } else {
        p.kind == PieceKind::Rook
    }))
}

pub open spec fn pawn_attack(g: Grid, by: Color, t: Coordinate) -> bool {
    piece_at_offset(g, t, -by.spec_direction(), 1, PieceKind::Pawn, by) || piece_at_offset(
        g,
        t,
        -by.spec_direction(),
        -1,
        PieceKind::Pawn,
        by,
    )
}

pub open spec fn jump_attack(g: Grid, by: Color, t: Coordinate, knight: bool) -> bool {
    exists|i: int|
        0 <= i < 8 && #[trigger] piece_at_offset(
            g,
            t,
            jump_offset(knight, i).0,
            jump_offset(knight, i).1,
            jump_kind(knight),
            by,
        )
}

/// The piece that attacks by a jump: a knight, or a king by a step.
pub open spec fn jump_kind(knight: bool) -> PieceKind {
    if knight {
        PieceKind::Knight
    } else {
        PieceKind::King
    }
}

pub open spec fn ray_attack(g: Grid, by: Color, t: Coordinate, diagonal: bool) -> bool {
    exists|i: int|
        (if diagonal {
            4 <= i < 8
        } else {
            0 <= i < 4
        }) && #[trigger] slider_hit(g, by, t, king_offset(i).0, king_offset(i).1, diagonal)
}

/// Whether a piece of `by` attacks square `t`: a pawn diagonally behind it (seen
/// from `by`), a knight a jump away, a rook or queen down a clear line, a bishop or
/// queen down a clear diagonal, or a king next to it.
pub open spec fn attacked(g: Grid, by: Color, t: Coordinate) -> bool {
    pawn_attack(g, by, t) || jump_attack(g, by, t, true) || ray_attack(g, by, t, false)
        || ray_attack(g, by, t, true) || jump_attack(g, by, t, false)
}

fn first_on_ray(g: &Grid, c: Coordinate, off: Offset, n: u8) -> (r: Option<Coordinate>)
    ensures
        r == ray_first(*g, c, off.vertical as int, off.horizontal as int, n as nat),
    decreases n,
{
    if n == 0 {
        return None;
    }
    match c.checked_add_offset(off) {
        None => None,
        Some(d) => if g.get(d).is_some() {
            Some(d)
        } else {
            first_on_ray(g, d, off, n - 1)
        },
    }
}

fn piece_on(g: &Grid, t: Coordinate, off: Offset, kind: PieceKind, by: Color) -> (r: bool)
    ensures
        r == piece_at_offset(*g, t, off.vertical as int, off.horizontal as int, kind, by),
{
    match t.checked_add_offset(off) {
        Some(s) => match g.get(s) {
            Some(p) => p.kind == kind && p.color == by,
            None => false,
        },
        None => false,
    }
}

fn slider_on(g: &Grid, by: Color, t: Coordinate, off: Offset, diagonal: bool) -> (r: bool)
    ensures
        r == slider_hit(*g, by, t, off.vertical as int, off.horizontal as int, diagonal),
{
    match first_on_ray(g, t, off, 7) {
        Some(s) => match g.get(s) {
            Some(p) => p.color == by && (match p.kind {
                PieceKind::Queen => true,
                PieceKind::Bishop => diagonal,
                PieceKind::Rook => !diagonal,
                _ => false,
            }),
            None => false,
        },
        None => false,
    }
}

fn jump_attack_on(g: &Grid, by: Color, t: Coordinate, knight: bool) -> (r: bool)
    ensures
        r == jump_attack(*g, by, t, knight),
{
    let kind = if knight {
        PieceKind::Knight
    } else {
        PieceKind::King
    };
    let mut i: usize = 0;
    while i < 8
        invariant
            0 <= i <= 8,
            kind == jump_kind(knight),
            forall|j: int|
                0 <= j < i ==> !#[trigger] piece_at_offset(
                    *g,
                    t,
                    jump_offset(knight, j).0,
                    jump_offset(knight, j).1,
                    kind,
                    by,
                ),
        decreases 8 - i,
    {
        if piece_on(g, t, jump_offset_at(knight, i), kind, by) {
            return true;
        }
        i += 1;
    }
    false
}

fn ray_attack_on(g: &Grid, by: Color, t: Coordinate, diagonal: bool) -> (r: bool)
    ensures
        r == ray_attack(*g, by, t, diagonal),
{
    let lo: usize = if diagonal {
        4
    } else {
        0
    };
    let mut i: usize = lo;
    while i < lo + 4
        invariant
            lo == (if diagonal {
                4usize
            } else {
                0usize
            }),
            lo <= i <= lo + 4,
            forall|j: int|
                lo <= j < i ==> !#[trigger] slider_hit(
                    *g,
                    by,
                    t,
                    king_offset(j).0,
                    king_offset(j).1,
                    diagonal,
                ),
        decreases lo + 4 - i,
    {
        if slider_on(g, by, t, jump_offset_at(false, i), diagonal) {
            return true;
        }
        i += 1;
    }
    false
}

/// Whether square `t` of grid `g` is attacked by a piece of `by`.
pub fn attacked_on(g: &Grid, by: Color, t: Coordinate) -> (r: bool)
    ensures
        r == attacked(*g, by, t),
{
    let back = -by.direction();
    piece_on(g, t, Offset { vertical: back, horizontal: 1 }, PieceKind::Pawn, by) || piece_on(
        g,
        t,
        Offset { vertical: back, horizontal: -1 },
        PieceKind::Pawn,
        by,
    ) || jump_attack_on(g, by, t, true) || ray_attack_on(g, by, t, false) || ray_attack_on(
        g,
        by,
        t,
        true,
    ) || jump_attack_on(g, by, t, false)
}

/// Whether a piece of `color` may land on `to`: the square is empty or holds an
/// opposing piece.
pub open spec fn open_to(g: Grid, color: Color, to: Coordinate) -> bool {
    match g.at(to) {
        None => true,
        Some(p) => p.color != color,
    }
}

/// `m` is the move from `s` by `(dv, dh)` onto an empty or opposing square.
pub open spec fn step_move(g: Grid, color: Color, s: Coordinate, dv: int, dh: int, m: Move) -> bool {
    s.spec_offset(dv, dh) matches Some(to) && open_to(g, color, to) && m == (Move::Simple {
        from: s,
        to,
    })
}

/// `m` is a knight jump (when `knight`) or a king step from `s`.
pub open spec fn jump_move(g: Grid, color: Color, s: Coordinate, knight: bool, m: Move) -> bool {
    exists|i: int|
        0 <= i < 8 && #[trigger] step_move(
            g,
            color,
            s,
            jump_offset(knight, i).0,
            jump_offset(knight, i).1,
            m,
        )
}

/// `m` moves from `s` along the clear ray in direction `(dv, dh)` onto an empty
/// or opposing square.
pub open spec fn slide_move(g: Grid, color: Color, s: Coordinate, dv: int, dh: int, m: Move) -> bool {
    m matches Move::Simple { from, to } && from == s && ray_reaches(g, s, dv, dh, to, 7) && open_to(
        g,
        color,
        to,
    )
}

/// `m` slides from `s` along one of the directions `king_offset(lo..hi)`: the
/// lines for a rook (0..4), the diagonals for a bishop (4..8), all for a queen.
pub open spec fn slides(g: Grid, color: Color, s: Coordinate, lo: int, hi: int, m: Move) -> bool {
    exists|i: int|
        lo <= i < hi && #[trigger] slide_move(g, color, s, king_offset(i).0, king_offset(i).1, m)
}

/// The kinds a pawn may promote to.
pub open spec fn promotable(k: PieceKind) -> bool {
    k == PieceKind::Queen || k == PieceKind::Rook || k == PieceKind::Bishop || k == PieceKind::Knight
}

/// `m` brings a pawn of `color` from `s` to `t`: a simple move, or on the last rank
/// a promotion to a queen, rook, bishop or knight.
pub open spec fn pawn_arrival(color: Color, s: Coordinate, t: Coordinate, m: Move) -> bool {
    if t.rank != color.spec_promotion_rank() {
        m == (Move::Simple { from: s, to: t })
    } else {
        m matches Move::Promotion { from, to, piece } && from == s.file && to == t.file
            && promotable(piece)
    }
}

/// Two squares forward from the pawns' starting rank, both squares empty.
pub open spec fn pawn_double(g: Grid, color: Color, s: Coordinate, m: Move) -> bool {
    &&& s.rank == color.spec_pawn_rank()
    &&& s.spec_offset(color.spec_direction() as int, 0) matches Some(p)
    &&& s.spec_offset(2 * color.spec_direction(), 0) matches Some(t)
    &&& g.at(p) is None
    &&& g.at(t) is None
    &&& m == (Move::Simple { from: s, to: t })
}

/// One square forward onto an empty square.
pub open spec fn pawn_advance(g: Grid, color: Color, s: Coordinate, m: Move) -> bool {
    s.spec_offset(color.spec_direction() as int, 0) matches Some(t) && g.at(t) is None
        && pawn_arrival(color, s, t, m)
}

/// One square diagonally forward onto an opposing piece.
pub open spec fn pawn_capture(g: Grid, color: Color, s: Coordinate, dh: int, m: Move) -> bool {
    s.spec_offset(color.spec_direction() as int, dh) matches Some(t) && g.at(t) matches Some(p)
        && p.color != color && pawn_arrival(color, s, t, m)
}

/// `m` is the en passant capture by the pawn on `s` of an opposing pawn that has
/// just advanced two squares to a square beside it.
pub open spec fn pawn_en_passant(g: Grid, color: Color, last_move: Option<Move>, s: Coordinate, m: Move) -> bool {
    &&& s.rank == color.spec_en_passant_rank()
    &&& last_move matches Some(Move::Simple { from, to })
    &&& to.rank == color.spec_en_passant_rank()
    &&& from == (Coordinate { file: to.file, rank: color.spec_the_other().spec_pawn_rank() })
    &&& (s.file.spec_ord() - to.file.spec_ord() == 1 || to.file.spec_ord() - s.file.spec_ord() == 1)
    &&& holds(g.at(to), PieceKind::Pawn, color.spec_the_other())
    &&& m == (Move::EnPassant { from: s.file, to: to.file })
}

/// The moves of a pawn of `color` on `s`, whether or not they leave its king in check.
pub open spec fn pawn_move(g: Grid, color: Color, last_move: Option<Move>, s: Coordinate, m: Move) -> bool {
    pawn_double(g, color, s, m) || pawn_advance(g, color, s, m) || pawn_capture(g, color, s, 1, m)
        || pawn_capture(g, color, s, -1, m) || pawn_en_passant(g, color, last_move, s, m)
}

/// Appends `m` to `out`.
pub fn push_move(out: &mut Vec<Move>, m: Move)
    ensures
        final(out)@ == old(out)@.push(m),
        forall|x: Move| #[trigger] final(out)@.contains(x) <==> old(out)@.contains(x) || x == m,
{
    let ghost before = out@;
    out.push(m);
    proof {
        assert forall|x: Move| #[trigger] out@.contains(x) <==> before.contains(x) || x == m by {
            if before.contains(x) {
                let k = choose|k: int| 0 <= k < before.len() && before[k] == x;
                assert(out@[k] == x);
            }
            if x == m {
                assert(out@[before.len() as int] == x);
            }
            if out@.contains(x) {
                let k = choose|k: int| 0 <= k < out@.len() && out@[k] == x;
                if k < before.len() {
                    assert(before[k] == x);
                }
            }
        }
    }
}

fn open_to_exec(g: &Grid, color: Color, to: Coordinate) -> (r: bool)
    ensures
        r == open_to(*g, color, to),
{
    match g.get(to) {
        None => true,
        Some(p) => p.color != color,
    }
}

fn push_step(g: &Grid, color: Color, s: Coordinate, off: Offset, out: &mut Vec<Move>)
    ensures
        forall|m: Move| #[trigger]
            final(out)@.contains(m) <==> old(out)@.contains(m) || step_move(
                *g,
                color,
                s,
                off.vertical as int,
                off.horizontal as int,
                m,
            ),
{
    match s.checked_add_offset(off) {
        Some(to) => {
            if open_to_exec(g, color, to) {
                push_move(out, Move::Simple { from: s, to });
            }
        },
        None => {},
    }
}

/// Appends the knight jumps (when `knight`) or king steps from `s`.
pub fn push_jumps(g: &Grid, color: Color, s: Coordinate, knight: bool, out: &mut Vec<Move>)
    ensures
        forall|m: Move| #[trigger]
            final(out)@.contains(m) <==> old(out)@.contains(m) || jump_move(*g, color, s, knight, m),
{
    let ghost before = out@;
    let mut i: usize = 0;
    while i < 8
        invariant
            0 <= i <= 8,
            forall|m: Move| #[trigger]
                out@.contains(m) <==> before.contains(m) || exists|j: int|
                    0 <= j < i && #[trigger] step_move(
                        *g,
                        color,
                        s,
                        jump_offset(knight, j).0,
                        jump_offset(knight, j).1,
                        m,
                    ),
        decreases 8 - i,
    {
        let off = jump_offset_at(knight, i);
        push_step(g, color, s, off, out);
        proof {
            assert forall|m: Move| #[trigger]
                out@.contains(m) <==> before.contains(m) || exists|j: int|
                    0 <= j < i + 1 && #[trigger] step_move(
                        *g,
                        color,
                        s,
                        jump_offset(knight, j).0,
                        jump_offset(knight, j).1,
                        m,
                    ) by {
                if exists|j: int|
                    0 <= j < i + 1 && #[trigger] step_move(
                        *g,
                        color,
                        s,
                        jump_offset(knight, j).0,
                        jump_offset(knight, j).1,
                        m,
                    ) {
                    let j = choose|j: int|
                        0 <= j < i + 1 && #[trigger] step_move(
                            *g,
                            color,
                            s,
                            jump_offset(knight, j).0,
                            jump_offset(knight, j).1,
                            m,
                        );
                    if j == i {
                    }
                }
            }
        }
        i += 1;
    }
}

fn push_ray(g: &Grid, color: Color, s: Coordinate, cur: Coordinate, off: Offset, n: u8, out: &mut Vec<Move>)
    ensures
        forall|m: Move| #[trigger]
            final(out)@.contains(m) <==> old(out)@.contains(m) || (m matches Move::Simple { from, to }
                && from == s && ray_reaches(*g, cur, off.vertical as int, off.horizontal as int, to, n as nat)
                && open_to(*g, color, to)),
    decreases n,
{
    if n == 0 {
        return;
    }
    match cur.checked_add_offset(off) {
        None => {},
        Some(d) => {
            match g.get(d) {
                None => {
                    push_move(out, Move::Simple { from: s, to: d });
                    push_ray(g, color, s, d, off, n - 1, out);
                },
                Some(p) => {
                    if p.color != color {
                        push_move(out, Move::Simple { from: s, to: d });
                    }
                },
            }
        },
    }
}

/// Appends the sliding moves from `s` along the directions `king_offset(lo..hi)`.
pub fn push_slides(g: &Grid, color: Color, s: Coordinate, lo: usize, hi: usize, out: &mut Vec<Move>)
    requires
        lo <= hi <= 8,
    ensures
        forall|m: Move| #[trigger]
            final(out)@.contains(m) <==> old(out)@.contains(m) || slides(
                *g,
                color,
                s,
                lo as int,
                hi as int,
                m,
            ),
{
    let ghost before = out@;
    let mut i: usize = lo;
    while i < hi
        invariant
            lo <= i <= hi <= 8,
            forall|m: Move| #[trigger]
                out@.contains(m) <==> before.contains(m) || slides(*g, color, s, lo as int, i as int, m),
        decreases hi - i,
    {
        let off = jump_offset_at(false, i);
        push_ray(g, color, s, s, off, 7, out);
        proof {
            assert forall|m: Move| #[trigger]
                out@.contains(m) <==> before.contains(m) || slides(*g, color, s, lo as int, i + 1, m) by {
                if slides(*g, color, s, lo as int, i + 1, m) {
                    let j = choose|j: int|
                        lo <= j < i + 1 && #[trigger] slide_move(
                            *g,
                            color,
                            s,
                            king_offset(j).0,
                            king_offset(j).1,
                            m,
                        );
                    if j < i {
                        assert(slides(*g, color, s, lo as int, i as int, m));
                    }
                }
                if slide_move(*g, color, s, king_offset(i as int).0, king_offset(i as int).1, m) {
                    assert(slides(*g, color, s, lo as int, i + 1, m));
                }
                if slides(*g, color, s, lo as int, i as int, m) {
                    let j = choose|j: int|
                        lo <= j < i && #[trigger] slide_move(
                            *g,
                            color,
                            s,
                            king_offset(j).0,
                            king_offset(j).1,
                            m,
                        );
                    assert(slides(*g, color, s, lo as int, i + 1, m));
                }
            }
        }
        i += 1;
    }
}

fn push_arrival(color: Color, s: Coordinate, t: Coordinate, out: &mut Vec<Move>)
    ensures
        forall|m: Move| #[trigger]
            final(out)@.contains(m) <==> old(out)@.contains(m) || pawn_arrival(color, s, t, m),
{
    if t.rank != color.promotion_rank() {
        push_move(out, Move::Simple { from: s, to: t });
    } else {
        push_move(out, Move::Promotion { from: s.file, to: t.file, piece: PieceKind::Queen });
        push_move(out, Move::Promotion { from: s.file, to: t.file, piece: PieceKind::Rook });
        push_move(out, Move::Promotion { from: s.file, to: t.file, piece: PieceKind::Bishop });
        push_move(out, Move::Promotion { from: s.file, to: t.file, piece: PieceKind::Knight });
    }
}

/// Appends the moves of a pawn of `color` on `s`.
pub fn push_pawn_moves(g: &Grid, color: Color, last_move: Option<Move>, s: Coordinate, out: &mut Vec<Move>)
    ensures
        forall|m: Move| #[trigger]
            final(out)@.contains(m) <==> old(out)@.contains(m) || pawn_move(*g, color, last_move, s, m),
{
    let ghost before = out@;
    let dir = color.direction();
    // two squares from the starting rank
    if s.rank == color.pawn_rank() {
        match (
            s.checked_add_offset(Offset { vertical: dir, horizontal: 0 }),
            s.checked_add_offset(Offset { vertical: 2 * dir, horizontal: 0 }),
        ) {
            (Some(path), Some(to)) => {
                if g.get(to).is_none() && g.get(path).is_none() {
                    push_move(out, Move::Simple { from: s, to });
                }
            },
            _ => {},
        }
    }
    let ghost after_double = out@;
    // one square forward
    match s.checked_add_offset(Offset { vertical: dir, horizontal: 0 }) {
        Some(to) => {
            if g.get(to).is_none() {
                push_arrival(color, s, to, out);
            }
        },
        None => {},
    }
    let ghost after_advance = out@;
    // diagonal captures
    match s.checked_add_offset(Offset { vertical: dir, horizontal: 1 }) {
        Some(to) => match g.get(to) {
            Some(p) => if p.color != color {
                push_arrival(color, s, to, out);
            },
            None => {},
        },
        None => {},
    }
    let ghost after_right = out@;
    match s.checked_add_offset(Offset { vertical: dir, horizontal: -1 }) {
        Some(to) => match g.get(to) {
            Some(p) => if p.color != color {
                push_arrival(color, s, to, out);
            },
            None => {},
        },
        None => {},
    }
    let ghost after_left = out@;
    // en passant
    if s.rank == color.en_passant_rank() {
        match last_move {
            Some(Move::Simple { from, to }) => {
                let beside = s.file.ord() as i16 - to.file.ord() as i16;
                if to.rank == color.en_passant_rank() && from == (Coordinate {
                    file: to.file,
                    rank: color.the_other().pawn_rank(),
                }) && (beside == 1 || beside == -1) && match g.get(to) {
                    Some(p) => p.kind == PieceKind::Pawn && p.color == color.the_other(),
                    None => false,
                } {
                    push_move(out, Move::EnPassant { from: s.file, to: to.file });
                }
            },
            _ => {},
        }
    }
    proof {
        assert forall|m: Move| #[trigger]
            out@.contains(m) <==> before.contains(m) || pawn_move(*g, color, last_move, s, m) by {
            assert(after_double.contains(m) <==> before.contains(m) || pawn_double(*g, color, s, m));
            assert(after_advance.contains(m) <==> after_double.contains(m) || pawn_advance(*g, color, s, m));
            assert(after_right.contains(m) <==> after_advance.contains(m) || pawn_capture(*g, color, s, 1, m));
            assert(after_left.contains(m) <==> after_right.contains(m) || pawn_capture(*g, color, s, -1, m));
        }
    }
}

} // verus!
