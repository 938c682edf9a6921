//! Movement and attack geometry of each shape, and line-of-sight blocking.
use vstd::prelude::*;
use crate::piece::{on_board, Color, Location, Piece, Shape};

verus! {

/// The pieces held by a sequence, as a set.
pub open spec fn contents(ps: Seq<Piece>) -> Set<Piece> {
    Set::new(|q: Piece| ps.contains(q))
}

pub open spec fn abs(v: int) -> int {
    if v < 0 {
        -v
    } else {
        v
    }
}

/// `b` lies strictly between `a` and `c`.
pub open spec fn between(a: int, b: int, c: int) -> bool {
    (a < b && b < c) || (c < b && b < a)
}

/// The rank step of a pawn's advance.
pub open spec fn forward(c: Color) -> int {
    match c {
        Color::White => 1,
        Color::Black => -1,
    }
}

/// `p` is a square strictly inside the segment from `s` to `d`, where that
/// segment runs along a file, a rank or a diagonal.
pub open spec fn strictly_inside(s: Location, d: Location, p: Location) -> bool {
    let dx = d.file() - s.file();
    let dy = d.rank() - s.rank();
    if dx == 0 {
        p.file() == s.file() && between(s.rank(), p.rank(), d.rank())
    } else if dy == 0 {
        p.rank() == s.rank() && between(s.file(), p.file(), d.file())
    } else if dy == dx {
        between(s.file(), p.file(), d.file()) && p.rank() - s.rank() == p.file() - s.file()
    } else if dy == -dx {
        between(s.file(), p.file(), d.file()) && p.rank() - s.rank() == s.file() - p.file()
    } else {
        false
    }
}

/// No piece of `b` stands strictly between `s` and `d`.
pub open spec fn path_clear(b: Set<Piece>, s: Location, d: Location) -> bool {
    forall|q: Piece| #[trigger] b.contains(q) ==> !strictly_inside(s, d, q.location)
}

/// Shapes whose line of sight can be blocked.
pub open spec fn slides(shape: Shape) -> bool {
    shape == Shape::Rook || shape == Shape::Bishop || shape == Shape::Queen
}

/// The offset `(dx, dy)` is a move (or, with `attack`, a threat) of a piece
/// of this shape and color, leaving blocking aside.
pub open spec fn shape_allows(shape: Shape, color: Color, dx: int, dy: int, attack: bool) -> bool {
    let orthogonal = (dx == 0 || dy == 0) && !(dx == 0 && dy == 0);
    let diagonal = dx != 0 && abs(dx) == abs(dy);
    match shape {
        Shape::Pawn => if attack {
            abs(dx) == 1 && dy == forward(color)
        } else {
            dx == 0 && dy == forward(color)
        },
        Shape::Rook => orthogonal,
        Shape::Knight => (abs(dx) == 1 && abs(dy) == 2) || (abs(dx) == 2 && abs(dy) == 1),
        Shape::Bishop => diagonal,
        Shape::Queen => orthogonal || diagonal,
        Shape::King => abs(dx) <= 1 && abs(dy) <= 1 && !(dx == 0 && dy == 0),
    }
}

/// `piece` can move to (or, with `attack`, threatens) `d` among the pieces `b`.
pub open spec fn reaches(b: Set<Piece>, piece: Piece, d: Location, attack: bool) -> bool {
    &&& shape_allows(
        piece.shape,
        piece.color,
        d.file() - piece.location.file(),
        d.rank() - piece.location.rank(),
        attack,
    )
    &&& (slides(piece.shape) ==> path_clear(b, piece.location, d))
}

fn strictly_inside_exec(s: Location, d: Location, p: Location) -> (r: bool)
    ensures
        r == strictly_inside(s, d, p),
{
    let (sx, sy, dx0, dy0, px, py) = (s.x(), s.y(), d.x(), d.y(), p.x(), p.y());
    let dx = dx0 - sx;
    let dy = dy0 - sy;
    let between_x = (sx < px && px < dx0) || (dx0 < px && px < sx);
    if dx == 0 {
        px == sx && ((sy < py && py < dy0) || (dy0 < py && py < sy))
    } else if dy == 0 {
        py == sy && between_x
    } else if dy == dx {
        between_x && py - sy == px - sx
    } else if dy == -dx {
        between_x && py - sy == sx - px
    } else {
        false
    }
}

fn path_clear_exec(ps: &Vec<Piece>, s: Location, d: Location) -> (r: bool)
    ensures
        r == path_clear(contents(ps@), s, d),
{
    let mut i: usize = 0;
    while i < ps.len()
        invariant
            i <= ps@.len(),
            forall|j: int| 0 <= j < i ==> !strictly_inside(s, d, #[trigger] ps@[j].location),
        decreases ps@.len() - i,
    {
        if strictly_inside_exec(s, d, ps[i].location) {
            assert(contents(ps@).contains(ps@[i as int]));
            return false;
        }
        i += 1;
    }
    true
}

/// Whether `piece` can move to (or, with `attack`, threatens) `d` among `ps`.
pub(crate) fn reaches_exec(ps: &Vec<Piece>, piece: Piece, d: Location, attack: bool) -> (r: bool)
    ensures
        r == reaches(contents(ps@), piece, d, attack),
{
    let s = piece.location;
    let dx = d.x() - s.x();
    let dy = d.y() - s.y();
    let adx: i128 = if dx < 0 { -dx } else { dx };
    let ady: i128 = if dy < 0 { -dy } else { dy };
    let orthogonal = (dx == 0 || dy == 0) && !(dx == 0 && dy == 0);
    let diagonal = dx != 0 && adx == ady;
    let allowed = match piece.shape {
        Shape::Pawn => {
            let step: i128 = match piece.color {
                Color::White => 1,
                Color::Black => -1,
            };
            if attack {
                adx == 1 && dy == step
            } else {
                dx == 0 && dy == step
            }
        },
        Shape::Rook => orthogonal,
        Shape::Knight => (adx == 1 && ady == 2) || (adx == 2 && ady == 1),
        Shape::Bishop => diagonal,
        Shape::Queen => orthogonal || diagonal,
        Shape::King => adx <= 1 && ady <= 1 && !(dx == 0 && dy == 0),
    };
    if !allowed {
        return false;
    }
    match piece.shape {
        Shape::Rook | Shape::Bishop | Shape::Queen => path_clear_exec(ps, s, d),
        _ => true,
    }
}

} // verus!
