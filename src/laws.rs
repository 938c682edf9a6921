//! Laws that tie the queries together, proved over the models the queries'
//! contracts use.
use vstd::prelude::*;
use crate::board::{
    after_move, attacked_by, attacks, king_threatened, legal_sight, piece_at_spec, select,
    start_piece,
};
use crate::geometry::{contents, path_clear, reaches, shape_allows, slides, strictly_inside};
use crate::piece::{Color, Location, Piece, Shape};

verus! {

/// No piece can move to, or threaten, the square it stands on, so its sight
/// toward that square is never legal.
pub proof fn lemma_no_sight_of_own_square(b: Set<Piece>, piece: Piece, attack: bool)
    ensures
        !reaches(b, piece, piece.location, attack),
        !legal_sight(b, piece, piece.location, attack, false),
        !legal_sight(b, piece, piece.location, attack, true),
{
}

/// A piece placed strictly between a sliding piece and a square on one of
/// its lines hides that square; with that piece gone the square is seen again.
pub proof fn lemma_blocker_hides_square(
    ps: Seq<Piece>,
    slider: Piece,
    d: Location,
    blocker: Piece,
    attack: bool,
)
    requires
        slides(slider.shape),
        shape_allows(
            slider.shape,
            slider.color,
            d.file() - slider.location.file(),
            d.rank() - slider.location.rank(),
            attack,
        ),
        path_clear(contents(ps), slider.location, d),
        strictly_inside(slider.location, d, blocker.location),
    ensures
        !reaches(contents(ps.push(blocker)), slider, d, attack),
        reaches(contents(ps.push(blocker).drop_last()), slider, d, attack),
{
    assert(ps.push(blocker)[ps.len() as int] == blocker);
    assert(contents(ps.push(blocker)).contains(blocker));
    assert(ps.push(blocker).drop_last() =~= ps);
}

/// Some piece of `ps` satisfies `keep` exactly when `select` keeps one.
proof fn lemma_select_nonempty(ps: Seq<Piece>, keep: spec_fn(Piece) -> bool)
    ensures
        select(ps, keep).len() > 0 <==> exists|i: int| 0 <= i < ps.len() && #[trigger] keep(ps[i]),
    decreases ps.len(),
{
    if ps.len() > 0 {
        let rest = ps.drop_last();
        lemma_select_nonempty(rest, keep);
        if exists|i: int| 0 <= i < ps.len() && #[trigger] keep(ps[i]) {
            let i = choose|i: int| 0 <= i < ps.len() && #[trigger] keep(ps[i]);
            if i < ps.len() - 1 {
                assert(keep(rest[i]));
            }
        }
        if exists|i: int| 0 <= i < rest.len() && #[trigger] keep(rest[i]) {
            let i = choose|i: int| 0 <= i < rest.len() && #[trigger] keep(rest[i]);
            assert(keep(ps[i]));
        }
    }
}

/// A king's move toward a square that the other side threatens (that is,
/// where the attacker enumeration of the other side, without legality, finds
/// a piece) is never legal once legality is checked.
pub proof fn lemma_king_avoids_threatened_squares(ps: Seq<Piece>, king: Piece, d: Location)
    requires
        king.shape == Shape::King,
    ensures
        attacked_by(contents(ps), d, king.color.opposite()) <==> select(
            ps,
            |q: Piece| attacks(contents(ps), q, d, false, Some(king.color.opposite())),
        ).len() > 0,
        attacked_by(contents(ps), d, king.color.opposite()) ==> !legal_sight(
            contents(ps),
            king,
            d,
            false,
            true,
        ),
{
    let b = contents(ps);
    let by = king.color.opposite();
    let keep = |q: Piece| attacks(b, q, d, false, Some(by));
    lemma_select_nonempty(ps, keep);
    if attacked_by(b, d, by) {
        let q = choose|q: Piece| #[trigger] b.contains(q) && q.color == by && reaches(b, q, d, true);
        let i = choose|i: int| 0 <= i < ps.len() && ps[i] == q;
        assert(keep(ps[i]));
    }
    if exists|i: int| 0 <= i < ps.len() && #[trigger] keep(ps[i]) {
        let i = choose|i: int| 0 <= i < ps.len() && #[trigger] keep(ps[i]);
        assert(b.contains(ps[i]));
    }
}

/// With a king, a piece of its side, and a sliding piece of the other side
/// whose line onto the king that piece alone blocks, moving the blocking
/// piece off the line is illegal when legality is checked and legal when it
/// is not.
pub proof fn lemma_discovered_attack(
    ps: Seq<Piece>,
    king: Piece,
    blocker: Piece,
    slider: Piece,
    d: Location,
)
    requires
        ps.contains(king),
        ps.contains(blocker),
        ps.contains(slider),
        king.shape == Shape::King,
        blocker.shape != Shape::King,
        blocker.color == king.color,
        slider.color == king.color.opposite(),
        slides(slider.shape),
        shape_allows(
            slider.shape,
            slider.color,
            king.location.file() - slider.location.file(),
            king.location.rank() - slider.location.rank(),
            true,
        ),
        strictly_inside(slider.location, king.location, blocker.location),
        forall|q: Piece|
            #[trigger] ps.contains(q) && strictly_inside(slider.location, king.location, q.location)
                ==> q.location == blocker.location,
        reaches(contents(ps), blocker, d, false),
        d != slider.location,
        d != king.location,
        !strictly_inside(slider.location, king.location, d),
    ensures
        !legal_sight(contents(ps), blocker, d, false, true),
        legal_sight(contents(ps), blocker, d, false, false),
{
    let b = contents(ps);
    let a = after_move(b, blocker, d);
    assert(b.contains(king) && b.contains(slider));
    assert(a.contains(king));
    assert(a.contains(slider));
    assert forall|q: Piece| #[trigger] a.contains(q) implies !strictly_inside(
        slider.location,
        king.location,
        q.location,
    ) by {
        if q != blocker.moved_to(d) {
            assert(b.contains(q));
        }
    }
    assert(path_clear(a, slider.location, king.location));
    assert(reaches(a, slider, king.location, true));
    assert(attacked_by(a, king.location, king.color.opposite()));
    assert(king_threatened(a, blocker.color));
}

/// The starting position: 32 pieces, the first 16 White and the last 16
/// Black, on 32 distinct squares.
pub proof fn lemma_start_position()
    ensures
        forall|i: int, j: int|
            0 <= i < 32 && 0 <= j < 32 && i != j ==> #[trigger] start_piece(i).location
                != #[trigger] start_piece(j).location,
        forall|i: int|
            0 <= i < 32 ==> (#[trigger] start_piece(i)).color == (if i < 16 {
                Color::White
            } else {
                Color::Black
            }),
{
}

/// On a blank board, a piece placed on its square is found there, and once
/// it is removed nothing is.
pub proof fn lemma_single_piece_round_trip(p: Piece)
    ensures
        piece_at_spec(Seq::empty().push(p), p.location) == Some(p),
        piece_at_spec(Seq::empty().push(p).remove(0), p.location) is None,
{
    assert(Seq::empty().push(p).remove(0) =~= Seq::<Piece>::empty());
}

} // verus!
