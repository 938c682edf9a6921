//! The board, the piece handles it hands out, and the sight queries.
use vstd::prelude::*;
use crate::geometry::{contents, reaches, reaches_exec};
use crate::laws::lemma_start_position;
use crate::piece::{Color, Location, Piece, Shape};

verus! {

broadcast use vstd::seq_lib::lemma_seq_contains_after_push;

/// Whether the king and each rook of one side have left their home squares.
#[derive(Clone, Copy, Debug)]
struct CastleDataEntry {
    king_moved: bool,
    kingside_rook_moved: bool,
    queenside_rook_moved: bool,
}

impl CastleDataEntry {
    fn new() -> (r: CastleDataEntry)
        ensures
            !r.king_moved && !r.kingside_rook_moved && !r.queenside_rook_moved,
    {
        CastleDataEntry { king_moved: false, kingside_rook_moved: false, queenside_rook_moved: false }
    }
}

/// Castling bookkeeping of both sides.
#[derive(Clone, Copy, Debug)]
struct CastleData {
    white: CastleDataEntry,
    black: CastleDataEntry,
}

impl CastleData {
    spec fn untouched(self) -> bool {
        &&& !self.white.king_moved && !self.white.kingside_rook_moved
        &&& !self.white.queenside_rook_moved
        &&& !self.black.king_moved && !self.black.kingside_rook_moved
        &&& !self.black.queenside_rook_moved
    }

    fn new() -> (r: CastleData)
        ensures
            r.untouched(),
    {
        CastleData { white: CastleDataEntry::new(), black: CastleDataEntry::new() }
    }

    #[allow(dead_code)]
    fn for_color(self, color: Color) -> (r: CastleDataEntry)
        ensures
            r == (match color {
                Color::White => self.white,
                Color::Black => self.black,
            }),
    {
        match color {
            Color::White => self.white,
            Color::Black => self.black,
        }
    }
}

/// The first piece of `ps` that stands on `loc`.
pub open spec fn piece_at_spec(ps: Seq<Piece>, loc: Location) -> Option<Piece>
    decreases ps.len(),
{
    if ps.len() == 0 {
        None
    } else if ps[0].location == loc {
        Some(ps[0])
    } else {
        piece_at_spec(ps.drop_first(), loc)
    }
}

/// Some piece of color `by` threatens `target` among the pieces `b`.
pub open spec fn attacked_by(b: Set<Piece>, target: Location, by: Color) -> bool {
    exists|q: Piece| #[trigger] b.contains(q) && q.color == by && reaches(b, q, target, true)
}

/// The pieces `b` once `mover` has gone to `to`: its square is vacated, any
/// occupant of `to` is taken, and the mover stands on `to`.
pub open spec fn after_move(b: Set<Piece>, mover: Piece, to: Location) -> Set<Piece> {
    b.filter(|q: Piece| q.location != mover.location && q.location != to).insert(mover.moved_to(to))
}

/// Some king of side `c` is threatened by the other side among `b`.
pub open spec fn king_threatened(b: Set<Piece>, c: Color) -> bool {
    exists|k: Piece|
        #[trigger] b.contains(k) && k.shape == Shape::King && k.color == c && attacked_by(
            b,
            k.location,
            c.opposite(),
        )
}

/// Moving `mover` to `to` leaves a king of its side threatened.
pub open spec fn exposes_king(b: Set<Piece>, mover: Piece, to: Location) -> bool {
    king_threatened(after_move(b, mover, to), mover.color)
}

/// The move of `piece` to `to` is illegal: a king walks onto a threatened
/// square, or another piece leaves its own king threatened.
pub open spec fn illegal(b: Set<Piece>, piece: Piece, to: Location) -> bool {
    if piece.shape == Shape::King {
        attacked_by(b, to, piece.color.opposite())
    } else {
        exposes_king(b, piece, to)
    }
}

/// The sight of `piece` toward `to` would be `SeesEmpty` or `Sees`.
pub open spec fn legal_sight(
    b: Set<Piece>,
    piece: Piece,
    to: Location,
    attack: bool,
    check_legal: bool,
) -> bool {
    reaches(b, piece, to, attack) && !(check_legal && illegal(b, piece, to))
}

/// `ps` holds exactly one king of color `c`.
pub open spec fn one_king(ps: Seq<Piece>, c: Color) -> bool {
    exists|i: int|
        0 <= i < ps.len() && #[trigger] ps[i].shape == Shape::King && ps[i].color == c
            && forall|j: int|
            0 <= j < ps.len() && #[trigger] ps[j].shape == Shape::King && ps[j].color == c
                ==> j == i
}

/// The piece a board starts with at position `i` of its list: for each
/// side the eight pawns, then the back rank, files from -4 to 3.
pub open(crate) spec fn start_piece(i: int) -> Piece {
    let color = if i < 16 { Color::White } else { Color::Black };
    let k = if i < 16 { i } else { i - 16 };
    let home: int = if i < 16 { -4 } else { 3 };
    let pawns: int = if i < 16 { -3 } else { 2 };
    if k < 8 {
        Piece { color, shape: Shape::Pawn, location: Location((k - 4) as i128, pawns as i128) }
    } else {
        Piece { color, shape: back_rank_shape(k - 12), location: Location((k - 12) as i128, home as i128) }
    }
}

/// The shape that starts on file `x` of a back rank.
pub open spec fn back_rank_shape(x: int) -> Shape {
    if x == -4 || x == 3 {
        Shape::Rook
    } else if x == -3 || x == 2 {
        Shape::Knight
    } else if x == -2 || x == 1 {
        Shape::Bishop
    } else if x == -1 {
        Shape::Queen
    } else {
        Shape::King
    }
}

fn back_rank_shape_exec(x: i128) -> (r: Shape)
    ensures
        r == back_rank_shape(x as int),
{
    if x == -4 || x == 3 {
        Shape::Rook
    } else if x == -3 || x == 2 {
        Shape::Knight
    } else if x == -2 || x == 1 {
        Shape::Bishop
    } else if x == -1 {
        Shape::Queen
    } else {
        Shape::King
    }
}

/// The pieces in play, in insertion order, and the castling bookkeeping.
#[derive(Debug)]
pub struct Board {
    pieces: Vec<Piece>,
    castle_data: CastleData,
}

impl View for Board {
    type V = Seq<Piece>;

    closed spec fn view(&self) -> Seq<Piece> {
        self.pieces@
    }
}

impl Board {
    /// No king or rook of either side has left its home square yet.
    pub closed spec fn castling_untouched(self) -> bool {
        self.castle_data.untouched()
    }

    /// Two distinct positions of the list never share a square.
    pub open spec fn distinct_locations(self) -> bool {
        forall|i: int, j: int|
            0 <= i < self@.len() && 0 <= j < self@.len() && i != j
                ==> #[trigger] self@[i].location != #[trigger] self@[j].location
    }

    pub fn new() -> (r: Board)
        ensures
            r@.len() == 32,
            forall|i: int| 0 <= i < 32 ==> #[trigger] r@[i] == start_piece(i),
            forall|i: int| 0 <= i < 32 ==> (#[trigger] r@[i]).color == (if i < 16 {
                Color::White
            } else {
                Color::Black
            }),
            r.distinct_locations(),
            r.castling_untouched(),
    {
        let mut pieces: Vec<Piece> = Vec::with_capacity(32);
        let mut side: usize = 0;
        while side < 2
            invariant
                side <= 2,
                pieces@.len() == 16 * side,
                forall|i: int| 0 <= i < pieces@.len() ==> #[trigger] pieces@[i] == start_piece(i),
            decreases 2 - side,
        {
            let (color, home, pawns) = if side == 0 {
                (Color::White, -4i128, -3i128)
            } else {
                (Color::Black, 3i128, 2i128)
            };
            let mut x: i128 = -4;
            while x <= 3
                invariant
                    -4 <= x <= 4,
                    side < 2,
                    pawns == (if side == 0 { -3int } else { 2int }),
                    color == (if side == 0 { Color::White } else { Color::Black }),
                    pieces@.len() == 16 * side + x + 4,
                    forall|i: int| 0 <= i < pieces@.len() ==> #[trigger] pieces@[i] == start_piece(i),
                decreases 4 - x,
            {
                pieces.push(Piece { color, shape: Shape::Pawn, location: Location(x, pawns) });
                x += 1;
            }
            let mut x: i128 = -4;
            while x <= 3
                invariant
                    -4 <= x <= 4,
                    side < 2,
                    home == (if side == 0 { -4int } else { 3int }),
                    color == (if side == 0 { Color::White } else { Color::Black }),
                    pieces@.len() == 16 * side + x + 12,
                    forall|i: int| 0 <= i < pieces@.len() ==> #[trigger] pieces@[i] == start_piece(i),
                decreases 4 - x,
            {
                let shape = back_rank_shape_exec(x);
                pieces.push(Piece { color, shape, location: Location(x, home) });
                x += 1;
            }
            side += 1;
        }
        proof {
            lemma_start_position();
        }
        Board { pieces, castle_data: CastleData::new() }
    }

    pub fn new_blank() -> (r: Board)
        ensures
            r@ == Seq::<Piece>::empty(),
            r.castling_untouched(),
    {
        Board { pieces: Vec::new(), castle_data: CastleData::new() }
    }

    /// The piece on `location`, if any (the first one listed there).
    pub fn piece_at<'a>(&'a self, location: Location) -> (r: Option<BoardPiece<'a>>)
        ensures
            r is Some <==> piece_at_spec(self@, location) is Some,
            r matches Some(bp) ==> piece_at_spec(self@, location) == Some(bp.held())
                && bp.owner() == self,
    {
        let mut i: usize = 0;
        while i < self.pieces.len()
            invariant
                i <= self@.len(),
                forall|j: int| 0 <= j < i ==> #[trigger] self@[j].location != location,
            decreases self@.len() - i,
        {
            let piece = self.pieces[i];
            if piece.location == location {
                proof {
                    lemma_piece_at_first(self@, location, i as int);
                }
                return Some(self.board_piece(piece));
            }
            i += 1;
        }
        proof {
            lemma_piece_at_first(self@, location, self@.len() as int);
        }
        None
    }

    /// Every piece, in the order of the list.
    pub fn pieces<'a>(&'a self) -> (r: Vec<BoardPiece<'a>>)
        ensures
            r@.len() == self@.len(),
            forall|i: int| 0 <= i < r@.len() ==> (#[trigger] r@[i]).held() == self@[i]
                && r@[i].owner() == self,
    {
        let mut out: Vec<BoardPiece<'a>> = Vec::new();
        let mut i: usize = 0;
        while i < self.pieces.len()
            invariant
                i <= self@.len(),
                out@.len() == i,
                forall|j: int| 0 <= j < i ==> (#[trigger] out@[j]).held() == self@[j]
                    && out@[j].owner() == self,
            decreases self@.len() - i,
        {
            out.push(self.board_piece(self.pieces[i]));
            i += 1;
        }
        out
    }

    /// Direct access to the list of pieces, for the layer that applies moves.
    pub fn raw_board(&mut self) -> (r: &mut Vec<Piece>)
        ensures
            r@ == old(self)@,
            final(self)@ == final(r)@,
            final(self).castling_untouched() == old(self).castling_untouched(),
    {
        &mut self.pieces
    }

    /// The pieces (of color `color`, when given) whose attack sight toward
    /// `location` is legal, in the order of the list.
    pub fn find_attackers_of<'a>(
        &'a self,
        location: Location,
        check_legal: bool,
        color: Option<Color>,
    ) -> (r: Vec<BoardPiece<'a>>)
        requires
            check_legal ==> match color {
                Some(c) => one_king(self@, c),
                None => one_king(self@, Color::White) && one_king(self@, Color::Black),
            },
        ensures
            held_all(r@) == select(
                self@,
                |q: Piece| attacks(contents(self@), q, location, check_legal, color),
            ),
            forall|i: int| 0 <= i < r@.len() ==> (#[trigger] r@[i]).owner() == self,
    {
        let ghost keep = |q: Piece| attacks(contents(self@), q, location, check_legal, color);
        let mut out: Vec<BoardPiece<'a>> = Vec::new();
        let mut i: usize = 0;
        while i < self.pieces.len()
            invariant
                i <= self@.len(),
                check_legal ==> match color {
                    Some(c) => one_king(self@, c),
                    None => one_king(self@, Color::White) && one_king(self@, Color::Black),
                },
                keep == (|q: Piece| attacks(contents(self@), q, location, check_legal, color)),
                held_all(out@) == select(self@.subrange(0, i as int), keep),
                forall|j: int| 0 <= j < out@.len() ==> (#[trigger] out@[j]).owner() == self,
            decreases self@.len() - i,
        {
            let bp = self.board_piece(self.pieces[i]);
            let wanted = match color {
                Some(c) => bp.piece.color == c,
                None => true,
            };
            proof {
                assert(self@.subrange(0, i + 1).drop_last() =~= self@.subrange(0, i as int));
            }
            if wanted && bp.attack_sight(location, check_legal).is_legal() {
                out.push(bp);
                proof {
                    assert(held_all(out@) =~= held_all(out@.drop_last()).push(bp.piece));
                }
            }
            i += 1;
        }
        proof {
            assert(self@.subrange(0, self@.len() as int) =~= self@);
        }
        out
    }

    /// The pieces for which `predicate` holds, in the order of the list.
    pub fn pieces_where<'a, P: Fn(&Piece) -> bool>(&'a self, predicate: P) -> (r: Vec<BoardPiece<'a>>)
        requires
            forall|q: &Piece| #[trigger] predicate.requires((q,)),
        ensures
            exists|flags: Seq<bool>|
                flags.len() == self@.len() && (forall|i: int|
                    0 <= i < self@.len() ==> predicate.ensures((&self@[i],), #[trigger] flags[i]))
                    && held_all(r@) == select_by(self@, flags),
            forall|i: int| 0 <= i < r@.len() ==> (#[trigger] r@[i]).owner() == self,
    {
        let ghost mut flags: Seq<bool> = Seq::empty();
        let mut out: Vec<BoardPiece<'a>> = Vec::new();
        let mut i: usize = 0;
        while i < self.pieces.len()
            invariant
                i <= self@.len(),
                forall|q: &Piece| #[trigger] predicate.requires((q,)),
                flags.len() == i,
                forall|j: int| 0 <= j < i ==> predicate.ensures((&self@[j],), #[trigger] flags[j]),
                held_all(out@) == select_by(self@.subrange(0, i as int), flags),
                forall|j: int| 0 <= j < out@.len() ==> (#[trigger] out@[j]).owner() == self,
            decreases self@.len() - i,
        {
            let piece = self.pieces[i];
            let keep = predicate(&piece);
            proof {
                let ghost before = flags;
                flags = flags.push(keep);
                assert(self@.subrange(0, i + 1).drop_last() =~= self@.subrange(0, i as int));
                assert(flags.subrange(0, i as int) =~= before);
            }
            if keep {
                out.push(self.board_piece(piece));
                proof {
                    assert(held_all(out@) =~= held_all(out@.drop_last()).push(piece));
                }
            }
            i += 1;
        }
        proof {
            assert(self@.subrange(0, self@.len() as int) =~= self@);
        }
        out
    }

    /// Whether some piece of color `by` threatens `target` among `ps`,
    /// leaving king safety aside.
    fn attacked_exec(ps: &Vec<Piece>, target: Location, by: Color) -> (r: bool)
        ensures
            r == attacked_by(contents(ps@), target, by),
    {
        let mut i: usize = 0;
        while i < ps.len()
            invariant
                i <= ps@.len(),
                forall|j: int|
                    0 <= j < i ==> !((#[trigger] ps@[j]).color == by && reaches(
                        contents(ps@),
                        ps@[j],
                        target,
                        true,
                    )),
            decreases ps@.len() - i,
        {
            let q = ps[i];
            if q.color == by && reaches_exec(ps, q, target, true) {
                assert(contents(ps@).contains(ps@[i as int]));
                return true;
            }
            i += 1;
        }
        false
    }

    /// Whether moving `mover` to `blocking_at` would leave a king of its side
    /// threatened. The move is played on a scratch copy of the list.
    fn makes_discovered_attack(&self, mover: Piece, blocking_at: Location) -> (r: bool)
        ensures
            r == exposes_king(contents(self@), mover, blocking_at),
    {
        let ghost b = contents(self@);
        let ghost kept = |q: Piece| q.location != mover.location && q.location != blocking_at;
        let mut scratch: Vec<Piece> = Vec::new();
        let mut i: usize = 0;
        while i < self.pieces.len()
            invariant
                i <= self@.len(),
                kept == (|q: Piece| q.location != mover.location && q.location != blocking_at),
                forall|q: Piece|
                    #[trigger] scratch@.contains(q) <==> self@.subrange(0, i as int).contains(q)
                        && kept(q),
            decreases self@.len() - i,
        {
            let q = self.pieces[i];
            proof {
                assert(self@.subrange(0, i + 1) =~= self@.subrange(0, i as int).push(q));
            }
            let ghost before = scratch@;
            if q.location != mover.location && q.location != blocking_at {
                scratch.push(q);
                proof {
                    assert(scratch@ == before.push(q));
                }
            }
            i += 1;
        }
        let moved = Piece { location: blocking_at, ..mover };
        scratch.push(moved);
        let ghost a = after_move(b, mover, blocking_at);
        proof {
            assert(self@.subrange(0, self@.len() as int) =~= self@);
            assert(contents(scratch@) =~= a);
        }
        let opponent = mover.color.other();
        let mut k: usize = 0;
        while k < scratch.len()
            invariant
                k <= scratch@.len(),
                contents(scratch@) == a,
                a == after_move(contents(self@), mover, blocking_at),
                opponent == mover.color.opposite(),
                forall|j: int|
                    0 <= j < k ==> !((#[trigger] scratch@[j]).shape == Shape::King
                        && scratch@[j].color == mover.color && attacked_by(
                        a,
                        scratch@[j].location,
                        opponent,
                    )),
            decreases scratch@.len() - k,
        {
            let q = scratch[k];
            if q.shape == Shape::King && q.color == mover.color && Self::attacked_exec(
                &scratch,
                q.location,
                opponent,
            ) {
                assert(a.contains(q));
                return true;
            }
            k += 1;
        }
        false
    }

    fn board_piece<'a>(&'a self, piece: Piece) -> (r: BoardPiece<'a>)
        ensures
            r.held() == piece,
            r.owner() == self,
    {
        BoardPiece { piece, board: self }
    }
}

proof fn lemma_piece_at_first(ps: Seq<Piece>, loc: Location, i: int)
    requires
        0 <= i <= ps.len(),
        forall|j: int| 0 <= j < i ==> #[trigger] ps[j].location != loc,
    ensures
        i < ps.len() && ps[i].location == loc ==> piece_at_spec(ps, loc) == Some(ps[i]),
        i == ps.len() ==> piece_at_spec(ps, loc) is None,
    decreases i,
{
    if i > 0 {
        let rest = ps.drop_first();
        assert forall|j: int| 0 <= j < i - 1 implies #[trigger] rest[j].location != loc by {
            assert(rest[j] == ps[j + 1]);
        }
        lemma_piece_at_first(rest, loc, i - 1);
    }
}

/// The pieces of a list of handles.
pub open spec fn held_all<'a>(bps: Seq<BoardPiece<'a>>) -> Seq<Piece> {
    bps.map_values(|bp: BoardPiece<'a>| bp.held())
}

/// The pieces of `ps` that satisfy `keep`, in order.
pub open spec fn select(ps: Seq<Piece>, keep: spec_fn(Piece) -> bool) -> Seq<Piece>
    decreases ps.len(),
{
    if ps.len() == 0 {
        Seq::empty()
    } else {
        let rest = select(ps.drop_last(), keep);
        if keep(ps.last()) {
            rest.push(ps.last())
        } else {
            rest
        }
    }
}

/// The pieces of `ps` whose flag is set, in order.
pub open spec fn select_by(ps: Seq<Piece>, flags: Seq<bool>) -> Seq<Piece>
    decreases ps.len(),
{
    if ps.len() == 0 {
        Seq::empty()
    } else {
        let rest = select_by(ps.drop_last(), flags.subrange(0, ps.len() - 1));
        if flags[ps.len() - 1] {
            rest.push(ps.last())
        } else {
            rest
        }
    }
}

/// `q` belongs to the side `color` (when given) and its attack sight toward
/// `target` among `b` is legal.
pub open spec fn attacks(
    b: Set<Piece>,
    q: Piece,
    target: Location,
    check_legal: bool,
    color: Option<Color>,
) -> bool {
    &&& (color matches Some(c) ==> q.color == c)
    &&& legal_sight(b, q, target, true, check_legal)
}

/// A piece seen through the board it stands on.
#[derive(Clone, Copy, Debug)]
pub struct BoardPiece<'a> {
    piece: Piece,
    board: &'a Board,
}

impl<'a> BoardPiece<'a> {
    /// The piece itself.
    pub closed spec fn held(self) -> Piece {
        self.piece
    }

    /// The board the piece was taken from.
    pub closed spec fn owner(self) -> &'a Board {
        self.board
    }

    pub fn color(self) -> (r: Color)
        ensures
            r == self.held().color,
    {
        self.piece.color
    }

    pub fn shape(self) -> (r: Shape)
        ensures
            r == self.held().shape,
    {
        self.piece.shape
    }

    pub fn location(self) -> (r: Location)
        ensures
            r == self.held().location,
    {
        self.piece.location
    }

    pub fn parent_board(self) -> (r: &'a Board)
        ensures
            r == self.owner(),
    {
        self.board
    }
}

/// What a piece makes out toward a square: nothing, an empty square or an
/// occupied one, each either legal or exposing the mover's king.
#[derive(Clone, Copy, Debug)]
pub enum Sight<'a> {
    CannotSee,
    SeesEmpty,
    Sees(BoardPiece<'a>),
    IllegalSeesEmpty,
    IllegalSees(BoardPiece<'a>),
}

/// `s` is the sight toward a square with the given reachability, legality
/// and occupant, taken on `board`.
pub open spec fn sight_of<'a>(
    s: Sight<'a>,
    board: &'a Board,
    reach: bool,
    illegal: bool,
    occupant: Option<Piece>,
) -> bool {
    if !reach {
        s is CannotSee
    } else {
        match occupant {
            None => if illegal {
                s is IllegalSeesEmpty
            } else {
                s is SeesEmpty
            },
            Some(p) => match s {
                Sight::Sees(bp) => !illegal && bp.held() == p && bp.owner() == board,
                Sight::IllegalSees(bp) => illegal && bp.held() == p && bp.owner() == board,
                _ => false,
            },
        }
    }
}

impl<'a> Sight<'a> {
    pub fn is_legal(self) -> (r: bool)
        ensures
            r == (self is Sees || self is SeesEmpty),
    {
        match self {
            Sight::Sees(_) | Sight::SeesEmpty => true,
            _ => false,
        }
    }

    pub fn sees(self) -> (r: bool)
        ensures
            r == !(self is CannotSee),
    {
        match self {
            Sight::CannotSee => false,
            _ => true,
        }
    }

    /// The occupant of the square, when the piece sees one.
    pub fn piece_at(self) -> (r: Option<BoardPiece<'a>>)
        ensures
            r == (match self {
                Sight::Sees(bp) => Some(bp),
                Sight::IllegalSees(bp) => Some(bp),
                _ => None,
            }),
    {
        match self {
            Sight::Sees(bp) | Sight::IllegalSees(bp) => Some(bp),
            _ => None,
        }
    }
}

impl<'a> BoardPiece<'a> {
    /// Where this piece can move (or, with `attack`, what it threatens).
    fn sight(self, destination: Location, attack: bool, check_legal: bool) -> (r: Sight<'a>)
        requires
            check_legal ==> one_king(self.board@, self.piece.color),
        ensures
            sight_of(
                r,
                self.board,
                reaches(contents(self.board@), self.piece, destination, attack),
                check_legal && illegal(contents(self.board@), self.piece, destination),
                piece_at_spec(self.board@, destination),
            ),
    {
        let board = self.board;
        if !reaches_exec(&board.pieces, self.piece, destination, attack) {
            return Sight::CannotSee;
        }
        let illegal = if !check_legal {
            false
        } else if self.piece.shape == Shape::King {
            Board::attacked_exec(&board.pieces, destination, self.piece.color.other())
        } else {
            board.makes_discovered_attack(self.piece, destination)
        };
        match (board.piece_at(destination), illegal) {
            (Some(bp), false) => Sight::Sees(bp),
            (None, false) => Sight::SeesEmpty,
            (Some(bp), true) => Sight::IllegalSees(bp),
            (None, true) => Sight::IllegalSeesEmpty,
        }
    }

    /// Whether this piece can move to `destination`, and, with
    /// `check_legal`, whether doing so keeps its own king safe.
    pub fn move_sight(self, destination: Location, check_legal: bool) -> (r: Sight<'a>)
        requires
            check_legal ==> one_king(self.owner()@, self.held().color),
        ensures
            sight_of(
                r,
                self.owner(),
                reaches(contents(self.owner()@), self.held(), destination, false),
                check_legal && illegal(contents(self.owner()@), self.held(), destination),
                piece_at_spec(self.owner()@, destination),
            ),
    {
        self.sight(destination, false, check_legal)
    }

    /// Whether this piece threatens `destination`, and, with `check_legal`,
    /// whether taking there keeps its own king safe.
    pub fn attack_sight(self, destination: Location, check_legal: bool) -> (r: Sight<'a>)
        requires
            check_legal ==> one_king(self.owner()@, self.held().color),
        ensures
            sight_of(
                r,
                self.owner(),
                reaches(contents(self.owner()@), self.held(), destination, true),
                check_legal && illegal(contents(self.owner()@), self.held(), destination),
                piece_at_spec(self.owner()@, destination),
            ),
    {
        self.sight(destination, true, check_legal)
    }
}

} // verus!
