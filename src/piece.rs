use vstd::prelude::*;

verus! {

/// A file or a rank, counted from the middle of the board.
pub type Coordinate = i128;

/// The kind of a piece.
#[derive(Clone, Copy, PartialEq, Eq, Debug, Structural)]
pub enum Shape {
    Pawn,
    Rook,
    Knight,
    Bishop,
    Queen,
    King,
}

/// The side a piece plays for.
#[derive(Clone, Copy, PartialEq, Eq, Debug, Structural)]
pub enum Color {
    White,
    Black,
}

impl Color {
    /// The opposing side.
    pub open spec fn opposite(self) -> Color {
        match self {
            Color::White => Color::Black,
            Color::Black => Color::White,
        }
    }

    pub fn other(self) -> (r: Color)
        ensures
            r == self.opposite(),
            r != self,
    {
        match self {
            Color::White => Color::Black,
            Color::Black => Color::White,
        }
    }
}

/// Whether a coordinate names a file or a rank of the 8x8 board.
pub open spec fn on_board(c: int) -> bool {
    -4 <= c <= 3
}

/// A square of the board: file `x` and rank `y`, each in `-4..=3`.
#[derive(Clone, Copy, PartialEq, Eq, Debug, Structural)]
pub struct Location(pub(crate) Coordinate, pub(crate) Coordinate);

impl Location {
    #[verifier::type_invariant]
    pub(crate) open spec fn inside_board(self) -> bool {
        on_board(self.0 as int) && on_board(self.1 as int)
    }

    /// The file of the square.
    pub open(crate) spec fn file(self) -> int {
        self.0 as int
    }

    /// The rank of the square.
    pub open(crate) spec fn rank(self) -> int {
        self.1 as int
    }

    /// The square at file `x` and rank `y`, if both lie on the board.
    pub fn new(x: Coordinate, y: Coordinate) -> (r: Option<Location>)
        ensures
            r is Some <==> on_board(x as int) && on_board(y as int),
            r matches Some(l) ==> l.file() == x && l.rank() == y,
    {
        if -4 <= x && x <= 3 && -4 <= y && y <= 3 {
            Some(Location(x, y))
        } else {
            None
        }
    }

    pub fn x(self) -> (r: Coordinate)
        ensures
            r == self.file(),
            on_board(r as int),
    {
        proof {
            use_type_invariant(&self);
        }
        self.0
    }

    pub fn y(self) -> (r: Coordinate)
        ensures
            r == self.rank(),
            on_board(r as int),
    {
        proof {
            use_type_invariant(&self);
        }
        self.1
    }
}

/// A piece: its side, its kind and the square it stands on.
#[derive(Clone, Copy, PartialEq, Eq, Debug, Structural)]
pub struct Piece {
    pub color: Color,
    pub shape: Shape,
    pub location: Location,
}

impl Piece {
    /// The same piece standing on `to`.
    pub open spec fn moved_to(self, to: Location) -> Piece {
        Piece { location: to, ..self }
    }
}

} // verus!
