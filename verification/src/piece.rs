//! Colours, piece types, and the (colour, piece-type) pair.

use vstd::prelude::*;

verus! {

/// The two sides of the game.
#[derive(Copy, Clone, Debug, PartialEq, Eq, Structural)]
pub enum Colour {
    White,
    Black,
}

impl Colour {
    /// The index of this colour into per-colour tables: White 0, Black 1.
    pub open spec fn idx(self) -> int {
        match self {
            Colour::White => 0,
            Colour::Black => 1,
        }
    }

    /// The opposing side.
    pub open spec fn other_spec(self) -> Colour {
        match self {
            Colour::White => Colour::Black,
            Colour::Black => Colour::White,
        }
    }

    /// The opposing side.
    pub fn other(self) -> (r: Self)
        ensures
            r == self.other_spec(),
    {
        match self {
            Colour::White => Colour::Black,
            Colour::Black => Colour::White,
        }
    }

    /// The index of this colour into per-colour tables: White 0, Black 1.
    pub fn index(self) -> (r: usize)
        ensures
            r == self.idx(),
    {
        match self {
            Colour::White => 0,
            Colour::Black => 1,
        }
    }
}

/// The six piece types.
#[derive(Copy, Clone, Debug, PartialEq, Eq, Structural)]
pub enum PieceType {
    P,
    N,
    B,
    R,
    Q,
    K,
}

impl PieceType {
    /// The index of this piece type into per-type tables.
    pub open spec fn idx(self) -> int {
        match self {
            PieceType::P => 0,
            PieceType::N => 1,
            PieceType::B => 2,
            PieceType::R => 3,
            PieceType::Q => 4,
            PieceType::K => 5,
        }
    }

    /// The index of this piece type into per-type tables.
    pub fn index(self) -> (r: usize)
        ensures
            r == self.idx(),
    {
        match self {
            PieceType::P => 0,
            PieceType::N => 1,
            PieceType::B => 2,
            PieceType::R => 3,
            PieceType::Q => 4,
            PieceType::K => 5,
        }
    }
}

/// A coloured piece: a (colour, piece-type) pair.
#[derive(Copy, Clone, Debug, PartialEq, Eq, Structural)]
pub struct Piece {
    colour: Colour,
    piece_type: PieceType,
}

impl Piece {
    /// The spec-level constructor: the piece with the given colour and
    /// type.
    pub closed spec fn mk(colour: Colour, piece_type: PieceType) -> Piece {
        Piece { colour, piece_type }
    }

    /// The spec-level colour of the piece.
    pub closed spec fn colour_spec(self) -> Colour {
        self.colour
    }

    /// The spec-level type of the piece.
    pub closed spec fn piece_type_spec(self) -> PieceType {
        self.piece_type
    }

    /// Pair a colour with a piece type.
    pub fn new(colour: Colour, piece_type: PieceType) -> (r: Self)
        ensures
            r == Piece::mk(colour, piece_type),
            r.colour_spec() == colour,
            r.piece_type_spec() == piece_type,
    {
        Self { colour, piece_type }
    }

    /// The piece's colour.
    pub fn colour(self) -> (r: Colour)
        ensures
            r == self.colour_spec(),
    {
        self.colour
    }

    /// The piece's type.
    pub fn piece_type(self) -> (r: PieceType)
        ensures
            r == self.piece_type_spec(),
    {
        self.piece_type
    }
}

} // verus!
