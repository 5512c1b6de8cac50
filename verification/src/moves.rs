//! A move: source and destination squares, with the piece type a pawn
//! promotes to when it reaches the final rank.

use vstd::prelude::*;
use crate::square::Square;
use crate::piece::PieceType;

verus! {

/// One move of a single piece.
#[derive(Copy, Clone, Debug, PartialEq, Eq, Structural)]
pub struct Move {
    source: Square,
    destination: Square,
    promotion: Option<PieceType>,
}

impl Move {
    /// The spec-level constructor.
    pub closed spec fn mk(source: Square, destination: Square, promotion: Option<PieceType>)
        -> Move {
        Move { source, destination, promotion }
    }

    /// The spec-level source square.
    pub closed spec fn source_spec(self) -> Square {
        self.source
    }

    /// The spec-level destination square.
    pub closed spec fn destination_spec(self) -> Square {
        self.destination
    }

    /// The spec-level promotion piece type.
    pub closed spec fn promotion_spec(self) -> Option<PieceType> {
        self.promotion
    }

    /// Assemble a move from its parts.
    pub fn new(source: Square, destination: Square, promotion: Option<PieceType>) -> (r: Move)
        ensures
            r == Move::mk(source, destination, promotion),
            r.source_spec() == source,
            r.destination_spec() == destination,
            r.promotion_spec() == promotion,
    {
        Move { source, destination, promotion }
    }

    /// The square the piece moves from.
    pub fn source(&self) -> (r: Square)
        ensures
            r == self.source_spec(),
    {
        self.source
    }

    /// The square the piece moves to.
    pub fn destination(&self) -> (r: Square)
        ensures
            r == self.destination_spec(),
    {
        self.destination
    }

    /// The piece type a promoting pawn becomes, if any.
    pub fn promotion(&self) -> (r: Option<PieceType>)
        ensures
            r == self.promotion_spec(),
    {
        self.promotion
    }
}

} // verus!
