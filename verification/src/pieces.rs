//! Colours, kinds and pieces.

use vstd::prelude::*;

verus! {

/// The two sides.
#[derive(Copy, Clone, PartialEq, Eq, Debug, Structural)]
pub enum PieceColour {
    White,
    Black,
}

impl PieceColour {
    /// The other side.
    pub open spec fn spec_opposite(self) -> PieceColour {
        match self {
            PieceColour::White => PieceColour::Black,
            PieceColour::Black => PieceColour::White,
        }
    }

    /// Position of the colour in tables indexed by colour.
    pub open spec fn index(self) -> int {
        match self {
            PieceColour::White => 0,
            PieceColour::Black => 1,
        }
    }

    /// Returns the other side.
    #[verifier::when_used_as_spec(spec_opposite)]
    pub fn opposite(self) -> (r: PieceColour)
        ensures
            r == self.spec_opposite(),
            r != self,
    {
        match self {
            PieceColour::White => PieceColour::Black,
            PieceColour::Black => PieceColour::White,
        }
    }
}

/// The six kinds of piece.
#[derive(Copy, Clone, PartialEq, Eq, Debug, Structural)]
pub enum PieceKind {
    Pawn,
    Knight,
    Bishop,
    Rook,
    Queen,
    King,
}

impl PieceKind {
    /// Position of the kind in tables indexed by kind.
    pub open spec fn index(self) -> int {
        match self {
            PieceKind::Pawn => 0,
            PieceKind::Knight => 1,
            PieceKind::Bishop => 2,
            PieceKind::Rook => 3,
            PieceKind::Queen => 4,
            PieceKind::King => 5,
        }
    }
}

/// A piece is a value, a kind of a colour; pieces have no identity.
#[derive(Copy, Clone, PartialEq, Eq, Debug, Structural)]
pub struct Piece {
    pub kind: PieceKind,
    pub colour: PieceColour,
}

} // verus!
