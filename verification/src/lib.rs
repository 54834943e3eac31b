//! A chess position kept as bit sets over the 64 squares, with pseudo-legal
//! move generation, a reproducible position fingerprint and a bounded game
//! history for draw adjudication.
//!
//! Squares are numbered 0..64, rank = square / 8, file = square % 8. White
//! starts on ranks 0 and 1 and advances towards higher squares.
//!
//! Conventions that hold throughout:
//! - Moves are pseudo-legal: a move that leaves the mover's own king
//!   attacked is listed like any other. Only the squares that a castling
//!   king passes are screened for attacks.
//! - Listing moves reads a position and leaves it as it is. The en-passant
//!   target is set by playing a pawn two ranks forward and cleared by
//!   playing any other move.
//! - Attacks go by rank and file and end at the edges of the board. The
//!   move generator holds the steps of sliding pieces, kings and capturing
//!   pawns to the range 0..64 of the squares only; the jumps of a knight it
//!   also holds to the change of file that belongs to them.
//! - A pawn that reaches the farthest rank is promoted to a queen; the move
//!   generator offers no other kind. `apply_move` accepts any kind.
//! - A position whose fields were set by hand need not be consistent. Every
//!   function says what it does on the fields as they are; `BoardState::wf`
//!   says when the aggregates agree with the piece sets, and the functions
//!   that change a position keep it so.

pub mod bits;
pub mod pieces;
pub mod board;
pub mod attacks;
pub mod moves;
pub mod play;
pub mod playable;
pub mod zobrist;
pub mod history;
