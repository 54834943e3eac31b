//! Playing a move on a position.

use vstd::prelude::*;
use crate::board::{on_board, BoardState};
use crate::moves::{pawn_forward, ChessMove};
use crate::pieces::{Piece, PieceColour, PieceKind};
use crate::zobrist::ZobristHashing;

verus! {

impl BoardState {
    /// The position with the en-passant target replaced by `target`.
    pub open spec fn with_target(&self, target: Option<usize>) -> BoardState {
        BoardState { en_passant_square: target, ..*self }
    }

    /// The en-passant target after `chess_move`: the square midway between
    /// origin and destination when a pawn moves and the ranks differ by
    /// exactly two, none after any other move.
    pub open spec fn target_after_move(&self, chess_move: ChessMove) -> Option<usize> {
        let from_rank = chess_move.from as int / 8;
        let to_rank = chess_move.to as int / 8;
        match self.spec_piece_at(chess_move.from as int) {
            Some(piece) => if piece.kind == PieceKind::Pawn && (to_rank - from_rank == 2
                || from_rank - to_rank == 2) {
                Some(((chess_move.from + chess_move.to) / 2) as usize)
            } else {
                None
            },
            None => None,
        }
    }

    /// The square that an en-passant capture empties: when a pawn moves
    /// onto the en-passant target, the square one rank behind the
    /// destination, seen from the mover's side, if it is on the board.
    pub open spec fn en_passant_victim(&self, chess_move: ChessMove) -> Option<int> {
        match (self.spec_piece_at(chess_move.from as int), self.en_passant_square) {
            (Some(piece), Some(target)) => {
                let behind = chess_move.to - pawn_forward(piece.colour);
                if piece.kind == PieceKind::Pawn && chess_move.to == target && on_board(behind) {
                    Some(behind)
                } else {
                    None
                }
            },
            _ => None,
        }
    }

    /// The piece that `chess_move` puts on its destination: the mover, or,
    /// for a pawn with a promotion kind, a piece of that kind and the
    /// mover's colour.
    pub open spec fn placed_by(&self, chess_move: ChessMove) -> Piece {
        let mover = self.spec_piece_at(chess_move.from as int).unwrap();
        match chess_move.promotion {
            Some(kind) => if mover.kind == PieceKind::Pawn {
                Piece { kind, colour: mover.colour }
            } else {
                mover
            },
            None => mover,
        }
    }

    /// Whether the bit set of `piece` has `sq` after `chess_move`: on the
    /// destination the set of the piece placed there alone, on the origin
    /// and on the square of a pawn taken en passant none, elsewhere the sets
    /// that had it before.
    pub open spec fn membership_after(&self, chess_move: ChessMove, piece: Piece, sq: int) -> bool {
        if sq == chess_move.to {
            piece == self.placed_by(chess_move)
        } else if sq == chess_move.from || self.en_passant_victim(chess_move) == Some(sq) {
            false
        } else {
            self.board_of(piece).has(sq)
        }
    }

    /// What stands on `sq` after `chess_move`.
    pub open spec fn placement_after(&self, chess_move: ChessMove, sq: int) -> Option<Piece> {
        if sq == chess_move.to {
            Some(self.placed_by(chess_move))
        } else if sq == chess_move.from || self.en_passant_victim(chess_move) == Some(sq) {
            None
        } else {
            self.spec_piece_at(sq)
        }
    }

    /// Sets the en-passant target as `chess_move` leaves it. The piece that
    /// is about to move is looked up on the origin square, so this comes
    /// before the piece is taken off it.
    pub fn update_en_passant_square(&mut self, chess_move: &ChessMove)
        requires
            chess_move.from < 64,
            chess_move.to < 64,
        ensures
            *final(self) == old(self).with_target(old(self).target_after_move(*chess_move)),
            old(self).wf() ==> final(self).wf(),
    {
        let from_rank: usize = chess_move.from / 8;
        let to_rank: usize = chess_move.to / 8;
        match self.piece_at(chess_move.from) {
            Some(piece) => {
                if piece.kind == PieceKind::Pawn && (to_rank == from_rank + 2 || from_rank
                    == to_rank + 2) {
                    self.en_passant_square = Some((chess_move.from + chess_move.to) / 2);
                    proof {
                        self.lemma_same_piece_sets(old(self));
                    }
                    return ;
                }
            },
            None => {},
        }
        self.en_passant_square = None;
        proof {
            self.lemma_same_piece_sets(old(self));
        }
    }

    /// Tells whether `to` is the en-passant target.
    pub fn is_valid_en_passant(&self, from: usize, to: usize) -> (r: bool)
        ensures
            r == (self.en_passant_square == Some(to)),
    {
        match self.en_passant_square {
            Some(target) => to == target,
            None => false,
        }
    }

    /// Plays `chess_move` and returns the fingerprint of the position
    /// reached. The piece on the origin goes to the destination and replaces
    /// what stood there; a pawn that moves onto the en-passant target takes
    /// the pawn behind it; a pawn with a promotion kind turns into that kind.
    /// The en-passant target is set by a pawn's two-rank move and cleared by
    /// any other; the move passes to the other side; the castling rights
    /// stay. The origin must hold a piece. The keys are read, not changed.
    pub fn apply_move(&mut self, chess_move: ChessMove, zobrist: &mut ZobristHashing) -> (hash:
        u64)
        requires
            old(self).playable(chess_move),
        ensures
            forall|sq: int|
                on_board(sq) ==> #[trigger] final(self).spec_piece_at(sq) == old(
                    self,
                ).placement_after(chess_move, sq),
            forall|piece: Piece, sq: int|
                on_board(sq) ==> #[trigger] final(self).board_of(piece).has(sq) == old(
                    self,
                ).membership_after(chess_move, piece, sq),
            final(self).en_passant_square == old(self).target_after_move(chess_move),
            final(self).to_move == old(self).to_move.opposite(),
            final(self).castling_rights == old(self).castling_rights,
            final(self).aggregates_current(),
            old(self).exclusive() ==> final(self).wf(),
            *final(zobrist) == *old(zobrist),
            hash == old(zobrist).spec_hash(final(self)),
    {
        let from = chess_move.from;
        let to = chess_move.to;
        let ghost before = *old(self);
        let piece = self.piece_at(from).unwrap();
        let previous_target = self.en_passant_square;
        self.update_en_passant_square(&chess_move);
        proof {
            self.lemma_same_piece_sets(&before);
        }
        self.clear_square(from);
        self.set_piece_at(to, piece);
        let ghost moved = *self;
        proof {
            assert forall|sq: int| on_board(sq) implies #[trigger] moved.spec_piece_at(sq) == (if sq
                == to {
                Some(piece)
            } else if sq == from {
                None
            } else {
                before.spec_piece_at(sq)
            }) by {}
            assert forall|other: Piece, sq: int| on_board(sq) implies #[trigger] moved.board_of(
                other,
            ).has(sq) == (if sq == to {
                other == piece
            } else if sq == from {
                false
            } else {
                before.board_of(other).has(sq)
            }) by {}
        }
        if piece.kind == PieceKind::Pawn {
            match previous_target {
                Some(target) => {
                    if to == target {
                        match piece.colour {
                            PieceColour::White => if to >= 8 {
                                self.clear_square(to - 8);
                            },
                            PieceColour::Black => if to + 8 < 64 {
                                self.clear_square(to + 8);
                            },
                        }
                    }
                },
                None => {},
            }
        }
        let ghost taken = *self;
        proof {
            assert forall|sq: int| on_board(sq) implies #[trigger] taken.spec_piece_at(sq) == (
            if before.en_passant_victim(chess_move) == Some(sq) {
                None
            } else {
                moved.spec_piece_at(sq)
            }) by {}
            assert forall|other: Piece, sq: int| on_board(sq) implies #[trigger] taken.board_of(
                other,
            ).has(sq) == (if before.en_passant_victim(chess_move) == Some(sq) {
                false
            } else {
                moved.board_of(other).has(sq)
            }) by {}
        }
        if piece.kind == PieceKind::Pawn {
            match chess_move.promotion {
                Some(promotion) => {
                    self.promote_pawn(to, promotion, piece.colour);
                },
                None => {},
            }
        }
        let ghost promoted = *self;
        proof {
            assert forall|sq: int| on_board(sq) implies #[trigger] promoted.spec_piece_at(sq) == (
            if sq == to {
                Some(before.placed_by(chess_move))
            } else {
                taken.spec_piece_at(sq)
            }) by {}
            assert forall|other: Piece, sq: int| on_board(sq) implies #[trigger] promoted.board_of(
                other,
            ).has(sq) == (if sq == to {
                other == before.placed_by(chess_move)
            } else {
                taken.board_of(other).has(sq)
            }) by {}
        }
        self.update_aggregate_bitboards();
        let ghost derived = *self;
        self.flip_turn();
        proof {
            derived.lemma_same_piece_sets(&promoted);
            self.lemma_same_piece_sets(&derived);
            assert forall|sq: int| on_board(sq) implies #[trigger] self.spec_piece_at(sq)
                == before.placement_after(chess_move, sq) by {
                assert(self.spec_piece_at(sq) == derived.spec_piece_at(sq));
                assert(derived.spec_piece_at(sq) == promoted.spec_piece_at(sq));
            }
            assert forall|other: Piece, sq: int| on_board(sq) implies #[trigger] self.board_of(
                other,
            ).has(sq) == before.membership_after(chess_move, other, sq) by {
                assert(self.board_of(other) == promoted.board_of(other));
            }
        }
        zobrist.compute_hash(self)
    }
}

} // verus!
