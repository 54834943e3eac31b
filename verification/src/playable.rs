//! Every move that the generator lists can be played: the generator is the
//! producer of the moves that `apply_move` takes.

use vstd::prelude::*;
use crate::board::{on_board, BitBoard, BoardState};
use crate::attacks::home_rank_start;
use crate::moves::{knight_jump, move_of, no_moves, pawn_forward, spec_knight_moves, ChessMove};
use crate::pieces::{PieceColour, PieceKind};

verus! {

impl BoardState {
    /// Whether `chess_move` can be played: origin and destination are
    /// squares of the board and a piece stands on the origin.
    pub open spec fn playable(&self, chess_move: ChessMove) -> bool {
        &&& chess_move.from < 64
        &&& chess_move.to < 64
        &&& self.spec_piece_at(chess_move.from as int).is_some()
    }

    /// Whether every move of `moves` can be played.
    pub open spec fn all_playable(&self, moves: Seq<ChessMove>) -> bool {
        forall|i: int| 0 <= i < moves.len() ==> self.playable(#[trigger] moves[i])
    }

    /// Whether the en-passant target, if there is one, is a square of the
    /// board.
    pub open spec fn target_on_board(&self) -> bool {
        match self.en_passant_square {
            Some(target) => target < 64,
            None => true,
        }
    }

    /// Moves that can be played, appended to moves that can be played, can
    /// be played.
    pub proof fn lemma_all_playable_append(&self, a: Seq<ChessMove>, b: Seq<ChessMove>)
        requires
            self.all_playable(a),
            self.all_playable(b),
        ensures
            self.all_playable(a + b),
    {
        assert forall|i: int| 0 <= i < (a + b).len() implies self.playable(#[trigger] (a + b)[i]) by {
            if i < a.len() {
                assert((a + b)[i] == a[i]);
            } else {
                assert((a + b)[i] == b[i - a.len()]);
            }
        }
    }

    /// The moves along a ray from an occupied square can be played.
    pub proof fn lemma_slide_playable(&self, from: int, cur: int, step: int)
        requires
            on_board(from),
            self.spec_piece_at(from).is_some(),
        ensures
            self.all_playable(self.slide(from, cur, step)),
        decreases
                (if step > 0 {
                    64 - cur
                } else {
                    cur + 1
                }),
    {
        let to = cur + step;
        if step != 0 && on_board(to) && !self.all_pieces.has(to) {
            self.lemma_slide_playable(from, to, step);
            self.lemma_all_playable_append(
                seq![move_of(from, to, None)],
                self.slide(from, to, step),
            );
        }
    }

    /// The moves of a bishop, a rook and a queen on an occupied square can
    /// be played.
    pub proof fn lemma_slider_moves_playable(&self, from: int)
        requires
            on_board(from),
            self.spec_piece_at(from).is_some(),
        ensures
            self.all_playable(self.spec_bishop_moves(from)),
            self.all_playable(self.spec_rook_moves(from)),
            self.all_playable(self.spec_queen_moves(from)),
    {
        self.lemma_slide_playable(from, from, 9);
        self.lemma_slide_playable(from, from, 7);
        self.lemma_slide_playable(from, from, -9);
        self.lemma_slide_playable(from, from, -7);
        let d1 = self.slide(from, from, 9) + self.slide(from, from, 7);
        self.lemma_all_playable_append(self.slide(from, from, 9), self.slide(from, from, 7));
        self.lemma_all_playable_append(d1, self.slide(from, from, -9));
        self.lemma_all_playable_append(d1 + self.slide(from, from, -9), self.slide(from, from, -7));
        self.lemma_slide_playable(from, from, 8);
        self.lemma_slide_playable(from, from, -8);
        self.lemma_slide_playable(from, from, 1);
        self.lemma_slide_playable(from, from, -1);
        let o1 = self.slide(from, from, 8) + self.slide(from, from, -8);
        self.lemma_all_playable_append(self.slide(from, from, 8), self.slide(from, from, -8));
        self.lemma_all_playable_append(o1, self.slide(from, from, 1));
        self.lemma_all_playable_append(o1 + self.slide(from, from, 1), self.slide(from, from, -1));
        self.lemma_all_playable_append(self.spec_bishop_moves(from), self.spec_rook_moves(from));
    }

    /// The jumps of a knight on an occupied square can be played.
    pub proof fn lemma_knight_moves_playable(&self, from: int)
        requires
            on_board(from),
            self.spec_piece_at(from).is_some(),
        ensures
            self.all_playable(spec_knight_moves(from)),
    {
        let j1 = knight_jump(from, 17, 1);
        let j2 = j1 + knight_jump(from, 15, 1);
        let j3 = j2 + knight_jump(from, 10, 2);
        let j4 = j3 + knight_jump(from, 6, 2);
        let j5 = j4 + knight_jump(from, -17, 1);
        let j6 = j5 + knight_jump(from, -15, 1);
        let j7 = j6 + knight_jump(from, -10, 2);
        self.lemma_all_playable_append(j1, knight_jump(from, 15, 1));
        self.lemma_all_playable_append(j2, knight_jump(from, 10, 2));
        self.lemma_all_playable_append(j3, knight_jump(from, 6, 2));
        self.lemma_all_playable_append(j4, knight_jump(from, -17, 1));
        self.lemma_all_playable_append(j5, knight_jump(from, -15, 1));
        self.lemma_all_playable_append(j6, knight_jump(from, -10, 2));
        self.lemma_all_playable_append(j7, knight_jump(from, -6, 2));
    }

    /// The moves of a king on an occupied square can be played: where a
    /// castling move is listed, a king stands on its origin.
    pub proof fn lemma_king_moves_playable(&self, from: int)
        requires
            on_board(from),
            self.spec_piece_at(from).is_some(),
        ensures
            self.all_playable(self.spec_king_moves(from)),
    {
        let k1 = self.king_step(from, 9);
        let k2 = k1 + self.king_step(from, 7);
        let k3 = k2 + self.king_step(from, -9);
        let k4 = k3 + self.king_step(from, -7);
        let k5 = k4 + self.king_step(from, 8);
        let k6 = k5 + self.king_step(from, -8);
        let k7 = k6 + self.king_step(from, 1);
        let k8 = k7 + self.king_step(from, -1);
        self.lemma_all_playable_append(k1, self.king_step(from, 7));
        self.lemma_all_playable_append(k2, self.king_step(from, -9));
        self.lemma_all_playable_append(k3, self.king_step(from, -7));
        self.lemma_all_playable_append(k4, self.king_step(from, 8));
        self.lemma_all_playable_append(k5, self.king_step(from, -8));
        self.lemma_all_playable_append(k6, self.king_step(from, 1));
        self.lemma_all_playable_append(k7, self.king_step(from, -1));
        let a = home_rank_start(self.to_move);
        let short = if self.spec_can_castle_kingside(self.to_move) {
            seq![move_of(a + 4, a + 6, None)]
        } else {
            no_moves()
        };
        let long = if self.spec_can_castle_queenside(self.to_move) {
            seq![move_of(a + 4, a + 2, None)]
        } else {
            no_moves()
        };
        self.lemma_all_playable_append(short, long);
        self.lemma_all_playable_append(k8, self.castling_moves());
    }

    /// The moves of a pawn on an occupied square can be played, where the
    /// en-passant target is a square of the board.
    pub proof fn lemma_pawn_moves_playable(&self, from: int, colour: PieceColour)
        requires
            on_board(from),
            self.spec_piece_at(from).is_some(),
            self.target_on_board(),
        ensures
            self.all_playable(self.spec_pawn_moves(from, colour)),
    {
        let forward = pawn_forward(colour);
        let pushes = self.pawn_pushes(from, colour);
        let left = self.pawn_capture(from, forward - 1, colour);
        let right = self.pawn_capture(from, forward + 1, colour);
        let passing = Self::pawn_en_passant(from, colour, self.en_passant_square);
        assert(self.all_playable(pushes));
        self.lemma_all_playable_append(pushes, left);
        self.lemma_all_playable_append(pushes + left, right);
        self.lemma_all_playable_append(pushes + left + right, passing);
    }

    /// The moves listed for one square can be played, where the en-passant
    /// target is a square of the board.
    pub proof fn lemma_square_moves_playable(&self, pieces: BitBoard, sq: int)
        requires
            on_board(sq),
            self.target_on_board(),
        ensures
            self.all_playable(self.square_moves(pieces, sq)),
    {
        match self.spec_piece_at(sq) {
            Some(piece) => {
                if pieces.has(sq) && piece.colour == self.to_move {
                    match piece.kind {
                        PieceKind::Pawn => self.lemma_pawn_moves_playable(sq, piece.colour),
                        PieceKind::Knight => self.lemma_knight_moves_playable(sq),
                        PieceKind::Bishop => self.lemma_slider_moves_playable(sq),
                        PieceKind::Rook => self.lemma_slider_moves_playable(sq),
                        PieceKind::Queen => self.lemma_slider_moves_playable(sq),
                        PieceKind::King => self.lemma_king_moves_playable(sq),
                    }
                }
            },
            None => {},
        }
    }

    /// The moves listed from `sq` on can be played, where the en-passant
    /// target is a square of the board.
    pub proof fn lemma_moves_from_playable(&self, pieces: BitBoard, sq: int)
        requires
            0 <= sq <= 64,
            self.target_on_board(),
        ensures
            self.all_playable(self.moves_from(pieces, sq)),
        decreases 64 - sq,
    {
        if sq < 64 {
            self.lemma_square_moves_playable(pieces, sq);
            self.lemma_moves_from_playable(pieces, sq + 1);
            self.lemma_all_playable_append(
                self.square_moves(pieces, sq),
                self.moves_from(pieces, sq + 1),
            );
        }
    }

    /// Every generated move meets what `apply_move` asks of a move: its
    /// squares are on the board and a piece stands on its origin. This holds
    /// of every position whose en-passant target, if any, is on the board.
    pub proof fn lemma_generated_moves_are_playable(&self)
        requires
            self.target_on_board(),
        ensures
            self.all_playable(self.spec_generate_moves()),
    {
        self.lemma_moves_from_playable(self.side_pieces(), 0);
    }
}

} // verus!
