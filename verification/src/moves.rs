//! Pseudo-legal move generation: what each kind of piece can do, stated as
//! sequences of moves, and the functions that list them.

use vstd::prelude::*;
use crate::attacks::home_rank_start;
use crate::board::{on_board, BitBoard, BoardState};
use crate::pieces::{PieceColour, PieceKind};

verus! {

/// A move: the square left, the square reached, and the kind that a pawn
/// turns into when it reaches the farthest rank.
#[derive(Copy, Clone, PartialEq, Eq, Debug)]
pub struct ChessMove {
    pub from: usize,
    pub to: usize,
    pub promotion: Option<PieceKind>,
}

/// The move from `from` to `to`, both squares of the board.
pub open spec fn move_of(from: int, to: int, promotion: Option<PieceKind>) -> ChessMove {
    ChessMove { from: from as usize, to: to as usize, promotion }
}

/// No move.
pub open spec fn no_moves() -> Seq<ChessMove> {
    Seq::empty()
}

/// The step by which a pawn of `colour` advances: white towards higher
/// squares, black towards lower ones.
pub open spec fn pawn_forward(colour: PieceColour) -> int {
    match colour {
        PieceColour::White => 8,
        PieceColour::Black => -8,
    }
}

/// Whether `sq` is on the rank where the pawns of `colour` start.
pub open spec fn pawn_home(sq: int, colour: PieceColour) -> bool {
    match colour {
        PieceColour::White => 8 <= sq < 16,
        PieceColour::Black => 48 <= sq < 56,
    }
}

/// What a pawn of `colour` turns into on `sq`: a queen on the farthest
/// rank from its start, nothing elsewhere. Promotion is to the queen alone;
/// the three lesser kinds are not offered.
pub open spec fn promotion_for(sq: int, colour: PieceColour) -> Option<PieceKind> {
    match colour {
        PieceColour::White => if sq >= 56 {
            Some(PieceKind::Queen)
        } else {
            None
        },
        PieceColour::Black => if sq < 8 {
            Some(PieceKind::Queen)
        } else {
            None
        },
    }
}

/// Whether a pawn of `colour` on `from` stands diagonally behind `target`,
/// at a distance of 7 or 9 squares in its own direction.
pub open spec fn en_passant_origin(from: int, target: int, colour: PieceColour) -> bool {
    match colour {
        PieceColour::White => from + 7 == target || from + 9 == target,
        PieceColour::Black => from - 7 == target || from - 9 == target,
    }
}

/// The jump of a knight from `from` by `offset`, if it stays in the range
/// of the board and changes the file by `span`; a jump that wraps round an
/// edge of the board changes the file by another amount.
pub open spec fn knight_jump(from: int, offset: int, span: int) -> Seq<ChessMove> {
    let to = from + offset;
    let shift = to % 8 - from % 8;
    if on_board(to) && (shift == span || shift == -span) {
        seq![move_of(from, to, None)]
    } else {
        no_moves()
    }
}

/// The jumps of a knight from `from`, in the order of the offsets 17, 15,
/// 10, 6, -17, -15, -10, -6. What stands on the square reached plays no
/// part.
pub open spec fn spec_knight_moves(from: int) -> Seq<ChessMove> {
    knight_jump(from, 17, 1) + knight_jump(from, 15, 1) + knight_jump(from, 10, 2) + knight_jump(
        from,
        6,
        2,
    ) + knight_jump(from, -17, 1) + knight_jump(from, -15, 1) + knight_jump(from, -10, 2)
        + knight_jump(from, -6, 2)
}

/// Appending in two parts is appending the whole.
pub proof fn lemma_append_assoc(a: Seq<ChessMove>, b: Seq<ChessMove>, c: Seq<ChessMove>)
    ensures
        (a + b) + c == a + (b + c),
{
    assert((a + b) + c =~= a + (b + c));
}

/// Appending no move changes nothing.
pub proof fn lemma_append_nothing(a: Seq<ChessMove>)
    ensures
        a + no_moves() == a,
        no_moves() + a == a,
{
    assert(a + no_moves() =~= a);
    assert(no_moves() + a =~= a);
}

/// Appends the move from `from` to `to`.
fn emit(moves: &mut Vec<ChessMove>, from: usize, to: usize, promotion: Option<PieceKind>)
    ensures
        final(moves)@ == old(moves)@ + seq![ChessMove { from, to, promotion }],
{
    moves.push(ChessMove { from, to, promotion });
    proof {
        assert(moves@ =~= old(moves)@ + seq![ChessMove { from, to, promotion }]);
    }
}

/// Appends the jump of a knight from `square` by `offset`, if there is one.
fn emit_knight_jump(moves: &mut Vec<ChessMove>, square: usize, offset: isize, span: isize)
    requires
        square < 64,
        -17 <= offset <= 17,
        0 <= span <= 2,
    ensures
        final(moves)@ == old(moves)@ + knight_jump(square as int, offset as int, span as int),
{
    let file: isize = (square % 8) as isize;
    let target: isize = square as isize + offset;
    if target >= 0 && target < 64 {
        let shift: isize = target % 8 - file;
        if shift == span || shift == -span {
            emit(moves, square, target as usize, None);
            return ;
        }
    }
    proof {
        lemma_append_nothing(moves@);
    }
}

impl BoardState {
    /// Whether `sq` is in the aggregate of the side that plays against
    /// `colour`.
    pub open spec fn opponent_occupied(&self, sq: int, colour: PieceColour) -> bool {
        match colour {
            PieceColour::White => self.all_black.has(sq),
            PieceColour::Black => self.all_white.has(sq),
        }
    }

    /// Whether the square ahead of a pawn of `colour` on `from` is on the
    /// board and not in the aggregate of all pieces.
    pub open spec fn can_push(&self, from: int, colour: PieceColour) -> bool {
        let one = from + pawn_forward(colour);
        on_board(one) && !self.all_pieces.has(one)
    }

    /// Whether a pawn of `colour` on `from` can advance two squares: it
    /// stands on its starting rank and both squares ahead are free.
    pub open spec fn can_double_push(&self, from: int, colour: PieceColour) -> bool {
        let two = from + 2 * pawn_forward(colour);
        self.can_push(from, colour) && pawn_home(from, colour) && on_board(two)
            && !self.all_pieces.has(two)
    }

    /// The advances of a pawn of `colour` on `from`: one square, with
    /// promotion on the farthest rank, then two squares.
    pub open spec fn pawn_pushes(&self, from: int, colour: PieceColour) -> Seq<ChessMove> {
        let one = from + pawn_forward(colour);
        let two = from + 2 * pawn_forward(colour);
        if self.can_push(from, colour) {
            seq![move_of(from, one, promotion_for(one, colour))] + (if self.can_double_push(
                from,
                colour,
            ) {
                seq![move_of(from, two, None)]
            } else {
                no_moves()
            })
        } else {
            no_moves()
        }
    }

    /// The capture of a pawn of `colour` from `from` by `offset`, onto a
    /// square of the board that the other side occupies.
    pub open spec fn pawn_capture(&self, from: int, offset: int, colour: PieceColour) -> Seq<
        ChessMove,
    > {
        let to = from + offset;
        if on_board(to) && self.all_pieces.has(to) && self.opponent_occupied(to, colour) {
            seq![move_of(from, to, promotion_for(to, colour))]
        } else {
            no_moves()
        }
    }

    /// The en-passant capture of a pawn of `colour` on `from` onto
    /// `target`, when the pawn stands diagonally behind it.
    pub open spec fn pawn_en_passant(from: int, colour: PieceColour, target: Option<usize>) -> Seq<
        ChessMove,
    > {
        match target {
            Some(t) => if en_passant_origin(from, t as int, colour) {
                seq![ChessMove { from: from as usize, to: t, promotion: None }]
            } else {
                no_moves()
            },
            None => no_moves(),
        }
    }

    /// The moves of a pawn of `colour` on `from`: the advances, the two
    /// captures towards the lower and the higher file, and the en-passant
    /// capture onto the target of the position.
    pub open spec fn spec_pawn_moves(&self, from: int, colour: PieceColour) -> Seq<ChessMove> {
        let forward = pawn_forward(colour);
        self.pawn_pushes(from, colour) + self.pawn_capture(from, forward - 1, colour)
            + self.pawn_capture(from, forward + 1, colour) + Self::pawn_en_passant(
            from,
            colour,
            self.en_passant_square,
        )
    }

    /// The moves along one ray: from the square after `cur`, in steps of
    /// `step`, every free square up to the first occupied one, and that one
    /// too where the other side holds it. Squares are held to the range of
    /// the board only.
    pub open spec fn slide(&self, from: int, cur: int, step: int) -> Seq<ChessMove>
        decreases
                (if step > 0 {
                    64 - cur
                } else {
                    cur + 1
                }),
    {
        let to = cur + step;
        if step == 0 || !on_board(to) {
            no_moves()
        } else if self.all_pieces.has(to) {
            if self.opponent_occupied(to, self.to_move) {
                seq![move_of(from, to, None)]
            } else {
                no_moves()
            }
        } else {
            seq![move_of(from, to, None)] + self.slide(from, to, step)
        }
    }

    /// The moves of a bishop on `from`, ray by ray: 9, 7, -9, -7.
    pub open spec fn spec_bishop_moves(&self, from: int) -> Seq<ChessMove> {
        self.slide(from, from, 9) + self.slide(from, from, 7) + self.slide(from, from, -9)
            + self.slide(from, from, -7)
    }

    /// The moves of a rook on `from`, ray by ray: 8, -8, 1, -1.
    pub open spec fn spec_rook_moves(&self, from: int) -> Seq<ChessMove> {
        self.slide(from, from, 8) + self.slide(from, from, -8) + self.slide(from, from, 1)
            + self.slide(from, from, -1)
    }

    /// The moves of a queen on `from`: those of a bishop, then those of a
    /// rook.
    pub open spec fn spec_queen_moves(&self, from: int) -> Seq<ChessMove> {
        self.spec_bishop_moves(from) + self.spec_rook_moves(from)
    }

    /// The step of a king from `from` by `offset`, onto a square of the
    /// board that is free or held by the side not to move.
    pub open spec fn king_step(&self, from: int, offset: int) -> Seq<ChessMove> {
        let to = from + offset;
        if on_board(to) && (!self.all_pieces.has(to) || self.opponent_occupied(to, self.to_move)) {
            seq![move_of(from, to, None)]
        } else {
            no_moves()
        }
    }

    /// The castling moves of the side to move: the king goes from the e
    /// square of its home rank to the g square, then to the c square, each
    /// where castling on that side is open.
    pub open spec fn castling_moves(&self) -> Seq<ChessMove> {
        let a = home_rank_start(self.to_move);
        (if self.spec_can_castle_kingside(self.to_move) {
            seq![move_of(a + 4, a + 6, None)]
        } else {
            no_moves()
        }) + (if self.spec_can_castle_queenside(self.to_move) {
            seq![move_of(a + 4, a + 2, None)]
        } else {
            no_moves()
        })
    }

    /// The moves of a king on `from`: the eight steps in the order 9, 7,
    /// -9, -7, 8, -8, 1, -1, then the castling moves.
    pub open spec fn spec_king_moves(&self, from: int) -> Seq<ChessMove> {
        self.king_step(from, 9) + self.king_step(from, 7) + self.king_step(from, -9)
            + self.king_step(from, -7) + self.king_step(from, 8) + self.king_step(from, -8)
            + self.king_step(from, 1) + self.king_step(from, -1) + self.castling_moves()
    }

    /// Tells whether `square` is in the aggregate of the side that plays
    /// against `colour`.
    pub fn is_opponent_piece(&self, square: usize, colour: PieceColour) -> (r: bool)
        requires
            square < 64,
        ensures
            r == self.opponent_occupied(square as int, colour),
    {
        match colour {
            PieceColour::White => self.all_black.is_set(square),
            PieceColour::Black => self.all_white.is_set(square),
        }
    }

    /// Tells whether `square` is on the rank where the pawns of `colour`
    /// start.
    pub fn is_pawn_starting_rank(&self, square: usize, colour: PieceColour) -> (r: bool)
        ensures
            r == pawn_home(square as int, colour),
    {
        match colour {
            PieceColour::White => 8 <= square && square < 16,
            PieceColour::Black => 48 <= square && square < 56,
        }
    }

    /// Tells what a pawn of `colour` turns into on `square`.
    pub fn promotion_check(&self, square: usize, colour: PieceColour) -> (r: Option<PieceKind>)
        ensures
            r == promotion_for(square as int, colour),
    {
        match colour {
            PieceColour::White => if square >= 56 {
                Some(PieceKind::Queen)
            } else {
                None
            },
            PieceColour::Black => if square < 8 {
                Some(PieceKind::Queen)
            } else {
                None
            },
        }
    }

    /// Appends the capture of a pawn from `square` by `offset`, if there is
    /// one.
    fn emit_pawn_capture(
        &self,
        moves: &mut Vec<ChessMove>,
        square: usize,
        offset: isize,
        colour: PieceColour,
    )
        requires
            square < 64,
            -9 <= offset <= 9,
        ensures
            final(moves)@ == old(moves)@ + self.pawn_capture(
                square as int,
                offset as int,
                colour,
            ),
    {
        let target: isize = square as isize + offset;
        if target >= 0 && target < 64 && self.all_pieces.is_set(target as usize)
            && self.is_opponent_piece(target as usize, colour) {
            let promotion = self.promotion_check(target as usize, colour);
            emit(moves, square, target as usize, promotion);
        } else {
            proof {
                lemma_append_nothing(moves@);
            }
        }
    }

    /// Appends the moves of the pawn of `colour` on `square`. The position
    /// is read, not changed.
    pub fn generate_pawn_moves(
        &mut self,
        square: usize,
        colour: PieceColour,
        moves: &mut Vec<ChessMove>,
    )
        requires
            square < 64,
        ensures
            final(moves)@ == old(moves)@ + old(self).spec_pawn_moves(square as int, colour),
            *final(self) == *old(self),
    {
        let ghost base = moves@;
        let direction: isize = match colour {
            PieceColour::White => 8,
            PieceColour::Black => -8,
        };
        self.emit_pawn_pushes(moves, square, colour);
        let ghost part0 = self.pawn_pushes(square as int, colour);
        self.emit_pawn_capture(moves, square, direction - 1, colour);
        let ghost left = self.pawn_capture(square as int, direction - 1, colour);
        let ghost part1 = part0 + left;
        self.emit_pawn_capture(moves, square, direction + 1, colour);
        let ghost right = self.pawn_capture(square as int, direction + 1, colour);
        let ghost part2 = part1 + right;
        self.emit_en_passant(moves, square, colour);
        let ghost passing = Self::pawn_en_passant(square as int, colour, self.en_passant_square);
        proof {
            lemma_append_assoc(base, part0, left);
            lemma_append_assoc(base, part1, right);
            lemma_append_assoc(base, part2, passing);
        }
    }

    /// Appends the advances of the pawn of `colour` on `square`.
    fn emit_pawn_pushes(&self, moves: &mut Vec<ChessMove>, square: usize, colour: PieceColour)
        requires
            square < 64,
        ensures
            final(moves)@ == old(moves)@ + self.pawn_pushes(square as int, colour),
    {
        let direction: isize = match colour {
            PieceColour::White => 8,
            PieceColour::Black => -8,
        };
        let forward: isize = square as isize + direction;
        if forward >= 0 && forward < 64 && !self.all_pieces.is_set(forward as usize) {
            let promotion = self.promotion_check(forward as usize, colour);
            emit(moves, square, forward as usize, promotion);
            let double_forward: isize = square as isize + 2 * direction;
            if self.is_pawn_starting_rank(square, colour) && double_forward >= 0 && double_forward
                < 64 && !self.all_pieces.is_set(double_forward as usize) {
                emit(moves, square, double_forward as usize, None);
                proof {
                    lemma_append_assoc(
                        old(moves)@,
                        seq![move_of(square as int, forward as int, promotion)],
                        seq![move_of(square as int, double_forward as int, None)],
                    );
                }
            } else {
                proof {
                    lemma_append_nothing(moves@);
                    lemma_append_assoc(
                        old(moves)@,
                        seq![move_of(square as int, forward as int, promotion)],
                        no_moves(),
                    );
                }
            }
        } else {
            proof {
                lemma_append_nothing(moves@);
            }
        }
    }

    /// Appends the en-passant capture of the pawn of `colour` on `square`,
    /// if it stands diagonally behind the target.
    fn emit_en_passant(&self, moves: &mut Vec<ChessMove>, square: usize, colour: PieceColour)
        requires
            square < 64,
        ensures
            final(moves)@ == old(moves)@ + Self::pawn_en_passant(
                square as int,
                colour,
                self.en_passant_square,
            ),
    {
        match self.en_passant_square {
            Some(target) => {
                let behind = match colour {
                    PieceColour::White => target >= 7 && (square == target - 7 || (target >= 9
                        && square == target - 9)),
                    PieceColour::Black => target <= 56 && (square == target + 7 || square
                        == target + 9),
                };
                if behind {
                    emit(moves, square, target, None);
                    return ;
                }
            },
            None => {},
        }
        proof {
            lemma_append_nothing(moves@);
        }
    }

    /// Appends the jumps of the knight on `square`.
    pub fn generate_knight_moves(&self, square: usize, moves: &mut Vec<ChessMove>)
        requires
            square < 64,
        ensures
            final(moves)@ == old(moves)@ + spec_knight_moves(square as int),
    {
        let ghost base = moves@;
        emit_knight_jump(moves, square, 17, 1);
        let ghost part0 = knight_jump(square as int, 17, 1);
        emit_knight_jump(moves, square, 15, 1);
        let ghost part1 = part0 + knight_jump(square as int, 15, 1);
        proof {
            lemma_append_assoc(base, part0, knight_jump(square as int, 15, 1));
        }
        emit_knight_jump(moves, square, 10, 2);
        let ghost part2 = part1 + knight_jump(square as int, 10, 2);
        proof {
            lemma_append_assoc(base, part1, knight_jump(square as int, 10, 2));
        }
        emit_knight_jump(moves, square, 6, 2);
        let ghost part3 = part2 + knight_jump(square as int, 6, 2);
        proof {
            lemma_append_assoc(base, part2, knight_jump(square as int, 6, 2));
        }
        emit_knight_jump(moves, square, -17, 1);
        let ghost part4 = part3 + knight_jump(square as int, -17, 1);
        proof {
            lemma_append_assoc(base, part3, knight_jump(square as int, -17, 1));
        }
        emit_knight_jump(moves, square, -15, 1);
        let ghost part5 = part4 + knight_jump(square as int, -15, 1);
        proof {
            lemma_append_assoc(base, part4, knight_jump(square as int, -15, 1));
        }
        emit_knight_jump(moves, square, -10, 2);
        let ghost part6 = part5 + knight_jump(square as int, -10, 2);
        proof {
            lemma_append_assoc(base, part5, knight_jump(square as int, -10, 2));
        }
        emit_knight_jump(moves, square, -6, 2);
        let ghost part7 = part6 + knight_jump(square as int, -6, 2);
        proof {
            lemma_append_assoc(base, part6, knight_jump(square as int, -6, 2));
        }
    }

    /// Appends the moves along the ray from `square` in steps of
    /// `direction`.
    fn emit_ray(&self, square: usize, direction: isize, moves: &mut Vec<ChessMove>)
        requires
            square < 64,
            direction != 0,
            -64 <= direction <= 64,
        ensures
            final(moves)@ == old(moves)@ + self.slide(
                square as int,
                square as int,
                direction as int,
            ),
    {
        let ghost whole = self.slide(square as int, square as int, direction as int);
        let mut target: isize = square as isize + direction;
        while target >= 0 && target < 64
            invariant_except_break
                moves@ + self.slide(square as int, target - direction, direction as int) == old(
                    moves,
                )@ + whole,
            invariant
                square < 64,
                direction != 0,
                -64 <= direction <= 64,
                -64 <= target <= 127,
            ensures
                moves@ == old(moves)@ + whole,
            decreases
                    (if direction > 0 {
                        128 - target
                    } else {
                        target + 65
                    }),
        {
            let ghost listed = moves@;
            let ghost rest = self.slide(square as int, target - direction, direction as int);
            if self.all_pieces.is_set(target as usize) {
                if self.is_opponent_piece(target as usize, self.to_move) {
                    emit(moves, square, target as usize, None);
                }
                proof {
                    lemma_append_nothing(listed);
                    assert(moves@ == listed + rest);
                }
                break ;
            }
            emit(moves, square, target as usize, None);
            proof {
                lemma_append_assoc(
                    listed,
                    seq![move_of(square as int, target as int, None)],
                    self.slide(square as int, target as int, direction as int),
                );
            }
            target += direction;
        }
        proof {
            lemma_append_nothing(moves@);
        }
    }

    /// Appends the moves along each ray of `directions`, in their order. A
    /// direction of 0, or one that leads off the board at its first step
    /// from any square, gives no move.
    pub fn generate_sliding_moves(
        &self,
        square: usize,
        directions: &[isize],
        moves: &mut Vec<ChessMove>,
    )
        requires
            square < 64,
        ensures
            final(moves)@ == old(moves)@ + self.slides(square as int, directions@),
    {
        let ghost base = moves@;
        let mut i: usize = 0;
        proof {
            assert(directions@.take(0) =~= Seq::<isize>::empty());
            lemma_append_nothing(base);
        }
        while i < directions.len()
            invariant
                square < 64,
                i <= directions@.len(),
                moves@ == base + self.slides(square as int, directions@.take(i as int)),
            decreases directions@.len() - i,
        {
            let direction = directions[i];
            let ghost sofar = self.slides(square as int, directions@.take(i as int));
            if direction != 0 && -64 <= direction && direction <= 64 {
                self.emit_ray(square, direction, moves);
            } else {
                proof {
                    lemma_append_nothing(moves@);
                }
            }
            proof {
                let next = directions@.take(i + 1);
                assert(next.drop_last() =~= directions@.take(i as int));
                assert(next.last() == direction);
                lemma_append_assoc(
                    base,
                    sofar,
                    self.slide(square as int, square as int, direction as int),
                );
            }
            i += 1;
        }
        proof {
            assert(directions@.take(i as int) =~= directions@);
        }
    }

    /// The moves along each ray of `directions`, in their order.
    pub open spec fn slides(&self, from: int, directions: Seq<isize>) -> Seq<ChessMove>
        decreases directions.len(),
    {
        if directions.len() == 0 {
            no_moves()
        } else {
            self.slides(from, directions.drop_last()) + self.slide(
                from,
                from,
                directions.last() as int,
            )
        }
    }

    /// Appends the moves of the bishop on `square`.
    pub fn generate_bishop_moves(&self, square: usize, moves: &mut Vec<ChessMove>)
        requires
            square < 64,
        ensures
            final(moves)@ == old(moves)@ + self.spec_bishop_moves(square as int),
    {
        let ghost base = moves@;
        self.emit_ray(square, 9, moves);
        let ghost part0 = self.slide(square as int, square as int, 9);
        self.emit_ray(square, 7, moves);
        let ghost part1 = part0 + self.slide(square as int, square as int, 7);
        proof {
            lemma_append_assoc(base, part0, self.slide(square as int, square as int, 7));
        }
        self.emit_ray(square, -9, moves);
        let ghost part2 = part1 + self.slide(square as int, square as int, -9);
        proof {
            lemma_append_assoc(base, part1, self.slide(square as int, square as int, -9));
        }
        self.emit_ray(square, -7, moves);
        let ghost part3 = part2 + self.slide(square as int, square as int, -7);
        proof {
            lemma_append_assoc(base, part2, self.slide(square as int, square as int, -7));
        }
    }

    /// Appends the moves of the rook on `square`.
    pub fn generate_rook_moves(&self, square: usize, moves: &mut Vec<ChessMove>)
        requires
            square < 64,
        ensures
            final(moves)@ == old(moves)@ + self.spec_rook_moves(square as int),
    {
        let ghost base = moves@;
        self.emit_ray(square, 8, moves);
        let ghost part0 = self.slide(square as int, square as int, 8);
        self.emit_ray(square, -8, moves);
        let ghost part1 = part0 + self.slide(square as int, square as int, -8);
        proof {
            lemma_append_assoc(base, part0, self.slide(square as int, square as int, -8));
        }
        self.emit_ray(square, 1, moves);
        let ghost part2 = part1 + self.slide(square as int, square as int, 1);
        proof {
            lemma_append_assoc(base, part1, self.slide(square as int, square as int, 1));
        }
        self.emit_ray(square, -1, moves);
        let ghost part3 = part2 + self.slide(square as int, square as int, -1);
        proof {
            lemma_append_assoc(base, part2, self.slide(square as int, square as int, -1));
        }
    }

    /// Appends the moves of the queen on `square`.
    pub fn generate_queen_moves(&self, square: usize, moves: &mut Vec<ChessMove>)
        requires
            square < 64,
        ensures
            final(moves)@ == old(moves)@ + self.spec_queen_moves(square as int),
    {
        let ghost base = moves@;
        self.generate_bishop_moves(square, moves);
        self.generate_rook_moves(square, moves);
        proof {
            lemma_append_assoc(
                base,
                self.spec_bishop_moves(square as int),
                self.spec_rook_moves(square as int),
            );
        }
    }

    /// Appends the step of a king from `square` by `offset`, if there is
    /// one.
    fn emit_king_step(&self, moves: &mut Vec<ChessMove>, square: usize, offset: isize)
        requires
            square < 64,
            -9 <= offset <= 9,
        ensures
            final(moves)@ == old(moves)@ + self.king_step(square as int, offset as int),
    {
        let target: isize = square as isize + offset;
        if target >= 0 && target < 64 && (!self.all_pieces.is_set(target as usize)
            || self.is_opponent_piece(target as usize, self.to_move)) {
            emit(moves, square, target as usize, None);
        } else {
            proof {
                lemma_append_nothing(moves@);
            }
        }
    }

    /// Appends the moves of the king on `square`: its steps, and the
    /// castling moves of the side to move. Before a castling move is listed
    /// the three squares that the king passes are probed once more.
    pub fn generate_king_moves(&self, square: usize, moves: &mut Vec<ChessMove>)
        requires
            square < 64,
        ensures
            final(moves)@ == old(moves)@ + self.spec_king_moves(square as int),
    {
        let ghost base = moves@;
        self.emit_king_step(moves, square, 9);
        let ghost part0 = self.king_step(square as int, 9);
        self.emit_king_step(moves, square, 7);
        let ghost part1 = part0 + self.king_step(square as int, 7);
        proof {
            lemma_append_assoc(base, part0, self.king_step(square as int, 7));
        }
        self.emit_king_step(moves, square, -9);
        let ghost part2 = part1 + self.king_step(square as int, -9);
        proof {
            lemma_append_assoc(base, part1, self.king_step(square as int, -9));
        }
        self.emit_king_step(moves, square, -7);
        let ghost part3 = part2 + self.king_step(square as int, -7);
        proof {
            lemma_append_assoc(base, part2, self.king_step(square as int, -7));
        }
        self.emit_king_step(moves, square, 8);
        let ghost part4 = part3 + self.king_step(square as int, 8);
        proof {
            lemma_append_assoc(base, part3, self.king_step(square as int, 8));
        }
        self.emit_king_step(moves, square, -8);
        let ghost part5 = part4 + self.king_step(square as int, -8);
        proof {
            lemma_append_assoc(base, part4, self.king_step(square as int, -8));
        }
        self.emit_king_step(moves, square, 1);
        let ghost part6 = part5 + self.king_step(square as int, 1);
        proof {
            lemma_append_assoc(base, part5, self.king_step(square as int, 1));
        }
        self.emit_king_step(moves, square, -1);
        let ghost part7 = part6 + self.king_step(square as int, -1);
        proof {
            lemma_append_assoc(base, part6, self.king_step(square as int, -1));
        }
        let ghost stepped = moves@;
        let king_from: usize = match self.to_move {
            PieceColour::White => 4,
            PieceColour::Black => 60,
        };
        if self.can_castle_kingside(self.to_move) {
            if self.is_square_safe(king_from) && self.is_square_safe(king_from + 1)
                && self.is_square_safe(king_from + 2) {
                emit(moves, king_from, king_from + 2, None);
            }
        }
        let ghost kingside = moves@;
        if self.can_castle_queenside(self.to_move) {
            if self.is_square_safe(king_from) && self.is_square_safe(king_from - 1)
                && self.is_square_safe(king_from - 2) {
                emit(moves, king_from, king_from - 2, None);
            }
        }
        proof {
            let a = home_rank_start(self.to_move);
            let short = if self.spec_can_castle_kingside(self.to_move) {
                seq![move_of(a + 4, a + 6, None)]
            } else {
                no_moves()
            };
            let long = if self.spec_can_castle_queenside(self.to_move) {
                seq![move_of(a + 4, a + 2, None)]
            } else {
                no_moves()
            };
            lemma_append_nothing(stepped);
            assert(kingside == stepped + short);
            lemma_append_nothing(kingside);
            assert(moves@ == kingside + long);
            lemma_append_assoc(stepped, short, long);
            lemma_append_assoc(base, part7, self.castling_moves());
        }
    }
    /// The moves of what stands on `sq`, if `sq` is a member of `pieces`
    /// and a piece of the side to move stands there; no move otherwise.
    pub open spec fn square_moves(&self, pieces: BitBoard, sq: int) -> Seq<ChessMove> {
        match self.spec_piece_at(sq) {
            Some(piece) => if pieces.has(sq) && piece.colour == self.to_move {
                match piece.kind {
                    PieceKind::Pawn => self.spec_pawn_moves(sq, piece.colour),
                    PieceKind::Knight => spec_knight_moves(sq),
                    PieceKind::Bishop => self.spec_bishop_moves(sq),
                    PieceKind::Rook => self.spec_rook_moves(sq),
                    PieceKind::Queen => self.spec_queen_moves(sq),
                    PieceKind::King => self.spec_king_moves(sq),
                }
            } else {
                no_moves()
            },
            None => no_moves(),
        }
    }

    /// The moves from the squares `sq`, `sq + 1`, .. 63 in that order.
    pub open spec fn moves_from(&self, pieces: BitBoard, sq: int) -> Seq<ChessMove>
        decreases 64 - sq,
    {
        if sq < 0 || sq >= 64 {
            no_moves()
        } else {
            self.square_moves(pieces, sq) + self.moves_from(pieces, sq + 1)
        }
    }

    /// The aggregate of the side to move.
    pub open spec fn side_pieces(&self) -> BitBoard {
        match self.to_move {
            PieceColour::White => self.all_white,
            PieceColour::Black => self.all_black,
        }
    }

    /// The pseudo-legal moves of the side to move, square by square in
    /// ascending order. A move that leaves the mover's king attacked is not
    /// left out.
    pub open spec fn spec_generate_moves(&self) -> Seq<ChessMove> {
        self.moves_from(self.side_pieces(), 0)
    }

    /// Lists the pseudo-legal moves of the side to move. The position is
    /// read, not changed: the en-passant target is set by playing a move,
    /// never by listing one. Every move listed can be played, where the
    /// en-passant target, if any, is on the board.
    pub fn generate_moves(&mut self) -> (moves: Vec<ChessMove>)
        ensures
            moves@ == old(self).spec_generate_moves(),
            *final(self) == *old(self),
            old(self).target_on_board() ==> final(self).all_playable(moves@),
    {
        let mut moves: Vec<ChessMove> = Vec::new();
        let pieces = match self.to_move {
            PieceColour::White => self.all_white,
            PieceColour::Black => self.all_black,
        };
        self.generate_colour_moves(&pieces, &mut moves);
        proof {
            lemma_append_nothing(old(self).spec_generate_moves());
            if old(self).target_on_board() {
                old(self).lemma_generated_moves_are_playable();
            }
        }
        moves
    }

    /// Appends the moves of the pieces of the side to move that stand on
    /// the members of `pieces`, in ascending order of the squares.
    pub fn generate_colour_moves(&mut self, pieces: &BitBoard, moves: &mut Vec<ChessMove>)
        ensures
            final(moves)@ == old(moves)@ + old(self).moves_from(*pieces, 0),
            *final(self) == *old(self),
    {
        let ghost start = *self;
        let ghost base = moves@;
        let mut square: usize = 0;
        proof {
            lemma_append_nothing(base);
        }
        let ghost mut listed: Seq<ChessMove> = no_moves();
        while square < 64
            invariant
                square <= 64,
                *self == start,
                moves@ == base + listed,
                listed + start.moves_from(*pieces, square as int) == start.moves_from(*pieces, 0),
            decreases 64 - square,
        {
            let ghost found = start.square_moves(*pieces, square as int);
            if pieces.is_set(square) {
                match self.piece_at(square) {
                    Some(piece) => {
                        if piece.colour == self.to_move {
                            match piece.kind {
                                PieceKind::Pawn => self.generate_pawn_moves(
                                    square,
                                    piece.colour,
                                    moves,
                                ),
                                PieceKind::Knight => self.generate_knight_moves(square, moves),
                                PieceKind::Bishop => self.generate_bishop_moves(square, moves),
                                PieceKind::Rook => self.generate_rook_moves(square, moves),
                                PieceKind::Queen => self.generate_queen_moves(square, moves),
                                PieceKind::King => self.generate_king_moves(square, moves),
                            }
                        } else {
                            proof {
                                lemma_append_nothing(moves@);
                            }
                        }
                    },
                    None => {
                        proof {
                            lemma_append_nothing(moves@);
                        }
                    },
                }
            } else {
                proof {
                    lemma_append_nothing(moves@);
                }
            }
            proof {
                assert(moves@ == (base + listed) + found);
                lemma_append_assoc(base, listed, found);
                lemma_append_assoc(listed, found, start.moves_from(*pieces, square + 1));
                listed = listed + found;
            }
            square += 1;
        }
        proof {
            lemma_append_nothing(listed);
        }
    }

    /// Listing the moves twice gives the same moves twice. Stated of two
    /// calls of `generate_moves` in a row, by what each call promises: the
    /// moves of the position it finds, and the position as it found it.
    pub proof fn lemma_generation_repeats(
        before: BoardState,
        first: Seq<ChessMove>,
        between: BoardState,
        second: Seq<ChessMove>,
        after: BoardState,
    )
        requires
            first == before.spec_generate_moves(),
            between == before,
            second == between.spec_generate_moves(),
            after == between,
        ensures
            second == first,
            second.to_multiset() == first.to_multiset(),
            after == before,
    {
    }
}

} // verus!
