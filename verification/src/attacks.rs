//! Which squares the side not to move attacks, and when castling is open.
//!
//! Attacks go by rank and file: a probe or a ray that would leave the board
//! over one of its four edges ends there.

use vstd::prelude::*;
use crate::board::{on_board, BoardState};
use crate::pieces::{Piece, PieceColour, PieceKind};

verus! {

/// The first square of a rank, by colour: 0 for white, 56 for black.
pub open spec fn home_rank_start(colour: PieceColour) -> int {
    match colour {
        PieceColour::White => 0,
        PieceColour::Black => 56,
    }
}

/// The square that lies `ranks` ranks above and `files` files to the right
/// of `sq`, if there is one on the board.
pub open spec fn shifted(sq: int, ranks: int, files: int) -> Option<int> {
    let rank = sq / 8 + ranks;
    let file = sq % 8 + files;
    if on_board(sq) && 0 <= rank < 8 && 0 <= file < 8 {
        Some(rank * 8 + file)
    } else {
        None
    }
}

/// How many steps of (`ranks`, `files`) can at most follow from `sq` before
/// the board ends.
pub open spec fn steps_left(sq: int, ranks: int, files: int) -> int {
    if ranks > 0 {
        7 - sq / 8
    } else if ranks < 0 {
        sq / 8
    } else if files > 0 {
        7 - sq % 8
    } else {
        sq % 8
    }
}

/// The square `steps` steps of (`ranks`, `files`) away from `sq`, if the
/// board reaches that far.
pub open spec fn along(sq: int, ranks: int, files: int, steps: int) -> Option<int> {
    shifted(sq, steps * ranks, steps * files)
}

/// A step from `sq` to `next`, then `steps` more, is `steps + 1` steps
/// from `sq`.
pub proof fn lemma_along_step(sq: int, next: int, ranks: int, files: int, steps: int)
    requires
        shifted(sq, ranks, files) == Some(next),
    ensures
        along(next, ranks, files, steps) == along(sq, ranks, files, steps + 1),
        along(sq, ranks, files, 1) == Some(next),
{
    assert((steps + 1) * ranks == steps * ranks + ranks) by (nonlinear_arith);
    assert((steps + 1) * files == steps * files + files) by (nonlinear_arith);
}

/// Computes the square `ranks` ranks above and `files` files to the right
/// of `square`.
fn shift(square: usize, ranks: isize, files: isize) -> (r: Option<usize>)
    requires
        square < 64,
        -2 <= ranks <= 2,
        -2 <= files <= 2,
    ensures
        match r {
            Some(target) => shifted(square as int, ranks as int, files as int) == Some(
                target as int,
            ) && target < 64,
            None => shifted(square as int, ranks as int, files as int).is_none(),
        },
{
    let rank: isize = (square / 8) as isize + ranks;
    let file: isize = (square % 8) as isize + files;
    if 0 <= rank && rank < 8 && 0 <= file && file < 8 {
        Some((rank * 8 + file) as usize)
    } else {
        None
    }
}

impl BoardState {
    /// Whether `piece` stands `ranks` ranks above and `files` files to the
    /// right of `sq`.
    pub open spec fn stands_at(&self, sq: int, ranks: int, files: int, piece: Piece) -> bool {
        match shifted(sq, ranks, files) {
            Some(target) => self.spec_piece_at(target) == Some(piece),
            None => false,
        }
    }

    /// Whether a pawn of colour `by` attacks `sq`: it stands one rank
    /// behind `sq`, seen from its side, on a neighbouring file.
    pub open spec fn pawn_attacks(&self, sq: int, by: PieceColour) -> bool {
        let pawn = Piece { kind: PieceKind::Pawn, colour: by };
        match by {
            PieceColour::White => self.stands_at(sq, -1, -1, pawn) || self.stands_at(
                sq,
                -1,
                1,
                pawn,
            ),
            PieceColour::Black => self.stands_at(sq, 1, 1, pawn) || self.stands_at(
                sq,
                1,
                -1,
                pawn,
            ),
        }
    }

    /// Whether a knight of colour `by` stands a knight's jump from `sq`:
    /// two ranks and one file away, or one rank and two files.
    pub open spec fn knight_attacks(&self, sq: int, by: PieceColour) -> bool {
        let knight = Piece { kind: PieceKind::Knight, colour: by };
        self.stands_at(sq, 2, 1, knight) || self.stands_at(sq, 2, -1, knight) || self.stands_at(
            sq,
            1,
            2,
            knight,
        ) || self.stands_at(sq, 1, -2, knight) || self.stands_at(sq, -2, -1, knight)
            || self.stands_at(sq, -2, 1, knight) || self.stands_at(sq, -1, -2, knight)
            || self.stands_at(sq, -1, 2, knight)
    }

    /// Whether the king of colour `by` stands on one of the squares next
    /// to `sq`.
    pub open spec fn king_attacks(&self, sq: int, by: PieceColour) -> bool {
        let king = Piece { kind: PieceKind::King, colour: by };
        self.stands_at(sq, 1, 1, king) || self.stands_at(sq, 1, -1, king) || self.stands_at(
            sq,
            -1,
            -1,
            king,
        ) || self.stands_at(sq, -1, 1, king) || self.stands_at(sq, 1, 0, king) || self.stands_at(
            sq,
            -1,
            0,
            king,
        ) || self.stands_at(sq, 0, 1, king) || self.stands_at(sq, 0, -1, king)
    }

    /// The first occupied square met when walking from `from` in steps of
    /// (`ranks`, `files`), `from` itself not counted; `None` when the walk
    /// reaches an edge of the board before it meets a piece.
    pub open spec fn ray_blocker(&self, from: int, ranks: int, files: int) -> Option<int>
        decreases steps_left(from, ranks, files),
    {
        match shifted(from, ranks, files) {
            Some(next) => if ranks == 0 && files == 0 {
                None
            } else if self.spec_piece_at(next).is_some() {
                Some(next)
            } else {
                self.ray_blocker(next, ranks, files)
            },
            None => None,
        }
    }

    /// Whether `target` lies `steps` steps from `sq` along (`ranks`,
    /// `files`), is occupied, and every square strictly between the two is
    /// empty.
    pub open spec fn first_on_ray(
        &self,
        sq: int,
        ranks: int,
        files: int,
        steps: int,
        target: int,
    ) -> bool {
        &&& steps >= 1
        &&& along(sq, ranks, files, steps) == Some(target)
        &&& self.spec_piece_at(target).is_some()
        &&& forall|j: int|
            1 <= j < steps ==> (#[trigger] along(sq, ranks, files, j) matches Some(between)
                && self.spec_piece_at(between).is_none())
    }

    /// An occupied square with nothing between it and `sq` is the blocker
    /// of its ray.
    pub proof fn lemma_first_on_ray_is_blocker(
        &self,
        sq: int,
        ranks: int,
        files: int,
        steps: int,
        target: int,
    )
        requires
            ranks != 0 || files != 0,
            self.first_on_ray(sq, ranks, files, steps, target),
        ensures
            self.ray_blocker(sq, ranks, files) == Some(target),
        decreases steps,
    {
        if steps == 1 {
            assert(along(sq, ranks, files, 1) == shifted(sq, ranks, files));
        } else {
            let next = along(sq, ranks, files, 1).unwrap();
            assert(shifted(sq, ranks, files) == Some(next));
            assert(self.spec_piece_at(next).is_none());
            lemma_along_step(sq, next, ranks, files, steps - 1);
            assert forall|j: int| 1 <= j < steps - 1 implies (#[trigger] along(
                next,
                ranks,
                files,
                j,
            ) matches Some(between) && self.spec_piece_at(between).is_none()) by {
                lemma_along_step(sq, next, ranks, files, j);
                assert(along(sq, ranks, files, j + 1) matches Some(between) && self.spec_piece_at(
                    between,
                ).is_none());
            }
            self.lemma_first_on_ray_is_blocker(next, ranks, files, steps - 1, target);
        }
    }

    /// The blocker of a ray is an occupied square on it with nothing
    /// between it and `sq`; the result is its distance in steps.
    pub proof fn lemma_blocker_is_first_on_ray(&self, sq: int, ranks: int, files: int) -> (steps:
        int)
        requires
            self.ray_blocker(sq, ranks, files).is_some(),
        ensures
            self.first_on_ray(sq, ranks, files, steps, self.ray_blocker(sq, ranks, files).unwrap()),
        decreases steps_left(sq, ranks, files),
    {
        let next = shifted(sq, ranks, files).unwrap();
        lemma_along_step(sq, next, ranks, files, 0);
        if self.spec_piece_at(next).is_some() {
            1
        } else {
            let further = self.lemma_blocker_is_first_on_ray(next, ranks, files);
            lemma_along_step(sq, next, ranks, files, further);
            assert forall|j: int| 1 <= j < further + 1 implies (#[trigger] along(
                sq,
                ranks,
                files,
                j,
            ) matches Some(between) && self.spec_piece_at(between).is_none()) by {
                if j > 1 {
                    lemma_along_step(sq, next, ranks, files, j - 1);
                    assert(along(next, ranks, files, j - 1) matches Some(between)
                        && self.spec_piece_at(between).is_none());
                }
            }
            further + 1
        }
    }

    /// Whether a piece of colour `by` that moves along (`ranks`, `files`)
    /// stands on `target`: a queen, a bishop where the step is diagonal, a
    /// rook where it is along a rank or a file.
    pub open spec fn slides_along(&self, target: int, ranks: int, files: int, by: PieceColour) -> bool {
        let diagonal = ranks != 0 && files != 0;
        match self.spec_piece_at(target) {
            Some(piece) => piece.colour == by && (piece.kind == PieceKind::Queen || (piece.kind
                == PieceKind::Bishop && diagonal) || (piece.kind == PieceKind::Rook && !diagonal)),
            None => false,
        }
    }

    /// Whether the piece that blocks the ray from `sq` along (`ranks`,
    /// `files`) is of colour `by` and moves along that ray.
    pub open spec fn ray_attacks(&self, sq: int, ranks: int, files: int, by: PieceColour) -> bool {
        match self.ray_blocker(sq, ranks, files) {
            None => false,
            Some(blocker) => self.slides_along(blocker, ranks, files, by),
        }
    }

    /// A ray attack is a sliding piece of the right kind and colour on the
    /// line, with every square strictly between it and `sq` empty.
    pub proof fn lemma_ray_attack_means(&self, sq: int, ranks: int, files: int, by: PieceColour)
        requires
            ranks != 0 || files != 0,
        ensures
            self.ray_attacks(sq, ranks, files, by) <==> exists|steps: int, target: int|
                #[trigger] self.first_on_ray(sq, ranks, files, steps, target) && self.slides_along(
                    target,
                    ranks,
                    files,
                    by,
                ),
    {
        if self.ray_attacks(sq, ranks, files, by) {
            let steps = self.lemma_blocker_is_first_on_ray(sq, ranks, files);
            let target = self.ray_blocker(sq, ranks, files).unwrap();
            assert(self.first_on_ray(sq, ranks, files, steps, target) && self.slides_along(
                target,
                ranks,
                files,
                by,
            ));
        }
        if exists|steps: int, target: int|
            #[trigger] self.first_on_ray(sq, ranks, files, steps, target) && self.slides_along(
                target,
                ranks,
                files,
                by,
            ) {
            let (steps, target) = choose|steps: int, target: int|
                #[trigger] self.first_on_ray(sq, ranks, files, steps, target) && self.slides_along(
                    target,
                    ranks,
                    files,
                    by,
                );
            self.lemma_first_on_ray_is_blocker(sq, ranks, files, steps, target);
        }
    }

    /// Whether a bishop, rook or queen of colour `by` attacks `sq` along
    /// one of the eight rays.
    pub open spec fn slider_attacks(&self, sq: int, by: PieceColour) -> bool {
        self.ray_attacks(sq, 1, 1, by) || self.ray_attacks(sq, 1, -1, by) || self.ray_attacks(
            sq,
            -1,
            -1,
            by,
        ) || self.ray_attacks(sq, -1, 1, by) || self.ray_attacks(sq, 1, 0, by) || self.ray_attacks(
            sq,
            -1,
            0,
            by,
        ) || self.ray_attacks(sq, 0, 1, by) || self.ray_attacks(sq, 0, -1, by)
    }

    /// Whether some piece of colour `by` attacks `sq`.
    pub open spec fn attacked_by(&self, sq: int, by: PieceColour) -> bool {
        self.pawn_attacks(sq, by) || self.knight_attacks(sq, by) || self.slider_attacks(sq, by)
            || self.king_attacks(sq, by)
    }

    /// A square is safe when no piece of the side that is not to move
    /// attacks it.
    pub open spec fn spec_is_square_safe(&self, sq: int) -> bool {
        !self.attacked_by(sq, self.to_move.opposite())
    }

    /// Tells whether `piece` stands `ranks` ranks above and `files` files
    /// to the right of `square`.
    fn probe(&self, square: usize, ranks: isize, files: isize, piece: Piece) -> (r: bool)
        requires
            square < 64,
            -2 <= ranks <= 2,
            -2 <= files <= 2,
        ensures
            r == self.stands_at(square as int, ranks as int, files as int, piece),
    {
        match shift(square, ranks, files) {
            Some(target) => match self.piece_at(target) {
                Some(found) => found.kind == piece.kind && found.colour == piece.colour,
                None => false,
            },
            None => false,
        }
    }

    /// Walks the ray from `square` along (`ranks`, `files`) up to its first
    /// occupied square and tells whether the piece there attacks along the
    /// ray.
    fn probe_ray(&self, square: usize, ranks: isize, files: isize, by: PieceColour) -> (r: bool)
        requires
            square < 64,
            -1 <= ranks <= 1,
            -1 <= files <= 1,
            ranks != 0 || files != 0,
        ensures
            r == self.ray_attacks(square as int, ranks as int, files as int, by),
    {
        let diagonal = ranks != 0 && files != 0;
        let mut current: usize = square;
        loop
            invariant
                current < 64,
                -1 <= ranks <= 1,
                -1 <= files <= 1,
                ranks != 0 || files != 0,
                diagonal == (ranks != 0 && files != 0),
                self.ray_blocker(current as int, ranks as int, files as int) == self.ray_blocker(
                    square as int,
                    ranks as int,
                    files as int,
                ),
            decreases steps_left(current as int, ranks as int, files as int),
        {
            match shift(current, ranks, files) {
                Some(next) => {
                    match self.piece_at(next) {
                        Some(piece) => {
                            return piece.colour == by && (piece.kind == PieceKind::Queen || (
                            piece.kind == PieceKind::Bishop && diagonal) || (piece.kind
                                == PieceKind::Rook && !diagonal));
                        },
                        None => {},
                    }
                    current = next;
                },
                None => {
                    return false;
                },
            }
        }
    }

    /// Tells whether `square` is safe: whether no pawn, knight, bishop,
    /// rook, queen or king of the side that is not to move attacks it. The
    /// probe goes outward from `square`; a sliding piece attacks only as far
    /// as the first occupied square of its ray. Whether the side to move is
    /// itself in check plays no part.
    pub fn is_square_safe(&self, square: usize) -> (r: bool)
        requires
            square < 64,
        ensures
            r == self.spec_is_square_safe(square as int),
    {
        let by = self.to_move.opposite();
        let pawn = Piece { kind: PieceKind::Pawn, colour: by };
        let pawn_hit = match by {
            PieceColour::White => self.probe(square, -1, -1, pawn) || self.probe(
                square,
                -1,
                1,
                pawn,
            ),
            PieceColour::Black => self.probe(square, 1, 1, pawn) || self.probe(
                square,
                1,
                -1,
                pawn,
            ),
        };
        if pawn_hit {
            return false;
        }
        let knight = Piece { kind: PieceKind::Knight, colour: by };
        if self.probe(square, 2, 1, knight) || self.probe(square, 2, -1, knight) || self.probe(
            square,
            1,
            2,
            knight,
        ) || self.probe(square, 1, -2, knight) || self.probe(square, -2, -1, knight) || self.probe(
            square,
            -2,
            1,
            knight,
        ) || self.probe(square, -1, -2, knight) || self.probe(square, -1, 2, knight) {
            return false;
        }
        if self.probe_ray(square, 1, 1, by) || self.probe_ray(square, 1, -1, by) || self.probe_ray(
            square,
            -1,
            -1,
            by,
        ) || self.probe_ray(square, -1, 1, by) || self.probe_ray(square, 1, 0, by)
            || self.probe_ray(square, -1, 0, by) || self.probe_ray(square, 0, 1, by)
            || self.probe_ray(square, 0, -1, by) {
            return false;
        }
        let king = Piece { kind: PieceKind::King, colour: by };
        if self.probe(square, 1, 1, king) || self.probe(square, 1, -1, king) || self.probe(
            square,
            -1,
            -1,
            king,
        ) || self.probe(square, -1, 1, king) || self.probe(square, 1, 0, king) || self.probe(
            square,
            -1,
            0,
            king,
        ) || self.probe(square, 0, 1, king) || self.probe(square, 0, -1, king) {
            return false;
        }
        true
    }

    /// Whether a king stands on `king_square` and a rook on `rook_square`,
    /// of either colour.
    pub open spec fn castling_pieces_present(&self, king_square: int, rook_square: int) -> bool {
        &&& self.spec_piece_at(king_square) matches Some(king) && king.kind == PieceKind::King
        &&& self.spec_piece_at(rook_square) matches Some(rook) && rook.kind == PieceKind::Rook
    }

    /// The castling right of `colour` on the king's side.
    pub open spec fn kingside_right(&self, colour: PieceColour) -> bool {
        match colour {
            PieceColour::White => self.castling_rights[0],
            PieceColour::Black => self.castling_rights[2],
        }
    }

    /// The castling right of `colour` on the queen's side.
    pub open spec fn queenside_right(&self, colour: PieceColour) -> bool {
        match colour {
            PieceColour::White => self.castling_rights[1],
            PieceColour::Black => self.castling_rights[3],
        }
    }

    /// Castling on the king's side is open to `colour`: the right is there,
    /// the f and g squares of its home rank are not in the aggregate of all
    /// pieces, the e, f and g squares are safe, and king and rook stand on
    /// the e and h squares.
    pub open spec fn spec_can_castle_kingside(&self, colour: PieceColour) -> bool {
        let a = home_rank_start(colour);
        &&& self.kingside_right(colour)
        &&& !self.all_pieces.has(a + 5)
        &&& !self.all_pieces.has(a + 6)
        &&& self.spec_is_square_safe(a + 4)
        &&& self.spec_is_square_safe(a + 5)
        &&& self.spec_is_square_safe(a + 6)
        &&& self.castling_pieces_present(a + 4, a + 7)
    }

    /// Castling on the queen's side is open to `colour`: the right is there,
    /// the b, c and d squares of its home rank are not in the aggregate of
    /// all pieces, the c, d and e squares are safe, and king and rook stand
    /// on the e and a squares.
    pub open spec fn spec_can_castle_queenside(&self, colour: PieceColour) -> bool {
        let a = home_rank_start(colour);
        &&& self.queenside_right(colour)
        &&& !self.all_pieces.has(a + 1)
        &&& !self.all_pieces.has(a + 2)
        &&& !self.all_pieces.has(a + 3)
        &&& self.spec_is_square_safe(a + 2)
        &&& self.spec_is_square_safe(a + 3)
        &&& self.spec_is_square_safe(a + 4)
        &&& self.castling_pieces_present(a + 4, a)
    }

    /// Tells whether `colour` may castle on the king's side.
    pub fn can_castle_kingside(&self, colour: PieceColour) -> (r: bool)
        ensures
            r == self.spec_can_castle_kingside(colour),
    {
        let a: usize = match colour {
            PieceColour::White => 0,
            PieceColour::Black => 56,
        };
        let rights = match colour {
            PieceColour::White => self.castling_rights[0],
            PieceColour::Black => self.castling_rights[2],
        };
        rights && !self.all_pieces.is_set(a + 5) && !self.all_pieces.is_set(a + 6)
            && self.is_square_safe(a + 4) && self.is_square_safe(a + 5) && self.is_square_safe(
            a + 6,
        ) && self.validate_castling_pieces(a + 4, a + 7)
    }

    /// Tells whether `colour` may castle on the queen's side.
    pub fn can_castle_queenside(&self, colour: PieceColour) -> (r: bool)
        ensures
            r == self.spec_can_castle_queenside(colour),
    {
        let a: usize = match colour {
            PieceColour::White => 0,
            PieceColour::Black => 56,
        };
        let rights = match colour {
            PieceColour::White => self.castling_rights[1],
            PieceColour::Black => self.castling_rights[3],
        };
        rights && !self.all_pieces.is_set(a + 1) && !self.all_pieces.is_set(a + 2)
            && !self.all_pieces.is_set(a + 3) && self.is_square_safe(a + 2) && self.is_square_safe(
            a + 3,
        ) && self.is_square_safe(a + 4) && self.validate_castling_pieces(a + 4, a)
    }

    /// Tells whether a king stands on `king_square` and a rook on
    /// `rook_square`.
    pub fn validate_castling_pieces(&self, king_square: usize, rook_square: usize) -> (r: bool)
        requires
            king_square < 64,
            rook_square < 64,
        ensures
            r == self.castling_pieces_present(king_square as int, rook_square as int),
    {
        let king_there = match self.piece_at(king_square) {
            Some(piece) => piece.kind == PieceKind::King,
            None => false,
        };
        let rook_there = match self.piece_at(rook_square) {
            Some(piece) => piece.kind == PieceKind::Rook,
            None => false,
        };
        king_there && rook_there
    }

    /// Tells whether the king's square and the two squares above it are
    /// safe, `rook_square` is occupied, and none of `empty_squares` is,
    /// occupation going by the aggregate of all pieces.
    pub fn king_and_rook_can_castle(
        &self,
        king_square: usize,
        rook_square: usize,
        empty_squares: &[usize],
    ) -> (r: bool)
        requires
            king_square + 2 < 64,
            rook_square < 64,
            forall|i: int| 0 <= i < empty_squares@.len() ==> empty_squares@[i] < 64,
        ensures
            r == {
                &&& self.spec_is_square_safe(king_square as int)
                &&& self.spec_is_square_safe(king_square + 1)
                &&& self.spec_is_square_safe(king_square + 2)
                &&& self.all_pieces.has(rook_square as int)
                &&& forall|i: int|
                    0 <= i < empty_squares@.len() ==> !self.all_pieces.has(
                        #[trigger] empty_squares@[i] as int,
                    )
            },
    {
        if !(self.is_square_safe(king_square) && self.is_square_safe(king_square + 1)
            && self.is_square_safe(king_square + 2) && self.all_pieces.is_set(rook_square)) {
            return false;
        }
        let mut i: usize = 0;
        while i < empty_squares.len()
            invariant
                i <= empty_squares@.len(),
                forall|j: int| 0 <= j < empty_squares@.len() ==> empty_squares@[j] < 64,
                forall|j: int|
                    0 <= j < i ==> !self.all_pieces.has(#[trigger] empty_squares@[j] as int),
            decreases empty_squares@.len() - i,
        {
            if self.all_pieces.is_set(empty_squares[i]) {
                return false;
            }
            i += 1;
        }
        true
    }
}

} // verus!
