//! Bit sets over the squares and the position built from them: lookup and
//! placement of pieces, and the consistency of the aggregate sets.

use vstd::prelude::*;
use crate::bits::{
    bit_at, lemma_bit_after_clear, lemma_bit_after_set, lemma_bit_of_and, lemma_bit_of_or,
    lemma_bit_of_union, lemma_bit_of_zero,
};
use crate::pieces::{Piece, PieceColour, PieceKind};

verus! {

pub const BOARD_SIZE: usize = 8;

pub const TOTAL_SQUARES: usize = 64;

/// A set of squares, one bit per square: bit `i` is set exactly when square
/// `i` is a member.
#[derive(Clone, Copy, Debug, PartialEq, Eq, Structural)]
pub struct BitBoard(pub u64);

impl View for BitBoard {
    type V = Set<int>;

    /// The squares that are members.
    open spec fn view(&self) -> Set<int> {
        Set::new(|sq: int| self.has(sq))
    }
}

impl BitBoard {
    /// Whether square `sq` is a member.
    pub open spec fn has(&self, sq: int) -> bool {
        0 <= sq < 64 && bit_at(self.0, sq as u64)
    }

    /// The set without members.
    pub fn empty() -> (r: BitBoard)
        ensures
            r.0 == 0,
            r@ == Set::<int>::empty(),
            forall|sq: int| !r.has(sq),
    {
        let r = BitBoard(0);
        proof {
            assert forall|sq: int| !r.has(sq) by {
                if 0 <= sq < 64 {
                    lemma_bit_of_zero(sq as u64);
                }
            }
            assert(r@ =~= Set::<int>::empty());
        }
        r
    }

    /// Makes `square` a member.
    pub fn set(&mut self, square: usize)
        requires
            square < 64,
        ensures
            final(self).0 == old(self).0 | (1u64 << (square as u64)),
            final(self)@ == old(self)@.insert(square as int),
            forall|sq: int| #[trigger] final(self).has(sq) == (old(self).has(sq) || sq == square),
    {
        let ghost before = *self;
        self.0 = self.0 | (1u64 << (square as u64));
        proof {
            assert forall|sq: int| #[trigger] self.has(sq) == (before.has(sq) || sq == square as int) by {
                if 0 <= sq < 64 {
                    lemma_bit_after_set(before.0, square as u64, sq as u64);
                }
            }
            assert(self@ =~= before@.insert(square as int));
        }
    }

    /// Removes `square` from the members.
    pub fn clear(&mut self, square: usize)
        requires
            square < 64,
        ensures
            final(self).0 == old(self).0 & !(1u64 << (square as u64)),
            final(self)@ == old(self)@.remove(square as int),
            forall|sq: int| #[trigger] final(self).has(sq) == (old(self).has(sq) && sq != square),
    {
        let ghost before = *self;
        self.0 = self.0 & !(1u64 << (square as u64));
        proof {
            assert forall|sq: int| #[trigger] self.has(sq) == (before.has(sq) && sq != square as int) by {
                if 0 <= sq < 64 {
                    lemma_bit_after_clear(before.0, square as u64, sq as u64);
                }
            }
            assert(self@ =~= before@.remove(square as int));
        }
    }

    /// Tells whether `square` is a member.
    pub fn is_set(&self, square: usize) -> (r: bool)
        requires
            square < 64,
        ensures
            r == self.has(square as int),
            r == self@.contains(square as int),
    {
        self.0 & (1u64 << (square as u64)) != 0
    }
}

impl core::ops::BitAnd<u64> for BitBoard {
    type Output = BitBoard;

    /// The members that are also bits of `rhs`.
    fn bitand(self, rhs: u64) -> (r: BitBoard) {
        BitBoard(self.0 & rhs)
    }
}

impl vstd::std_specs::ops::BitAndSpecImpl<u64> for BitBoard {
    open spec fn obeys_bitand_spec() -> bool {
        true
    }

    open spec fn bitand_req(self, rhs: u64) -> bool {
        true
    }

    open spec fn bitand_spec(self, rhs: u64) -> BitBoard {
        BitBoard(self.0 & rhs)
    }
}

impl core::ops::BitOr<u64> for BitBoard {
    type Output = BitBoard;

    /// The members together with the bits of `rhs`.
    fn bitor(self, rhs: u64) -> (r: BitBoard) {
        BitBoard(self.0 | rhs)
    }
}

impl vstd::std_specs::ops::BitOrSpecImpl<u64> for BitBoard {
    open spec fn obeys_bitor_spec() -> bool {
        true
    }

    open spec fn bitor_req(self, rhs: u64) -> bool {
        true
    }

    open spec fn bitor_spec(self, rhs: u64) -> BitBoard {
        BitBoard(self.0 | rhs)
    }
}

/// Walks the members of a bit set in ascending order, one call of `next`
/// at a time; `BitBoard::iter` starts a new walk whenever it is called.
pub struct BitBoardIter {
    bitboard: BitBoard,
    index: usize,
}

impl BitBoardIter {
    /// The bit set that is walked.
    pub closed spec fn source(&self) -> BitBoard {
        self.bitboard
    }

    /// The square at which the walk goes on; 64 when it is over.
    pub closed spec fn cursor(&self) -> int {
        self.index as int
    }

    /// The next member at or after the cursor, or `None` when there is
    /// none; the cursor moves past what was looked at.
    pub fn next(&mut self) -> (r: Option<usize>)
        requires
            old(self).cursor() <= 64,
        ensures
            final(self).source() == old(self).source(),
            final(self).cursor() <= 64,
            match r {
                Some(square) => {
                    &&& old(self).cursor() <= square < 64
                    &&& old(self).source().has(square as int)
                    &&& forall|sq: int| old(self).cursor() <= sq < square ==> !old(self).source().has(sq)
                    &&& final(self).cursor() == square + 1
                },
                None => {
                    &&& forall|sq: int| old(self).cursor() <= sq < 64 ==> !old(self).source().has(sq)
                    &&& final(self).cursor() == 64
                },
            },
    {
        while self.index < 64
            invariant
                self.bitboard == old(self).bitboard,
                old(self).index <= self.index <= 64,
                forall|sq: int| old(self).index <= sq < self.index ==> !self.bitboard.has(sq),
            decreases 64 - self.index,
        {
            if self.bitboard.is_set(self.index) {
                let result = self.index;
                self.index += 1;
                return Some(result);
            }
            self.index += 1;
        }
        None
    }
}

impl BitBoard {
    /// Starts a walk over the members, in ascending order.
    pub fn iter(&self) -> (r: BitBoardIter)
        ensures
            r.source() == *self,
            r.cursor() == 0,
    {
        BitBoardIter { bitboard: *self, index: 0 }
    }

    /// Keeps the members that are also bits of `rhs`.
    pub fn bitand_assign(&mut self, rhs: u64)
        ensures
            final(self).0 == old(self).0 & rhs,
            forall|sq: int|
                0 <= sq < 64 ==> #[trigger] final(self).has(sq) == (old(self).has(sq) && bit_at(
                    rhs,
                    sq as u64,
                )),
    {
        let ghost before = *self;
        self.0 = self.0 & rhs;
        proof {
            assert forall|sq: int| 0 <= sq < 64 implies #[trigger] self.has(sq) == (before.has(sq)
                && bit_at(rhs, sq as u64)) by {
                lemma_bit_of_and(before.0, rhs, sq as u64);
            }
        }
    }

    /// Adds the bits of `rhs` to the members.
    pub fn bitor_assign(&mut self, rhs: u64)
        ensures
            final(self).0 == old(self).0 | rhs,
            forall|sq: int|
                0 <= sq < 64 ==> #[trigger] final(self).has(sq) == (old(self).has(sq) || bit_at(
                    rhs,
                    sq as u64,
                )),
    {
        let ghost before = *self;
        self.0 = self.0 | rhs;
        proof {
            assert forall|sq: int| 0 <= sq < 64 implies #[trigger] self.has(sq) == (before.has(sq)
                || bit_at(rhs, sq as u64)) by {
                lemma_bit_of_or(before.0, rhs, sq as u64);
            }
        }
    }
}

/// Whether `sq` is one of the 64 squares.
pub open spec fn on_board(sq: int) -> bool {
    0 <= sq < 64
}

/// The piece that stands on `sq` when a game starts, if any.
pub open spec fn initial_piece(sq: int) -> Option<Piece> {
    let colour = if sq < 32 {
        PieceColour::White
    } else {
        PieceColour::Black
    };
    let file = sq % 8;
    if !on_board(sq) || 16 <= sq < 48 {
        None
    } else if 8 <= sq < 56 {
        Some(Piece { kind: PieceKind::Pawn, colour })
    } else if file == 0 || file == 7 {
        Some(Piece { kind: PieceKind::Rook, colour })
    } else if file == 1 || file == 6 {
        Some(Piece { kind: PieceKind::Knight, colour })
    } else if file == 2 || file == 5 {
        Some(Piece { kind: PieceKind::Bishop, colour })
    } else if file == 3 {
        Some(Piece { kind: PieceKind::Queen, colour })
    } else {
        Some(Piece { kind: PieceKind::King, colour })
    }
}

/// A position: twelve bit sets, one per colour and kind, three aggregate
/// bit sets derived from them, the side to move, the four castling rights
/// (white kingside, white queenside, black kingside, black queenside) and
/// the en-passant target.
///
/// The fields are public, so a caller can put a position together by hand;
/// `wf` says when such a position is consistent.
#[derive(Debug, Clone)]
pub struct BoardState {
    pub white_pawns: BitBoard,
    pub black_pawns: BitBoard,
    pub white_knights: BitBoard,
    pub black_knights: BitBoard,
    pub white_bishops: BitBoard,
    pub black_bishops: BitBoard,
    pub white_rooks: BitBoard,
    pub black_rooks: BitBoard,
    pub white_queens: BitBoard,
    pub black_queens: BitBoard,
    pub white_king: BitBoard,
    pub black_king: BitBoard,
    pub all_white: BitBoard,
    pub all_black: BitBoard,
    pub all_pieces: BitBoard,
    pub to_move: PieceColour,
    pub castling_rights: [bool; 4],
    pub en_passant_square: Option<usize>,
}

impl BoardState {
    /// The bit set that holds the pieces of `kind` and `colour`.
    pub open spec fn board_of(&self, piece: Piece) -> BitBoard {
        match (piece.colour, piece.kind) {
            (PieceColour::White, PieceKind::Pawn) => self.white_pawns,
            (PieceColour::Black, PieceKind::Pawn) => self.black_pawns,
            (PieceColour::White, PieceKind::Knight) => self.white_knights,
            (PieceColour::Black, PieceKind::Knight) => self.black_knights,
            (PieceColour::White, PieceKind::Bishop) => self.white_bishops,
            (PieceColour::Black, PieceKind::Bishop) => self.black_bishops,
            (PieceColour::White, PieceKind::Rook) => self.white_rooks,
            (PieceColour::Black, PieceKind::Rook) => self.black_rooks,
            (PieceColour::White, PieceKind::Queen) => self.white_queens,
            (PieceColour::Black, PieceKind::Queen) => self.black_queens,
            (PieceColour::White, PieceKind::King) => self.white_king,
            (PieceColour::Black, PieceKind::King) => self.black_king,
        }
    }

    /// The piece on `sq`: the first of the twelve bit sets, in the fixed
    /// order pawns, knights, bishops, rooks, queens, kings and white before
    /// black, that has `sq` as a member.
    pub open spec fn spec_piece_at(&self, sq: int) -> Option<Piece> {
        if self.white_pawns.has(sq) {
            Some(Piece { kind: PieceKind::Pawn, colour: PieceColour::White })
        } else if self.black_pawns.has(sq) {
            Some(Piece { kind: PieceKind::Pawn, colour: PieceColour::Black })
        } else if self.white_knights.has(sq) {
            Some(Piece { kind: PieceKind::Knight, colour: PieceColour::White })
        } else if self.black_knights.has(sq) {
            Some(Piece { kind: PieceKind::Knight, colour: PieceColour::Black })
        } else if self.white_bishops.has(sq) {
            Some(Piece { kind: PieceKind::Bishop, colour: PieceColour::White })
        } else if self.black_bishops.has(sq) {
            Some(Piece { kind: PieceKind::Bishop, colour: PieceColour::Black })
        } else if self.white_rooks.has(sq) {
            Some(Piece { kind: PieceKind::Rook, colour: PieceColour::White })
        } else if self.black_rooks.has(sq) {
            Some(Piece { kind: PieceKind::Rook, colour: PieceColour::Black })
        } else if self.white_queens.has(sq) {
            Some(Piece { kind: PieceKind::Queen, colour: PieceColour::White })
        } else if self.black_queens.has(sq) {
            Some(Piece { kind: PieceKind::Queen, colour: PieceColour::Black })
        } else if self.white_king.has(sq) {
            Some(Piece { kind: PieceKind::King, colour: PieceColour::White })
        } else if self.black_king.has(sq) {
            Some(Piece { kind: PieceKind::King, colour: PieceColour::Black })
        } else {
            None
        }
    }

    /// Whether some white bit set has `sq`.
    pub open spec fn white_on(&self, sq: int) -> bool {
        self.white_pawns.has(sq) || self.white_knights.has(sq) || self.white_bishops.has(sq)
            || self.white_rooks.has(sq) || self.white_queens.has(sq) || self.white_king.has(sq)
    }

    /// Whether some black bit set has `sq`.
    pub open spec fn black_on(&self, sq: int) -> bool {
        self.black_pawns.has(sq) || self.black_knights.has(sq) || self.black_bishops.has(sq)
            || self.black_rooks.has(sq) || self.black_queens.has(sq) || self.black_king.has(sq)
    }

    /// At most one of the twelve bit sets has `sq`.
    pub open spec fn exclusive_at(&self, sq: int) -> bool {
        &&& self.holds_only(sq, Piece { kind: PieceKind::Pawn, colour: PieceColour::White })
        &&& self.holds_only(sq, Piece { kind: PieceKind::Pawn, colour: PieceColour::Black })
        &&& self.holds_only(sq, Piece { kind: PieceKind::Knight, colour: PieceColour::White })
        &&& self.holds_only(sq, Piece { kind: PieceKind::Knight, colour: PieceColour::Black })
        &&& self.holds_only(sq, Piece { kind: PieceKind::Bishop, colour: PieceColour::White })
        &&& self.holds_only(sq, Piece { kind: PieceKind::Bishop, colour: PieceColour::Black })
        &&& self.holds_only(sq, Piece { kind: PieceKind::Rook, colour: PieceColour::White })
        &&& self.holds_only(sq, Piece { kind: PieceKind::Rook, colour: PieceColour::Black })
        &&& self.holds_only(sq, Piece { kind: PieceKind::Queen, colour: PieceColour::White })
        &&& self.holds_only(sq, Piece { kind: PieceKind::Queen, colour: PieceColour::Black })
        &&& self.holds_only(sq, Piece { kind: PieceKind::King, colour: PieceColour::White })
        &&& self.holds_only(sq, Piece { kind: PieceKind::King, colour: PieceColour::Black })
    }

    /// If the bit set of `piece` has `sq`, no bit set before it in the
    /// lookup order has it.
    pub open spec fn holds_only(&self, sq: int, piece: Piece) -> bool {
        self.board_of(piece).has(sq) ==> self.spec_piece_at(sq) == Some(piece)
    }

    /// No square is a member of two of the twelve bit sets.
    pub open spec fn exclusive(&self) -> bool {
        forall|sq: int| on_board(sq) ==> #[trigger] self.exclusive_at(sq)
    }

    /// The three aggregate bit sets are the unions they stand for: the white
    /// sets, the black sets, and both.
    pub open spec fn aggregates_current(&self) -> bool {
        forall|sq: int|
            #![trigger self.all_white.has(sq)]
            #![trigger self.all_black.has(sq)]
            #![trigger self.all_pieces.has(sq)]
            on_board(sq) ==> {
                &&& self.all_white.has(sq) == self.white_on(sq)
                &&& self.all_black.has(sq) == self.black_on(sq)
                &&& self.all_pieces.has(sq) == (self.white_on(sq) || self.black_on(sq))
            }
    }

    /// The position is consistent: every square has at most one piece, and
    /// the aggregates are current.
    pub open spec fn wf(&self) -> bool {
        self.exclusive() && self.aggregates_current()
    }

    /// The twelve piece sets are those of `other`.
    pub open spec fn same_piece_sets(&self, other: &BoardState) -> bool {
        &&& self.white_pawns == other.white_pawns
        &&& self.black_pawns == other.black_pawns
        &&& self.white_knights == other.white_knights
        &&& self.black_knights == other.black_knights
        &&& self.white_bishops == other.white_bishops
        &&& self.black_bishops == other.black_bishops
        &&& self.white_rooks == other.white_rooks
        &&& self.black_rooks == other.black_rooks
        &&& self.white_queens == other.white_queens
        &&& self.black_queens == other.black_queens
        &&& self.white_king == other.white_king
        &&& self.black_king == other.black_king
    }

    /// The three aggregates are those of `other`.
    pub open spec fn same_aggregates(&self, other: &BoardState) -> bool {
        &&& self.all_white == other.all_white
        &&& self.all_black == other.all_black
        &&& self.all_pieces == other.all_pieces
    }

    /// Consistency is a matter of the bit sets alone: positions with the
    /// same piece sets have the same occupants and are exclusive together;
    /// with the same aggregates too, they are consistent together.
    pub proof fn lemma_same_piece_sets(&self, other: &BoardState)
        requires
            self.same_piece_sets(other),
        ensures
            forall|sq: int| #[trigger] self.spec_piece_at(sq) == other.spec_piece_at(sq),
            self.exclusive() == other.exclusive(),
            self.same_aggregates(other) ==> self.aggregates_current()
                == other.aggregates_current(),
            self.same_aggregates(other) ==> self.wf() == other.wf(),
    {
        assert forall|sq: int| #[trigger] self.exclusive_at(sq) == other.exclusive_at(sq) by {}
        if self.exclusive() {
            assert forall|sq: int| on_board(sq) implies #[trigger] other.exclusive_at(sq) by {
                assert(self.exclusive_at(sq));
            }
        }
        if other.exclusive() {
            assert forall|sq: int| on_board(sq) implies #[trigger] self.exclusive_at(sq) by {
                assert(other.exclusive_at(sq));
            }
        }
    }

    /// The squares of the six white piece sets.
    pub open spec fn white_squares(&self) -> Set<int> {
        self.white_pawns@.union(self.white_knights@).union(self.white_bishops@).union(
            self.white_rooks@,
        ).union(self.white_queens@).union(self.white_king@)
    }

    /// The squares of the six black piece sets.
    pub open spec fn black_squares(&self) -> Set<int> {
        self.black_pawns@.union(self.black_knights@).union(self.black_bishops@).union(
            self.black_rooks@,
        ).union(self.black_queens@).union(self.black_king@)
    }

    /// In a consistent position the aggregate of all pieces is the union of
    /// the twelve piece sets, the aggregate of each colour is the union of
    /// its six, and no square is both white and black.
    pub proof fn lemma_aggregates_are_unions(&self)
        requires
            self.wf(),
        ensures
            self.all_white@ == self.white_squares(),
            self.all_black@ == self.black_squares(),
            self.all_pieces@ == self.white_squares().union(self.black_squares()),
            self.all_white@.intersect(self.all_black@) == Set::<int>::empty(),
            forall|sq: int|
                #![trigger self.spec_piece_at(sq)]
                {
                    &&& self.all_pieces@.contains(sq) == self.spec_piece_at(sq).is_some()
                    &&& self.all_white@.contains(sq) == (self.spec_piece_at(sq) matches Some(piece)
                        && piece.colour == PieceColour::White)
                    &&& self.all_black@.contains(sq) == (self.spec_piece_at(sq) matches Some(piece)
                        && piece.colour == PieceColour::Black)
                },
    {
        assert forall|sq: int|
            #![trigger self.white_squares().contains(sq)]
            #![trigger self.black_squares().contains(sq)]
            #![trigger self.all_white@.contains(sq)]
            #![trigger self.all_black@.contains(sq)]
            #![trigger self.all_pieces@.contains(sq)]
            {
                &&& self.white_squares().contains(sq) == self.white_on(sq)
                &&& self.black_squares().contains(sq) == self.black_on(sq)
                &&& self.all_white@.contains(sq) == self.white_on(sq)
                &&& self.all_black@.contains(sq) == self.black_on(sq)
                &&& self.all_pieces@.contains(sq) == (self.white_on(sq) || self.black_on(sq))
                &&& !(self.white_on(sq) && self.black_on(sq))
            } by {
            if on_board(sq) {
                assert(self.exclusive_at(sq));
                assert(self.all_white.has(sq) == self.white_on(sq));
                assert(self.all_black.has(sq) == self.black_on(sq));
                assert(self.all_pieces.has(sq) == (self.white_on(sq) || self.black_on(sq)));
            }
        }
        assert(self.all_white@ =~= self.white_squares());
        assert(self.all_black@ =~= self.black_squares());
        assert(self.all_pieces@ =~= self.white_squares().union(self.black_squares()));
        assert(self.all_white@.intersect(self.all_black@) =~= Set::<int>::empty());
    }

    /// Everything but the twelve piece sets and the aggregates is as in
    /// `other`.
    pub open spec fn same_game_state(&self, other: &BoardState) -> bool {
        &&& self.to_move == other.to_move
        &&& self.castling_rights == other.castling_rights
        &&& self.en_passant_square == other.en_passant_square
    }

    /// The position at the start of a game, white to move, all castling
    /// rights present, no en-passant target.
    pub fn new() -> (board: BoardState)
        ensures
            forall|sq: int| on_board(sq) ==> #[trigger] board.spec_piece_at(sq) == initial_piece(sq),
            board.wf(),
            board.to_move == PieceColour::White,
            board.castling_rights@ == seq![true, true, true, true],
            board.en_passant_square.is_none(),
    {
        let mut board = BoardState {
            white_pawns: BitBoard::empty(),
            black_pawns: BitBoard::empty(),
            white_knights: BitBoard::empty(),
            black_knights: BitBoard::empty(),
            white_bishops: BitBoard::empty(),
            black_bishops: BitBoard::empty(),
            white_rooks: BitBoard::empty(),
            black_rooks: BitBoard::empty(),
            white_queens: BitBoard::empty(),
            black_queens: BitBoard::empty(),
            white_king: BitBoard::empty(),
            black_king: BitBoard::empty(),
            all_white: BitBoard::empty(),
            all_black: BitBoard::empty(),
            all_pieces: BitBoard::empty(),
            to_move: PieceColour::White,
            castling_rights: [true, true, true, true],
            en_passant_square: None,
        };
        board.setup_pieces();
        proof {
            assert(board.castling_rights@ =~= seq![true, true, true, true]);
        }
        board
    }

    /// Puts the thirty-two pieces on their starting squares of a position
    /// whose piece sets are empty, and brings the aggregates up to date.
    pub fn setup_pieces(&mut self)
        requires
            forall|sq: int| on_board(sq) ==> #[trigger] old(self).spec_piece_at(sq).is_none(),
        ensures
            forall|sq: int|
                on_board(sq) ==> #[trigger] final(self).spec_piece_at(sq) == initial_piece(sq),
            final(self).wf(),
            final(self).same_game_state(old(self)),
    {
        let ghost start = *self;
        proof {
            assert forall|sq: int| !start.white_pawns.has(sq) && !start.black_pawns.has(sq) by {
                if on_board(sq) {
                    assert(start.spec_piece_at(sq).is_none());
                }
            }
            assert(start.white_pawns@ =~= Set::<int>::empty());
            assert(start.black_pawns@ =~= Set::<int>::empty());
        }
        let mut i: usize = 8;
        while i < 16
            invariant
                8 <= i <= 16,
                self.white_pawns@ == start.white_pawns@ + Set::new(|sq: int| 8 <= sq < i),
                self.black_pawns@ == start.black_pawns@ + Set::new(|sq: int| 48 <= sq < i + 40),
                *self == (BoardState {
                    white_pawns: self.white_pawns,
                    black_pawns: self.black_pawns,
                    ..start
                }),
            decreases 16 - i,
        {
            self.white_pawns.set(i);
            self.black_pawns.set(i + 40);
            i += 1;
            proof {
                assert(self.white_pawns@ =~= start.white_pawns@ + Set::new(|sq: int| 8 <= sq < i));
                assert(self.black_pawns@ =~= start.black_pawns@ + Set::new(
                    |sq: int| 48 <= sq < i + 40,
                ));
            }
        }
        self.white_rooks.set(0);
        self.white_rooks.set(7);
        self.black_rooks.set(56);
        self.black_rooks.set(63);

        self.white_knights.set(1);
        self.white_knights.set(6);
        self.black_knights.set(57);
        self.black_knights.set(62);

        self.white_bishops.set(2);
        self.white_bishops.set(5);
        self.black_bishops.set(58);
        self.black_bishops.set(61);

        self.white_queens.set(3);
        self.black_queens.set(59);

        self.white_king.set(4);
        self.black_king.set(60);

        self.update_aggregate_bitboards();
        proof {
            let done = *self;
            assert forall|sq: int|
                #![trigger done.spec_piece_at(sq)]
                #![trigger done.exclusive_at(sq)]
                on_board(sq) implies done.spec_piece_at(sq) == initial_piece(sq)
                && done.exclusive_at(sq) by {
                assert(start.spec_piece_at(sq).is_none());
                assert(done.white_pawns@.contains(sq) == done.white_pawns.has(sq));
                assert(done.black_pawns@.contains(sq) == done.black_pawns.has(sq));
                assert(done.white_knights@.contains(sq) == done.white_knights.has(sq));
                assert(done.black_knights@.contains(sq) == done.black_knights.has(sq));
                assert(done.white_bishops@.contains(sq) == done.white_bishops.has(sq));
                assert(done.black_bishops@.contains(sq) == done.black_bishops.has(sq));
                assert(done.white_rooks@.contains(sq) == done.white_rooks.has(sq));
                assert(done.black_rooks@.contains(sq) == done.black_rooks.has(sq));
                assert(done.white_queens@.contains(sq) == done.white_queens.has(sq));
                assert(done.black_queens@.contains(sq) == done.black_queens.has(sq));
                assert(done.white_king@.contains(sq) == done.white_king.has(sq));
                assert(done.black_king@.contains(sq) == done.black_king.has(sq));
            }
        }
    }

    /// Derives the three aggregate bit sets anew from the twelve piece sets.
    pub fn update_aggregate_bitboards(&mut self)
        ensures
            final(self).aggregates_current(),
            final(self).all_white.0 == (old(self).white_pawns.0 | old(self).white_knights.0
                | old(self).white_bishops.0 | old(self).white_rooks.0 | old(self).white_queens.0
                | old(self).white_king.0),
            final(self).all_black.0 == (old(self).black_pawns.0 | old(self).black_knights.0
                | old(self).black_bishops.0 | old(self).black_rooks.0 | old(self).black_queens.0
                | old(self).black_king.0),
            final(self).all_pieces.0 == final(self).all_white.0 | final(self).all_black.0,
            *final(self) == (BoardState {
                all_white: final(self).all_white,
                all_black: final(self).all_black,
                all_pieces: final(self).all_pieces,
                ..*old(self)
            }),
            old(self).exclusive() ==> final(self).wf(),
    {
        self.all_white = BitBoard(
            self.white_pawns.0 | self.white_knights.0 | self.white_bishops.0 | self.white_rooks.0
                | self.white_queens.0 | self.white_king.0,
        );
        self.all_black = BitBoard(
            self.black_pawns.0 | self.black_knights.0 | self.black_bishops.0 | self.black_rooks.0
                | self.black_queens.0 | self.black_king.0,
        );
        self.all_pieces = BitBoard(self.all_white.0 | self.all_black.0);
        proof {
            assert forall|sq: int|
                #![trigger self.all_white.has(sq)]
                #![trigger self.all_black.has(sq)]
                #![trigger self.all_pieces.has(sq)]
                on_board(sq) implies {
                &&& self.all_white.has(sq) == self.white_on(sq)
                &&& self.all_black.has(sq) == self.black_on(sq)
                &&& self.all_pieces.has(sq) == (self.white_on(sq) || self.black_on(sq))
            } by {
                lemma_bit_of_union(
                    self.white_pawns.0,
                    self.white_knights.0,
                    self.white_bishops.0,
                    self.white_rooks.0,
                    self.white_queens.0,
                    self.white_king.0,
                    sq as u64,
                );
                lemma_bit_of_union(
                    self.black_pawns.0,
                    self.black_knights.0,
                    self.black_bishops.0,
                    self.black_rooks.0,
                    self.black_queens.0,
                    self.black_king.0,
                    sq as u64,
                );
                lemma_bit_of_or(self.all_white.0, self.all_black.0, sq as u64);
            }
            self.lemma_same_piece_sets(old(self));
        }
    }

    /// The piece on `square`, if any.
    pub fn piece_at(&self, square: usize) -> (r: Option<Piece>)
        requires
            square < 64,
        ensures
            r == self.spec_piece_at(square as int),
    {
        if self.white_pawns.is_set(square) {
            Some(Piece { kind: PieceKind::Pawn, colour: PieceColour::White })
        } else if self.black_pawns.is_set(square) {
            Some(Piece { kind: PieceKind::Pawn, colour: PieceColour::Black })
        } else if self.white_knights.is_set(square) {
            Some(Piece { kind: PieceKind::Knight, colour: PieceColour::White })
        } else if self.black_knights.is_set(square) {
            Some(Piece { kind: PieceKind::Knight, colour: PieceColour::Black })
        } else if self.white_bishops.is_set(square) {
            Some(Piece { kind: PieceKind::Bishop, colour: PieceColour::White })
        } else if self.black_bishops.is_set(square) {
            Some(Piece { kind: PieceKind::Bishop, colour: PieceColour::Black })
        } else if self.white_rooks.is_set(square) {
            Some(Piece { kind: PieceKind::Rook, colour: PieceColour::White })
        } else if self.black_rooks.is_set(square) {
            Some(Piece { kind: PieceKind::Rook, colour: PieceColour::Black })
        } else if self.white_queens.is_set(square) {
            Some(Piece { kind: PieceKind::Queen, colour: PieceColour::White })
        } else if self.black_queens.is_set(square) {
            Some(Piece { kind: PieceKind::Queen, colour: PieceColour::Black })
        } else if self.white_king.is_set(square) {
            Some(Piece { kind: PieceKind::King, colour: PieceColour::White })
        } else if self.black_king.is_set(square) {
            Some(Piece { kind: PieceKind::King, colour: PieceColour::Black })
        } else {
            None
        }
    }

    /// The piece on `square`, if any; the same lookup as `piece_at`.
    pub fn get_piece_at_square(&self, square: usize) -> (r: Option<Piece>)
        requires
            square < 64,
        ensures
            r == self.spec_piece_at(square as int),
    {
        self.piece_at(square)
    }
    /// The twelve piece sets agree with those of `other` on every square
    /// but `square`.
    pub open spec fn same_pieces_except(&self, other: &BoardState, square: int) -> bool {
        forall|piece: Piece, sq: int|
            sq != square ==> #[trigger] self.board_of(piece).has(sq) == other.board_of(piece).has(
                sq,
            )
    }

    /// Removes `square` from all twelve piece sets and from the three
    /// aggregates.
    pub(crate) fn clear_square(&mut self, square: usize)
        requires
            square < 64,
        ensures
            final(self).same_pieces_except(old(self), square as int),
            forall|piece: Piece| !(#[trigger] final(self).board_of(piece).has(square as int)),
            final(self).spec_piece_at(square as int).is_none(),
            forall|sq: int|
                sq != square ==> #[trigger] final(self).spec_piece_at(sq) == old(
                    self,
                ).spec_piece_at(sq),
            forall|sq: int|
                #![trigger final(self).all_white.has(sq)]
                #![trigger final(self).all_black.has(sq)]
                #![trigger final(self).all_pieces.has(sq)]
                {
                    &&& final(self).all_white.has(sq) == (old(self).all_white.has(sq) && sq
                        != square)
                    &&& final(self).all_black.has(sq) == (old(self).all_black.has(sq) && sq
                        != square)
                    &&& final(self).all_pieces.has(sq) == (old(self).all_pieces.has(sq) && sq
                        != square)
                },
            final(self).same_game_state(old(self)),
            old(self).exclusive() ==> final(self).exclusive(),
            old(self).wf() ==> final(self).wf(),
    {
        self.white_pawns.clear(square);
        self.black_pawns.clear(square);
        self.white_knights.clear(square);
        self.black_knights.clear(square);
        self.white_bishops.clear(square);
        self.black_bishops.clear(square);
        self.white_rooks.clear(square);
        self.black_rooks.clear(square);
        self.white_queens.clear(square);
        self.black_queens.clear(square);
        self.white_king.clear(square);
        self.black_king.clear(square);
        self.all_white.clear(square);
        self.all_black.clear(square);
        self.all_pieces.clear(square);
        proof {
            let before = *old(self);
            let after = *self;
            if before.exclusive() {
                assert forall|sq: int| on_board(sq) implies #[trigger] after.exclusive_at(sq) by {
                    if sq != square {
                        assert(before.exclusive_at(sq));
                        after.lemma_piece_at_by_sets(&before, sq);
                    }
                }
            }
        }
    }

    /// Makes `square` a member of the bit set of `piece`, of the aggregate
    /// of its colour and of the aggregate of all pieces. Nothing is removed.
    pub(crate) fn set_square(&mut self, square: usize, piece: Piece)
        requires
            square < 64,
        ensures
            forall|other: Piece, sq: int|
                #[trigger] final(self).board_of(other).has(sq) == (old(self).board_of(other).has(
                    sq,
                ) || (other == piece && sq == square)),
            forall|sq: int|
                #![trigger final(self).all_white.has(sq)]
                #![trigger final(self).all_black.has(sq)]
                #![trigger final(self).all_pieces.has(sq)]
                {
                    &&& final(self).all_white.has(sq) == (old(self).all_white.has(sq) || (
                    piece.colour == PieceColour::White && sq == square))
                    &&& final(self).all_black.has(sq) == (old(self).all_black.has(sq) || (
                    piece.colour == PieceColour::Black && sq == square))
                    &&& final(self).all_pieces.has(sq) == (old(self).all_pieces.has(sq) || sq
                        == square)
                },
            final(self).same_game_state(old(self)),
    {
        match piece.colour {
            PieceColour::White => {
                self.all_white.set(square);
                match piece.kind {
                    PieceKind::Pawn => self.white_pawns.set(square),
                    PieceKind::Knight => self.white_knights.set(square),
                    PieceKind::Bishop => self.white_bishops.set(square),
                    PieceKind::Rook => self.white_rooks.set(square),
                    PieceKind::Queen => self.white_queens.set(square),
                    PieceKind::King => self.white_king.set(square),
                }
            },
            PieceColour::Black => {
                self.all_black.set(square);
                match piece.kind {
                    PieceKind::Pawn => self.black_pawns.set(square),
                    PieceKind::Knight => self.black_knights.set(square),
                    PieceKind::Bishop => self.black_bishops.set(square),
                    PieceKind::Rook => self.black_rooks.set(square),
                    PieceKind::Queen => self.black_queens.set(square),
                    PieceKind::King => self.black_king.set(square),
                }
            },
        }
        self.all_pieces.set(square);
    }

    /// Puts `piece` on `square`: the square is first removed from all twelve
    /// piece sets, then added to the set of `piece`, and the aggregates are
    /// derived anew. Every other square keeps its occupant.
    pub fn set_piece_at(&mut self, square: usize, piece: Piece)
        requires
            square < 64,
        ensures
            final(self).spec_piece_at(square as int) == Some(piece),
            forall|sq: int|
                sq != square ==> #[trigger] final(self).spec_piece_at(sq) == old(
                    self,
                ).spec_piece_at(sq),
            final(self).same_pieces_except(old(self), square as int),
            forall|other: Piece| #[trigger]
                final(self).board_of(other).has(square as int) == (other == piece),
            final(self).aggregates_current(),
            old(self).exclusive() ==> final(self).wf(),
            final(self).same_game_state(old(self)),
    {
        self.clear_square(square);
        let ghost cleared = *self;
        self.set_square(square, piece);
        let ghost placed = *self;
        self.update_aggregate_bitboards();
        proof {
            let before = *old(self);
            let after = *self;
            assert forall|other: Piece, sq: int| #[trigger]
                after.board_of(other).has(sq) == (if sq == square {
                    other == piece
                } else {
                    before.board_of(other).has(sq)
                }) by {
                assert(after.board_of(other) == placed.board_of(other));
                assert(placed.board_of(other).has(sq) == (cleared.board_of(other).has(sq) || (other
                    == piece && sq == square)));
                if sq != square {
                    assert(cleared.board_of(other).has(sq) == before.board_of(other).has(sq));
                } else {
                    assert(!cleared.board_of(other).has(sq));
                }
            }
            assert forall|sq: int| sq != square implies #[trigger] after.spec_piece_at(sq)
                == before.spec_piece_at(sq) by {
                after.lemma_piece_at_by_sets(&before, sq);
            }
            after.lemma_piece_at_single(piece, square as int);
            if before.exclusive() {
                assert forall|sq: int| on_board(sq) implies #[trigger] after.exclusive_at(sq) by {
                    if sq != square {
                        assert(before.exclusive_at(sq));
                        after.lemma_piece_at_by_sets(&before, sq);
                    }
                }
            }
        }
    }

    /// Two positions whose twelve piece sets agree on `sq` have the same
    /// piece there.
    pub proof fn lemma_piece_at_by_sets(&self, other: &BoardState, sq: int)
        requires
            forall|piece: Piece| #[trigger]
                self.board_of(piece).has(sq) == other.board_of(piece).has(sq),
        ensures
            self.spec_piece_at(sq) == other.spec_piece_at(sq),
            other.exclusive_at(sq) ==> self.exclusive_at(sq),
    {
        self.lemma_sets_named(sq);
        other.lemma_sets_named(sq);
    }

    /// Spells `board_of` out for each of the twelve pieces at `sq`.
    pub proof fn lemma_sets_named(&self, sq: int)
        ensures
            self.board_of(Piece { kind: PieceKind::Pawn, colour: PieceColour::White }).has(sq)
                == self.white_pawns.has(sq),
            self.board_of(Piece { kind: PieceKind::Pawn, colour: PieceColour::Black }).has(sq)
                == self.black_pawns.has(sq),
            self.board_of(Piece { kind: PieceKind::Knight, colour: PieceColour::White }).has(sq)
                == self.white_knights.has(sq),
            self.board_of(Piece { kind: PieceKind::Knight, colour: PieceColour::Black }).has(sq)
                == self.black_knights.has(sq),
            self.board_of(Piece { kind: PieceKind::Bishop, colour: PieceColour::White }).has(sq)
                == self.white_bishops.has(sq),
            self.board_of(Piece { kind: PieceKind::Bishop, colour: PieceColour::Black }).has(sq)
                == self.black_bishops.has(sq),
            self.board_of(Piece { kind: PieceKind::Rook, colour: PieceColour::White }).has(sq)
                == self.white_rooks.has(sq),
            self.board_of(Piece { kind: PieceKind::Rook, colour: PieceColour::Black }).has(sq)
                == self.black_rooks.has(sq),
            self.board_of(Piece { kind: PieceKind::Queen, colour: PieceColour::White }).has(sq)
                == self.white_queens.has(sq),
            self.board_of(Piece { kind: PieceKind::Queen, colour: PieceColour::Black }).has(sq)
                == self.black_queens.has(sq),
            self.board_of(Piece { kind: PieceKind::King, colour: PieceColour::White }).has(sq)
                == self.white_king.has(sq),
            self.board_of(Piece { kind: PieceKind::King, colour: PieceColour::Black }).has(sq)
                == self.black_king.has(sq),
    {
    }

    /// Where exactly the set of `piece` has `sq`, `piece` is what stands
    /// there, and the square has one occupant.
    pub proof fn lemma_piece_at_single(&self, piece: Piece, sq: int)
        requires
            forall|other: Piece| #[trigger] self.board_of(other).has(sq) == (other == piece),
        ensures
            self.spec_piece_at(sq) == Some(piece),
            self.exclusive_at(sq),
    {
        self.lemma_sets_named(sq);
    }

    /// Replaces what stands on `square` by a piece of kind `promotion` and
    /// of `colour`.
    pub(crate) fn promote_pawn(&mut self, square: usize, promotion: PieceKind, colour: PieceColour)
        requires
            square < 64,
        ensures
            final(self).spec_piece_at(square as int) == Some(Piece { kind: promotion, colour }),
            forall|sq: int|
                sq != square ==> #[trigger] final(self).spec_piece_at(sq) == old(
                    self,
                ).spec_piece_at(sq),
            final(self).same_pieces_except(old(self), square as int),
            forall|other: Piece| #[trigger]
                final(self).board_of(other).has(square as int) == (other == Piece {
                    kind: promotion,
                    colour,
                }),
            final(self).aggregates_current(),
            old(self).exclusive() ==> final(self).wf(),
            final(self).same_game_state(old(self)),
    {
        self.clear_square(square);
        self.set_piece_at(square, Piece { kind: promotion, colour });
    }

    /// Replaces the four castling rights, in the order white kingside, white
    /// queenside, black kingside, black queenside.
    pub fn update_castling_rights(&mut self, wk: bool, wq: bool, bk: bool, bq: bool)
        ensures
            final(self).castling_rights@ == seq![wk, wq, bk, bq],
            *final(self) == (BoardState {
                castling_rights: final(self).castling_rights,
                ..*old(self)
            }),
            old(self).wf() ==> final(self).wf(),
    {
        self.castling_rights = [wk, wq, bk, bq];
        proof {
            self.lemma_same_piece_sets(old(self));
            assert(self.castling_rights@ =~= seq![wk, wq, bk, bq]);
        }
    }

    /// Hands the move to the other side.
    pub fn flip_turn(&mut self)
        ensures
            *final(self) == (BoardState { to_move: old(self).to_move.opposite(), ..*old(self) }),
            old(self).wf() ==> final(self).wf(),
    {
        self.to_move = self.to_move.opposite();
        proof {
            self.lemma_same_piece_sets(old(self));
        }
    }
}

} // verus!
