//! The fingerprint of a position: fixed pseudo-random keys folded with
//! exclusive or.

use vstd::prelude::*;
use rand::{Rng, SeedableRng};
use rand_chacha::ChaCha20Rng;
use crate::board::BoardState;
use crate::pieces::{Piece, PieceColour, PieceKind};

verus! {

/// The seed of the keys that `ZobristHashing::new` draws.
pub const KEY_SEED: u64 = 42;

/// The 64-bit value that the ChaCha20 generator of `rand_chacha`, seeded
/// from the integer `seed`, yields when it stands at the 32-bit word
/// `word_pos` of its stream.
pub uninterp spec fn chacha20_word(seed: u64, word_pos: u64) -> u64;

/// Calls `ChaCha20Rng::seed_from_u64`, `ChaCha20Rng::set_word_pos` and
/// `Rng::gen` of `rand_chacha` and `rand`. Not proved: that the value
/// depends on the seed and the position alone, which the contract expresses
/// by naming it. The generator is a stream cipher keyed by the seed; it keeps
/// no other state and reads none from the machine.
#[verifier::external_body]
fn chacha20_word_at(seed: u64, word_pos: u64) -> (r: u64)
    ensures
        r == chacha20_word(seed, word_pos),
{
    let mut rng = ChaCha20Rng::seed_from_u64(seed);
    rng.set_word_pos(word_pos as u128);
    rng.gen()
}

/// The `n`-th 64-bit value of the stream seeded from `seed`, counting
/// from 0: each value takes two words.
pub open spec fn nth_key(seed: u64, n: int) -> u64 {
    chacha20_word(seed, (2 * n) as u64)
}

/// Place of the key of (`colour`, `kind`, `sq`) in the stream.
pub open spec fn piece_key_place(colour: int, kind: int, sq: int) -> int {
    (colour * 6 + kind) * 64 + sq
}

/// Place of the side-to-move key in the stream, after the 768 piece keys.
pub open spec fn side_key_place() -> int {
    768
}

/// Place of the key of castling combination `i` in the stream.
pub open spec fn castling_key_place(i: int) -> int {
    769 + i
}

/// Place of the key of en-passant file `file` in the stream.
pub open spec fn en_passant_key_place(file: int) -> int {
    785 + file
}

/// The keys of the fingerprint: one for every colour, kind and square, one
/// for black to move, one for each of the sixteen combinations of castling
/// rights, one for each file of an en-passant target.
pub struct ZobristHashing {
    pub piece_keys: [[[u64; 64]; 6]; 2],
    pub side_to_move_key: u64,
    pub castling_keys: [u64; 16],
    pub en_passant_keys: [u64; 8],
}

/// Draws the `n`-th key of the stream seeded from `seed`.
fn draw_key(seed: u64, n: usize) -> (r: u64)
    requires
        n < 1024,
    ensures
        r == nth_key(seed, n as int),
{
    chacha20_word_at(seed, 2 * (n as u64))
}

impl ZobristHashing {
    /// The keys are the first 793 values of the stream seeded from `seed`,
    /// in the order piece keys (by colour, kind, square), side to move,
    /// castling combinations, en-passant files.
    pub open spec fn keyed_by(&self, seed: u64) -> bool {
        &&& forall|colour: int, kind: int, sq: int|
            0 <= colour < 2 && 0 <= kind < 6 && 0 <= sq < 64 ==> #[trigger] self.piece_keys[colour][kind][sq]
                == nth_key(seed, piece_key_place(colour, kind, sq))
        &&& self.side_to_move_key == nth_key(seed, side_key_place())
        &&& forall|i: int|
            0 <= i < 16 ==> #[trigger] self.castling_keys[i] == nth_key(
                seed,
                castling_key_place(i),
            )
        &&& forall|file: int|
            0 <= file < 8 ==> #[trigger] self.en_passant_keys[file] == nth_key(
                seed,
                en_passant_key_place(file),
            )
    }

    /// The keys drawn from the fixed seed, the same in every run.
    pub fn new() -> (keys: ZobristHashing)
        ensures
            keys.keyed_by(KEY_SEED),
    {
        Self::with_seed(KEY_SEED)
    }

    /// The keys drawn from `seed`.
    pub fn with_seed(seed: u64) -> (keys: ZobristHashing)
        ensures
            keys.keyed_by(seed),
    {
        let mut piece_keys: [[[u64; 64]; 6]; 2] = [[[0u64; 64]; 6]; 2];
        let mut colour: usize = 0;
        while colour < 2
            invariant
                colour <= 2,
                forall|c: int, k: int, s: int|
                    0 <= c < colour && 0 <= k < 6 && 0 <= s < 64 ==> #[trigger] piece_keys[c][k][s]
                        == nth_key(seed, piece_key_place(c, k, s)),
            decreases 2 - colour,
        {
            let mut of_colour: [[u64; 64]; 6] = [[0u64; 64]; 6];
            let mut kind: usize = 0;
            while kind < 6
                invariant
                    colour < 2,
                    kind <= 6,
                    forall|k: int, s: int|
                        0 <= k < kind && 0 <= s < 64 ==> #[trigger] of_colour[k][s] == nth_key(
                            seed,
                            piece_key_place(colour as int, k, s),
                        ),
                decreases 6 - kind,
            {
                let mut of_kind: [u64; 64] = [0u64; 64];
                let mut square: usize = 0;
                while square < 64
                    invariant
                        colour < 2,
                        kind < 6,
                        square <= 64,
                        forall|s: int|
                            0 <= s < square ==> #[trigger] of_kind[s] == nth_key(
                                seed,
                                piece_key_place(colour as int, kind as int, s),
                            ),
                    decreases 64 - square,
                {
                    of_kind[square] = draw_key(seed, (colour * 6 + kind) * 64 + square);
                    square += 1;
                }
                of_colour[kind] = of_kind;
                kind += 1;
            }
            piece_keys[colour] = of_colour;
            colour += 1;
        }
        let side_to_move_key = draw_key(seed, 768);
        let mut castling_keys: [u64; 16] = [0u64; 16];
        let mut i: usize = 0;
        while i < 16
            invariant
                i <= 16,
                forall|j: int|
                    0 <= j < i ==> #[trigger] castling_keys[j] == nth_key(
                        seed,
                        castling_key_place(j),
                    ),
            decreases 16 - i,
        {
            castling_keys[i] = draw_key(seed, 769 + i);
            i += 1;
        }
        let mut en_passant_keys: [u64; 8] = [0u64; 8];
        let mut file: usize = 0;
        while file < 8
            invariant
                file <= 8,
                forall|f: int|
                    0 <= f < file ==> #[trigger] en_passant_keys[f] == nth_key(
                        seed,
                        en_passant_key_place(f),
                    ),
            decreases 8 - file,
        {
            en_passant_keys[file] = draw_key(seed, 785 + file);
            file += 1;
        }
        ZobristHashing { piece_keys, side_to_move_key, castling_keys, en_passant_keys }
    }

    /// The key of `piece` on `sq`.
    pub open spec fn piece_key(&self, piece: Piece, sq: int) -> u64 {
        self.piece_keys[piece.colour.index()][piece.kind.index()][sq]
    }

    /// The keys of the pieces on the squares below `upto`, folded with
    /// exclusive or.
    pub open spec fn placement_hash(&self, board: &BoardState, upto: int) -> u64
        decreases upto,
    {
        if upto <= 0 {
            0
        } else {
            let below = self.placement_hash(board, upto - 1);
            match board.spec_piece_at(upto - 1) {
                Some(piece) => below ^ self.piece_key(piece, upto - 1),
                None => below,
            }
        }
    }

    /// The fingerprint of `board`: the keys of all occupied squares, the
    /// side-to-move key if black is to move, the key of the combination of
    /// castling rights, and the key of the file of the en-passant target if
    /// there is one, folded with exclusive or.
    pub open spec fn spec_hash(&self, board: &BoardState) -> u64 {
        let placed = self.placement_hash(board, 64);
        let sided = if board.to_move == PieceColour::Black {
            placed ^ self.side_to_move_key
        } else {
            placed
        };
        let righted = sided ^ self.castling_keys[board.castling_index()];
        match board.en_passant_square {
            Some(target) => righted ^ self.en_passant_keys[target as int % 8],
            None => righted,
        }
    }

    /// The fingerprint goes by the content of the position: positions with
    /// the same occupant on every square, the same side to move, the same
    /// castling rights and the same en-passant target have the same
    /// fingerprint, whatever their aggregates hold.
    pub proof fn lemma_hash_goes_by_content(&self, a: &BoardState, b: &BoardState)
        requires
            forall|sq: int| 0 <= sq < 64 ==> #[trigger] a.spec_piece_at(sq) == b.spec_piece_at(sq),
            a.same_game_state(b),
        ensures
            self.spec_hash(a) == self.spec_hash(b),
    {
        self.lemma_placement_hash_goes_by_content(a, b, 64);
    }

    /// Positions with the same occupants below `upto` fold to the same
    /// value there.
    pub proof fn lemma_placement_hash_goes_by_content(
        &self,
        a: &BoardState,
        b: &BoardState,
        upto: int,
    )
        requires
            upto <= 64,
            forall|sq: int| 0 <= sq < 64 ==> #[trigger] a.spec_piece_at(sq) == b.spec_piece_at(sq),
        ensures
            self.placement_hash(a, upto) == self.placement_hash(b, upto),
        decreases upto,
    {
        if upto > 0 {
            self.lemma_placement_hash_goes_by_content(a, b, upto - 1);
            assert(a.spec_piece_at(upto - 1) == b.spec_piece_at(upto - 1));
        }
    }

    /// Computes the fingerprint of `board`. It depends on the piece sets,
    /// the side to move, the castling rights and the en-passant target, and
    /// on nothing else.
    pub fn compute_hash(&self, board: &BoardState) -> (hash: u64)
        ensures
            hash == self.spec_hash(board),
    {
        let mut hash: u64 = 0;
        let mut square: usize = 0;
        while square < 64
            invariant
                square <= 64,
                hash == self.placement_hash(board, square as int),
            decreases 64 - square,
        {
            match board.piece_at(square) {
                Some(piece) => {
                    let colour_index: usize = match piece.colour {
                        PieceColour::White => 0,
                        PieceColour::Black => 1,
                    };
                    let piece_index: usize = match piece.kind {
                        PieceKind::Pawn => 0,
                        PieceKind::Knight => 1,
                        PieceKind::Bishop => 2,
                        PieceKind::Rook => 3,
                        PieceKind::Queen => 4,
                        PieceKind::King => 5,
                    };
                    hash ^= self.piece_keys[colour_index][piece_index][square];
                },
                None => {},
            }
            square += 1;
        }
        if board.to_move == PieceColour::Black {
            hash ^= self.side_to_move_key;
        }
        let castling_index = board.get_castling_rights_index();
        hash ^= self.castling_keys[castling_index];
        match board.get_en_passant_file() {
            Some(file) => {
                hash ^= self.en_passant_keys[file];
            },
            None => {},
        }
        hash
    }
}

impl BoardState {
    /// The four castling rights as a number below 16: white kingside counts
    /// 1, white queenside 2, black kingside 4, black queenside 8.
    pub open spec fn castling_index(&self) -> int {
        (if self.castling_rights[0] {
            1int
        } else {
            0
        }) + (if self.castling_rights[1] {
            2int
        } else {
            0
        }) + (if self.castling_rights[2] {
            4int
        } else {
            0
        }) + (if self.castling_rights[3] {
            8int
        } else {
            0
        })
    }

    /// The four castling rights as a number below 16.
    pub fn get_castling_rights_index(&self) -> (index: usize)
        ensures
            index == self.castling_index(),
            index < 16,
    {
        let mut index: usize = 0;
        if self.castling_rights[0] {
            index += 1;
        }
        if self.castling_rights[1] {
            index += 2;
        }
        if self.castling_rights[2] {
            index += 4;
        }
        if self.castling_rights[3] {
            index += 8;
        }
        index
    }

    /// The file of the en-passant target, if there is one.
    pub fn get_en_passant_file(&self) -> (file: Option<usize>)
        ensures
            file == match self.en_passant_square {
                Some(target) => Some((target % 8) as usize),
                None => None,
            },
    {
        match self.en_passant_square {
            Some(target) => Some(target % 8),
            None => None,
        }
    }
}

} // verus!
