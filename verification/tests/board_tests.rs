use chess_core::board::{BitBoard, BoardState};
use chess_core::moves::ChessMove;
use chess_core::pieces::{Piece, PieceColour, PieceKind};
use chess_core::zobrist::ZobristHashing;

fn bare_board() -> BoardState {
    let mut board = BoardState::new();
    board.white_pawns.0 = 0;
    board.black_pawns.0 = 0;
    board.white_knights.0 = 0;
    board.black_knights.0 = 0;
    board.white_bishops.0 = 0;
    board.black_bishops.0 = 0;
    board.white_rooks.0 = 0;
    board.black_rooks.0 = 0;
    board.white_queens.0 = 0;
    board.black_queens.0 = 0;
    board.white_king.0 = 0;
    board.black_king.0 = 0;
    board.all_white.0 = 0;
    board.all_black.0 = 0;
    board.all_pieces.0 = 0;
    board
}

fn union_of_sets(board: &BoardState) -> (u64, u64) {
    let white = board.white_pawns.0
        | board.white_knights.0
        | board.white_bishops.0
        | board.white_rooks.0
        | board.white_queens.0
        | board.white_king.0;
    let black = board.black_pawns.0
        | board.black_knights.0
        | board.black_bishops.0
        | board.black_rooks.0
        | board.black_queens.0
        | board.black_king.0;
    (white, black)
}

fn piece(kind: PieceKind, colour: PieceColour) -> Piece {
    Piece { kind, colour }
}

#[test]
fn test_initial_board() {
    let board = BoardState::new();
    assert!(board.white_pawns.is_set(8)); // a2
    assert!(board.black_pawns.is_set(48)); // a7
}

#[test]
fn test_bitboard_operations() {
    let mut bitboard = BitBoard::empty();
    bitboard.set(0); // Set a1
    assert!(bitboard.is_set(0));

    bitboard.set(63); // Set h8
    assert!(bitboard.is_set(63));

    bitboard.clear(0); // Clear a1
    assert!(!bitboard.is_set(0));
}

#[test]
fn test_aggregate_bitboards() {
    let board = BoardState::new();
    assert!(board.all_white.is_set(8)); // a2
    assert!(board.all_black.is_set(48)); // a7
    assert!(board.all_pieces.is_set(4)); // e1
}

#[test]
fn test_piece_representation() {
    let board = BoardState::new();
    assert!(board.white_king.is_set(4)); // e1
    assert!(board.black_king.is_set(60)); // e8
}

#[test]
fn test_en_passant_generation() {
    let mut board = BoardState::new();
    let mut zobrist = ZobristHashing::new();

    board.black_pawns.set(51); // d7
    board.all_pieces.set(51);

    let chess_move = ChessMove {
        from: 51, // d7
        to: 35,   // d5
        promotion: None,
    };

    board.apply_move(chess_move, &mut zobrist);

    assert_eq!(
        board.en_passant_square,
        Some(43),
        "En passant square should be 43"
    );
}

#[test]
fn test_update_en_passant_square() {
    let mut board = BoardState::new();

    board.black_pawns.set(51); // d7
    board.all_pieces.set(51);

    let chess_move = ChessMove {
        from: 51, // d7
        to: 35,   // d5
        promotion: None,
    };

    board.update_en_passant_square(&chess_move);

    assert_eq!(
        board.en_passant_square,
        Some(43),
        "En passant square should be 43"
    );
}

#[test]
fn test_board_state_before_en_passant() {
    let mut board = BoardState::new();

    board.black_pawns.set(51); // d7
    board.all_pieces.set(51);

    assert!(board.black_pawns.is_set(51), "Black pawn should be on d7");
    assert!(board.all_pieces.is_set(51), "All pieces should include pawn on d7");

    let chess_move = ChessMove {
        from: 51, // d7
        to: 35,   // d5
        promotion: None,
    };

    board.apply_move(chess_move, &mut ZobristHashing::new());

    assert_eq!(
        board.en_passant_square,
        Some(43),
        "En passant square should be set after two-square pawn move"
    );
}

#[test]
fn test_castling_rights() {
    let mut board = BoardState::new();

    // Kingside castling setup
    board.all_pieces.clear(5); // f1
    board.all_pieces.clear(6); // g1
    assert!(board.can_castle_kingside(PieceColour::White));

    // Queenside castling setup
    board.all_pieces.clear(1); // b1
    board.all_pieces.clear(2); // c1
    board.all_pieces.clear(3); // d1
    assert!(board.can_castle_queenside(PieceColour::White));
}

#[test]
fn test_castling_kingside_under_attack() {
    let mut board = BoardState::new();

    // Clear squares for kingside castling
    board.all_pieces.clear(5); // f1
    board.all_pieces.clear(6); // g1

    // Place an opposing rook attacking f1
    board.set_piece_at(37, Piece { kind: PieceKind::Rook, colour: PieceColour::Black });

    assert!(!board.can_castle_kingside(PieceColour::White), "Should not allow kingside castling if f1 is under attack");
}

#[test]
fn test_castling_queenside_under_attack() {
    let mut board = BoardState::new();

    // Clear squares for queenside castling
    board.all_pieces.clear(1); // b1
    board.all_pieces.clear(2); // c1
    board.all_pieces.clear(3); // d1

    // Place an opposing bishop attacking c1
    board.set_piece_at(42, Piece { kind: PieceKind::Bishop, colour: PieceColour::Black });

    assert!(!board.can_castle_queenside(PieceColour::White), "Should not allow queenside castling if c1 is under attack");
}

#[test]
fn bitboard_words_follow_the_bits() {
    let mut bitboard = BitBoard::empty();
    assert_eq!(bitboard.0, 0);
    bitboard.set(3);
    bitboard.set(63);
    assert_eq!(bitboard.0, (1u64 << 3) | (1u64 << 63));
    bitboard.clear(3);
    assert_eq!(bitboard.0, 1u64 << 63);
    bitboard.clear(5);
    assert_eq!(bitboard.0, 1u64 << 63);
}

#[test]
fn bitboard_operators_against_raw_words() {
    let board = BitBoard(0b1100);
    assert_eq!(board & 0b0110, BitBoard(0b0100));
    assert_eq!(board | 0b0011, BitBoard(0b1111));
    let mut changed = board;
    changed.bitand_assign(0b1000);
    assert_eq!(changed, BitBoard(0b1000));
    changed.bitor_assign(0b0001);
    assert_eq!(changed, BitBoard(0b1001));
}

#[test]
fn bitboard_walk_is_ascending_and_restartable() {
    let mut bitboard = BitBoard::empty();
    bitboard.set(40);
    bitboard.set(0);
    bitboard.set(63);
    bitboard.set(7);
    for _ in 0..2 {
        let mut walk = bitboard.iter();
        let mut seen = Vec::new();
        while let Some(square) = walk.next() {
            seen.push(square);
        }
        assert_eq!(seen, vec![0, 7, 40, 63]);
        assert_eq!(walk.next(), None);
    }
    let mut nothing = BitBoard::empty().iter();
    assert_eq!(nothing.next(), None);
}

#[test]
fn starting_position_is_the_standard_one() {
    let board = BoardState::new();
    let back = [
        PieceKind::Rook,
        PieceKind::Knight,
        PieceKind::Bishop,
        PieceKind::Queen,
        PieceKind::King,
        PieceKind::Bishop,
        PieceKind::Knight,
        PieceKind::Rook,
    ];
    for file in 0..8 {
        assert_eq!(board.piece_at(file), Some(piece(back[file], PieceColour::White)));
        assert_eq!(board.piece_at(8 + file), Some(piece(PieceKind::Pawn, PieceColour::White)));
        assert_eq!(board.piece_at(48 + file), Some(piece(PieceKind::Pawn, PieceColour::Black)));
        assert_eq!(board.piece_at(56 + file), Some(piece(back[file], PieceColour::Black)));
    }
    for square in 16..48 {
        assert_eq!(board.piece_at(square), None);
        assert_eq!(board.get_piece_at_square(square), None);
    }
    assert_eq!(board.to_move, PieceColour::White);
    assert_eq!(board.castling_rights, [true, true, true, true]);
    assert_eq!(board.en_passant_square, None);
    assert_eq!(board.all_white.0, 0xFFFF);
    assert_eq!(board.all_black.0, 0xFFFF_0000_0000_0000);
    assert_eq!(board.all_pieces.0, 0xFFFF_0000_0000_FFFF);
}

#[test]
fn set_piece_at_replaces_one_square_only() {
    for square in 0..64 {
        let mut board = BoardState::new();
        let reference = BoardState::new();
        let placed = piece(PieceKind::Queen, PieceColour::Black);
        board.set_piece_at(square, placed);
        assert_eq!(board.piece_at(square), Some(placed));
        for other in 0..64 {
            if other != square {
                assert_eq!(board.piece_at(other), reference.piece_at(other));
            }
        }
    }
}

#[test]
fn set_piece_at_over_a_piece_earlier_in_the_lookup_order() {
    let mut board = BoardState::new();
    // A white pawn stands on 8; the white pawn set is looked up first.
    board.set_piece_at(8, piece(PieceKind::King, PieceColour::Black));
    assert_eq!(board.piece_at(8), Some(piece(PieceKind::King, PieceColour::Black)));
    assert!(!board.white_pawns.is_set(8));
    assert!(board.black_king.is_set(8));
    assert!(board.all_black.is_set(8));
    assert!(!board.all_white.is_set(8));
}

#[test]
fn aggregates_are_unions_after_every_mutation() {
    let mut zobrist = ZobristHashing::new();
    let mut board = BoardState::new();
    let line = [(12usize, 28usize), (51, 35), (28, 35), (59, 35), (6, 21), (35, 8)];
    for (from, to) in line {
        board.apply_move(ChessMove { from, to, promotion: None }, &mut zobrist);
        let (white, black) = union_of_sets(&board);
        assert_eq!(board.all_white.0, white);
        assert_eq!(board.all_black.0, black);
        assert_eq!(board.all_pieces.0, white | black);
        assert_eq!(board.all_white.0 & board.all_black.0, 0);
    }
    board.set_piece_at(30, piece(PieceKind::Rook, PieceColour::White));
    let (white, black) = union_of_sets(&board);
    assert_eq!(board.all_pieces.0, white | black);
    assert_eq!(board.all_white.0 & board.all_black.0, 0);
    let moves = board.generate_moves();
    assert!(!moves.is_empty());
    let (white, black) = union_of_sets(&board);
    assert_eq!(board.all_pieces.0, white | black);
    assert_eq!(board.all_white.0 & board.all_black.0, 0);
}

#[test]
fn any_other_move_clears_the_en_passant_target() {
    let mut zobrist = ZobristHashing::new();
    let mut board = BoardState::new();
    board.apply_move(ChessMove { from: 51, to: 35, promotion: None }, &mut zobrist);
    assert_eq!(board.en_passant_square, Some(43));
    // A knight move.
    board.apply_move(ChessMove { from: 1, to: 18, promotion: None }, &mut zobrist);
    assert_eq!(board.en_passant_square, None);
    // A white double advance sets the square passed over.
    board.apply_move(ChessMove { from: 12, to: 28, promotion: None }, &mut zobrist);
    assert_eq!(board.en_passant_square, Some(20));
    // A single pawn advance clears it.
    board.apply_move(ChessMove { from: 35, to: 27, promotion: None }, &mut zobrist);
    assert_eq!(board.en_passant_square, None);
    // A rook that crosses two ranks does not set it.
    let mut bare = bare_board();
    bare.set_piece_at(0, piece(PieceKind::Rook, PieceColour::White));
    bare.en_passant_square = Some(20);
    bare.apply_move(ChessMove { from: 0, to: 16, promotion: None }, &mut zobrist);
    assert_eq!(bare.en_passant_square, None);
}

#[test]
fn apply_move_relocates_and_flips_the_turn() {
    let mut zobrist = ZobristHashing::new();
    let mut board = BoardState::new();
    let hash = board.apply_move(ChessMove { from: 12, to: 28, promotion: None }, &mut zobrist);
    assert_eq!(board.piece_at(12), None);
    assert_eq!(board.piece_at(28), Some(piece(PieceKind::Pawn, PieceColour::White)));
    assert_eq!(board.to_move, PieceColour::Black);
    assert_eq!(board.castling_rights, [true, true, true, true]);
    assert_eq!(hash, zobrist.compute_hash(&board));
    // A capture replaces what stood on the destination.
    board.apply_move(ChessMove { from: 59, to: 28, promotion: None }, &mut zobrist);
    assert_eq!(board.piece_at(28), Some(piece(PieceKind::Queen, PieceColour::Black)));
    assert!(!board.white_pawns.is_set(28));
    assert_eq!(board.to_move, PieceColour::White);
}

#[test]
fn apply_move_takes_the_pawn_behind_the_en_passant_target() {
    let mut zobrist = ZobristHashing::new();
    let mut board = bare_board();
    board.set_piece_at(36, piece(PieceKind::Pawn, PieceColour::White));
    board.set_piece_at(35, piece(PieceKind::Pawn, PieceColour::Black));
    board.en_passant_square = Some(43);
    board.apply_move(ChessMove { from: 36, to: 43, promotion: None }, &mut zobrist);
    assert_eq!(board.piece_at(43), Some(piece(PieceKind::Pawn, PieceColour::White)));
    assert_eq!(board.piece_at(36), None);
    assert_eq!(board.piece_at(35), None);
    assert_eq!(board.all_pieces.0, 1u64 << 43);
    assert_eq!(board.en_passant_square, None);

    let mut board = bare_board();
    board.to_move = PieceColour::Black;
    board.set_piece_at(28, piece(PieceKind::Pawn, PieceColour::White));
    board.set_piece_at(27, piece(PieceKind::Pawn, PieceColour::Black));
    board.en_passant_square = Some(20);
    board.apply_move(ChessMove { from: 27, to: 20, promotion: None }, &mut zobrist);
    assert_eq!(board.piece_at(20), Some(piece(PieceKind::Pawn, PieceColour::Black)));
    assert_eq!(board.piece_at(28), None);

    // A knight that lands on the target takes nothing behind it.
    let mut board = bare_board();
    board.set_piece_at(26, piece(PieceKind::Knight, PieceColour::White));
    board.set_piece_at(35, piece(PieceKind::Pawn, PieceColour::Black));
    board.en_passant_square = Some(43);
    board.apply_move(ChessMove { from: 26, to: 43, promotion: None }, &mut zobrist);
    assert_eq!(board.piece_at(35), Some(piece(PieceKind::Pawn, PieceColour::Black)));
}

#[test]
fn apply_move_promotes_a_pawn_only() {
    let mut zobrist = ZobristHashing::new();
    let mut board = bare_board();
    board.set_piece_at(52, piece(PieceKind::Pawn, PieceColour::White));
    board.apply_move(
        ChessMove { from: 52, to: 60, promotion: Some(PieceKind::Knight) },
        &mut zobrist,
    );
    assert_eq!(board.piece_at(60), Some(piece(PieceKind::Knight, PieceColour::White)));
    assert!(!board.white_pawns.is_set(60));

    let mut board = bare_board();
    board.set_piece_at(52, piece(PieceKind::Rook, PieceColour::White));
    board.apply_move(
        ChessMove { from: 52, to: 60, promotion: Some(PieceKind::Queen) },
        &mut zobrist,
    );
    assert_eq!(board.piece_at(60), Some(piece(PieceKind::Rook, PieceColour::White)));
}

#[test]
fn square_safety_by_attacker() {
    // White to move: the attackers are black.
    let mut board = bare_board();
    assert!(board.is_square_safe(27));
    board.set_piece_at(36, piece(PieceKind::Pawn, PieceColour::Black));
    assert!(!board.is_square_safe(27));
    assert!(!board.is_square_safe(29));
    assert!(board.is_square_safe(28));
    assert!(board.is_square_safe(43));

    let mut board = bare_board();
    board.set_piece_at(44, piece(PieceKind::Knight, PieceColour::Black));
    assert!(!board.is_square_safe(27));
    assert!(board.is_square_safe(28));

    let mut board = bare_board();
    board.set_piece_at(28, piece(PieceKind::King, PieceColour::Black));
    assert!(!board.is_square_safe(27));
    assert!(!board.is_square_safe(37));
    assert!(board.is_square_safe(44));

    // Pieces of the side to move attack nothing.
    let mut board = bare_board();
    board.set_piece_at(35, piece(PieceKind::Queen, PieceColour::White));
    assert!(board.is_square_safe(27));
    board.flip_turn();
    assert!(!board.is_square_safe(27));
}

#[test]
fn square_safety_along_rays() {
    let mut board = bare_board();
    board.set_piece_at(59, piece(PieceKind::Rook, PieceColour::Black));
    assert!(!board.is_square_safe(27));
    // A piece in between shadows the attack.
    board.set_piece_at(43, piece(PieceKind::Pawn, PieceColour::White));
    assert!(board.is_square_safe(27));
    assert!(!board.is_square_safe(51));

    // A rook does not attack along a diagonal, a bishop does.
    let mut board = bare_board();
    board.set_piece_at(28, piece(PieceKind::Pawn, PieceColour::White));
    board.set_piece_at(36, piece(PieceKind::Rook, PieceColour::Black));
    assert!(board.is_square_safe(27));
    board.set_piece_at(36, piece(PieceKind::Bishop, PieceColour::Black));
    assert!(!board.is_square_safe(27));
    // A bishop does not attack along a file, a queen does.
    let mut board = bare_board();
    board.set_piece_at(3, piece(PieceKind::Bishop, PieceColour::Black));
    assert!(board.is_square_safe(27));
    board.set_piece_at(3, piece(PieceKind::Queen, PieceColour::Black));
    assert!(!board.is_square_safe(27));
}

#[test]
fn attacks_end_at_the_edges_of_the_board() {
    // A lone rook on f5 attacks its rank and its file and nothing else.
    let mut board = bare_board();
    board.set_piece_at(37, piece(PieceKind::Rook, PieceColour::Black));
    for square in 0..64usize {
        let attacked = square != 37 && (square / 8 == 4 || square % 8 == 5);
        assert_eq!(board.is_square_safe(square), !attacked, "square {}", square);
    }
    assert!(board.is_square_safe(4));
    assert!(!board.is_square_safe(5));

    // A bishop on h4 attacks its two diagonals towards the a-file only.
    let mut board = bare_board();
    board.set_piece_at(31, piece(PieceKind::Bishop, PieceColour::Black));
    for square in 0..64usize {
        let ranks = (square / 8) as i32 - 3;
        let files = (square % 8) as i32 - 7;
        let attacked = square != 31 && ranks.abs() == files.abs();
        assert_eq!(board.is_square_safe(square), !attacked, "square {}", square);
    }

    // A knight on a2 attacks c1, c3 and b4.
    let mut board = bare_board();
    board.set_piece_at(8, piece(PieceKind::Knight, PieceColour::Black));
    for square in 0..64usize {
        let attacked = square == 2 || square == 18 || square == 25;
        assert_eq!(board.is_square_safe(square), !attacked, "square {}", square);
    }

    // A king on a2 attacks the five squares next to it.
    let mut board = bare_board();
    board.set_piece_at(8, piece(PieceKind::King, PieceColour::Black));
    for square in 0..64usize {
        let attacked = [0, 1, 9, 16, 17].contains(&square);
        assert_eq!(board.is_square_safe(square), !attacked, "square {}", square);
    }

    // A black pawn on a3 attacks b2 alone, one on h3 attacks g2 alone.
    let mut board = bare_board();
    board.set_piece_at(16, piece(PieceKind::Pawn, PieceColour::Black));
    board.set_piece_at(23, piece(PieceKind::Pawn, PieceColour::Black));
    for square in 0..64usize {
        let attacked = square == 9 || square == 14;
        assert_eq!(board.is_square_safe(square), !attacked, "square {}", square);
    }

    // A white pawn on h2 attacks g3 alone.
    let mut board = bare_board();
    board.to_move = PieceColour::Black;
    board.set_piece_at(15, piece(PieceKind::Pawn, PieceColour::White));
    for square in 0..64usize {
        assert_eq!(board.is_square_safe(square), square != 22, "square {}", square);
    }
}

#[test]
fn castling_for_black_on_a_consistent_board() {
    let mut board = bare_board();
    board.to_move = PieceColour::Black;
    board.set_piece_at(60, piece(PieceKind::King, PieceColour::Black));
    board.set_piece_at(63, piece(PieceKind::Rook, PieceColour::Black));
    board.set_piece_at(56, piece(PieceKind::Rook, PieceColour::Black));
    board.set_piece_at(4, piece(PieceKind::King, PieceColour::White));
    board.set_piece_at(7, piece(PieceKind::Rook, PieceColour::White));
    assert!(board.can_castle_kingside(PieceColour::Black));
    assert!(board.can_castle_queenside(PieceColour::Black));
    // A white bishop on a3 attacks f8 along the long diagonal.
    board.set_piece_at(16, piece(PieceKind::Bishop, PieceColour::White));
    assert!(!board.is_square_safe(61));
    assert!(!board.can_castle_kingside(PieceColour::Black));
    assert!(board.can_castle_queenside(PieceColour::Black));
    // A white knight on b6 attacks d7 and c8, not the king's path to g8.
    board.set_piece_at(16, piece(PieceKind::Knight, PieceColour::White));
    board.set_piece_at(41, piece(PieceKind::Knight, PieceColour::White));
    assert!(board.can_castle_kingside(PieceColour::Black));
    assert!(!board.is_square_safe(58));
    assert!(!board.can_castle_queenside(PieceColour::Black));
    // The white rook on h1 faces the rook on h8; the king's squares stay safe.
    assert!(board.is_square_safe(60));
    assert!(board.is_square_safe(62));
}

#[test]
fn castling_needs_right_pieces_room_and_safety() {
    let mut board = bare_board();
    board.set_piece_at(4, piece(PieceKind::King, PieceColour::White));
    board.set_piece_at(7, piece(PieceKind::Rook, PieceColour::White));
    board.set_piece_at(0, piece(PieceKind::Rook, PieceColour::White));
    assert!(board.can_castle_kingside(PieceColour::White));
    assert!(board.can_castle_queenside(PieceColour::White));
    // No king and no rook on the eighth rank.
    assert!(!board.can_castle_kingside(PieceColour::Black));
    assert!(!board.can_castle_queenside(PieceColour::Black));
    assert!(board.validate_castling_pieces(4, 7));
    assert!(board.validate_castling_pieces(4, 0));
    assert!(!board.validate_castling_pieces(7, 4));
    assert!(!board.validate_castling_pieces(4, 5));
    assert!(board.king_and_rook_can_castle(4, 7, &[5, 6]));
    assert!(!board.king_and_rook_can_castle(4, 7, &[5, 6, 7]));
    assert!(!board.king_and_rook_can_castle(4, 8, &[5, 6]));

    // Without the right.
    board.update_castling_rights(false, true, true, false);
    assert_eq!(board.castling_rights, [false, true, true, false]);
    assert!(!board.can_castle_kingside(PieceColour::White));
    assert!(board.can_castle_queenside(PieceColour::White));
    board.update_castling_rights(true, false, true, true);
    assert!(board.can_castle_kingside(PieceColour::White));
    assert!(!board.can_castle_queenside(PieceColour::White));
    board.update_castling_rights(true, true, true, true);

    // With a piece in the way.
    board.set_piece_at(6, piece(PieceKind::Knight, PieceColour::White));
    assert!(!board.can_castle_kingside(PieceColour::White));
    assert!(board.can_castle_queenside(PieceColour::White));
    board.set_piece_at(1, piece(PieceKind::Knight, PieceColour::Black));
    assert!(!board.can_castle_queenside(PieceColour::White));

    // Without the rook.
    let mut board = bare_board();
    board.set_piece_at(4, piece(PieceKind::King, PieceColour::White));
    board.set_piece_at(7, piece(PieceKind::Bishop, PieceColour::White));
    assert!(!board.can_castle_kingside(PieceColour::White));
}

#[test]
fn castling_is_refused_across_an_attacked_square() {
    let mut board = bare_board();
    board.set_piece_at(4, piece(PieceKind::King, PieceColour::White));
    board.set_piece_at(7, piece(PieceKind::Rook, PieceColour::White));
    board.set_piece_at(0, piece(PieceKind::Rook, PieceColour::White));
    assert!(board.can_castle_kingside(PieceColour::White));
    // A black rook on f5 attacks f1 down the open file.
    board.set_piece_at(37, piece(PieceKind::Rook, PieceColour::Black));
    assert!(!board.is_square_safe(5));
    assert!(!board.can_castle_kingside(PieceColour::White));
    assert!(board.can_castle_queenside(PieceColour::White));
    // A white pawn on f2 shadows it.
    board.set_piece_at(13, piece(PieceKind::Pawn, PieceColour::White));
    assert!(board.can_castle_kingside(PieceColour::White));
}
