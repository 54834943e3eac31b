use chess_core::board::BoardState;
use chess_core::moves::ChessMove;
use chess_core::pieces::{Piece, PieceColour, PieceKind};

fn empty_board() -> BoardState {
    let mut board = BoardState::new();
    board.white_pawns.0 = 0;
    board.black_pawns.0 = 0;
    board.white_knights.0 = 0;
    board.black_knights.0 = 0;
    board.white_bishops.0 = 0;
    board.black_bishops.0 = 0;
    board.white_rooks.0 = 0;
    board.black_rooks.0 = 0;
    board.white_queens.0 = 0;
    board.black_queens.0 = 0;
    board.white_king.0 = 0;
    board.black_king.0 = 0;
    board.all_white.0 = 0;
    board.all_black.0 = 0;
    board.all_pieces.0 = 0;
    board
}

fn put(board: &mut BoardState, square: usize, kind: PieceKind, colour: PieceColour) {
    board.set_piece_at(square, Piece { kind, colour });
}

fn quiet(from: usize, to: usize) -> ChessMove {
    ChessMove { from, to, promotion: None }
}

fn targets(moves: &[ChessMove], from: usize) -> Vec<usize> {
    moves.iter().filter(|m| m.from == from).map(|m| m.to).collect()
}

fn sorted(mut squares: Vec<usize>) -> Vec<usize> {
    squares.sort();
    squares
}

#[test]
fn test_pawn_moves_white() {
    let mut board = BoardState::new();
    let moves = board.generate_moves();

    // Test single pawn move forward
    assert!(moves.contains(&ChessMove {
        from: 8, // a2
        to: 16,  // a3
        promotion: None,
    }));

    // Test double pawn move from starting position
    assert!(moves.contains(&ChessMove {
        from: 8, // a2
        to: 24,  // a4
        promotion: None,
    }));
}

#[test]
fn test_knight_moves() {
    let mut board = BoardState::new();

    // Place a white knight at d4 (square 27)
    board.white_knights.set(27);
    board.all_white.set(27);
    board.all_pieces.set(27);

    let moves = board.generate_moves();

    // Expected moves from d4
    let expected_moves = vec![
        ChessMove { from: 27, to: 44, promotion: None }, // f5
        ChessMove { from: 27, to: 42, promotion: None }, // e5
        ChessMove { from: 27, to: 37, promotion: None }, // c6
        ChessMove { from: 27, to: 33, promotion: None }, // c3
        ChessMove { from: 27, to: 17, promotion: None }, // b6
        ChessMove { from: 27, to: 21, promotion: None }, // b3
        ChessMove { from: 27, to: 12, promotion: None }, // e2
        ChessMove { from: 27, to: 10, promotion: None }, // f2
    ];

    // Check if all expected moves are in the generated moves
    for m in expected_moves {
        assert!(
            moves.contains(&m),
            "Missing expected move: {:?}, generated moves: {:?}",
            m,
            moves
        );
    }
}

#[test]
fn test_pawn_moves_black() {
    let mut board = BoardState::new();
    board.to_move = PieceColour::Black;

    let moves = board.generate_moves();

    // Test single pawn move forward
    assert!(moves.contains(&ChessMove {
        from: 48, // a7
        to: 40,   // a6
        promotion: None,
    }));

    // Test double pawn move from starting position
    assert!(moves.contains(&ChessMove {
        from: 48, // a7
        to: 32,   // a5
        promotion: None,
    }));
}

#[test]
fn test_initial_setup() {
    let board = BoardState::new();

    // Ensure pieces are in starting positions
    assert!(board.white_pawns.is_set(8)); // a2
    assert!(board.black_pawns.is_set(48)); // a7
    assert!(board.white_rooks.is_set(0)); // a1
    assert!(board.black_rooks.is_set(56)); // a8
    assert!(board.white_king.is_set(4)); // e1
    assert!(board.black_king.is_set(60)); // e8
}

#[test]
fn test_castling_moves() {
    let mut board = BoardState::new();

    // Remove obstructing pieces
    board.all_pieces.clear(5); // f1
    board.all_pieces.clear(6); // g1
    board.all_pieces.clear(1); // b1
    board.all_pieces.clear(2); // c1
    board.all_pieces.clear(3); // d1

    // Set explicit castling rights
    board.update_castling_rights(true, true, true, true);

    let moves = board.generate_moves();

    // Validate kingside castling
    assert!(
        moves.contains(&ChessMove { from: 4, to: 6, promotion: None }),
        "Kingside castling move is missing"
    );

    // Validate queenside castling
    assert!(
        moves.contains(&ChessMove { from: 4, to: 2, promotion: None }),
        "Queenside castling move is missing"
    );
}

#[test]
fn test_en_passant() {
    let mut board = BoardState::new();

    // Reset all bitboards to ensure a clean setup
    board.white_pawns.0 = 0;
    board.all_pieces.0 = 0;
    board.all_white.0 = 0;
    board.all_black.0 = 0;

    // Set up white pawn on e5
    board.white_pawns.set(36); // e5
    board.all_pieces.set(36);
    board.all_white.set(36);

    // Set up black pawn on d5 (moved from d7)
    board.black_pawns.set(35); // d5
    board.all_pieces.set(35);
    board.all_black.set(35);

    // Set en passant square
    board.en_passant_square = Some(43); // d6

    // Generate moves for white
    board.to_move = PieceColour::White;
    let moves = board.generate_moves();

    // Check for en passant move
    assert!(moves.contains(&ChessMove {
        from: 36, // e5
        to: 43,  // d6 (en passant capture)
        promotion: None,
    }), "En passant capture is missing");
}

#[test]
fn knight_from_d4_on_an_empty_board() {
    let mut board = empty_board();
    put(&mut board, 27, PieceKind::Knight, PieceColour::White);
    let moves = board.generate_moves();
    assert_eq!(
        moves,
        vec![
            quiet(27, 44),
            quiet(27, 42),
            quiet(27, 37),
            quiet(27, 33),
            quiet(27, 10),
            quiet(27, 12),
            quiet(27, 17),
            quiet(27, 21),
        ]
    );
    assert_eq!(sorted(targets(&moves, 27)), vec![10, 12, 17, 21, 33, 37, 42, 44]);
}

#[test]
fn knight_jumps_do_not_wrap_round_the_edges() {
    let mut board = empty_board();
    put(&mut board, 0, PieceKind::Knight, PieceColour::White);
    put(&mut board, 7, PieceKind::Knight, PieceColour::White);
    put(&mut board, 63, PieceKind::Knight, PieceColour::White);
    put(&mut board, 24, PieceKind::Knight, PieceColour::White);
    let moves = board.generate_moves();
    assert_eq!(targets(&moves, 0), vec![17, 10]);
    assert_eq!(targets(&moves, 7), vec![22, 13]);
    assert_eq!(targets(&moves, 63), vec![46, 53]);
    assert_eq!(targets(&moves, 24), vec![41, 34, 9, 18]);
}

#[test]
fn knight_jumps_go_by_the_board_not_by_occupancy() {
    let mut board = empty_board();
    put(&mut board, 27, PieceKind::Knight, PieceColour::White);
    put(&mut board, 44, PieceKind::Pawn, PieceColour::White);
    put(&mut board, 42, PieceKind::Pawn, PieceColour::Black);
    let moves = board.generate_moves();
    assert_eq!(sorted(targets(&moves, 27)), vec![10, 12, 17, 21, 33, 37, 42, 44]);
}

#[test]
fn generation_is_for_the_side_to_move_only() {
    let mut board = BoardState::new();
    let moves = board.generate_moves();
    assert!(moves.iter().all(|m| m.from < 16));
    let mut board = BoardState::new();
    board.to_move = PieceColour::Black;
    let moves = board.generate_moves();
    assert!(moves.iter().all(|m| m.from >= 48));
}

#[test]
fn pawn_advances_and_their_blockers() {
    let mut board = empty_board();
    put(&mut board, 12, PieceKind::Pawn, PieceColour::White);
    assert_eq!(board.generate_moves(), vec![quiet(12, 20), quiet(12, 28)]);
    assert_eq!(board.en_passant_square, None);

    // The destination of the double advance is taken.
    let mut board = empty_board();
    put(&mut board, 12, PieceKind::Pawn, PieceColour::White);
    put(&mut board, 28, PieceKind::Knight, PieceColour::Black);
    assert_eq!(board.generate_moves(), vec![quiet(12, 20)]);
    assert_eq!(board.en_passant_square, None);

    // The square ahead is taken.
    let mut board = empty_board();
    put(&mut board, 12, PieceKind::Pawn, PieceColour::White);
    put(&mut board, 20, PieceKind::Knight, PieceColour::Black);
    assert_eq!(board.generate_moves(), vec![]);

    // Off the starting rank there is one advance.
    let mut board = empty_board();
    put(&mut board, 20, PieceKind::Pawn, PieceColour::White);
    assert_eq!(board.generate_moves(), vec![quiet(20, 28)]);

    let mut board = empty_board();
    board.to_move = PieceColour::Black;
    put(&mut board, 52, PieceKind::Pawn, PieceColour::Black);
    assert_eq!(board.generate_moves(), vec![quiet(52, 44), quiet(52, 36)]);
    assert_eq!(board.en_passant_square, None);
}

#[test]
fn pawn_captures_go_diagonally_forward() {
    let mut board = empty_board();
    put(&mut board, 27, PieceKind::Pawn, PieceColour::White);
    put(&mut board, 34, PieceKind::Knight, PieceColour::Black);
    put(&mut board, 36, PieceKind::Knight, PieceColour::Black);
    put(&mut board, 35, PieceKind::Knight, PieceColour::Black);
    put(&mut board, 18, PieceKind::Knight, PieceColour::Black);
    put(&mut board, 20, PieceKind::Knight, PieceColour::Black);
    assert_eq!(board.generate_moves(), vec![quiet(27, 34), quiet(27, 36)]);

    // Its own pieces are not taken.
    let mut board = empty_board();
    put(&mut board, 27, PieceKind::Pawn, PieceColour::White);
    put(&mut board, 34, PieceKind::Pawn, PieceColour::White);
    let moves = board.generate_moves();
    assert_eq!(targets(&moves, 27), vec![35]);

    let mut board = empty_board();
    board.to_move = PieceColour::Black;
    put(&mut board, 36, PieceKind::Pawn, PieceColour::Black);
    put(&mut board, 27, PieceKind::Rook, PieceColour::White);
    put(&mut board, 29, PieceKind::Rook, PieceColour::White);
    assert_eq!(board.generate_moves(), vec![quiet(36, 28), quiet(36, 27), quiet(36, 29)]);
}

#[test]
fn pawn_promotes_to_a_queen_on_the_farthest_rank() {
    let mut board = empty_board();
    put(&mut board, 52, PieceKind::Pawn, PieceColour::White);
    put(&mut board, 61, PieceKind::Rook, PieceColour::Black);
    assert_eq!(
        board.generate_moves(),
        vec![
            ChessMove { from: 52, to: 60, promotion: Some(PieceKind::Queen) },
            ChessMove { from: 52, to: 61, promotion: Some(PieceKind::Queen) },
        ]
    );
    assert_eq!(board.promotion_check(60, PieceColour::White), Some(PieceKind::Queen));
    assert_eq!(board.promotion_check(55, PieceColour::White), None);
    assert_eq!(board.promotion_check(56, PieceColour::White), Some(PieceKind::Queen));
    assert_eq!(board.promotion_check(0, PieceColour::White), None);
    assert_eq!(board.promotion_check(7, PieceColour::Black), Some(PieceKind::Queen));
    assert_eq!(board.promotion_check(8, PieceColour::Black), None);
    assert_eq!(board.promotion_check(60, PieceColour::Black), None);

    let mut board = empty_board();
    board.to_move = PieceColour::Black;
    put(&mut board, 9, PieceKind::Pawn, PieceColour::Black);
    assert_eq!(
        board.generate_moves(),
        vec![ChessMove { from: 9, to: 1, promotion: Some(PieceKind::Queen) }]
    );
}

#[test]
fn en_passant_capture_goes_by_colour_and_target() {
    // White captures towards the lower and the higher file.
    for (from, target) in [(36usize, 43usize), (36, 45)] {
        let mut board = empty_board();
        put(&mut board, from, PieceKind::Pawn, PieceColour::White);
        board.en_passant_square = Some(target);
        assert_eq!(board.generate_moves(), vec![quiet(from, from + 8), quiet(from, target)]);
        assert_eq!(board.en_passant_square, Some(target));
        assert!(board.is_valid_en_passant(from, target));
        assert!(!board.is_valid_en_passant(from, target + 1));
    }
    // A target behind the pawn is none of its business.
    let mut board = empty_board();
    put(&mut board, 36, PieceKind::Pawn, PieceColour::White);
    board.en_passant_square = Some(27);
    assert_eq!(board.generate_moves(), vec![quiet(36, 44)]);
    // Black captures downwards.
    let mut board = empty_board();
    board.to_move = PieceColour::Black;
    put(&mut board, 27, PieceKind::Pawn, PieceColour::Black);
    board.en_passant_square = Some(20);
    assert_eq!(board.generate_moves(), vec![quiet(27, 19), quiet(27, 20)]);
    let mut board = empty_board();
    assert!(!board.is_valid_en_passant(36, 43));
    assert_eq!(board.generate_moves(), vec![]);
}

#[test]
fn listing_a_double_advance_sets_no_target() {
    // The pawn on 10 can advance two squares; the pawn on 11 stands
    // diagonally behind the square it would pass.
    let mut board = empty_board();
    put(&mut board, 10, PieceKind::Pawn, PieceColour::White);
    put(&mut board, 11, PieceKind::Pawn, PieceColour::White);
    put(&mut board, 19, PieceKind::Pawn, PieceColour::White);
    let moves = board.generate_moves();
    assert_eq!(moves, vec![quiet(10, 18), quiet(10, 26), quiet(19, 27)]);
    assert_eq!(board.en_passant_square, None);
}

#[test]
fn generation_leaves_the_position_and_repeats() {
    let mut board = empty_board();
    put(&mut board, 14, PieceKind::Pawn, PieceColour::White);
    put(&mut board, 15, PieceKind::Pawn, PieceColour::White);
    put(&mut board, 22, PieceKind::Pawn, PieceColour::Black);
    let zobrist = chess_core::zobrist::ZobristHashing::new();
    let hash = zobrist.compute_hash(&board);
    let first = board.generate_moves();
    assert_eq!(first, vec![quiet(15, 23), quiet(15, 31), quiet(15, 22)]);
    assert_eq!(board.en_passant_square, None);
    assert_eq!(zobrist.compute_hash(&board), hash);
    let second = board.generate_moves();
    assert_eq!(second, first);
    assert!(!second.contains(&quiet(14, 23)));
    assert_eq!(board.en_passant_square, None);

    // A target that is there stays there.
    board.en_passant_square = Some(30);
    let hash = zobrist.compute_hash(&board);
    let third = board.generate_moves();
    assert_eq!(board.generate_moves(), third);
    assert_eq!(board.en_passant_square, Some(30));
    assert_eq!(zobrist.compute_hash(&board), hash);

    let mut start = BoardState::new();
    let hash = zobrist.compute_hash(&start);
    let first = start.generate_moves();
    assert_eq!(start.generate_moves(), first);
    assert_eq!(start.en_passant_square, None);
    assert_eq!(zobrist.compute_hash(&start), hash);
}

#[test]
fn sliding_moves_along_given_directions() {
    let mut board = empty_board();
    put(&mut board, 27, PieceKind::Rook, PieceColour::White);
    put(&mut board, 43, PieceKind::Pawn, PieceColour::Black);
    put(&mut board, 24, PieceKind::Pawn, PieceColour::White);
    let mut moves = vec![quiet(1, 2)];
    board.generate_sliding_moves(27, &[8, -1, 0, 100, -100], &mut moves);
    assert_eq!(
        moves,
        vec![quiet(1, 2), quiet(27, 35), quiet(27, 43), quiet(27, 26), quiet(27, 25)]
    );
    let mut moves = Vec::new();
    board.generate_sliding_moves(27, &[], &mut moves);
    assert_eq!(moves, vec![]);
    let mut moves = Vec::new();
    board.generate_bishop_moves(0, &mut moves);
    assert_eq!(targets(&moves, 0), vec![9, 18, 7, 14, 21, 28, 35, 42, 49, 56, 63]);
}

#[test]
fn rook_rays_stop_at_the_first_occupied_square() {
    let mut board = empty_board();
    put(&mut board, 27, PieceKind::Rook, PieceColour::White);
    put(&mut board, 43, PieceKind::Pawn, PieceColour::Black);
    put(&mut board, 11, PieceKind::Pawn, PieceColour::White);
    put(&mut board, 29, PieceKind::Pawn, PieceColour::White);
    put(&mut board, 25, PieceKind::Pawn, PieceColour::Black);
    let moves = board.generate_moves();
    assert_eq!(targets(&moves, 27), vec![35, 43, 19, 28, 26, 25]);
    assert!(board.is_opponent_piece(43, PieceColour::White));
    assert!(!board.is_opponent_piece(43, PieceColour::Black));
    assert!(board.is_opponent_piece(11, PieceColour::Black));
    assert!(!board.is_opponent_piece(12, PieceColour::Black));
}

#[test]
fn bishop_and_queen_rays() {
    let mut board = empty_board();
    put(&mut board, 27, PieceKind::Bishop, PieceColour::White);
    put(&mut board, 45, PieceKind::Pawn, PieceColour::Black);
    put(&mut board, 34, PieceKind::Pawn, PieceColour::White);
    put(&mut board, 9, PieceKind::Pawn, PieceColour::White);
    put(&mut board, 13, PieceKind::Pawn, PieceColour::Black);
    let moves = board.generate_moves();
    assert_eq!(targets(&moves, 27), vec![36, 45, 18, 20, 13]);

    let mut board = empty_board();
    put(&mut board, 27, PieceKind::Queen, PieceColour::White);
    for blocker in [36, 34, 18, 20, 35, 19, 28, 26] {
        put(&mut board, blocker, PieceKind::Knight, PieceColour::Black);
    }
    let moves = board.generate_moves();
    assert_eq!(targets(&moves, 27), vec![36, 34, 18, 20, 35, 19, 28, 26]);
}

#[test]
fn rays_are_held_to_the_range_of_the_board_only() {
    // The ray of step 1 from h1 runs on into the second rank.
    let mut board = empty_board();
    put(&mut board, 7, PieceKind::Rook, PieceColour::White);
    put(&mut board, 15, PieceKind::Pawn, PieceColour::Black);
    put(&mut board, 10, PieceKind::Pawn, PieceColour::Black);
    put(&mut board, 5, PieceKind::Pawn, PieceColour::Black);
    let moves = board.generate_moves();
    assert_eq!(targets(&moves, 7), vec![15, 8, 9, 10, 6, 5]);
}

#[test]
fn king_steps_and_castling_moves() {
    let mut board = empty_board();
    board.update_castling_rights(false, false, false, false);
    put(&mut board, 27, PieceKind::King, PieceColour::White);
    put(&mut board, 36, PieceKind::Pawn, PieceColour::White);
    put(&mut board, 34, PieceKind::Pawn, PieceColour::Black);
    let moves = board.generate_moves();
    assert_eq!(targets(&moves, 27), vec![34, 18, 20, 35, 19, 28, 26]);

    let mut board = empty_board();
    put(&mut board, 4, PieceKind::King, PieceColour::White);
    put(&mut board, 0, PieceKind::Rook, PieceColour::White);
    put(&mut board, 7, PieceKind::Rook, PieceColour::White);
    put(&mut board, 8, PieceKind::Pawn, PieceColour::Black);
    let moves = board.generate_moves();
    assert_eq!(targets(&moves, 4), vec![13, 11, 12, 5, 3, 6, 2]);
    board.update_castling_rights(false, true, true, true);
    assert_eq!(targets(&board.generate_moves(), 4), vec![13, 11, 12, 5, 3, 2]);
    board.update_castling_rights(true, false, true, true);
    assert_eq!(targets(&board.generate_moves(), 4), vec![13, 11, 12, 5, 3, 6]);
}

#[test]
fn starting_position_has_twenty_pawn_and_knight_moves() {
    let mut board = BoardState::new();
    let moves = board.generate_moves();
    let pawns: Vec<&ChessMove> = moves.iter().filter(|m| (8..16).contains(&m.from)).collect();
    let advances = pawns.iter().filter(|m| m.to == m.from + 8 || m.to == m.from + 16).count();
    assert_eq!(advances, 16);
    assert_eq!(pawns.len(), 16);
    assert_eq!(moves.len(), 22);
    assert_eq!(sorted(targets(&moves, 1)), vec![11, 16, 18]);
    assert_eq!(sorted(targets(&moves, 6)), vec![12, 21, 23]);
    assert_eq!(targets(&moves, 2), vec![]);
    assert_eq!(targets(&moves, 3), vec![]);
    assert!(board.is_pawn_starting_rank(8, PieceColour::White));
    assert!(board.is_pawn_starting_rank(15, PieceColour::White));
    assert!(!board.is_pawn_starting_rank(16, PieceColour::White));
    assert!(!board.is_pawn_starting_rank(7, PieceColour::White));
    assert!(board.is_pawn_starting_rank(48, PieceColour::Black));
    assert!(board.is_pawn_starting_rank(55, PieceColour::Black));
    assert!(!board.is_pawn_starting_rank(56, PieceColour::Black));
    assert!(!board.is_pawn_starting_rank(8, PieceColour::Black));
}

#[test]
fn equal_positions_give_equal_moves() {
    let mut first = BoardState::new();
    let mut second = BoardState::new();
    assert_eq!(first.generate_moves(), second.generate_moves());
    assert_eq!(first.en_passant_square, second.en_passant_square);
    // Generated once more from the same position.
    let again = first.generate_moves();
    assert_eq!(again, second.generate_moves());

    let mut first = empty_board();
    put(&mut first, 27, PieceKind::Queen, PieceColour::White);
    put(&mut first, 45, PieceKind::Pawn, PieceColour::Black);
    let mut second = empty_board();
    put(&mut second, 45, PieceKind::Pawn, PieceColour::Black);
    put(&mut second, 27, PieceKind::Queen, PieceColour::White);
    let mut a = first.generate_moves();
    let mut b = second.generate_moves();
    assert_eq!(a, b);
    a.sort_by_key(|m| (m.from, m.to));
    b.sort_by_key(|m| (m.from, m.to));
    assert_eq!(a, b);
    assert_eq!(first.generate_moves(), second.generate_moves());
}

#[test]
fn colour_opposites() {
    assert_eq!(PieceColour::White.opposite(), PieceColour::Black);
    assert_eq!(PieceColour::Black.opposite(), PieceColour::White);
    assert_eq!(PieceColour::White.opposite().opposite(), PieceColour::White);
}

#[test]
fn every_generated_move_can_be_played() {
    let mut zobrist = chess_core::zobrist::ZobristHashing::new();
    for colour in [PieceColour::White, PieceColour::Black] {
        let mut board = BoardState::new();
        board.to_move = colour;
        let mut moves = board.generate_moves();
        // A middle-game position with open lines, castling and a target.
        let mut open = empty_board();
        open.to_move = colour;
        for (square, kind, side) in [
            (4usize, PieceKind::King, PieceColour::White),
            (0, PieceKind::Rook, PieceColour::White),
            (7, PieceKind::Rook, PieceColour::White),
            (12, PieceKind::Pawn, PieceColour::White),
            (36, PieceKind::Pawn, PieceColour::White),
            (27, PieceKind::Queen, PieceColour::White),
            (60, PieceKind::King, PieceColour::Black),
            (56, PieceKind::Rook, PieceColour::Black),
            (35, PieceKind::Pawn, PieceColour::Black),
            (52, PieceKind::Pawn, PieceColour::Black),
            (42, PieceKind::Bishop, PieceColour::Black),
            (21, PieceKind::Knight, PieceColour::Black),
        ] {
            put(&mut open, square, kind, side);
        }
        open.en_passant_square = Some(43);
        let from_open = open.generate_moves();
        assert!(!from_open.is_empty());
        for chess_move in &from_open {
            assert!(chess_move.from < 64 && chess_move.to < 64);
            let mover = open.piece_at(chess_move.from);
            assert!(mover.is_some());
            let mut played = open.clone();
            played.apply_move(*chess_move, &mut zobrist);
            assert!(played.piece_at(chess_move.to).is_some());
            assert_eq!(played.to_move, colour.opposite());
        }
        moves.retain(|m| m.from < 64 && m.to < 64);
        for chess_move in &moves {
            let mut played = BoardState::new();
            played.to_move = colour;
            let mover = played.piece_at(chess_move.from).unwrap();
            played.apply_move(*chess_move, &mut zobrist);
            assert_eq!(played.piece_at(chess_move.to).map(|p| p.colour), Some(mover.colour));
        }
        assert!(!moves.is_empty());
    }
}
