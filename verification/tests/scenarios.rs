use chess::game::Game;
use chess::Chess;

fn custom_game(squares: Vec<u8>, black_to_move: bool) -> Chess {
    Chess {
        game: Game {
            squares,
            turn: 0,
            player_turn: black_to_move,
            game_over: false,
            black_check: false,
            white_check: false,
        },
    }
}

#[test]
fn legal_opening_move() {
    let mut contract = Chess::default();

    // Move the white king's pawn one square forward: e2 to e3.
    let response = contract.move_to(4, 6, 4, 5);
    assert_eq!(response, "Move successful.");

    let status = contract.get_game_status();
    assert_eq!(status.get_player_turn(), true);
    assert_eq!(status.get_turn(), 1);
    assert!(!status.is_game_over());

    let board = status.get_squares();
    let start = chess::board::Board::get_default_board();
    assert_eq!(board[4 + 6 * 8], 0);
    assert_eq!(board[4 + 5 * 8], 1);
    for index in 0..64 {
        if index != 4 + 6 * 8 && index != 4 + 5 * 8 {
            assert_eq!(board[index], start[index], "square {} changed", index);
        }
    }
}

#[test]
fn rejected_self_check() {
    // White king e1, white rook e4, black rook e8, black king a8.  Moving
    // the white rook off the e-file exposes the white king to the black
    // rook and must be rejected with the board unchanged.
    let mut squares = vec![0u8; 64];
    squares[4 + 0 * 8] = 8; // black rook e8
    squares[0 + 0 * 8] = 12; // black king a8
    squares[4 + 4 * 8] = 2; // white rook e4
    squares[4 + 7 * 8] = 6; // white king e1
    let before = squares.clone();

    let mut contract = custom_game(squares, false);

    let response = contract.move_to(4, 4, 3, 4);
    assert_eq!(response, "King is currently under check");

    let status = contract.get_game_status();
    assert_eq!(status.get_squares(), before);
    assert_eq!(status.get_turn(), 0);
    assert_eq!(status.get_player_turn(), false);
    assert!(!status.is_game_over());
}

#[test]
fn back_rank_checkmate() {
    // Black king e8 boxed in by its own pawns d7, e7, f7; white rook a1,
    // white king h1.  Rook to a8 delivers a back-rank mate.
    let mut squares = vec![0u8; 64];
    squares[4 + 0 * 8] = 12; // black king e8
    squares[3 + 1 * 8] = 7; // black pawn d7
    squares[4 + 1 * 8] = 7; // black pawn e7
    squares[5 + 1 * 8] = 7; // black pawn f7
    squares[0 + 7 * 8] = 2; // white rook a1
    squares[7 + 7 * 8] = 6; // white king h1

    let mut contract = custom_game(squares, false);

    let response = contract.move_to(0, 7, 0, 0);
    assert_eq!(response, "CheckMate");

    let status = contract.get_game_status();
    assert!(status.is_black_check());
    assert!(status.is_game_over());

    // The mating move is committed before the game ends.
    let board = status.get_squares();
    assert_eq!(board[0 + 0 * 8], 2);
    assert_eq!(board[0 + 7 * 8], 0);
}

#[test]
fn escapable_check_is_not_checkmate() {
    // As above, but without the pawn on d7: the black king can flee to d7.
    let mut squares = vec![0u8; 64];
    squares[4 + 0 * 8] = 12; // black king e8
    squares[4 + 1 * 8] = 7; // black pawn e7
    squares[5 + 1 * 8] = 7; // black pawn f7
    squares[0 + 7 * 8] = 2; // white rook a1
    squares[7 + 7 * 8] = 6; // white king h1

    let mut contract = custom_game(squares, false);

    let response = contract.move_to(0, 7, 0, 0);
    assert_eq!(response, "Move successful.");

    let status = contract.get_game_status();
    assert!(status.is_black_check());
    assert!(!status.is_game_over());
    assert_eq!(status.get_player_turn(), true);

    // And the king can indeed step out of check.
    let response = contract.move_to(4, 0, 3, 1);
    assert_eq!(response, "Move successful.");
    let status = contract.get_game_status();
    assert!(!status.is_black_check());
}

#[test]
fn illegal_move_rejected() {
    let mut contract = Chess::default();

    // A rook cannot move diagonally (nor through its own pawns).
    let response = contract.move_to(0, 7, 2, 5);
    assert_eq!(response, "Invalid move. ");

    let status = contract.get_game_status();
    assert_eq!(status.get_squares(), Vec::from(chess::board::Board::get_default_board()));
    assert_eq!(status.get_turn(), 0);
    assert_eq!(status.get_player_turn(), false);
}

#[test]
fn rival_piece_rejected() {
    let mut contract = Chess::default();

    // White to move may not move a black pawn.
    let response = contract.move_to(0, 1, 0, 2);
    assert_eq!(response, "A rival player owns this piece. ");

    let status = contract.get_game_status();
    assert_eq!(status.get_turn(), 0);
    assert_eq!(status.get_player_turn(), false);
}

#[test]
fn empty_origin_rejected() {
    let mut contract = Chess::default();

    // An empty origin square belongs to nobody, so the request is treated
    // as naming a rival's piece.
    let response = contract.move_to(0, 3, 0, 4);
    assert_eq!(response, "A rival player owns this piece. ");
}

#[test]
fn out_of_range_arguments_rejected() {
    let mut contract = Chess::default();

    let response = contract.move_to_index(64, 0);
    assert_eq!(response, "Invalid Arguments. Must be lower than 64.");

    let response = contract.move_to_index(0, 200);
    assert_eq!(response, "Invalid Arguments. Must be lower than 64.");
}

#[test]
fn counter_ceiling_ends_the_game() {
    let mut contract = Chess::default();

    // Bounce the knights until the move counter reaches its ceiling.
    // Each cycle of four legal moves returns the board to the start.
    for _cycle in 0..63 {
        assert_eq!(contract.move_to(1, 7, 2, 5), "Move successful.");
        assert_eq!(contract.move_to(1, 0, 2, 2), "Move successful.");
        assert_eq!(contract.move_to(2, 5, 1, 7), "Move successful.");
        assert_eq!(contract.move_to(2, 2, 1, 0), "Move successful.");
    }
    assert_eq!(contract.get_game_status().get_turn(), 252);

    assert_eq!(contract.move_to(1, 7, 2, 5), "Move successful.");
    assert_eq!(contract.move_to(1, 0, 2, 2), "Move successful.");

    // The 255th move is committed, but the game is over.
    let response = contract.move_to(2, 5, 1, 7);
    assert_eq!(response, "Game is already over");

    let status = contract.get_game_status();
    assert!(status.is_game_over());
    assert_eq!(status.get_turn(), 255);
    // The move itself stands: the knight is back on b1.
    assert_eq!(status.get_squares()[1 + 7 * 8], 3);

    // Any further request is refused up front.
    let response = contract.move_to(1, 0, 2, 2);
    assert_eq!(response, "Game already over, check status or call reset.");

    // Reset brings back a fresh game.
    assert_eq!(contract.reset_game(), "Reset successful.");
    let status = contract.get_game_status();
    assert!(!status.is_game_over());
    assert_eq!(status.get_turn(), 0);
}

#[test]
fn pawn_cannot_double_step_off_start_rank() {
    let mut contract = Chess::default();

    assert_eq!(contract.move_to(4, 6, 4, 5), "Move successful.");
    assert_eq!(contract.move_to(0, 1, 0, 2), "Move successful.");

    // The pawn on e3 is no longer on its starting rank.
    let response = contract.move_to(4, 5, 4, 3);
    assert_eq!(response, "Invalid move. ");
}

#[test]
fn pawn_cannot_capture_straight_ahead() {
    // White pawn e4 faces a black pawn e5; kings far apart.
    let mut squares = vec![0u8; 64];
    squares[4 + 4 * 8] = 1; // white pawn e4
    squares[4 + 3 * 8] = 7; // black pawn e5
    squares[4 + 7 * 8] = 6; // white king e1
    squares[4 + 0 * 8] = 12; // black king e8

    let mut contract = custom_game(squares, false);

    let response = contract.move_to(4, 4, 4, 3);
    assert_eq!(response, "Invalid move. ");
}

#[test]
fn pawn_cannot_advance_diagonally_onto_empty() {
    let mut squares = vec![0u8; 64];
    squares[4 + 4 * 8] = 1; // white pawn e4
    squares[4 + 7 * 8] = 6; // white king e1
    squares[4 + 0 * 8] = 12; // black king e8

    let mut contract = custom_game(squares, false);

    let response = contract.move_to(4, 4, 3, 3);
    assert_eq!(response, "Invalid move. ");

    // Onto a rival piece the very same diagonal is a capture.
    let mut squares = vec![0u8; 64];
    squares[4 + 4 * 8] = 1; // white pawn e4
    squares[3 + 3 * 8] = 7; // black pawn d5
    squares[4 + 7 * 8] = 6; // white king e1
    squares[4 + 0 * 8] = 12; // black king e8

    let mut contract = custom_game(squares, false);

    let response = contract.move_to(4, 4, 3, 3);
    assert_eq!(response, "Move successful.");
    assert_eq!(contract.get_game_status().get_squares()[3 + 3 * 8], 1);
}

#[test]
fn pawn_double_step_needs_empty_intervening_square() {
    // A black rook stands on e3, right in front of the white pawn on e2.
    let mut squares = vec![0u8; 64];
    squares[4 + 6 * 8] = 1; // white pawn e2
    squares[4 + 5 * 8] = 8; // black rook e3
    squares[0 + 7 * 8] = 6; // white king a1
    squares[7 + 0 * 8] = 12; // black king h8

    let mut contract = custom_game(squares, false);

    let response = contract.move_to(4, 6, 4, 4);
    assert_eq!(response, "Invalid move. ");
}
