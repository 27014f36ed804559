use chess::board::Board;
use chess::movement::report::Report;
use chess::movement::step::Step;
use chess::pieces::piece::Piece;
use chess::pieces::piece_ext::PieceExt;
use chess::player::player::Player;
use chess::player::turn::Turn;
use chess::Chess;

#[test]
fn default_board_is_standard_layout() {
    let board = Board::get_default_board();

    let expected: [u8; 64] = [
        8, 9, 10, 11, 12, 10, 9, 8,
        7, 7, 7, 7, 7, 7, 7, 7,
        0, 0, 0, 0, 0, 0, 0, 0,
        0, 0, 0, 0, 0, 0, 0, 0,
        0, 0, 0, 0, 0, 0, 0, 0,
        0, 0, 0, 0, 0, 0, 0, 0,
        1, 1, 1, 1, 1, 1, 1, 1,
        2, 3, 4, 5, 6, 4, 3, 2,
    ];

    for index in 0..64 {
        assert_eq!(board[index], expected[index], "square {}", index);
    }

    let contract = Chess::default();
    assert_eq!(contract.get_game_status().get_squares(), Vec::from(expected));
}

#[test]
fn board_string_prints_hex_rows() {
    let board = Board::get_default_board();
    let text = Board::get_board_string(&board[..]);

    let expected = "\n8 9 A B C A 9 8\n7 7 7 7 7 7 7 7\n\
                    0 0 0 0 0 0 0 0\n0 0 0 0 0 0 0 0\n\
                    0 0 0 0 0 0 0 0\n0 0 0 0 0 0 0 0\n\
                    1 1 1 1 1 1 1 1\n2 3 4 5 6 4 3 2\n\n";
    assert_eq!(text, expected);
}

#[test]
fn piece_names() {
    assert_eq!(Piece::get_piece_name(0), "Empty");
    assert_eq!(Piece::get_piece_name(1), "White Pawn");
    assert_eq!(Piece::get_piece_name(2), "White Rook");
    assert_eq!(Piece::get_piece_name(3), "White Knight");
    assert_eq!(Piece::get_piece_name(4), "White Bishop");
    assert_eq!(Piece::get_piece_name(5), "White Queen");
    assert_eq!(Piece::get_piece_name(6), "White King");
    assert_eq!(Piece::get_piece_name(7), "Black Pawn");
    assert_eq!(Piece::get_piece_name(12), "Black King");

    let contract = Chess::default();
    assert_eq!(contract.get_piece_name(4, 7), "White King");
    assert_eq!(contract.get_piece_name_index(4), "Black King");
    assert_eq!(contract.get_piece_name(0, 3), "Empty");
}

#[test]
fn commit_and_revert_restore_the_board() {
    let mut board = Board::new(Board::get_default_board());

    let before_canonical = board.get_board_array();
    let mut before_working = [0u8; 64];
    for index in 0..64u8 {
        before_working[index as usize] = board.get_piece_index(index).get_piece_number();
    }

    // Simulate the opening pawn move e2 to e4 on the working array.
    let mut step = Step::new_index(52, 36, &board);
    step.commit_move(&mut board);

    assert_eq!(board.get_piece_index(52).get_piece_number(), 0);
    assert_eq!(board.get_piece_index(36).get_piece_number(), 1);

    step.revert_move(&mut board);

    // Both representations are bit-identical to the prior state.
    assert_eq!(board.get_board_array(), before_canonical);
    for index in 0..64u8 {
        assert_eq!(
            board.get_piece_index(index).get_piece_number(),
            before_working[index as usize],
            "square {}",
            index
        );
    }
}

#[test]
fn rebuild_twice_yields_identical_reports() {
    let board = Board::new(Board::get_default_board());

    let mut player = Player::new(chess::pieces::piece::Color::WHITE, &board);
    player.build_reports(&board, false);
    let first: Vec<Report> = player.get_movement_report();

    player.build_reports(&board, false);
    let second: Vec<Report> = player.get_movement_report();

    assert_eq!(first.len(), second.len());
    for j in 0..first.len() {
        assert_eq!(
            first[j].piece.get_piece_number(),
            second[j].piece.get_piece_number()
        );
        assert_eq!(first[j].check, second[j].check);
        assert_eq!(first[j].steps.len(), second[j].steps.len());
        for k in 0..first[j].steps.len() {
            assert!(first[j].steps[k] == second[j].steps[k]);
        }
    }
}

#[test]
fn corner_knight_stays_on_the_board() {
    // A lone white knight in the a8 corner reaches exactly two squares;
    // nothing off the board is ever included.
    let mut squares = [0u8; 64];
    squares[0] = 3; // white knight a8
    squares[0 + 7 * 8] = 12; // black king a1
    squares[7 + 6 * 8] = 6; // white king h2

    let board = Board::new(squares);
    let mut player = Player::new(chess::pieces::piece::Color::WHITE, &board);
    player.build_reports(&board, false);

    let reports = player.get_movement_report();
    for report in &reports {
        if report.piece.get_piece_number() == 3 {
            assert_eq!(report.steps.len(), 2);
        }
        for step in &report.steps {
            assert!(step.target_piece.get_column() < 8);
            assert!(step.target_piece.get_row() < 8);
        }
    }
}

#[test]
fn report_records_check_against_rival_king() {
    // A white rook on the same open file as the black king flags check.
    let mut squares = [0u8; 64];
    squares[4 + 7 * 8] = 2; // white rook e1
    squares[4 + 0 * 8] = 12; // black king e8
    squares[0 + 7 * 8] = 6; // white king a1

    let board = Board::new(squares);
    let rook = board.get_piece(4, 7);
    let report = rook.get_movement_report(&board, false);
    assert!(report.is_check());

    // In probe mode the flag is still computed, with no steps kept.
    let probe = rook.get_movement_report(&board, true);
    assert!(probe.is_check());
    assert_eq!(probe.steps.len(), 0);
}

#[test]
fn turn_flips_sides_and_counts() {
    let mut turn = Turn::new(false, 0);
    assert_eq!(turn.get_current_player_boolean(), false);
    assert_eq!(turn.get_value(), 0);

    assert!(turn.next_turn().is_ok());
    assert_eq!(turn.get_current_player_boolean(), true);
    assert_eq!(turn.get_value(), 1);

    let mut late = Turn::new(true, 254);
    assert!(late.next_turn().is_err());
    assert_eq!(late.get_value(), 255);
    assert_eq!(late.get_current_player_boolean(), false);
}

#[test]
fn col_row_to_index_is_row_major() {
    assert_eq!(Report::col_row_to_index(0, 0), 0);
    assert_eq!(Report::col_row_to_index(3, 2), 19);
    assert_eq!(Report::col_row_to_index(7, 7), 63);
}

#[test]
fn get_board_text_wraps_the_square() {
    let contract = Chess::default();
    let text = contract.get_board();
    assert!(text.starts_with("\nBoard:\n"));
    assert!(text.ends_with("\n"));
    assert!(text.contains("8 9 A B C A 9 8"));
}
