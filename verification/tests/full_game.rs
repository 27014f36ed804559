use chess::board::Board;
use chess::game::Game;
use chess::Chess;

fn board_equals(board: Vec<u8>, other: [u8; 64]) -> bool {
    assert_eq!(board.len(), 64, "Board Length is {}.", board.len());
    for index in 0..board.len() {
        if board[index] != other[index] {
            println!("{}", Board::get_board_string(&board[..]));
            return false;
        }
    }
    true
}

fn assert_move(
    contract: &mut Chess,
    start_col: u8,
    start_row: u8,
    end_col: u8,
    end_row: u8,
    counter: u8,
    squares: [u8; 64],
) {
    println!("Step: {}", counter);
    println!(
        "{}",
        &contract.move_to(start_col, start_row, end_col, end_row)[..]
    );

    let game_status: Game = contract.get_game_status();

    let board: Vec<u8> = game_status.get_squares();

    println!(
        "{}{}\n{}{}\n{}{}\n{}{}\n{}{}\n",
        "turn: ",
        game_status.get_turn(),
        "player_turn: ",
        game_status.get_player_turn(),
        "game_over: ",
        game_status.is_game_over(),
        "black_check: ",
        game_status.is_black_check(),
        "white_check: ",
        game_status.is_white_check(),
    );

    assert!(board_equals(board, squares));
}

fn assert_black_checkmate(contract: &mut Chess) {
    let game_status: Game = contract.get_game_status();
    let black_check: bool = game_status.is_black_check();
    let board: Vec<u8> = game_status.get_squares();
    println!("{}", Board::get_board_string(&board[..]));

    assert!(black_check, "Black was supposed to be under checkmate here");
}

#[test]
fn full_game() {
    let mut contract = Chess::default();
    let game: Game = contract.get_game_status();
    let board: Vec<u8> = game.get_game_status_game().get_squares();

    assert!(board_equals(board, 
        [
            8, 9, 10, 11, 12, 10, 9, 8,
            7, 7,  7,  7,  7,  7, 7, 7,
            0, 0,  0,  0,  0,  0, 0, 0,
            0, 0,  0,  0,  0,  0, 0, 0,
            0, 0,  0,  0,  0,  0, 0, 0,
            0, 0,  0,  0,  0,  0, 0, 0,
            1, 1,  1,  1,  1,  1, 1, 1,
            2, 3,  4,  5,  6,  4, 3, 2,
        ])
    );

    assert_move(
        &mut contract, 
        1, 
        6, 
        1, 
        4, 
        1,
        [
            8, 9, 10, 11, 12, 10, 9, 8,
            7, 7,  7,  7,  7,  7, 7, 7,
            0, 0,  0,  0,  0,  0, 0, 0,
            0, 0,  0,  0,  0,  0, 0, 0,
            0, 1,  0,  0,  0,  0, 0, 0,
            0, 0,  0,  0,  0,  0, 0, 0,
            1, 0,  1,  1,  1,  1, 1, 1,
            2, 3,  4,  5,  6,  4, 3, 2,
        ],
    );

    assert_move(
        &mut contract, 
        1, 
        1, 
        1, 
        3, 
        2,
        [
            8, 9, 10, 11, 12, 10, 9, 8,
            7, 0,  7,  7,  7,  7, 7, 7,
            0, 0,  0,  0,  0,  0, 0, 0,
            0, 7,  0,  0,  0,  0, 0, 0,
            0, 1,  0,  0,  0,  0, 0, 0,
            0, 0,  0,  0,  0,  0, 0, 0,
            1, 0,  1,  1,  1,  1, 1, 1,
            2, 3,  4,  5,  6,  4, 3, 2,
        ],
    );

    assert_move(
        &mut contract, 
        1, 
        7, 
        2, 
        5, 
        3,
        [
            8, 9, 10, 11, 12, 10, 9, 8,
            7, 0,  7,  7,  7,  7, 7, 7,
            0, 0,  0,  0,  0,  0, 0, 0,
            0, 7,  0,  0,  0,  0, 0, 0,
            0, 1,  0,  0,  0,  0, 0, 0,
            0, 0,  3,  0,  0,  0, 0, 0,
            1, 0,  1,  1,  1,  1, 1, 1,
            2, 0,  4,  5,  6,  4, 3, 2,
        ],
    );

    assert_move(
        &mut contract, 
        3, 
        1, 
        3, 
        2, 
        4,
        [
            8, 9, 10, 11, 12, 10, 9, 8,
            7, 0,  7,  0,  7,  7, 7, 7,
            0, 0,  0,  7,  0,  0, 0, 0,
            0, 7,  0,  0,  0,  0, 0, 0,
            0, 1,  0,  0,  0,  0, 0, 0,
            0, 0,  3,  0,  0,  0, 0, 0,
            1, 0,  1,  1,  1,  1, 1, 1,
            2, 0,  4,  5,  6,  4, 3, 2,
        ],
    );

    assert_move(
        &mut contract, 
        0, 
        6, 
        0, 
        5, 
        5,
        [
            8, 9, 10, 11, 12, 10, 9, 8,
            7, 0,  7,  0,  7,  7, 7, 7,
            0, 0,  0,  7,  0,  0, 0, 0,
            0, 7,  0,  0,  0,  0, 0, 0,
            0, 1,  0,  0,  0,  0, 0, 0,
            1, 0,  3,  0,  0,  0, 0, 0,
            0, 0,  1,  1,  1,  1, 1, 1,
            2, 0,  4,  5,  6,  4, 3, 2,
        ],
    );

    assert_move(
        &mut contract, 
        2, 
        0, 
        0, 
        2, 
        6,
        [
            8,  9,  0, 11, 12, 10, 9, 8,
            7,  0,  7,  0,  7,  7, 7, 7,
            10, 0,  0,  7,  0,  0, 0, 0,
            0,  7,  0,  0,  0,  0, 0, 0,
            0,  1,  0,  0,  0,  0, 0, 0,
            1,  0,  3,  0,  0,  0, 0, 0,
            0,  0,  1,  1,  1,  1, 1, 1,
            2,  0,  4,  5,  6,  4, 3, 2,
        ],
    );

    assert_move(
        &mut contract, 
        7, 
        6, 
        7, 
        4, 
        7,
        [
            8,  9,  0, 11, 12, 10, 9, 8,
            7,  0,  7,  0,  7,  7, 7, 7,
            10, 0,  0,  7,  0,  0, 0, 0,
            0,  7,  0,  0,  0,  0, 0, 0,
            0,  1,  0,  0,  0,  0, 0, 1,
            1,  0,  3,  0,  0,  0, 0, 0,
            0,  0,  1,  1,  1,  1, 1, 0,
            2,  0,  4,  5,  6,  4, 3, 2,
        ],
    );

    assert_move(
        &mut contract, 
        6, 
        1, 
        6, 
        2, 
        8,
        [
            8,  9,  0, 11, 12, 10, 9, 8,
            7,  0,  7,  0,  7,  7, 0, 7,
            10, 0,  0,  7,  0,  0, 7, 0,
            0,  7,  0,  0,  0,  0, 0, 0,
            0,  1,  0,  0,  0,  0, 0, 1,
            1,  0,  3,  0,  0,  0, 0, 0,
            0,  0,  1,  1,  1,  1, 1, 0,
            2,  0,  4,  5,  6,  4, 3, 2,
        ],
    );

    assert_move(
        &mut contract, 
        7, 
        7, 
        7, 
        5, 
        9,
        [
            8,  9,  0, 11, 12, 10, 9,  8,
            7,  0,  7,  0,  7,  7, 0,  7,
            10, 0,  0,  7,  0,  0, 7,  0,
            0,  7,  0,  0,  0,  0, 0,  0,
            0,  1,  0,  0,  0,  0, 0,  1,
            1,  0,  3,  0,  0,  0, 0,  2,
            0,  0,  1,  1,  1,  1, 1,  0,
            2,  0,  4,  5,  6,  4, 3,  0,
        ],
    );

    assert_move(
        &mut contract, 
        5, 
        0, 
        7, 
        2, 
        10,
        [
            8,  9,  0, 11, 12,  0, 9,  8,
            7,  0,  7,  0,  7,  7, 0,  7,
            10, 0,  0,  7,  0,  0, 7, 10,
            0,  7,  0,  0,  0,  0, 0,  0,
            0,  1,  0,  0,  0,  0, 0,  1,
            1,  0,  3,  0,  0,  0, 0,  2,
            0,  0,  1,  1,  1,  1, 1,  0,
            2,  0,  4,  5,  6,  4, 3,  0,
        ],
    );

    // white
    assert_move(
        &mut contract, 
        3, 
        6, 
        3, 
        4, 
        11,
        [
            8,  9,  0, 11, 12,  0, 9,  8,
            7,  0,  7,  0,  7,  7, 0,  7,
            10, 0,  0,  7,  0,  0, 7, 10,
            0,  7,  0,  0,  0,  0, 0,  0,
            0,  1,  0,  1,  0,  0, 0,  1,
            1,  0,  3,  0,  0,  0, 0,  2,
            0,  0,  1,  0,  1,  1, 1,  0,
            2,  0,  4,  5,  6,  4, 3,  0,
        ],
    );

    // black
    assert_move(
        &mut contract, 
        3, 
        0, 
        3, 
        1, 
        12,
        [
            8,  9,  0,  0, 12,  0, 9,  8,
            7,  0,  7, 11,  7,  7, 0,  7,
            10, 0,  0,  7,  0,  0, 7, 10,
            0,  7,  0,  0,  0,  0, 0,  0,
            0,  1,  0,  1,  0,  0, 0,  1,
            1,  0,  3,  0,  0,  0, 0,  2,
            0,  0,  1,  0,  1,  1, 1,  0,
            2,  0,  4,  5,  6,  4, 3,  0,
        ],
    );

    // white
    assert_move(
        &mut contract, 
        2, 
        5, 
        1, 
        3, 
        13,
        [
            8,  9,  0,  0, 12,  0, 9,  8,
            7,  0,  7, 11,  7,  7, 0,  7,
            10, 0,  0,  7,  0,  0, 7, 10,
            0,  3,  0,  0,  0,  0, 0,  0,
            0,  1,  0,  1,  0,  0, 0,  1,
            1,  0,  0,  0,  0,  0, 0,  2,
            0,  0,  1,  0,  1,  1, 1,  0,
            2,  0,  4,  5,  6,  4, 3,  0,
        ],
    );

    // black
    assert_move(
        &mut contract, 
        0, 
        2, 
        1, 
        3, 
        14,
        [
            8,  9,  0,  0, 12,  0, 9,  8,
            7,  0,  7, 11,  7,  7, 0,  7,
            0,  0,  0,  7,  0,  0, 7, 10,
            0, 10,  0,  0,  0,  0, 0,  0,
            0,  1,  0,  1,  0,  0, 0,  1,
            1,  0,  0,  0,  0,  0, 0,  2,
            0,  0,  1,  0,  1,  1, 1,  0,
            2,  0,  4,  5,  6,  4, 3,  0,
        ],
    );

    // white
    assert_move(
        &mut contract, 
        3, 
        7, 
        3, 
        5, 
        15,
        [
            8,  9,  0,  0, 12,  0, 9,  8,
            7,  0,  7, 11,  7,  7, 0,  7,
            0,  0,  0,  7,  0,  0, 7, 10,
            0, 10,  0,  0,  0,  0, 0,  0,
            0,  1,  0,  1,  0,  0, 0,  1,
            1,  0,  0,  5,  0,  0, 0,  2,
            0,  0,  1,  0,  1,  1, 1,  0,
            2,  0,  4,  0,  6,  4, 3,  0,
        ],
    );

    // black
    assert_move(
        &mut contract, 
        1, 
        3, 
        3, 
        5, 
        16,
        [
            8,  9,  0,  0, 12,  0, 9,  8,
            7,  0,  7, 11,  7,  7, 0,  7,
            0,  0,  0,  7,  0,  0, 7, 10,
            0,  0,  0,  0,  0,  0, 0,  0,
            0,  1,  0,  1,  0,  0, 0,  1,
            1,  0,  0, 10,  0,  0, 0,  2,
            0,  0,  1,  0,  1,  1, 1,  0,
            2,  0,  4,  0,  6,  4, 3,  0,
        ],
    );

    // white
    assert_move(
        &mut contract, 
        4, 
        6, 
        3, 
        5, 
        17,
        [
            8,  9,  0,  0, 12,  0, 9,  8,
            7,  0,  7, 11,  7,  7, 0,  7,
            0,  0,  0,  7,  0,  0, 7, 10,
            0,  0,  0,  0,  0,  0, 0,  0,
            0,  1,  0,  1,  0,  0, 0,  1,
            1,  0,  0,  1,  0,  0, 0,  2,
            0,  0,  1,  0,  0,  1, 1,  0,
            2,  0,  4,  0,  6,  4, 3,  0,
        ],
    );

    // black
    assert_move(
        &mut contract, 
        3, 
        1, 
        7, 
        5, 
        18,
        [
            8,  9,  0,  0, 12,  0,  9,  8,
            7,  0,  7,  0,  7,  7,  0,  7,
            0,  0,  0,  7,  0,  0,  7, 10,
            0,  0,  0,  0,  0,  0,  0,  0,
            0,  1,  0,  1,  0,  0,  0,  1,
            1,  0,  0,  1,  0,  0,  0, 11,
            0,  0,  1,  0,  0,  1,  1,  0,
            2,  0,  4,  0,  6,  4,  3,  0,
        ],
    );

    // white
    assert_move(
        &mut contract, 
        6, 
        6, 
        7, 
        5, 
        19,
        [
            8,  9,  0,  0, 12,  0,  9,  8,
            7,  0,  7,  0,  7,  7,  0,  7,
            0,  0,  0,  7,  0,  0,  7, 10,
            0,  0,  0,  0,  0,  0,  0,  0,
            0,  1,  0,  1,  0,  0,  0,  1,
            1,  0,  0,  1,  0,  0,  0,  1,
            0,  0,  1,  0,  0,  1,  0,  0,
            2,  0,  4,  0,  6,  4,  3,  0,
        ],
    );

    // black
    assert_move(
        &mut contract, 
        7, 
        2, 
        2, 
        7, 
        20,
        [
            8,  9,  0,  0, 12,  0,  9,  8,
            7,  0,  7,  0,  7,  7,  0,  7,
            0,  0,  0,  7,  0,  0,  7,  0,
            0,  0,  0,  0,  0,  0,  0,  0,
            0,  1,  0,  1,  0,  0,  0,  1,
            1,  0,  0,  1,  0,  0,  0,  1,
            0,  0,  1,  0,  0,  1,  0,  0,
            2,  0, 10,  0,  6,  4,  3,  0,
        ],
    );

    // white
    assert_move(
        &mut contract, 
        0, 
        7, 
        2, 
        7, 
        21,
        [
            8,  9,  0,  0, 12,  0,  9,  8,
            7,  0,  7,  0,  7,  7,  0,  7,
            0,  0,  0,  7,  0,  0,  7,  0,
            0,  0,  0,  0,  0,  0,  0,  0,
            0,  1,  0,  1,  0,  0,  0,  1,
            1,  0,  0,  1,  0,  0,  0,  1,
            0,  0,  1,  0,  0,  1,  0,  0,
            0,  0,  2,  0,  6,  4,  3,  0,
        ],
    );

    // black
    assert_move(
        &mut contract, 
        1, 
        0, 
        2, 
        2, 
        22,
        [
            8,  0,  0,  0, 12,  0,  9,  8,
            7,  0,  7,  0,  7,  7,  0,  7,
            0,  0,  9,  7,  0,  0,  7,  0,
            0,  0,  0,  0,  0,  0,  0,  0,
            0,  1,  0,  1,  0,  0,  0,  1,
            1,  0,  0,  1,  0,  0,  0,  1,
            0,  0,  1,  0,  0,  1,  0,  0,
            0,  0,  2,  0,  6,  4,  3,  0,
        ],
    );

    // white
    assert_move(
        &mut contract, 
        2, 
        7, 
        1, 
        7, 
        23,
        [
            8,  0,  0,  0, 12,  0,  9,  8,
            7,  0,  7,  0,  7,  7,  0,  7,
            0,  0,  9,  7,  0,  0,  7,  0,
            0,  0,  0,  0,  0,  0,  0,  0,
            0,  1,  0,  1,  0,  0,  0,  1,
            1,  0,  0,  1,  0,  0,  0,  1,
            0,  0,  1,  0,  0,  1,  0,  0,
            0,  2,  0,  0,  6,  4,  3,  0,
        ],
    );

    // black
    assert_move(
        &mut contract, 
        6, 
        2, 
        6, 
        3, 
        24,
        [
            8,  0,  0,  0, 12,  0,  9,  8,
            7,  0,  7,  0,  7,  7,  0,  7,
            0,  0,  9,  7,  0,  0,  0,  0,
            0,  0,  0,  0,  0,  0,  7,  0,
            0,  1,  0,  1,  0,  0,  0,  1,
            1,  0,  0,  1,  0,  0,  0,  1,
            0,  0,  1,  0,  0,  1,  0,  0,
            0,  2,  0,  0,  6,  4,  3,  0,
        ],
    );

    // white
    assert_move(
        &mut contract, 
        6, 
        7, 
        5, 
        5, 
        25,
        [
            8,  0,  0,  0, 12,  0,  9,  8,
            7,  0,  7,  0,  7,  7,  0,  7,
            0,  0,  9,  7,  0,  0,  0,  0,
            0,  0,  0,  0,  0,  0,  7,  0,
            0,  1,  0,  1,  0,  0,  0,  1,
            1,  0,  0,  1,  0,  3,  0,  1,
            0,  0,  1,  0,  0,  1,  0,  0,
            0,  2,  0,  0,  6,  4,  0,  0,
        ],
    );

    // black
    assert_move(
        &mut contract, 
        0, 
        1, 
        0, 
        3, 
        26,
        [
            8,  0,  0,  0, 12,  0,  9,  8,
            0,  0,  7,  0,  7,  7,  0,  7,
            0,  0,  9,  7,  0,  0,  0,  0,
            7,  0,  0,  0,  0,  0,  7,  0,
            0,  1,  0,  1,  0,  0,  0,  1,
            1,  0,  0,  1,  0,  3,  0,  1,
            0,  0,  1,  0,  0,  1,  0,  0,
            0,  2,  0,  0,  6,  4,  0,  0,
        ],
    );

    // white
    assert_move(
        &mut contract, 
        1, 
        4, 
        0, 
        3, 
        27,
        [
            8,  0,  0,  0, 12,  0,  9,  8,
            0,  0,  7,  0,  7,  7,  0,  7,
            0,  0,  9,  7,  0,  0,  0,  0,
            1,  0,  0,  0,  0,  0,  7,  0,
            0,  0,  0,  1,  0,  0,  0,  1,
            1,  0,  0,  1,  0,  3,  0,  1,
            0,  0,  1,  0,  0,  1,  0,  0,
            0,  2,  0,  0,  6,  4,  0,  0,
        ],
    );

    // black
    assert_move(
        &mut contract, 
        6, 
        0, 
        7, 
        2, 
        28,
        [
            8,  0,  0,  0, 12,  0,  0,  8,
            0,  0,  7,  0,  7,  7,  0,  7,
            0,  0,  9,  7,  0,  0,  0,  9,
            1,  0,  0,  0,  0,  0,  7,  0,
            0,  0,  0,  1,  0,  0,  0,  1,
            1,  0,  0,  1,  0,  3,  0,  1,
            0,  0,  1,  0,  0,  1,  0,  0,
            0,  2,  0,  0,  6,  4,  0,  0,
        ],
    );

    // white
    assert_move(
        &mut contract, 
        5, 
        5, 
        4, 
        3, 
        29,
        [
            8,  0,  0,  0, 12,  0,  0,  8,
            0,  0,  7,  0,  7,  7,  0,  7,
            0,  0,  9,  7,  0,  0,  0,  9,
            1,  0,  0,  0,  3,  0,  7,  0,
            0,  0,  0,  1,  0,  0,  0,  1,
            1,  0,  0,  1,  0,  0,  0,  1,
            0,  0,  1,  0,  0,  1,  0,  0,
            0,  2,  0,  0,  6,  4,  0,  0,
        ],
    );

    // black
    assert_move(
        &mut contract, 
        6, 
        3, 
        6, 
        4, 
        30,
        [
            8,  0,  0,  0, 12,  0,  0,  8,
            0,  0,  7,  0,  7,  7,  0,  7,
            0,  0,  9,  7,  0,  0,  0,  9,
            1,  0,  0,  0,  3,  0,  0,  0,
            0,  0,  0,  1,  0,  0,  7,  1,
            1,  0,  0,  1,  0,  0,  0,  1,
            0,  0,  1,  0,  0,  1,  0,  0,
            0,  2,  0,  0,  6,  4,  0,  0,
        ],
    );

    // white
    assert_move(
        &mut contract, 
        7, 
        5, 
        6, 
        4, 
        31,
        [
            8,  0,  0,  0, 12,  0,  0,  8,
            0,  0,  7,  0,  7,  7,  0,  7,
            0,  0,  9,  7,  0,  0,  0,  9,
            1,  0,  0,  0,  3,  0,  0,  0,
            0,  0,  0,  1,  0,  0,  1,  1,
            1,  0,  0,  1,  0,  0,  0,  0,
            0,  0,  1,  0,  0,  1,  0,  0,
            0,  2,  0,  0,  6,  4,  0,  0,
        ],
    );

    // black
    assert_move(
        &mut contract, 
        7, 
        2, 
        6, 
        4, 
        32,
        [
            8,  0,  0,  0, 12,  0,  0,  8,
            0,  0,  7,  0,  7,  7,  0,  7,
            0,  0,  9,  7,  0,  0,  0,  0,
            1,  0,  0,  0,  3,  0,  0,  0,
            0,  0,  0,  1,  0,  0,  9,  1,
            1,  0,  0,  1,  0,  0,  0,  0,
            0,  0,  1,  0,  0,  1,  0,  0,
            0,  2,  0,  0,  6,  4,  0,  0,
        ],
    );

    // white
    assert_move(
        &mut contract, 
        5, 
        7, 
        7, 
        5, 
        33,
        [
            8,  0,  0,  0, 12,  0,  0,  8,
            0,  0,  7,  0,  7,  7,  0,  7,
            0,  0,  9,  7,  0,  0,  0,  0,
            1,  0,  0,  0,  3,  0,  0,  0,
            0,  0,  0,  1,  0,  0,  9,  1,
            1,  0,  0,  1,  0,  0,  0,  4,
            0,  0,  1,  0,  0,  1,  0,  0,
            0,  2,  0,  0,  6,  0,  0,  0,
        ],
    );

    // black
    assert_move(
        &mut contract, 
        2, 
        2, 
        3, 
        4, 
        34,
        [
            8,  0,  0,  0, 12,  0,  0,  8,
            0,  0,  7,  0,  7,  7,  0,  7,
            0,  0,  0,  7,  0,  0,  0,  0,
            1,  0,  0,  0,  3,  0,  0,  0,
            0,  0,  0,  9,  0,  0,  9,  1,
            1,  0,  0,  1,  0,  0,  0,  4,
            0,  0,  1,  0,  0,  1,  0,  0,
            0,  2,  0,  0,  6,  0,  0,  0,
        ],
    );

    // white
    assert_move(
        &mut contract, 
        7, 
        5, 
        6, 
        4, 
        35,
        [
            8,  0,  0,  0, 12,  0,  0,  8,
            0,  0,  7,  0,  7,  7,  0,  7,
            0,  0,  0,  7,  0,  0,  0,  0,
            1,  0,  0,  0,  3,  0,  0,  0,
            0,  0,  0,  9,  0,  0,  4,  1,
            1,  0,  0,  1,  0,  0,  0,  0,
            0,  0,  1,  0,  0,  1,  0,  0,
            0,  2,  0,  0,  6,  0,  0,  0,
        ],
    );

    // black
    assert_move(
        &mut contract, 
        0, 
        0, 
        0, 
        3, 
        36,
        [
            0,  0,  0,  0, 12,  0,  0,  8,
            0,  0,  7,  0,  7,  7,  0,  7,
            0,  0,  0,  7,  0,  0,  0,  0,
            8,  0,  0,  0,  3,  0,  0,  0,
            0,  0,  0,  9,  0,  0,  4,  1,
            1,  0,  0,  1,  0,  0,  0,  0,
            0,  0,  1,  0,  0,  1,  0,  0,
            0,  2,  0,  0,  6,  0,  0,  0,
        ],
    );

    // white
    // checkmate
    assert_move(
        &mut contract, 
        1, 
        7, 
        1, 
        0, 
        36,
        [
            0,  2,  0,  0, 12,  0,  0,  8,
            0,  0,  7,  0,  7,  7,  0,  7,
            0,  0,  0,  7,  0,  0,  0,  0,
            8,  0,  0,  0,  3,  0,  0,  0,
            0,  0,  0,  9,  0,  0,  4,  1,
            1,  0,  0,  1,  0,  0,  0,  0,
            0,  0,  1,  0,  0,  1,  0,  0,
            0,  0,  0,  0,  6,  0,  0,  0,
        ],
    );

    assert_black_checkmate(&mut contract);
}
