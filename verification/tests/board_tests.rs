use std::collections::HashSet;

use ultimate_ttt::common::{
    get_winning_player_at, index_to_pos, player_to_sign, pos_to_index, sign_to_player,
    top_left_pos, weight_for, Board, Player, Position,
};
use ultimate_ttt::global_board::{normalize_moves, GlobalBoard};
use ultimate_ttt::local_board::LocalBoard;

fn generate_pos(max_i: usize, max_j: usize) -> HashSet<Position> {
    let mut set = HashSet::new();
    for i in 0..max_i {
        for j in 0..max_j {
            set.insert(Position::from((i, j)));
        }
    }
    set
}

fn assert_positions(moves: &HashSet<Position>, expected: &HashSet<Position>) {
    assert_eq!(moves, expected);
}

fn load_board_from_str(s: &str, board: &mut LocalBoard) {
    for (i, c) in s.chars().enumerate() {
        let pos = index_to_pos(i);
        match c {
            'X' => board.set_pos(pos, Some(Player::X)),
            'O' => board.set_pos(pos, Some(Player::O)),
            _ => board.set_pos(pos, None),
        }
    }
}

fn set_and_remove<B>(p: Position, pl: Option<Player>, board: &mut B, pos: &mut HashSet<Position>)
where
    B: Board,
{
    pos.remove(&p);
    board.set_pos(p, pl);
}

#[test]
fn test_generate_pos() {
    let v = generate_pos(4, 5);

    for i in 0..4 {
        for j in 0..5 {
            assert!(v.contains(&Position::new(i, j)));
        }
    }
}

#[test]
fn test_sign_to_player() {
    for i in -10i8..10 {
        match i {
            x if x > 0 => assert_eq!(sign_to_player(x), Some(Player::O)),
            x if x < 0 => assert_eq!(sign_to_player(x), Some(Player::X)),
            _ => assert_eq!(sign_to_player(i), None),
        }
    }
}

#[test]
fn global_board_test_create() {
    let b = GlobalBoard::new();

    assert_eq!(b.boards.len(), 9);
    assert_eq!(b.values.len(), 9);

    assert!(b.values.iter().all(|&v| sign_to_player(v).is_none()));
    assert!(b.boards.iter().all(|b| b.winner().is_none()));

    assert_eq!(b.next_board, None);
}

#[test]
fn global_board_test_get_set() {
    let mut b = GlobalBoard::new();
    let pos = Position::new(2, 1);

    assert_eq!(b.get_pos(pos), None);

    b.set_pos(pos, Some(Player::X));

    assert_eq!(b.get_pos(pos), Some(Player::X));

    b.set_pos(pos, None);

    assert_eq!(b.get_pos(pos), None);
}

#[test]
fn global_board_test_winner_horizontal() {
    let mut board = GlobalBoard::new();

    for i in 0..9 {
        board.set_pos(Position::new(0, i), Some(Player::X));
    }

    for i in 0..9 {
        assert_eq!(board.get_pos(Position::new(0, i)), Some(Player::X));
    }

    assert_eq!(board.values[0], weight_for(0) * player_to_sign(&Player::X));
    assert_eq!(board.values[1], weight_for(1) * player_to_sign(&Player::X));
    assert_eq!(board.values[2], weight_for(2) * player_to_sign(&Player::X));

    assert_eq!(board.boards[0].winner(), Some(Player::X));
    assert_eq!(board.boards[1].winner(), Some(Player::X));
    assert_eq!(board.boards[2].winner(), Some(Player::X));

    assert_eq!(board.winner(), Some(Player::X));
}

#[test]
fn global_board_test_winner_vertical() {
    let mut board = GlobalBoard::new();

    for i in 0..9 {
        board.set_pos(Position::new(i, 1), Some(Player::X));
    }

    for i in 0..9 {
        assert_eq!(board.get_pos(Position::new(i, 1)), Some(Player::X));
    }

    for i in vec![0, 3, 6].into_iter() {
        assert_eq!(board.values[i], weight_for(i) * player_to_sign(&Player::X));
        assert_eq!(board.boards[i].winner(), Some(Player::X));
    }

    assert_eq!(board.winner(), Some(Player::X));
}

#[test]
fn test_winner_diagonal_p() {
    let mut board = GlobalBoard::new();

    for i in 0..9 {
        board.set_pos(Position::new(i, i), Some(Player::X));
    }

    for i in 0..9 {
        assert_eq!(board.get_pos(Position::new(i, i)), Some(Player::X));
    }

    assert_eq!(board.values[0], weight_for(0) * player_to_sign(&Player::X));
    assert_eq!(board.values[4], weight_for(4) * player_to_sign(&Player::X));
    assert_eq!(board.values[8], weight_for(8) * player_to_sign(&Player::X));

    assert_eq!(board.boards[0].winner(), Some(Player::X));
    assert_eq!(board.boards[4].winner(), Some(Player::X));
    assert_eq!(board.boards[8].winner(), Some(Player::X));

    assert_eq!(board.winner(), Some(Player::X));
}

#[test]
fn test_winner_diagonal_s() {
    let mut board = GlobalBoard::new();

    for i in 0..9 {
        board.set_pos(Position::new(i, 8 - i), Some(Player::X));
    }

    for i in 0..9 {
        assert_eq!(board.get_pos(Position::new(i, 8 - i)), Some(Player::X));
    }

    assert_eq!(board.values[2], weight_for(2) * player_to_sign(&Player::X));
    assert_eq!(board.values[4], weight_for(4) * player_to_sign(&Player::X));
    assert_eq!(board.values[6], weight_for(6) * player_to_sign(&Player::X));

    assert_eq!(board.boards[2].winner(), Some(Player::X));
    assert_eq!(board.boards[4].winner(), Some(Player::X));
    assert_eq!(board.boards[6].winner(), Some(Player::X));

    assert_eq!(board.winner(), Some(Player::X));
}

#[test]
fn global_board_test_moves() {
    let mut board = GlobalBoard::new();
    assert_eq!(board.next_board, None);

    let mut pos = generate_pos(9, 9);

    assert_positions(&board.get_moves().into_iter().collect(), &pos);

    board.set_pos(Position::new(1, 1), Some(Player::X));
    pos = vec![
        Position::new(0, 0),
        Position::new(0, 1),
        Position::new(0, 2),
        Position::new(1, 0),
        Position::new(1, 2),
        Position::new(2, 0),
        Position::new(2, 1),
        Position::new(2, 2),
    ]
    .into_iter()
    .collect();

    assert_eq!(board.next_board, Some(0));
    assert_positions(&board.get_moves().into_iter().collect(), &pos);

    board.set_pos(Position::new(4, 4), Some(Player::O));
    pos = vec![
        Position::new(3, 3),
        Position::new(3, 4),
        Position::new(3, 5),
        Position::new(4, 3),
        Position::new(4, 5),
        Position::new(5, 3),
        Position::new(5, 4),
        Position::new(5, 5),
    ]
    .into_iter()
    .collect();

    assert_eq!(board.next_board, Some(4));
    assert_positions(&board.get_moves().into_iter().collect(), &pos);
}

#[test]
fn test_normalize_0() {
    let i = 0;
    let moves: Vec<Position> = vec![Position::new(0, 0), Position::new(1, 2), Position::new(2, 1)];
    let expected: HashSet<Position> =
        vec![Position::new(0, 0), Position::new(1, 2), Position::new(2, 1)].into_iter().collect();

    assert_positions(&normalize_moves(moves, i).into_iter().collect(), &expected);
}

#[test]
fn test_normalize_2() {
    let i = 2;
    let moves: Vec<Position> = vec![Position::new(0, 0), Position::new(1, 2), Position::new(2, 1)];
    let expected: HashSet<Position> =
        vec![Position::new(0, 6), Position::new(1, 8), Position::new(2, 7)].into_iter().collect();

    assert_positions(&normalize_moves(moves, i).into_iter().collect(), &expected);
}

#[test]
fn test_normalize_4() {
    let i = 4;
    let moves: Vec<Position> = vec![Position::new(0, 0), Position::new(1, 2), Position::new(2, 1)];
    let expected: HashSet<Position> =
        vec![Position::new(3, 3), Position::new(4, 5), Position::new(5, 4)].into_iter().collect();

    assert_positions(&normalize_moves(moves, i).into_iter().collect(), &expected);
}

#[test]
fn local_board_test_create() {
    let b = LocalBoard::new();

    assert_eq!(b.board.capacity(), 9);
}

#[test]
fn local_board_test_get_set() {
    let mut b = LocalBoard::new();
    let pos = Position::new(2, 1);

    assert_eq!(b.get_pos(pos), None);

    b.set_pos(pos, Some(Player::X));

    assert_eq!(b.get_pos(pos), Some(Player::X));

    b.set_pos(pos, None);

    assert_eq!(b.get_pos(pos), None);
}

#[test]
fn test_load_board_from_str() {
    let mut b = LocalBoard::new();

    load_board_from_str("XO OXO  O", &mut b);

    assert_eq!(b.get_pos(Position::new(0, 0)), Some(Player::X));
    assert_eq!(b.get_pos(Position::new(0, 1)), Some(Player::O));
    assert_eq!(b.get_pos(Position::new(0, 2)), None);
    assert_eq!(b.get_pos(Position::new(1, 0)), Some(Player::O));
    assert_eq!(b.get_pos(Position::new(1, 1)), Some(Player::X));
    assert_eq!(b.get_pos(Position::new(1, 2)), Some(Player::O));
    assert_eq!(b.get_pos(Position::new(2, 0)), None);
    assert_eq!(b.get_pos(Position::new(2, 1)), None);
    assert_eq!(b.get_pos(Position::new(2, 2)), Some(Player::O));
}

#[test]
fn local_board_test_winner_horizontal() {
    let mut board = LocalBoard::new();

    load_board_from_str("XXX      ", &mut board);
    assert_eq!(board.winner(), Some(Player::X));

    load_board_from_str("   OOO   ", &mut board);
    assert_eq!(board.winner(), Some(Player::O));

    load_board_from_str("      XXX", &mut board);
    assert_eq!(board.winner(), Some(Player::X));
}

#[test]
fn local_board_test_winner_vertical() {
    let mut board = LocalBoard::new();

    load_board_from_str("X  X  X  ", &mut board);
    assert_eq!(board.winner(), Some(Player::X));

    load_board_from_str(" O  O  O ", &mut board);
    assert_eq!(board.winner(), Some(Player::O));

    load_board_from_str("  X  X  X", &mut board);
    assert_eq!(board.winner(), Some(Player::X));
}

#[test]
fn test_winner_diagonal() {
    let mut board = LocalBoard::new();

    load_board_from_str("X   X   X", &mut board);
    assert_eq!(board.winner(), Some(Player::X));

    load_board_from_str("  O O O  ", &mut board);
    assert_eq!(board.winner(), Some(Player::O));
}

#[test]
fn local_board_test_moves() {
    let mut board = LocalBoard::new();

    let mut hs = generate_pos(3, 3);

    assert_positions(&board.get_moves().into_iter().collect(), &hs);

    set_and_remove(Position::new(1, 1), Some(Player::X), &mut board, &mut hs);

    assert_positions(&board.get_moves().into_iter().collect(), &hs);

    set_and_remove(Position::new(0, 1), Some(Player::O), &mut board, &mut hs);

    assert_positions(&board.get_moves().into_iter().collect(), &hs);
}

#[test]
fn test_corner_round_down() {
    assert_eq!(top_left_pos(&Position::new(4, 7)), Position::new(3, 6));
    assert_eq!(top_left_pos(&Position::new(0, 2)), Position::new(0, 0));
    assert_eq!(top_left_pos(&Position::new(8, 8)), Position::new(6, 6));

    for r in 0..9 {
        for c in 0..9 {
            let p = Position::new(r, c);
            let corner = top_left_pos(&p);
            assert_eq!(top_left_pos(&corner), corner);
            assert!(p.row - corner.row < 3);
            assert!(p.col - corner.col < 3);
        }
    }
}

#[test]
fn test_index_round_trips() {
    for i in 0..9 {
        assert_eq!(pos_to_index(&index_to_pos(i)), i);
    }
    for r in 0..3 {
        for c in 0..3 {
            let p = Position::new(r, c);
            assert_eq!(index_to_pos(pos_to_index(&p)), p);
        }
    }
}

#[test]
fn test_weights_form_magic_square() {
    let lines: [[usize; 3]; 8] = [
        [0, 1, 2],
        [3, 4, 5],
        [6, 7, 8],
        [0, 3, 6],
        [1, 4, 7],
        [2, 5, 8],
        [0, 4, 8],
        [2, 4, 6],
    ];
    for line in lines.iter() {
        let sum: i8 = weight_for(line[0]) + weight_for(line[1]) + weight_for(line[2]);
        assert_eq!(sum, 15);
    }
    let mut seen: HashSet<i8> = HashSet::new();
    for i in 0..9 {
        let w = weight_for(i);
        assert!(1 <= w && w <= 9);
        seen.insert(w);
    }
    assert_eq!(seen.len(), 9);
}

#[test]
fn test_player_sign_round_trip() {
    assert_eq!(sign_to_player(player_to_sign(&Player::O)), Some(Player::O));
    assert_eq!(sign_to_player(player_to_sign(&Player::X)), Some(Player::X));
    assert_eq!(sign_to_player(0), None);
}

#[test]
fn test_winner_mixed_row_none() {
    let mut board = LocalBoard::new();

    load_board_from_str("XOX      ", &mut board);
    assert_eq!(board.winner(), None);

    load_board_from_str("XOXXOOOXX", &mut board);
    assert_eq!(board.winner(), None);
}

#[test]
fn test_get_winning_player_at_exact() {
    let mut board = LocalBoard::new();
    load_board_from_str("OOO      ", &mut board);
    assert_eq!(get_winning_player_at(&board.board, [0, 1, 2]), Some(Player::O));
    assert_eq!(get_winning_player_at(&board.board, [3, 4, 5]), None);

    load_board_from_str("XXX      ", &mut board);
    assert_eq!(get_winning_player_at(&board.board, [0, 1, 2]), Some(Player::X));
    assert_eq!(get_winning_player_at(&board.board, [0, 3, 6]), None);
}

#[test]
fn test_local_finished_only_all_o() {
    let mut board = LocalBoard::new();
    assert!(!board.finished());

    load_board_from_str("OOOOOOOOO", &mut board);
    assert!(board.finished());

    // a full board is not "finished" unless every cell is held by O
    load_board_from_str("OOOOOOOOX", &mut board);
    assert!(!board.finished());
}

#[test]
fn test_global_finished_only_all_o() {
    let mut board = GlobalBoard::new();
    assert!(!board.finished());

    for sub in 0..9 {
        let corner = index_to_pos(sub).mul(3);
        for cell in 0..3 {
            board.set_pos(index_to_pos(cell).add(corner), Some(Player::O));
        }
    }
    assert!(board.finished());
}

#[test]
fn test_get_pos_bypasses_decided_sub_board() {
    let mut board = GlobalBoard::new();
    for i in 0..3 {
        board.set_pos(Position::new(0, i), Some(Player::X));
    }
    // sub-board 0 is decided for X; an untouched cell inside it now reads X
    assert_eq!(board.get_pos(Position::new(2, 2)), Some(Player::X));
    // cells outside the decided sub-board still read their own state
    assert_eq!(board.get_pos(Position::new(5, 5)), None);
}

#[test]
fn test_moves_skip_decided_sub_board() {
    let mut board = GlobalBoard::new();
    for i in 0..3 {
        board.set_pos(Position::new(0, i), Some(Player::X));
    }
    // closing the sub-board lifted the constraint
    assert_eq!(board.next_board, None);
    let moves: HashSet<Position> = board.get_moves().into_iter().collect();
    // every open sub-board contributes all nine cells; the decided one, none
    assert_eq!(moves.len(), 72);
    for m in moves.iter() {
        assert!(!(m.row < 3 && m.col < 3));
    }
}
