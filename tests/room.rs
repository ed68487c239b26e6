use tictactoe_server::game::{GameCharacter, GameError, GameOutcome, Room};

fn s(v: &str) -> String {
    v.to_string()
}

#[test]
fn new_room_is_empty_and_not_started() {
    let room = Room::new();
    assert!(room.is_empty());
    assert!(!room.is_full());
    assert!(!room.has_game_started());
    assert!(!room.has_game_finished());
    assert_eq!(room.get_current_turn(), None);
    assert!(!room.is_game_draw());
}

#[test]
fn two_joins_fill_and_third_is_refused() {
    let mut room = Room::new();
    assert_eq!(room.join(s("alice")), Ok(GameCharacter::X));
    assert!(!room.is_full());
    assert_eq!(room.join(s("bob")), Ok(GameCharacter::O));
    assert!(room.is_full());
    assert_eq!(room.join(s("carol")), Err(GameError::RoomFull));
}

#[test]
fn joining_twice_gives_the_same_seat() {
    let mut room = Room::new();
    assert_eq!(room.join(s("alice")), Ok(GameCharacter::X));
    assert_eq!(room.join(s("alice")), Ok(GameCharacter::X));
    assert!(!room.is_full());
    assert_eq!(room.join(s("bob")), Ok(GameCharacter::O));
    assert_eq!(room.join(s("bob")), Ok(GameCharacter::O));
    assert_eq!(room.get_character(&s("alice")), Some(GameCharacter::X));
    assert_eq!(room.get_character(&s("bob")), Some(GameCharacter::O));
}

#[test]
fn rejoin_after_x_left_keeps_the_o_seat() {
    let mut room = Room::new();
    room.join(s("alice")).unwrap();
    room.join(s("bob")).unwrap();
    assert_eq!(room.leave(s("alice")), Ok(GameCharacter::X));
    assert_eq!(room.join(s("bob")), Ok(GameCharacter::O));
    assert!(!room.is_full());
}

#[test]
fn leave_frees_the_seat() {
    let mut room = Room::new();
    room.join(s("alice")).unwrap();
    room.join(s("bob")).unwrap();
    assert_eq!(room.leave(s("bob")), Ok(GameCharacter::O));
    assert_eq!(room.get_character(&s("bob")), None);
    assert_eq!(room.leave(s("bob")), Err(GameError::NotAMember));
    assert_eq!(room.leave(s("alice")), Ok(GameCharacter::X));
    assert!(room.is_empty());
}

#[test]
fn leave_by_a_stranger_is_refused() {
    let mut room = Room::new();
    room.join(s("alice")).unwrap();
    assert_eq!(room.leave(s("mallory")), Err(GameError::NotAMember));
    assert_eq!(room.get_character(&s("alice")), Some(GameCharacter::X));
}

#[test]
fn leave_after_start_is_refused_and_keeps_the_seat() {
    let mut room = Room::new();
    room.join(s("alice")).unwrap();
    room.join(s("bob")).unwrap();
    room.start_game();
    assert_eq!(room.leave(s("alice")), Err(GameError::GameAlreadyStarted));
    assert_eq!(room.leave(s("bob")), Err(GameError::GameAlreadyStarted));
    assert_eq!(room.leave(s("mallory")), Err(GameError::GameAlreadyStarted));
    assert!(room.is_full());
    assert_eq!(room.get_character(&s("alice")), Some(GameCharacter::X));
}

#[test]
fn start_game_gives_x_the_turn() {
    let mut room = Room::new();
    room.start_game();
    assert!(room.has_game_started());
    assert_eq!(room.get_current_turn(), Some(GameCharacter::X));
}

#[test]
fn move_on_occupied_cell_is_refused_and_changes_nothing() {
    let mut room = Room::new();
    let board = room.register_move(1, 1, GameCharacter::X).unwrap();
    assert_eq!(board[1][1], Some(GameCharacter::X));
    assert_eq!(room.get_current_turn(), Some(GameCharacter::O));
    assert_eq!(room.register_move(1, 1, GameCharacter::O), Err(GameError::InvalidMove));
    assert_eq!(room.get_current_turn(), Some(GameCharacter::O));
    let board = room.register_move(0, 0, GameCharacter::O).unwrap();
    assert_eq!(board[1][1], Some(GameCharacter::X));
    assert_eq!(board[0][0], Some(GameCharacter::O));
}

#[test]
fn register_move_returns_the_whole_board() {
    let mut room = Room::new();
    room.register_move(0, 2, GameCharacter::X).unwrap();
    let board = room.register_move(2, 0, GameCharacter::O).unwrap();
    for r in 0..3 {
        for c in 0..3 {
            let expected = match (r, c) {
                (0, 2) => Some(GameCharacter::X),
                (2, 0) => Some(GameCharacter::O),
                _ => None,
            };
            assert_eq!(board[r][c], expected);
        }
    }
    assert_eq!(room.get_current_turn(), Some(GameCharacter::X));
}

fn count(board: &[[Option<GameCharacter>; 3]; 3], ch: GameCharacter) -> i32 {
    let mut n = 0;
    for row in board.iter() {
        for cell in row.iter() {
            if *cell == Some(ch) {
                n += 1;
            }
        }
    }
    n
}

#[test]
fn alternating_moves_keep_counts_balanced() {
    let mut room = Room::new();
    let moves = [(0, 0), (0, 1), (0, 2), (1, 1), (1, 0), (1, 2), (2, 1), (2, 0), (2, 2)];
    let mut ch = GameCharacter::X;
    for (r, c) in moves.iter() {
        let board = room.register_move(*r, *c, ch).unwrap();
        let d = count(&board, GameCharacter::X) - count(&board, GameCharacter::O);
        assert!(d == 0 || d == 1);
        ch = if ch == GameCharacter::X { GameCharacter::O } else { GameCharacter::X };
    }
}

#[test]
fn row_win_is_found() {
    let mut room = Room::new();
    room.register_move(0, 0, GameCharacter::X).unwrap();
    room.register_move(1, 1, GameCharacter::O).unwrap();
    room.register_move(0, 1, GameCharacter::X).unwrap();
    assert_eq!(room.check_and_set_winner(), None);
    assert!(!room.has_game_finished());
    room.register_move(2, 2, GameCharacter::O).unwrap();
    room.register_move(0, 2, GameCharacter::X).unwrap();
    assert_eq!(room.check_and_set_winner(), Some(GameOutcome::Winner(GameCharacter::X)));
    assert!(room.has_game_finished());
    assert!(!room.is_game_draw());
}

#[test]
fn column_and_diagonal_wins_are_found() {
    let mut room = Room::new();
    room.register_move(0, 1, GameCharacter::O).unwrap();
    room.register_move(1, 1, GameCharacter::O).unwrap();
    room.register_move(2, 1, GameCharacter::O).unwrap();
    assert_eq!(room.check_and_set_winner(), Some(GameOutcome::Winner(GameCharacter::O)));

    let mut room = Room::new();
    room.register_move(0, 0, GameCharacter::X).unwrap();
    room.register_move(1, 1, GameCharacter::X).unwrap();
    room.register_move(2, 2, GameCharacter::X).unwrap();
    assert_eq!(room.check_and_set_winner(), Some(GameOutcome::Winner(GameCharacter::X)));

    let mut room = Room::new();
    room.register_move(0, 2, GameCharacter::O).unwrap();
    room.register_move(1, 1, GameCharacter::O).unwrap();
    room.register_move(2, 0, GameCharacter::O).unwrap();
    assert_eq!(room.check_and_set_winner(), Some(GameOutcome::Winner(GameCharacter::O)));
}

#[test]
fn second_decision_keeps_the_winner() {
    let mut room = Room::new();
    room.register_move(2, 0, GameCharacter::X).unwrap();
    room.register_move(2, 1, GameCharacter::X).unwrap();
    room.register_move(2, 2, GameCharacter::X).unwrap();
    assert_eq!(room.check_and_set_winner(), Some(GameOutcome::Winner(GameCharacter::X)));
    // fill the rest of the board: the recorded win must not turn into a draw
    for (r, c) in [(0, 0), (0, 1), (0, 2), (1, 0), (1, 1), (1, 2)] {
        room.register_move(r, c, GameCharacter::O).unwrap();
    }
    assert_eq!(room.check_and_set_winner(), Some(GameOutcome::Winner(GameCharacter::X)));
    assert_eq!(room.check_and_set_winner(), Some(GameOutcome::Winner(GameCharacter::X)));
    assert!(!room.is_game_draw());
}

#[test]
fn full_board_without_line_is_a_draw() {
    let mut room = Room::new();
    let moves = [(0, 0), (0, 1), (0, 2), (1, 1), (1, 0), (1, 2), (2, 1), (2, 0), (2, 2)];
    let mut ch = GameCharacter::X;
    for (r, c) in moves.iter() {
        room.register_move(*r, *c, ch).unwrap();
        ch = if ch == GameCharacter::X { GameCharacter::O } else { GameCharacter::X };
    }
    assert!(room.is_game_draw());
    assert_eq!(room.check_and_set_winner(), Some(GameOutcome::Draw));
    assert!(room.has_game_finished());
    assert_eq!(room.check_and_set_winner(), Some(GameOutcome::Draw));
}

#[test]
fn user_of_character() {
    let mut room = Room::new();
    assert_eq!(room.get_user_id_from_character(GameCharacter::X), None);
    room.join(s("alice")).unwrap();
    room.join(s("bob")).unwrap();
    assert_eq!(room.get_user_id_from_character(GameCharacter::X), Some(('x', s("alice"))));
    assert_eq!(room.get_user_id_from_character(GameCharacter::O), Some(('o', s("bob"))));
}
