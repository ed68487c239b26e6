use vstd::prelude::*;

use crate::game::{
    board_updated, cell, join_spec, leave_spec, other, outcome_of, Board, GameCharacter,
    GameError, GameOutcome, Room, RoomView,
};
use crate::registry::Registry;

verus! {

/// What a command makes known to every connected client.
#[derive(PartialEq, Eq, Debug)]
pub enum GameEvent {
    RoomJoined(GameCharacter),
    RoomLeft(GameCharacter),
    GameStarted,
    MoveRegistered(Board),
    GameWon(GameCharacter, String),
    GameDrawn,
    Failed(GameError),
}

/// The events that follow an accepted move in room `rm`, whose outcome is now
/// `out`: the winner's, a draw's, or none.
pub open spec fn finish_events(evs: Seq<GameEvent>, rm: RoomView, out: Option<GameOutcome>) -> bool {
    match out {
        None => evs.len() == 0,
        Some(GameOutcome::Draw) => evs == seq![GameEvent::GameDrawn],
        Some(GameOutcome::Winner(ch)) => match rm.seat(ch) {
            None => evs.len() == 0,
            Some(u) => evs.len() == 1 && (evs[0] matches GameEvent::GameWon(c, w) && c == ch && w@ == u),
        },
    }
}

/// Whether a move of `user` at (`row`, `column`) in room `rm` is accepted, and
/// the error otherwise, in the order in which the checks are made.
pub open spec fn move_error(rm: RoomView, user: Seq<char>, row: int, column: int) -> Option<GameError> {
    if rm.outcome is Some {
        Some(GameError::GameAlreadyFinished)
    } else if rm.character_of(user) is None {
        Some(GameError::NotAMember)
    } else if !(0 <= row < 3 && 0 <= column < 3) {
        Some(GameError::InvalidMove)
    } else if rm.turn != rm.character_of(user) {
        Some(GameError::NotYourTurn)
    } else if cell(rm.board, row, column) is Some {
        Some(GameError::InvalidMove)
    } else {
        None
    }
}

/// Plays the move of `ch`, whose turn it is, in `room` and decides the game;
/// an occupied cell is refused.
fn play_move(room: &mut Room, row: usize, column: usize, ch: GameCharacter) -> (r: Vec<GameEvent>)
    requires
        old(room)@.valid(),
        old(room)@.outcome is None,
        row < 3,
        column < 3,
        old(room)@.turn == Some(ch),
    ensures
        final(room)@.valid(),
        cell(old(room)@.board, row as int, column as int) is Some ==> {
            &&& r@ == seq![GameEvent::Failed(GameError::InvalidMove)]
            &&& final(room)@ == old(room)@
        },
        cell(old(room)@.board, row as int, column as int) is None ==> {
            &&& board_updated(old(room)@.board, final(room)@.board, row as int, column as int, Some(ch))
            &&& final(room)@.x == old(room)@.x
            &&& final(room)@.o == old(room)@.o
            &&& final(room)@.turn == Some(other(ch))
            &&& final(room)@.outcome == outcome_of(final(room)@.board)
            &&& r@.len() >= 1
            &&& r@[0] == GameEvent::MoveRegistered(final(room)@.board)
            &&& finish_events(r@.drop_first(), final(room)@, final(room)@.outcome)
        },
{
    let mut events: Vec<GameEvent> = Vec::new();
    let ghost before = room@;
    match room.register_move(row, column, ch) {
        Ok(board) => {
            proof {
                crate::game::lemma_alternating_move_balanced(before.board, room@.board, row as int, column as int, ch);
            }
            events.push(GameEvent::MoveRegistered(board));
            match room.check_and_set_winner() {
                Some(GameOutcome::Winner(winner)) => {
                    if let Some((_, winner_id)) = room.get_user_id_from_character(winner) {
                        events.push(GameEvent::GameWon(winner, winner_id));
                        assert(events@.drop_first() =~= seq![events@[1]]);
                    } else {
                        assert(events@.drop_first() =~= Seq::<GameEvent>::empty());
                    }
                },
                Some(GameOutcome::Draw) => {
                    events.push(GameEvent::GameDrawn);
                    assert(events@.drop_first() =~= seq![GameEvent::GameDrawn]);
                },
                None => {
                    assert(events@.drop_first() =~= Seq::<GameEvent>::empty());
                },
            }
        },
        Err(e) => {
            events.push(GameEvent::Failed(e));
        },
    }
    events
}

impl Registry {
    /// Seats `user_id` in room `room_id`, and starts the game when this fills
    /// the room.
    pub fn join_room(&mut self, room_id: String, user_id: String) -> (r: Vec<GameEvent>)
        requires
            old(self).wf(),
        ensures
            final(self).wf(),
            !old(self)@.contains_key(room_id@) ==> r@ == seq![GameEvent::Failed(GameError::RoomNotFound)]
                && final(self)@ == old(self)@,
            old(self)@.contains_key(room_id@) ==> {
                let rm = old(self)@[room_id@];
                let joined = join_spec(rm, user_id@);
                if rm.turn is Some {
                    r@ == seq![GameEvent::Failed(GameError::GameAlreadyStarted)]
                        && final(self)@ == old(self)@
                } else if rm.is_full() {
                    r@ == seq![GameEvent::Failed(GameError::RoomFull)] && final(self)@ == old(self)@
                } else {
                    match joined.1 {
                        Ok(ch) => if joined.0.is_full() {
                            r@ == seq![GameEvent::RoomJoined(ch), GameEvent::GameStarted]
                                && final(self)@ == old(self)@.insert(
                                room_id@,
                                RoomView { turn: Some(GameCharacter::X), ..joined.0 },
                            )
                        } else {
                            r@ == seq![GameEvent::RoomJoined(ch)]
                                && final(self)@ == old(self)@.insert(room_id@, joined.0)
                        },
                        Err(e) => r@ == seq![GameEvent::Failed(e)] && final(self)@ == old(self)@,
                    }
                }
            },
    {
        let mut events: Vec<GameEvent> = Vec::new();
        let taken = self.take_room(&room_id);
        let mut room = match taken {
            Some(room) => room,
            None => {
                events.push(GameEvent::Failed(GameError::RoomNotFound));
                return events;
            },
        };
        if room.has_game_started() {
            events.push(GameEvent::Failed(GameError::GameAlreadyStarted));
        } else if room.is_full() {
            events.push(GameEvent::Failed(GameError::RoomFull));
        } else {
            match room.join(user_id) {
                Ok(ch) => {
                    events.push(GameEvent::RoomJoined(ch));
                    if room.is_full() {
                        room.start_game();
                        events.push(GameEvent::GameStarted);
                    }
                },
                Err(e) => {
                    events.push(GameEvent::Failed(e));
                },
            }
        }
        self.put_room(room_id, room);
        events
    }

    /// Frees the seat of `user_id` in room `room_id`, while its game has not
    /// started.
    pub fn leave_room(&mut self, room_id: String, user_id: String) -> (r: Vec<GameEvent>)
        requires
            old(self).wf(),
        ensures
            final(self).wf(),
            !old(self)@.contains_key(room_id@) ==> r@ == seq![GameEvent::Failed(GameError::RoomNotFound)]
                && final(self)@ == old(self)@,
            old(self)@.contains_key(room_id@) ==> {
                let rm = old(self)@[room_id@];
                let left = leave_spec(rm, user_id@);
                if rm.turn is Some {
                    r@ == seq![GameEvent::Failed(GameError::GameAlreadyStarted)]
                        && final(self)@ == old(self)@
                } else {
                    match left.1 {
                        Ok(ch) => r@ == seq![GameEvent::RoomLeft(ch)]
                            && final(self)@ == old(self)@.insert(room_id@, left.0),
                        Err(e) => r@ == seq![GameEvent::Failed(e)] && final(self)@ == old(self)@,
                    }
                }
            },
    {
        let mut events: Vec<GameEvent> = Vec::new();
        let taken = self.take_room(&room_id);
        let mut room = match taken {
            Some(room) => room,
            None => {
                events.push(GameEvent::Failed(GameError::RoomNotFound));
                return events;
            },
        };
        if room.has_game_started() {
            events.push(GameEvent::Failed(GameError::GameAlreadyStarted));
        } else {
            match room.leave(user_id) {
                Ok(ch) => events.push(GameEvent::RoomLeft(ch)),
                Err(e) => events.push(GameEvent::Failed(e)),
            }
        }
        self.put_room(room_id, room);
        events
    }

    /// Plays the move of `user_id` at (`row`, `column`) in room `room_id`: the
    /// user must hold a seat, it must be that seat's turn and the cell must be
    /// empty. An accepted move may decide the game.
    pub fn register_move(&mut self, room_id: String, user_id: String, row: usize, column: usize) -> (r: Vec<GameEvent>)
        requires
            old(self).wf(),
        ensures
            final(self).wf(),
            !old(self)@.contains_key(room_id@) ==> r@ == seq![GameEvent::Failed(GameError::RoomNotFound)]
                && final(self)@ == old(self)@,
            old(self)@.contains_key(room_id@) ==> {
                let rm = old(self)@[room_id@];
                match move_error(rm, user_id@, row as int, column as int) {
                    Some(e) => r@ == seq![GameEvent::Failed(e)] && final(self)@ == old(self)@,
                    None => {
                        let after = final(self)@[room_id@];
                        let ch = rm.character_of(user_id@)->Some_0;
                        &&& final(self)@ == old(self)@.insert(room_id@, after)
                        &&& board_updated(rm.board, after.board, row as int, column as int, Some(ch))
                        &&& after.x == rm.x
                        &&& after.o == rm.o
                        &&& after.turn == Some(other(ch))
                        &&& after.outcome == outcome_of(after.board)
                        &&& r@.len() >= 1
                        &&& r@[0] == GameEvent::MoveRegistered(after.board)
                        &&& finish_events(r@.drop_first(), after, after.outcome)
                    },
                }
            },
    {
        let mut events: Vec<GameEvent> = Vec::new();
        let taken = self.take_room(&room_id);
        let mut room = match taken {
            Some(room) => room,
            None => {
                events.push(GameEvent::Failed(GameError::RoomNotFound));
                return events;
            },
        };
        if room.has_game_finished() {
            events.push(GameEvent::Failed(GameError::GameAlreadyFinished));
            self.put_room(room_id, room);
            return events;
        }
        let ch = match room.get_character(&user_id) {
            Some(ch) => ch,
            None => {
                events.push(GameEvent::Failed(GameError::NotAMember));
                self.put_room(room_id, room);
                return events;
            },
        };
        if row > 2 || column > 2 {
            events.push(GameEvent::Failed(GameError::InvalidMove));
            self.put_room(room_id, room);
            return events;
        }
        if room.get_current_turn() != Some(ch) {
            events.push(GameEvent::Failed(GameError::NotYourTurn));
            self.put_room(room_id, room);
            return events;
        }
        let events = play_move(&mut room, row, column, ch);
        self.put_room(room_id, room);
        events
    }
}

} // verus!
