use vstd::prelude::*;
use vstd::string::StrSliceExecFns;

use crate::game::GameError;

verus! {

/// The kind of a client command.
#[derive(Clone, Copy, PartialEq, Eq, Structural, Debug)]
pub enum CommandType {
    Create,
    Join,
    Leave,
    Move,
}

/// A client command as it arrives: its kind and its named parameters.
pub struct WebSocketMessage {
    pub command: CommandType,
    pub params: Option<Vec<(String, String)>>,
}

/// A command with its parameters read and checked.
#[derive(Debug)]
pub enum Command {
    Create,
    Join { room_id: String, user_id: String },
    Leave { room_id: String, user_id: String },
    Move { room_id: String, user_id: String, row: usize, column: usize },
}

/// The value of the first parameter named `key`.
pub open spec fn param_of(ps: Seq<(String, String)>, key: Seq<char>) -> Option<Seq<char>>
    decreases ps.len(),
{
    if ps.len() == 0 {
        None
    } else if ps[0].0@ == key {
        Some(ps[0].1@)
    } else {
        param_of(ps.drop_first(), key)
    }
}

pub open spec fn is_digit(c: char) -> bool {
    '0' <= c && c <= '9'
}

pub open spec fn all_digits(s: Seq<char>) -> bool {
    forall|i: int| 0 <= i < s.len() ==> is_digit(#[trigger] s[i])
}

/// The number that a string of decimal digits writes.
pub open spec fn decimal_value(s: Seq<char>) -> nat
    decreases s.len(),
{
    if s.len() == 0 {
        0
    } else {
        decimal_value(s.drop_last()) * 10 + (s.last() as nat - '0' as nat) as nat
    }
}

/// A non-negative decimal number that fits a `usize`.
pub open spec fn index_of_text(s: Seq<char>) -> Option<usize> {
    if s.len() > 0 && all_digits(s) && decimal_value(s) <= usize::MAX {
        Some(decimal_value(s) as usize)
    } else {
        None
    }
}

proof fn lemma_decimal_grows(s: Seq<char>, i: int)
    requires
        0 <= i <= s.len(),
        all_digits(s),
    ensures
        decimal_value(s.take(i)) <= decimal_value(s),
    decreases s.len() - i,
{
    if i < s.len() {
        lemma_decimal_grows(s, i + 1);
        assert(s.take(i + 1).drop_last() =~= s.take(i));
        assert(is_digit(s[i]));
    } else {
        assert(s.take(i) =~= s);
    }
}

/// Reads a non-negative decimal number; `None` where `s` is empty, holds a
/// character that is not a digit, or writes a number beyond `usize`.
pub fn parse_index(s: &String) -> (r: Option<usize>)
    ensures
        r == index_of_text(s@),
{
    let text = s.as_str();
    let n = text.unicode_len();
    if n == 0 {
        return None;
    }
    let mut value: usize = 0;
    let mut i: usize = 0;
    while i < n
        invariant
            n == s@.len(),
            text@ == s@,
            i <= n,
            all_digits(s@.take(i as int)),
            value == decimal_value(s@.take(i as int)),
        decreases n - i,
    {
        let c = text.get_char(i);
        if c < '0' || c > '9' {
            assert(!all_digits(s@));
            return None;
        }
        assert(s@.take(i + 1).drop_last() =~= s@.take(i as int));
        let d = (c as u32 - '0' as u32) as usize;
        let next = match value.checked_mul(10) {
            Some(v) => v.checked_add(d),
            None => None,
        };
        match next {
            Some(v) => {
                value = v;
            },
            None => {
                proof {
                    if all_digits(s@) {
                        lemma_decimal_grows(s@, i + 1);
                    }
                }
                return None;
            },
        }
        i = i + 1;
    }
    assert(s@.take(n as int) =~= s@);
    Some(value)
}

/// The value of the first parameter named `key`.
fn find_param(ps: &Vec<(String, String)>, key: &str) -> (r: Option<String>)
    ensures
        match r {
            Some(v) => param_of(ps@, key@) == Some(v@),
            None => param_of(ps@, key@) is None,
        },
{
    let k = key.to_owned();
    let mut i: usize = 0;
    assert(ps@.subrange(0, ps@.len() as int) =~= ps@);
    while i < ps.len()
        invariant
            i <= ps@.len(),
            k@ == key@,
            param_of(ps@, key@) == param_of(ps@.subrange(i as int, ps@.len() as int), key@),
        decreases ps@.len() - i,
    {
        assert(ps@.subrange(i as int, ps@.len() as int).drop_first() =~= ps@.subrange(i + 1, ps@.len() as int));
        if String::eq(&ps[i].0, &k) {
            return Some(ps[i].1.clone());
        }
        i = i + 1;
    }
    None
}

/// The room and the user that a command names, if both are given.
pub open spec fn room_and_user(ps: Seq<(String, String)>) -> Option<(Seq<char>, Seq<char>)> {
    match (param_of(ps, "room_id"@), param_of(ps, "user_id"@)) {
        (Some(r), Some(u)) => Some((r, u)),
        _ => None,
    }
}

/// The cell that a move names, if both coordinates are given as numbers.
pub open spec fn move_cell(ps: Seq<(String, String)>) -> Option<(usize, usize)> {
    match (param_of(ps, "row"@), param_of(ps, "column"@)) {
        (Some(r), Some(c)) => match (index_of_text(r), index_of_text(c)) {
            (Some(rv), Some(cv)) => Some((rv, cv)),
            _ => None,
        },
        _ => None,
    }
}

impl WebSocketMessage {
    /// Reads the parameters that the command needs: `room_id` and `user_id`
    /// for join, leave and move, and `row` and `column` for move.
    pub fn to_command(&self) -> (r: Result<Command, GameError>)
        ensures
            self.command == CommandType::Create ==> r matches Ok(Command::Create),
            self.command != CommandType::Create ==> match self.params {
                None => r == Err::<Command, GameError>(GameError::MalformedCommand),
                Some(ps) => match room_and_user(ps@) {
                    None => r == Err::<Command, GameError>(GameError::MalformedCommand),
                    Some((room, user)) => match self.command {
                        CommandType::Join => r matches Ok(Command::Join { room_id, user_id })
                            && room_id@ == room && user_id@ == user,
                        CommandType::Leave => r matches Ok(Command::Leave { room_id, user_id })
                            && room_id@ == room && user_id@ == user,
                        _ => match move_cell(ps@) {
                            None => r == Err::<Command, GameError>(GameError::MalformedCommand),
                            Some((rv, cv)) => r matches Ok(Command::Move { room_id, user_id, row, column })
                                && room_id@ == room && user_id@ == user && row == rv && column == cv,
                        },
                    },
                },
            },
    {
        if self.command == CommandType::Create {
            return Ok(Command::Create);
        }
        let ps = match &self.params {
            Some(ps) => ps,
            None => return Err(GameError::MalformedCommand),
        };
        let room_id = match find_param(ps, "room_id") {
            Some(v) => v,
            None => return Err(GameError::MalformedCommand),
        };
        let user_id = match find_param(ps, "user_id") {
            Some(v) => v,
            None => return Err(GameError::MalformedCommand),
        };
        match self.command {
            CommandType::Join => Ok(Command::Join { room_id, user_id }),
            CommandType::Leave => Ok(Command::Leave { room_id, user_id }),
            _ => {
                let row_text = match find_param(ps, "row") {
                    Some(v) => v,
                    None => return Err(GameError::MalformedCommand),
                };
                let column_text = match find_param(ps, "column") {
                    Some(v) => v,
                    None => return Err(GameError::MalformedCommand),
                };
                match (parse_index(&row_text), parse_index(&column_text)) {
                    (Some(row), Some(column)) => Ok(Command::Move { room_id, user_id, row, column }),
                    _ => Err(GameError::MalformedCommand),
                }
            },
        }
    }
}

} // verus!
