use vstd::prelude::*;

verus! {

/// The mark a player places on the board.
#[derive(Clone, Copy, PartialEq, Eq, Structural, Debug)]
pub enum GameCharacter {
    X,
    O,
}

/// How a finished game ended.
#[derive(Clone, Copy, PartialEq, Eq, Structural, Debug)]
pub enum GameOutcome {
    Winner(GameCharacter),
    Draw,
}

/// A 3x3 board; `None` is an empty cell.
pub type Board = [[Option<GameCharacter>; 3]; 3];

pub open spec fn cell(b: Board, r: int, c: int) -> Option<GameCharacter> {
    b@[r]@[c]
}

pub open spec fn in_board(r: int, c: int) -> bool {
    0 <= r < 3 && 0 <= c < 3
}

pub open spec fn empty_board(b: Board) -> bool {
    forall|r: int, c: int| in_board(r, c) ==> #[trigger] cell(b, r, c) is None
}

pub open spec fn board_full(b: Board) -> bool {
    forall|r: int, c: int| in_board(r, c) ==> #[trigger] cell(b, r, c) is Some
}

/// `b2` is `b1` with cell (`r`, `c`) set to `v`.
pub open spec fn board_updated(b1: Board, b2: Board, r: int, c: int, v: Option<GameCharacter>) -> bool {
    forall|rr: int, cc: int|
        in_board(rr, cc) ==> #[trigger] cell(b2, rr, cc) == if rr == r && cc == c {
            v
        } else {
            cell(b1, rr, cc)
        }
}

/// The character of three cells that all hold the same character.
pub open spec fn line_owner(a: Option<GameCharacter>, b: Option<GameCharacter>, c: Option<GameCharacter>) -> Option<GameCharacter> {
    if a is Some && a == b && b == c {
        a
    } else {
        None
    }
}

pub open spec fn row_owner(b: Board, r: int) -> Option<GameCharacter> {
    line_owner(cell(b, r, 0), cell(b, r, 1), cell(b, r, 2))
}

pub open spec fn column_owner(b: Board, c: int) -> Option<GameCharacter> {
    line_owner(cell(b, 0, c), cell(b, 1, c), cell(b, 2, c))
}

pub open spec fn diagonal_owner(b: Board) -> Option<GameCharacter> {
    line_owner(cell(b, 0, 0), cell(b, 1, 1), cell(b, 2, 2))
}

pub open spec fn anti_diagonal_owner(b: Board) -> Option<GameCharacter> {
    line_owner(cell(b, 0, 2), cell(b, 1, 1), cell(b, 2, 0))
}

/// The owner of the first complete line: rows top to bottom, then columns
/// left to right, then the main diagonal, then the anti-diagonal.
pub open spec fn winner_of(b: Board) -> Option<GameCharacter> {
    if row_owner(b, 0) is Some {
        row_owner(b, 0)
    } else if row_owner(b, 1) is Some {
        row_owner(b, 1)
    } else if row_owner(b, 2) is Some {
        row_owner(b, 2)
    } else if column_owner(b, 0) is Some {
        column_owner(b, 0)
    } else if column_owner(b, 1) is Some {
        column_owner(b, 1)
    } else if column_owner(b, 2) is Some {
        column_owner(b, 2)
    } else if diagonal_owner(b) is Some {
        diagonal_owner(b)
    } else {
        anti_diagonal_owner(b)
    }
}

/// What the board decides: a winner, a draw when it is full without a
/// complete line, or nothing yet.
pub open spec fn outcome_of(b: Board) -> Option<GameOutcome> {
    match winner_of(b) {
        Some(ch) => Some(GameOutcome::Winner(ch)),
        None => if board_full(b) {
            Some(GameOutcome::Draw)
        } else {
            None
        },
    }
}

pub open spec fn other(ch: GameCharacter) -> GameCharacter {
    match ch {
        GameCharacter::X => GameCharacter::O,
        GameCharacter::O => GameCharacter::X,
    }
}

/// The abstract state of a room.
pub struct RoomView {
    pub x: Option<Seq<char>>,
    pub o: Option<Seq<char>>,
    pub board: Board,
    pub turn: Option<GameCharacter>,
    pub outcome: Option<GameOutcome>,
}

impl RoomView {
    pub open spec fn is_full(self) -> bool {
        self.x is Some && self.o is Some
    }

    pub open spec fn is_empty(self) -> bool {
        self.x is None && self.o is None
    }

    pub open spec fn character_of(self, user: Seq<char>) -> Option<GameCharacter> {
        if self.x == Some(user) {
            Some(GameCharacter::X)
        } else if self.o == Some(user) {
            Some(GameCharacter::O)
        } else {
            None
        }
    }

    pub open spec fn seat(self, ch: GameCharacter) -> Option<Seq<char>> {
        match ch {
            GameCharacter::X => self.x,
            GameCharacter::O => self.o,
        }
    }

    /// The invariants of a room that is played through the registry: no user
    /// holds both seats; the game has started exactly when both seats are
    /// taken; the board stays empty until then; moves have alternated from X,
    /// and the turn is the next mover's; the recorded outcome is what the
    /// board decides.
    pub open spec fn valid(self) -> bool {
        &&& !(self.x is Some && self.x == self.o)
        &&& (self.turn is Some <==> self.is_full())
        &&& (self.turn is None ==> empty_board(self.board))
        &&& balanced(self.board)
        &&& (self.turn is Some ==> self.turn == Some(next_to_move(self.board)))
        &&& self.outcome == outcome_of(self.board)
    }

    pub open spec fn fresh(self) -> bool {
        self.x is None && self.o is None && empty_board(self.board) && self.turn is None
            && self.outcome is None
    }
}

/// A room after `join` by `user`, and what `join` returns.
pub open spec fn join_spec(rm: RoomView, user: Seq<char>) -> (RoomView, Result<GameCharacter, GameError>) {
    match rm.character_of(user) {
        Some(ch) => (rm, Ok(ch)),
        None => if rm.x is None {
            (RoomView { x: Some(user), ..rm }, Ok(GameCharacter::X))
        } else if rm.o is None {
            (RoomView { o: Some(user), ..rm }, Ok(GameCharacter::O))
        } else {
            (rm, Err(GameError::RoomFull))
        },
    }
}

/// A room after `leave` by `user`, and what `leave` returns: seats are given
/// up only before the game has started.
pub open spec fn leave_spec(rm: RoomView, user: Seq<char>) -> (RoomView, Result<GameCharacter, GameError>) {
    if rm.turn is Some {
        (rm, Err(GameError::GameAlreadyStarted))
    } else {
        match rm.character_of(user) {
            Some(GameCharacter::X) => (RoomView { x: None, ..rm }, Ok(GameCharacter::X)),
            Some(GameCharacter::O) => (RoomView { o: None, ..rm }, Ok(GameCharacter::O)),
            None => (rm, Err(GameError::NotAMember)),
        }
    }
}

/// A room after `check_and_set_winner`, and what it returns: an outcome once
/// recorded stays, else the board decides.
pub open spec fn decide_spec(rm: RoomView) -> (RoomView, Option<GameOutcome>) {
    let out = if rm.outcome is Some {
        rm.outcome
    } else {
        outcome_of(rm.board)
    };
    (RoomView { outcome: out, ..rm }, out)
}

/// One game between two players.
pub struct Room {
    x: Option<String>,
    o: Option<String>,
    board: Board,
    current_turn: Option<GameCharacter>,
    outcome: Option<GameOutcome>,
}

pub open spec fn seat_view(s: Option<String>) -> Option<Seq<char>> {
    match s {
        Some(u) => Some(u@),
        None => None,
    }
}

impl View for Room {
    type V = RoomView;

    closed spec fn view(&self) -> RoomView {
        RoomView {
            x: seat_view(self.x),
            o: seat_view(self.o),
            board: self.board,
            turn: self.current_turn,
            outcome: self.outcome,
        }
    }
}

fn same_owner(a: Option<GameCharacter>, b: Option<GameCharacter>, c: Option<GameCharacter>) -> (r: Option<GameCharacter>)
    ensures
        r == line_owner(a, b, c),
{
    match (a, b, c) {
        (Some(p), Some(q), Some(s)) => {
            if p == q && q == s {
                Some(p)
            } else {
                None
            }
        },
        _ => None,
    }
}

impl Room {
    pub fn new() -> (r: Room)
        ensures
            r@.fresh(),
    {
        Room { x: None, o: None, board: [[None; 3]; 3], current_turn: None, outcome: None }
    }

    /// Seats `user_id`: the seat it already holds, else X if free, else O if free.
    pub fn join(&mut self, user_id: String) -> (r: Result<GameCharacter, GameError>)
        ensures
            (final(self)@, r) == join_spec(old(self)@, user_id@),
    {
        if let Some(ch) = self.get_character(&user_id) {
            return Ok(ch);
        }
        if self.x.is_none() {
            self.x = Some(user_id);
            Ok(GameCharacter::X)
        } else if self.o.is_none() {
            self.o = Some(user_id);
            Ok(GameCharacter::O)
        } else {
            Err(GameError::RoomFull)
        }
    }

    /// Frees the seat that `user_id` holds and returns its character; once
    /// the game has started no seat is given up.
    pub fn leave(&mut self, user_id: String) -> (r: Result<GameCharacter, GameError>)
        ensures
            (final(self)@, r) == leave_spec(old(self)@, user_id@),
    {
        if self.current_turn.is_some() {
            return Err(GameError::GameAlreadyStarted);
        }
        match self.get_character(&user_id) {
            Some(GameCharacter::X) => {
                self.x = None;
                Ok(GameCharacter::X)
            },
            Some(GameCharacter::O) => {
                self.o = None;
                Ok(GameCharacter::O)
            },
            None => Err(GameError::NotAMember),
        }
    }

    pub fn is_full(&self) -> (r: bool)
        ensures
            r == self@.is_full(),
    {
        self.x.is_some() && self.o.is_some()
    }

    pub fn is_empty(&self) -> (r: bool)
        ensures
            r == self@.is_empty(),
    {
        self.x.is_none() && self.o.is_none()
    }

    /// Gives the first turn to X.
    pub fn start_game(&mut self)
        ensures
            final(self)@ == (RoomView { turn: Some(GameCharacter::X), ..old(self)@ }),
    {
        self.current_turn = Some(GameCharacter::X);
    }

    pub fn has_game_started(&self) -> (r: bool)
        ensures
            r == self@.turn is Some,
    {
        self.current_turn.is_some()
    }

    /// The character of the seat that `user_id` holds.
    pub fn get_character(&self, user_id: &String) -> (r: Option<GameCharacter>)
        ensures
            r == self@.character_of(user_id@),
    {
        if let Some(value) = &self.x {
            if String::eq(value, user_id) {
                return Some(GameCharacter::X);
            }
        }
        if let Some(value) = &self.o {
            if String::eq(value, user_id) {
                return Some(GameCharacter::O);
            }
        }
        None
    }

    pub fn get_current_turn(&self) -> (r: Option<GameCharacter>)
        ensures
            r == self@.turn,
    {
        self.current_turn
    }

    /// Places `character` on an empty cell and passes the turn to the other
    /// character; an occupied cell is refused and nothing changes.
    pub fn register_move(&mut self, row: usize, column: usize, character: GameCharacter) -> (r: Result<Board, GameError>)
        requires
            row < 3,
            column < 3,
        ensures
            cell(old(self)@.board, row as int, column as int) is Some ==> {
                &&& r == Err::<Board, GameError>(GameError::InvalidMove)
                &&& final(self)@ == old(self)@
            },
            cell(old(self)@.board, row as int, column as int) is None ==> {
                &&& r == Ok::<Board, GameError>(final(self)@.board)
                &&& board_updated(old(self)@.board, final(self)@.board, row as int, column as int, Some(character))
                &&& final(self)@.turn == Some(other(character))
                &&& final(self)@.x == old(self)@.x
                &&& final(self)@.o == old(self)@.o
                &&& final(self)@.outcome == old(self)@.outcome
            },
    {
        let mut line = self.board[row];
        if line[column].is_some() {
            return Err(GameError::InvalidMove);
        }
        line[column] = Some(character);
        self.board[row] = line;
        self.current_turn = Some(
            match character {
                GameCharacter::X => GameCharacter::O,
                GameCharacter::O => GameCharacter::X,
            },
        );
        Ok(self.board)
    }

    /// The owner of the first complete line, in the order of `winner_of`.
    fn check_winner(&self) -> (r: Option<GameCharacter>)
        ensures
            r == winner_of(self@.board),
    {
        let b = self.board;
        let mut r: usize = 0;
        while r < 3
            invariant
                r <= 3,
                b == self@.board,
                forall|k: int| 0 <= k < r ==> row_owner(b, k) is None,
            decreases 3 - r,
        {
            let owner = same_owner(b[r][0], b[r][1], b[r][2]);
            if owner.is_some() {
                return owner;
            }
            r = r + 1;
        }
        let mut c: usize = 0;
        while c < 3
            invariant
                c <= 3,
                b == self@.board,
                forall|k: int| 0 <= k < 3 ==> row_owner(b, k) is None,
                forall|k: int| 0 <= k < c ==> column_owner(b, k) is None,
            decreases 3 - c,
        {
            let owner = same_owner(b[0][c], b[1][c], b[2][c]);
            if owner.is_some() {
                return owner;
            }
            c = c + 1;
        }
        let diagonal = same_owner(b[0][0], b[1][1], b[2][2]);
        if diagonal.is_some() {
            return diagonal;
        }
        same_owner(b[0][2], b[1][1], b[2][0])
    }

    /// Decides the game once: a winner or a draw, recorded and returned. A
    /// game already decided keeps its outcome.
    pub fn check_and_set_winner(&mut self) -> (r: Option<GameOutcome>)
        ensures
            (final(self)@, r) == decide_spec(old(self)@),
    {
        if self.outcome.is_some() {
            return self.outcome;
        }
        let outcome = match self.check_winner() {
            Some(ch) => Some(GameOutcome::Winner(ch)),
            None => if self.is_board_full() {
                Some(GameOutcome::Draw)
            } else {
                None
            },
        };
        self.outcome = outcome;
        outcome
    }

    fn is_board_full(&self) -> (r: bool)
        ensures
            r == board_full(self@.board),
    {
        let mut row: usize = 0;
        while row < 3
            invariant
                row <= 3,
                forall|rr: int, cc: int| 0 <= rr < row && 0 <= cc < 3 ==> cell(self@.board, rr, cc) is Some,
            decreases 3 - row,
        {
            let mut column: usize = 0;
            while column < 3
                invariant
                    row < 3,
                    column <= 3,
                    forall|rr: int, cc: int| 0 <= rr < row && 0 <= cc < 3 ==> cell(self@.board, rr, cc) is Some,
                    forall|cc: int| 0 <= cc < column ==> cell(self@.board, row as int, cc) is Some,
                decreases 3 - column,
            {
                if self.board[row][column].is_none() {
                    assert(cell(self@.board, row as int, column as int) is None);
                    return false;
                }
                column = column + 1;
            }
            row = row + 1;
        }
        true
    }

    /// The seat of `character` as a lower-case letter and the user who holds it.
    pub fn get_user_id_from_character(&self, character: GameCharacter) -> (r: Option<(char, String)>)
        ensures
            match self@.seat(character) {
                None => r is None,
                Some(u) => r is Some && r->Some_0.0 == (match character {
                    GameCharacter::X => 'x',
                    GameCharacter::O => 'o',
                }) && r->Some_0.1@ == u,
            },
    {
        match character {
            GameCharacter::X => match &self.x {
                Some(user_id) => Some(('x', user_id.clone())),
                None => None,
            },
            GameCharacter::O => match &self.o {
                Some(user_id) => Some(('o', user_id.clone())),
                None => None,
            },
        }
    }

    pub fn has_game_finished(&self) -> (r: bool)
        ensures
            r == self@.outcome is Some,
    {
        self.outcome.is_some()
    }

    /// The board is full and no winner has been recorded.
    pub fn is_game_draw(&self) -> (r: bool)
        ensures
            r == (!(self@.outcome matches Some(GameOutcome::Winner(_))) && board_full(self@.board)),
    {
        if let Some(GameOutcome::Winner(_)) = self.outcome {
            return false;
        }
        self.is_board_full()
    }
}

/// Number of cells that hold `ch`.
pub open spec fn count_of(b: Board, ch: GameCharacter) -> int {
    holds(cell(b, 0, 0), ch) + holds(cell(b, 0, 1), ch) + holds(cell(b, 0, 2), ch)
        + holds(cell(b, 1, 0), ch) + holds(cell(b, 1, 1), ch) + holds(cell(b, 1, 2), ch)
        + holds(cell(b, 2, 0), ch) + holds(cell(b, 2, 1), ch) + holds(cell(b, 2, 2), ch)
}

pub open spec fn holds(v: Option<GameCharacter>, ch: GameCharacter) -> int {
    if v == Some(ch) {
        1
    } else {
        0
    }
}

/// X has made as many moves as O, or one more.
pub open spec fn balanced(b: Board) -> bool {
    let d = count_of(b, GameCharacter::X) - count_of(b, GameCharacter::O);
    d == 0 || d == 1
}

/// Whose move it is when moves alternate and X opens.
pub open spec fn next_to_move(b: Board) -> GameCharacter {
    if count_of(b, GameCharacter::X) == count_of(b, GameCharacter::O) {
        GameCharacter::X
    } else {
        GameCharacter::O
    }
}

/// Among distinct users who hold no seat, two successful joins fill the room,
/// and a third such user is then refused with `RoomFull`.
pub proof fn lemma_two_joins_fill(rm: RoomView, u1: Seq<char>, u2: Seq<char>, u3: Seq<char>)
    requires
        u1 != u2,
        u3 != u1,
        u3 != u2,
        rm.character_of(u1) is None,
        rm.character_of(u2) is None,
        rm.character_of(u3) is None,
        join_spec(rm, u1).1 is Ok,
        join_spec(join_spec(rm, u1).0, u2).1 is Ok,
    ensures
        join_spec(join_spec(rm, u1).0, u2).0.is_full(),
        join_spec(join_spec(join_spec(rm, u1).0, u2).0, u3)
            == (join_spec(join_spec(rm, u1).0, u2).0, Err::<GameCharacter, GameError>(GameError::RoomFull)),
{
}

/// Joining twice gives the same answer both times; the second join changes
/// nothing, and the user holds at most one seat.
pub proof fn lemma_join_idempotent(rm: RoomView, u: Seq<char>)
    requires
        !(rm.x == Some(u) && rm.o == Some(u)),
    ensures
        join_spec(join_spec(rm, u).0, u) == join_spec(rm, u),
        !(join_spec(rm, u).0.x == Some(u) && join_spec(rm, u).0.o == Some(u)),
{
}

/// A room with a recorded win reports the same winner when decided again,
/// never a draw.
pub proof fn lemma_decide_keeps_winner(rm: RoomView)
    requires
        decide_spec(rm).1 matches Some(GameOutcome::Winner(_)),
    ensures
        decide_spec(decide_spec(rm).0) == decide_spec(rm),
{
}

/// The empty board is balanced, with X to move, and decides nothing.
pub proof fn lemma_empty_balanced(b: Board)
    requires
        empty_board(b),
    ensures
        count_of(b, GameCharacter::X) == 0,
        count_of(b, GameCharacter::O) == 0,
        balanced(b),
        next_to_move(b) == GameCharacter::X,
        outcome_of(b) is None,
{
    assert(cell(b, 0, 0) is None && cell(b, 0, 1) is None && cell(b, 0, 2) is None);
    assert(cell(b, 1, 0) is None && cell(b, 1, 1) is None && cell(b, 1, 2) is None);
    assert(cell(b, 2, 0) is None && cell(b, 2, 1) is None && cell(b, 2, 2) is None);
    assert(!board_full(b));
}

/// A fresh room is valid.
pub proof fn lemma_fresh_valid(rm: RoomView)
    requires
        rm.fresh(),
    ensures
        rm.valid(),
{
    lemma_empty_balanced(rm.board);
}

/// A move by the character whose turn it is, on an empty cell, keeps the
/// board balanced: so after any number of alternating moves from the empty
/// board, X has as many cells as O, or one more.
pub proof fn lemma_alternating_move_balanced(b1: Board, b2: Board, r: int, c: int, ch: GameCharacter)
    requires
        balanced(b1),
        ch == next_to_move(b1),
        in_board(r, c),
        cell(b1, r, c) is None,
        board_updated(b1, b2, r, c, Some(ch)),
    ensures
        balanced(b2),
        count_of(b2, ch) == count_of(b1, ch) + 1,
        count_of(b2, other(ch)) == count_of(b1, other(ch)),
        next_to_move(b2) == other(ch),
{
    assert(cell(b2, 0, 0) == if r == 0 && c == 0 { Some(ch) } else { cell(b1, 0, 0) });
    assert(cell(b2, 0, 1) == if r == 0 && c == 1 { Some(ch) } else { cell(b1, 0, 1) });
    assert(cell(b2, 0, 2) == if r == 0 && c == 2 { Some(ch) } else { cell(b1, 0, 2) });
    assert(cell(b2, 1, 0) == if r == 1 && c == 0 { Some(ch) } else { cell(b1, 1, 0) });
    assert(cell(b2, 1, 1) == if r == 1 && c == 1 { Some(ch) } else { cell(b1, 1, 1) });
    assert(cell(b2, 1, 2) == if r == 1 && c == 2 { Some(ch) } else { cell(b1, 1, 2) });
    assert(cell(b2, 2, 0) == if r == 2 && c == 0 { Some(ch) } else { cell(b1, 2, 0) });
    assert(cell(b2, 2, 1) == if r == 2 && c == 1 { Some(ch) } else { cell(b1, 2, 1) });
    assert(cell(b2, 2, 2) == if r == 2 && c == 2 { Some(ch) } else { cell(b1, 2, 2) });
}

/// Who makes move number `i` (from 0) when X opens and moves alternate.
pub open spec fn mover(i: int) -> GameCharacter {
    if i % 2 == 0 {
        GameCharacter::X
    } else {
        GameCharacter::O
    }
}

/// `boards` starts with the empty board and holds the board after each of
/// `moves` in turn: each move puts `mover(i)` on a cell that was empty.
pub open spec fn alternating_run(boards: Seq<Board>, moves: Seq<(int, int)>) -> bool {
    &&& boards.len() == moves.len() + 1
    &&& empty_board(boards[0])
    &&& forall|i: int|
        0 <= i < moves.len() ==> {
            &&& in_board(moves[i].0, moves[i].1)
            &&& cell(boards[i], moves[i].0, moves[i].1) is None
            &&& #[trigger] board_updated(boards[i], boards[i + 1], moves[i].0, moves[i].1, Some(mover(i)))
        }
}

proof fn lemma_run_counts(boards: Seq<Board>, moves: Seq<(int, int)>, i: int)
    requires
        alternating_run(boards, moves),
        0 <= i <= moves.len(),
    ensures
        count_of(boards[i], GameCharacter::X) == (i + 1) / 2,
        count_of(boards[i], GameCharacter::O) == i / 2,
    decreases i,
{
    if i == 0 {
        lemma_empty_balanced(boards[0]);
    } else {
        let j = i - 1;
        lemma_run_counts(boards, moves, j);
        assert(board_updated(boards[j], boards[j + 1], moves[j].0, moves[j].1, Some(mover(j))));
        lemma_alternating_move_balanced(boards[j], boards[i], moves[j].0, moves[j].1, mover(j));
    }
}

/// After any run of alternating moves from the empty board, X holds as many
/// cells as O, or one more: the difference is the number of moves modulo 2,
/// and the cells filled are exactly the moves made.
pub proof fn lemma_alternating_run_balanced(boards: Seq<Board>, moves: Seq<(int, int)>)
    requires
        alternating_run(boards, moves),
    ensures
        count_of(boards.last(), GameCharacter::X) - count_of(boards.last(), GameCharacter::O)
            == moves.len() % 2,
        count_of(boards.last(), GameCharacter::X) + count_of(boards.last(), GameCharacter::O)
            == moves.len(),
        balanced(boards.last()),
{
    lemma_run_counts(boards, moves, moves.len() as int);
}

/// Why a command was refused.
#[derive(Clone, Copy, PartialEq, Eq, Structural, Debug)]
pub enum GameError {
    RoomFull,
    RoomNotFound,
    NotAMember,
    GameAlreadyStarted,
    GameAlreadyFinished,
    InvalidMove,
    NotYourTurn,
    MalformedCommand,
}

} // verus!
