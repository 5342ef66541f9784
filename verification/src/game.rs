//! A game of two players on a board of three by three cells, as a driver
//! steps through it: the players enter the number of a cell in turn, until
//! the game has ended, and then say whether they play again.

use crate::board::{cells_after_set, empty_cells, occupied, Board, EndResult, Player};
use crate::outcome::end_result;
use vstd::prelude::*;

verus! {

/// The width of the board that the game is played on.
pub const GAME_WIDTH: usize = 3;

/// The number of cells of that board: the players enter a number from 1 to
/// this one.
pub const GAME_CELLS: u64 = 9;

/// What an entry led to.
#[derive(Clone, Copy, Debug, PartialEq, Eq, Structural)]
pub enum TurnResult {
    /// The entry names no cell. Nothing has changed, and the same player
    /// enters again.
    InvalidEntry,
    /// The cell is taken. Nothing has changed, and the same player enters
    /// again.
    CellTaken,
    /// The piece is placed, and the given player is next.
    NextTurn(Player),
    /// The piece is placed, and with it the game has ended.
    Ended(EndResult),
}

/// The answer to the question whether to play again.
#[derive(Clone, Copy, Debug, PartialEq, Eq, Structural)]
pub enum Replay {
    /// `Y`: another game.
    Again,
    /// `N`: no more games.
    Stop,
    /// Neither: the question is asked again.
    Unclear,
}

/// What `str::trim` leaves of a text: the text without the white space at
/// its two ends.
pub uninterp spec fn trimmed(text: Seq<char>) -> Seq<char>;

/// The number that `str::parse` reads from a text as a `u64`, or `None`
/// where it reads none.
pub uninterp spec fn parsed_number(text: Seq<char>) -> Option<u64>;

/// Calls `str::trim`. Nothing is proved of it; the contract gives the text
/// that comes back its name, [`trimmed`].
#[verifier::external_body]
fn trim(text: &str) -> (rest: &str)
    ensures
        rest@ == trimmed(text@),
{
    text.trim()
}

/// Calls `str::parse` for a `u64`, and keeps the number where one was read.
/// Nothing is proved of it; the contract gives what comes back its name,
/// [`parsed_number`].
#[verifier::external_body]
fn parse_number(text: &str) -> (number: Option<u64>)
    ensures
        number == parsed_number(text@),
{
    text.parse::<u64>().ok()
}

/// The number that a line of input holds, blanks around it set aside.
pub open spec fn entry_of_line(line: Seq<char>) -> Option<u64> {
    parsed_number(trimmed(line))
}

/// The cell that an entry names. The players count the cells from 1, so the
/// entries from 1 to 9 name the cells from 0 to 8; no other entry names a
/// cell, nor does an entry that was not a number (`None`).
pub open spec fn entry_cell(entry: Option<u64>) -> Option<int> {
    match entry {
        Some(number) => if 1 <= number <= GAME_CELLS {
            Some(number - 1)
        } else {
            None
        },
        None => None,
    }
}

/// What an entry of the player `turn` leads to on a board with the given
/// cells.
pub open spec fn turn_result(cells: Seq<Option<Player>>, turn: Player, entry: Option<u64>)
    -> TurnResult {
    match entry_cell(entry) {
        None => TurnResult::InvalidEntry,
        Some(cell) => if occupied(cells, cell) {
            TurnResult::CellTaken
        } else {
            match end_result(cells.update(cell, Some(turn)), GAME_WIDTH as nat) {
                Some(ending) => TurnResult::Ended(ending),
                None => TurnResult::NextTurn(turn.opponent()),
            }
        },
    }
}

/// The cells after an entry of the player `turn`: an entry that names a
/// cell places the player's piece there, if the cell is empty.
pub open spec fn cells_after_entry(cells: Seq<Option<Player>>, turn: Player, entry: Option<u64>)
    -> Seq<Option<Player>> {
    match entry_cell(entry) {
        None => cells,
        Some(cell) => cells_after_set(cells, cell, turn),
    }
}

/// Whose turn it is after an entry: the turn passes on only where the game
/// goes on with the next player.
pub open spec fn turn_after(turn: Player, result: TurnResult) -> Player {
    match result {
        TurnResult::NextTurn(next) => next,
        _ => turn,
    }
}

/// What an answer to the question whether to play again means: the single
/// letter `Y` or `N` is an answer, and nothing else is.
pub open spec fn replay_of(answer: Seq<char>) -> Replay {
    if answer.len() == 1 && answer[0] == 'Y' {
        Replay::Again
    } else if answer.len() == 1 && answer[0] == 'N' {
        Replay::Stop
    } else {
        Replay::Unclear
    }
}

/// Reads the number that a line of input holds.
pub fn read_entry(line: &str) -> (entry: Option<u64>)
    ensures
        entry == entry_of_line(line@),
{
    parse_number(trim(line))
}

/// Reads an answer to the question whether to play again. The answer is
/// taken as it stands, blanks included.
pub fn read_answer(answer: &str) -> (choice: Replay)
    ensures
        choice == replay_of(answer@),
{
    if answer.unicode_len() != 1 {
        return Replay::Unclear;
    }
    let letter = answer.get_char(0);
    if letter == 'Y' {
        Replay::Again
    } else if letter == 'N' {
        Replay::Stop
    } else {
        Replay::Unclear
    }
}

/// Reads the answer that a line of input holds, blanks around it set
/// aside.
pub fn replay_choice(line: &str) -> (choice: Replay)
    ensures
        choice == replay_of(trimmed(line@)),
{
    read_answer(trim(line))
}

/// A game in progress: the board and the player whose turn it is.
pub struct Game {
    board: Board,
    turn: Player,
}

impl Game {
    /// The board of the game.
    pub closed spec fn spec_board(&self) -> Board {
        self.board
    }

    /// The player whose turn it is.
    pub closed spec fn spec_turn(&self) -> Player {
        self.turn
    }

    /// What holds of every game: its board is three cells wide.
    #[verifier::type_invariant]
    pub open spec fn well_formed(&self) -> bool {
        &&& self.spec_board().well_formed()
        &&& self.spec_board().spec_width() == GAME_WIDTH
    }

    /// Starts a game on an empty board. `first_player` has the first turn.
    pub fn new(first_player: Player) -> (game: Game)
        ensures
            game.well_formed(),
            game.spec_board()@ == empty_cells(GAME_WIDTH as nat),
            game.spec_turn() == first_player,
    {
        let board = Board::new(GAME_WIDTH).unwrap();
        Game { board, turn: first_player }
    }

    /// The board of the game.
    pub fn board(&self) -> (board: &Board)
        ensures
            *board == self.spec_board(),
    {
        &self.board
    }

    /// The player whose turn it is.
    #[verifier::when_used_as_spec(spec_turn)]
    pub fn turn(&self) -> (turn: Player)
        ensures
            turn == self.spec_turn(),
    {
        self.turn
    }

    /// Takes the entry of the player whose turn it is. An entry that names
    /// no cell, or a cell that is taken, changes nothing. Else the player's
    /// piece is placed; where that ends the game, the result says how, and
    /// where it does not, the turn passes to the other player.
    pub fn enter(&mut self, entry: Option<u64>) -> (result: TurnResult)
        ensures
            result == turn_result(old(self).spec_board()@, old(self).spec_turn(), entry),
            final(self).spec_board()@ == cells_after_entry(
                old(self).spec_board()@,
                old(self).spec_turn(),
                entry,
            ),
            final(self).spec_turn() == turn_after(old(self).spec_turn(), result),
            final(self).well_formed(),
    {
        proof {
            use_type_invariant(&*self);
        }
        let number = match entry {
            Some(number) => number,
            None => {
                return TurnResult::InvalidEntry;
            },
        };
        if number < 1 || number > GAME_CELLS {
            return TurnResult::InvalidEntry;
        }
        let index: usize = (number - 1) as usize;
        let position = self.board.position_from_index(index).unwrap();
        if self.board.place(self.turn, position).is_err() {
            return TurnResult::CellTaken;
        }
        match self.board.potential_end_result() {
            Some(ending) => TurnResult::Ended(ending),
            None => {
                self.turn.toggle_in_place();
                TurnResult::NextTurn(self.turn)
            },
        }
    }

    /// Takes a line that the player whose turn it is has typed: reads the
    /// entry from it, and goes on as [`Game::enter`] does.
    pub fn enter_line(&mut self, line: &str) -> (result: TurnResult)
        ensures
            result == turn_result(
                old(self).spec_board()@,
                old(self).spec_turn(),
                entry_of_line(line@),
            ),
            final(self).spec_board()@ == cells_after_entry(
                old(self).spec_board()@,
                old(self).spec_turn(),
                entry_of_line(line@),
            ),
            final(self).spec_turn() == turn_after(old(self).spec_turn(), result),
            final(self).well_formed(),
    {
        let entry = read_entry(line);
        self.enter(entry)
    }
}

} // verus!
