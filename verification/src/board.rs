//! The board: its cells, the positions that it hands out, and the operations
//! that place a piece, read a cell and tell how the game stands.

use crate::outcome::{
    end_result, has_win_line, holds_line, lemma_line_ends, lemma_line_owner, line_owner,
    progression, win_lines,
};
use vstd::prelude::*;

verus! {

/// One of the two players of a game.
#[derive(Clone, Copy, Debug, PartialEq, Eq, Structural)]
pub enum Player {
    X,
    O,
}

impl Player {
    /// The other player.
    pub open spec fn opponent(self) -> Player {
        match self {
            Player::X => Player::O,
            Player::O => Player::X,
        }
    }

    /// The letter that stands for the player.
    pub open spec fn spec_symbol(self) -> char {
        match self {
            Player::X => 'X',
            Player::O => 'O',
        }
    }

    /// The letter that stands for the player.
    #[verifier::when_used_as_spec(spec_symbol)]
    pub fn symbol(self) -> (symbol: char)
        ensures
            symbol == self.spec_symbol(),
    {
        match self {
            Player::X => 'X',
            Player::O => 'O',
        }
    }

    /// Returns the player opposite of this one.
    pub fn toggle(self) -> (other: Player)
        ensures
            other == self.opponent(),
        no_unwind
    {
        match self {
            Player::X => Player::O,
            Player::O => Player::X,
        }
    }

    /// Replaces this player by the opposite one.
    pub fn toggle_in_place(&mut self)
        ensures
            *final(self) == old(self).opponent(),
        no_unwind
    {
        *self = self.toggle();
    }
}

/// How a game has ended.
#[derive(Clone, Copy, Debug, PartialEq, Eq, Structural)]
pub enum EndResult {
    /// Every cell is taken and nobody holds a line.
    Tie,
    /// The given player holds a line, and the other player holds none.
    Win(Player),
    /// Both players hold a line: pieces were placed after the game was over.
    BothWin,
}

/// Why a board operation was refused.
#[derive(Clone, Copy, Debug, PartialEq, Eq, Structural)]
pub enum BoardError {
    /// A board of width zero was asked for.
    InvalidWidth,
    /// A coordinate or an index lies outside the board.
    OutOfBounds,
    /// The cell already holds a piece.
    CellOccupied,
}

/// A pair of coordinates as a caller supplies them: `x` counts columns from
/// the left, `y` counts rows from the top. Nothing bounds them; a board turns
/// them into a [`ValidPosition`] or refuses them.
#[derive(Clone, Copy, Debug)]
pub struct Coordinates {
    pub x: usize,
    pub y: usize,
}

/// A position that a board has checked: the row-major index of one of its
/// cells, together with the width of the board that it was checked against.
/// Only a board hands these out, and only boards of that width take them.
#[derive(Clone, Copy, Debug)]
pub struct ValidPosition {
    // The index of the cell in row-major order.
    index: usize,
    // The width of the board that handed the position out.
    width: usize,
}

impl ValidPosition {
    /// The row-major index of the cell.
    pub closed spec fn spec_index(self) -> usize {
        self.index
    }

    /// The width of the boards that the position belongs to.
    pub closed spec fn spec_width(self) -> usize {
        self.width
    }

    /// What holds of every position: its index names a cell of a board of
    /// its width.
    #[verifier::type_invariant]
    pub open spec fn well_formed(self) -> bool {
        self.spec_index() < self.spec_width() * self.spec_width()
    }

    /// The row-major index of the cell.
    #[verifier::when_used_as_spec(spec_index)]
    pub fn index(self) -> (index: usize)
        ensures
            index == self.spec_index(),
    {
        self.index
    }

    /// The width of the boards that the position belongs to.
    #[verifier::when_used_as_spec(spec_width)]
    pub fn width(self) -> (width: usize)
        ensures
            width == self.spec_width(),
    {
        self.width
    }
}

/// The cells of an empty board of the given width.
pub open spec fn empty_cells(width: nat) -> Seq<Option<Player>> {
    Seq::new(width * width, |i: int| None)
}

/// Whether the cell at `index` holds a piece.
pub open spec fn occupied(cells: Seq<Option<Player>>, index: int) -> bool {
    cells[index] is Some
}

/// The cells after an attempt to place `player` at `index`: the piece lands
/// in an empty cell, and a taken cell keeps its piece.
pub open spec fn cells_after_set(cells: Seq<Option<Player>>, index: int, player: Player) -> Seq<
    Option<Player>,
> {
    if occupied(cells, index) {
        cells
    } else {
        cells.update(index, Some(player))
    }
}

/// Cells are written once. After an attempt to place a piece in a cell the
/// cell is taken, so a second attempt on it, by either player, is refused
/// and changes nothing. A cell that was empty before the first attempt holds
/// the first player's piece after it, and after the second.
pub proof fn lemma_write_once(
    cells: Seq<Option<Player>>,
    index: int,
    first: Player,
    second: Player,
)
    requires
        0 <= index < cells.len(),
    ensures
        occupied(cells_after_set(cells, index, first), index),
        cells_after_set(cells_after_set(cells, index, first), index, second) == cells_after_set(
            cells,
            index,
            first,
        ),
        !occupied(cells, index) ==> cells_after_set(cells, index, first)[index] == Some(first),
{
}

/// A square board of `width * width` cells, each empty or taken by a player.
pub struct Board {
    // The cells in row-major order.
    contents: Vec<Option<Player>>,
    // The number of rows, and of columns.
    width: usize,
}

impl View for Board {
    type V = Seq<Option<Player>>;

    /// The cells in row-major order.
    closed spec fn view(&self) -> Seq<Option<Player>> {
        self.contents@
    }
}

impl Board {
    /// The number of rows, and of columns.
    pub closed spec fn spec_width(&self) -> usize {
        self.width
    }

    /// What holds of every board: it has at least one cell, and as many cells
    /// as a square of its width.
    #[verifier::type_invariant]
    pub open spec fn well_formed(&self) -> bool {
        &&& self.spec_width() >= 1
        &&& self@.len() == self.spec_width() * self.spec_width()
    }

    /// Whether `position` belongs to this board: it was checked against a
    /// board of this width.
    pub open spec fn admits(&self, position: ValidPosition) -> bool {
        position.width() == self.spec_width()
    }

    /// Creates an empty board of the given width. A width of zero is refused.
    /// The number of cells, `width * width`, has to fit a machine word.
    pub fn new(width: usize) -> (result: Result<Board, BoardError>)
        requires
            width * width <= usize::MAX,
        ensures
            match result {
                Ok(board) => {
                    &&& width >= 1
                    &&& board.well_formed()
                    &&& board.spec_width() == width
                    &&& board@ == empty_cells(width as nat)
                },
                Err(error) => width == 0 && error == BoardError::InvalidWidth,
            },
    {
        if width == 0 {
            return Err(BoardError::InvalidWidth);
        }
        let size: usize = width * width;
        let mut contents: Vec<Option<Player>> = Vec::with_capacity(size);
        while contents.len() < size
            invariant
                contents.len() <= size,
                forall|i: int| 0 <= i < contents.len() ==> contents[i] is None,
            decreases size - contents.len(),
        {
            contents.push(None);
        }
        Ok(Board { contents, width })
    }

    /// Turns coordinates into a position of this board, or refuses them when
    /// either lies outside the board.
    pub fn position_from_coordinates(&self, position: Coordinates) -> (result: Result<
        ValidPosition,
        BoardError,
    >)
        ensures
            match result {
                Ok(valid) => {
                    &&& position.x < self.spec_width()
                    &&& position.y < self.spec_width()
                    &&& valid.index() == position.y * self.spec_width() + position.x
                    &&& valid.index() < self@.len()
                    &&& self.admits(valid)
                },
                Err(error) => {
                    &&& position.x >= self.spec_width() || position.y >= self.spec_width()
                    &&& error == BoardError::OutOfBounds
                },
            },
    {
        proof {
            use_type_invariant(self);
        }
        if position.x >= self.width || position.y >= self.width {
            return Err(BoardError::OutOfBounds);
        }
        proof {
            self.lemma_cell_count_fits();
            lemma_cell_in_square(self.width as int, position.y as int, position.x as int);
        }
        Ok(ValidPosition { index: position.y * self.width + position.x, width: self.width })
    }

    /// Turns a row-major index into a position of this board, or refuses it
    /// when the board has no such cell.
    pub fn position_from_index(&self, index: usize) -> (result: Result<ValidPosition, BoardError>)
        ensures
            match result {
                Ok(valid) => {
                    &&& index < self.spec_width() * self.spec_width()
                    &&& valid.index() == index
                    &&& valid.index() < self@.len()
                    &&& self.admits(valid)
                },
                Err(error) => {
                    &&& index >= self.spec_width() * self.spec_width()
                    &&& error == BoardError::OutOfBounds
                },
            },
    {
        proof {
            use_type_invariant(self);
        }
        if index >= self.contents.len() {
            return Err(BoardError::OutOfBounds);
        }
        Ok(ValidPosition { index, width: self.width })
    }

    /// Places `player` in an empty cell. A cell that is taken keeps its piece,
    /// and the attempt is refused. On success the board itself comes back, so
    /// that a caller can go on with it.
    pub fn set_position(&mut self, player: Player, position: ValidPosition) -> (result: Result<
        &mut Self,
        BoardError,
    >)
        requires
            old(self).admits(position),
        ensures
            result is Err <==> occupied(old(self)@, position.index() as int),
            match result {
                Ok(board) => {
                    &&& board@ == cells_after_set(old(self)@, position.index() as int, player)
                    &&& board.spec_width() == old(self).spec_width()
                    &&& *final(self) == *final(board)
                },
                Err(error) => {
                    &&& error == BoardError::CellOccupied
                    &&& *final(self) == *old(self)
                },
            },
        no_unwind
    {
        match self.place(player, position) {
            Ok(()) => Ok(self),
            Err(error) => Err(error),
        }
    }

    /// Places `player` in an empty cell, as [`Board::set_position`] does,
    /// without handing the board back.
    pub(crate) fn place(&mut self, player: Player, position: ValidPosition) -> (result: Result<
        (),
        BoardError,
    >)
        requires
            old(self).admits(position),
        ensures
            result is Err <==> occupied(old(self)@, position.index() as int),
            result matches Err(error) ==> error == BoardError::CellOccupied && *final(self) == *old(
                self,
            ),
            final(self)@ == cells_after_set(old(self)@, position.index() as int, player),
            final(self).spec_width() == old(self).spec_width(),
        no_unwind
    {
        proof {
            use_type_invariant(&*self);
            use_type_invariant(&position);
        }
        match self.contents[position.index] {
            Some(_) => Err(BoardError::CellOccupied),
            None => {
                self.contents[position.index] = Some(player);
                Ok(())
            },
        }
    }

    /// The piece in a cell, or `None` for an empty cell.
    pub fn get_at_position(&self, position: ValidPosition) -> (cell: Option<Player>)
        requires
            self.admits(position),
        ensures
            cell == self@[position.index() as int],
    {
        proof {
            use_type_invariant(self);
            use_type_invariant(&position);
        }
        self.contents[position.index]
    }

    /// The cells in row-major order.
    pub fn contents(&self) -> (cells: &[Option<Player>])
        ensures
            cells@ == self@,
    {
        self.contents.as_slice()
    }

    /// The number of rows, and of columns.
    #[verifier::when_used_as_spec(spec_width)]
    pub fn width(&self) -> (width: usize)
        ensures
            width == self.spec_width(),
    {
        self.width
    }

    /// Tells whether the game has ended, and how. It changes nothing and can
    /// be asked at any time, also after the end of the game: `None` while
    /// the game goes on, else the result. Both players holding a line is a
    /// result of its own.
    pub fn potential_end_result(&self) -> (result: Option<EndResult>)
        ensures
            result == end_result(self@, self.spec_width() as nat),
    {
        proof {
            use_type_invariant(self);
            self.lemma_cell_count_fits();
            lemma_line_count_fits(self.width as int);
        }
        let width = self.width;
        let ghost cells = self@;
        let ghost lines = win_lines(width as nat);
        let mut player_won: Option<Player> = None;
        let mut line: usize = 0;
        while line < 2 * width + 2
            invariant
                self.well_formed(),
                width == self.spec_width(),
                cells == self@,
                lines == win_lines(width as nat),
                2 * width + 2 <= usize::MAX,
                width * width <= usize::MAX,
                line <= 2 * width + 2,
                forall|l: int|
                    0 <= l < line && holds_line(cells, #[trigger] lines[l], Player::X)
                        ==> player_won == Some(Player::X),
                forall|l: int|
                    0 <= l < line && holds_line(cells, #[trigger] lines[l], Player::O)
                        ==> player_won == Some(Player::O),
                player_won matches Some(player) ==> exists|l: int|
                    0 <= l < line && holds_line(cells, #[trigger] lines[l], player),
            decreases 2 * width + 2 - line,
        {
            proof {
                lemma_line_ends(width as nat, line as int);
            }
            let (start, stride) = if line < width {
                (line * width, 1)
            } else if line < 2 * width {
                (line - width, width)
            } else if line == 2 * width {
                (width - 1, width - 1)
            } else {
                (0, width + 1)
            };
            let check = self.check_if_same_player(start, stride, width);
            proof {
                lemma_line_owner(cells, lines[line as int], Player::X);
                lemma_line_owner(cells, lines[line as int], Player::O);
            }
            match check {
                Some(owner) => {
                    match player_won {
                        None => {
                            player_won = check;
                        },
                        Some(earlier) => {
                            if earlier != owner {
                                return Some(EndResult::BothWin);
                            }
                        },
                    }
                },
                None => {},
            }
            line = line + 1;
        }
        if let Some(win) = player_won {
            return Some(EndResult::Win(win));
        }
        let mut i: usize = 0;
        while i < self.contents.len()
            invariant
                cells == self@,
                cells == self.contents@,
                width == self.spec_width(),
                !has_win_line(cells, width as nat, Player::X),
                !has_win_line(cells, width as nat, Player::O),
                i <= cells.len(),
                forall|j: int| 0 <= j < i ==> cells[j] is Some,
            decreases cells.len() - i,
        {
            if self.contents[i].is_none() {
                return None;
            }
            i = i + 1;
        }
        Some(EndResult::Tie)
    }

    /// The player who holds every one of the `count` cells `start`,
    /// `start + stride`, ..., if one player does. A line without cells has
    /// no owner.
    fn check_if_same_player(&self, start: usize, stride: usize, count: usize) -> (owner: Option<
        Player,
    >)
        requires
            count > 0 ==> start + (count - 1) * stride < self@.len(),
        ensures
            owner == line_owner(self@, progression(start as int, stride as int, count as nat)),
    {
        let ghost cells = self@;
        let ghost line = progression(start as int, stride as int, count as nat);
        if count == 0 {
            return None;
        }
        assert(line[0] == start);
        let test_player: Player = match self.contents[start] {
            None => {
                return None;
            },
            Some(player) => player,
        };
        let mut index: usize = start;
        let mut k: usize = 1;
        assert(self.contents.len() == cells.len());
        while k < count
            invariant
                cells == self@,
                cells.len() <= usize::MAX,
                cells == self.contents@,
                line == progression(start as int, stride as int, count as nat),
                1 <= k <= count,
                start + (count - 1) * stride < cells.len(),
                index == start + (k - 1) * stride,
                forall|j: int| 0 <= j < k ==> cells[#[trigger] line[j]] == Some(test_player),
            decreases count - k,
        {
            proof {
                assert(k * stride <= (count - 1) * stride) by (nonlinear_arith)
                    requires
                        k <= count - 1,
                        0 <= stride,
                ;
                assert((k - 1) * stride + stride == k * stride) by (nonlinear_arith);
                assert(line[k as int] == start + k * stride);
            }
            index = index + stride;
            match self.contents[index] {
                Some(player) => {
                    if player != test_player {
                        assert(cells[line[0]] == Some(test_player));
                        return None;
                    }
                },
                None => {
                    assert(cells[line[0]] == Some(test_player));
                    return None;
                },
            }
            k = k + 1;
        }
        proof {
            lemma_line_owner(cells, line, test_player);
        }
        Some(test_player)
    }

    /// The cells of a board can be counted in a machine word.
    pub proof fn lemma_cell_count_fits(&self)
        requires
            self.well_formed(),
        ensures
            self.spec_width() * self.spec_width() <= usize::MAX,
    {
        assert(self.contents.len() == self.contents@.len());
    }
}

/// Detection can be repeated: two calls of [`Board::potential_end_result`]
/// on the same board give the same answer.
pub proof fn lemma_detection_repeats(
    board: Board,
    first: Option<EndResult>,
    second: Option<EndResult>,
)
    requires
        board.well_formed(),
        call_ensures(Board::potential_end_result, (&board,), first),
        call_ensures(Board::potential_end_result, (&board,), second),
    ensures
        first == second,
        first == end_result(board@, board.spec_width() as nat),
{
}

/// Where the cells of a square can be counted in a machine word, so can its
/// lines.
proof fn lemma_line_count_fits(width: int)
    requires
        1 <= width,
        width * width <= usize::MAX,
    ensures
        2 * width + 2 <= usize::MAX,
        width + 1 <= usize::MAX,
{
    if width >= 3 {
        assert(2 * width + 2 <= width * width) by (nonlinear_arith)
            requires
                width >= 3,
        ;
    }
}

/// The cell in row `row` and column `column` of a square of the given width
/// has a row-major index inside the square.
proof fn lemma_cell_in_square(width: int, row: int, column: int)
    requires
        0 <= row < width,
        0 <= column < width,
    ensures
        0 <= row * width,
        row * width + column < width * width,
{
    assert(0 <= row * width <= (width - 1) * width) by (nonlinear_arith)
        requires
            0 <= row <= width - 1,
            0 < width,
    ;
    assert((width - 1) * width == width * width - width) by (nonlinear_arith);
}

} // verus!
