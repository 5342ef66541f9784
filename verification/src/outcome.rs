//! The lines of a square board and the rule that classifies a position:
//! which cells form a line, when a player holds one, and how a board ends.

use crate::board::{EndResult, Player};
use vstd::prelude::*;

verus! {

/// The indices `start`, `start + stride`, `start + 2 * stride`, ...: `count`
/// of them.
pub open spec fn progression(start: int, stride: int, count: nat) -> Seq<int> {
    Seq::new(count, |k: int| start + k * stride)
}

/// The cells of row `r`, from left to right.
pub open spec fn row(width: nat, r: int) -> Seq<int> {
    progression(r * width, 1, width)
}

/// The cells of column `c`, from top to bottom.
pub open spec fn column(width: nat, c: int) -> Seq<int> {
    progression(c, width as int, width)
}

/// The diagonal from the top left corner to the bottom right corner.
pub open spec fn backward_diagonal(width: nat) -> Seq<int> {
    progression(0, (width + 1) as int, width)
}

/// The diagonal from the top right corner to the bottom left corner.
pub open spec fn forward_diagonal(width: nat) -> Seq<int> {
    progression(width - 1, width - 1, width)
}

/// The line with number `l`: first the rows, then the columns, then the
/// forward and the backward diagonal.
pub open spec fn win_line(width: nat, l: int) -> Seq<int> {
    if l < width {
        row(width, l)
    } else if l < 2 * width {
        column(width, l - width)
    } else if l == 2 * width {
        forward_diagonal(width)
    } else {
        backward_diagonal(width)
    }
}

/// All the lines that decide a game on a board of the given width.
pub open spec fn win_lines(width: nat) -> Seq<Seq<int>> {
    Seq::new(2 * width + 2, |l: int| win_line(width, l))
}

/// Whether `player` holds `line`: the line has a cell, and every cell of it
/// is taken by `player`.
pub open spec fn holds_line(cells: Seq<Option<Player>>, line: Seq<int>, player: Player) -> bool {
    &&& line.len() > 0
    &&& forall|k: int| 0 <= k < line.len() ==> cells[#[trigger] line[k]] == Some(player)
}

/// The player who holds `line`, if one does.
pub open spec fn line_owner(cells: Seq<Option<Player>>, line: Seq<int>) -> Option<Player> {
    if holds_line(cells, line, Player::X) {
        Some(Player::X)
    } else if holds_line(cells, line, Player::O) {
        Some(Player::O)
    } else {
        None
    }
}

/// Whether `player` holds at least one of the lines of the board.
pub open spec fn has_win_line(cells: Seq<Option<Player>>, width: nat, player: Player) -> bool {
    exists|l: int|
        0 <= l < win_lines(width).len() && holds_line(cells, #[trigger] win_lines(width)[l], player)
}

/// Whether every cell is taken.
pub open spec fn is_full(cells: Seq<Option<Player>>) -> bool {
    forall|i: int| 0 <= i < cells.len() ==> cells[i] is Some
}

/// How the game stands: both players hold a line, or one does, or the board
/// is full without a line, or the game goes on (`None`).
pub open spec fn end_result(cells: Seq<Option<Player>>, width: nat) -> Option<EndResult> {
    if has_win_line(cells, width, Player::X) && has_win_line(cells, width, Player::O) {
        Some(EndResult::BothWin)
    } else if has_win_line(cells, width, Player::X) {
        Some(EndResult::Win(Player::X))
    } else if has_win_line(cells, width, Player::O) {
        Some(EndResult::Win(Player::O))
    } else if is_full(cells) {
        Some(EndResult::Tie)
    } else {
        None
    }
}

/// A progression with a stride that is not negative stays between its first
/// and its last index.
proof fn lemma_progression_bounds(start: int, stride: int, count: nat, k: int)
    requires
        0 <= stride,
        0 <= k < count,
    ensures
        start <= progression(start, stride, count)[k] <= start + (count - 1) * stride,
        progression(start, stride, count)[k] == start + k * stride,
{
    assert(0 <= k * stride <= (count - 1) * stride) by (nonlinear_arith)
        requires
            0 <= stride,
            0 <= k <= count - 1,
    ;
}

/// Where each line of a board starts and ends: every line begins at a cell
/// of the board, and its last index, `width - 1` strides on, is a cell of
/// the board as well.
pub proof fn lemma_line_ends(width: nat, l: int)
    requires
        width >= 1,
        0 <= l < 2 * width + 2,
    ensures
        win_line(width, l) == progression(line_start(width, l), line_stride(width, l), width),
        0 <= line_start(width, l),
        0 <= line_stride(width, l),
        line_start(width, l) + (width - 1) * line_stride(width, l) < width * width,
{
    let w = width as int;
    if l < w {
        assert(0 <= l * w && l * w + (w - 1) * 1 < w * w) by (nonlinear_arith)
            requires
                0 <= l < w,
        ;
    } else if l < 2 * w {
        assert((l - w) + (w - 1) * w < w * w) by (nonlinear_arith)
            requires
                0 <= l - w < w,
        ;
    } else if l == 2 * w {
        assert((w - 1) + (w - 1) * (w - 1) < w * w) by (nonlinear_arith)
            requires
                1 <= w,
        ;
    } else {
        assert(0 + (w - 1) * (w + 1) < w * w) by (nonlinear_arith)
            requires
                1 <= w,
        ;
    }
}

/// The first index of the line with number `l`.
pub open spec fn line_start(width: nat, l: int) -> int {
    if l < width {
        l * width
    } else if l < 2 * width {
        l - width
    } else if l == 2 * width {
        width - 1
    } else {
        0
    }
}

/// The distance between two neighbouring indices of the line with number `l`.
pub open spec fn line_stride(width: nat, l: int) -> int {
    if l < width {
        1
    } else if l < 2 * width {
        width as int
    } else if l == 2 * width {
        width - 1
    } else {
        (width + 1) as int
    }
}

/// A board of width `w` is decided by `2 * w + 2` lines, each of `w` cells,
/// and every cell of a line is a cell of the board.
pub proof fn lemma_win_lines_shape(width: nat)
    ensures
        win_lines(width).len() == 2 * width + 2,
        forall|l: int|
            0 <= l < win_lines(width).len() ==> (#[trigger] win_lines(width)[l]).len() == width,
        forall|l: int, k: int|
            0 <= l < win_lines(width).len() && 0 <= k < width ==> 0 <= #[trigger] win_lines(
                width,
            )[l][k] < width * width,
{
    assert forall|l: int, k: int|
        0 <= l < win_lines(width).len() && 0 <= k < width implies 0 <= #[trigger] win_lines(
        width,
    )[l][k] < width * width by {
        lemma_line_ends(width, l);
        lemma_progression_bounds(line_start(width, l), line_stride(width, l), width, k);
    }
}

/// A piece gives the other player no line. Where the other player holds no
/// line and `player` places a piece, the other player holds none afterwards
/// either: a game that stops at its first result does not end with lines of
/// both players, nor with a win of the player who did not move.
pub proof fn lemma_move_wins_for_mover_only(
    cells: Seq<Option<Player>>,
    width: nat,
    index: int,
    player: Player,
)
    requires
        cells.len() == width * width,
        0 <= index < cells.len(),
        !has_win_line(cells, width, player.opponent()),
    ensures
        !has_win_line(cells.update(index, Some(player)), width, player.opponent()),
        end_result(cells.update(index, Some(player)), width) != Some(EndResult::BothWin),
        end_result(cells.update(index, Some(player)), width) != Some(
            EndResult::Win(player.opponent()),
        ),
{
    let after = cells.update(index, Some(player));
    let other = player.opponent();
    lemma_win_lines_shape(width);
    assert forall|l: int| 0 <= l < win_lines(width).len() implies !holds_line(
        after,
        #[trigger] win_lines(width)[l],
        other,
    ) by {
        let line = win_lines(width)[l];
        if holds_line(after, line, other) {
            assert forall|k: int| 0 <= k < line.len() implies cells[#[trigger] line[k]] == Some(
                other,
            ) by {
                assert(0 <= win_lines(width)[l][k] < width * width);
                assert(after[line[k]] == Some(other));
            }
            assert(holds_line(cells, win_lines(width)[l], other));
        }
    }
}

/// At most one player holds a line, and `line_owner` names that player.
pub proof fn lemma_line_owner(cells: Seq<Option<Player>>, line: Seq<int>, player: Player)
    ensures
        line_owner(cells, line) == Some(player) <==> holds_line(cells, line, player),
{
    if holds_line(cells, line, Player::X) && holds_line(cells, line, Player::O) {
        assert(cells[line[0]] == Some(Player::O));
    }
}

} // verus!
