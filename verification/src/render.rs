//! The board as text: one line for each row, with bars between the cells
//! and a boundary line between the rows.

use crate::board::{Board, Player};
use vstd::prelude::*;
use vstd::slice::slice_subrange;

verus! {

/// The character that shows a cell: a space for an empty cell, else the
/// player's letter.
pub open spec fn cell_char(cell: Option<Player>) -> char {
    match cell {
        None => ' ',
        Some(player) => player.symbol(),
    }
}

/// The cells of a row, with a bar between neighbours.
pub open spec fn joined_cells(row: Seq<Option<Player>>) -> Seq<char> {
    Seq::new(
        if row.len() == 0 {
            0
        } else {
            (2 * row.len() - 1) as nat
        },
        |i: int|
            if i % 2 == 0 {
                cell_char(row[i / 2])
            } else {
                '|'
            },
    )
}

/// The line that shows a row: a space, the cells with bars between them, and
/// a newline. A row without cells has no line.
pub open spec fn row_text(row: Seq<Option<Player>>) -> Seq<char> {
    if row.len() == 0 {
        Seq::empty()
    } else {
        seq![' '] + joined_cells(row) + seq!['\n']
    }
}

/// `count` times a plus and a minus.
pub open spec fn crossings(count: nat) -> Seq<char> {
    Seq::new(
        2 * count,
        |i: int|
            if i % 2 == 0 {
                '+'
            } else {
                '-'
            },
    )
}

/// The line between two rows of `cells` cells: minus signs, with a plus
/// under each bar, and a newline.
pub open spec fn boundary_text(cells: nat) -> Seq<char> {
    let bars = if cells == 0 {
        0
    } else {
        (cells - 1) as nat
    };
    seq!['-', '-'] + crossings(bars) + seq!['-', '\n']
}

/// The cells of row `r` of a board.
pub open spec fn board_row(cells: Seq<Option<Player>>, width: nat, r: int) -> Seq<Option<Player>> {
    cells.subrange(r * width, (r + 1) * width)
}

/// The text of the first `rows` rows of a board, with a boundary line
/// between each two.
pub open spec fn rows_text(cells: Seq<Option<Player>>, width: nat, rows: nat) -> Seq<char>
    decreases rows,
{
    if rows == 0 {
        Seq::empty()
    } else if rows == 1 {
        row_text(board_row(cells, width, 0))
    } else {
        rows_text(cells, width, (rows - 1) as nat) + boundary_text(width) + row_text(
            board_row(cells, width, rows - 1),
        )
    }
}

/// The text of a whole board. It ends with a newline.
pub open spec fn board_text(cells: Seq<Option<Player>>, width: nat) -> Seq<char> {
    rows_text(cells, width, width)
}

/// Appends the character of one cell.
fn render_player(out: &mut String, player: Option<Player>)
    ensures
        final(out)@ == old(out)@.push(cell_char(player)),
{
    proof {
        reveal_strlit(" ");
        reveal_strlit("X");
        reveal_strlit("O");
    }
    let text = match player {
        None => " ",
        Some(Player::X) => "X",
        Some(Player::O) => "O",
    };
    out.append(text);
}

/// Appends the line of one row. A row without cells adds nothing.
fn render_row(out: &mut String, row: &[Option<Player>])
    ensures
        final(out)@ == old(out)@ + row_text(row@),
{
    if row.len() == 0 {
        return ;
    }
    proof {
        reveal_strlit(" ");
        reveal_strlit("|");
        reveal_strlit("\n");
    }
    out.append(" ");
    render_player(out, row[0]);
    let mut k: usize = 1;
    while k < row.len()
        invariant
            1 <= k <= row.len(),
            "|"@ == seq!['|'],
            out@ == old(out)@ + seq![' '] + joined_cells(row@).take(2 * k - 1),
        decreases row.len() - k,
    {
        out.append("|");
        render_player(out, row[k]);
        assert(out@ =~= old(out)@ + seq![' '] + joined_cells(row@).take(2 * (k + 1) - 1));
        k = k + 1;
    }
    out.append("\n");
    assert(out@ =~= old(out)@ + row_text(row@));
}

/// Appends the line that separates two rows of `cells` cells.
fn render_boundary(out: &mut String, cells: usize)
    ensures
        final(out)@ == old(out)@ + boundary_text(cells as nat),
{
    proof {
        reveal_strlit("--");
        reveal_strlit("+-");
        reveal_strlit("-");
        reveal_strlit("\n");
    }
    out.append("--");
    let mut k: usize = 1;
    while k < cells
        invariant
            1 <= k,
            k <= cells || k == 1,
            "+-"@ == seq!['+', '-'],
            out@ == old(out)@ + seq!['-', '-'] + crossings((k - 1) as nat),
        decreases cells - k,
    {
        out.append("+-");
        assert(out@ =~= old(out)@ + seq!['-', '-'] + crossings(k as nat));
        k = k + 1;
    }
    out.append("-");
    out.append("\n");
    assert(out@ =~= old(out)@ + boundary_text(cells as nat));
}

/// The board as text: the rows from top to bottom, each on a line of its
/// own, and a boundary line between each two rows.
pub fn render_board(board: &Board) -> (text: String)
    ensures
        text@ == board_text(board@, board.spec_width() as nat),
{
    proof {
        use_type_invariant(board);
        board.lemma_cell_count_fits();
    }
    let contents = board.contents();
    let width = board.width();
    let mut out = String::new();
    assert(width <= width * width) by (nonlinear_arith)
        requires
            1 <= width,
    ;
    render_row(&mut out, slice_subrange(contents, 0, width));
    let mut r: usize = 1;
    while r < width
        invariant
            1 <= r <= width,
            contents@ == board@,
            board@.len() == width * width,
            width * width <= usize::MAX,
            out@ == rows_text(board@, width as nat, r as nat),
        decreases width - r,
    {
        assert(0 <= r * width && r * width + width <= width * width && (r + 1) * width == r
            * width + width) by (nonlinear_arith)
            requires
                1 <= r < width,
        ;
        render_boundary(&mut out, width);
        render_row(&mut out, slice_subrange(contents, r * width, r * width + width));
        r = r + 1;
    }
    out
}

} // verus!
