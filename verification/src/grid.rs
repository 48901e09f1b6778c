//! The mathematical model of a board: a sequence of columns, each a sequence
//! of cells from the top row (index 0) to the bottom row.

use vstd::prelude::*;

verus! {

/// What a cell holds: nothing, or the index of the player who owns the piece.
pub type Cell = Option<usize>;

/// A board as a sequence of columns.
pub type Grid = Seq<Seq<Cell>>;

/// The grid has `w` columns of `h` cells each.
pub open spec fn has_shape(g: Grid, w: int, h: int) -> bool {
    &&& g.len() == w
    &&& forall|c: int| 0 <= c < w ==> (#[trigger] g[c]).len() == h
}

/// Every cell of the grid is empty.
pub open spec fn all_empty(g: Grid) -> bool {
    forall|c: int, r: int|
        0 <= c < g.len() && 0 <= r < g[c].len() ==> (#[trigger] g[c][r]).is_none()
}

/// Every piece on the board belongs to one of `n` players.
pub open spec fn seated(g: Grid, n: int) -> bool {
    forall|c: int, r: int|
        0 <= c < g.len() && 0 <= r < g[c].len() ==> match #[trigger] g[c][r] {
            Some(p) => p < n,
            None => true,
        }
}

/// Pieces rest on the floor or on another piece: below an occupied cell no
/// cell of the same column is empty.
pub open spec fn column_settled(col: Seq<Cell>) -> bool {
    forall|r: int, s: int|
        0 <= r <= s < col.len() && (#[trigger] col[r]).is_some() ==> (#[trigger] col[s]).is_some()
}

/// Every column of the grid is settled.
pub open spec fn settled(g: Grid) -> bool {
    forall|c: int| 0 <= c < g.len() ==> column_settled(#[trigger] g[c])
}

/// The column has no empty cell left: its topmost cell is occupied.
pub open spec fn column_full(col: Seq<Cell>) -> bool {
    col.len() > 0 && col[0].is_some()
}

/// The number of empty cells at the top of a column, down to the first
/// occupied one.
pub open spec fn headroom(col: Seq<Cell>) -> nat
    decreases col.len(),
{
    if col.len() == 0 || col[0].is_some() {
        0
    } else {
        1 + headroom(col.skip(1))
    }
}

/// The row in which a piece dropped into the column comes to rest: the last
/// of the empty cells at its top.
pub open spec fn landing_row(col: Seq<Cell>) -> int {
    headroom(col) - 1
}

/// The grid after player `p` has dropped a piece into column `c`.
pub open spec fn with_piece(g: Grid, c: int, p: usize) -> Grid {
    g.update(c, g[c].update(landing_row(g[c]), Some(p)))
}

/// Whose turn it is after the player at index `turn` of `n` players has moved.
pub open spec fn next_turn(turn: int, n: int) -> int {
    if turn + 1 >= n {
        0
    } else {
        turn + 1
    }
}

/// The number of occupied cells in a column.
pub open spec fn pieces_in_column(col: Seq<Cell>) -> nat
    decreases col.len(),
{
    if col.len() == 0 {
        0
    } else {
        pieces_in_column(col.drop_last()) + if col.last().is_some() { 1nat } else { 0nat }
    }
}

/// The number of occupied cells in the whole grid.
pub open spec fn pieces(g: Grid) -> nat
    decreases g.len(),
{
    if g.len() == 0 {
        0
    } else {
        pieces(g.drop_last()) + pieces_in_column(g.last())
    }
}

/// A column without an occupied cell holds no piece.
pub proof fn lemma_empty_column(col: Seq<Cell>)
    requires
        forall|r: int| 0 <= r < col.len() ==> (#[trigger] col[r]).is_none(),
    ensures
        pieces_in_column(col) == 0,
    decreases col.len(),
{
    if col.len() > 0 {
        lemma_empty_column(col.drop_last());
    }
}

/// A grid without an occupied cell holds no piece.
pub proof fn lemma_empty_grid(g: Grid)
    requires
        all_empty(g),
    ensures
        pieces(g) == 0,
    decreases g.len(),
{
    if g.len() > 0 {
        let rest = g.drop_last();
        assert forall|c: int, r: int|
            0 <= c < rest.len() && 0 <= r < rest[c].len() implies (#[trigger] rest[c][r]).is_none() by {
            assert(rest[c] == g[c]);
        }
        lemma_empty_grid(rest);
        lemma_empty_column(g.last());
    }
}

/// A column holds at most as many pieces as it has cells.
pub proof fn lemma_column_bound(col: Seq<Cell>)
    ensures
        pieces_in_column(col) <= col.len(),
    decreases col.len(),
{
    if col.len() > 0 {
        lemma_column_bound(col.drop_last());
    }
}

/// Filling one empty cell of a column adds one piece to it.
pub proof fn lemma_column_fill(col: Seq<Cell>, r: int, p: usize)
    requires
        0 <= r < col.len(),
        col[r].is_none(),
    ensures
        pieces_in_column(col.update(r, Some(p))) == pieces_in_column(col) + 1,
    decreases col.len(),
{
    let filled = col.update(r, Some(p));
    if r == col.len() - 1 {
        assert(filled.drop_last() == col.drop_last());
    } else {
        assert(filled.drop_last() == col.drop_last().update(r, Some(p)));
        lemma_column_fill(col.drop_last(), r, p);
    }
}

/// Replacing one column changes the grid's count by the difference between
/// the new column's count and the old one's.
pub proof fn lemma_grid_replace(g: Grid, c: int, col: Seq<Cell>)
    requires
        0 <= c < g.len(),
    ensures
        pieces(g.update(c, col)) + pieces_in_column(g[c]) == pieces(g) + pieces_in_column(col),
    decreases g.len(),
{
    let changed = g.update(c, col);
    if c == g.len() - 1 {
        assert(changed.drop_last() == g.drop_last());
    } else {
        assert(changed.drop_last() == g.drop_last().update(c, col));
        lemma_grid_replace(g.drop_last(), c, col);
    }
}

/// In a grid of `w` columns of `h` cells, the pieces outside column `c`
/// number at most `(w - 1) * h`.
pub proof fn lemma_grid_bound(g: Grid, w: int, h: int, c: int)
    requires
        has_shape(g, w, h),
        0 <= c < w,
    ensures
        pieces(g) - pieces_in_column(g[c]) <= (w - 1) * h,
    decreases g.len(),
{
    let rest = g.drop_last();
    assert(has_shape(rest, w - 1, h)) by {
        assert forall|i: int| 0 <= i < w - 1 implies (#[trigger] rest[i]).len() == h by {
            assert(rest[i] == g[i]);
        }
    }
    if c == w - 1 {
        lemma_grid_total_bound(rest, w - 1, h);
    } else {
        lemma_grid_bound(rest, w - 1, h, c);
        lemma_column_bound(g.last());
        assert(rest[c] == g[c]);
        assert((w - 2) * h + h == (w - 1) * h) by (nonlinear_arith);
    }
}

/// A grid of `w` columns of `h` cells holds at most `w * h` pieces.
pub proof fn lemma_grid_total_bound(g: Grid, w: int, h: int)
    requires
        has_shape(g, w, h),
    ensures
        pieces(g) <= w * h,
    decreases g.len(),
{
    if g.len() > 0 {
        let rest = g.drop_last();
        assert(has_shape(rest, w - 1, h)) by {
            assert forall|i: int| 0 <= i < w - 1 implies (#[trigger] rest[i]).len() == h by {
                assert(rest[i] == g[i]);
            }
        }
        lemma_grid_total_bound(rest, w - 1, h);
        lemma_column_bound(g.last());
        assert((w - 1) * h + h == w * h) by (nonlinear_arith);
    } else {
        assert(w == 0);
    }
}

/// Where the first `k` cells are empty and the next one, if there is one,
/// is occupied, the headroom is `k`.
pub proof fn lemma_headroom(col: Seq<Cell>, k: int)
    requires
        0 <= k <= col.len(),
        forall|r: int| 0 <= r < k ==> (#[trigger] col[r]).is_none(),
        k < col.len() ==> col[k].is_some(),
    ensures
        headroom(col) == k,
    decreases k,
{
    if k > 0 {
        let rest = col.skip(1);
        assert forall|r: int| 0 <= r < k - 1 implies (#[trigger] rest[r]).is_none() by {
            assert(rest[r] == col[r + 1]);
        }
        lemma_headroom(rest, k - 1);
    }
}

/// The cells above the landing row and the landing row itself are empty, and
/// the cell below it, if there is one, is occupied.
pub proof fn lemma_headroom_cells(col: Seq<Cell>)
    ensures
        headroom(col) <= col.len(),
        forall|r: int| 0 <= r < headroom(col) ==> (#[trigger] col[r]).is_none(),
        headroom(col) < col.len() ==> col[headroom(col) as int].is_some(),
    decreases col.len(),
{
    if col.len() > 0 && col[0].is_none() {
        let rest = col.skip(1);
        lemma_headroom_cells(rest);
        assert forall|r: int| 0 <= r < headroom(col) implies (#[trigger] col[r]).is_none() by {
            if r > 0 {
                assert(rest[r - 1] == col[r]);
            }
        }
        if headroom(col) < col.len() {
            assert(rest[headroom(rest) as int] == col[headroom(col) as int]);
        }
    }
}

/// A piece of one of the `n` players leaves every piece on the board with
/// one of them.
pub proof fn lemma_drop_keeps_seats(g: Grid, c: int, p: usize, n: int)
    requires
        seated(g, n),
        0 <= c < g.len(),
        0 <= landing_row(g[c]) < g[c].len(),
        p < n,
    ensures
        seated(with_piece(g, c, p), n),
{
    let after = with_piece(g, c, p);
    assert forall|i: int, r: int|
        0 <= i < after.len() && 0 <= r < after[i].len() implies match #[trigger] after[i][r] {
        Some(q) => q < n,
        None => true,
    } by {
        if i == c {
            if r != landing_row(g[c]) {
                assert(after[i][r] == g[i][r]);
            }
        } else {
            assert(after[i][r] == g[i][r]);
        }
    }
}

} // verus!
