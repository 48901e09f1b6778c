//! What holds of every game: statements about dropping pieces, about whose
//! turn it is, and about how the search for runs of four ends.

use vstd::prelude::*;
use crate::grid::{
    column_full, column_settled, has_shape, headroom, landing_row, lemma_column_bound,
    lemma_column_fill, lemma_grid_bound, lemma_headroom_cells, next_turn, pieces,
    pieces_in_column, with_piece, Cell, Grid,
};
use crate::lines::{comes_before, has_line, is_last_complete, last_complete, scan_outcome, Line};
use crate::outcome::GameEnd;

verus! {

/// A settled column is full exactly if none of its cells is empty.
pub proof fn lemma_full_means_no_empty_cell(col: Seq<Cell>)
    requires
        col.len() > 0,
        column_settled(col),
    ensures
        column_full(col) <==> forall|r: int| 0 <= r < col.len() ==> (#[trigger] col[r]).is_some(),
{
    if column_full(col) {
        assert forall|r: int| 0 <= r < col.len() implies (#[trigger] col[r]).is_some() by {
            assert(col[0].is_some());
        }
    }
}

/// A piece dropped into a settled column that is not full comes to rest in
/// the lowest empty cell: that cell and all above it were empty, all below it
/// are occupied. The column then holds one piece more, and stays settled.
pub proof fn lemma_piece_lands_lowest(col: Seq<Cell>, p: usize)
    requires
        col.len() > 0,
        column_settled(col),
        !column_full(col),
    ensures
        0 <= landing_row(col) < col.len(),
        forall|r: int| 0 <= r <= landing_row(col) ==> (#[trigger] col[r]).is_none(),
        forall|r: int| landing_row(col) < r < col.len() ==> (#[trigger] col[r]).is_some(),
        pieces_in_column(col.update(landing_row(col), Some(p))) == pieces_in_column(col) + 1,
        column_settled(col.update(landing_row(col), Some(p))),
{
    lemma_headroom_cells(col);
    let row = landing_row(col);
    assert(headroom(col) == 1 + headroom(col.skip(1)));
    if row + 1 < col.len() {
        assert(col[row + 1].is_some());
    }
    lemma_column_fill(col, row, p);
}

/// Dropping a piece changes one cell of the board: the landing cell of the
/// chosen column, which then holds the player's piece.
pub proof fn lemma_drop_changes_one_cell(g: Grid, c: int, p: usize)
    requires
        0 <= c < g.len(),
        0 <= landing_row(g[c]) < g[c].len(),
    ensures
        with_piece(g, c, p).len() == g.len(),
        with_piece(g, c, p)[c][landing_row(g[c])] == Some(p),
        forall|i: int, r: int|
            0 <= i < g.len() && 0 <= r < g[i].len() && !(i == c && r == landing_row(g[c]))
                ==> #[trigger] with_piece(g, c, p)[i][r] == g[i][r],
        forall|i: int| 0 <= i < g.len() ==> (#[trigger] with_piece(g, c, p)[i]).len() == g[i].len(),
{
}

/// Whose turn it is after `k` moves, when the player at index `turn` of `n`
/// players is to move now.
pub open spec fn turn_after(turn: int, n: int, k: nat) -> int
    decreases k,
{
    if k == 0 {
        turn
    } else {
        next_turn(turn_after(turn, n, (k - 1) as nat), n)
    }
}

/// After `k` moves, `k` no more than the number of players, the turn has
/// advanced by `k` places round the table.
pub proof fn lemma_turn_after(turn: int, n: int, k: nat)
    requires
        0 <= turn < n,
        k <= n,
    ensures
        turn_after(turn, n, k) == if turn + k < n {
            turn + k
        } else {
            turn + k - n
        },
    decreases k,
{
    if k > 0 {
        lemma_turn_after(turn, n, (k - 1) as nat);
    }
}

/// Once each of the `n` players has moved, the turn is back where it was.
pub proof fn lemma_turns_come_round(turn: int, n: int)
    requires
        0 <= turn < n,
    ensures
        turn_after(turn, n, n as nat) == turn,
{
    lemma_turn_after(turn, n, n as nat);
}

/// Where a run is complete, one complete run is searched last.
pub proof fn lemma_last_complete_exists(g: Grid, w: int, h: int, l: Line)
    requires
        l.fits(w, h),
        l.complete(g),
    ensures
        is_last_complete(g, w, h, last_complete(g, w, h)),
    decreases 6 - l.scan_position(w).0, w + h - l.scan_position(w).1, w + h - l.scan_position(w).2,
{
    if !is_last_complete(g, w, h, l) {
        let m = choose|m: Line|
            m.fits(w, h) && #[trigger] m.complete(g) && comes_before(
                l.scan_position(w),
                m.scan_position(w),
            );
        lemma_last_complete_exists(g, w, h, m);
    }
}

/// A board that the moves have filled without a complete run is drawn.
pub proof fn lemma_full_board_without_run_is_drawn(g: Grid, w: int, h: int, moves: int)
    requires
        moves >= w * h,
        !has_line(g, w, h),
    ensures
        scan_outcome(g, w, h, moves) == GameEnd::Draw,
{
}

/// A board without a complete run that the moves have not filled is open.
pub proof fn lemma_open_board_without_run_is_ongoing(g: Grid, w: int, h: int, moves: int)
    requires
        moves < w * h,
        !has_line(g, w, h),
    ensures
        scan_outcome(g, w, h, moves) == GameEnd::Ongoing,
{
}

/// Where four cells in a run, in any of the four directions, hold pieces of
/// one player, somebody has won, whatever the move counter says: the owner
/// of the complete run that is searched last.
pub proof fn lemma_complete_run_wins(g: Grid, w: int, h: int, moves: int, l: Line, p: usize)
    requires
        l.fits(w, h),
        l.owned_by(g, p),
    ensures
        has_line(g, w, h),
        is_last_complete(g, w, h, last_complete(g, w, h)),
        last_complete(g, w, h).owner(g) matches Some(q) && scan_outcome(g, w, h, moves)
            == GameEnd::Win(q),
{
    assert(l.complete(g));
    lemma_last_complete_exists(g, w, h, l);
}

/// Where four cells in a run hold pieces of player `p`, `p` has won, unless
/// the complete run that is searched last is another player's.
pub proof fn lemma_run_wins_unless_overridden(
    g: Grid,
    w: int,
    h: int,
    moves: int,
    l: Line,
    p: usize,
)
    requires
        l.fits(w, h),
        l.owned_by(g, p),
        forall|m: Line| #[trigger] is_last_complete(g, w, h, m) ==> m.owner(g) == Some(p),
    ensures
        scan_outcome(g, w, h, moves) == GameEnd::Win(p),
{
    lemma_complete_run_wins(g, w, h, moves, l, p);
}

/// Where four cells in a run hold pieces of player `p` and no other player
/// has a complete run, `p` has won.
pub proof fn lemma_sole_owner_wins(g: Grid, w: int, h: int, moves: int, l: Line, p: usize)
    requires
        l.fits(w, h),
        l.owned_by(g, p),
        forall|m: Line| m.fits(w, h) && #[trigger] m.complete(g) ==> m.owner(g) == Some(p),
    ensures
        scan_outcome(g, w, h, moves) == GameEnd::Win(p),
{
    lemma_run_wins_unless_overridden(g, w, h, moves, l, p);
}

/// On a board without a complete run, every run that a dropped piece
/// completes is the run of the player who dropped it.
pub proof fn lemma_new_run_is_the_movers(g: Grid, w: int, h: int, c: int, p: usize, m: Line)
    requires
        has_shape(g, w, h),
        0 <= c < w,
        0 <= landing_row(g[c]) < h,
        !has_line(g, w, h),
        m.fits(w, h),
        m.complete(with_piece(g, c, p)),
    ensures
        m.owner(with_piece(g, c, p)) == Some(p),
{
    let after = with_piece(g, c, p);
    let row = landing_row(g[c]);
    if m.covers(c, row) {
        assert(after[c][row] == Some(p));
    } else {
        assert forall|i: int| 0 <= i < 4 implies m.cell(after, i) == m.cell(g, i) by {
            let col = m.cell_col(i);
            if col == c {
                assert(after[col][m.cell_row(i)] == g[col][m.cell_row(i)]);
            } else {
                assert(after[col] == g[col]);
            }
        }
        assert(m.cell(after, 0) == m.cell(g, 0));
        assert(m.cell(after, 1) == m.cell(g, 1));
        assert(m.cell(after, 2) == m.cell(g, 2));
        assert(m.cell(after, 3) == m.cell(g, 3));
        assert(m.complete(g));
    }
}

/// On a board without a complete run, a player who completes a run with the
/// piece they drop has won.
pub proof fn lemma_mover_wins(g: Grid, w: int, h: int, moves: int, c: int, p: usize)
    requires
        has_shape(g, w, h),
        0 <= c < w,
        0 <= landing_row(g[c]) < h,
        !has_line(g, w, h),
        has_line(with_piece(g, c, p), w, h),
    ensures
        scan_outcome(with_piece(g, c, p), w, h, moves) == GameEnd::Win(p),
{
    let after = with_piece(g, c, p);
    let l = choose|l: Line| l.fits(w, h) && #[trigger] l.complete(after);
    lemma_new_run_is_the_movers(g, w, h, c, p, l);
    assert forall|m: Line| m.fits(w, h) && #[trigger] m.complete(after) implies m.owner(after)
        == Some(p) by {
        lemma_new_run_is_the_movers(g, w, h, c, p, m);
    }
    lemma_sole_owner_wins(after, w, h, moves, l, p);
}

/// A column that holds as many pieces as it has cells has no empty cell.
pub proof fn lemma_counted_out_column_is_full(col: Seq<Cell>)
    requires
        pieces_in_column(col) >= col.len(),
    ensures
        forall|r: int| 0 <= r < col.len() ==> (#[trigger] col[r]).is_some(),
    decreases col.len(),
{
    if col.len() > 0 {
        let rest = col.drop_last();
        lemma_column_bound(rest);
        lemma_counted_out_column_is_full(rest);
        assert forall|r: int| 0 <= r < col.len() implies (#[trigger] col[r]).is_some() by {
            if r < col.len() - 1 {
                assert(rest[r] == col[r]);
            }
        }
    }
}

/// A board that holds as many pieces as it has cells has no empty cell.
pub proof fn lemma_counted_out_board_is_full(g: Grid, w: int, h: int)
    requires
        has_shape(g, w, h),
        pieces(g) >= w * h,
    ensures
        forall|c: int, r: int| 0 <= c < w && 0 <= r < h ==> (#[trigger] g[c][r]).is_some(),
{
    assert forall|c: int, r: int| 0 <= c < w && 0 <= r < h implies (#[trigger] g[c][r]).is_some() by {
        lemma_grid_bound(g, w, h, c);
        assert((w - 1) * h + h == w * h) by (nonlinear_arith);
        lemma_counted_out_column_is_full(g[c]);
    }
}

} // verus!
