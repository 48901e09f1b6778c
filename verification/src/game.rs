//! The game state and the operations that change it.

use vstd::prelude::*;
use crate::grid::{
    all_empty, column_full, column_settled, has_shape, lemma_column_bound, lemma_column_fill,
    lemma_drop_keeps_seats, lemma_empty_grid, lemma_grid_bound, lemma_grid_replace,
    lemma_headroom, next_turn, pieces, seated, settled, with_piece, Cell, Grid,
};
use crate::lines::{line, marked, scan_outcome, Direction};
use crate::outcome::{ErrorKind, GameEnd};
use crate::player::Player;

verus! {

/// A board with its turn pointer, move counter and outcome.
pub struct GameState {
    pub winner: GameEnd,
    pub current_player: usize,
    move_count: u32,
    board_width: usize,
    board_height: usize,
    board: Vec<Vec<Cell>>,
}

impl GameState {
    /// The number of columns.
    pub closed spec fn width(&self) -> int {
        self.board_width as int
    }

    /// The number of rows.
    pub closed spec fn height(&self) -> int {
        self.board_height as int
    }

    /// The number of pieces dropped so far.
    pub closed spec fn moves(&self) -> int {
        self.move_count as int
    }

    /// The index of the player whose turn it is.
    pub closed spec fn turn(&self) -> usize {
        self.current_player
    }

    /// How the game stood when the board was last scanned.
    pub closed spec fn outcome(&self) -> GameEnd {
        self.winner
    }

    /// The cells, column by column, each column from the top row down.
    pub closed spec fn grid(&self) -> Grid {
        Seq::new(self.board@.len(), |c: int| self.board@[c]@)
    }

    /// The board has at least four columns and four rows, and no more cells
    /// than the move counter can count.
    pub open spec fn shaped(&self) -> bool {
        &&& self.width() >= 4
        &&& self.height() >= 4
        &&& self.width() * self.height() <= u32::MAX
        &&& has_shape(self.grid(), self.width(), self.height())
    }

    /// The state is one that `new` and `put_dot_in` can produce: at least four
    /// columns and four rows, every piece resting on the floor or on another
    /// piece, and the move counter equal to the number of pieces.
    pub open spec fn well_formed(&self) -> bool {
        &&& self.shaped()
        &&& settled(self.grid())
        &&& self.moves() == pieces(self.grid())
    }

    /// `self` is `before` with nothing but its outcome changed, and the
    /// outcome is what a search of the board gives.
    pub open spec fn rescanned(&self, before: &GameState) -> bool {
        &&& self.outcome() == scan_outcome(
            before.grid(),
            before.width(),
            before.height(),
            before.moves(),
        )
        &&& self.grid() == before.grid()
        &&& self.width() == before.width()
        &&& self.height() == before.height()
        &&& self.moves() == before.moves()
        &&& self.turn() == before.turn()
    }

    /// Searching a board twice gives what searching it once gives.
    pub proof fn lemma_rescan_changes_nothing(&self, first: &GameState, second: &GameState)
        requires
            first.rescanned(self),
            second.rescanned(first),
        ensures
            second.outcome() == first.outcome(),
            second.rescanned(self),
    {
    }

    /// An empty board of `w` columns and `h` rows, with player 0 to move.
    pub fn new(w: usize, h: usize) -> (state: GameState)
        requires
            w >= 4,
            h >= 4,
            w * h <= u32::MAX,
        ensures
            state.well_formed(),
            state.width() == w,
            state.height() == h,
            all_empty(state.grid()),
            state.moves() == 0,
            state.turn() == 0,
            state.outcome() == GameEnd::Ongoing,
    {
        let mut board: Vec<Vec<Cell>> = Vec::new();
        while board.len() < w
            invariant
                board.len() <= w,
                forall|c: int|
                    0 <= c < board.len() ==> (#[trigger] board@[c])@ == Seq::<Cell>::new(
                        h as nat,
                        |r: int| None,
                    ),
            decreases w - board.len(),
        {
            let mut column: Vec<Cell> = Vec::new();
            while column.len() < h
                invariant
                    column.len() <= h,
                    column@ == Seq::<Cell>::new(column.len() as nat, |r: int| None),
                decreases h - column.len(),
            {
                column.push(None);
            }
            board.push(column);
        }
        let state = GameState {
            move_count: 0,
            winner: GameEnd::Ongoing,
            current_player: 0,
            board_width: w,
            board_height: h,
            board,
        };
        proof {
            assert(all_empty(state.grid()));
            lemma_empty_grid(state.grid());
        }
        state
    }

    /// The number of columns.
    pub fn board_width(&self) -> (w: usize)
        ensures
            w == self.width(),
    {
        self.board_width
    }

    /// The number of rows.
    pub fn board_height(&self) -> (h: usize)
        ensures
            h == self.height(),
    {
        self.board_height
    }

    /// The number of pieces dropped so far.
    pub fn move_count(&self) -> (n: u32)
        ensures
            n == self.moves(),
    {
        self.move_count
    }

    /// What the cell in column `c` and row `r` holds, both counted from 0 and
    /// the rows from the top.
    pub fn cell(&self, c: usize, r: usize) -> (cell: Cell)
        requires
            self.shaped(),
            c < self.width(),
            r < self.height(),
        ensures
            cell == self.grid()[c as int][r as int],
    {
        assert(self.grid()[c as int].len() == self.height());
        self.board[c][r]
    }

    /// Whether every piece on the board belongs to one of `n` players.
    pub fn seats(&self, n: usize) -> (ok: bool)
        requires
            self.shaped(),
        ensures
            ok == seated(self.grid(), n as int),
    {
        let ghost g = self.grid();
        let mut c: usize = 0;
        while c < self.board_width
            invariant
                self.shaped(),
                g == self.grid(),
                c <= self.board_width,
                forall|i: int, r: int|
                    0 <= i < c && 0 <= r < g[i].len() ==> match #[trigger] g[i][r] {
                        Some(p) => p < n,
                        None => true,
                    },
            decreases self.board_width - c,
        {
            assert(g[c as int].len() == self.height());
            let mut r: usize = 0;
            while r < self.board_height
                invariant
                    self.shaped(),
                    g == self.grid(),
                    c < self.board_width,
                    r <= self.board_height,
                    g[c as int].len() == self.height(),
                    forall|j: int|
                        0 <= j < r ==> match #[trigger] g[c as int][j] {
                            Some(p) => p < n,
                            None => true,
                        },
                decreases self.board_height - r,
            {
                if let Some(p) = self.board[c][r] {
                    if p >= n {
                        assert(g[c as int][r as int] == Some(p));
                        return false;
                    }
                }
                r = r + 1;
            }
            c = c + 1;
        }
        true
    }

    /// A board of the same size that is empty but for the falling diagonal of
    /// four cells that starts in column `c` and row `r`.
    pub fn visualize_left(&self, c: usize, r: usize) -> (vis: GameState)
        requires
            self.shaped(),
            line(Direction::DownRight, c as int, r as int).fits(self.width(), self.height()),
        ensures
            vis.shaped(),
            vis.width() == self.width(),
            vis.height() == self.height(),
            vis.grid() == marked(
                self.width(),
                self.height(),
                line(Direction::DownRight, c as int, r as int),
            ),
            vis.moves() == 0,
            vis.turn() == 0,
            vis.outcome() == GameEnd::Ongoing,
    {
        let mut vis = GameState::new(self.board_width, self.board_height);
        let ghost blank = vis.grid();
        assert(vis.grid()[c as int].len() == self.height());
        vis.board[c][r] = Some(0);
        assert(vis.grid()[c + 1].len() == blank[c + 1].len() == self.height());
        vis.board[c + 1][r + 1] = Some(0);
        assert(vis.grid()[c + 2].len() == blank[c + 2].len() == self.height());
        vis.board[c + 2][r + 2] = Some(0);
        assert(vis.grid()[c + 3].len() == blank[c + 3].len() == self.height());
        vis.board[c + 3][r + 3] = Some(0);
        proof {
            let l = line(Direction::DownRight, c as int, r as int);
            let m = marked(self.width(), self.height(), l);
            assert forall|i: int| 0 <= i < m.len() implies #[trigger] vis.grid()[i] == m[i] by {
                assert(blank[i].len() == self.height());
                assert forall|j: int| 0 <= j < self.height() implies blank[i][j].is_none() by {}
                assert(vis.grid()[i] =~= m[i]);
            }
            assert(vis.grid() =~= m);
        }
        vis
    }

    /// A board of the same size that is empty but for the rising diagonal of
    /// four cells that ends in column `c` and row `r`.
    pub fn visualize_right(&self, c: usize, r: usize) -> (vis: GameState)
        requires
            self.shaped(),
            line(Direction::DownLeft, c as int, r as int).fits(self.width(), self.height()),
        ensures
            vis.shaped(),
            vis.width() == self.width(),
            vis.height() == self.height(),
            vis.grid() == marked(
                self.width(),
                self.height(),
                line(Direction::DownLeft, c as int, r as int),
            ),
            vis.moves() == 0,
            vis.turn() == 0,
            vis.outcome() == GameEnd::Ongoing,
    {
        let mut vis = GameState::new(self.board_width, self.board_height);
        let ghost blank = vis.grid();
        assert(vis.grid()[c as int].len() == self.height());
        vis.board[c][r] = Some(0);
        assert(vis.grid()[c - 1].len() == blank[c - 1].len() == self.height());
        vis.board[c - 1][r + 1] = Some(0);
        assert(vis.grid()[c - 2].len() == blank[c - 2].len() == self.height());
        vis.board[c - 2][r + 2] = Some(0);
        assert(vis.grid()[c - 3].len() == blank[c - 3].len() == self.height());
        vis.board[c - 3][r + 3] = Some(0);
        proof {
            let l = line(Direction::DownLeft, c as int, r as int);
            let m = marked(self.width(), self.height(), l);
            assert forall|i: int| 0 <= i < m.len() implies #[trigger] vis.grid()[i] == m[i] by {
                assert(blank[i].len() == self.height());
                assert forall|j: int| 0 <= j < self.height() implies blank[i][j].is_none() by {}
                assert(vis.grid()[i] =~= m[i]);
            }
            assert(vis.grid() =~= m);
        }
        vis
    }

    /// Drops a piece of the player to move into column `c`, counted from 1.
    ///
    /// The piece comes to rest on the floor or on the topmost piece of the
    /// column; the move is counted and the turn passes to the next of
    /// `players`. A column number outside the board, or a column without an
    /// empty cell, is refused and changes nothing. The outcome is neither
    /// read nor changed: a piece can be dropped after the game has ended.
    pub fn put_dot_in(&mut self, c: usize, players: &Vec<Player>) -> (result: Result<(), ErrorKind>)
        requires
            old(self).well_formed(),
            old(self).turn() < players.len(),
        ensures
            final(self).well_formed(),
            final(self).width() == old(self).width(),
            final(self).height() == old(self).height(),
            final(self).outcome() == old(self).outcome(),
            result == Err::<(), ErrorKind>(ErrorKind::ColumnOutOfRange) <==> c == 0 || c > old(
                self,
            ).width(),
            result == Err::<(), ErrorKind>(ErrorKind::ColumnFull) <==> 1 <= c <= old(self).width()
                && column_full(old(self).grid()[c - 1]),
            result.is_ok() <==> 1 <= c <= old(self).width() && !column_full(old(self).grid()[c - 1]),
            result.is_err() ==> *final(self) == *old(self),
            seated(old(self).grid(), players.len() as int) ==> seated(
                final(self).grid(),
                players.len() as int,
            ),
            result.is_ok() ==> {
                &&& final(self).grid() == with_piece(old(self).grid(), c - 1, old(self).turn())
                &&& final(self).moves() == old(self).moves() + 1
                &&& final(self).turn() == next_turn(old(self).turn() as int, players.len() as int)
            },
    {
        if c == 0 || c > self.board_width {
            return Err(ErrorKind::ColumnOutOfRange);
        }
        let c: usize = c - 1;
        if self.board[c][0].is_some() {
            return Err(ErrorKind::ColumnFull);
        }
        let ghost before = self.grid();
        let h: usize = self.board_height;
        let mut r: usize = 1;
        while r < h && self.board[c][r].is_none()
            invariant
                *self == *old(self),
                self.well_formed(),
                h == self.board_height,
                c < self.board_width,
                1 <= r <= h,
                forall|i: int| 0 <= i < r ==> (#[trigger] self.grid()[c as int][i]).is_none(),
            decreases h - r,
        {
            r = r + 1;
        }
        let row: usize = r - 1;
        proof {
            let col = before[c as int];
            lemma_headroom(col, r as int);
            if seated(before, players.len() as int) {
                lemma_drop_keeps_seats(before, c as int, self.current_player, players.len() as int);
            }
            lemma_column_fill(col, row as int, self.current_player);
            lemma_grid_replace(before, c as int, col.update(row as int, Some(self.current_player)));
            lemma_grid_bound(before, self.width(), self.height(), c as int);
            lemma_column_bound(col.update(row as int, Some(self.current_player)));
            assert((self.width() - 1) * self.height() + self.height() == self.width() * self.height())
                by (nonlinear_arith);
        }
        self.board[c][row] = Some(self.current_player);
        if self.current_player + 1 >= players.len() {
            self.current_player = 0;
        } else {
            self.current_player += 1;
        }
        self.move_count += 1;
        proof {
            let after = self.grid();
            let col = before[c as int];
            let filled = col.update(row as int, Some(old(self).current_player));
            assert(after =~= before.update(c as int, filled));
            assert forall|i: int| 0 <= i < after.len() implies column_settled(#[trigger] after[i]) by {
                if i != c {
                    assert(after[i] == before[i]);
                }
            }
        }
        Ok(())
    }

    /// Records how the game stands and changes nothing else.
    pub(crate) fn set_outcome(&mut self, end: GameEnd)
        ensures
            final(self).outcome() == end,
            final(self).grid() == old(self).grid(),
            final(self).width() == old(self).width(),
            final(self).height() == old(self).height(),
            final(self).moves() == old(self).moves(),
            final(self).turn() == old(self).turn(),
    {
        self.winner = end;
    }

    /// One turn of the game: drops a piece of the player to move into column
    /// `c`, counted from 1, and searches the board.
    ///
    /// A refused move changes nothing. After an accepted one the result is
    /// the new outcome.
    pub fn take_turn(&mut self, c: usize, players: &Vec<Player>) -> (result: Result<GameEnd, ErrorKind>)
        requires
            old(self).well_formed(),
            old(self).turn() < players.len(),
        ensures
            final(self).well_formed(),
            final(self).width() == old(self).width(),
            final(self).height() == old(self).height(),
            result == Err::<GameEnd, ErrorKind>(ErrorKind::ColumnOutOfRange) <==> c == 0 || c > old(
                self,
            ).width(),
            result == Err::<GameEnd, ErrorKind>(ErrorKind::ColumnFull) <==> 1 <= c <= old(self).width()
                && column_full(old(self).grid()[c - 1]),
            result.is_err() ==> *final(self) == *old(self),
            result matches Ok(end) ==> {
                &&& final(self).grid() == with_piece(old(self).grid(), c - 1, old(self).turn())
                &&& final(self).moves() == old(self).moves() + 1
                &&& final(self).turn() == next_turn(old(self).turn() as int, players.len() as int)
                &&& final(self).outcome() == end
                &&& end == scan_outcome(
                    final(self).grid(),
                    final(self).width(),
                    final(self).height(),
                    final(self).moves(),
                )
            },
            seated(old(self).grid(), players.len() as int) ==> seated(
                final(self).grid(),
                players.len() as int,
            ),
    {
        match self.put_dot_in(c, players) {
            Err(e) => Err(e),
            Ok(()) => {
                self.set_winner();
                Ok(self.winner)
            },
        }
    }
}

} // verus!
