//! Runs of four cells, and the order in which the board is searched for them.

use vstd::prelude::*;
use crate::grid::Grid;
use crate::outcome::GameEnd;

verus! {

/// The way a run of four cells leads from its first cell. Rows are counted
/// from the top, so "down" is towards higher row numbers.
#[derive(Clone, Copy, Debug, PartialEq, Eq, Structural)]
pub enum Direction {
    /// Straight down a column.
    Down,
    /// Along a row, towards higher column numbers.
    Right,
    /// One column to the right with each row down.
    DownRight,
    /// One column to the left with each row down.
    DownLeft,
}

/// A run of four cells: where it starts and which way it leads.
pub struct Line {
    pub direction: Direction,
    pub col: int,
    pub row: int,
}

/// The run that starts in column `col` and row `row` and leads in
/// `direction`.
pub open spec fn line(direction: Direction, col: int, row: int) -> Line {
    Line { direction, col, row }
}

/// A grid of `w` columns and `h` rows that is empty but for the four cells
/// of `l`, which hold pieces of player 0.
pub open spec fn marked(w: int, h: int, l: Line) -> Grid {
    Seq::new(
        w as nat,
        |c: int|
            Seq::new(
                h as nat,
                |r: int|
                    if l.covers(c, r) {
                        Some(0usize)
                    } else {
                        None
                    },
            ),
    )
}

/// A place in the search: the pass, the pass's outer step, and the step
/// within that.
pub type Position = (int, int, int);

/// `a` is searched earlier than `b`.
pub open spec fn comes_before(a: Position, b: Position) -> bool {
    a.0 < b.0 || (a.0 == b.0 && (a.1 < b.1 || (a.1 == b.1 && a.2 < b.2)))
}

impl Line {
    /// The column of the run's `i`-th cell, counted from 0.
    pub open spec fn cell_col(self, i: int) -> int {
        match self.direction {
            Direction::Down => self.col,
            Direction::Right => self.col + i,
            Direction::DownRight => self.col + i,
            Direction::DownLeft => self.col - i,
        }
    }

    /// The row of the run's `i`-th cell, counted from 0.
    pub open spec fn cell_row(self, i: int) -> int {
        match self.direction {
            Direction::Right => self.row,
            _ => self.row + i,
        }
    }

    /// All four cells lie on a board of `w` columns and `h` rows.
    pub open spec fn fits(self, w: int, h: int) -> bool {
        &&& 0 <= self.cell_col(0) < w
        &&& 0 <= self.cell_col(3) < w
        &&& 0 <= self.cell_row(0) < h
        &&& 0 <= self.cell_row(3) < h
    }

    /// The cell in column `c` and row `r` is one of the run's four.
    pub open spec fn covers(self, c: int, r: int) -> bool {
        ||| c == self.cell_col(0) && r == self.cell_row(0)
        ||| c == self.cell_col(1) && r == self.cell_row(1)
        ||| c == self.cell_col(2) && r == self.cell_row(2)
        ||| c == self.cell_col(3) && r == self.cell_row(3)
    }

    /// What the run's `i`-th cell holds.
    pub open spec fn cell(self, g: Grid, i: int) -> Option<usize> {
        g[self.cell_col(i)][self.cell_row(i)]
    }

    /// All four cells hold a piece of player `p`.
    pub open spec fn owned_by(self, g: Grid, p: usize) -> bool {
        &&& self.cell(g, 0) == Some(p)
        &&& self.cell(g, 1) == Some(p)
        &&& self.cell(g, 2) == Some(p)
        &&& self.cell(g, 3) == Some(p)
    }

    /// The player whose pieces fill the run, if one player's pieces do.
    pub open spec fn owner(self, g: Grid) -> Option<usize> {
        match self.cell(g, 0) {
            Some(p) => if self.owned_by(g, p) {
                Some(p)
            } else {
                None
            },
            None => None,
        }
    }

    /// The four cells hold pieces of one player.
    pub open spec fn complete(self, g: Grid) -> bool {
        self.owner(g).is_some()
    }

    /// When the search looks at this run on a board of `w` columns.
    ///
    /// There are six passes. The first takes the vertical runs, column by
    /// column and from the top down; the second the horizontal runs, row by
    /// row and from the left. The third follows each falling diagonal that
    /// begins in the left-hand column, by the row it begins in; the fourth
    /// each falling diagonal that begins further right in the top row, by its
    /// column. The fifth follows each rising diagonal that ends in the
    /// right-hand column, by the row it ends in; the sixth each rising
    /// diagonal that ends further left in the top row, from right to left.
    /// Every diagonal is followed downwards.
    pub open spec fn scan_position(self, w: int) -> Position {
        match self.direction {
            Direction::Down => (0, self.col, self.row),
            Direction::Right => (1, self.row, self.col),
            Direction::DownRight => if self.col <= self.row {
                (2, self.row - self.col, self.col)
            } else {
                (3, self.col - self.row, self.row)
            },
            Direction::DownLeft => if self.col + self.row >= w - 1 {
                (4, self.col + self.row - (w - 1), w - 1 - self.col)
            } else {
                (5, w - 2 - (self.col + self.row), self.row)
            },
        }
    }
}

/// Some run on the board is complete.
pub open spec fn has_line(g: Grid, w: int, h: int) -> bool {
    exists|l: Line| l.fits(w, h) && #[trigger] l.complete(g)
}

/// `l` is a complete run, and no complete run is searched later.
pub open spec fn is_last_complete(g: Grid, w: int, h: int, l: Line) -> bool {
    &&& l.fits(w, h)
    &&& l.complete(g)
    &&& forall|m: Line|
        m.fits(w, h) && #[trigger] m.complete(g) ==> !comes_before(
            l.scan_position(w),
            m.scan_position(w),
        )
}

/// The complete run that is searched last.
pub open spec fn last_complete(g: Grid, w: int, h: int) -> Line {
    choose|l: Line| is_last_complete(g, w, h, l)
}

/// How the game stands when `found` is the last complete run, if there is
/// one: its owner has won; without one the game is drawn once `moves` pieces
/// have filled the `w * h` cells, and open before.
pub open spec fn verdict(g: Grid, w: int, h: int, moves: int, found: Option<Line>) -> GameEnd {
    match found {
        Some(l) => match l.owner(g) {
            Some(p) => GameEnd::Win(p),
            None => GameEnd::Ongoing,
        },
        None => if moves >= w * h {
            GameEnd::Draw
        } else {
            GameEnd::Ongoing
        },
    }
}

/// How the game stands on a board of `w` columns and `h` rows after `moves`
/// moves: won by the owner of the complete run that the search meets last;
/// drawn if there is no complete run and the moves have filled the board;
/// open otherwise.
pub open spec fn scan_outcome(g: Grid, w: int, h: int, moves: int) -> GameEnd {
    verdict(
        g,
        w,
        h,
        moves,
        if has_line(g, w, h) {
            Some(last_complete(g, w, h))
        } else {
            None
        },
    )
}

/// What is known once every run searched before `upto` has been looked at:
/// `found` is the last complete one among them, or `None` if none is.
pub open spec fn scanned(g: Grid, w: int, h: int, upto: Position, found: Option<Line>) -> bool {
    &&& found matches Some(l) ==> l.fits(w, h) && l.complete(g) && comes_before(
        l.scan_position(w),
        upto,
    )
    &&& forall|m: Line|
        m.fits(w, h) && #[trigger] m.complete(g) && comes_before(m.scan_position(w), upto)
            ==> found.is_some() && !comes_before(
            found.unwrap().scan_position(w),
            m.scan_position(w),
        )
}

/// Two runs on the board that are searched at the same time are one run.
pub proof fn lemma_position_names_line(a: Line, b: Line, w: int, h: int)
    requires
        a.fits(w, h),
        b.fits(w, h),
        a.scan_position(w) == b.scan_position(w),
    ensures
        a == b,
{
}

/// Before the search begins nothing has been found.
pub proof fn lemma_scan_start(g: Grid, w: int, h: int)
    ensures
        scanned(g, w, h, (0, 0, 0), None),
{
}

/// Looking at the run `l` moves the search one step on; `l` is the last
/// complete run so far if it is complete.
pub proof fn lemma_scan_step(g: Grid, w: int, h: int, found: Option<Line>, l: Line)
    requires
        l.fits(w, h),
        scanned(g, w, h, l.scan_position(w), found),
    ensures
        scanned(
            g,
            w,
            h,
            (l.scan_position(w).0, l.scan_position(w).1, l.scan_position(w).2 + 1),
            if l.complete(g) {
                Some(l)
            } else {
                found
            },
        ),
{
    let here = l.scan_position(w);
    let next = (here.0, here.1, here.2 + 1);
    let now = if l.complete(g) {
        Some(l)
    } else {
        found
    };
    assert forall|m: Line|
        m.fits(w, h) && #[trigger] m.complete(g) && comes_before(
            m.scan_position(w),
            next,
        ) implies now.is_some() && !comes_before(
        now.unwrap().scan_position(w),
        m.scan_position(w),
    ) by {
        if m.scan_position(w) == here {
            lemma_position_names_line(m, l, w, h);
        }
    }
}

/// Where no run on the board is searched from `from` up to `to`, the search
/// may go on at `to`.
pub proof fn lemma_scan_skip(g: Grid, w: int, h: int, from: Position, to: Position, found: Option<Line>)
    requires
        scanned(g, w, h, from, found),
        !comes_before(to, from),
        forall|m: Line| #[trigger]
            m.fits(w, h) ==> comes_before(m.scan_position(w), from) || !comes_before(
                m.scan_position(w),
                to,
            ),
    ensures
        scanned(g, w, h, to, found),
{
}

/// After the sixth pass every run has been looked at.
pub proof fn lemma_scan_end(g: Grid, w: int, h: int, found: Option<Line>)
    requires
        scanned(g, w, h, (6, 0, 0), found),
    ensures
        found.is_some() == has_line(g, w, h),
        found matches Some(l) ==> last_complete(g, w, h) == l,
{
    match found {
        Some(l) => {
            assert(is_last_complete(g, w, h, l));
            let k = last_complete(g, w, h);
            assert(is_last_complete(g, w, h, k));
            lemma_position_names_line(k, l, w, h);
        },
        None => {},
    }
}

} // verus!
