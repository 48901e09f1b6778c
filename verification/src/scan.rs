//! The search for runs of four that decides how the game stands.

use vstd::prelude::*;
use crate::game::GameState;
use crate::lines::{
    lemma_scan_end, lemma_scan_skip, lemma_scan_start, lemma_scan_step, line, scanned, verdict,
    Direction, Line,
};
use crate::outcome::GameEnd;

verus! {

impl GameState {
    /// The player whose pieces fill the run that starts in column `c` and row
    /// `r` and leads in direction `d`, if one player's pieces do.
    fn owner_at(&self, d: Direction, c: usize, r: usize) -> (owner: Option<usize>)
        requires
            self.shaped(),
            line(d, c as int, r as int).fits(self.width(), self.height()),
        ensures
            owner == line(d, c as int, r as int).owner(self.grid()),
    {
        let w: usize = self.board_width();
        let h: usize = self.board_height();
        assert(c < w && r < h);
        let (c1, c2, c3): (usize, usize, usize) = match d {
            Direction::Down => (c, c, c),
            Direction::Right => (c + 1, c + 2, c + 3),
            Direction::DownRight => (c + 1, c + 2, c + 3),
            Direction::DownLeft => (c - 1, c - 2, c - 3),
        };
        let (r1, r2, r3): (usize, usize, usize) = match d {
            Direction::Right => (r, r, r),
            _ => (r + 1, r + 2, r + 3),
        };
        match self.cell(c, r) {
            Some(p) => {
                if self.cell(c1, r1) == Some(p) && self.cell(c2, r2) == Some(p) && self.cell(c3, r3)
                    == Some(p) {
                    Some(p)
                } else {
                    None
                }
            },
            None => None,
        }
    }

    /// The first pass: the vertical runs, column by column and from the top down.
    fn scan_down(&self, winner: GameEnd, Ghost(found): Ghost<Option<Line>>) -> (res: (
        GameEnd,
        Ghost<Option<Line>>,
    ))
        requires
            self.shaped(),
            scanned(self.grid(), self.width(), self.height(), (0, 0, 0), found),
            winner == verdict(self.grid(), self.width(), self.height(), self.moves(), found),
        ensures
            scanned(self.grid(), self.width(), self.height(), (1, 0, 0), res.1@),
            res.0 == verdict(self.grid(), self.width(), self.height(), self.moves(), res.1@),
    {
        let w: usize = self.board_width();
        let h: usize = self.board_height();
        let ghost g = self.grid();
        let mut winner = winner;
        let ghost mut found = found;
        let mut c: usize = 0;
        while c < w
            invariant
                self.shaped(),
                w == self.width(),
                h == self.height(),
                g == self.grid(),
                c <= w,
                scanned(g, w as int, h as int, (0, c as int, 0), found),
                winner == verdict(g, w as int, h as int, self.moves(), found),
            decreases w - c,
        {
            let mut r: usize = 0;
            while r < h - 3
                invariant
                    self.shaped(),
                    w == self.width(),
                    h == self.height(),
                    g == self.grid(),
                    c < w,
                    r <= h - 3,
                    scanned(g, w as int, h as int, (0, c as int, r as int), found),
                    winner == verdict(g, w as int, h as int, self.moves(), found),
                decreases h - r,
            {
                let owner = self.owner_at(Direction::Down, c, r);
                proof {
                    let l = line(Direction::Down, c as int, r as int);
                    lemma_scan_step(g, w as int, h as int, found, l);
                    if l.complete(g) {
                        found = Some(l);
                    }
                }
                if let Some(p) = owner {
                    winner = GameEnd::Win(p);
                }
                r = r + 1;
            }
            proof {
                lemma_scan_skip(
                    g,
                    w as int,
                    h as int,
                    (0, c as int, r as int),
                    (0, c + 1, 0),
                    found,
                );
            }
            c = c + 1;
        }
        proof {
            lemma_scan_skip(g, w as int, h as int, (0, c as int, 0), (1, 0, 0), found);
        }
        (winner, Ghost(found))
    }

    /// The second pass: the horizontal runs, row by row and from the left.
    fn scan_right(&self, winner: GameEnd, Ghost(found): Ghost<Option<Line>>) -> (res: (
        GameEnd,
        Ghost<Option<Line>>,
    ))
        requires
            self.shaped(),
            scanned(self.grid(), self.width(), self.height(), (1, 0, 0), found),
            winner == verdict(self.grid(), self.width(), self.height(), self.moves(), found),
        ensures
            scanned(self.grid(), self.width(), self.height(), (2, 0, 0), res.1@),
            res.0 == verdict(self.grid(), self.width(), self.height(), self.moves(), res.1@),
    {
        let w: usize = self.board_width();
        let h: usize = self.board_height();
        let ghost g = self.grid();
        let mut winner = winner;
        let ghost mut found = found;
        let mut r: usize = 0;
        while r < h
            invariant
                self.shaped(),
                w == self.width(),
                h == self.height(),
                g == self.grid(),
                r <= h,
                scanned(g, w as int, h as int, (1, r as int, 0), found),
                winner == verdict(g, w as int, h as int, self.moves(), found),
            decreases h - r,
        {
            let mut c: usize = 0;
            while c < w - 3
                invariant
                    self.shaped(),
                    w == self.width(),
                    h == self.height(),
                    g == self.grid(),
                    r < h,
                    c <= w - 3,
                    scanned(g, w as int, h as int, (1, r as int, c as int), found),
                    winner == verdict(g, w as int, h as int, self.moves(), found),
                decreases w - c,
            {
                let owner = self.owner_at(Direction::Right, c, r);
                proof {
                    let l = line(Direction::Right, c as int, r as int);
                    lemma_scan_step(g, w as int, h as int, found, l);
                    if l.complete(g) {
                        found = Some(l);
                    }
                }
                if let Some(p) = owner {
                    winner = GameEnd::Win(p);
                }
                c = c + 1;
            }
            proof {
                lemma_scan_skip(
                    g,
                    w as int,
                    h as int,
                    (1, r as int, c as int),
                    (1, r + 1, 0),
                    found,
                );
            }
            r = r + 1;
        }
        proof {
            lemma_scan_skip(g, w as int, h as int, (1, r as int, 0), (2, 0, 0), found);
        }
        (winner, Ghost(found))
    }

    /// The third pass: the falling diagonals that begin in the left-hand column,
    /// by the row they begin in.
    fn scan_down_right_by_row(&self, winner: GameEnd, Ghost(found): Ghost<Option<Line>>) -> (res: (
        GameEnd,
        Ghost<Option<Line>>,
    ))
        requires
            self.shaped(),
            scanned(self.grid(), self.width(), self.height(), (2, 0, 0), found),
            winner == verdict(self.grid(), self.width(), self.height(), self.moves(), found),
        ensures
            scanned(self.grid(), self.width(), self.height(), (3, 0, 0), res.1@),
            res.0 == verdict(self.grid(), self.width(), self.height(), self.moves(), res.1@),
    {
        let w: usize = self.board_width();
        let h: usize = self.board_height();
        let ghost g = self.grid();
        let mut winner = winner;
        let ghost mut found = found;
        let mut first: usize = 0;
        while first < h - 3
            invariant
                self.shaped(),
                w == self.width(),
                h == self.height(),
                g == self.grid(),
                first <= h - 3,
                scanned(g, w as int, h as int, (2, first as int, 0), found),
                winner == verdict(g, w as int, h as int, self.moves(), found),
            decreases h - first,
        {
            let mut k: usize = 0;
            while k < w - 3 && k < h - 3 - first
                invariant
                    self.shaped(),
                    w == self.width(),
                    h == self.height(),
                    g == self.grid(),
                    first < h - 3,
                    k <= w - 3,
                    k <= h - 3 - first,
                    scanned(g, w as int, h as int, (2, first as int, k as int), found),
                    winner == verdict(g, w as int, h as int, self.moves(), found),
                decreases w - k,
            {
                let c: usize = k;
                let r: usize = first + k;
                let owner = self.owner_at(Direction::DownRight, c, r);
                proof {
                    let l = line(Direction::DownRight, c as int, r as int);
                    lemma_scan_step(g, w as int, h as int, found, l);
                    if l.complete(g) {
                        found = Some(l);
                    }
                }
                if let Some(p) = owner {
                    winner = GameEnd::Win(p);
                }
                k = k + 1;
            }
            proof {
                lemma_scan_skip(
                    g,
                    w as int,
                    h as int,
                    (2, first as int, k as int),
                    (2, first + 1, 0),
                    found,
                );
            }
            first = first + 1;
        }
        proof {
            lemma_scan_skip(g, w as int, h as int, (2, first as int, 0), (3, 0, 0), found);
        }
        (winner, Ghost(found))
    }

    /// The fourth pass: the falling diagonals that begin in the top row, right of
    /// the first column, by the column they begin in.
    fn scan_down_right_by_column(&self, winner: GameEnd, Ghost(found): Ghost<Option<Line>>) -> (res: (
        GameEnd,
        Ghost<Option<Line>>,
    ))
        requires
            self.shaped(),
            scanned(self.grid(), self.width(), self.height(), (3, 0, 0), found),
            winner == verdict(self.grid(), self.width(), self.height(), self.moves(), found),
        ensures
            scanned(self.grid(), self.width(), self.height(), (4, 0, 0), res.1@),
            res.0 == verdict(self.grid(), self.width(), self.height(), self.moves(), res.1@),
    {
        let w: usize = self.board_width();
        let h: usize = self.board_height();
        let ghost g = self.grid();
        let mut winner = winner;
        let ghost mut found = found;
        proof {
            lemma_scan_skip(g, w as int, h as int, (3, 0, 0), (3, 1, 0), found);
        }
        let mut first: usize = 1;
        while first < w - 3
            invariant
                self.shaped(),
                w == self.width(),
                h == self.height(),
                g == self.grid(),
                1 <= first,
                scanned(g, w as int, h as int, (3, first as int, 0), found),
                winner == verdict(g, w as int, h as int, self.moves(), found),
            decreases w - first,
        {
            let mut k: usize = 0;
            while k < h - 3 && k < w - 3 - first
                invariant
                    self.shaped(),
                    w == self.width(),
                    h == self.height(),
                    g == self.grid(),
                    1 <= first,
                    first < w - 3,
                    k <= h - 3,
                    k <= w - 3 - first,
                    scanned(g, w as int, h as int, (3, first as int, k as int), found),
                    winner == verdict(g, w as int, h as int, self.moves(), found),
                decreases h - k,
            {
                let c: usize = first + k;
                let r: usize = k;
                let owner = self.owner_at(Direction::DownRight, c, r);
                proof {
                    let l = line(Direction::DownRight, c as int, r as int);
                    lemma_scan_step(g, w as int, h as int, found, l);
                    if l.complete(g) {
                        found = Some(l);
                    }
                }
                if let Some(p) = owner {
                    winner = GameEnd::Win(p);
                }
                k = k + 1;
            }
            proof {
                lemma_scan_skip(
                    g,
                    w as int,
                    h as int,
                    (3, first as int, k as int),
                    (3, first + 1, 0),
                    found,
                );
            }
            first = first + 1;
        }
        proof {
            lemma_scan_skip(g, w as int, h as int, (3, first as int, 0), (4, 0, 0), found);
        }
        (winner, Ghost(found))
    }

    /// The fifth pass: the rising diagonals that end in the right-hand column, by
    /// the row they end in.
    fn scan_down_left_by_row(&self, winner: GameEnd, Ghost(found): Ghost<Option<Line>>) -> (res: (
        GameEnd,
        Ghost<Option<Line>>,
    ))
        requires
            self.shaped(),
            scanned(self.grid(), self.width(), self.height(), (4, 0, 0), found),
            winner == verdict(self.grid(), self.width(), self.height(), self.moves(), found),
        ensures
            scanned(self.grid(), self.width(), self.height(), (5, 0, 0), res.1@),
            res.0 == verdict(self.grid(), self.width(), self.height(), self.moves(), res.1@),
    {
        let w: usize = self.board_width();
        let h: usize = self.board_height();
        let ghost g = self.grid();
        let mut winner = winner;
        let ghost mut found = found;
        let mut first: usize = 0;
        while first < h - 3
            invariant
                self.shaped(),
                w == self.width(),
                h == self.height(),
                g == self.grid(),
                first <= h - 3,
                scanned(g, w as int, h as int, (4, first as int, 0), found),
                winner == verdict(g, w as int, h as int, self.moves(), found),
            decreases h - first,
        {
            let mut k: usize = 0;
            while k < w - 3 && k < h - 3 - first
                invariant
                    self.shaped(),
                    w == self.width(),
                    h == self.height(),
                    g == self.grid(),
                    first < h - 3,
                    k <= w - 3,
                    k <= h - 3 - first,
                    scanned(g, w as int, h as int, (4, first as int, k as int), found),
                    winner == verdict(g, w as int, h as int, self.moves(), found),
                decreases w - k,
            {
                let c: usize = w - 1 - k;
                let r: usize = first + k;
                let owner = self.owner_at(Direction::DownLeft, c, r);
                proof {
                    let l = line(Direction::DownLeft, c as int, r as int);
                    lemma_scan_step(g, w as int, h as int, found, l);
                    if l.complete(g) {
                        found = Some(l);
                    }
                }
                if let Some(p) = owner {
                    winner = GameEnd::Win(p);
                }
                k = k + 1;
            }
            proof {
                lemma_scan_skip(
                    g,
                    w as int,
                    h as int,
                    (4, first as int, k as int),
                    (4, first + 1, 0),
                    found,
                );
            }
            first = first + 1;
        }
        proof {
            lemma_scan_skip(g, w as int, h as int, (4, first as int, 0), (5, 0, 0), found);
        }
        (winner, Ghost(found))
    }

    /// The sixth pass: the rising diagonals that end in the top row, left of the
    /// last column, from right to left. The diagonal taken at step `back` ends
    /// in column `w - 2 - back`.
    fn scan_down_left_by_column(&self, winner: GameEnd, Ghost(found): Ghost<Option<Line>>) -> (res: (
        GameEnd,
        Ghost<Option<Line>>,
    ))
        requires
            self.shaped(),
            scanned(self.grid(), self.width(), self.height(), (5, 0, 0), found),
            winner == verdict(self.grid(), self.width(), self.height(), self.moves(), found),
        ensures
            scanned(self.grid(), self.width(), self.height(), (6, 0, 0), res.1@),
            res.0 == verdict(self.grid(), self.width(), self.height(), self.moves(), res.1@),
    {
        let w: usize = self.board_width();
        let h: usize = self.board_height();
        let ghost g = self.grid();
        let mut winner = winner;
        let ghost mut found = found;
        let mut back: usize = 0;
        while back < w - 4
            invariant
                self.shaped(),
                w == self.width(),
                h == self.height(),
                g == self.grid(),
                back <= w - 4,
                scanned(g, w as int, h as int, (5, back as int, 0), found),
                winner == verdict(g, w as int, h as int, self.moves(), found),
            decreases w - back,
        {
            let mut k: usize = 0;
            while k < h - 3 && k < w - 4 - back
                invariant
                    self.shaped(),
                    w == self.width(),
                    h == self.height(),
                    g == self.grid(),
                    back < w - 4,
                    k <= h - 3,
                    k <= w - 4 - back,
                    scanned(g, w as int, h as int, (5, back as int, k as int), found),
                    winner == verdict(g, w as int, h as int, self.moves(), found),
                decreases h - k,
            {
                let c: usize = w - 2 - back - k;
                let r: usize = k;
                let owner = self.owner_at(Direction::DownLeft, c, r);
                proof {
                    let l = line(Direction::DownLeft, c as int, r as int);
                    lemma_scan_step(g, w as int, h as int, found, l);
                    if l.complete(g) {
                        found = Some(l);
                    }
                }
                if let Some(p) = owner {
                    winner = GameEnd::Win(p);
                }
                k = k + 1;
            }
            proof {
                lemma_scan_skip(
                    g,
                    w as int,
                    h as int,
                    (5, back as int, k as int),
                    (5, back + 1, 0),
                    found,
                );
            }
            back = back + 1;
        }
        proof {
            lemma_scan_skip(g, w as int, h as int, (5, back as int, 0), (6, 0, 0), found);
        }
        (winner, Ghost(found))
    }

    /// Searches the board for complete runs of four and sets the outcome.
    ///
    /// The outcome depends on the board and the move counter alone, not on
    /// what it was before: the owner of the complete run that the search
    /// meets last has won; without a complete run the game is drawn once the
    /// moves have filled the board, and open before. Nothing but the outcome
    /// changes.
    pub fn set_winner(&mut self)
        requires
            old(self).shaped(),
        ensures
            final(self).rescanned(old(self)),
    {
        let ghost g = self.grid();
        let ghost w = self.width();
        let ghost h = self.height();
        let cells: usize = self.board_height() * self.board_width();
        let start = if self.move_count() as usize >= cells {
            GameEnd::Draw
        } else {
            GameEnd::Ongoing
        };
        proof {
            lemma_scan_start(g, w, h);
        }
        let (winner, found) = self.scan_down(start, Ghost(None));
        let (winner, found) = self.scan_right(winner, found);
        let (winner, found) = self.scan_down_right_by_row(winner, found);
        let (winner, found) = self.scan_down_right_by_column(winner, found);
        let (winner, found) = self.scan_down_left_by_row(winner, found);
        let (winner, found) = self.scan_down_left_by_column(winner, found);
        proof {
            lemma_scan_end(g, w, h, found@);
        }
        self.set_outcome(winner);
    }
}

} // verus!
