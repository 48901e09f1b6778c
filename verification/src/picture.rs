//! The board as text, for a terminal.

use vstd::prelude::*;
use vstd::string::StringExecFns;
use crate::game::GameState;
use crate::grid::{seated, Cell, Grid};
use crate::player::Player;
use crate::text::{decimal, push_decimal};

verus! {

/// The tokens of the players, in their order at the table.
pub open spec fn tokens_of(players: Seq<Player>) -> Seq<Seq<char>> {
    Seq::new(players.len(), |i: int| players[i].token())
}

/// What is drawn in a cell: the owner's token, or a blank.
pub open spec fn cell_text(cell: Cell, tokens: Seq<Seq<char>>) -> Seq<char> {
    match cell {
        Some(p) => tokens[p as int],
        None => " "@,
    }
}

/// The numbers of the first `w` columns, each set off by a blank before it
/// and a full stop and a blank behind it.
pub open spec fn labels(w: nat) -> Seq<char>
    decreases w,
{
    if w == 0 {
        Seq::empty()
    } else {
        labels((w - 1) as nat) + " "@ + decimal(w) + ". "@
    }
}

/// The line above the board, which numbers the columns from 1.
pub open spec fn header(w: nat) -> Seq<char> {
    " "@ + labels(w) + "\n"@
}

/// The part of a dividing line that lies under `w` columns.
pub open spec fn rule_cells(w: nat) -> Seq<char>
    decreases w,
{
    if w == 0 {
        Seq::empty()
    } else {
        rule_cells((w - 1) as nat) + "---+"@
    }
}

/// A dividing line across `w` columns.
pub open spec fn rule(w: nat) -> Seq<char> {
    "+"@ + rule_cells(w) + "\n"@
}

/// The first `w` cells of row `r`, each between blanks and closed by a bar.
pub open spec fn row_cells(g: Grid, tokens: Seq<Seq<char>>, r: int, w: nat) -> Seq<char>
    decreases w,
{
    if w == 0 {
        Seq::empty()
    } else {
        row_cells(g, tokens, r, (w - 1) as nat) + " "@ + cell_text(g[w - 1][r], tokens) + " "@
            + "|"@
    }
}

/// Row `r` of a board of `w` columns.
pub open spec fn row(g: Grid, tokens: Seq<Seq<char>>, r: int, w: nat) -> Seq<char> {
    "|"@ + row_cells(g, tokens, r, w) + "\n"@
}

/// The first `h` rows of the board, from the top, each under a dividing line.
pub open spec fn rows(g: Grid, tokens: Seq<Seq<char>>, w: nat, h: nat) -> Seq<char>
    decreases h,
{
    if h == 0 {
        Seq::empty()
    } else {
        rows(g, tokens, w, (h - 1) as nat) + rule(w) + row(g, tokens, h - 1, w)
    }
}

/// The whole picture: the header, the rows from the top down, each under a
/// dividing line, and a last dividing line below the bottom row.
pub open spec fn picture(g: Grid, tokens: Seq<Seq<char>>, w: nat, h: nat) -> Seq<char> {
    header(w) + rows(g, tokens, w, h) + rule(w)
}

/// The line above the board.
fn header_text(w: usize) -> (text: String)
    ensures
        text@ == header(w as nat),
{
    let mut text = String::new();
    text.append(" ");
    let mut c: usize = 0;
    while c < w
        invariant
            c <= w,
            text@ == " "@ + labels(c as nat),
        decreases w - c,
    {
        text.append(" ");
        push_decimal(&mut text, c + 1);
        text.append(". ");
        assert(text@ =~= " "@ + labels((c + 1) as nat));
        c = c + 1;
    }
    text.append("\n");
    text
}

/// A dividing line.
fn rule_text(w: usize) -> (text: String)
    ensures
        text@ == rule(w as nat),
{
    let mut text = String::new();
    text.append("+");
    let mut c: usize = 0;
    while c < w
        invariant
            c <= w,
            text@ == "+"@ + rule_cells(c as nat),
        decreases w - c,
    {
        text.append("---+");
        assert(text@ =~= "+"@ + rule_cells((c + 1) as nat));
        c = c + 1;
    }
    text.append("\n");
    text
}

impl GameState {
    /// Row `r` of the board as text.
    fn row_text(&self, players: &Vec<Player>, r: usize) -> (text: String)
        requires
            self.shaped(),
            seated(self.grid(), players.len() as int),
            r < self.height(),
        ensures
            text@ == row(self.grid(), tokens_of(players@), r as int, self.width() as nat),
    {
        let w: usize = self.board_width();
        let ghost g = self.grid();
        let ghost tokens = tokens_of(players@);
        let mut text = String::new();
        text.append("|");
        let mut c: usize = 0;
        while c < w
            invariant
                self.shaped(),
                seated(g, players.len() as int),
                g == self.grid(),
                tokens == tokens_of(players@),
                w == self.width(),
                r < self.height(),
                c <= w,
                text@ == "|"@ + row_cells(g, tokens, r as int, c as nat),
            decreases w - c,
        {
            text.append(" ");
            match self.cell(c, r) {
                Some(p) => {
                    assert(g[c as int][r as int] == Some(p));
                    text.append(players[p].color().as_str());
                },
                None => {
                    text.append(" ");
                },
            }
            text.append(" ");
            text.append("|");
            assert(text@ =~= "|"@ + row_cells(g, tokens, r as int, (c + 1) as nat));
            c = c + 1;
        }
        text.append("\n");
        text
    }

    /// The board as text: a line that numbers the columns, then the rows
    /// from the top down between dividing lines. An empty cell is drawn as a
    /// blank, an occupied one as its owner's token.
    pub fn draw_board(&self, players: &Vec<Player>) -> (text: String)
        requires
            self.shaped(),
            seated(self.grid(), players.len() as int),
        ensures
            text@ == picture(
                self.grid(),
                tokens_of(players@),
                self.width() as nat,
                self.height() as nat,
            ),
    {
        let w: usize = self.board_width();
        let h: usize = self.board_height();
        let ghost g = self.grid();
        let ghost tokens = tokens_of(players@);
        let divider = rule_text(w);
        let mut text = header_text(w);
        let mut r: usize = 0;
        while r < h
            invariant
                self.shaped(),
                seated(g, players.len() as int),
                g == self.grid(),
                tokens == tokens_of(players@),
                w == self.width(),
                h == self.height(),
                r <= h,
                divider@ == rule(w as nat),
                text@ == header(w as nat) + rows(g, tokens, w as nat, r as nat),
            decreases h - r,
        {
            let line = self.row_text(players, r);
            text.append(divider.as_str());
            text.append(line.as_str());
            assert(text@ =~= header(w as nat) + rows(g, tokens, w as nat, (r + 1) as nat));
            r = r + 1;
        }
        text.append(divider.as_str());
        text
    }
}

} // verus!
