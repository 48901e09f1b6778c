//! The people at the table.

use vstd::prelude::*;
use vstd::string::StringExecFns;

verus! {

/// The text that ends a token: the piece itself, then the escape sequence
/// that switches the colour off again.
pub open spec fn token_tail() -> Seq<char> {
    "O\u{001b}[0m"@
}

/// One player: a display name and the coloured token drawn for their pieces.
#[derive(Debug, PartialEq)]
pub struct Player {
    pub name: String,
    color: String,
}

impl Player {
    /// The player's display name.
    pub closed spec fn label(&self) -> Seq<char> {
        self.name@
    }

    /// The text drawn for one of the player's pieces.
    pub closed spec fn token(&self) -> Seq<char> {
        self.color@
    }

    /// A player called `n` whose pieces are drawn as an `O` in the colour
    /// that the escape sequence `c` switches on.
    pub fn new(n: String, c: String) -> (player: Player)
        ensures
            player.label() == n@,
            player.token() == c@ + token_tail(),
    {
        let mut color = c;
        color.append("O\u{001b}[0m");
        Player { name: n, color }
    }

    /// A stand-in for no player in particular, drawn in red.
    pub fn empty() -> (player: Player)
        ensures
            player.label() == "{empty}"@,
            player.token() == "\u{001b}[31mO\u{001b}[0m"@,
    {
        Player { name: "{empty}".to_owned(), color: "\u{001b}[31mO\u{001b}[0m".to_owned() }
    }

    /// The text drawn for one of the player's pieces.
    pub fn color(&self) -> (text: &String)
        ensures
            text@ == self.token(),
    {
        &self.color
    }
}

} // verus!
