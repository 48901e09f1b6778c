//! What a game needs before it starts: how many may play, and how small a
//! board may be.

use vstd::prelude::*;

verus! {

/// The fewest players a game can have.
pub const MIN_PLAYERS: u8 = 2;

/// The most players a game can have.
pub const MAX_PLAYERS: u8 = 8;

/// The fewest columns, and the fewest rows, a board can have: a run of four
/// has to fit.
pub const MIN_SIDE: u8 = 4;

/// Whether `n` players can play.
pub fn player_count_allowed(n: u8) -> (ok: bool)
    ensures
        ok == (2 <= n <= 8),
{
    n <= MAX_PLAYERS && n >= MIN_PLAYERS
}

/// Whether a board can have `n` columns, or `n` rows.
pub fn side_allowed(n: u8) -> (ok: bool)
    ensures
        ok == (n >= 4),
{
    n >= MIN_SIDE
}

} // verus!
