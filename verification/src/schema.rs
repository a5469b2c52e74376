use vstd::prelude::*;

verus! {

/// The name under which the game's schema and collections are registered.
pub const AUTHORITY: &'static str = "minority-game";

/// The database schema of the game: one collection of players.
pub struct GameSchema;

/// The view that orders players by score.
pub struct PlayerByScore;

/// The game's network API: a `Request` in, a response out, no error of its
/// own.
pub struct Api;

impl PlayerByScore {
    /// The view's name.
    pub fn name(&self) -> (name: &'static str)
        ensures
            name@ == "by-score"@,
    {
        "by-score"
    }

    /// The view's version: changing how a player is mapped into the view
    /// bumps it, so that the stored view is rebuilt.
    pub fn version(&self) -> (version: u64)
        ensures
            version == 2,
    {
        2
    }
}

} // verus!
