use vstd::prelude::*;

verus! {

/// A player's choice in the game.
#[derive(Clone, Copy, Debug, PartialEq, Eq, Structural)]
pub enum Choice {
    GoOut,
    StayIn,
}

/// A game network request.
#[derive(Clone, Copy, Debug, PartialEq, Eq, Structural)]
pub enum Request {
    /// Set the current choice.
    SetChoice(Choice),
    /// Set the current tell.
    SetTell(Choice),
}

/// Whether two optional choices are the same, as `==` on `Option<Choice>`
/// decides it.
pub fn same_choice(a: Option<Choice>, b: Option<Choice>) -> (r: bool)
    ensures
        r == (a == b),
{
    match (a, b) {
        (None, None) => true,
        (Some(x), Some(y)) => x == y,
        _ => false,
    }
}

} // verus!
