use vstd::prelude::*;

use crate::choice::{Choice, Request};

verus! {

/// What a round of the game reads and writes of one connected player: the
/// player's record id, the pending choice and tell, and how often the
/// player went out and stayed in.
#[derive(Clone, Copy, Debug, PartialEq, Eq, Structural)]
pub struct PlayerEntry {
    pub id: u64,
    pub choice: Option<Choice>,
    pub tell: Option<Choice>,
    pub times_went_out: u32,
    pub times_stayed_in: u32,
}

impl PlayerEntry {
    /// A new player: no choice, no tell, no games played yet.
    pub fn new(id: u64) -> (p: PlayerEntry)
        ensures
            p.id == id,
            p.choice is None,
            p.tell is None,
            p.times_went_out == 0,
            p.times_stayed_in == 0,
    {
        PlayerEntry { id, choice: None, tell: None, times_went_out: 0, times_stayed_in: 0 }
    }

    /// The record that handling `request` leaves behind.
    pub open spec fn after_request(self, request: Request) -> PlayerEntry {
        match request {
            Request::SetChoice(c) => PlayerEntry { choice: Some(c), ..self },
            Request::SetTell(c) => PlayerEntry { tell: Some(c), ..self },
        }
    }

    /// The choice that a request carries, and that the answer confirms.
    pub open spec fn requested_choice(request: Request) -> Choice {
        match request {
            Request::SetChoice(c) => c,
            Request::SetTell(c) => c,
        }
    }

    /// Handles a player's request: `SetChoice` sets the pending choice,
    /// `SetTell` the pending tell; the other fields stay as they were.
    /// Returns the choice to confirm to the player.
    pub fn apply_request(&mut self, request: Request) -> (confirmed: Choice)
        ensures
            *final(self) == old(self).after_request(request),
            confirmed == Self::requested_choice(request),
            final(self).id == old(self).id,
            final(self).times_went_out == old(self).times_went_out,
            final(self).times_stayed_in == old(self).times_stayed_in,
            request matches Request::SetChoice(c) ==> final(self).choice == Some(c)
                && final(self).tell == old(self).tell && confirmed == c,
            request matches Request::SetTell(c) ==> final(self).tell == Some(c)
                && final(self).choice == old(self).choice && confirmed == c,
    {
        match request {
            Request::SetChoice(c) => {
                self.choice = Some(c);
                c
            },
            Request::SetTell(c) => {
                self.tell = Some(c);
                c
            },
        }
    }
}

} // verus!
