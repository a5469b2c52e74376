use vstd::prelude::*;

verus! {

/// How many seconds a round waits for choices before it is played.
pub const SECONDS_PER_ROUND: u32 = 5;

/// Where the game loop stands between two ticks of its one-second clock.
#[derive(Clone, Copy, Debug, PartialEq, Eq, Structural)]
pub enum GameState {
    /// No round is under way.
    Idle,
    /// A round is under way and is played once the countdown has run out.
    Pending { seconds_remaining: u32 },
}

/// What the game loop does on a tick.
#[derive(Clone, Copy, Debug, PartialEq, Eq, Structural)]
pub enum GameAction {
    /// Tell every participant how the pending round stands; `None` starts a
    /// new countdown.
    SendStatus { seconds_remaining: Option<u32> },
    /// Play the round.
    PlayGame,
}

impl GameState {
    /// The action of the next tick.
    pub open spec fn spec_next_action(self) -> GameAction {
        match self {
            GameState::Idle => GameAction::SendStatus { seconds_remaining: None },
            GameState::Pending { seconds_remaining } => if seconds_remaining > 0 {
                GameAction::SendStatus { seconds_remaining: Some((seconds_remaining - 1) as u32) }
            } else {
                GameAction::PlayGame
            },
        }
    }

    /// The state after a status update: idle when nobody takes part,
    /// otherwise pending with the given countdown, or a fresh one.
    pub open spec fn after_status(has_players: bool, seconds_remaining: Option<u32>) -> GameState {
        if !has_players {
            GameState::Idle
        } else {
            GameState::Pending {
                seconds_remaining: match seconds_remaining {
                    Some(s) => s,
                    None => SECONDS_PER_ROUND,
                },
            }
        }
    }

    /// The state after one tick, given whether anybody takes part.
    pub open spec fn after_tick(self, has_players: bool) -> GameState {
        match self.spec_next_action() {
            GameAction::SendStatus { seconds_remaining } => GameState::after_status(
                has_players,
                seconds_remaining,
            ),
            GameAction::PlayGame => GameState::Idle,
        }
    }

    /// The state after `n` ticks during which somebody always takes part.
    pub open spec fn after_ticks(self, n: nat) -> GameState
        decreases n,
    {
        if n == 0 {
            self
        } else {
            self.after_tick(true).after_ticks((n - 1) as nat)
        }
    }

    /// A countdown never exceeds the length of a round.
    pub open spec fn well_formed(self) -> bool {
        match self {
            GameState::Idle => true,
            GameState::Pending { seconds_remaining } => seconds_remaining <= SECONDS_PER_ROUND,
        }
    }

    /// Decides what the next tick does: an idle game starts a countdown, a
    /// pending one counts down by a second, and one whose countdown has run
    /// out is played.
    pub fn next_action(&self) -> (action: GameAction)
        ensures
            action == self.spec_next_action(),
    {
        match *self {
            GameState::Idle => GameAction::SendStatus { seconds_remaining: None },
            GameState::Pending { seconds_remaining } => {
                if seconds_remaining > 0 {
                    GameAction::SendStatus { seconds_remaining: Some(seconds_remaining - 1) }
                } else {
                    GameAction::PlayGame
                }
            },
        }
    }

    /// The state that a played round leaves: idle, whether or not anybody
    /// took part.
    pub fn after_play() -> (state: GameState)
        ensures
            state == GameState::Idle,
    {
        GameState::Idle
    }
}

/// Every tick keeps a countdown within the length of a round.
pub proof fn lemma_tick_keeps_well_formed(state: GameState, has_players: bool)
    requires
        state.well_formed(),
    ensures
        state.after_tick(has_players).well_formed(),
{
}

/// While nobody takes part, every tick leaves the game idle.
pub proof fn lemma_no_players_idle(state: GameState)
    ensures
        state.after_tick(false) == GameState::Idle,
{
}

/// A pending round counts down one second per tick while somebody takes
/// part: after `k` ticks of a countdown at `s`, with `k <= s`, it stands at
/// `s - k`.
pub proof fn lemma_countdown(s: u32, k: nat)
    requires
        k <= s,
    ensures
        (GameState::Pending { seconds_remaining: s }).after_ticks(k) == (GameState::Pending {
            seconds_remaining: (s - k) as u32,
        }),
    decreases k,
{
    if k > 0 {
        let next = GameState::Pending { seconds_remaining: (s - 1) as u32 };
        assert((GameState::Pending { seconds_remaining: s }).after_tick(true) == next);
        lemma_countdown((s - 1) as u32, (k - 1) as nat);
    }
}

/// While somebody takes part, an idle game plays a round on tick
/// `SECONDS_PER_ROUND + 2` and only then: the first tick starts the
/// countdown, the following ones count it down, and the one after it has
/// run out plays.
pub proof fn lemma_round_schedule(k: nat)
    requires
        k <= SECONDS_PER_ROUND + 1,
    ensures
        GameState::Idle.after_ticks(k).spec_next_action() == GameAction::PlayGame <==> k
            == SECONDS_PER_ROUND + 1,
        GameState::Idle.after_ticks((SECONDS_PER_ROUND + 2) as nat) == GameState::Idle,
{
    let start = GameState::Pending { seconds_remaining: SECONDS_PER_ROUND };
    assert(GameState::Idle.after_tick(true) == start);
    if k > 0 {
        lemma_countdown(SECONDS_PER_ROUND, (k - 1) as nat);
        assert(GameState::Idle.after_ticks(k) == start.after_ticks((k - 1) as nat));
    }
    lemma_countdown(SECONDS_PER_ROUND, SECONDS_PER_ROUND as nat);
    assert(GameState::Idle.after_ticks((SECONDS_PER_ROUND + 1) as nat) == start.after_ticks(
        SECONDS_PER_ROUND as nat,
    ));
    lemma_after_ticks_split(GameState::Idle, (SECONDS_PER_ROUND + 1) as nat);
}

/// `after_ticks` of one more tick is one more tick after `after_ticks`.
pub proof fn lemma_after_ticks_split(state: GameState, n: nat)
    ensures
        state.after_ticks(n + 1) == state.after_ticks(n).after_tick(true),
    decreases n,
{
    let next = state.after_tick(true);
    assert(state.after_ticks(n + 1) == next.after_ticks(n));
    if n > 0 {
        lemma_after_ticks_split(next, (n - 1) as nat);
        assert(state.after_ticks(n) == next.after_ticks((n - 1) as nat));
    } else {
        assert(next.after_ticks(0) == next);
    }
}

} // verus!
