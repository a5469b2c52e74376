//! The rules of the minority game: each round every player picks whether to
//! go out or to stay in, and may announce ("tell") a choice beforehand. When
//! no more players go out than stay in, those who went out had fun.

pub mod choice;
pub mod game_state;
pub mod laws;
pub mod player;
mod random;
pub mod round;
pub mod schema;
pub mod tally;

pub use choice::{Choice, Request};
pub use game_state::{GameAction, GameState, SECONDS_PER_ROUND};
pub use player::PlayerEntry;
pub use round::{
    collect_players, conclude_round, play_game, rank_for_index, status_update, HappinessChange,
    PendingRound, RoundOutcome, MINIMUM_PLAYERS,
};
pub use schema::{Api, GameSchema, PlayerByScore};
