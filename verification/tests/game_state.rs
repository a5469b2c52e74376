use minority_game::schema::AUTHORITY;
use minority_game::{
    status_update, GameAction, GameState, PlayerByScore, PlayerEntry, Choice, SECONDS_PER_ROUND,
};

#[test]
fn idle_starts_countdown() {
    assert_eq!(GameState::Idle.next_action(), GameAction::SendStatus { seconds_remaining: None });
}

#[test]
fn pending_counts_down() {
    assert_eq!(
        GameState::Pending { seconds_remaining: 2 }.next_action(),
        GameAction::SendStatus { seconds_remaining: Some(1) }
    );
    assert_eq!(
        GameState::Pending { seconds_remaining: 1 }.next_action(),
        GameAction::SendStatus { seconds_remaining: Some(0) }
    );
}

#[test]
fn run_out_countdown_plays() {
    assert_eq!(GameState::Pending { seconds_remaining: 0 }.next_action(), GameAction::PlayGame);
    assert_eq!(GameState::after_play(), GameState::Idle);
}

fn tick(state: GameState, players: &Vec<PlayerEntry>) -> (GameState, bool) {
    match state.next_action() {
        GameAction::SendStatus { seconds_remaining } => (status_update(players, seconds_remaining).0, false),
        GameAction::PlayGame => (GameState::after_play(), true),
    }
}

#[test]
fn round_is_played_on_tick_after_countdown() {
    let players = vec![PlayerEntry { id: 1, choice: Some(Choice::GoOut), tell: None, times_went_out: 0, times_stayed_in: 0 }];
    let mut state = GameState::Idle;
    let mut played_at = Vec::new();
    for t in 1..=(2 * (SECONDS_PER_ROUND as usize + 2)) {
        let (next, played) = tick(state, &players);
        if played {
            played_at.push(t);
        }
        state = next;
    }
    assert_eq!(played_at, vec![7, 14]);
    assert_eq!(state, GameState::Idle);
}

#[test]
fn without_players_the_game_idles() {
    let players: Vec<PlayerEntry> = vec![];
    for state in [GameState::Idle, GameState::Pending { seconds_remaining: 3 }] {
        assert_eq!(tick(state, &players).0, GameState::Idle);
    }
}

#[test]
fn view_name_and_version() {
    assert_eq!(PlayerByScore.name(), "by-score");
    assert_eq!(PlayerByScore.version(), 2);
    assert_eq!(AUTHORITY, "minority-game");
}
