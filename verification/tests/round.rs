use minority_game::choice::same_choice;
use minority_game::round::{fill_step, fill_to_minimum, ready_to_settle, tally_choices, tally_liars, tally_tells};
use minority_game::{
    collect_players, conclude_round, play_game, rank_for_index, status_update, Choice, GameState,
    HappinessChange, PendingRound, PlayerEntry, Request, MINIMUM_PLAYERS, SECONDS_PER_ROUND,
};

fn entry(id: u64, choice: Option<Choice>, tell: Option<Choice>) -> PlayerEntry {
    PlayerEntry { id, choice, tell, times_went_out: 0, times_stayed_in: 0 }
}

#[test]
fn same_choice_compares_options() {
    assert!(same_choice(None, None));
    assert!(same_choice(Some(Choice::GoOut), Some(Choice::GoOut)));
    assert!(!same_choice(Some(Choice::GoOut), Some(Choice::StayIn)));
    assert!(!same_choice(Some(Choice::StayIn), None));
    assert!(!same_choice(None, Some(Choice::StayIn)));
}

#[test]
fn new_player_has_nothing_pending() {
    let p = PlayerEntry::new(7);
    assert_eq!(p, entry(7, None, None));
}

#[test]
fn set_choice_keeps_tell() {
    let mut p = entry(1, None, Some(Choice::StayIn));
    let confirmed = p.apply_request(Request::SetChoice(Choice::GoOut));
    assert_eq!(confirmed, Choice::GoOut);
    assert_eq!(p, entry(1, Some(Choice::GoOut), Some(Choice::StayIn)));
}

#[test]
fn set_tell_keeps_choice() {
    let mut p = entry(2, Some(Choice::StayIn), None);
    let confirmed = p.apply_request(Request::SetTell(Choice::GoOut));
    assert_eq!(confirmed, Choice::GoOut);
    assert_eq!(p, entry(2, Some(Choice::StayIn), Some(Choice::GoOut)));
}

#[test]
fn collect_keeps_those_who_chose_in_order() {
    let candidates = vec![
        entry(1, None, Some(Choice::GoOut)),
        entry(2, Some(Choice::StayIn), None),
        entry(3, None, None),
        entry(4, Some(Choice::GoOut), None),
    ];
    let players = collect_players(&candidates);
    assert_eq!(players, vec![candidates[1], candidates[3]]);
    assert!(collect_players(&vec![]).is_empty());
}

#[test]
fn tells_are_counted() {
    let players = vec![
        entry(1, Some(Choice::GoOut), Some(Choice::GoOut)),
        entry(2, Some(Choice::GoOut), Some(Choice::StayIn)),
        entry(3, Some(Choice::StayIn), None),
        entry(4, Some(Choice::StayIn), Some(Choice::GoOut)),
    ];
    assert_eq!(tally_tells(&players), (2, 3));
    assert_eq!(tally_tells(&vec![]), (0, 0));
}

#[test]
fn choices_are_counted() {
    let players = vec![
        entry(10, Some(Choice::GoOut), None),
        entry(11, Some(Choice::StayIn), None),
        entry(12, Some(Choice::GoOut), None),
    ];
    assert_eq!(tally_choices(&players), (2, 1));
}

#[test]
fn liars_are_counted() {
    let players = vec![
        entry(1, Some(Choice::GoOut), Some(Choice::GoOut)),
        entry(2, Some(Choice::GoOut), Some(Choice::StayIn)),
        entry(3, Some(Choice::StayIn), None),
        entry(4, Some(Choice::StayIn), Some(Choice::GoOut)),
    ];
    assert_eq!(tally_liars(&players), (2, 3));
}

#[test]
fn fill_tops_up_small_rounds() {
    for (g, s) in [(0u32, 0u32), (1, 0), (0, 1), (1, 1), (0, 2), (2, 0)] {
        let (g2, s2) = fill_to_minimum(g, s);
        assert_eq!(g2 + s2, MINIMUM_PLAYERS);
        assert!(g2 >= g && s2 >= s);
    }
}

#[test]
fn fill_leaves_full_rounds() {
    assert_eq!(fill_to_minimum(3, 0), (3, 0));
    assert_eq!(fill_to_minimum(2, 5), (2, 5));
    assert_eq!(fill_to_minimum(1, 2), (1, 2));
}

#[test]
fn fill_is_random_but_fair_enough_to_vary() {
    // Over many rounds of a single round-filling, both outcomes occur.
    let mut saw_out = false;
    let mut saw_in = false;
    for _ in 0..200 {
        let (g, s) = fill_to_minimum(0, 2);
        if g == 1 {
            saw_out = true;
        }
        if s == 3 {
            saw_in = true;
        }
    }
    assert!(saw_out && saw_in);
}

#[test]
fn empty_round_is_not_played() {
    let mut players: Vec<PlayerEntry> = vec![];
    assert!(play_game(&mut players).is_none());
    assert!(players.is_empty());
}

#[test]
fn uncrowded_round_is_fun() {
    let mut players = vec![
        entry(1, Some(Choice::GoOut), Some(Choice::StayIn)),
        entry(2, Some(Choice::StayIn), Some(Choice::StayIn)),
        entry(3, Some(Choice::StayIn), None),
        entry(4, Some(Choice::StayIn), Some(Choice::GoOut)),
    ];
    let o = play_game(&mut players).unwrap();
    assert_eq!((o.going_out, o.staying_in), (1, 3));
    assert!(o.had_fun);
    assert_eq!(o.number_of_liars, 2);
    assert_eq!(o.number_of_tells, 3);
    assert_eq!(o.number_of_players, 4);
    assert_eq!(
        o.happiness_changes,
        vec![
            HappinessChange::HadFun,
            HappinessChange::StayedIn,
            HappinessChange::StayedIn,
            HappinessChange::StayedIn
        ]
    );
    assert_eq!(players[0].times_went_out, 1);
    assert_eq!(players[1].times_stayed_in, 1);
    for p in &players {
        assert!(p.choice.is_none() && p.tell.is_none());
    }
}

#[test]
fn crowded_round_is_too_busy() {
    let mut players = vec![
        entry(1, Some(Choice::GoOut), None),
        entry(2, Some(Choice::GoOut), None),
        entry(3, Some(Choice::GoOut), None),
        entry(4, Some(Choice::StayIn), None),
    ];
    let o = play_game(&mut players).unwrap();
    assert_eq!((o.going_out, o.staying_in), (3, 1));
    assert!(!o.had_fun);
    assert_eq!(o.happiness_changes[0], HappinessChange::TooBusy);
    assert_eq!(o.happiness_changes[3], HappinessChange::StayedIn);
    assert_eq!(o.number_of_tells, 0);
}

#[test]
fn even_split_is_fun() {
    let mut players = vec![
        entry(1, Some(Choice::GoOut), None),
        entry(2, Some(Choice::StayIn), None),
        entry(3, Some(Choice::GoOut), None),
        entry(4, Some(Choice::StayIn), None),
    ];
    let o = play_game(&mut players).unwrap();
    assert!(o.had_fun);
    assert_eq!(o.happiness_changes[2], HappinessChange::HadFun);
}

#[test]
fn lonely_player_round_is_filled() {
    let mut players = vec![entry(9, Some(Choice::GoOut), None)];
    let o = play_game(&mut players).unwrap();
    assert_eq!(o.going_out + o.staying_in, 3);
    assert!(o.going_out >= 1);
    assert_eq!(o.number_of_players, 1);
    assert_eq!(o.had_fun, o.going_out <= o.staying_in);
}

#[test]
fn conclude_uses_given_counts() {
    let mut players = vec![entry(5, Some(Choice::GoOut), Some(Choice::GoOut))];
    let o = conclude_round(&mut players, 2, 1);
    assert!(!o.had_fun);
    assert_eq!(o.happiness_changes, vec![HappinessChange::TooBusy]);
    assert_eq!(o.number_of_liars, 0);
    assert_eq!(o.number_of_tells, 1);
    let o2 = conclude_round(&mut vec![entry(6, Some(Choice::StayIn), None)], 1, 2);
    assert!(o2.had_fun);
    assert_eq!(o2.happiness_changes, vec![HappinessChange::StayedIn]);
}

#[test]
fn fill_step_follows_the_coin() {
    assert_eq!(fill_step(0, 0, true), (1, 0));
    assert_eq!(fill_step(0, 0, false), (0, 1));
    assert_eq!(fill_step(2, 5, true), (3, 5));
    assert_eq!(fill_step(2, 5, false), (2, 6));
}

#[test]
fn full_round_is_the_same_every_time() {
    let players = vec![
        entry(1, Some(Choice::GoOut), Some(Choice::StayIn)),
        entry(2, Some(Choice::StayIn), None),
        entry(3, Some(Choice::GoOut), None),
    ];
    let mut first = players.clone();
    let mut second = players.clone();
    let o1 = play_game(&mut first).unwrap();
    let o2 = play_game(&mut second).unwrap();
    assert_eq!(first, second);
    assert_eq!((o1.going_out, o1.staying_in, o1.had_fun), (o2.going_out, o2.staying_in, o2.had_fun));
    assert_eq!(o1.happiness_changes, o2.happiness_changes);
}

#[test]
fn status_of_empty_game_is_idle() {
    assert_eq!(status_update(&vec![], None), (GameState::Idle, None));
    assert_eq!(status_update(&vec![], Some(3)), (GameState::Idle, None));
}

#[test]
fn status_starts_and_continues_countdown() {
    let players = vec![
        entry(1, Some(Choice::GoOut), Some(Choice::GoOut)),
        entry(2, Some(Choice::StayIn), Some(Choice::StayIn)),
    ];
    let fresh = status_update(&players, None);
    assert_eq!(
        fresh,
        (
            GameState::Pending { seconds_remaining: SECONDS_PER_ROUND },
            Some(PendingRound {
                seconds_remaining: 5,
                number_of_players: 2,
                tells_going_out: 1,
                number_of_tells: 2
            })
        )
    );
    let later = status_update(&players, Some(2));
    assert_eq!(later.0, GameState::Pending { seconds_remaining: 2 });
    assert_eq!(later.1.unwrap().seconds_remaining, 2);
}

#[test]
fn ranks_start_at_one() {
    assert_eq!(rank_for_index(0, 1), 1);
    assert_eq!(rank_for_index(4, 10), 5);
}

#[test]
fn played_round_leaves_no_participants() {
    let mut players = vec![
        entry(1, Some(Choice::GoOut), Some(Choice::StayIn)),
        entry(2, Some(Choice::StayIn), None),
        entry(3, Some(Choice::StayIn), None),
    ];
    play_game(&mut players).unwrap();
    assert!(collect_players(&players).is_empty());
}

#[test]
fn each_round_counts_one_evening() {
    let mut players = vec![
        PlayerEntry { id: 1, choice: Some(Choice::GoOut), tell: None, times_went_out: 4, times_stayed_in: 2 },
        PlayerEntry { id: 2, choice: Some(Choice::StayIn), tell: None, times_went_out: 0, times_stayed_in: 9 },
        PlayerEntry { id: 3, choice: Some(Choice::StayIn), tell: None, times_went_out: 1, times_stayed_in: 1 },
    ];
    play_game(&mut players).unwrap();
    assert_eq!((players[0].times_went_out, players[0].times_stayed_in), (5, 2));
    assert_eq!((players[1].times_went_out, players[1].times_stayed_in), (0, 10));
    assert_eq!((players[2].times_went_out, players[2].times_stayed_in), (1, 2));
    assert_eq!(players.iter().map(|p| p.id).collect::<Vec<_>>(), vec![1, 2, 3]);
}

#[test]
fn choice_set_then_counted() {
    let mut candidates = vec![PlayerEntry::new(1), PlayerEntry::new(2)];
    candidates[1].apply_request(Request::SetChoice(Choice::StayIn));
    candidates[1].apply_request(Request::SetTell(Choice::GoOut));
    let players = collect_players(&candidates);
    assert_eq!(players.len(), 1);
    assert_eq!(players[0].choice, Some(Choice::StayIn));
    assert_eq!(players[0].tell, Some(Choice::GoOut));
}

#[test]
fn readiness_to_settle() {
    assert!(ready_to_settle(&entry(1, Some(Choice::GoOut), None)));
    assert!(!ready_to_settle(&entry(1, None, Some(Choice::GoOut))));
    let full = PlayerEntry { id: 1, choice: Some(Choice::StayIn), tell: None, times_went_out: 0, times_stayed_in: u32::MAX };
    assert!(!ready_to_settle(&full));
    let out = PlayerEntry { choice: Some(Choice::GoOut), ..full };
    assert!(ready_to_settle(&out));
}
