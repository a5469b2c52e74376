use vstd::prelude::*;

use crate::choice::{same_choice, Choice};
use crate::game_state::{GameState, SECONDS_PER_ROUND};
use crate::player::PlayerEntry;
use crate::random::coin_flip;
use crate::tally::{
    all_chose, chose_go_out, chose_stay_in, count_where, has_tell, lemma_count_step, lemma_participants_chose,
    lied, participants, tells_going_out,
};

verus! {

/// Rounds with fewer choices than this are filled up with random ones.
pub const MINIMUM_PLAYERS: u32 = 3;

/// How a round changes a player's happiness.
#[derive(Clone, Copy, Debug, PartialEq, Eq, Structural)]
pub enum HappinessChange {
    /// Went out, and it was not crowded: happiness rises.
    HadFun,
    /// Went out, and it was crowded: happiness falls.
    TooBusy,
    /// Stayed in: happiness drifts toward one half.
    StayedIn,
}

/// The change of happiness of a player who chose `choice` in a round where
/// those who went out did or did not have fun.
pub open spec fn happiness_change(choice: Choice, had_fun: bool) -> HappinessChange {
    match choice {
        Choice::GoOut => if had_fun {
            HappinessChange::HadFun
        } else {
            HappinessChange::TooBusy
        },
        Choice::StayIn => HappinessChange::StayedIn,
    }
}

/// A player after a round: choice and tell are cleared, and the count of
/// the chosen kind of evening grows by one.
pub open spec fn settled(e: PlayerEntry) -> PlayerEntry {
    match e.choice {
        Some(Choice::GoOut) => PlayerEntry {
            choice: None,
            tell: None,
            times_went_out: (e.times_went_out + 1) as u32,
            ..e
        },
        Some(Choice::StayIn) => PlayerEntry {
            choice: None,
            tell: None,
            times_stayed_in: (e.times_stayed_in + 1) as u32,
            ..e
        },
        None => PlayerEntry { choice: None, tell: None, ..e },
    }
}

/// The player has made a choice and its count has room to grow.
pub open spec fn can_settle(e: PlayerEntry) -> bool {
    match e.choice {
        Some(Choice::GoOut) => e.times_went_out < u32::MAX,
        Some(Choice::StayIn) => e.times_stayed_in < u32::MAX,
        None => false,
    }
}

/// Whether the player has made a choice and its count has room to grow,
/// as `play_game` asks of every player.
pub fn ready_to_settle(e: &PlayerEntry) -> (ready: bool)
    ensures
        ready == can_settle(*e),
        ready <==> (e.choice == Some(Choice::GoOut) && e.times_went_out < u32::MAX) || (e.choice
            == Some(Choice::StayIn) && e.times_stayed_in < u32::MAX),
{
    match e.choice {
        Some(Choice::GoOut) => e.times_went_out < u32::MAX,
        Some(Choice::StayIn) => e.times_stayed_in < u32::MAX,
        None => false,
    }
}

/// Every player of `s` can be settled.
pub open spec fn all_can_settle(s: Seq<PlayerEntry>) -> bool {
    forall|i: int| 0 <= i < s.len() ==> can_settle(#[trigger] s[i])
}

/// What a round that was played tells the game loop.
pub struct RoundOutcome {
    /// How many went out, random fill included.
    pub going_out: u32,
    /// How many stayed in, random fill included.
    pub staying_in: u32,
    /// Whether those who went out had fun: no more went out than stayed in.
    pub had_fun: bool,
    /// How many told something other than what they chose.
    pub number_of_liars: u32,
    /// How many told anything.
    pub number_of_tells: u32,
    /// How many played.
    pub number_of_players: u32,
    /// The change of happiness of each player, in the players' order.
    pub happiness_changes: Vec<HappinessChange>,
}

/// How the pending round stands, as every participant is told on a tick.
#[derive(Clone, Copy, Debug, PartialEq, Eq, Structural)]
pub struct PendingRound {
    pub seconds_remaining: u32,
    pub number_of_players: u32,
    pub tells_going_out: u32,
    pub number_of_tells: u32,
}

/// `o` is the outcome of playing the round of `before`, with `o.going_out`
/// going out and `o.staying_in` staying in, and `after` is what it leaves
/// of the players.
pub open spec fn concluded(o: RoundOutcome, before: Seq<PlayerEntry>, after: Seq<PlayerEntry>) -> bool {
    &&& o.had_fun == (o.going_out <= o.staying_in)
    &&& o.number_of_liars == count_where(before, lied())
    &&& o.number_of_tells == count_where(before, has_tell())
    &&& o.number_of_players == before.len()
    &&& after.len() == before.len()
    &&& forall|i: int| 0 <= i < before.len() ==> #[trigger] after[i] == settled(before[i])
    &&& o.happiness_changes@.len() == before.len()
    &&& forall|i: int|
        0 <= i < before.len() ==> #[trigger] o.happiness_changes@[i] == happiness_change(
            before[i].choice.unwrap(),
            o.had_fun,
        )
}

/// `o` is an outcome of playing the round of `before`, whatever the coin
/// said when filling it: the choices counted, a small round filled up to
/// `MINIMUM_PLAYERS`, and the round concluded with those counts.
pub open spec fn played(o: RoundOutcome, before: Seq<PlayerEntry>, after: Seq<PlayerEntry>) -> bool {
    let n = before.len();
    let out = count_where(before, chose_go_out());
    let stay = count_where(before, chose_stay_in());
    &&& concluded(o, before, after)
    &&& o.going_out >= out
    &&& o.staying_in >= stay
    &&& n >= MINIMUM_PLAYERS ==> o.going_out == out && o.staying_in == stay
    &&& n < MINIMUM_PLAYERS ==> o.going_out + o.staying_in == MINIMUM_PLAYERS
}

/// The players that take part in a round: those that have made a choice,
/// in their order.
pub fn collect_players(candidates: &Vec<PlayerEntry>) -> (players: Vec<PlayerEntry>)
    ensures
        players@ == participants(candidates@),
        all_chose(players@),
{
    let mut players: Vec<PlayerEntry> = Vec::new();
    let n = candidates.len();
    for i in 0..n
        invariant
            n == candidates.len(),
            players@ == participants(candidates@.take(i as int)),
    {
        let e = candidates[i];
        proof {
            let t = candidates@.take(i + 1);
            assert(t.drop_last() =~= candidates@.take(i as int));
            assert(t.last() == e);
        }
        if e.choice.is_some() {
            players.push(e);
        }
    }
    assert(candidates@.take(n as int) =~= candidates@);
    proof {
        lemma_participants_chose(candidates@);
    }
    players
}

/// Counts the tells: how many told they would go out, and how many told
/// anything.
pub fn tally_tells(players: &Vec<PlayerEntry>) -> (r: (u32, u32))
    requires
        players.len() <= u32::MAX,
    ensures
        r.0 == count_where(players@, tells_going_out()),
        r.1 == count_where(players@, has_tell()),
        r.0 <= r.1 <= players.len(),
        r.0 == players@.filter(|e: PlayerEntry| e.tell == Some(Choice::GoOut)).len(),
        r.1 == players@.filter(|e: PlayerEntry| e.tell is Some).len(),
{
    proof {
        crate::laws::lemma_tells_counted(players@);
    }
    let n = players.len();
    let mut going_out: u32 = 0;
    let mut tells: u32 = 0;
    for i in 0..n
        invariant
            n == players.len(),
            n <= u32::MAX,
            going_out == count_where(players@.take(i as int), tells_going_out()),
            tells == count_where(players@.take(i as int), has_tell()),
            going_out <= tells <= i,
    {
        proof {
            lemma_count_step(players@, tells_going_out(), i as int);
            lemma_count_step(players@, has_tell(), i as int);
        }
        match players[i].tell {
            Some(Choice::GoOut) => {
                going_out = going_out + 1;
                tells = tells + 1;
            },
            Some(Choice::StayIn) => {
                tells = tells + 1;
            },
            None => {},
        }
    }
    assert(players@.take(n as int) =~= players@);
    (going_out, tells)
}

/// Counts the choices of a round: how many go out and how many stay in.
pub fn tally_choices(players: &Vec<PlayerEntry>) -> (r: (u32, u32))
    requires
        players.len() <= u32::MAX,
        all_chose(players@),
    ensures
        r.0 == count_where(players@, chose_go_out()),
        r.1 == count_where(players@, chose_stay_in()),
        r.0 + r.1 == players.len(),
{
    let n = players.len();
    let mut going_out: u32 = 0;
    let mut staying_in: u32 = 0;
    for i in 0..n
        invariant
            n == players.len(),
            n <= u32::MAX,
            all_chose(players@),
            going_out == count_where(players@.take(i as int), chose_go_out()),
            staying_in == count_where(players@.take(i as int), chose_stay_in()),
            going_out + staying_in == i,
    {
        let e = players[i];
        proof {
            lemma_count_step(players@, chose_go_out(), i as int);
            lemma_count_step(players@, chose_stay_in(), i as int);
            assert(e.choice is Some);
        }
        match e.choice {
            Some(Choice::GoOut) => {
                going_out = going_out + 1;
            },
            _ => {
                staying_in = staying_in + 1;
            },
        }
    }
    assert(players@.take(n as int) =~= players@);
    (going_out, staying_in)
}

/// Counts the tells of a round against its choices: how many told
/// something other than what they chose, and how many told anything.
pub fn tally_liars(players: &Vec<PlayerEntry>) -> (r: (u32, u32))
    requires
        players.len() <= u32::MAX,
    ensures
        r.0 == count_where(players@, lied()),
        r.1 == count_where(players@, has_tell()),
        r.0 <= r.1 <= players.len(),
{
    let n = players.len();
    let mut liars: u32 = 0;
    let mut tells: u32 = 0;
    for i in 0..n
        invariant
            n == players.len(),
            n <= u32::MAX,
            liars == count_where(players@.take(i as int), lied()),
            tells == count_where(players@.take(i as int), has_tell()),
            liars <= tells <= i,
    {
        proof {
            lemma_count_step(players@, lied(), i as int);
            lemma_count_step(players@, has_tell(), i as int);
        }
        let e = players[i];
        if e.tell.is_some() && !same_choice(e.choice, e.tell) {
            liars = liars + 1;
            tells = tells + 1;
        } else if e.tell.is_some() {
            tells = tells + 1;
        }
    }
    assert(players@.take(n as int) =~= players@);
    (liars, tells)
}

/// Adds one drawn choice to a round's counts: a goer when `go_out`, a
/// stayer otherwise.
pub fn fill_step(going_out: u32, staying_in: u32, go_out: bool) -> (r: (u32, u32))
    requires
        going_out + staying_in < u32::MAX,
    ensures
        r == if go_out {
            ((going_out + 1) as u32, staying_in)
        } else {
            (going_out, (staying_in + 1) as u32)
        },
{
    if go_out {
        (going_out + 1, staying_in)
    } else {
        (going_out, staying_in + 1)
    }
}

/// Fills a round with fewer than `MINIMUM_PLAYERS` choices up to that many,
/// one coin flip per missing choice, each added by `fill_step`; a round
/// with enough choices is left as it is.
pub fn fill_to_minimum(going_out: u32, staying_in: u32) -> (r: (u32, u32))
    requires
        going_out + staying_in <= u32::MAX,
    ensures
        r.0 >= going_out,
        r.1 >= staying_in,
        going_out + staying_in >= MINIMUM_PLAYERS ==> r == (going_out, staying_in),
        going_out + staying_in < MINIMUM_PLAYERS ==> r.0 + r.1 == MINIMUM_PLAYERS,
{
    let mut g = going_out;
    let mut s = staying_in;
    while g + s < MINIMUM_PLAYERS
        invariant
            g >= going_out,
            s >= staying_in,
            g + s <= u32::MAX,
            going_out + staying_in >= MINIMUM_PLAYERS ==> g == going_out && s == staying_in,
            going_out + staying_in < MINIMUM_PLAYERS ==> g + s <= MINIMUM_PLAYERS,
        decreases MINIMUM_PLAYERS - (g + s),
    {
        let (g2, s2) = fill_step(g, s, coin_flip());
        g = g2;
        s = s2;
    }
    (g, s)
}

/// Settles every player after a round: clears choice and tell, counts the
/// evening, and says how each player's happiness changes.
fn settle_players(players: &mut Vec<PlayerEntry>, had_fun: bool) -> (changes: Vec<HappinessChange>)
    requires
        all_can_settle(old(players)@),
    ensures
        final(players)@.len() == old(players)@.len(),
        forall|i: int|
            0 <= i < old(players)@.len() ==> #[trigger] final(players)@[i] == settled(
                old(players)@[i],
            ),
        changes@.len() == old(players)@.len(),
        forall|i: int|
            0 <= i < old(players)@.len() ==> #[trigger] changes@[i] == happiness_change(
                old(players)@[i].choice.unwrap(),
                had_fun,
            ),
{
    let ghost start = players@;
    let n = players.len();
    let mut changes: Vec<HappinessChange> = Vec::new();
    for i in 0..n
        invariant
            n == start.len(),
            players@.len() == n,
            all_can_settle(start),
            forall|j: int| 0 <= j < i ==> #[trigger] players@[j] == settled(start[j]),
            forall|j: int| i <= j < n ==> #[trigger] players@[j] == start[j],
            changes@.len() == i,
            forall|j: int|
                0 <= j < i ==> #[trigger] changes@[j] == happiness_change(
                    start[j].choice.unwrap(),
                    had_fun,
                ),
    {
        let mut e = players[i];
        assert(can_settle(start[i as int]));
        let change = match e.choice {
            Some(Choice::GoOut) => {
                e.times_went_out = e.times_went_out + 1;
                if had_fun {
                    HappinessChange::HadFun
                } else {
                    HappinessChange::TooBusy
                }
            },
            _ => {
                e.times_stayed_in = e.times_stayed_in + 1;
                HappinessChange::StayedIn
            },
        };
        e.choice = None;
        e.tell = None;
        players.set(i, e);
        changes.push(change);
    }
    changes
}

/// Plays a round whose choices, random fill included, come to `going_out`
/// going out and `staying_in` staying in: those who went out had fun when
/// no more went out than stayed in; the tells are held against the choices,
/// and every player is settled.
pub fn conclude_round(
    players: &mut Vec<PlayerEntry>,
    going_out: u32,
    staying_in: u32,
) -> (o: RoundOutcome)
    requires
        old(players).len() <= u32::MAX,
        all_can_settle(old(players)@),
    ensures
        concluded(o, old(players)@, final(players)@),
        o.going_out == going_out,
        o.staying_in == staying_in,
{
    let (number_of_liars, number_of_tells) = tally_liars(players);
    let had_fun = going_out <= staying_in;
    let number_of_players = players.len() as u32;
    let happiness_changes = settle_players(players, had_fun);
    RoundOutcome {
        going_out,
        staying_in,
        had_fun,
        number_of_liars,
        number_of_tells,
        number_of_players,
        happiness_changes,
    }
}

/// Plays the round of `players`, who have all made a choice. With nobody
/// taking part there is no round. Otherwise the choices are counted, filled
/// up at random to `MINIMUM_PLAYERS`, and the round is concluded.
pub fn play_game(players: &mut Vec<PlayerEntry>) -> (outcome: Option<RoundOutcome>)
    requires
        old(players).len() <= u32::MAX,
        all_can_settle(old(players)@),
    ensures
        outcome is None <==> old(players)@.len() == 0,
        outcome is None ==> final(players)@ == old(players)@,
        outcome matches Some(o) ==> played(o, old(players)@, final(players)@),
{
    if players.len() == 0 {
        return None;
    }
    proof {
        assert(all_chose(players@)) by {
            assert forall|i: int| 0 <= i < players@.len() implies (
            #[trigger] players@[i]).choice is Some by {
                assert(can_settle(players@[i]));
            }
        }
    }
    let (going_out, staying_in) = tally_choices(players);
    let (going_out, staying_in) = fill_to_minimum(going_out, staying_in);
    Some(conclude_round(players, going_out, staying_in))
}

/// A status update of the pending round: with nobody taking part the game
/// goes idle and nobody is told anything; otherwise the round is pending
/// with the given countdown, or a fresh one of `SECONDS_PER_ROUND`, and
/// every participant is told how the tells stand.
pub fn status_update(players: &Vec<PlayerEntry>, seconds_remaining: Option<u32>) -> (r: (
    GameState,
    Option<PendingRound>,
))
    requires
        players.len() <= u32::MAX,
    ensures
        r.0 == GameState::after_status(players.len() > 0, seconds_remaining),
        players.len() == 0 ==> r.1 is None,
        players.len() > 0 ==> r.1 == Some(
            PendingRound {
                seconds_remaining: match seconds_remaining {
                    Some(s) => s,
                    None => SECONDS_PER_ROUND,
                },
                number_of_players: players.len() as u32,
                tells_going_out: count_where(players@, tells_going_out()) as u32,
                number_of_tells: count_where(players@, has_tell()) as u32,
            },
        ),
{
    if players.len() == 0 {
        return (GameState::Idle, None);
    }
    let (tells_going_out, number_of_tells) = tally_tells(players);
    let seconds_remaining = match seconds_remaining {
        Some(s) => s,
        None => SECONDS_PER_ROUND,
    };
    (
        GameState::Pending { seconds_remaining },
        Some(
            PendingRound {
                seconds_remaining,
                number_of_players: players.len() as u32,
                tells_going_out,
                number_of_tells,
            },
        ),
    )
}

/// The rank shown for the player at `index` of the ranked players: one
/// more than the index.
pub fn rank_for_index(index: usize, number_of_players: usize) -> (rank: u32)
    requires
        index < number_of_players,
        number_of_players <= u32::MAX,
    ensures
        rank == index + 1,
{
    index as u32 + 1
}

} // verus!
