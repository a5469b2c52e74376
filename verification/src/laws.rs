use vstd::prelude::*;

use crate::choice::{Choice, Request};
use crate::player::PlayerEntry;
use crate::round::{
    all_can_settle, can_settle, concluded, happiness_change, played, settled, HappinessChange, RoundOutcome,
    MINIMUM_PLAYERS,
};
use crate::tally::{
    chose_go_out, chose_stay_in, count_where, has_tell, lied, participants, tells_going_out,
};

verus! {

/// Every player who chose plays exactly one evening per round: after the
/// round the player's evenings out and in add up to one more than before,
/// the one of the chosen kind, and the player's id is kept.
pub proof fn lemma_round_counts_each_evening(
    before: Seq<PlayerEntry>,
    after: Seq<PlayerEntry>,
    i: int,
)
    requires
        all_can_settle(before),
        after.len() == before.len(),
        forall|j: int| 0 <= j < before.len() ==> #[trigger] after[j] == settled(before[j]),
        0 <= i < before.len(),
    ensures
        after[i].id == before[i].id,
        after[i].times_went_out + after[i].times_stayed_in == before[i].times_went_out
            + before[i].times_stayed_in + 1,
        before[i].choice == Some(Choice::GoOut) ==> after[i].times_went_out
            == before[i].times_went_out + 1,
        before[i].choice == Some(Choice::StayIn) ==> after[i].times_stayed_in
            == before[i].times_stayed_in + 1,
{
    assert(after[i] == settled(before[i]));
}

/// A choice and a tell count for one round only: after a round nobody
/// takes part in the next one until they choose again.
pub proof fn lemma_round_clears_participants(before: Seq<PlayerEntry>, after: Seq<PlayerEntry>)
    requires
        after.len() == before.len(),
        forall|j: int| 0 <= j < before.len() ==> #[trigger] after[j] == settled(before[j]),
    ensures
        participants(after) == Seq::<PlayerEntry>::empty(),
        forall|j: int| 0 <= j < after.len() ==> (#[trigger] after[j]).tell is None,
    decreases after.len(),
{
    assert forall|j: int| 0 <= j < after.len() implies (#[trigger] after[j]).tell is None by {
        assert(after[j] == settled(before[j]));
    }
    if after.len() > 0 {
        let n = after.len() - 1;
        assert(after[n] == settled(before[n]));
        assert(after.last().choice is None);
        let a = after.drop_last();
        let b = before.drop_last();
        assert forall|j: int| 0 <= j < b.len() implies #[trigger] a[j] == settled(b[j]) by {
            assert(a[j] == after[j]);
            assert(b[j] == before[j]);
        }
        lemma_round_clears_participants(b, a);
    }
}

/// The crowd decides the evening of those who go out: a player who went
/// out had fun exactly when at most half of the round went out, and was
/// too busy otherwise; a player who stayed in stayed in.
pub proof fn lemma_crowd_decides_happiness(
    o: RoundOutcome,
    before: Seq<PlayerEntry>,
    after: Seq<PlayerEntry>,
    i: int,
)
    requires
        concluded(o, before, after),
        before[i].choice is Some,
        0 <= i < before.len(),
    ensures
        before[i].choice == Some(Choice::GoOut) && 2 * o.going_out <= o.going_out + o.staying_in
            ==> o.happiness_changes@[i] == HappinessChange::HadFun,
        before[i].choice == Some(Choice::GoOut) && 2 * o.going_out > o.going_out + o.staying_in
            ==> o.happiness_changes@[i] == HappinessChange::TooBusy,
        before[i].choice == Some(Choice::StayIn) ==> o.happiness_changes@[i]
            == HappinessChange::StayedIn,
{
    assert(o.happiness_changes@[i] == happiness_change(before[i].choice.unwrap(), o.had_fun));
}

/// Whoever has made a choice takes part.
pub proof fn lemma_chosen_takes_part(s: Seq<PlayerEntry>, i: int)
    requires
        0 <= i < s.len(),
        s[i].choice is Some,
    ensures
        participants(s).contains(s[i]),
    decreases s.len(),
{
    if i == s.len() - 1 {
        assert(participants(s).last() == s[i]);
    } else {
        let t = s.drop_last();
        assert(t[i] == s[i]);
        lemma_chosen_takes_part(t, i);
        let j = choose|j: int| 0 <= j < participants(t).len() && participants(t)[j] == s[i];
        if s.last().choice is Some {
            assert(participants(s)[j] == s[i]);
        }
    }
}

/// A choice that a player sets is the one the next round counts: after
/// `SetChoice(c)` the player takes part with choice `c`, and a later
/// `SetTell` leaves that choice as it is.
pub proof fn lemma_set_choice_takes_part(s: Seq<PlayerEntry>, i: int, c: Choice, t: Choice)
    requires
        0 <= i < s.len(),
    ensures
        ({
            let chosen = s[i].after_request(Request::SetChoice(c));
            let s2 = s.update(i, chosen);
            &&& chosen.choice == Some(c)
            &&& participants(s2).contains(chosen)
            &&& chosen.after_request(Request::SetTell(t)).choice == Some(c)
        }),
{
    let chosen = s[i].after_request(Request::SetChoice(c));
    let s2 = s.update(i, chosen);
    lemma_chosen_takes_part(s2, i);
}

/// Only small rounds depend on chance: two plays of the same round of at
/// least `MINIMUM_PLAYERS` players give the same counts, the same changes
/// of happiness and the same players afterwards.
pub proof fn lemma_full_round_is_determined(
    before: Seq<PlayerEntry>,
    o1: RoundOutcome,
    after1: Seq<PlayerEntry>,
    o2: RoundOutcome,
    after2: Seq<PlayerEntry>,
)
    requires
        played(o1, before, after1),
        played(o2, before, after2),
        before.len() >= MINIMUM_PLAYERS,
    ensures
        after1 == after2,
        o1.going_out == o2.going_out,
        o1.staying_in == o2.staying_in,
        o1.had_fun == o2.had_fun,
        o1.number_of_liars == o2.number_of_liars,
        o1.number_of_tells == o2.number_of_tells,
        o1.number_of_players == o2.number_of_players,
        o1.happiness_changes@ == o2.happiness_changes@,
{
    assert(after1 =~= after2) by {
        assert forall|i: int| 0 <= i < after1.len() implies after1[i] == after2[i] by {
            assert(after1[i] == settled(before[i]));
            assert(after2[i] == settled(before[i]));
        }
    }
    assert(o1.happiness_changes@ =~= o2.happiness_changes@) by {
        assert forall|i: int| 0 <= i < o1.happiness_changes@.len() implies o1.happiness_changes@[i]
            == o2.happiness_changes@[i] by {
            assert(o1.happiness_changes@[i] == happiness_change(before[i].choice.unwrap(), o1.had_fun));
            assert(o2.happiness_changes@[i] == happiness_change(before[i].choice.unwrap(), o2.had_fun));
        }
    }
}

/// Counting with `p` counts the entries that satisfy `p`: as many as
/// filtering by `p` keeps.
pub proof fn lemma_count_is_filter_len(s: Seq<PlayerEntry>, p: spec_fn(PlayerEntry) -> bool)
    ensures
        count_where(s, p) == s.filter(p).len(),
    decreases s.len(),
{
    if s.len() > 0 {
        lemma_count_is_filter_len(s.drop_last(), p);
        assert(s.drop_last().push(s.last()) =~= s);
        s.drop_last().lemma_filter_len_push(p, s.last());
    }
}

/// The tells of a round are counted by what the players said, not by what
/// they chose: those who said they would go out, and those who said
/// anything.
pub proof fn lemma_tells_counted(s: Seq<PlayerEntry>)
    ensures
        count_where(s, tells_going_out()) == s.filter(
            |e: PlayerEntry| e.tell == Some(Choice::GoOut),
        ).len(),
        count_where(s, has_tell()) == s.filter(|e: PlayerEntry| e.tell is Some).len(),
{
    let said_out = |e: PlayerEntry| e.tell == Some(Choice::GoOut);
    let said = |e: PlayerEntry| e.tell is Some;
    assert(tells_going_out() =~= said_out);
    assert(has_tell() =~= said);
    lemma_count_is_filter_len(s, said_out);
    lemma_count_is_filter_len(s, said);
}

/// The choices and the lies of a round are counted by the players' choices
/// and tells: those who chose to go out, those who chose to stay in, and
/// those who told something other than their choice.
pub proof fn lemma_choices_and_lies_counted(s: Seq<PlayerEntry>)
    ensures
        count_where(s, chose_go_out()) == s.filter(
            |e: PlayerEntry| e.choice == Some(Choice::GoOut),
        ).len(),
        count_where(s, chose_stay_in()) == s.filter(
            |e: PlayerEntry| e.choice == Some(Choice::StayIn),
        ).len(),
        count_where(s, lied()) == s.filter(
            |e: PlayerEntry| e.tell is Some && e.tell != e.choice,
        ).len(),
{
    let out = |e: PlayerEntry| e.choice == Some(Choice::GoOut);
    let stay = |e: PlayerEntry| e.choice == Some(Choice::StayIn);
    let liar = |e: PlayerEntry| e.tell is Some && e.tell != e.choice;
    assert(chose_go_out() =~= out);
    assert(chose_stay_in() =~= stay);
    assert(lied() =~= liar);
    lemma_count_is_filter_len(s, out);
    lemma_count_is_filter_len(s, stay);
    lemma_count_is_filter_len(s, liar);
}

/// Tells keep choices secret: two rounds whose players said the same
/// things, whatever they chose, report the same tells.
pub proof fn lemma_tells_ignore_choices(s: Seq<PlayerEntry>, t: Seq<PlayerEntry>)
    requires
        s.len() == t.len(),
        forall|i: int| 0 <= i < s.len() ==> (#[trigger] s[i]).tell == t[i].tell,
    ensures
        count_where(s, tells_going_out()) == count_where(t, tells_going_out()),
        count_where(s, has_tell()) == count_where(t, has_tell()),
    decreases s.len(),
{
    if s.len() > 0 {
        let n = s.len() - 1;
        assert(s[n].tell == t[n].tell);
        let (s2, t2) = (s.drop_last(), t.drop_last());
        assert forall|i: int| 0 <= i < s2.len() implies (#[trigger] s2[i]).tell == t2[i].tell by {
            assert(s2[i] == s[i] && t2[i] == t[i]);
        }
        lemma_tells_ignore_choices(s2, t2);
        assert(s.last() == s[n] && t.last() == t[n]);
    }
}

/// A tell changes only the tell: the choice, the id and the counts stay as
/// they were, for a player who has chosen and for one who has not.
pub proof fn lemma_tell_keeps_choice(e: PlayerEntry, c: Choice)
    ensures
        e.after_request(Request::SetTell(c)) == (PlayerEntry {
            id: e.id,
            choice: e.choice,
            tell: Some(c),
            times_went_out: e.times_went_out,
            times_stayed_in: e.times_stayed_in,
        }),
        e.after_request(Request::SetChoice(c)) == (PlayerEntry {
            id: e.id,
            choice: Some(c),
            tell: e.tell,
            times_went_out: e.times_went_out,
            times_stayed_in: e.times_stayed_in,
        }),
{
}

/// Telling does not enter a player into the round: after a tell exactly
/// the same players take part as before.
pub proof fn lemma_tell_does_not_enter_round(s: Seq<PlayerEntry>, i: int, c: Choice)
    requires
        0 <= i < s.len(),
    ensures
        participants(s.update(i, s[i].after_request(Request::SetTell(c)))).len()
            == participants(s).len(),
        s[i].choice is None ==> !participants(
            s.update(i, s[i].after_request(Request::SetTell(c))),
        ).contains(s[i].after_request(Request::SetTell(c))),
{
    let told = s[i].after_request(Request::SetTell(c));
    lemma_tell_keeps_choice(s[i], c);
    let t = s.update(i, told);
    lemma_same_choosers_same_participants(s, t);
    if s[i].choice is None {
        lemma_participants_have_chosen(t, told);
    }
}

/// Two rosters whose players chose alike, position by position, have as
/// many participants.
pub proof fn lemma_same_choosers_same_participants(s: Seq<PlayerEntry>, t: Seq<PlayerEntry>)
    requires
        s.len() == t.len(),
        forall|j: int| 0 <= j < s.len() ==> ((#[trigger] s[j]).choice is Some <==> t[j].choice is Some),
    ensures
        participants(s).len() == participants(t).len(),
    decreases s.len(),
{
    if s.len() > 0 {
        let n = s.len() - 1;
        assert(s[n].choice is Some <==> t[n].choice is Some);
        let (s2, t2) = (s.drop_last(), t.drop_last());
        assert forall|j: int| 0 <= j < s2.len() implies ((#[trigger] s2[j]).choice is Some
            <==> t2[j].choice is Some) by {
            assert(s2[j] == s[j] && t2[j] == t[j]);
        }
        lemma_same_choosers_same_participants(s2, t2);
        assert(s.last() == s[n] && t.last() == t[n]);
    }
}

/// Only players who have chosen take part.
pub proof fn lemma_participants_have_chosen(s: Seq<PlayerEntry>, e: PlayerEntry)
    requires
        e.choice is None,
    ensures
        !participants(s).contains(e),
    decreases s.len(),
{
    if s.len() > 0 {
        lemma_participants_have_chosen(s.drop_last(), e);
        if s.last().choice is Some {
            let p = participants(s.drop_last());
            assert(participants(s) == p.push(s.last()));
            if participants(s).contains(e) {
                let k = choose|k: int| 0 <= k < participants(s).len() && participants(s)[k] == e;
                if k < p.len() {
                    assert(p[k] == e);
                }
            }
        }
    }
}

/// A player who has chosen is ready to be settled exactly when the count of
/// the chosen kind of evening has room for one more, whichever kind it is;
/// one who has not chosen is never ready.
pub proof fn lemma_ready_when_count_has_room(e: PlayerEntry)
    ensures
        e.choice == Some(Choice::StayIn) ==> (can_settle(e) <==> e.times_stayed_in < u32::MAX),
        e.choice == Some(Choice::GoOut) ==> (can_settle(e) <==> e.times_went_out < u32::MAX),
        e.choice is None ==> !can_settle(e),
        can_settle(e) ==> settled(e).times_went_out + settled(e).times_stayed_in
            == e.times_went_out + e.times_stayed_in + 1,
{
}

} // verus!
