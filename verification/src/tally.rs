use vstd::prelude::*;

use crate::choice::Choice;
use crate::player::PlayerEntry;

verus! {

/// How many entries of `s` satisfy `p`.
pub open spec fn count_where(s: Seq<PlayerEntry>, p: spec_fn(PlayerEntry) -> bool) -> nat
    decreases s.len(),
{
    if s.len() == 0 {
        0
    } else {
        count_where(s.drop_last(), p) + if p(s.last()) {
            1nat
        } else {
            0nat
        }
    }
}

/// The player told the others that they will go out.
pub open spec fn tells_going_out() -> spec_fn(PlayerEntry) -> bool {
    |e: PlayerEntry| e.tell == Some(Choice::GoOut)
}

/// The player told the others something.
pub open spec fn has_tell() -> spec_fn(PlayerEntry) -> bool {
    |e: PlayerEntry| e.tell is Some
}

/// The player told the others something other than what they chose.
pub open spec fn lied() -> spec_fn(PlayerEntry) -> bool {
    |e: PlayerEntry| e.tell is Some && e.choice != e.tell
}

/// The player chose to go out.
pub open spec fn chose_go_out() -> spec_fn(PlayerEntry) -> bool {
    |e: PlayerEntry| e.choice == Some(Choice::GoOut)
}

/// The player chose to stay in.
pub open spec fn chose_stay_in() -> spec_fn(PlayerEntry) -> bool {
    |e: PlayerEntry| e.choice == Some(Choice::StayIn)
}

/// Every entry has made a choice.
pub open spec fn all_chose(s: Seq<PlayerEntry>) -> bool {
    forall|i: int| 0 <= i < s.len() ==> (#[trigger] s[i]).choice is Some
}

/// Counting the first `i + 1` entries adds the `i`-th one to the count of
/// the first `i`.
pub proof fn lemma_count_step(s: Seq<PlayerEntry>, p: spec_fn(PlayerEntry) -> bool, i: int)
    requires
        0 <= i < s.len(),
    ensures
        count_where(s.take(i + 1), p) == count_where(s.take(i), p) + if p(s[i]) {
            1nat
        } else {
            0nat
        },
{
    assert(s.take(i + 1).drop_last() =~= s.take(i));
}

/// Where every entry has made a choice, those who go out and those who
/// stay in are all the entries.
pub proof fn lemma_choices_partition(s: Seq<PlayerEntry>)
    requires
        all_chose(s),
    ensures
        count_where(s, chose_go_out()) + count_where(s, chose_stay_in()) == s.len(),
    decreases s.len(),
{
    if s.len() > 0 {
        let t = s.drop_last();
        assert(all_chose(t)) by {
            assert forall|i: int| 0 <= i < t.len() implies (#[trigger] t[i]).choice is Some by {
                assert(t[i] == s[i]);
            }
        }
        lemma_choices_partition(t);
        let e = s.last();
        assert(e == s[s.len() - 1]);
        assert(e.choice is Some);
        match e.choice {
            Some(Choice::GoOut) => assert(chose_go_out()(e) && !chose_stay_in()(e)),
            Some(Choice::StayIn) => assert(!chose_go_out()(e) && chose_stay_in()(e)),
            None => {},
        }
    }
}

/// The entries taking part in a round, in their order: those that have
/// made a choice.
pub open spec fn participants(s: Seq<PlayerEntry>) -> Seq<PlayerEntry>
    decreases s.len(),
{
    if s.len() == 0 {
        Seq::empty()
    } else if s.last().choice is Some {
        participants(s.drop_last()).push(s.last())
    } else {
        participants(s.drop_last())
    }
}

/// Everyone who takes part has made a choice.
pub proof fn lemma_participants_chose(s: Seq<PlayerEntry>)
    ensures
        all_chose(participants(s)),
        participants(s).len() <= s.len(),
    decreases s.len(),
{
    if s.len() > 0 {
        lemma_participants_chose(s.drop_last());
    }
}

} // verus!
