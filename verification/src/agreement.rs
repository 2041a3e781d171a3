//! Why tallies and ballots stay in agreement: every operation of the ledger
//! takes a consistent ledger to a consistent one, and in a consistent ledger
//! the tallies of a poll add up to the number of its ballots.

use crate::model::{
    LedgerView, add_admin, ballot_at, ballots_for, ballots_of, close_poll, consistent, countable,
    create_poll, has_option, initial, is_first_with, lemma_position, poll_at, position,
    recounted, refusal, tally_sum, total_tally, vote,
};
use vstd::prelude::*;
use vstd::set_lib::{lemma_len_subset, lemma_set_disjoint_lens};

verus! {

/// The ballots that count towards one option are among all ballots, so there
/// are finitely many and no more than ballots in all.
pub proof fn lemma_ballots_for_bounded(s: LedgerView, poll_id: Seq<char>, i: int)
    requires
        s.ballots.dom().finite(),
    ensures
        ballots_for(s, poll_id, i).finite(),
        ballots_for(s, poll_id, i).len() <= s.ballots.dom().len(),
        ballots_of(s, poll_id).finite(),
        ballots_of(s, poll_id).len() <= s.ballots.dom().len(),
{
    lemma_len_subset(ballots_for(s, poll_id, i), s.ballots.dom());
    lemma_len_subset(ballots_of(s, poll_id), s.ballots.dom());
}

/// Two lists of options with the same labels count votes towards the same places.
pub proof fn lemma_same_labels(a: Seq<(Seq<char>, nat)>, b: Seq<(Seq<char>, nat)>)
    requires
        a.len() == b.len(),
        forall|i: int| 0 <= i < a.len() ==> a[i].0 == b[i].0,
    ensures
        forall|label: Seq<char>, i: int|
            #[trigger] is_first_with(a, label, i) == is_first_with(b, label, i),
        forall|label: Seq<char>| #[trigger] has_option(a, label) == has_option(b, label),
{
    assert forall|label: Seq<char>, i: int| #[trigger]
        is_first_with(a, label, i) == is_first_with(b, label, i) by {}
    assert forall|label: Seq<char>| #[trigger] has_option(a, label) == has_option(b, label) by {
        if has_option(a, label) {
            let i = choose|i: int| is_first_with(a, label, i);
            assert(is_first_with(b, label, i));
        }
        if has_option(b, label) {
            let i = choose|i: int| is_first_with(b, label, i);
            assert(is_first_with(a, label, i));
        }
    }
}

/// A recount changes tallies only: the labels stay as they are.
pub proof fn lemma_recount_keeps_labels(
    options: Seq<(Seq<char>, nat)>,
    prior: Option<Seq<char>>,
    label: Seq<char>,
)
    requires
        has_option(options, label),
        prior matches Some(earlier) ==> has_option(options, earlier),
    ensures
        recounted(options, prior, label).len() == options.len(),
        forall|i: int|
            0 <= i < options.len() ==> (#[trigger] recounted(options, prior, label)[i]).0
                == options[i].0,
{
    let to = position(options, label);
    assert(is_first_with(options, label, to));
    if let Some(earlier) = prior {
        let from = position(options, earlier);
        assert(is_first_with(options, earlier, from));
    }
}

/// A ledger that was just set up is consistent.
pub proof fn lemma_initial_consistent(admin: Seq<char>)
    ensures
        consistent(initial(admin)),
{
    let s = initial(admin);
    assert(s.admins.len() == 1);
}

/// Opening a poll keeps the ledger consistent.
pub proof fn lemma_create_poll_consistent(
    s: LedgerView,
    sender: Seq<char>,
    poll_id: Seq<char>,
    question: Seq<char>,
    labels: Seq<Seq<char>>,
)
    requires
        consistent(s),
        create_poll(s, sender, poll_id, question, labels) is Ok,
    ensures
        consistent(create_poll(s, sender, poll_id, question, labels)->Ok_0),
{
    let t = create_poll(s, sender, poll_id, question, labels)->Ok_0;
    assert(!s.polls.contains_key(poll_id));
    assert forall|k: (Seq<char>, Seq<char>)| #[trigger] t.ballots.contains_key(k) implies
        t.polls.contains_key(k.1) && has_option(t.polls[k.1].options, t.ballots[k]) by {
        assert(s.ballots.contains_key(k));
        assert(k.1 != poll_id);
    }
    assert forall|id: Seq<char>, i: int|
        t.polls.contains_key(id) && 0 <= i < t.polls[id].options.len() implies t.polls[id].options[i].1
        == #[trigger] ballots_for(t, id, i).len() by {
        if id == poll_id {
            assert forall|k: (Seq<char>, Seq<char>)| !ballots_for(t, id, i).contains(k) by {
                if t.ballots.contains_key(k) && k.1 == id {
                    assert(s.ballots.contains_key(k));
                }
            }
            assert(ballots_for(t, id, i) =~= Set::<(Seq<char>, Seq<char>)>::empty());
        } else {
            assert(ballots_for(t, id, i) =~= ballots_for(s, id, i));
        }
    }
}

/// Closing a poll keeps the ledger consistent.
pub proof fn lemma_close_poll_consistent(s: LedgerView, poll_id: Seq<char>)
    requires
        consistent(s),
        close_poll(s, poll_id) is Ok,
    ensures
        consistent(close_poll(s, poll_id)->Ok_0),
{
    let t = close_poll(s, poll_id)->Ok_0;
    assert forall|k: (Seq<char>, Seq<char>)| #[trigger] t.ballots.contains_key(k) implies
        t.polls.contains_key(k.1) && has_option(t.polls[k.1].options, t.ballots[k]) by {
        assert(s.ballots.contains_key(k));
    }
    assert forall|id: Seq<char>, i: int|
        t.polls.contains_key(id) && 0 <= i < t.polls[id].options.len() implies t.polls[id].options[i].1
        == #[trigger] ballots_for(t, id, i).len() by {
        assert(ballots_for(t, id, i) =~= ballots_for(s, id, i));
    }
}

/// Adding an administrator keeps the ledger consistent.
pub proof fn lemma_add_admin_consistent(s: LedgerView, sender: Seq<char>, added: Seq<char>)
    requires
        consistent(s),
        add_admin(s, sender, added) is Ok,
    ensures
        consistent(add_admin(s, sender, added)->Ok_0),
{
    let t = add_admin(s, sender, added)->Ok_0;
    assert forall|k: (Seq<char>, Seq<char>)| #[trigger] t.ballots.contains_key(k) implies
        t.polls.contains_key(k.1) && has_option(t.polls[k.1].options, t.ballots[k]) by {
        assert(s.ballots.contains_key(k));
    }
    assert forall|id: Seq<char>, i: int|
        t.polls.contains_key(id) && 0 <= i < t.polls[id].options.len() implies t.polls[id].options[i].1
        == #[trigger] ballots_for(t, id, i).len() by {
        assert(ballots_for(t, id, i) =~= ballots_for(s, id, i));
    }
}

/// In a consistent ledger the tallies can take every vote that is not
/// refused, so long as the ballots with the new one among them are no more
/// than a vector can hold.
pub proof fn lemma_vote_countable(
    s: LedgerView,
    sender: Seq<char>,
    poll_id: Seq<char>,
    label: Seq<char>,
)
    requires
        consistent(s),
        refusal(poll_at(s, poll_id), label) is None,
        s.ballots.insert((sender, poll_id), label).dom().len() <= usize::MAX,
    ensures
        countable(s.polls[poll_id].options, ballot_at(s, sender, poll_id), label),
{
    let k0 = (sender, poll_id);
    let options = s.polls[poll_id].options;
    let to = position(options, label);
    assert(is_first_with(options, label, to));
    let all = s.ballots.dom();
    lemma_ballots_for_bounded(s, poll_id, to);
    assert(options[to].1 == ballots_for(s, poll_id, to).len());
    match ballot_at(s, sender, poll_id) {
        Some(earlier) => {
            if earlier != label {
                assert(s.ballots.contains_key(k0));
                assert(has_option(options, earlier));
                let from = position(options, earlier);
                assert(is_first_with(options, earlier, from));
                lemma_ballots_for_bounded(s, poll_id, from);
                assert(ballots_for(s, poll_id, from).contains(k0));
                assert(options[from].1 == ballots_for(s, poll_id, from).len());
                assert(s.ballots.insert(k0, label).dom() =~= all);
                assert(!ballots_for(s, poll_id, to).contains(k0));
                lemma_len_subset(ballots_for(s, poll_id, to), all.remove(k0));
            }
        },
        None => {
            assert(s.ballots.insert(k0, label).dom() =~= all.insert(k0));
        },
    }
}

/// Voting keeps the ledger consistent.
pub proof fn lemma_vote_consistent(
    s: LedgerView,
    sender: Seq<char>,
    poll_id: Seq<char>,
    label: Seq<char>,
)
    requires
        consistent(s),
        vote(s, sender, poll_id, label) is Ok,
    ensures
        consistent(vote(s, sender, poll_id, label)->Ok_0),
{
    let t = vote(s, sender, poll_id, label)->Ok_0;
    let k0 = (sender, poll_id);
    let options = s.polls[poll_id].options;
    let prior = ballot_at(s, sender, poll_id);
    let next = recounted(options, prior, label);
    assert(t.polls[poll_id].options == next);
    let to = position(options, label);
    assert(is_first_with(options, label, to));
    if prior is Some {
        assert(s.ballots.contains_key(k0));
    }
    lemma_recount_keeps_labels(options, prior, label);
    lemma_same_labels(options, next);
    assert forall|k: (Seq<char>, Seq<char>)| #[trigger] t.ballots.contains_key(k) implies
        t.polls.contains_key(k.1) && has_option(t.polls[k.1].options, t.ballots[k]) by {
        if k != k0 {
            assert(s.ballots.contains_key(k));
        }
    }
    assert forall|id: Seq<char>, i: int|
        t.polls.contains_key(id) && 0 <= i < t.polls[id].options.len() implies t.polls[id].options[i].1
        == #[trigger] ballots_for(t, id, i).len() by {
        let before = ballots_for(s, id, i);
        let after = ballots_for(t, id, i);
        lemma_ballots_for_bounded(s, id, i);
        if id != poll_id {
            assert(after =~= before);
        } else {
            assert(options[i].1 == before.len());
            match prior {
                None => {
                    if i == to {
                        assert(after =~= before.insert(k0));
                    } else {
                        assert(after =~= before);
                    }
                },
                Some(earlier) => {
                    if earlier == label {
                        assert(after =~= before);
                    } else {
                        let from = position(options, earlier);
                        assert(is_first_with(options, earlier, from));
                        assert(from != to);
                        if i == from {
                            assert(before.contains(k0));
                            assert(after =~= before.remove(k0));
                        } else if i == to {
                            assert(!before.contains(k0));
                            assert(after =~= before.insert(k0));
                        } else {
                            assert(after =~= before);
                        }
                    }
                },
            }
        }
    }
}

/// The ballots of a poll that count towards one of its first `n` options.
pub open spec fn ballots_below(s: LedgerView, poll_id: Seq<char>, n: int) -> Set<
    (Seq<char>, Seq<char>),
> {
    Set::new(
        |k: (Seq<char>, Seq<char>)|
            s.ballots.contains_key(k) && k.1 == poll_id && s.polls.contains_key(poll_id)
                && exists|i: int| 0 <= i < n && is_first_with(s.polls[poll_id].options, s.ballots[k], i),
    )
}

/// In a consistent ledger the tallies of the first `n` options of a poll add
/// up to the number of ballots that count towards one of them.
pub proof fn lemma_tally_sum(s: LedgerView, poll_id: Seq<char>, n: int)
    requires
        consistent(s),
        s.polls.contains_key(poll_id),
        0 <= n <= s.polls[poll_id].options.len(),
    ensures
        ballots_below(s, poll_id, n).finite(),
        tally_sum(s.polls[poll_id].options, n) == ballots_below(s, poll_id, n).len(),
    decreases n,
{
    let options = s.polls[poll_id].options;
    lemma_len_subset(ballots_below(s, poll_id, n), s.ballots.dom());
    if n == 0 {
        assert(ballots_below(s, poll_id, 0) =~= Set::<(Seq<char>, Seq<char>)>::empty());
    } else {
        lemma_tally_sum(s, poll_id, n - 1);
        let lower = ballots_below(s, poll_id, n - 1);
        let here = ballots_for(s, poll_id, n - 1);
        lemma_ballots_for_bounded(s, poll_id, n - 1);
        assert(options[n - 1].1 == here.len());
        assert(lower.disjoint(here)) by {
            assert forall|k: (Seq<char>, Seq<char>)| !(lower.contains(k) && here.contains(k)) by {
                if lower.contains(k) && here.contains(k) {
                    let i = choose|i: int|
                        0 <= i < n - 1 && is_first_with(options, s.ballots[k], i);
                    lemma_position(options, s.ballots[k], i);
                    lemma_position(options, s.ballots[k], n - 1);
                }
            }
        }
        assert(ballots_below(s, poll_id, n) =~= lower + here) by {
            assert forall|k: (Seq<char>, Seq<char>)|
                ballots_below(s, poll_id, n).contains(k) implies (lower + here).contains(k) by {
                let i = choose|i: int| 0 <= i < n && is_first_with(options, s.ballots[k], i);
                if i < n - 1 {
                    assert(lower.contains(k));
                } else {
                    assert(here.contains(k));
                }
            }
            assert forall|k: (Seq<char>, Seq<char>)| (lower + here).contains(k) implies
                ballots_below(s, poll_id, n).contains(k) by {
                if lower.contains(k) {
                    let i = choose|i: int|
                        0 <= i < n - 1 && is_first_with(options, s.ballots[k], i);
                    assert(0 <= i < n && is_first_with(options, s.ballots[k], i));
                } else {
                    assert(is_first_with(options, s.ballots[k], n - 1));
                }
            }
        }
        lemma_set_disjoint_lens(lower, here);
    }
}

/// In a consistent ledger the tallies of a poll add up to the number of
/// ballots that belong to it.
pub proof fn lemma_total_tally(s: LedgerView, poll_id: Seq<char>)
    requires
        consistent(s),
        s.polls.contains_key(poll_id),
    ensures
        ballots_of(s, poll_id).finite(),
        total_tally(s.polls[poll_id].options) == ballots_of(s, poll_id).len(),
{
    let options = s.polls[poll_id].options;
    let n = options.len() as int;
    lemma_tally_sum(s, poll_id, n);
    assert(ballots_of(s, poll_id) =~= ballots_below(s, poll_id, n)) by {
        assert forall|k: (Seq<char>, Seq<char>)| ballots_of(s, poll_id).contains(k) implies
            ballots_below(s, poll_id, n).contains(k) by {
            assert(s.ballots.contains_key(k));
            assert(has_option(options, s.ballots[k]));
            let i = position(options, s.ballots[k]);
            assert(0 <= i < n && is_first_with(options, s.ballots[k], i));
        }
    }
}

} // verus!
