//! What holds of the ledger whatever is asked of it.

use crate::agreement::{
    lemma_add_admin_consistent, lemma_close_poll_consistent, lemma_create_poll_consistent,
    lemma_recount_keeps_labels, lemma_same_labels, lemma_total_tally, lemma_vote_consistent,
};
use crate::context::{MessageInfo, coin_views};
use crate::contract::executed;
use crate::error::ContractError;
use crate::model::{
    LedgerView, MAX_OPTIONS, add_admin, ballot_at, ballots_of, close_poll, consistent,
    create_poll, has_option, is_first_with, lemma_position, payment_ok, position, recounted,
    total_tally, vote,
};
use crate::msg::ExecuteMsg;
use crate::state::text_views;
use vstd::prelude::*;

verus! {

/// The tally of the option that votes for `label` count towards, in the poll `poll_id`.
pub open spec fn tally_of(s: LedgerView, poll_id: Seq<char>, label: Seq<char>) -> nat {
    s.polls[poll_id].options[position(s.polls[poll_id].options, label)].1
}

/// In a consistent ledger the tallies of every poll add up to the number of
/// ballots cast in it.
pub proof fn theorem_tallies_count_ballots(s: LedgerView, poll_id: Seq<char>)
    requires
        consistent(s),
        s.polls.contains_key(poll_id),
    ensures
        total_tally(s.polls[poll_id].options) == ballots_of(s, poll_id).len(),
{
    lemma_total_tally(s, poll_id);
}

/// Every command that succeeds takes a consistent ledger to a consistent
/// one, so the tallies of every poll add up to the number of its ballots
/// after the command as before it.
pub proof fn theorem_commands_keep_agreement(s: LedgerView, info: MessageInfo, msg: ExecuteMsg)
    requires
        consistent(s),
        executed(s, info, msg) is Ok,
    ensures
        consistent(executed(s, info, msg)->Ok_0),
        forall|poll_id: Seq<char>| #[trigger]
            executed(s, info, msg)->Ok_0.polls.contains_key(poll_id) ==> total_tally(
                executed(s, info, msg)->Ok_0.polls[poll_id].options,
            ) == ballots_of(executed(s, info, msg)->Ok_0, poll_id).len(),
{
    let t = executed(s, info, msg)->Ok_0;
    match msg {
        ExecuteMsg::CreatePoll { poll_id, question, options } => {
            lemma_create_poll_consistent(
                s,
                info.sender@,
                poll_id@,
                question@,
                text_views(options@),
            );
        },
        ExecuteMsg::Vote { poll_id, vote: label } => {
            lemma_vote_consistent(s, info.sender@, poll_id@, label@);
        },
        ExecuteMsg::ClosePoll { poll_id } => {
            lemma_close_poll_consistent(s, poll_id@);
        },
        ExecuteMsg::AddAdmin { addmin } => {
            lemma_add_admin_consistent(s, info.sender@, addmin@);
        },
    }
    assert forall|poll_id: Seq<char>| #[trigger] t.polls.contains_key(poll_id) implies total_tally(
        t.polls[poll_id].options,
    ) == ballots_of(t, poll_id).len() by {
        lemma_total_tally(t, poll_id);
    }
}

/// The same labels in the same order.
pub open spec fn same_labels(a: Seq<(Seq<char>, nat)>, b: Seq<(Seq<char>, nat)>) -> bool {
    &&& a.len() == b.len()
    &&& forall|i: int| 0 <= i < a.len() ==> (#[trigger] a[i]).0 == b[i].0
}

/// No command takes a record away or rewrites what is fixed in it. After a
/// command that succeeds every administrator is where they were, every poll
/// is still there with its creator, its question and its labels, a poll that
/// was closed is closed with the tallies it had, and every voter who held a
/// ballot holds one.
pub proof fn theorem_records_persist(s: LedgerView, info: MessageInfo, msg: ExecuteMsg)
    requires
        consistent(s),
        executed(s, info, msg) is Ok,
    ensures
        ({
            let t = executed(s, info, msg)->Ok_0;
            &&& s.admins.is_prefix_of(t.admins)
            &&& forall|poll_id: Seq<char>| #[trigger]
                s.polls.contains_key(poll_id) ==> {
                    &&& t.polls.contains_key(poll_id)
                    &&& t.polls[poll_id].creator == s.polls[poll_id].creator
                    &&& t.polls[poll_id].question == s.polls[poll_id].question
                    &&& same_labels(t.polls[poll_id].options, s.polls[poll_id].options)
                    &&& s.polls[poll_id].closed ==> t.polls[poll_id] == s.polls[poll_id]
                }
            &&& forall|k: (Seq<char>, Seq<char>)| #[trigger]
                s.ballots.contains_key(k) ==> t.ballots.contains_key(k)
        }),
{
    let t = executed(s, info, msg)->Ok_0;
    match msg {
        ExecuteMsg::CreatePoll { poll_id, question, options } => {},
        ExecuteMsg::Vote { poll_id, vote: label } => {
            let options = s.polls[poll_id@].options;
            let prior = ballot_at(s, info.sender@, poll_id@);
            if prior is Some {
                assert(s.ballots.contains_key((info.sender@, poll_id@)));
            }
            lemma_recount_keeps_labels(options, prior, label@);
        },
        ExecuteMsg::ClosePoll { poll_id } => {},
        ExecuteMsg::AddAdmin { addmin } => {},
    }
}

/// Closing a poll twice is closing it once: both calls succeed, the poll is
/// closed after each, the second changes nothing, and no tally moves. A poll
/// that does not exist is refused both times.
pub proof fn theorem_close_is_idempotent(s: LedgerView, poll_id: Seq<char>)
    ensures
        match close_poll(s, poll_id) {
            Ok(once) => {
                &&& s.polls.contains_key(poll_id)
                &&& once.polls[poll_id].closed
                &&& once.polls[poll_id].options == s.polls[poll_id].options
                &&& once.ballots == s.ballots
                &&& close_poll(once, poll_id) == Ok::<LedgerView, ContractError>(once)
            },
            Err(e) => e == (ContractError::NoPoll {  }) && !s.polls.contains_key(poll_id),
        },
{
    if let Ok(once) = close_poll(s, poll_id) {
        let twice = close_poll(once, poll_id)->Ok_0;
        assert(twice.polls =~= once.polls);
    }
}

/// A voter who votes for one option and then for another holds one ballot,
/// for the second; the first option's tally is where it was before the two
/// votes and the second's is one higher. This is said of a voter who held
/// no ballot for either option before.
pub proof fn theorem_recast(
    s: LedgerView,
    voter: Seq<char>,
    poll_id: Seq<char>,
    first: Seq<char>,
    second: Seq<char>,
)
    requires
        consistent(s),
        first != second,
        ballot_at(s, voter, poll_id) != Some(first),
        ballot_at(s, voter, poll_id) != Some(second),
        vote(s, voter, poll_id, first) is Ok,
        vote(vote(s, voter, poll_id, first)->Ok_0, voter, poll_id, second) is Ok,
    ensures
        ({
            let end = vote(vote(s, voter, poll_id, first)->Ok_0, voter, poll_id, second)->Ok_0;
            &&& end.ballots.dom() == s.ballots.dom().insert((voter, poll_id))
            &&& end.ballots[(voter, poll_id)] == second
            &&& forall|k: (Seq<char>, Seq<char>)|
                k != (voter, poll_id) && s.ballots.contains_key(k) ==> end.ballots[k]
                    == s.ballots[k]
            &&& tally_of(end, poll_id, first) == tally_of(s, poll_id, first)
            &&& tally_of(end, poll_id, second) == tally_of(s, poll_id, second) + 1
        }),
{
    let k0 = (voter, poll_id);
    let mid = vote(s, voter, poll_id, first)->Ok_0;
    let end = vote(mid, voter, poll_id, second)->Ok_0;
    let o0 = s.polls[poll_id].options;
    let o1 = mid.polls[poll_id].options;
    let o2 = end.polls[poll_id].options;
    let prior = ballot_at(s, voter, poll_id);
    let a = position(o0, first);
    assert(is_first_with(o0, first, a));
    if prior is Some {
        assert(s.ballots.contains_key(k0));
        let from = position(o0, prior->0);
        assert(is_first_with(o0, prior->0, from));
    }
    lemma_recount_keeps_labels(o0, prior, first);
    lemma_same_labels(o0, o1);
    assert(o1 == recounted(o0, prior, first));
    assert(ballot_at(mid, voter, poll_id) == Some(first));
    assert(has_option(o1, second));
    assert(has_option(o0, second));
    let b = position(o0, second);
    assert(is_first_with(o0, second, b));
    lemma_position(o1, first, a);
    lemma_position(o1, second, b);
    assert(o2 == recounted(o1, Some(first), second));
    lemma_recount_keeps_labels(o1, Some(first), second);
    lemma_same_labels(o1, o2);
    lemma_position(o2, first, a);
    lemma_position(o2, second, b);
    assert(a != b);
    assert(end.ballots.dom() =~= s.ballots.dom().insert(k0));
}

/// An address that is not an administrator can neither open a poll nor add
/// an administrator: both are refused as unauthorized, whatever else is asked.
pub proof fn theorem_outsiders_are_refused(
    s: LedgerView,
    sender: Seq<char>,
    poll_id: Seq<char>,
    question: Seq<char>,
    labels: Seq<Seq<char>>,
    added: Seq<char>,
)
    requires
        !s.admins.contains(sender),
    ensures
        create_poll(s, sender, poll_id, question, labels) == Err::<LedgerView, ContractError>(
            ContractError::Unauthorized {  },
        ),
        add_admin(s, sender, added) == Err::<LedgerView, ContractError>(
            ContractError::Unauthorized {  },
        ),
{
    if s.admins.len() > 0 && s.admins[0] == sender {
        assert(s.admins.contains(sender));
    }
}

/// Adding an administrator succeeds for the root administrator and for
/// nobody else; every other caller is refused as unauthorized.
pub proof fn theorem_only_root_adds_admins(s: LedgerView, sender: Seq<char>, added: Seq<char>)
    requires
        s.admins.len() > 0,
    ensures
        add_admin(s, sender, added) is Ok <==> sender == s.admins[0],
        sender != s.admins[0] ==> add_admin(s, sender, added) == Err::<LedgerView, ContractError>(
            ContractError::Unauthorized {  },
        ),
        sender == s.admins[0] ==> add_admin(s, sender, added)->Ok_0.admins == s.admins.push(added),
{
}

/// A command that comes without the fee is refused before anything else is
/// looked at, and one from an outsider that comes with it is refused as
/// unauthorized where it asks to open a poll or to add an administrator.
pub proof fn theorem_gates(s: LedgerView, info: MessageInfo, msg: ExecuteMsg)
    ensures
        !payment_ok(coin_views(info.funds@)) ==> executed(s, info, msg) == Err::<
            LedgerView,
            ContractError,
        >(ContractError::BadDenom {  }),
        payment_ok(coin_views(info.funds@)) && !s.admins.contains(info.sender@) && (msg is CreatePoll
            || msg is AddAdmin) ==> executed(s, info, msg) == Err::<LedgerView, ContractError>(
            ContractError::Unauthorized {  },
        ),
{
    if s.admins.len() > 0 && s.admins[0] == info.sender@ {
        assert(s.admins.contains(info.sender@));
    }
}

/// An administrator can open a poll under a free identifier with up to
/// `MAX_OPTIONS` options, and with no more: one option more is refused as too many.
pub proof fn theorem_option_bound(
    s: LedgerView,
    sender: Seq<char>,
    poll_id: Seq<char>,
    question: Seq<char>,
    labels: Seq<Seq<char>>,
)
    requires
        s.admins.contains(sender),
        !s.polls.contains_key(poll_id),
    ensures
        labels.len() <= MAX_OPTIONS <==> create_poll(s, sender, poll_id, question, labels) is Ok,
        labels.len() > MAX_OPTIONS ==> create_poll(s, sender, poll_id, question, labels) == Err::<
            LedgerView,
            ContractError,
        >(ContractError::TooManyOptions {  }),
{
}

} // verus!
