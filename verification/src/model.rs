//! The ledger as mathematics: what every operation does to the records, and
//! what it means for tallies and ballots to agree.

use crate::error::ContractError;
use crate::state::PollView;
use crate::text::ascending;
use vstd::prelude::*;

verus! {

/// The most options that a poll may be opened with.
pub const MAX_OPTIONS: usize = 10;

/// The ledger as plain mathematical values.
pub struct LedgerView {
    /// The administrators, the root administrator first.
    pub admins: Seq<Seq<char>>,
    /// The polls by identifier.
    pub polls: Map<Seq<char>, PollView>,
    /// The label that each voter chose in each poll, by voter and poll identifier.
    pub ballots: Map<(Seq<char>, Seq<char>), Seq<char>>,
}

/// The payment meets the fee: its first entry is at least one unit of the
/// fee token. Later entries do not count.
pub open spec fn payment_ok(funds: Seq<(Seq<char>, nat)>) -> bool {
    &&& funds.len() > 0
    &&& funds[0].0 == "ukuji"@
    &&& funds[0].1 >= 1
}

/// The address that becomes the first administrator, before the host
/// validates it: the one named, or else the caller.
pub open spec fn admin_candidate(sender: Seq<char>, named: Option<Seq<char>>) -> Seq<char> {
    match named {
        Some(admin) => admin,
        None => sender,
    }
}

/// `i` is the first option that carries `label`.
pub open spec fn is_first_with(options: Seq<(Seq<char>, nat)>, label: Seq<char>, i: int) -> bool {
    &&& 0 <= i < options.len()
    &&& options[i].0 == label
    &&& forall|j: int| 0 <= j < i ==> options[j].0 != label
}

/// Some option carries `label`.
pub open spec fn has_option(options: Seq<(Seq<char>, nat)>, label: Seq<char>) -> bool {
    exists|i: int| is_first_with(options, label, i)
}

/// The option that a vote for `label` counts towards: the first that carries it.
pub open spec fn position(options: Seq<(Seq<char>, nat)>, label: Seq<char>) -> int {
    choose|i: int| is_first_with(options, label, i)
}

/// The first option that carries a label is the one that votes for it count towards.
pub proof fn lemma_position(options: Seq<(Seq<char>, nat)>, label: Seq<char>, i: int)
    requires
        is_first_with(options, label, i),
    ensures
        has_option(options, label),
        position(options, label) == i,
{
    let p = position(options, label);
    assert(is_first_with(options, label, p));
    if p < i {
        assert(options[p].0 != label);
    } else if i < p {
        assert(options[i].0 != label);
    }
}

/// The options with the tally of option `i` set to `tally`.
pub open spec fn with_tally(options: Seq<(Seq<char>, nat)>, i: int, tally: nat) -> Seq<
    (Seq<char>, nat),
> {
    options.update(i, (options[i].0, tally))
}

/// The options of a poll that was just opened: the labels as given, every tally zero.
pub open spec fn fresh_options(labels: Seq<Seq<char>>) -> Seq<(Seq<char>, nat)> {
    Seq::new(labels.len(), |i: int| (labels[i], 0nat))
}

/// The tallies can take a vote for `label` by a voter who held `prior`: the
/// earlier choice is an option with a ballot to revoke, and the tally to be
/// raised is below the largest that fits.
pub open spec fn countable(
    options: Seq<(Seq<char>, nat)>,
    prior: Option<Seq<char>>,
    label: Seq<char>,
) -> bool {
    match prior {
        Some(earlier) => {
            earlier != label ==> {
                &&& has_option(options, earlier)
                &&& options[position(options, earlier)].1 >= 1
                &&& options[position(options, label)].1 < u64::MAX
            }
        },
        None => options[position(options, label)].1 < u64::MAX,
    }
}

/// The tallies after a voter who held `prior` votes for `label`. A voter who
/// repeats their choice changes nothing; otherwise the earlier choice, if
/// any, loses one and the new one gains one.
pub open spec fn recounted(
    options: Seq<(Seq<char>, nat)>,
    prior: Option<Seq<char>>,
    label: Seq<char>,
) -> Seq<(Seq<char>, nat)>
    recommends
        has_option(options, label),
        countable(options, prior, label),
{
    let to = position(options, label);
    match prior {
        Some(earlier) => {
            if earlier == label {
                options
            } else {
                let from = position(options, earlier);
                let revoked = with_tally(options, from, (options[from].1 - 1) as nat);
                with_tally(revoked, to, revoked[to].1 + 1)
            }
        },
        None => with_tally(options, to, options[to].1 + 1),
    }
}

/// Opening a poll. Only an administrator may, with at most `MAX_OPTIONS`
/// options and under an identifier that is not `taken`.
pub open spec fn opened(
    admins: Seq<Seq<char>>,
    sender: Seq<char>,
    taken: bool,
    question: Seq<char>,
    labels: Seq<Seq<char>>,
) -> Result<PollView, ContractError> {
    if !admins.contains(sender) {
        Err(ContractError::Unauthorized {  })
    } else if labels.len() > MAX_OPTIONS {
        Err(ContractError::TooManyOptions {  })
    } else if taken {
        Err(ContractError::PollExists {  })
    } else {
        Ok(PollView { creator: sender, question, options: fresh_options(labels), closed: false })
    }
}

/// Why a vote for `label` is refused, if it is: the poll must exist, be open,
/// and have an option with that label.
pub open spec fn refusal(poll: Option<PollView>, label: Seq<char>) -> Option<ContractError> {
    match poll {
        None => Some(ContractError::NoPoll {  }),
        Some(p) => {
            if p.closed {
                Some(ContractError::ClosedPoll {  })
            } else if !has_option(p.options, label) {
                Some(ContractError::Unauthorized {  })
            } else {
                None
            }
        },
    }
}

/// Voting: the poll after a voter who held `prior` votes for `label`.
pub open spec fn voted(poll: Option<PollView>, prior: Option<Seq<char>>, label: Seq<char>) -> Result<
    PollView,
    ContractError,
> {
    match refusal(poll, label) {
        Some(e) => Err(e),
        None => {
            let p = poll->0;
            Ok(PollView { options: recounted(p.options, prior, label), ..p })
        },
    }
}

/// Closing: the poll with its `closed` flag set, whatever it was.
pub open spec fn closed(poll: Option<PollView>) -> Result<PollView, ContractError> {
    match poll {
        None => Err(ContractError::NoPoll {  }),
        Some(p) => Ok(PollView { closed: true, ..p }),
    }
}

/// Adding an administrator: only the root administrator may, and the new
/// address goes to the end of the list even if it is there already.
pub open spec fn admin_added(admins: Seq<Seq<char>>, sender: Seq<char>, added: Seq<char>) -> Result<
    Seq<Seq<char>>,
    ContractError,
> {
    if admins.len() > 0 && admins[0] == sender {
        Ok(admins.push(added))
    } else {
        Err(ContractError::Unauthorized {  })
    }
}

/// The poll under `poll_id`, if there is one.
pub open spec fn poll_at(s: LedgerView, poll_id: Seq<char>) -> Option<PollView> {
    if s.polls.contains_key(poll_id) {
        Some(s.polls[poll_id])
    } else {
        None
    }
}

/// The ballot of `voter` in the poll `poll_id`, if there is one.
pub open spec fn ballot_at(s: LedgerView, voter: Seq<char>, poll_id: Seq<char>) -> Option<
    Seq<char>,
> {
    if s.ballots.contains_key((voter, poll_id)) {
        Some(s.ballots[(voter, poll_id)])
    } else {
        None
    }
}

/// The ledger right after it was set up with `admin` as its only administrator.
pub open spec fn initial(admin: Seq<char>) -> LedgerView {
    LedgerView { admins: seq![admin], polls: Map::empty(), ballots: Map::empty() }
}

/// The ledger after `sender` asks to open a poll, or why it is refused.
pub open spec fn create_poll(
    s: LedgerView,
    sender: Seq<char>,
    poll_id: Seq<char>,
    question: Seq<char>,
    labels: Seq<Seq<char>>,
) -> Result<LedgerView, ContractError> {
    match opened(s.admins, sender, s.polls.contains_key(poll_id), question, labels) {
        Ok(p) => Ok(LedgerView { polls: s.polls.insert(poll_id, p), ..s }),
        Err(e) => Err(e),
    }
}

/// The ledger after `sender` votes for `label` in the poll `poll_id`, or why
/// the vote is refused.
pub open spec fn vote(s: LedgerView, sender: Seq<char>, poll_id: Seq<char>, label: Seq<char>) -> Result<
    LedgerView,
    ContractError,
> {
    match voted(poll_at(s, poll_id), ballot_at(s, sender, poll_id), label) {
        Ok(p) => Ok(
            LedgerView {
                polls: s.polls.insert(poll_id, p),
                ballots: s.ballots.insert((sender, poll_id), label),
                ..s
            },
        ),
        Err(e) => Err(e),
    }
}

/// The ledger after the poll `poll_id` is closed, or why that is refused.
pub open spec fn close_poll(s: LedgerView, poll_id: Seq<char>) -> Result<LedgerView, ContractError> {
    match closed(poll_at(s, poll_id)) {
        Ok(p) => Ok(LedgerView { polls: s.polls.insert(poll_id, p), ..s }),
        Err(e) => Err(e),
    }
}

/// The ledger after `sender` asks to add an administrator, or why it is refused.
pub open spec fn add_admin(s: LedgerView, sender: Seq<char>, added: Seq<char>) -> Result<
    LedgerView,
    ContractError,
> {
    match admin_added(s.admins, sender, added) {
        Ok(admins) => Ok(LedgerView { admins, ..s }),
        Err(e) => Err(e),
    }
}

/// `ids` are the identifiers of `polls`, each once, in ascending order.
pub open spec fn lists(ids: Seq<Seq<char>>, polls: Map<Seq<char>, PollView>) -> bool {
    ascending(ids) && ids.to_set() == polls.dom()
}

/// The identifiers of the polls in ascending order.
pub open spec fn listing(polls: Map<Seq<char>, PollView>) -> Seq<Seq<char>> {
    choose|ids: Seq<Seq<char>>| lists(ids, polls)
}

/// The polls in ascending order of identifier.
pub open spec fn polls_in_order(polls: Map<Seq<char>, PollView>) -> Seq<PollView> {
    Seq::new(listing(polls).len(), |i: int| polls[listing(polls)[i]])
}

/// The ballots of the poll `poll_id`, by voter and poll identifier.
pub open spec fn ballots_of(s: LedgerView, poll_id: Seq<char>) -> Set<(Seq<char>, Seq<char>)> {
    Set::new(|k: (Seq<char>, Seq<char>)| s.ballots.contains_key(k) && k.1 == poll_id)
}

/// The ballots of the poll `poll_id` that count towards its option `i`.
pub open spec fn ballots_for(s: LedgerView, poll_id: Seq<char>, i: int) -> Set<
    (Seq<char>, Seq<char>),
> {
    Set::new(
        |k: (Seq<char>, Seq<char>)|
            s.ballots.contains_key(k) && k.1 == poll_id && s.polls.contains_key(poll_id)
                && is_first_with(s.polls[poll_id].options, s.ballots[k], i),
    )
}

/// The sum of the tallies of the first `n` options.
pub open spec fn tally_sum(options: Seq<(Seq<char>, nat)>, n: int) -> nat
    decreases n,
{
    if n <= 0 {
        0
    } else {
        tally_sum(options, n - 1) + options[n - 1].1
    }
}

/// The sum of the tallies of all options.
pub open spec fn total_tally(options: Seq<(Seq<char>, nat)>) -> nat {
    tally_sum(options, options.len() as int)
}

/// Tallies and ballots agree: there is an administrator, every ballot names
/// an option of a poll that exists, and the tally of every option is the
/// number of ballots that count towards it.
pub open spec fn consistent(s: LedgerView) -> bool {
    &&& s.admins.len() > 0
    &&& s.polls.dom().finite()
    &&& s.ballots.dom().finite()
    &&& forall|k: (Seq<char>, Seq<char>)| #[trigger]
        s.ballots.contains_key(k) ==> s.polls.contains_key(k.1) && has_option(
            s.polls[k.1].options,
            s.ballots[k],
        )
    &&& forall|poll_id: Seq<char>, i: int|
        s.polls.contains_key(poll_id) && 0 <= i < s.polls[poll_id].options.len()
            ==> s.polls[poll_id].options[i].1 == #[trigger] ballots_for(s, poll_id, i).len()
}

} // verus!
