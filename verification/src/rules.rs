//! The rules of the ledger on single records: who may do what, and what a
//! poll, a ballot and the list of administrators become.
//!
//! Nothing here touches a store. A caller that keeps its records elsewhere
//! reads them, applies one of these functions, and writes the result back.

use crate::context::{Coin, MessageInfo, coin_views};
use crate::error::ContractError;
use crate::model::{
    MAX_OPTIONS, admin_added, admin_candidate, closed, countable, fresh_options, has_option,
    is_first_with, lemma_position, opened, payment_ok, recounted, refusal, voted, with_tally,
};
use crate::msg::InstantiateMsg;
use crate::state::{
    Ballot, Config, Poll, PollView, clone_options, clone_texts, option_views, text_views,
};
use crate::text::same_text;
use vstd::prelude::*;

verus! {

/// What a poll that may be absent stands for.
pub open spec fn poll_view(poll: Option<&Poll>) -> Option<PollView> {
    match poll {
        Some(p) => Some(p@),
        None => None,
    }
}

/// What a ballot that may be absent stands for.
pub open spec fn ballot_view(ballot: Option<&Ballot>) -> Option<Seq<char>> {
    match ballot {
        Some(b) => Some(b@),
        None => None,
    }
}

/// Whether the payment that came with a call meets the fee.
pub fn payment_accepted(funds: &Vec<Coin>) -> (ok: bool)
    ensures
        ok == payment_ok(coin_views(funds@)),
{
    if funds.len() == 0 {
        return false;
    }
    same_text(funds[0].denom.as_str(), "ukuji") && funds[0].amount >= 1
}

/// Refuses a call whose payment does not meet the fee.
pub fn check_payment(funds: &Vec<Coin>) -> (r: Result<(), ContractError>)
    ensures
        match r {
            Ok(_) => payment_ok(coin_views(funds@)),
            Err(e) => !payment_ok(coin_views(funds@)) && e == (ContractError::BadDenom {  }),
        },
{
    if payment_accepted(funds) {
        Ok(())
    } else {
        Err(ContractError::BadDenom {  })
    }
}

/// The address to validate as the first administrator: the one that the
/// message names, or else the caller.
pub fn initial_admin(info: &MessageInfo, msg: &InstantiateMsg) -> (admin: String)
    ensures
        admin@ == admin_candidate(
            info.sender@,
            match msg.admin {
                Some(named) => Some(named@),
                None => None,
            },
        ),
{
    match &msg.admin {
        Some(named) => named.clone(),
        None => info.sender.clone(),
    }
}

/// Whether `who` is among the administrators.
pub fn is_admin(config: &Config, who: &str) -> (found: bool)
    ensures
        found == config@.contains(who@),
{
    let mut i: usize = 0;
    while i < config.admins.len()
        invariant
            i <= config.admins.len(),
            forall|j: int| 0 <= j < i ==> config@[j] != who@,
        decreases config.admins.len() - i,
    {
        if same_text(config.admins[i].as_str(), who) {
            assert(config@[i as int] == who@);
            return true;
        }
        i = i + 1;
    }
    false
}

/// Whether `who` is the root administrator, the first of the list.
pub fn is_root_admin(config: &Config, who: &str) -> (root: bool)
    ensures
        root == (config@.len() > 0 && config@[0] == who@),
{
    config.admins.len() > 0 && same_text(config.admins[0].as_str(), who)
}

/// The option that a vote for `label` counts towards, if the poll has one.
pub fn find_option(options: &Vec<(String, u64)>, label: &str) -> (found: Option<usize>)
    ensures
        match found {
            Some(i) => is_first_with(option_views(options@), label@, i as int),
            None => !has_option(option_views(options@), label@),
        },
{
    let mut i: usize = 0;
    while i < options.len()
        invariant
            i <= options.len(),
            forall|j: int| 0 <= j < i ==> option_views(options@)[j].0 != label@,
        decreases options.len() - i,
    {
        if same_text(options[i].0.as_str(), label) {
            return Some(i);
        }
        i = i + 1;
    }
    None
}

/// Opens a poll on behalf of `sender`. `taken` says whether the identifier
/// that the poll is to go under is in use.
pub fn open_poll(
    config: &Config,
    sender: &str,
    taken: bool,
    question: String,
    options: Vec<String>,
) -> (r: Result<Poll, ContractError>)
    ensures
        match opened(config@, sender@, taken, question@, text_views(options@)) {
            Ok(poll) => r matches Ok(p) && p@ == poll,
            Err(e) => r matches Err(f) && f == e,
        },
{
    if !is_admin(config, sender) {
        return Err(ContractError::Unauthorized {  });
    }
    if options.len() > MAX_OPTIONS {
        return Err(ContractError::TooManyOptions {  });
    }
    if taken {
        return Err(ContractError::PollExists {  });
    }
    let ghost labels = text_views(options@);
    let mut opts: Vec<(String, u64)> = Vec::new();
    let mut i: usize = 0;
    while i < options.len()
        invariant
            i <= options.len(),
            opts.len() == i,
            forall|j: int| 0 <= j < i ==> opts[j].0@ == options[j]@ && opts[j].1 == 0,
        decreases options.len() - i,
    {
        opts.push((options[i].clone(), 0));
        i = i + 1;
    }
    assert(option_views(opts@) =~= fresh_options(labels));
    Ok(Poll { creator: sender.to_owned(), question, options: opts, closed: false })
}

/// Why a vote is refused, if it is.
pub fn vote_refusal(poll: Option<&Poll>, vote: &str) -> (r: Option<ContractError>)
    ensures
        r == refusal(poll_view(poll), vote@),
{
    match poll {
        None => Some(ContractError::NoPoll {  }),
        Some(p) => {
            if p.closed {
                Some(ContractError::ClosedPoll {  })
            } else if find_option(&p.options, vote).is_none() {
                Some(ContractError::Unauthorized {  })
            } else {
                None
            }
        },
    }
}

/// Whether `poll` has an option for `vote` and its tallies can take a vote
/// for it by a voter who holds `prior`. In a ledger whose tallies and ballots
/// agree they can take every vote for an option that the poll has.
pub fn can_count(poll: &Poll, prior: Option<&Ballot>, vote: &str) -> (ok: bool)
    ensures
        ok == (has_option(poll@.options, vote@) && countable(
            poll@.options,
            ballot_view(prior),
            vote@,
        )),
{
    let to = match find_option(&poll.options, vote) {
        Some(to) => to,
        None => {
            return false;
        },
    };
    proof {
        lemma_position(poll@.options, vote@, to as int);
    }
    match prior {
        Some(b) => {
            if same_text(b.option.as_str(), vote) {
                true
            } else {
                match find_option(&poll.options, b.option.as_str()) {
                    Some(from) => {
                        proof {
                            lemma_position(poll@.options, b@, from as int);
                        }
                        poll.options[from].1 >= 1 && poll.options[to].1 < u64::MAX
                    },
                    None => false,
                }
            }
        },
        None => poll.options[to].1 < u64::MAX,
    }
}

/// Sets the tally of one option.
fn set_tally(options: &mut Vec<(String, u64)>, i: usize, tally: u64)
    requires
        i < old(options).len(),
    ensures
        final(options).len() == old(options).len(),
        option_views(final(options)@) == with_tally(option_views(old(options)@), i as int, tally as nat),
{
    let label = options[i].0.clone();
    options.set(i, (label, tally));
    assert(option_views(options@) =~= with_tally(option_views(old(options)@), i as int, tally as nat));
}

/// The poll after a voter who holds `prior` votes for `vote`. The poll must
/// have the option and its tallies must be able to take the vote, which
/// `can_count` tells.
pub fn recount(poll: &Poll, prior: Option<&Ballot>, vote: &str) -> (next: Poll)
    requires
        has_option(poll@.options, vote@),
        countable(poll@.options, ballot_view(prior), vote@),
    ensures
        next@ == (PollView {
            options: recounted(poll@.options, ballot_view(prior), vote@),
            ..poll@
        }),
{
    let mut options = clone_options(&poll.options);
    let to = find_option(&options, vote);
    proof {
        lemma_position(poll@.options, vote@, to.unwrap() as int);
    }
    let to = to.unwrap();
    match prior {
        Some(b) => {
            if !same_text(b.option.as_str(), vote) {
                let from = find_option(&options, b.option.as_str());
                proof {
                    lemma_position(poll@.options, b@, from.unwrap() as int);
                }
                let from = from.unwrap();
                assert(option_views(options@)[from as int].1 == options[from as int].1);
                let less = options[from].1 - 1;
                set_tally(&mut options, from, less);
                assert(option_views(options@)[to as int].1 == options[to as int].1);
                let more = options[to].1 + 1;
                set_tally(&mut options, to, more);
            }
        },
        None => {
            assert(option_views(options@)[to as int].1 == options[to as int].1);
            let more = options[to].1 + 1;
            set_tally(&mut options, to, more);
        },
    }
    Poll {
        creator: poll.creator.clone(),
        question: poll.question.clone(),
        options,
        closed: poll.closed,
    }
}

/// Casts a vote: the poll and the ballot to write back, or why the vote is
/// refused. The caller hands in the poll and the voter's ballot as it read
/// them. Where the vote is not refused the tallies must be able to take it; a
/// caller that cannot know this calls `checked_cast_vote`.
pub fn cast_vote(poll: Option<&Poll>, prior: Option<&Ballot>, vote: &str) -> (r: Result<
    (Poll, Ballot),
    ContractError,
>)
    requires
        poll matches Some(p) ==> has_option(p@.options, vote@) ==> countable(
            p@.options,
            ballot_view(prior),
            vote@,
        ),
    ensures
        match voted(poll_view(poll), ballot_view(prior), vote@) {
            Ok(next) => r matches Ok((p, b)) && p@ == next && b@ == vote@,
            Err(e) => r matches Err(f) && f == e,
        },
{
    match vote_refusal(poll, vote) {
        Some(e) => Err(e),
        None => {
            let p = poll.unwrap();
            Ok((recount(p, prior, vote), Ballot { option: vote.to_owned() }))
        },
    }
}

/// Casts a vote where the records allow it. The answer is `None` where the
/// vote would be accepted but the tallies cannot take it: the voter's earlier
/// ballot is not counted in the poll, or a tally is at the largest that fits.
/// Records that a ledger keeps in agreement never give that answer.
pub fn checked_cast_vote(poll: Option<&Poll>, prior: Option<&Ballot>, vote: &str) -> (r: Option<
    Result<(Poll, Ballot), ContractError>,
>)
    ensures
        match voted(poll_view(poll), ballot_view(prior), vote@) {
            Err(e) => r matches Some(Err(f)) && f == e,
            Ok(next) => {
                if countable(poll_view(poll)->0.options, ballot_view(prior), vote@) {
                    r matches Some(Ok((p, b))) && p@ == next && b@ == vote@
                } else {
                    r is None
                }
            },
        },
{
    match vote_refusal(poll, vote) {
        Some(e) => Some(Err(e)),
        None => {
            let p = poll.unwrap();
            if can_count(p, prior, vote) {
                Some(cast_vote(poll, prior, vote))
            } else {
                None
            }
        },
    }
}

/// Closes a poll: the poll to write back, or why closing is refused.
pub fn close(poll: Option<&Poll>) -> (r: Result<Poll, ContractError>)
    ensures
        match closed(poll_view(poll)) {
            Ok(next) => r matches Ok(p) && p@ == next,
            Err(e) => r matches Err(f) && f == e,
        },
{
    match poll {
        None => Err(ContractError::NoPoll {  }),
        Some(p) => Ok(
            Poll {
                creator: p.creator.clone(),
                question: p.question.clone(),
                options: clone_options(&p.options),
                closed: true,
            },
        ),
    }
}

/// Adds an administrator on behalf of `sender`: the list to write back, or
/// why the addition is refused.
pub fn grant_admin(config: &Config, sender: &str, addmin: String) -> (r: Result<
    Config,
    ContractError,
>)
    ensures
        match admin_added(config@, sender@, addmin@) {
            Ok(admins) => r matches Ok(c) && c@ == admins,
            Err(e) => r matches Err(f) && f == e,
        },
{
    if !is_root_admin(config, sender) {
        return Err(ContractError::Unauthorized {  });
    }
    let mut admins = clone_texts(&config.admins);
    admins.push(addmin);
    let next = Config { admins };
    assert(next@ =~= config@.push(addmin@));
    Ok(next)
}

} // verus!
