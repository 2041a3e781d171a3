//! The ledger and its operations.
//!
//! A `Ledger` holds the administrators, the polls and the ballots. Commands
//! change it and report what they did; questions read it. Every command
//! either takes effect as a whole or is refused and changes nothing.

use crate::agreement::{
    lemma_add_admin_consistent, lemma_close_poll_consistent, lemma_create_poll_consistent,
    lemma_initial_consistent, lemma_total_tally, lemma_vote_consistent, lemma_vote_countable,
};
use crate::context::{MessageInfo, Response, coin_views};
use crate::error::ContractError;
use crate::model;
use crate::model::{
    LedgerView, ballot_at, ballots_of, consistent, initial, listing, lists, payment_ok, poll_at,
    polls_in_order, total_tally,
};
use crate::msg::{
    AllPollsResponse, ExecuteMsg, PollResponse, QueryMsg, QueryResponse, VoteResponse,
};
use crate::report::{
    admin_added, admin_added_report, instantiated, instantiated_report, poll_closed,
    poll_closed_report, poll_created, poll_created_report, vote_counted, vote_counted_report,
};
use crate::rules::{check_payment, close, grant_admin, open_poll, recount, vote_refusal};
use crate::state::{Ballot, Config, poll_views, text_views};
use crate::store::{BallotStore, PollStore};
use crate::text::lemma_ascending_unique;
use vstd::prelude::*;

verus! {

/// The administrators, the polls and the ballots.
pub struct Ledger {
    config: Config,
    polls: PollStore,
    ballots: BallotStore,
}

impl View for Ledger {
    type V = LedgerView;

    closed spec fn view(&self) -> LedgerView {
        LedgerView { admins: self.config@, polls: self.polls@, ballots: self.ballots@ }
    }
}

/// What a command does to the ledger, or why it is refused. The payment is
/// looked at before anything else.
pub open spec fn executed(s: LedgerView, info: MessageInfo, msg: ExecuteMsg) -> Result<
    LedgerView,
    ContractError,
> {
    if !payment_ok(coin_views(info.funds@)) {
        Err(ContractError::BadDenom {  })
    } else {
        match msg {
            ExecuteMsg::CreatePoll { poll_id, question, options } => model::create_poll(
                s,
                info.sender@,
                poll_id@,
                question@,
                text_views(options@),
            ),
            ExecuteMsg::Vote { poll_id, vote: label } => model::vote(s, info.sender@, poll_id@, label@),
            ExecuteMsg::ClosePoll { poll_id } => model::close_poll(s, poll_id@),
            ExecuteMsg::AddAdmin { addmin } => model::add_admin(s, info.sender@, addmin@),
        }
    }
}

/// What a command reports when it succeeds.
pub open spec fn report_of(msg: ExecuteMsg) -> Seq<(Seq<char>, Seq<char>)> {
    match msg {
        ExecuteMsg::CreatePoll { .. } => poll_created_report(),
        ExecuteMsg::Vote { vote: label, .. } => vote_counted_report(label@),
        ExecuteMsg::ClosePoll { .. } => poll_closed_report(),
        ExecuteMsg::AddAdmin { .. } => admin_added_report(),
    }
}

impl Ledger {
    /// The stores are in order, and tallies and ballots agree.
    pub closed spec fn wf(&self) -> bool {
        &&& self.polls.wf()
        &&& self.ballots.wf()
        &&& consistent(self@)
    }

    /// In a well-formed ledger tallies and ballots agree.
    pub proof fn lemma_consistent(&self)
        requires
            self.wf(),
        ensures
            consistent(self@),
    {
    }

    /// In a well-formed ledger the tallies of every poll add up to the number
    /// of ballots cast in it.
    pub proof fn lemma_tallies_count_ballots(&self, poll_id: Seq<char>)
        requires
            self.wf(),
            self@.polls.contains_key(poll_id),
        ensures
            total_tally(self@.polls[poll_id].options) == ballots_of(self@, poll_id).len(),
    {
        lemma_total_tally(self@, poll_id);
    }

    /// The administrators.
    pub fn config(&self) -> (config: &Config)
        ensures
            config@ == self@.admins,
    {
        &self.config
    }
}

/// Sets up a ledger with `admin` as its only administrator. `admin` is the
/// address that the host validated.
pub fn instantiate(admin: String) -> (r: (Ledger, Response))
    ensures
        r.0.wf(),
        r.0@ == initial(admin@),
        r.1@ == instantiated_report(admin@),
{
    let response = instantiated(admin.as_str());
    let mut admins: Vec<String> = Vec::new();
    admins.push(admin);
    let ledger = Ledger {
        config: Config { admins },
        polls: PollStore::new(),
        ballots: BallotStore::new(),
    };
    proof {
        assert(ledger@.admins =~= seq![admin@]);
        lemma_initial_consistent(admin@);
    }
    (ledger, response)
}

/// Carries out a command, once the payment that came with it is found to
/// meet the fee.
pub fn execute(ledger: &mut Ledger, info: MessageInfo, msg: ExecuteMsg) -> (r: Result<
    Response,
    ContractError,
>)
    requires
        old(ledger).wf(),
    ensures
        final(ledger).wf(),
        match executed(old(ledger)@, info, msg) {
            Ok(next) => r matches Ok(response) && response@ == report_of(msg) && final(ledger)@
                == next,
            Err(e) => r matches Err(f) && f == e && final(ledger)@ == old(ledger)@,
        },
{
    if let Err(e) = check_payment(&info.funds) {
        return Err(e);
    }
    match msg {
        ExecuteMsg::CreatePoll { poll_id, question, options } => execute_create_poll(
            ledger,
            info,
            poll_id,
            question,
            options,
        ),
        ExecuteMsg::Vote { poll_id, vote } => execute_vote(ledger, info, poll_id, vote),
        ExecuteMsg::ClosePoll { poll_id } => close_poll(ledger, info, poll_id),
        ExecuteMsg::AddAdmin { addmin } => add_admin(ledger, info, addmin),
    }
}

/// Opens a poll with every tally at zero. Only an administrator may, with at
/// most `MAX_OPTIONS` options, and under an identifier that no poll has yet: a
/// poll is never replaced.
pub fn execute_create_poll(
    ledger: &mut Ledger,
    info: MessageInfo,
    poll_id: String,
    question: String,
    options: Vec<String>,
) -> (r: Result<Response, ContractError>)
    requires
        old(ledger).wf(),
    ensures
        final(ledger).wf(),
        match model::create_poll(old(ledger)@, info.sender@, poll_id@, question@, text_views(options@)) {
            Ok(next) => r matches Ok(response) && response@ == poll_created_report()
                && final(ledger)@ == next,
            Err(e) => r matches Err(f) && f == e && final(ledger)@ == old(ledger)@,
        },
{
    let taken = ledger.polls.contains(poll_id.as_str());
    match open_poll(&ledger.config, info.sender.as_str(), taken, question, options) {
        Err(e) => Err(e),
        Ok(poll) => {
            ledger.polls.put(poll_id, poll);
            proof {
                lemma_create_poll_consistent(
                    old(ledger)@,
                    info.sender@,
                    poll_id@,
                    question@,
                    text_views(options@),
                );
            }
            Ok(poll_created())
        },
    }
}

/// Casts the caller's vote in a poll that exists, is open and has the chosen
/// option. The caller's earlier ballot in that poll, if any, is replaced and
/// no longer counted.
pub fn execute_vote(ledger: &mut Ledger, info: MessageInfo, poll_id: String, vote: String) -> (r:
    Result<Response, ContractError>)
    requires
        old(ledger).wf(),
    ensures
        final(ledger).wf(),
        match model::vote(old(ledger)@, info.sender@, poll_id@, vote@) {
            Ok(next) => r matches Ok(response) && response@ == vote_counted_report(vote@)
                && final(ledger)@ == next,
            Err(e) => r matches Err(f) && f == e && final(ledger)@ == old(ledger)@,
        },
{
    if let Some(e) = vote_refusal(ledger.polls.get(poll_id.as_str()), vote.as_str()) {
        return Err(e);
    }
    let prior: Option<Ballot> = match ledger.ballots.get(info.sender.as_str(), poll_id.as_str()) {
        Some(ballot) => Some(ballot.clone()),
        None => None,
    };
    ledger.ballots.put(info.sender.clone(), poll_id.clone(), Ballot { option: vote.clone() });
    proof {
        ledger.ballots.lemma_size();
        lemma_vote_countable(old(ledger)@, info.sender@, poll_id@, vote@);
    }
    let next = match ledger.polls.get(poll_id.as_str()) {
        Some(poll) => recount(poll, prior.as_ref(), vote.as_str()),
        None => {
            proof {
                assert(false);
            }
            return Err(ContractError::NoPoll {  });
        },
    };
    ledger.polls.put(poll_id, next);
    proof {
        lemma_vote_consistent(old(ledger)@, info.sender@, poll_id@, vote@);
    }
    Ok(vote_counted(vote.as_str()))
}

/// Closes a poll that exists. Anyone may; closing a closed poll changes nothing.
pub fn close_poll(ledger: &mut Ledger, _info: MessageInfo, poll_id: String) -> (r: Result<
    Response,
    ContractError,
>)
    requires
        old(ledger).wf(),
    ensures
        final(ledger).wf(),
        match model::close_poll(old(ledger)@, poll_id@) {
            Ok(next) => r matches Ok(response) && response@ == poll_closed_report()
                && final(ledger)@ == next,
            Err(e) => r matches Err(f) && f == e && final(ledger)@ == old(ledger)@,
        },
{
    match close(ledger.polls.get(poll_id.as_str())) {
        Err(e) => Err(e),
        Ok(poll) => {
            ledger.polls.put(poll_id, poll);
            proof {
                lemma_close_poll_consistent(old(ledger)@, poll_id@);
            }
            Ok(poll_closed())
        },
    }
}

/// Adds an administrator at the end of the list. Only the root administrator may.
pub fn add_admin(ledger: &mut Ledger, info: MessageInfo, addmin: String) -> (r: Result<
    Response,
    ContractError,
>)
    requires
        old(ledger).wf(),
    ensures
        final(ledger).wf(),
        match model::add_admin(old(ledger)@, info.sender@, addmin@) {
            Ok(next) => r matches Ok(response) && response@ == admin_added_report()
                && final(ledger)@ == next,
            Err(e) => r matches Err(f) && f == e && final(ledger)@ == old(ledger)@,
        },
{
    match grant_admin(&ledger.config, info.sender.as_str(), addmin) {
        Err(e) => Err(e),
        Ok(config) => {
            ledger.config = config;
            proof {
                lemma_add_admin_consistent(old(ledger)@, info.sender@, addmin@);
            }
            Ok(admin_added())
        },
    }
}

/// Answers a question about the ledger.
pub fn query(ledger: &Ledger, msg: QueryMsg) -> (r: QueryResponse)
    requires
        ledger.wf(),
    ensures
        match msg {
            QueryMsg::AllPolls {  } => r matches QueryResponse::AllPolls(all) && all@
                == polls_in_order(ledger@.polls) && lists(listing(ledger@.polls), ledger@.polls),
            QueryMsg::Poll { poll_id } => r matches QueryResponse::Poll(one) && one@ == poll_at(
                ledger@,
                poll_id@,
            ),
            QueryMsg::Vote { address, poll_id } => r matches QueryResponse::Vote(one) && one@
                == ballot_at(ledger@, address@, poll_id@),
        },
{
    match msg {
        QueryMsg::AllPolls {  } => QueryResponse::AllPolls(query_all_polls(ledger)),
        QueryMsg::Poll { poll_id } => QueryResponse::Poll(query_poll(ledger, poll_id)),
        QueryMsg::Vote { address, poll_id } => QueryResponse::Vote(
            query_vote(ledger, address, poll_id),
        ),
    }
}

/// Every poll, in ascending order of identifier.
pub fn query_all_polls(ledger: &Ledger) -> (r: AllPollsResponse)
    requires
        ledger.wf(),
    ensures
        lists(listing(ledger@.polls), ledger@.polls),
        r@ == polls_in_order(ledger@.polls),
{
    let polls = ledger.polls.list();
    proof {
        ledger.polls.lemma_listing();
        let ids = ledger.polls.ids();
        assert(lists(ids, ledger@.polls));
        lemma_ascending_unique(ids, listing(ledger@.polls));
        assert(poll_views(polls@) =~= polls_in_order(ledger@.polls));
    }
    AllPollsResponse { polls }
}

/// The poll under `poll_id`, or nothing where there is none.
pub fn query_poll(ledger: &Ledger, poll_id: String) -> (r: PollResponse)
    requires
        ledger.wf(),
    ensures
        r@ == poll_at(ledger@, poll_id@),
{
    let poll = match ledger.polls.get(poll_id.as_str()) {
        Some(poll) => Some(poll.clone()),
        None => None,
    };
    PollResponse { poll }
}

/// The ballot of `address` in the poll `poll_id`, or nothing where there is
/// none. `address` is the voter's address as the host validated it.
pub fn query_vote(ledger: &Ledger, address: String, poll_id: String) -> (r: VoteResponse)
    requires
        ledger.wf(),
    ensures
        r@ == ballot_at(ledger@, address@, poll_id@),
{
    let vote = match ledger.ballots.get(address.as_str(), poll_id.as_str()) {
        Some(ballot) => Some(ballot.clone()),
        None => None,
    };
    VoteResponse { vote }
}

} // verus!
