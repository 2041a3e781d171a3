//! The commands and questions that the ledger answers, and the shapes of its
//! answers.

use crate::state::{Ballot, Poll, PollView, poll_views};
use vstd::prelude::*;

verus! {

/// Sets the ledger up.
#[derive(Debug, PartialEq)]
pub struct InstantiateMsg {
    /// The first administrator. Where none is named, the caller is it.
    pub admin: Option<String>,
}

/// A command that changes the ledger.
#[derive(Debug, PartialEq)]
pub enum ExecuteMsg {
    CreatePoll { poll_id: String, question: String, options: Vec<String> },
    Vote { poll_id: String, vote: String },
    ClosePoll { poll_id: String },
    AddAdmin { addmin: String },
}

/// A question about the ledger. It changes nothing.
#[derive(Debug, PartialEq)]
pub enum QueryMsg {
    AllPolls {},
    Poll { poll_id: String },
    Vote { address: String, poll_id: String },
}

/// Every poll, in ascending order of identifier.
#[derive(Debug, PartialEq)]
pub struct AllPollsResponse {
    pub polls: Vec<Poll>,
}

/// One poll, or nothing where the identifier names none.
#[derive(Debug, PartialEq)]
pub struct PollResponse {
    pub poll: Option<Poll>,
}

/// One voter's ballot in one poll, or nothing where there is none.
#[derive(Debug, PartialEq)]
pub struct VoteResponse {
    pub vote: Option<Ballot>,
}

impl View for AllPollsResponse {
    type V = Seq<PollView>;

    open spec fn view(&self) -> Seq<PollView> {
        poll_views(self.polls@)
    }
}

impl View for PollResponse {
    type V = Option<PollView>;

    open spec fn view(&self) -> Option<PollView> {
        match self.poll {
            Some(poll) => Some(poll@),
            None => None,
        }
    }
}

impl View for VoteResponse {
    type V = Option<Seq<char>>;

    open spec fn view(&self) -> Option<Seq<char>> {
        match self.vote {
            Some(ballot) => Some(ballot@),
            None => None,
        }
    }
}

/// The answer to a question, in the shape that the question calls for.
#[derive(Debug, PartialEq)]
pub enum QueryResponse {
    AllPolls(AllPollsResponse),
    Poll(PollResponse),
    Vote(VoteResponse),
}

} // verus!
