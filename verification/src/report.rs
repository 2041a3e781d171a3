//! What each operation reports when it succeeds.

use crate::context::Response;
use vstd::prelude::*;

verus! {

/// The report of setting the ledger up with `admin` as its first administrator.
pub open spec fn instantiated_report(admin: Seq<char>) -> Seq<(Seq<char>, Seq<char>)> {
    seq![("action"@, "instantiate"@), ("admin"@, admin)]
}

/// The report of opening a poll.
pub open spec fn poll_created_report() -> Seq<(Seq<char>, Seq<char>)> {
    seq![("action"@, "create poll"@)]
}

/// The report of a vote for `label`.
pub open spec fn vote_counted_report(label: Seq<char>) -> Seq<(Seq<char>, Seq<char>)> {
    seq![("action"@, "vote on poll"@), ("on:"@, label)]
}

/// The report of closing a poll.
pub open spec fn poll_closed_report() -> Seq<(Seq<char>, Seq<char>)> {
    seq![("action"@, "closed poll"@)]
}

/// The report of adding an administrator: it is empty.
pub open spec fn admin_added_report() -> Seq<(Seq<char>, Seq<char>)> {
    Seq::empty()
}

/// Reports that the ledger was set up with `admin` as its first administrator.
pub fn instantiated(admin: &str) -> (response: Response)
    ensures
        response@ == instantiated_report(admin@),
{
    let response = Response::new().add_attribute("action", "instantiate").add_attribute(
        "admin",
        admin,
    );
    assert(response@ =~= instantiated_report(admin@));
    response
}

/// Reports that a poll was opened.
pub fn poll_created() -> (response: Response)
    ensures
        response@ == poll_created_report(),
{
    let response = Response::new().add_attribute("action", "create poll");
    assert(response@ =~= poll_created_report());
    response
}

/// Reports that a vote for `label` was counted.
pub fn vote_counted(label: &str) -> (response: Response)
    ensures
        response@ == vote_counted_report(label@),
{
    let response = Response::new().add_attribute("action", "vote on poll").add_attribute(
        "on:",
        label,
    );
    assert(response@ =~= vote_counted_report(label@));
    response
}

/// Reports that a poll was closed.
pub fn poll_closed() -> (response: Response)
    ensures
        response@ == poll_closed_report(),
{
    let response = Response::new().add_attribute("action", "closed poll");
    assert(response@ =~= poll_closed_report());
    response
}

/// Reports that an administrator was added.
pub fn admin_added() -> (response: Response)
    ensures
        response@ == admin_added_report(),
{
    Response::new()
}

} // verus!
