use cw_starter::context::{attr, Coin, MessageInfo};
use cw_starter::contract::{
    add_admin, close_poll, execute, execute_create_poll, execute_vote, instantiate, query,
    query_all_polls, query_poll, query_vote, Ledger,
};
use cw_starter::msg::{ExecuteMsg, QueryMsg, QueryResponse};
use cw_starter::state::Poll;
use cw_starter::ContractError;

fn paid(sender: &str) -> MessageInfo {
    MessageInfo { sender: sender.to_string(), funds: vec![Coin::new(1, "ukuji")] }
}

fn ledger_of(admin: &str) -> Ledger {
    instantiate(admin.to_string()).0
}

fn labels(names: &[&str]) -> Vec<String> {
    names.iter().map(|n| n.to_string()).collect()
}

fn create(ledger: &mut Ledger, sender: &str, id: &str, names: &[&str]) -> Result<(), ContractError> {
    let msg = ExecuteMsg::CreatePoll {
        poll_id: id.to_string(),
        question: "Q".to_string(),
        options: labels(names),
    };
    execute(ledger, paid(sender), msg).map(|_| ())
}

fn cast(ledger: &mut Ledger, sender: &str, id: &str, label: &str) -> Result<(), ContractError> {
    let msg = ExecuteMsg::Vote { poll_id: id.to_string(), vote: label.to_string() };
    execute(ledger, paid(sender), msg).map(|_| ())
}

fn shut(ledger: &mut Ledger, sender: &str, id: &str) -> Result<(), ContractError> {
    execute(ledger, paid(sender), ExecuteMsg::ClosePoll { poll_id: id.to_string() }).map(|_| ())
}

fn poll(ledger: &Ledger, id: &str) -> Poll {
    query_poll(ledger, id.to_string()).poll.unwrap()
}

fn tallies(ledger: &Ledger, id: &str) -> Vec<u64> {
    poll(ledger, id).options.iter().map(|o| o.1).collect()
}

fn choice(ledger: &Ledger, voter: &str, id: &str) -> Option<String> {
    query_vote(ledger, voter.to_string(), id.to_string()).vote.map(|b| b.option)
}

#[test]
fn a_new_ledger_has_one_admin_and_nothing_else() {
    let (ledger, res) = instantiate("root".to_string());
    assert_eq!(ledger.config().admins, vec!["root".to_string()]);
    assert!(query_all_polls(&ledger).polls.is_empty());
    assert_eq!(res.attributes, vec![attr("action", "instantiate"), attr("admin", "root")]);
}

#[test]
fn scenario_create_vote_close_vote() {
    let mut ledger = ledger_of("caller");
    assert!(create(&mut ledger, "caller", "p1", &["A", "B", "C"]).is_ok());
    assert_eq!(
        poll(&ledger, "p1"),
        Poll {
            creator: "caller".to_string(),
            question: "Q".to_string(),
            options: vec![("A".to_string(), 0), ("B".to_string(), 0), ("C".to_string(), 0)],
            closed: false,
        }
    );
    assert!(cast(&mut ledger, "caller", "p1", "B").is_ok());
    assert_eq!(tallies(&ledger, "p1"), vec![0, 1, 0]);
    assert!(shut(&mut ledger, "caller", "p1").is_ok());
    assert!(poll(&ledger, "p1").closed);
    assert!(matches!(cast(&mut ledger, "caller", "p1", "A"), Err(ContractError::ClosedPoll {})));
    assert_eq!(tallies(&ledger, "p1"), vec![0, 1, 0]);
    assert_eq!(choice(&ledger, "caller", "p1"), Some("B".to_string()));
}

#[test]
fn a_poll_never_created_is_absent() {
    let mut ledger = ledger_of("root");
    assert!(query_poll(&ledger, "nothing".to_string()).poll.is_none());
    create(&mut ledger, "root", "p1", &["A"]).unwrap();
    assert!(query_poll(&ledger, "p2".to_string()).poll.is_none());
    assert!(query_poll(&ledger, "p".to_string()).poll.is_none());
    assert!(query_poll(&ledger, "".to_string()).poll.is_none());
    match query(&ledger, QueryMsg::Poll { poll_id: "p10".to_string() }) {
        QueryResponse::Poll(one) => assert!(one.poll.is_none()),
        other => panic!("unexpected answer: {other:?}"),
    }
}

#[test]
fn a_ballot_never_cast_is_absent() {
    let mut ledger = ledger_of("root");
    create(&mut ledger, "root", "p1", &["A"]).unwrap();
    create(&mut ledger, "root", "p2", &["A"]).unwrap();
    cast(&mut ledger, "alice", "p1", "A").unwrap();
    assert_eq!(choice(&ledger, "alice", "p1"), Some("A".to_string()));
    assert_eq!(choice(&ledger, "alice", "p2"), None);
    assert_eq!(choice(&ledger, "bob", "p1"), None);
    assert_eq!(choice(&ledger, "alice", "p3"), None);
}

#[test]
fn tallies_add_up_to_the_ballots() {
    let mut ledger = ledger_of("root");
    create(&mut ledger, "root", "p1", &["A", "B", "C"]).unwrap();
    create(&mut ledger, "root", "p2", &["X", "Y"]).unwrap();
    let voters = ["v1", "v2", "v3", "v4", "v5"];
    let moves = [
        ("v1", "p1", "A"),
        ("v2", "p1", "A"),
        ("v3", "p1", "B"),
        ("v1", "p2", "X"),
        ("v2", "p1", "C"),
        ("v4", "p1", "C"),
        ("v3", "p1", "B"),
        ("v1", "p1", "C"),
        ("v5", "p2", "Y"),
        ("v5", "p2", "X"),
    ];
    for (voter, id, label) in moves {
        cast(&mut ledger, voter, id, label).unwrap();
        for id in ["p1", "p2"] {
            let ballots = voters.iter().filter(|v| choice(&ledger, v, id).is_some()).count();
            let sum: u64 = tallies(&ledger, id).iter().sum();
            assert_eq!(sum, ballots as u64);
            for (label, tally) in poll(&ledger, id).options {
                let named = voters
                    .iter()
                    .filter(|v| choice(&ledger, v, id).as_deref() == Some(label.as_str()))
                    .count();
                assert_eq!(tally, named as u64);
            }
        }
    }
    assert_eq!(tallies(&ledger, "p1"), vec![0, 1, 3]);
    assert_eq!(tallies(&ledger, "p2"), vec![2, 0]);
}

#[test]
fn closing_twice_is_closing_once() {
    let mut ledger = ledger_of("root");
    create(&mut ledger, "root", "p1", &["A", "B"]).unwrap();
    cast(&mut ledger, "alice", "p1", "B").unwrap();
    let first = close_poll(&mut ledger, paid("root"), "p1".to_string()).unwrap();
    let after_first = poll(&ledger, "p1");
    let second = close_poll(&mut ledger, paid("root"), "p1".to_string()).unwrap();
    let after_second = poll(&ledger, "p1");
    assert!(after_first.closed);
    assert!(after_second.closed);
    assert_eq!(after_first, after_second);
    assert_eq!(first.attributes, vec![attr("action", "closed poll")]);
    assert_eq!(second.attributes, vec![attr("action", "closed poll")]);
    assert_eq!(tallies(&ledger, "p1"), vec![0, 1]);
}

#[test]
fn anyone_may_close_a_poll() {
    let mut ledger = ledger_of("root");
    create(&mut ledger, "root", "p1", &["A"]).unwrap();
    assert!(shut(&mut ledger, "stranger", "p1").is_ok());
    assert!(poll(&ledger, "p1").closed);
}

#[test]
fn closing_a_missing_poll_is_refused() {
    let mut ledger = ledger_of("root");
    assert!(matches!(shut(&mut ledger, "root", "p1"), Err(ContractError::NoPoll {})));
    assert!(query_all_polls(&ledger).polls.is_empty());
}

#[test]
fn a_recast_moves_one_vote() {
    let mut ledger = ledger_of("root");
    create(&mut ledger, "root", "p1", &["A", "B", "C"]).unwrap();
    cast(&mut ledger, "bob", "p1", "A").unwrap();
    cast(&mut ledger, "carol", "p1", "B").unwrap();
    assert_eq!(tallies(&ledger, "p1"), vec![1, 1, 0]);
    cast(&mut ledger, "alice", "p1", "A").unwrap();
    assert_eq!(tallies(&ledger, "p1"), vec![2, 1, 0]);
    cast(&mut ledger, "alice", "p1", "B").unwrap();
    assert_eq!(tallies(&ledger, "p1"), vec![1, 2, 0]);
    assert_eq!(choice(&ledger, "alice", "p1"), Some("B".to_string()));
    assert_eq!(choice(&ledger, "bob", "p1"), Some("A".to_string()));
    assert_eq!(choice(&ledger, "carol", "p1"), Some("B".to_string()));
}

#[test]
fn repeating_a_vote_counts_once() {
    let mut ledger = ledger_of("root");
    create(&mut ledger, "root", "p1", &["A", "B"]).unwrap();
    cast(&mut ledger, "alice", "p1", "A").unwrap();
    cast(&mut ledger, "alice", "p1", "A").unwrap();
    cast(&mut ledger, "alice", "p1", "A").unwrap();
    assert_eq!(tallies(&ledger, "p1"), vec![1, 0]);
    assert_eq!(choice(&ledger, "alice", "p1"), Some("A".to_string()));
}

#[test]
fn a_vote_reports_the_chosen_option() {
    let mut ledger = ledger_of("root");
    create(&mut ledger, "root", "p1", &["A", "B"]).unwrap();
    let res = execute_vote(&mut ledger, paid("alice"), "p1".to_string(), "B".to_string()).unwrap();
    assert_eq!(res.attributes, vec![attr("action", "vote on poll"), attr("on:", "B")]);
}

#[test]
fn votes_in_one_poll_leave_the_others_alone() {
    let mut ledger = ledger_of("root");
    create(&mut ledger, "root", "p1", &["A", "B"]).unwrap();
    create(&mut ledger, "root", "p2", &["A", "B"]).unwrap();
    cast(&mut ledger, "alice", "p1", "A").unwrap();
    cast(&mut ledger, "alice", "p2", "B").unwrap();
    cast(&mut ledger, "alice", "p1", "B").unwrap();
    assert_eq!(tallies(&ledger, "p1"), vec![0, 1]);
    assert_eq!(tallies(&ledger, "p2"), vec![0, 1]);
    assert_eq!(choice(&ledger, "alice", "p2"), Some("B".to_string()));
}

#[test]
fn voting_on_a_missing_poll_is_refused() {
    let mut ledger = ledger_of("root");
    create(&mut ledger, "root", "p1", &["A"]).unwrap();
    assert!(matches!(cast(&mut ledger, "alice", "p2", "A"), Err(ContractError::NoPoll {})));
    assert_eq!(choice(&ledger, "alice", "p2"), None);
    assert_eq!(tallies(&ledger, "p1"), vec![0]);
}

#[test]
fn voting_for_an_unknown_option_is_refused() {
    let mut ledger = ledger_of("root");
    create(&mut ledger, "root", "p1", &["A", "B"]).unwrap();
    cast(&mut ledger, "alice", "p1", "A").unwrap();
    assert!(matches!(cast(&mut ledger, "alice", "p1", "Z"), Err(ContractError::Unauthorized {})));
    assert!(matches!(cast(&mut ledger, "bob", "p1", "a"), Err(ContractError::Unauthorized {})));
    assert!(matches!(cast(&mut ledger, "bob", "p1", ""), Err(ContractError::Unauthorized {})));
    assert_eq!(tallies(&ledger, "p1"), vec![1, 0]);
    assert_eq!(choice(&ledger, "alice", "p1"), Some("A".to_string()));
    assert_eq!(choice(&ledger, "bob", "p1"), None);
}

#[test]
fn a_closed_poll_is_checked_before_the_option() {
    let mut ledger = ledger_of("root");
    create(&mut ledger, "root", "p1", &["A"]).unwrap();
    shut(&mut ledger, "root", "p1").unwrap();
    assert!(matches!(cast(&mut ledger, "alice", "p1", "Z"), Err(ContractError::ClosedPoll {})));
}

#[test]
fn votes_for_a_repeated_label_go_to_the_first() {
    let mut ledger = ledger_of("root");
    create(&mut ledger, "root", "p1", &["A", "B", "A"]).unwrap();
    cast(&mut ledger, "alice", "p1", "A").unwrap();
    cast(&mut ledger, "bob", "p1", "A").unwrap();
    assert_eq!(tallies(&ledger, "p1"), vec![2, 0, 0]);
    cast(&mut ledger, "bob", "p1", "B").unwrap();
    assert_eq!(tallies(&ledger, "p1"), vec![1, 1, 0]);
}

#[test]
fn an_outsider_cannot_create_a_poll() {
    let mut ledger = ledger_of("root");
    let res = execute_create_poll(
        &mut ledger,
        paid("stranger"),
        "p1".to_string(),
        "Q".to_string(),
        labels(&["A"]),
    );
    assert!(matches!(res, Err(ContractError::Unauthorized {})));
    assert!(matches!(
        create(&mut ledger, "stranger", "p1", &["A"]),
        Err(ContractError::Unauthorized {})
    ));
    // An outsider is refused as such even where the poll could not be opened anyway.
    let many = ["1", "2", "3", "4", "5", "6", "7", "8", "9", "10", "11"];
    assert!(matches!(
        create(&mut ledger, "stranger", "p1", &many),
        Err(ContractError::Unauthorized {})
    ));
    assert!(query_all_polls(&ledger).polls.is_empty());
}

#[test]
fn only_the_root_admin_adds_admins() {
    let mut ledger = ledger_of("root");
    let res = add_admin(&mut ledger, paid("stranger"), "stranger".to_string());
    assert!(matches!(res, Err(ContractError::Unauthorized {})));
    assert_eq!(ledger.config().admins, vec!["root".to_string()]);

    let res = add_admin(&mut ledger, paid("root"), "second".to_string()).unwrap();
    assert!(res.attributes.is_empty());
    assert_eq!(ledger.config().admins, vec!["root".to_string(), "second".to_string()]);

    // A later administrator may open polls but not add administrators.
    assert!(create(&mut ledger, "second", "p1", &["A"]).is_ok());
    let res = add_admin(&mut ledger, paid("second"), "third".to_string());
    assert!(matches!(res, Err(ContractError::Unauthorized {})));
    assert_eq!(ledger.config().admins, vec!["root".to_string(), "second".to_string()]);
}

#[test]
fn an_admin_can_be_added_twice() {
    let mut ledger = ledger_of("root");
    add_admin(&mut ledger, paid("root"), "second".to_string()).unwrap();
    add_admin(&mut ledger, paid("root"), "second".to_string()).unwrap();
    add_admin(&mut ledger, paid("root"), "root".to_string()).unwrap();
    assert_eq!(
        ledger.config().admins,
        vec!["root".to_string(), "second".to_string(), "second".to_string(), "root".to_string()]
    );
}

#[test]
fn ten_options_pass_and_eleven_do_not() {
    let mut ledger = ledger_of("root");
    let ten = ["1", "2", "3", "4", "5", "6", "7", "8", "9", "10"];
    let eleven = ["1", "2", "3", "4", "5", "6", "7", "8", "9", "10", "11"];
    assert!(create(&mut ledger, "root", "ten", &ten).is_ok());
    assert_eq!(tallies(&ledger, "ten"), vec![0; 10]);
    assert!(matches!(
        create(&mut ledger, "root", "eleven", &eleven),
        Err(ContractError::TooManyOptions {})
    ));
    assert!(query_poll(&ledger, "eleven".to_string()).poll.is_none());
    assert!(create(&mut ledger, "root", "none", &[]).is_ok());
    assert_eq!(tallies(&ledger, "none"), Vec::<u64>::new());
}

#[test]
fn a_poll_is_never_replaced() {
    let mut ledger = ledger_of("root");
    create(&mut ledger, "root", "p1", &["A", "B"]).unwrap();
    cast(&mut ledger, "alice", "p1", "B").unwrap();
    shut(&mut ledger, "root", "p1").unwrap();
    let before = poll(&ledger, "p1");
    assert!(matches!(
        create(&mut ledger, "root", "p1", &["C"]),
        Err(ContractError::PollExists {})
    ));
    assert_eq!(poll(&ledger, "p1"), before);
    assert_eq!(query_all_polls(&ledger).polls.len(), 1);
    // Too many options are reported before the taken identifier.
    let eleven = ["1", "2", "3", "4", "5", "6", "7", "8", "9", "10", "11"];
    assert!(matches!(
        create(&mut ledger, "root", "p1", &eleven),
        Err(ContractError::TooManyOptions {})
    ));
}

#[test]
fn the_fee_is_checked_first() {
    let mut ledger = ledger_of("root");
    let vote = || ExecuteMsg::Vote { poll_id: "missing".to_string(), vote: "A".to_string() };
    let with = |funds: Vec<Coin>| MessageInfo { sender: "stranger".to_string(), funds };

    let res = execute(&mut ledger, with(vec![]), vote());
    assert!(matches!(res, Err(ContractError::BadDenom {})));
    let res = execute(&mut ledger, with(vec![Coin::new(0, "ukuji")]), vote());
    assert!(matches!(res, Err(ContractError::BadDenom {})));
    let res = execute(&mut ledger, with(vec![Coin::new(5, "uusdc")]), vote());
    assert!(matches!(res, Err(ContractError::BadDenom {})));
    let res = execute(&mut ledger, with(vec![Coin::new(5, "UKUJI")]), vote());
    assert!(matches!(res, Err(ContractError::BadDenom {})));
    // Only the first payment counts.
    let res =
        execute(&mut ledger, with(vec![Coin::new(5, "uusdc"), Coin::new(5, "ukuji")]), vote());
    assert!(matches!(res, Err(ContractError::BadDenom {})));
    let res =
        execute(&mut ledger, with(vec![Coin::new(1, "ukuji"), Coin::new(5, "uusdc")]), vote());
    assert!(matches!(res, Err(ContractError::NoPoll {})));
    let res = execute(&mut ledger, with(vec![Coin::new(u128::MAX, "ukuji")]), vote());
    assert!(matches!(res, Err(ContractError::NoPoll {})));

    let create = ExecuteMsg::CreatePoll {
        poll_id: "p1".to_string(),
        question: "Q".to_string(),
        options: vec![],
    };
    let res = execute(&mut ledger, with(vec![]), create);
    assert!(matches!(res, Err(ContractError::BadDenom {})));
    let add = ExecuteMsg::AddAdmin { addmin: "x".to_string() };
    let res = execute(&mut ledger, with(vec![Coin::new(1, "ukuji")]), add);
    assert!(matches!(res, Err(ContractError::Unauthorized {})));
    let close = ExecuteMsg::ClosePoll { poll_id: "p1".to_string() };
    let res = execute(&mut ledger, with(vec![]), close);
    assert!(matches!(res, Err(ContractError::BadDenom {})));
}

#[test]
fn polls_are_listed_in_ascending_order_of_identifier() {
    let mut ledger = ledger_of("root");
    for id in ["m", "b", "zz", "a", "ab", "B", "", "é", "z", "a0"] {
        create(&mut ledger, "root", id, &[id]).unwrap();
    }
    let listed: Vec<String> =
        query_all_polls(&ledger).polls.into_iter().map(|p| p.options[0].0.clone()).collect();
    assert_eq!(listed, vec!["", "B", "a", "a0", "ab", "b", "m", "z", "zz", "é"]);
    let mut sorted = listed.clone();
    sorted.sort();
    assert_eq!(listed, sorted);
    match query(&ledger, QueryMsg::AllPolls {}) {
        QueryResponse::AllPolls(all) => assert_eq!(all.polls.len(), 10),
        other => panic!("unexpected answer: {other:?}"),
    }
}

#[test]
fn commands_rewrite_nothing_that_is_fixed() {
    let mut ledger = ledger_of("root");
    create(&mut ledger, "root", "p1", &["A", "B"]).unwrap();
    create(&mut ledger, "root", "p2", &["X"]).unwrap();
    cast(&mut ledger, "alice", "p1", "A").unwrap();
    shut(&mut ledger, "root", "p2").unwrap();
    let fixed = |l: &Ledger, id: &str| {
        let p = poll(l, id);
        let names: Vec<String> = p.options.iter().map(|o| o.0.clone()).collect();
        (p.creator, p.question, names)
    };
    let p1 = fixed(&ledger, "p1");
    let p2 = poll(&ledger, "p2");

    cast(&mut ledger, "alice", "p1", "B").unwrap();
    cast(&mut ledger, "bob", "p1", "B").unwrap();
    add_admin(&mut ledger, paid("root"), "second".to_string()).unwrap();
    create(&mut ledger, "second", "p0", &["N"]).unwrap();
    shut(&mut ledger, "bob", "p1").unwrap();
    assert!(cast(&mut ledger, "carol", "p2", "X").is_err());
    assert!(create(&mut ledger, "second", "p2", &["Y"]).is_err());

    assert_eq!(fixed(&ledger, "p1"), p1);
    assert_eq!(poll(&ledger, "p2"), p2);
    assert_eq!(ledger.config().admins[0], "root");
    assert_eq!(choice(&ledger, "alice", "p1"), Some("B".to_string()));
    assert_eq!(choice(&ledger, "bob", "p1"), Some("B".to_string()));
    assert_eq!(choice(&ledger, "carol", "p2"), None);
    assert_eq!(query_all_polls(&ledger).polls.len(), 3);
}

#[test]
fn closing_and_voting_keep_the_listing() {
    let mut ledger = ledger_of("root");
    create(&mut ledger, "root", "b", &["A"]).unwrap();
    create(&mut ledger, "root", "a", &["A"]).unwrap();
    create(&mut ledger, "root", "c", &["A"]).unwrap();
    cast(&mut ledger, "alice", "b", "A").unwrap();
    shut(&mut ledger, "root", "a").unwrap();
    let polls = query_all_polls(&ledger).polls;
    assert_eq!(polls.len(), 3);
    assert!(polls[0].closed);
    assert_eq!(polls[1].options, vec![("A".to_string(), 1)]);
    assert!(!polls[2].closed);
    assert_eq!(polls[2].options, vec![("A".to_string(), 0)]);
}
