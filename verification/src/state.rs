//! The records that the ledger keeps, and what each of them stands for.

use vstd::prelude::*;

verus! {

/// The single recorded choice of one voter in one poll.
#[derive(Debug, PartialEq)]
pub struct Ballot {
    /// The label of the chosen option.
    pub option: String,
}

/// A question with its options and their running tallies.
#[derive(Debug, PartialEq)]
pub struct Poll {
    /// The address that opened the poll.
    pub creator: String,
    pub question: String,
    /// Each option's label and the number of ballots that name it, in the
    /// order in which the options were given.
    pub options: Vec<(String, u64)>,
    /// A closed poll takes no votes. A poll never reopens.
    pub closed: bool,
}

/// The administrators, in the order in which they were added. The first is
/// the root administrator.
#[derive(Debug, PartialEq)]
pub struct Config {
    pub admins: Vec<String>,
}

/// What a poll holds, as plain mathematical values.
pub struct PollView {
    pub creator: Seq<char>,
    pub question: Seq<char>,
    pub options: Seq<(Seq<char>, nat)>,
    pub closed: bool,
}

/// The options of a poll as pairs of label and tally.
pub open spec fn option_views(options: Seq<(String, u64)>) -> Seq<(Seq<char>, nat)> {
    Seq::new(options.len(), |i: int| (options[i].0@, options[i].1 as nat))
}

/// A list of strings as a sequence of character sequences.
pub open spec fn text_views(texts: Seq<String>) -> Seq<Seq<char>> {
    Seq::new(texts.len(), |i: int| texts[i]@)
}

/// A list of polls as what each of them holds.
pub open spec fn poll_views(polls: Seq<Poll>) -> Seq<PollView> {
    Seq::new(polls.len(), |i: int| polls[i]@)
}

impl View for Ballot {
    type V = Seq<char>;

    /// A ballot is the label it names.
    open spec fn view(&self) -> Seq<char> {
        self.option@
    }
}

impl View for Poll {
    type V = PollView;

    open spec fn view(&self) -> PollView {
        PollView {
            creator: self.creator@,
            question: self.question@,
            options: option_views(self.options@),
            closed: self.closed,
        }
    }
}

impl View for Config {
    type V = Seq<Seq<char>>;

    /// A configuration is its list of administrators.
    open spec fn view(&self) -> Seq<Seq<char>> {
        text_views(self.admins@)
    }
}

impl Clone for Ballot {
    fn clone(&self) -> (copy: Self)
        ensures
            copy@ == self@,
    {
        Ballot { option: self.option.clone() }
    }
}

/// Copies a list of options.
pub fn clone_options(options: &Vec<(String, u64)>) -> (copy: Vec<(String, u64)>)
    ensures
        option_views(copy@) == option_views(options@),
{
    let mut copy: Vec<(String, u64)> = Vec::new();
    let mut i: usize = 0;
    while i < options.len()
        invariant
            i <= options.len(),
            copy.len() == i,
            forall|j: int| 0 <= j < i ==> copy[j].0@ == options[j].0@ && copy[j].1 == options[j].1,
        decreases options.len() - i,
    {
        copy.push((options[i].0.clone(), options[i].1));
        i = i + 1;
    }
    assert(option_views(copy@) =~= option_views(options@));
    copy
}

/// Copies a list of strings.
pub fn clone_texts(texts: &Vec<String>) -> (copy: Vec<String>)
    ensures
        text_views(copy@) == text_views(texts@),
{
    let mut copy: Vec<String> = Vec::new();
    let mut i: usize = 0;
    while i < texts.len()
        invariant
            i <= texts.len(),
            copy.len() == i,
            forall|j: int| 0 <= j < i ==> copy[j]@ == texts[j]@,
        decreases texts.len() - i,
    {
        copy.push(texts[i].clone());
        i = i + 1;
    }
    assert(text_views(copy@) =~= text_views(texts@));
    copy
}

impl Clone for Poll {
    fn clone(&self) -> (copy: Self)
        ensures
            copy@ == self@,
    {
        Poll {
            creator: self.creator.clone(),
            question: self.question.clone(),
            options: clone_options(&self.options),
            closed: self.closed,
        }
    }
}

impl Clone for Config {
    fn clone(&self) -> (copy: Self)
        ensures
            copy@ == self@,
    {
        Config { admins: clone_texts(&self.admins) }
    }
}

} // verus!
