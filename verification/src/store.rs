//! The stores of the ledger: polls by identifier, and ballots by voter and
//! poll. Each behaves as a dictionary: a key holds at most one record.

use crate::state::{Ballot, Poll, PollView};
use crate::table::{
    lemma_table_domain, lemma_table_insert, lemma_table_lookup, lemma_table_update, table,
};
use crate::text::{
    Rank, compare_keys, key_before, lemma_before_irreflexive, lemma_before_transitive, same_text,
};
use vstd::prelude::*;
use vstd::utf8::encode_utf8;

verus! {

/// The polls, kept in ascending order of identifier.
pub struct PollStore {
    entries: Vec<(String, Poll)>,
}

/// The ballots, one at most for each voter in each poll.
pub struct BallotStore {
    entries: Vec<(String, String, Ballot)>,
}

impl PollStore {
    /// The identifiers in the order in which the polls are kept.
    pub closed spec fn ids(&self) -> Seq<Seq<char>> {
        Seq::new(self.entries@.len(), |i: int| self.entries@[i].0@)
    }

    /// The polls in the order in which they are kept.
    pub closed spec fn records(&self) -> Seq<PollView> {
        Seq::new(self.entries@.len(), |i: int| self.entries@[i].1@)
    }

    /// The identifiers ascend strictly.
    pub closed spec fn wf(&self) -> bool {
        forall|i: int, j: int|
            0 <= i < j < self.ids().len() ==> key_before(
                #[trigger] self.ids()[i],
                #[trigger] self.ids()[j],
            )
    }

    /// In a well-formed store the identifiers ascend strictly, they are the
    /// keys of the map that the store stands for, and each maps to the poll
    /// kept at its place.
    pub proof fn lemma_listing(&self)
        requires
            self.wf(),
        ensures
            self.ids().no_duplicates(),
            self.records().len() == self.ids().len(),
            forall|i: int, j: int|
                0 <= i < j < self.ids().len() ==> key_before(
                    #[trigger] self.ids()[i],
                    #[trigger] self.ids()[j],
                ),
            self@.dom() == self.ids().to_set(),
            self@.dom().finite(),
            forall|i: int|
                0 <= i < self.ids().len() ==> self@.contains_key(#[trigger] self.ids()[i])
                    && self@[self.ids()[i]] == self.records()[i],
    {
        let ids = self.ids();
        assert forall|i: int, j: int| 0 <= i < ids.len() && 0 <= j < ids.len() && i != j implies ids[i]
            != ids[j] by {
            lemma_before_irreflexive(encode_utf8(ids[i]));
            if i < j {
                assert(key_before(ids[i], ids[j]));
            } else {
                assert(key_before(ids[j], ids[i]));
            }
        }
        lemma_table_domain(ids, self.records());
        assert forall|i: int| 0 <= i < ids.len() implies self@.contains_key(#[trigger] ids[i])
            && self@[ids[i]] == self.records()[i] by {
            lemma_table_lookup(ids, self.records(), i);
        }
    }

    /// A store with no poll in it.
    pub fn new() -> (store: PollStore)
        ensures
            store.wf(),
            store@ == Map::<Seq<char>, PollView>::empty(),
    {
        let store = PollStore { entries: Vec::new() };
        assert(store@ =~= Map::<Seq<char>, PollView>::empty());
        store
    }

    /// Where `id` stands, or where it would have to go, and whether it is there.
    fn locate(&self, id: &str) -> (r: (usize, bool))
        requires
            self.wf(),
        ensures
            r.0 <= self.ids().len(),
            r.0 <= self.entries.len(),
            r.1 ==> r.0 < self.ids().len() && self.ids()[r.0 as int] == id@,
            !r.1 ==> !self.ids().contains(id@),
            forall|j: int| 0 <= j < r.0 ==> key_before(#[trigger] self.ids()[j], id@),
            !r.1 ==> forall|j: int|
                r.0 <= j < self.ids().len() ==> key_before(id@, #[trigger] self.ids()[j]),
    {
        let mut i: usize = 0;
        while i < self.entries.len()
            invariant
                self.wf(),
                i <= self.entries.len(),
                self.entries.len() == self.ids().len(),
                forall|j: int| 0 <= j < i ==> key_before(#[trigger] self.ids()[j], id@),
            decreases self.entries.len() - i,
        {
            match compare_keys(self.entries[i].0.as_str(), id) {
                Rank::Before => {
                    i = i + 1;
                },
                Rank::Same => {
                    return (i, true);
                },
                Rank::After => {
                    proof {
                        self.lemma_gap(id@, i as int);
                    }
                    return (i, false);
                },
            }
        }
        proof {
            self.lemma_gap(id@, i as int);
        }
        (i, false)
    }

    /// An identifier that falls between two neighbours is not in the store.
    proof fn lemma_gap(&self, id: Seq<char>, at: int)
        requires
            self.wf(),
            0 <= at <= self.ids().len(),
            forall|j: int| 0 <= j < at ==> key_before(#[trigger] self.ids()[j], id),
            at < self.ids().len() ==> key_before(id, self.ids()[at]),
        ensures
            !self.ids().contains(id),
            forall|j: int| at <= j < self.ids().len() ==> key_before(id, #[trigger] self.ids()[j]),
    {
        let ids = self.ids();
        assert forall|j: int| at <= j < ids.len() implies key_before(id, #[trigger] ids[j]) by {
            if at < j {
                assert(key_before(ids[at], ids[j]));
                lemma_before_transitive(encode_utf8(id), encode_utf8(ids[at]), encode_utf8(ids[j]));
            }
        }
        lemma_before_irreflexive(encode_utf8(id));
        if ids.contains(id) {
            let j = ids.index_of(id);
            if j < at {
                assert(key_before(ids[j], id));
            } else {
                assert(key_before(id, ids[j]));
            }
        }
    }

    /// The poll under `id`, if there is one.
    pub fn get(&self, id: &str) -> (r: Option<&Poll>)
        requires
            self.wf(),
        ensures
            match r {
                Some(poll) => self@.contains_key(id@) && poll@ == self@[id@],
                None => !self@.contains_key(id@),
            },
    {
        let (at, found) = self.locate(id);
        proof {
            self.lemma_listing();
        }
        if found {
            assert(self.records()[at as int] == self.entries@[at as int].1@);
            Some(&self.entries[at].1)
        } else {
            None
        }
    }

    /// Whether there is a poll under `id`.
    pub fn contains(&self, id: &str) -> (found: bool)
        requires
            self.wf(),
        ensures
            found == self@.contains_key(id@),
    {
        let (at, found) = self.locate(id);
        proof {
            self.lemma_listing();
        }
        found
    }

    /// Keeps `poll` under `id`, in place of the poll that was there, if any.
    pub fn put(&mut self, id: String, poll: Poll)
        requires
            old(self).wf(),
        ensures
            final(self).wf(),
            final(self)@ == old(self)@.insert(id@, poll@),
    {
        let (at, found) = self.locate(id.as_str());
        let ghost ids = self.ids();
        let ghost records = self.records();
        proof {
            self.lemma_listing();
        }
        if found {
            self.entries.set(at, (id, poll));
            proof {
                assert(self.ids() =~= ids);
                assert(self.records() =~= records.update(at as int, poll@));
                lemma_table_update(ids, records, at as int, poll@);
            }
        } else {
            self.entries.insert(at, (id, poll));
            proof {
                assert(self.ids() =~= ids.insert(at as int, id@));
                assert(self.records() =~= records.insert(at as int, poll@));
                lemma_table_insert(ids, records, at as int, id@, poll@);
                let ids2 = self.ids();
                assert forall|i: int, j: int| 0 <= i < j < ids2.len() implies key_before(
                    #[trigger] ids2[i],
                    #[trigger] ids2[j],
                ) by {
                    let i0 = if i < at { i } else { i - 1 };
                    let j0 = if j < at { j } else { j - 1 };
                    if i == at {
                        assert(ids2[j] == ids[j0]);
                    } else if j == at {
                        assert(ids2[i] == ids[i0]);
                    } else {
                        assert(ids2[i] == ids[i0]);
                        assert(ids2[j] == ids[j0]);
                    }
                }
            }
        }
    }

    /// Every poll, in ascending order of identifier.
    pub fn list(&self) -> (polls: Vec<Poll>)
        requires
            self.wf(),
        ensures
            polls.len() == self.ids().len(),
            forall|i: int| 0 <= i < polls.len() ==> polls[i]@ == self@[#[trigger] self.ids()[i]],
    {
        proof {
            self.lemma_listing();
        }
        let mut polls: Vec<Poll> = Vec::new();
        let mut i: usize = 0;
        while i < self.entries.len()
            invariant
                i <= self.entries.len(),
                self.entries.len() == self.ids().len(),
                polls.len() == i,
                forall|j: int| 0 <= j < i ==> polls[j]@ == self.records()[j],
            decreases self.entries.len() - i,
        {
            polls.push(self.entries[i].1.clone());
            i = i + 1;
        }
        polls
    }
}

impl View for PollStore {
    type V = Map<Seq<char>, PollView>;

    /// The store as a map from identifier to poll.
    closed spec fn view(&self) -> Map<Seq<char>, PollView> {
        table(self.ids(), self.records())
    }
}

impl BallotStore {
    /// The voter and poll of each ballot, in the order in which the ballots are kept.
    pub closed spec fn keys(&self) -> Seq<(Seq<char>, Seq<char>)> {
        Seq::new(self.entries@.len(), |i: int| (self.entries@[i].0@, self.entries@[i].1@))
    }

    /// The chosen labels, in the order in which the ballots are kept.
    pub closed spec fn labels(&self) -> Seq<Seq<char>> {
        Seq::new(self.entries@.len(), |i: int| self.entries@[i].2@)
    }

    /// No voter has two ballots in one poll.
    pub closed spec fn wf(&self) -> bool {
        self.keys().no_duplicates()
    }

    /// A well-formed store holds finitely many ballots, no more than a
    /// vector can hold.
    pub proof fn lemma_size(&self)
        requires
            self.wf(),
        ensures
            self@.dom().finite(),
            self@.dom().len() <= usize::MAX,
    {
        lemma_table_domain(self.keys(), self.labels());
        assert(self.keys().len() == self.entries.len());
    }

    /// A store with no ballot in it.
    pub fn new() -> (store: BallotStore)
        ensures
            store.wf(),
            store@ == Map::<(Seq<char>, Seq<char>), Seq<char>>::empty(),
    {
        let store = BallotStore { entries: Vec::new() };
        assert(store@ =~= Map::<(Seq<char>, Seq<char>), Seq<char>>::empty());
        store
    }

    /// The place of the ballot of `voter` in the poll `poll_id`, if there is one.
    fn locate(&self, voter: &str, poll_id: &str) -> (r: Option<usize>)
        requires
            self.wf(),
        ensures
            match r {
                Some(at) => at < self.keys().len() && self.keys()[at as int] == (voter@, poll_id@),
                None => !self.keys().contains((voter@, poll_id@)),
            },
    {
        let mut i: usize = 0;
        while i < self.entries.len()
            invariant
                i <= self.entries.len(),
                self.entries.len() == self.keys().len(),
                forall|j: int| 0 <= j < i ==> self.keys()[j] != (voter@, poll_id@),
            decreases self.entries.len() - i,
        {
            if same_text(self.entries[i].0.as_str(), voter) && same_text(
                self.entries[i].1.as_str(),
                poll_id,
            ) {
                return Some(i);
            }
            i = i + 1;
        }
        None
    }

    /// The ballot of `voter` in the poll `poll_id`, if there is one.
    pub fn get(&self, voter: &str, poll_id: &str) -> (r: Option<&Ballot>)
        requires
            self.wf(),
        ensures
            match r {
                Some(ballot) => self@.contains_key((voter@, poll_id@)) && ballot@ == self@[(
                    voter@,
                    poll_id@,
                )],
                None => !self@.contains_key((voter@, poll_id@)),
            },
    {
        match self.locate(voter, poll_id) {
            Some(at) => {
                proof {
                    lemma_table_lookup(self.keys(), self.labels(), at as int);
                }
                Some(&self.entries[at].2)
            },
            None => None,
        }
    }

    /// Keeps `ballot` as the ballot of `voter` in the poll `poll_id`, in place
    /// of the one that was there, if any.
    pub fn put(&mut self, voter: String, poll_id: String, ballot: Ballot)
        requires
            old(self).wf(),
        ensures
            final(self).wf(),
            final(self)@ == old(self)@.insert((voter@, poll_id@), ballot@),
    {
        let ghost keys = self.keys();
        let ghost labels = self.labels();
        match self.locate(voter.as_str(), poll_id.as_str()) {
            Some(at) => {
                self.entries.set(at, (voter, poll_id, ballot));
                proof {
                    assert(self.keys() =~= keys);
                    assert(self.labels() =~= labels.update(at as int, ballot@));
                    lemma_table_update(keys, labels, at as int, ballot@);
                }
            },
            None => {
                self.entries.push((voter, poll_id, ballot));
                proof {
                    let end = keys.len() as int;
                    assert(self.keys() =~= keys.insert(end, (voter@, poll_id@)));
                    assert(self.labels() =~= labels.insert(end, ballot@));
                    lemma_table_insert(keys, labels, end, (voter@, poll_id@), ballot@);
                }
            },
        }
    }
}

impl View for BallotStore {
    type V = Map<(Seq<char>, Seq<char>), Seq<char>>;

    /// The store as a map from voter and poll to the chosen label.
    closed spec fn view(&self) -> Map<(Seq<char>, Seq<char>), Seq<char>> {
        table(self.keys(), self.labels())
    }
}

} // verus!
