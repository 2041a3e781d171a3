//! What comes with a call and what goes back to the caller: the sender, the
//! attached payment, and the attributes that report what was done.

use vstd::prelude::*;

verus! {

/// An amount of one token.
#[derive(Debug, PartialEq)]
pub struct Coin {
    pub denom: String,
    pub amount: u128,
}

/// Who makes a call, and what they pay with it.
#[derive(Debug, PartialEq)]
pub struct MessageInfo {
    /// The caller's address, as the host validated it.
    pub sender: String,
    /// The payments attached to the call, in the order given.
    pub funds: Vec<Coin>,
}

/// A key and a value that report one fact about a call.
#[derive(Debug, PartialEq)]
pub struct Attribute {
    pub key: String,
    pub value: String,
}

/// What a successful call reports.
#[derive(Debug, PartialEq)]
pub struct Response {
    pub attributes: Vec<Attribute>,
}

impl View for Coin {
    type V = (Seq<char>, nat);

    /// A coin is its token and its amount.
    open spec fn view(&self) -> (Seq<char>, nat) {
        (self.denom@, self.amount as nat)
    }
}

impl View for Attribute {
    type V = (Seq<char>, Seq<char>);

    open spec fn view(&self) -> (Seq<char>, Seq<char>) {
        (self.key@, self.value@)
    }
}

impl View for Response {
    type V = Seq<(Seq<char>, Seq<char>)>;

    /// A response is its attributes, in order.
    open spec fn view(&self) -> Seq<(Seq<char>, Seq<char>)> {
        Seq::new(self.attributes@.len(), |i: int| self.attributes@[i]@)
    }
}

/// The payments of a call as pairs of token and amount.
pub open spec fn coin_views(funds: Seq<Coin>) -> Seq<(Seq<char>, nat)> {
    Seq::new(funds.len(), |i: int| funds[i]@)
}

impl Clone for Coin {
    fn clone(&self) -> (copy: Self)
        ensures
            copy@ == self@,
    {
        Coin { denom: self.denom.clone(), amount: self.amount }
    }
}

impl Clone for MessageInfo {
    fn clone(&self) -> (copy: Self)
        ensures
            copy.sender@ == self.sender@,
            coin_views(copy.funds@) == coin_views(self.funds@),
    {
        let mut funds: Vec<Coin> = Vec::new();
        let mut i: usize = 0;
        while i < self.funds.len()
            invariant
                i <= self.funds.len(),
                funds.len() == i,
                forall|j: int| 0 <= j < i ==> funds[j]@ == self.funds[j]@,
            decreases self.funds.len() - i,
        {
            funds.push(self.funds[i].clone());
            i = i + 1;
        }
        assert(coin_views(funds@) =~= coin_views(self.funds@));
        MessageInfo { sender: self.sender.clone(), funds }
    }
}

impl Clone for Attribute {
    fn clone(&self) -> (copy: Self)
        ensures
            copy@ == self@,
    {
        Attribute { key: self.key.clone(), value: self.value.clone() }
    }
}

impl Clone for Response {
    fn clone(&self) -> (copy: Self)
        ensures
            copy@ == self@,
    {
        let mut attributes: Vec<Attribute> = Vec::new();
        let mut i: usize = 0;
        while i < self.attributes.len()
            invariant
                i <= self.attributes.len(),
                attributes.len() == i,
                forall|j: int| 0 <= j < i ==> attributes[j]@ == self.attributes[j]@,
            decreases self.attributes.len() - i,
        {
            attributes.push(self.attributes[i].clone());
            i = i + 1;
        }
        let copy = Response { attributes };
        assert(copy@ =~= self@);
        copy
    }
}

impl Coin {
    pub fn new(amount: u128, denom: &str) -> (coin: Coin)
        ensures
            coin@ == (denom@, amount as nat),
    {
        Coin { denom: denom.to_owned(), amount }
    }
}

/// Makes an attribute from a key and a value.
pub fn attr(key: &str, value: &str) -> (attribute: Attribute)
    ensures
        attribute@ == (key@, value@),
{
    Attribute { key: key.to_owned(), value: value.to_owned() }
}

impl Response {
    /// A response that reports nothing.
    pub fn new() -> (response: Response)
        ensures
            response@ == Seq::<(Seq<char>, Seq<char>)>::empty(),
    {
        let response = Response { attributes: Vec::new() };
        assert(response@ =~= Seq::<(Seq<char>, Seq<char>)>::empty());
        response
    }

    /// The response with one more attribute at its end.
    pub fn add_attribute(self, key: &str, value: &str) -> (response: Response)
        ensures
            response@ == self@.push((key@, value@)),
    {
        let mut attributes = self.attributes;
        attributes.push(attr(key, value));
        let response = Response { attributes };
        assert(response@ =~= self@.push((key@, value@)));
        response
    }
}

} // verus!
