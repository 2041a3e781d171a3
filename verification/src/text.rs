//! The order in which poll identifiers are listed.
//!
//! Identifiers are ordered as their UTF-8 encodings are, byte by byte, a
//! proper prefix coming before every longer string.

use vstd::prelude::*;
use vstd::string::StringSliceAdditionalSpecFns;
use vstd::utf8::{decode_utf8, encode_utf8, encode_utf8_decode_utf8};

verus! {

/// How one string stands to another in the listing order.
#[derive(Clone, Copy, Debug, PartialEq, Eq, Structural)]
pub enum Rank {
    Before,
    Same,
    After,
}

/// `a` and `b` agree on their first `k` bytes.
pub open spec fn agree_up_to(a: Seq<u8>, b: Seq<u8>, k: int) -> bool {
    &&& 0 <= k <= a.len()
    &&& k <= b.len()
    &&& forall|j: int| 0 <= j < k ==> a[j] == b[j]
}

/// `a` and `b` part ways at byte `k`, and `a` is the smaller there.
pub open spec fn parts_below_at(a: Seq<u8>, b: Seq<u8>, k: int) -> bool {
    &&& agree_up_to(a, b, k)
    &&& k < b.len()
    &&& (k == a.len() || a[k] < b[k])
}

/// `a` comes strictly before `b` in the lexicographic order of bytes.
pub open spec fn bytes_before(a: Seq<u8>, b: Seq<u8>) -> bool {
    exists|k: int| parts_below_at(a, b, k)
}

/// `a` comes strictly before `b` in the listing order.
pub open spec fn key_before(a: Seq<char>, b: Seq<char>) -> bool {
    bytes_before(encode_utf8(a), encode_utf8(b))
}

/// Nothing comes before itself.
pub proof fn lemma_before_irreflexive(a: Seq<u8>)
    ensures
        !bytes_before(a, a),
{
}

/// Two byte strings are never each before the other.
pub proof fn lemma_before_asymmetric(a: Seq<u8>, b: Seq<u8>)
    requires
        bytes_before(a, b),
    ensures
        !bytes_before(b, a),
{
    let k = choose|k: int| parts_below_at(a, b, k);
    if bytes_before(b, a) {
        let m = choose|m: int| parts_below_at(b, a, m);
        if k < m {
            assert(b[k] == a[k]);
        } else if m < k {
            assert(a[m] == b[m]);
        }
    }
}

/// The order is transitive.
pub proof fn lemma_before_transitive(a: Seq<u8>, b: Seq<u8>, c: Seq<u8>)
    requires
        bytes_before(a, b),
        bytes_before(b, c),
    ensures
        bytes_before(a, c),
{
    let k = choose|k: int| parts_below_at(a, b, k);
    let m = choose|m: int| parts_below_at(b, c, m);
    if k <= m {
        assert(parts_below_at(a, c, k));
    } else {
        assert(a[m] == b[m]);
        assert(parts_below_at(a, c, m));
    }
}

/// Two strings with the same encoding are the same string.
pub proof fn lemma_same_encoding(a: Seq<char>, b: Seq<char>)
    requires
        encode_utf8(a) == encode_utf8(b),
    ensures
        a == b,
{
    encode_utf8_decode_utf8(a);
    encode_utf8_decode_utf8(b);
    assert(decode_utf8(encode_utf8(a)) == decode_utf8(encode_utf8(b)));
}

/// The identifiers stand in strictly ascending order.
pub open spec fn ascending(ids: Seq<Seq<char>>) -> bool {
    forall|i: int, j: int| 0 <= i < j < ids.len() ==> key_before(#[trigger] ids[i], #[trigger] ids[j])
}

/// An ascending list holds no identifier twice.
pub proof fn lemma_ascending_distinct(ids: Seq<Seq<char>>)
    requires
        ascending(ids),
    ensures
        ids.no_duplicates(),
{
    assert forall|i: int, j: int| 0 <= i < ids.len() && 0 <= j < ids.len() && i != j implies ids[i]
        != ids[j] by {
        lemma_before_irreflexive(encode_utf8(ids[i]));
        if i < j {
            assert(key_before(ids[i], ids[j]));
        } else {
            assert(key_before(ids[j], ids[i]));
        }
    }
}

/// Two ascending lists of the same identifiers agree on their first `n` places.
proof fn lemma_ascending_agree(a: Seq<Seq<char>>, b: Seq<Seq<char>>, n: int)
    requires
        ascending(a),
        ascending(b),
        a.to_set() == b.to_set(),
        a.len() == b.len(),
        0 <= n <= a.len(),
    ensures
        forall|i: int| 0 <= i < n ==> a[i] == b[i],
    decreases n,
{
    if n > 0 {
        lemma_ascending_agree(a, b, n - 1);
        lemma_ascending_distinct(a);
        lemma_ascending_distinct(b);
        let i = n - 1;
        assert(a.contains(a[i]));
        assert(b.to_set().contains(a[i]));
        assert(b.contains(a[i]));
        let m = b.index_of(a[i]);
        assert(b.contains(b[i]));
        assert(a.to_set().contains(b[i]));
        assert(a.contains(b[i]));
        let w = a.index_of(b[i]);
        if m < i {
            assert(a[m] == b[m]);
        } else if w < i {
            assert(a[w] == b[w]);
        } else if m > i && w > i {
            assert(key_before(b[i], b[m]));
            assert(key_before(a[i], a[w]));
            lemma_before_asymmetric(encode_utf8(a[i]), encode_utf8(b[i]));
        }
    }
}

/// A set of identifiers has one ascending order only.
pub proof fn lemma_ascending_unique(a: Seq<Seq<char>>, b: Seq<Seq<char>>)
    requires
        ascending(a),
        ascending(b),
        a.to_set() == b.to_set(),
    ensures
        a == b,
{
    lemma_ascending_distinct(a);
    lemma_ascending_distinct(b);
    a.unique_seq_to_set();
    b.unique_seq_to_set();
    lemma_ascending_agree(a, b, a.len() as int);
    assert(a =~= b);
}

/// Compares two byte strings lexicographically.
pub fn compare_bytes(a: &[u8], b: &[u8]) -> (r: Rank)
    ensures
        r == Rank::Before <==> bytes_before(a@, b@),
        r == Rank::Same <==> a@ == b@,
        r == Rank::After <==> bytes_before(b@, a@),
{
    let mut i: usize = 0;
    while i < a.len() && i < b.len()
        invariant
            agree_up_to(a@, b@, i as int),
        decreases a.len() - i,
    {
        if a[i] < b[i] {
            proof {
                assert(parts_below_at(a@, b@, i as int));
                lemma_before_asymmetric(a@, b@);
            }
            return Rank::Before;
        }
        if b[i] < a[i] {
            proof {
                assert(parts_below_at(b@, a@, i as int));
                lemma_before_asymmetric(b@, a@);
            }
            return Rank::After;
        }
        i = i + 1;
    }
    if i < b.len() {
        proof {
            assert(parts_below_at(a@, b@, i as int));
            lemma_before_asymmetric(a@, b@);
        }
        Rank::Before
    } else if i < a.len() {
        proof {
            assert(parts_below_at(b@, a@, i as int));
            lemma_before_asymmetric(b@, a@);
        }
        Rank::After
    } else {
        proof {
            assert(a@ =~= b@);
            lemma_before_irreflexive(a@);
        }
        Rank::Same
    }
}

/// Compares two identifiers in the listing order.
pub fn compare_keys(a: &str, b: &str) -> (r: Rank)
    ensures
        r == Rank::Before <==> key_before(a@, b@),
        r == Rank::Same <==> a@ == b@,
        r == Rank::After <==> key_before(b@, a@),
{
    let r = compare_bytes(a.as_bytes(), b.as_bytes());
    proof {
        if r == Rank::Same {
            lemma_same_encoding(a@, b@);
        }
        if a@ == b@ {
            assert(a.spec_bytes() == b.spec_bytes());
        }
    }
    r
}

/// Whether two strings are the same.
pub fn same_text(a: &str, b: &str) -> (same: bool)
    ensures
        same == (a@ == b@),
{
    match compare_keys(a, b) {
        Rank::Same => true,
        _ => false,
    }
}

} // verus!
