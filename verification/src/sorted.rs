//! The order of texts, and listings in that order.

use vstd::prelude::*;

verus! {

/// The order of `str` and `String`: by the first character in which two texts
/// differ, compared by code point, and a text comes behind each of its proper
/// prefixes.
pub open spec fn text_before(a: Seq<char>, b: Seq<char>) -> bool
    decreases a.len(),
{
    if b.len() == 0 {
        false
    } else if a.len() == 0 {
        true
    } else if a[0] != b[0] {
        (a[0] as u32) < (b[0] as u32)
    } else {
        text_before(a.skip(1), b.skip(1))
    }
}

/// Whether `listing` holds each of the names of `names` once, in ascending
/// order.
pub open spec fn lists(listing: Seq<Seq<char>>, names: Set<Seq<char>>) -> bool {
    &&& forall|name: Seq<char>|
        names.contains(name) <==> exists|i: int|
            0 <= i < listing.len() && #[trigger] listing[i] == name
    &&& forall|i: int, j: int|
        0 <= i < j < listing.len() ==> text_before(#[trigger] listing[i], #[trigger] listing[j])
}

/// No text comes before itself.
pub proof fn lemma_text_before_irreflexive(a: Seq<char>)
    ensures
        !text_before(a, a),
    decreases a.len(),
{
    if a.len() > 0 {
        lemma_text_before_irreflexive(a.skip(1));
    }
}

/// What comes before a text comes before all that the text comes before.
pub proof fn lemma_text_before_transitive(a: Seq<char>, b: Seq<char>, c: Seq<char>)
    requires
        text_before(a, b),
        text_before(b, c),
    ensures
        text_before(a, c),
    decreases a.len(),
{
    if a.len() > 0 && b.len() > 0 && c.len() > 0 && a[0] == b[0] && b[0] == c[0] {
        lemma_text_before_transitive(a.skip(1), b.skip(1), c.skip(1));
    }
}

/// Two listings of the same names hold the same name at each of their first
/// `n` places.
proof fn lemma_listings_agree(
    a: Seq<Seq<char>>,
    b: Seq<Seq<char>>,
    names: Set<Seq<char>>,
    n: int,
)
    requires
        lists(a, names),
        lists(b, names),
        0 <= n <= a.len(),
        n <= b.len(),
    ensures
        forall|k: int| 0 <= k < n ==> a[k] == b[k],
    decreases n,
{
    if n > 0 {
        lemma_listings_agree(a, b, names, n - 1);
        let k = n - 1;
        assert(names.contains(a[k]));
        assert(names.contains(b[k]));
        let j = choose|j: int| 0 <= j < b.len() && #[trigger] b[j] == a[k];
        let m = choose|m: int| 0 <= m < a.len() && #[trigger] a[m] == b[k];
        lemma_text_before_irreflexive(a[k]);
        lemma_text_before_irreflexive(b[k]);
        if j < k {
            assert(a[j] == b[j]);
            assert(text_before(a[j], a[k]));
        } else if m < k {
            assert(a[m] == b[m]);
            assert(text_before(b[m], b[k]));
        } else if j > k && m > k {
            assert(text_before(b[k], b[j]));
            assert(text_before(a[k], a[m]));
            lemma_text_before_transitive(a[k], b[k], a[k]);
        }
    }
}

/// A set of names has one listing only: two listings of the same names are
/// the same sequence.
pub proof fn lemma_listing_is_unique(a: Seq<Seq<char>>, b: Seq<Seq<char>>, names: Set<Seq<char>>)
    requires
        lists(a, names),
        lists(b, names),
    ensures
        a == b,
{
    let n = if a.len() <= b.len() {
        a.len() as int
    } else {
        b.len() as int
    };
    lemma_listings_agree(a, b, names, n);
    if a.len() < b.len() {
        assert(names.contains(b[n]));
        let m = choose|m: int| 0 <= m < a.len() && #[trigger] a[m] == b[n];
        assert(a[m] == b[m]);
        assert(text_before(b[m], b[n]));
        lemma_text_before_irreflexive(b[n]);
    } else if b.len() < a.len() {
        assert(names.contains(a[n]));
        let m = choose|m: int| 0 <= m < b.len() && #[trigger] b[m] == a[n];
        assert(a[m] == b[m]);
        assert(text_before(a[m], a[n]));
        lemma_text_before_irreflexive(a[n]);
    }
    assert(a =~= b);
}

} // verus!
