//! Lists of named texts (headers, query parameters, metadata) and the maps
//! that they stand for.

use crate::json::text_lt;
use crate::text::lower_all;
use vstd::prelude::*;

verus! {

/// The pairs of texts that a list of pairs of strings holds.
pub open spec fn pairs_view(v: Seq<(String, String)>) -> Seq<(Seq<char>, Seq<char>)> {
    Seq::new(v.len(), |i: int| (v[i].0@, v[i].1@))
}

/// The map that a list of pairs stands for: where a name occurs more than
/// once, its last entry counts.
pub open spec fn pairs_map(pairs: Seq<(Seq<char>, Seq<char>)>) -> Map<Seq<char>, Seq<char>>
    decreases pairs.len(),
{
    if pairs.len() == 0 {
        Map::empty()
    } else {
        pairs_map(pairs.drop_last()).insert(pairs.last().0, pairs.last().1)
    }
}

/// The same pairs with every name in lower case.
pub open spec fn lowered(pairs: Seq<(Seq<char>, Seq<char>)>) -> Seq<(Seq<char>, Seq<char>)> {
    Seq::new(pairs.len(), |i: int| (lower_all(pairs[i].0), pairs[i].1))
}

/// `pairs` lists the map `m`: every entry once, in the order of the names.
pub open spec fn lists(pairs: Seq<(Seq<char>, Seq<char>)>, m: Map<Seq<char>, Seq<char>>) -> bool {
    &&& forall|i: int, j: int|
        0 <= i < j < pairs.len() ==> text_lt(#[trigger] pairs[i].0, #[trigger] pairs[j].0)
    &&& forall|i: int|
        0 <= i < pairs.len() ==> m.contains_key(#[trigger] pairs[i].0) && m[pairs[i].0]
            == pairs[i].1
    &&& forall|name: Seq<char>| #[trigger]
        m.contains_key(name) ==> exists|i: int|
            0 <= i < pairs.len() && #[trigger] pairs[i].0 == name
}

/// The list of a map's entries in the order of the names.
pub open spec fn listing(m: Map<Seq<char>, Seq<char>>) -> Seq<(Seq<char>, Seq<char>)> {
    choose|pairs: Seq<(Seq<char>, Seq<char>)>| lists(pairs, m)
}

/// No text comes before itself.
pub proof fn lemma_text_lt_irreflexive(a: Seq<char>)
    ensures
        !text_lt(a, a),
    decreases a.len(),
{
    if a.len() > 0 {
        lemma_text_lt_irreflexive(a.drop_first());
    }
}

/// The order of texts is transitive.
pub proof fn lemma_text_lt_transitive(a: Seq<char>, b: Seq<char>, c: Seq<char>)
    requires
        text_lt(a, b),
        text_lt(b, c),
    ensures
        text_lt(a, c),
    decreases a.len(),
{
    if a.len() > 0 && a[0] == b[0] && b[0] == c[0] {
        lemma_text_lt_transitive(a.drop_first(), b.drop_first(), c.drop_first());
    }
}

/// Two lists of one map agree on their first `n` names.
proof fn lemma_listings_agree(
    s: Seq<(Seq<char>, Seq<char>)>,
    t: Seq<(Seq<char>, Seq<char>)>,
    m: Map<Seq<char>, Seq<char>>,
    n: int,
)
    requires
        lists(s, m),
        lists(t, m),
        0 <= n <= s.len(),
    ensures
        n <= t.len(),
        forall|i: int| 0 <= i < n ==> s[i] == t[i],
    decreases n,
{
    if n > 0 {
        lemma_listings_agree(s, t, m, n - 1);
        let i = n - 1;
        let name = s[i].0;
        assert(m.contains_key(name));
        let j = choose|j: int| 0 <= j < t.len() && #[trigger] t[j].0 == name;
        lemma_text_lt_irreflexive(name);
        if j < i {
            assert(s[j] == t[j]);
            assert(text_lt(s[j].0, s[i].0));
        } else if j > i {
            let other = t[i].0;
            assert(text_lt(t[i].0, t[j].0));
            assert(m.contains_key(other));
            let k = choose|k: int| 0 <= k < s.len() && #[trigger] s[k].0 == other;
            lemma_text_lt_irreflexive(other);
            if k < i {
                assert(s[k] == t[k]);
                assert(text_lt(t[k].0, t[i].0));
            } else if k > i {
                assert(text_lt(s[i].0, s[k].0));
                lemma_text_lt_transitive(name, other, name);
            }
        }
        assert(s[i].1 == m[name]);
        assert(t[i].1 == m[name]);
    }
}

/// A map has one list only.
pub proof fn lemma_listing_unique(pairs: Seq<(Seq<char>, Seq<char>)>, m: Map<Seq<char>, Seq<char>>)
    requires
        lists(pairs, m),
    ensures
        pairs == listing(m),
{
    let other = listing(m);
    lemma_listings_agree(pairs, other, m, pairs.len() as int);
    lemma_listings_agree(other, pairs, m, other.len() as int);
    assert(pairs =~= other);
}

} // verus!
