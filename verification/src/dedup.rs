//! The deduplication key of a request: what lets a backend recognise a
//! request that the bus delivers more than once.

use crate::pairs::{lowered, pairs_map, pairs_view};
use crate::text::to_lower;
use crate::trace::position;
use vstd::prelude::*;

verus! {

/// Whether `c` is a digit or an ASCII letter.
pub open spec fn is_alphanumeric(c: char) -> bool {
    ('0' <= c && c <= '9') || ('A' <= c && c <= 'Z') || ('a' <= c && c <= 'z')
}

/// Whether `t` has the form of a generated token: 22 digits and ASCII letters.
pub open spec fn is_token(t: Seq<char>) -> bool {
    &&& t.len() == 22
    &&& forall|i: int| 0 <= i < t.len() ==> is_alphanumeric(#[trigger] t[i])
}

/// Calls `nuid::next` and takes the identifier as a `String`. Which one
/// comes is up to the generator, which draws on randomness; the contract
/// states its form only: 22 characters, each a digit or an ASCII letter.
#[verifier::external_body]
pub(crate) fn fresh_token() -> (r: String)
    ensures
        is_token(r@),
{
    nuid::next().to_string()
}

/// The key by which a backend recognises a request that is delivered again:
/// the value of the request's `x-request-id` header, the last one where there
/// are several, if it is not empty; `fresh` where the request has no such
/// header, or an empty one.
pub open spec fn dedup_key_of(headers: Seq<(Seq<char>, Seq<char>)>, fresh: Seq<char>) -> Seq<char> {
    let named = pairs_map(lowered(headers));
    if named.contains_key("x-request-id"@) && named["x-request-id"@].len() > 0 {
        named["x-request-id"@]
    } else {
        fresh
    }
}

/// The deduplication key that metadata carries: the value of its entry
/// `Nats-Msg-Id`, if it has one.
pub open spec fn carried_key(metadata: Seq<(Seq<char>, Seq<char>)>) -> Option<Seq<char>> {
    if position(metadata, "Nats-Msg-Id"@) < metadata.len() {
        Some(metadata[position(metadata, "Nats-Msg-Id"@)].1)
    } else {
        None
    }
}

/// The key is empty only where the request brings none and `fresh` is empty.
pub proof fn lemma_dedup_key_is_not_empty(headers: Seq<(Seq<char>, Seq<char>)>, fresh: Seq<char>)
    ensures
        fresh.len() > 0 ==> dedup_key_of(headers, fresh).len() > 0,
{
}

/// The deduplication key of a request: see [`dedup_key_of`]. The name of the
/// header is matched whatever the case of its letters. The key is never
/// empty, unless `fresh` is.
pub fn dedup_key(headers: &Vec<(String, String)>, fresh: String) -> (key: String)
    ensures
        key@ == dedup_key_of(pairs_view(headers@), fresh@),
        fresh@.len() > 0 ==> key@.len() > 0,
{
    let ghost all = lowered(pairs_view(headers@));
    let wanted = "x-request-id".to_owned();
    let mut given: Option<String> = None;
    let mut i: usize = 0;
    while i < headers.len()
        invariant
            i <= headers.len(),
            all == lowered(pairs_view(headers@)),
            wanted@ == "x-request-id"@,
            given is Some == pairs_map(all.subrange(0, i as int)).contains_key(wanted@),
            given is Some ==> given->0@ == pairs_map(all.subrange(0, i as int))[wanted@],
        decreases headers.len() - i,
    {
        proof {
            assert(all.subrange(0, i + 1).drop_last() =~= all.subrange(0, i as int));
        }
        if to_lower(headers[i].0.as_str()) == wanted {
            given = Some(headers[i].1.clone());
        }
        i = i + 1;
    }
    assert(all.subrange(0, i as int) =~= all);
    match given {
        Some(value) => if value.as_str().is_empty() {
            fresh
        } else {
            value
        },
        None => fresh,
    }
}

} // verus!
