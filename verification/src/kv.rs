//! Association lists of string pairs: the in-memory shape of the free-form
//! key/value records of a definition, and the base of the name index.
//! Lookup finds the first entry with a matching key.

use vstd::prelude::*;

verus! {

/// The mathematical view of a list of string pairs.
pub open spec fn pairs_view(s: Seq<(String, String)>) -> Seq<(Seq<char>, Seq<char>)> {
    s.map_values(|p: (String, String)| (p.0@, p.1@))
}

/// First-match lookup, scanning from position `i`.
pub open spec fn assoc_lookup_from(
    s: Seq<(Seq<char>, Seq<char>)>,
    i: int,
    key: Seq<char>,
) -> Option<Seq<char>>
    decreases s.len() - i,
{
    if i < 0 || i >= s.len() {
        None
    } else if s[i].0 == key {
        Some(s[i].1)
    } else {
        assoc_lookup_from(s, i + 1, key)
    }
}

/// The value the first entry with the given key carries, if any.
pub open spec fn assoc_lookup(s: Seq<(Seq<char>, Seq<char>)>, key: Seq<char>) -> Option<Seq<char>> {
    assoc_lookup_from(s, 0, key)
}

/// First-match lookup over a vector of string pairs.
pub fn assoc_get(pairs: &Vec<(String, String)>, key: &String) -> (r: Option<String>)
    ensures
        match r {
            Some(v) => assoc_lookup(pairs_view(pairs@), key@) == Some(v@),
            None => assoc_lookup(pairs_view(pairs@), key@) is None,
        },
{
    let n = pairs.len();
    let mut i: usize = 0;
    while i < n
        invariant
            i <= n,
            n == pairs@.len(),
            assoc_lookup(pairs_view(pairs@), key@) == assoc_lookup_from(
                pairs_view(pairs@),
                i as int,
                key@,
            ),
        decreases n - i,
    {
        if pairs[i].0 == *key {
            assert(pairs_view(pairs@)[i as int].0 == key@);
            return Some(pairs[i].1.clone());
        }
        assert(pairs_view(pairs@)[i as int].0 != key@);
        i += 1;
    }
    None
}

} // verus!
