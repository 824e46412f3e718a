//! The run-scoped mapping from declared resource names to gateway-assigned
//! identifiers. One `NameIndex` is kept per resource kind (service names,
//! route names); it is populated incrementally as resources are created,
//! and later resources resolve their references through it.

use vstd::prelude::*;

use crate::kv::{assoc_lookup, assoc_lookup_from, pairs_view};

verus! {

/// Declared name to gateway-assigned identifier, for one resource kind.
#[derive(Debug)]
pub struct NameIndex {
    entries: Vec<(String, String)>,
}

impl NameIndex {
    /// The index as a sequence of (name, identifier) pairs; the first
    /// entry with a given name is the one lookup finds.
    pub closed spec fn view(&self) -> Seq<(Seq<char>, Seq<char>)> {
        pairs_view(self.entries@)
    }

    /// The identifier registered for a name, if any.
    pub open spec fn spec_lookup(&self, name: Seq<char>) -> Option<Seq<char>> {
        assoc_lookup(self@, name)
    }

    /// An empty index.
    pub fn new() -> (r: NameIndex)
        ensures
            r@ == Seq::<(Seq<char>, Seq<char>)>::empty(),
    {
        let r = NameIndex { entries: Vec::new() };
        assert(r@ =~= Seq::<(Seq<char>, Seq<char>)>::empty());
        r
    }

    /// Registers an identifier for a declared name. The new entry wins
    /// over any earlier entry with the same name; every other name keeps
    /// the identifier it had.
    pub fn register(&mut self, name: String, id: String)
        ensures
            final(self)@ == seq![(name@, id@)] + old(self)@,
            final(self).spec_lookup(name@) == Some(id@),
            forall|other: Seq<char>| other != name@ ==> final(self).spec_lookup(other) == old(
                self,
            ).spec_lookup(other),
    {
        let ghost old_view = self@;
        let ghost namev = name@;
        let ghost idv = id@;
        self.entries.insert(0, (name, id));
        assert(self@ =~= seq![(namev, idv)] + old_view);
        assert forall|other: Seq<char>| other != namev implies self.spec_lookup(other)
            == assoc_lookup(old_view, other) by {
            assert(self@[0].0 != other);
            lemma_lookup_shift(self@, old_view, other);
        }
    }

    /// Looks a declared name up; clones the registered identifier.
    pub fn lookup(&self, name: &String) -> (r: Option<String>)
        ensures
            match r {
                Some(v) => self.spec_lookup(name@) == Some(v@),
                None => self.spec_lookup(name@) is None,
            },
    {
        crate::kv::assoc_get(&self.entries, name)
    }
}

/// Looking a key up in a one-entry extension of a list whose head does not
/// carry the key gives what the list itself gives.
proof fn lemma_lookup_shift(
    extended: Seq<(Seq<char>, Seq<char>)>,
    base: Seq<(Seq<char>, Seq<char>)>,
    key: Seq<char>,
)
    requires
        extended.len() == base.len() + 1,
        extended[0].0 != key,
        forall|k: int| 0 <= k < base.len() ==> extended[k + 1] == base[k],
    ensures
        assoc_lookup(extended, key) == assoc_lookup(base, key),
{
    lemma_lookup_from_shift(extended, base, key, 0);
}

/// The scan of the extension from position `i + 1` agrees with the scan of
/// the base from position `i`.
proof fn lemma_lookup_from_shift(
    extended: Seq<(Seq<char>, Seq<char>)>,
    base: Seq<(Seq<char>, Seq<char>)>,
    key: Seq<char>,
    i: int,
)
    requires
        extended.len() == base.len() + 1,
        0 <= i <= base.len(),
        forall|k: int| 0 <= k < base.len() ==> extended[k + 1] == base[k],
    ensures
        assoc_lookup_from(extended, i + 1, key) == assoc_lookup_from(base, i, key),
    decreases base.len() - i,
{
    if i < base.len() {
        assert(extended[i + 1] == base[i]);
        if base[i].0 != key {
            lemma_lookup_from_shift(extended, base, key, i + 1);
        }
    }
}

} // verus!
