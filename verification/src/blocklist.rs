//! The blocklist: the identifiers that the prediction service has declared
//! not to exist.

use vstd::hash_set::StringHashSet;
use vstd::prelude::*;

verus! {

/// A set of stop identifiers. It only grows: no identifier is ever removed.
pub struct IdentifierBlocklist {
    ids: StringHashSet,
}

impl View for IdentifierBlocklist {
    type V = Set<Seq<char>>;

    closed spec fn view(&self) -> Set<Seq<char>> {
        self.ids@
    }
}

impl IdentifierBlocklist {
    /// A blocklist without identifiers.
    pub fn new() -> (blocklist: IdentifierBlocklist)
        ensures
            blocklist@ == Set::<Seq<char>>::empty(),
    {
        IdentifierBlocklist { ids: StringHashSet::new() }
    }

    /// Adds `id`. Adding it again changes nothing.
    pub fn mark_invalid(&mut self, id: &str)
        ensures
            final(self)@ == old(self)@.insert(id@),
    {
        self.ids.insert(id.to_owned());
    }

    /// Whether `id` was added.
    pub fn is_known_invalid(&self, id: &str) -> (known: bool)
        ensures
            known == self@.contains(id@),
    {
        self.ids.contains(id)
    }
}

} // verus!
