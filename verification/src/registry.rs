//! The key image registry: the set of key images that were spent.

use vstd::prelude::*;
use std::collections::HashSet;
use crate::error::Error;
use crate::point::Point;

verus! {

broadcast use vstd::std_specs::hash::group_hash_axioms;

/// The key images seen so far.
pub struct KeyImageRegistry {
    seen: HashSet<u64>,
}

impl View for KeyImageRegistry {
    type V = Set<nat>;

    closed spec fn view(&self) -> Set<nat> {
        Set::new(|k: nat| k <= u64::MAX && self.seen@.contains(k as u64))
    }
}

impl KeyImageRegistry {
    /// A registry that holds no key image.
    pub fn new() -> (r: KeyImageRegistry)
        ensures
            r@ == Set::<nat>::empty(),
    {
        let r = KeyImageRegistry { seen: HashSet::new() };
        assert(r@ =~= Set::<nat>::empty());
        r
    }

    /// Whether the key image was registered before.
    pub fn contains(&self, image: &Point) -> (r: bool)
        ensures
            r == self@.contains(image@),
    {
        let key: u64 = image.encode();
        self.seen.contains(&key)
    }

    /// Records a key image.  One that the registry already holds is
    /// refused as a double spend, and the registry stays as it was.
    pub fn register(&mut self, image: &Point) -> (r: Result<(), Error>)
        ensures
            old(self)@.contains(image@) ==> r == Err::<(), Error>(Error::DoubleSpend)
                && final(self)@ == old(self)@,
            !old(self)@.contains(image@) ==> r == Ok::<(), Error>(())
                && final(self)@ == old(self)@.insert(image@),
    {
        let key: u64 = image.encode();
        if self.seen.contains(&key) {
            Err(Error::DoubleSpend)
        } else {
            self.seen.insert(key);
            assert(self@ =~= old(self)@.insert(image@));
            Ok(())
        }
    }
}

} // verus!
