//! The store module provides facilities for using values across multiple test
//! steps.
use vstd::prelude::*;

use vstd::hash_map::StringHashMap;

verus! {

/// A trait for a key-value store for sharing data between test commands.
pub trait Store {
    /// Inserts a key-value pair into the store, returning the old value if one existed.
    fn insert(&mut self, key: &str, value: &str) -> Option<String>;

    /// Returns the value corresponding to the key, if it exists.
    fn get(&self, key: &str) -> Option<&str>;
}

/// A key-value store for sharing data between test commands.
///
/// The `Store` is used to capture values from TPM responses and make them
/// available for use in subsequent commands. Each test case gets its own
/// `Store`, which is discarded at the end of the test.
pub struct InMemoryStore {
    values: StringHashMap<String>,
}

impl View for InMemoryStore {
    type V = Map<Seq<char>, Seq<char>>;

    closed spec fn view(&self) -> Map<Seq<char>, Seq<char>> {
        self.values@.map_values(|v: String| v@)
    }
}

impl InMemoryStore {
    /// Creates a new, empty `Store`.
    pub fn new() -> (r: Self)
        ensures
            r@ == Map::<Seq<char>, Seq<char>>::empty(),
    {
        let r = InMemoryStore { values: StringHashMap::new() };
        assert(r@ =~= Map::<Seq<char>, Seq<char>>::empty());
        r
    }
}

impl Default for InMemoryStore {
    /// An empty store.
    fn default() -> (r: Self)
        ensures
            r@ == Map::<Seq<char>, Seq<char>>::empty(),
    {
        InMemoryStore::new()
    }
}

impl Store for InMemoryStore {
    fn insert(&mut self, key: &str, value: &str) -> (r: Option<String>)
        ensures
            final(self)@ == old(self)@.insert(key@, value@),
            match r {
                Some(v) => old(self)@.contains_key(key@) && v@ == old(self)@[key@],
                None => !old(self)@.contains_key(key@),
            },
    {
        let old_value = match self.values.get(key) {
            Some(v) => Some(v.clone()),
            None => None,
        };
        self.values.insert(key.to_owned(), value.to_owned());
        proof {
            assert(self@ =~= old(self)@.insert(key@, value@));
        }
        old_value
    }

    fn get(&self, key: &str) -> (r: Option<&str>)
        ensures
            match r {
                Some(v) => self@.contains_key(key@) && v@ == self@[key@],
                None => !self@.contains_key(key@),
            },
    {
        match self.values.get(key) {
            Some(v) => Some(v.as_str()),
            None => None,
        }
    }
}

} // verus!

verus! {

/// What a store gives back for a key is the value last inserted for it;
/// inserting leaves the other keys as they were.
pub proof fn law_get_after_insert(
    before: Map<Seq<char>, Seq<char>>,
    key: Seq<char>,
    value: Seq<char>,
    other: Seq<char>,
)
    requires
        other != key,
    ensures
        before.insert(key, value).contains_key(key),
        before.insert(key, value)[key] == value,
        before.insert(key, value).contains_key(other) == before.contains_key(other),
        before.contains_key(other) ==> before.insert(key, value)[other] == before[other],
{
}

} // verus!
