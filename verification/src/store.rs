//! The store: a mapping from names to byte contents.

use vstd::hash_map::StringHashMap;
use vstd::prelude::*;

verus! {

/// What a store holds: the content under each name that was written.
pub type Entries = Map<Seq<char>, Seq<u8>>;

/// The entries of the server, at most one per name.
///
/// Its value is a map from a name to the content last written under it. The
/// store starts empty, changes only through [`Store::write`], and never
/// forgets an entry.
pub struct Store {
    entries: StringHashMap<Vec<u8>>,
}

impl View for Store {
    type V = Entries;

    closed spec fn view(&self) -> Entries {
        self.entries@.map_values(|content: Vec<u8>| content@)
    }
}

impl Store {
    /// A store without entries.
    pub fn new() -> (store: Store)
        ensures
            store@ == Entries::empty(),
    {
        let store = Store { entries: StringHashMap::new() };
        assert(store@ =~= Entries::empty());
        store
    }

    /// A copy of the content stored under `name`, or `None` where nothing
    /// was ever written under it. The store is left as it is.
    pub fn read(&self, name: &str) -> (content: Option<Vec<u8>>)
        ensures
            match content {
                Some(bytes) => self@.contains_key(name@) && bytes@ == self@[name@],
                None => !self@.contains_key(name@),
            },
    {
        match self.entries.get(name) {
            Some(bytes) => Some(bytes.clone()),
            None => None,
        }
    }

    /// Stores `content` under `name`. An entry of that name is replaced as a
    /// whole; every other entry stays as it was.
    pub fn write(&mut self, name: String, content: Vec<u8>)
        ensures
            final(self)@ == old(self)@.insert(name@, content@),
    {
        self.entries.insert(name, content);
        assert(self@ =~= old(self)@.insert(name@, content@));
    }
}

} // verus!
