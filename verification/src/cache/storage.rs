//! Where cache entries are kept.

use crate::resolve::ModuleIdentifier;
use vstd::hash_map::StringHashMap;
use vstd::prelude::*;

verus! {

/// `after` is what a store may hold once `data` was filed under `id` in a
/// store that held `before`: `data` is there under `id`, and what else is
/// there was there before. A store is free to drop older items to make room.
pub open spec fn filed<Item>(
    before: Map<Seq<char>, Item>,
    after: Map<Seq<char>, Item>,
    id: Seq<char>,
    data: Item,
) -> bool {
    &&& after.contains_key(id)
    &&& after[id] == data
    &&& forall|other: Seq<char>|
        other != id && #[trigger] after.contains_key(other) ==> before.contains_key(other)
            && after[other] == before[other]
}

/// A store of items by identifier. It looks up and files; whether an item is
/// still good is for its reader to decide.
pub trait Storage<Item: Clone> {
    /// The items that the store holds, by the text of their identifier.
    spec fn entries(&self) -> Map<Seq<char>, Item>;

    /// A copy of the item filed under `id`, if there is one.
    fn get(&self, id: &ModuleIdentifier) -> (found: Option<Item>)
        ensures
            match found {
                Some(item) => self.entries().contains_key(id@) && cloned(self.entries()[id@], item),
                None => !self.entries().contains_key(id@),
            },
    ;

    /// Files `data` under `id`, in place of what was there.
    fn set(&mut self, id: ModuleIdentifier, data: Item)
        ensures
            filed(old(self).entries(), final(self).entries(), id@, data),
    ;
}

/// A store in memory. It drops nothing.
#[verifier::reject_recursive_types(Item)]
pub struct MemoryStorage<Item> {
    items: StringHashMap<Item>,
}

impl<Item> MemoryStorage<Item> {
    /// The contents of the store.
    pub closed spec fn items(&self) -> Map<Seq<char>, Item> {
        self.items@
    }

    /// An empty store.
    pub fn new() -> (storage: MemoryStorage<Item>)
        ensures
            storage.items() == Map::<Seq<char>, Item>::empty(),
    {
        MemoryStorage { items: StringHashMap::new() }
    }
}

impl<Item: Clone> Storage<Item> for MemoryStorage<Item> {
    open spec fn entries(&self) -> Map<Seq<char>, Item> {
        self.items()
    }

    fn get(&self, id: &ModuleIdentifier) -> (found: Option<Item>) {
        match self.items.get(id.0.as_str()) {
            Some(item) => Some(item.clone()),
            None => None,
        }
    }

    fn set(&mut self, id: ModuleIdentifier, data: Item)
        ensures
            final(self).entries() == old(self).entries().insert(id@, data),
    {
        self.items.insert(id.0, data);
    }
}

} // verus!
