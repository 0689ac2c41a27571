//! A store holding at most one instance per module type.
use vstd::prelude::*;

verus! {

/// Identity of a module type: its index in the module catalog.
pub type ModuleId = usize;

/// Lookup failure: a module was requested that nobody installed.
#[derive(Debug, PartialEq, Eq, Structural)]
pub enum RegistryError {
    NotRegistered(ModuleId),
}

/// Mapping from module identity to the one instance of that module.
pub struct ModuleRegistry<T> {
    slots: Vec<Option<T>>,
}

impl<T> View for ModuleRegistry<T> {
    type V = Map<ModuleId, T>;

    closed spec fn view(&self) -> Map<ModuleId, T> {
        Map::new(
            |id: ModuleId| id < self.slots@.len() && self.slots@[id as int] is Some,
            |id: ModuleId| self.slots@[id as int]->Some_0,
        )
    }
}

impl<T> ModuleRegistry<T> {
    /// Number of module types this registry can hold; ids are below it.
    pub closed spec fn capacity(&self) -> nat {
        self.slots@.len()
    }

    /// An empty registry for `capacity` module types.
    pub fn new(capacity: usize) -> (r: Self)
        ensures
            r@ == Map::<ModuleId, T>::empty(),
            r.capacity() == capacity,
    {
        let mut slots: Vec<Option<T>> = Vec::new();
        let mut i: usize = 0;
        while i < capacity
            invariant
                i <= capacity,
                slots@.len() == i,
                forall|j: int| 0 <= j < i ==> slots@[j] is None,
            decreases capacity - i,
        {
            slots.push(None);
            i = i + 1;
        }
        let r = ModuleRegistry { slots };
        assert(r@ =~= Map::<ModuleId, T>::empty());
        r
    }

    /// Whether an instance of module `id` is present.
    pub fn contains(&self, id: ModuleId) -> (b: bool)
        ensures
            b == self@.contains_key(id),
    {
        id < self.slots.len() && self.slots[id].is_some()
    }

    /// The instance of module `id`, or `NotRegistered` when none was installed.
    pub fn get(&self, id: ModuleId) -> (r: Result<&T, RegistryError>)
        ensures
            match r {
                Ok(m) => self@.contains_key(id) && *m == self@[id],
                Err(e) => !self@.contains_key(id) && e == RegistryError::NotRegistered(id),
            },
    {
        if id < self.slots.len() {
            match &self.slots[id] {
                Some(m) => Ok(m),
                None => Err(RegistryError::NotRegistered(id)),
            }
        } else {
            Err(RegistryError::NotRegistered(id))
        }
    }

    /// Places the first instance of module `id`.
    pub(crate) fn insert(&mut self, id: ModuleId, m: T)
        requires
            id < old(self).capacity(),
            !old(self)@.contains_key(id),
        ensures
            final(self)@ == old(self)@.insert(id, m),
            final(self).capacity() == old(self).capacity(),
    {
        self.slots.set(id, Some(m));
        assert(self@ =~= old(self)@.insert(id, m));
    }
}

} // verus!
