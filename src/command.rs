//! Command identities and the table that maps each one to its descriptor.
use vstd::prelude::*;

use crate::options::OptionSpec;

verus! {

/// How a command is invoked.
#[derive(Debug, Clone, Copy, PartialEq, Eq, Structural)]
pub enum CommandKind {
    /// Typed in the chat input.
    ChatInput,
    /// Picked from the context menu of a message.
    MessageMenu,
    /// Picked from the context menu of a user.
    UserMenu,
}

/// A command's identity: its name and how it is invoked.
#[derive(Debug)]
pub struct CommandKey {
    pub name: String,
    pub kind: CommandKind,
}

impl View for CommandKey {
    type V = (Seq<char>, CommandKind);

    open spec fn view(&self) -> (Seq<char>, CommandKind) {
        (self.name@, self.kind)
    }
}

impl CommandKey {
    pub fn new(name: &str, kind: CommandKind) -> (k: CommandKey)
        ensures
            k@ == (name@, kind),
    {
        CommandKey { name: name.to_string(), kind }
    }

    pub fn same(&self, other: &CommandKey) -> (b: bool)
        ensures
            b == (self@ == other@),
    {
        self.kind == other.kind && self.name == other.name
    }
}

/// What a module registers for one command: its identity, the community it
/// is restricted to (none: visible everywhere), its description and declared
/// inputs, and the runner that executes it.
pub struct CommandDescriptor<C> {
    pub key: CommandKey,
    pub scope: Option<u64>,
    pub description: String,
    pub options: Vec<OptionSpec>,
    pub runner: C,
}

pub open spec fn key_of<C>(d: CommandDescriptor<C>) -> (Seq<char>, CommandKind) {
    d.key@
}

/// Descriptors by command identity, at most one per identity.
pub struct CommandTable<C> {
    entries: Vec<CommandDescriptor<C>>,
}

impl<C> View for CommandTable<C> {
    type V = Map<(Seq<char>, CommandKind), CommandDescriptor<C>>;

    closed spec fn view(&self) -> Map<(Seq<char>, CommandKind), CommandDescriptor<C>> {
        Map::new(
            |k: (Seq<char>, CommandKind)| exists|i: int| 0 <= i < self.entries@.len() && #[trigger] key_of(self.entries@[i]) == k,
            |k: (Seq<char>, CommandKind)| self.entries@[choose|i: int| 0 <= i < self.entries@.len() && #[trigger] key_of(self.entries@[i]) == k],
        )
    }
}

impl<C> CommandTable<C> {
    /// No two entries share an identity.
    pub closed spec fn wf(&self) -> bool {
        forall|i: int, j: int|
            0 <= i < self.entries@.len() && 0 <= j < self.entries@.len() && i != j
                ==> key_of(#[trigger] self.entries@[i]) != key_of(#[trigger] self.entries@[j])
    }

    proof fn lemma_entry_in_view(&self, i: int)
        requires
            self.wf(),
            0 <= i < self.entries@.len(),
        ensures
            self@.contains_key(key_of(self.entries@[i])),
            self@[key_of(self.entries@[i])] == self.entries@[i],
    {
        let k = key_of(self.entries@[i]);
        assert(self@.contains_key(k));
        let j = choose|j: int| 0 <= j < self.entries@.len() && #[trigger] key_of(self.entries@[j]) == k;
        assert(i == j);
    }

    pub fn new() -> (t: Self)
        ensures
            t.wf(),
            t@ == Map::<(Seq<char>, CommandKind), CommandDescriptor<C>>::empty(),
    {
        let t = CommandTable { entries: Vec::new() };
        assert(t@ =~= Map::<(Seq<char>, CommandKind), CommandDescriptor<C>>::empty());
        t
    }

    fn position(&self, key: &CommandKey) -> (r: Option<usize>)
        requires
            self.wf(),
        ensures
            match r {
                Some(i) => i < self.entries@.len() && key_of(self.entries@[i as int]) == key@,
                None => !self@.contains_key(key@),
            },
    {
        let mut i: usize = 0;
        while i < self.entries.len()
            invariant
                i <= self.entries@.len(),
                forall|j: int| 0 <= j < i ==> key_of(#[trigger] self.entries@[j]) != key@,
            decreases self.entries@.len() - i,
        {
            if self.entries[i].key.same(key) {
                return Some(i);
            }
            i = i + 1;
        }
        None
    }

    /// Registers `d` under its identity. A descriptor already registered
    /// under the same identity is replaced: the last registration wins.
    pub fn insert(&mut self, d: CommandDescriptor<C>)
        requires
            old(self).wf(),
        ensures
            final(self).wf(),
            final(self)@ == old(self)@.insert(key_of(d), d),
    {
        let ghost k = key_of(d);
        match self.position(&d.key) {
            Some(i) => {
                let ghost e0 = self.entries@;
                self.entries.set(i, d);
                proof {
                    let e = self.entries@;
                    assert(forall|j: int| 0 <= j < e.len() ==> key_of(#[trigger] e[j]) == key_of(e0[j]));
                    assert forall|k2: (Seq<char>, CommandKind)| #![auto] self@.contains_key(k2) implies old(self)@.insert(k, d).contains_key(k2) && self@[k2] == old(self)@.insert(k, d)[k2] by {
                        let j = choose|j: int| 0 <= j < e.len() && #[trigger] key_of(e[j]) == k2;
                        self.lemma_entry_in_view(j);
                        if j != i {
                            old(self).lemma_entry_in_view(j);
                        }
                    }
                    assert forall|k2: (Seq<char>, CommandKind)| #![auto] old(self)@.insert(k, d).contains_key(k2) implies self@.contains_key(k2) by {
                        if k2 == k {
                            self.lemma_entry_in_view(i as int);
                        } else {
                            let j = choose|j: int| 0 <= j < e0.len() && #[trigger] key_of(e0[j]) == k2;
                            self.lemma_entry_in_view(j);
                        }
                    }
                    assert(self@ =~= old(self)@.insert(k, d));
                }
            },
            None => {
                let ghost e0 = self.entries@;
                self.entries.push(d);
                proof {
                    let e = self.entries@;
                    let last = e.len() - 1;
                    assert(e[last] == d);
                    assert forall|j: int| 0 <= j < e0.len() implies key_of(#[trigger] e0[j]) != k by {
                        old(self).lemma_entry_in_view(j);
                    }
                    assert(self.wf()) by {
                        assert forall|a: int, b: int| 0 <= a < e.len() && 0 <= b < e.len() && a != b implies key_of(#[trigger] e[a]) != key_of(#[trigger] e[b]) by {
                            if a < last && b < last {
                                assert(e[a] == e0[a] && e[b] == e0[b]);
                            } else if a < last {
                                assert(e[a] == e0[a]);
                            } else {
                                assert(e[b] == e0[b]);
                            }
                        }
                    }
                    assert forall|k2: (Seq<char>, CommandKind)| #![auto] self@.contains_key(k2) implies old(self)@.insert(k, d).contains_key(k2) && self@[k2] == old(self)@.insert(k, d)[k2] by {
                        let j = choose|j: int| 0 <= j < e.len() && #[trigger] key_of(e[j]) == k2;
                        self.lemma_entry_in_view(j);
                        if j != last {
                            assert(e[j] == e0[j]);
                            old(self).lemma_entry_in_view(j);
                        }
                    }
                    assert forall|k2: (Seq<char>, CommandKind)| #![auto] old(self)@.insert(k, d).contains_key(k2) implies self@.contains_key(k2) by {
                        if k2 == k {
                            self.lemma_entry_in_view(last);
                        } else {
                            let j = choose|j: int| 0 <= j < e0.len() && #[trigger] key_of(e0[j]) == k2;
                            assert(e[j] == e0[j]);
                            self.lemma_entry_in_view(j);
                        }
                    }
                    assert(self@ =~= old(self)@.insert(k, d));
                }
            },
        }
    }

    /// The descriptor registered under `key`, if any.
    pub fn get(&self, key: &CommandKey) -> (r: Option<&CommandDescriptor<C>>)
        requires
            self.wf(),
        ensures
            match r {
                Some(d) => self@.contains_key(key@) && *d == self@[key@],
                None => !self@.contains_key(key@),
            },
    {
        match self.position(key) {
            Some(i) => {
                proof {
                    self.lemma_entry_in_view(i as int);
                }
                Some(&self.entries[i])
            },
            None => None,
        }
    }

    /// Number of registered commands.
    pub fn len(&self) -> (n: usize)
        requires
            self.wf(),
        ensures
            n == self@.len(),
    {
        proof {
            self.lemma_len();
        }
        self.entries.len()
    }

    /// Every registered descriptor, each once, for registering the commands
    /// with the platform at startup.
    pub fn all(&self) -> (r: &[CommandDescriptor<C>])
        requires
            self.wf(),
        ensures
            r@.len() == self@.len(),
            forall|i: int| 0 <= i < r@.len() ==> #[trigger] self@.contains_key(key_of(r@[i])) && self@[key_of(r@[i])] == r@[i],
            forall|k: (Seq<char>, CommandKind)| #[trigger] self@.contains_key(k) ==> exists|i: int| 0 <= i < r@.len() && key_of(r@[i]) == k,
    {
        proof {
            self.lemma_len();
            assert forall|i: int| 0 <= i < self.entries@.len() implies #[trigger] self@.contains_key(key_of(self.entries@[i])) && self@[key_of(self.entries@[i])] == self.entries@[i] by {
                self.lemma_entry_in_view(i);
            }
        }
        self.entries.as_slice()
    }

    proof fn lemma_len(&self)
        requires
            self.wf(),
        ensures
            self@.dom().finite(),
            self@.len() == self.entries@.len(),
    {
        let e = self.entries@;
        let keys = e.map_values(|d: CommandDescriptor<C>| key_of(d));
        assert(keys.no_duplicates()) by {
            assert forall|i: int, j: int| 0 <= i < keys.len() && 0 <= j < keys.len() && i != j implies keys[i] != keys[j] by {
                assert(key_of(e[i]) != key_of(e[j]));
            }
        }
        keys.unique_seq_to_set();
        assert(self@.dom() =~= keys.to_set()) by {
            assert forall|k: (Seq<char>, CommandKind)| self@.dom().contains(k) implies keys.to_set().contains(k) by {
                let j = choose|j: int| 0 <= j < e.len() && #[trigger] key_of(e[j]) == k;
                assert(keys[j] == k);
            }
            assert forall|k: (Seq<char>, CommandKind)| keys.to_set().contains(k) implies self@.dom().contains(k) by {
                let j = choose|j: int| 0 <= j < keys.len() && keys[j] == k;
                assert(key_of(e[j]) == k);
            }
        }
    }
}

/// `t` after registering each of `ds`, in order.
pub open spec fn insert_all<C>(
    t: Map<(Seq<char>, CommandKind), CommandDescriptor<C>>,
    ds: Seq<CommandDescriptor<C>>,
) -> Map<(Seq<char>, CommandKind), CommandDescriptor<C>>
    decreases ds.len(),
{
    if ds.len() == 0 {
        t
    } else {
        insert_all(t, ds.drop_last()).insert(key_of(ds.last()), ds.last())
    }
}

/// Registrations are last-write-wins: after registering the descriptors
/// `ds` in order, the identity of `ds[i]` maps to `ds[i]` unless a later
/// one of `ds` has the same identity.
pub proof fn lemma_last_registration_wins<C>(
    t: Map<(Seq<char>, CommandKind), CommandDescriptor<C>>,
    ds: Seq<CommandDescriptor<C>>,
    i: int,
)
    requires
        0 <= i < ds.len(),
        forall|j: int| i < j < ds.len() ==> key_of(#[trigger] ds[j]) != key_of(ds[i]),
    ensures
        insert_all(t, ds).contains_key(key_of(ds[i])),
        insert_all(t, ds)[key_of(ds[i])] == ds[i],
    decreases ds.len(),
{
    if i < ds.len() - 1 {
        let rest = ds.drop_last();
        assert forall|j: int| i < j < rest.len() implies key_of(#[trigger] rest[j]) != key_of(rest[i]) by {
            assert(rest[j] == ds[j]);
        }
        lemma_last_registration_wins(t, rest, i);
        assert(key_of(ds.last()) != key_of(ds[i])) by {
            assert(ds[ds.len() - 1] == ds.last());
        }
    }
}

} // verus!
