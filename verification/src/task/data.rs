//! Task-local storage.
//!
//! A task owns one [`LocalMap`]. A [`LocalKey`] names one slot in the map of
//! whichever task is being polled: the slot is created on first access, by the
//! key's initializer, and lives until the task is destroyed. Keys are told
//! apart by an identity that a [`KeyRegistry`] mints, never by their value type
//! or their initializer.

use vstd::prelude::*;
use std::collections::hash_map::Entry;
use std::collections::HashMap;
use std::marker::PhantomData;
use crate::task::context::Context;

verus! {

/// Marks the types whose values may be kept in task-local storage.
///
/// A task may migrate between threads, and its storage with it, so a stored
/// value must be `Send`; nothing else is asked of it.
pub trait Opaque: Send {

}

impl<T: Send> Opaque for T {

}

/// The local storage of one task: a map from key identities to owned values.
///
/// The map is owned by exactly one task and dropped with it, which drops every
/// stored value. All slots of a map hold the same type `V`, so a slot can never
/// be read back as another type than it was written as; a task that needs
/// several types stores a sum of them.
///
/// The view of a map is the mathematical map from identities to values.
pub struct LocalMap<V: Opaque> {
    slots: HashMap<u64, V>,
}

impl<V: Opaque> View for LocalMap<V> {
    type V = Map<u64, V>;

    closed spec fn view(&self) -> Map<u64, V> {
        self.slots@
    }
}

/// An empty local storage, as every task starts with.
pub fn local_map<V: Opaque>() -> (map: LocalMap<V>)
    ensures
        map@ == Map::<u64, V>::empty(),
{
    LocalMap { slots: HashMap::new() }
}

impl<V: Opaque> LocalMap<V> {
    /// The number of slots that have been initialized so far.
    pub fn len(&self) -> (n: usize)
        ensures
            n == self@.len(),
            self@.dom().finite(),
    {
        self.slots.len()
    }

    /// Whether the slot with identity `id` has been initialized.
    pub fn contains(&self, id: u64) -> (present: bool)
        ensures
            present == self@.contains_key(id),
    {
        self.slots.contains_key(&id)
    }
}

/// What the storage `map` holds after an access to the slot `id` in which the
/// caller leaves `left` behind: that slot holds `left`, every other slot is
/// untouched.
pub open spec fn after_access<V>(map: Map<u64, V>, id: u64, left: V) -> Map<u64, V> {
    map.insert(id, left)
}

/// Whether an access to the slot `id` of `map` has to run the initializer.
pub open spec fn needs_init<V>(map: Map<u64, V>, id: u64) -> bool {
    !map.contains_key(id)
}

/// What the storage `map` holds after the accesses of `accesses`, in this
/// order. Each access is given by the identity of its slot and by the value
/// that the caller leaves in the slot.
pub open spec fn after_accesses<V>(map: Map<u64, V>, accesses: Seq<(u64, V)>) -> Map<u64, V>
    decreases accesses.len(),
{
    if accesses.len() == 0 {
        map
    } else {
        after_accesses(
            after_access(map, accesses[0].0, accesses[0].1),
            accesses.drop_first(),
        )
    }
}

/// How often the accesses of `accesses`, made in this order on the storage
/// `map`, run the initializer of the slot `id`.
pub open spec fn initializer_runs<V>(map: Map<u64, V>, accesses: Seq<(u64, V)>, id: u64) -> nat
    decreases accesses.len(),
{
    if accesses.len() == 0 {
        0
    } else {
        let now: nat = if accesses[0].0 == id && needs_init(map, id) {
            1
        } else {
            0
        };
        now + initializer_runs(
            after_access(map, accesses[0].0, accesses[0].1),
            accesses.drop_first(),
            id,
        )
    }
}

/// Whether one of the accesses of `accesses` is to the slot `id`.
pub open spec fn accesses_slot<V>(accesses: Seq<(u64, V)>, id: u64) -> bool {
    exists|i: int| 0 <= i < accesses.len() && (#[trigger] accesses[i]).0 == id
}

/// On whatever storage a run of accesses starts, it runs the initializer of a
/// slot once if the slot is missing and is accessed, and not at all otherwise.
proof fn lemma_initializer_runs_from<V>(map: Map<u64, V>, accesses: Seq<(u64, V)>, id: u64)
    ensures
        initializer_runs(map, accesses, id) == if needs_init(map, id) && accesses_slot(
            accesses,
            id,
        ) {
            1nat
        } else {
            0nat
        },
    decreases accesses.len(),
{
    if accesses.len() > 0 {
        let rest = accesses.drop_first();
        let next = after_access(map, accesses[0].0, accesses[0].1);
        lemma_initializer_runs_from(next, rest, id);
        if accesses_slot(rest, id) {
            let i = choose|i: int| 0 <= i < rest.len() && (#[trigger] rest[i]).0 == id;
            assert(accesses[i + 1].0 == id);
        }
        if accesses_slot(accesses, id) && accesses[0].0 != id {
            let i = choose|i: int| 0 <= i < accesses.len() && (#[trigger] accesses[i]).0 == id;
            assert(rest[i - 1].0 == id);
        }
    }
}

/// The initializer of a key runs exactly once per task.
///
/// Follow the storage of one task from its creation through any number of
/// accesses, through whatever keys, within one poll or across many. If the
/// slot `id` is accessed at all, its initializer runs exactly once, however
/// often the slot is accessed; if it is never accessed, the initializer never
/// runs.
pub proof fn lemma_initializer_runs_once<V>(accesses: Seq<(u64, V)>, id: u64)
    ensures
        initializer_runs(Map::<u64, V>::empty(), accesses, id) == if accesses_slot(accesses, id) {
            1nat
        } else {
            0nat
        },
{
    lemma_initializer_runs_from(Map::<u64, V>::empty(), accesses, id);
}

/// Distinct keys never interfere.
///
/// Whatever is written through other keys, which hold values of the very
/// same type, the slot `id` is left alone: accesses to other slots neither
/// create it nor change what it holds.
pub proof fn lemma_distinct_keys_are_isolated<V>(map: Map<u64, V>, accesses: Seq<(u64, V)>, id: u64)
    requires
        !accesses_slot(accesses, id),
    ensures
        after_accesses(map, accesses).contains_key(id) == map.contains_key(id),
        after_accesses(map, accesses).contains_key(id) ==> after_accesses(map, accesses)[id]
            == map[id],
    decreases accesses.len(),
{
    if accesses.len() > 0 {
        let rest = accesses.drop_first();
        let next = after_access(map, accesses[0].0, accesses[0].1);
        assert(accesses[0].0 != id);
        assert forall|i: int| 0 <= i < rest.len() implies (#[trigger] rest[i]).0 != id by {
            assert(accesses[i + 1].0 != id);
        }
        lemma_distinct_keys_are_isolated(next, rest, id);
    }
}

/// A key for one slot of task-local storage.
///
/// A key pairs an identity with a zero-argument initializer for values of type
/// `T`. The slot that it names exists once per task: accessed through the same
/// key, two tasks see two unrelated values.
#[verifier::reject_recursive_types(T)]
pub struct LocalKey<T, F: Fn() -> T> {
    id: u64,
    init: F,
    marker: PhantomData<T>,
}

impl<T, F: Fn() -> T> LocalKey<T, F> {
    /// Every key can run its initializer.
    #[verifier::type_invariant]
    spec fn can_initialize(&self) -> bool {
        call_requires(self.init, ())
    }
}

impl<T: Opaque, F: Fn() -> T> LocalKey<T, F> {
    /// The identity of the key.
    pub closed spec fn id(&self) -> u64 {
        self.id
    }

    /// The initializer of the key.
    pub closed spec fn initializer(&self) -> F {
        self.init
    }

    /// The identity of the key.
    pub fn token(&self) -> (id: u64)
        ensures
            id == self.id(),
    {
        self.id
    }

    /// Accesses the slot of this key in the storage of the task being polled.
    ///
    /// On the first access in a task the slot is created with a value that the
    /// initializer returns; on every later access the value that the previous
    /// access left is handed out and the initializer does not run. The
    /// reference is good for the rest of the poll at most. No other slot is
    /// read or written.
    pub fn get_mut<'a, 'b>(&self, cx: &'a mut Context<'b, T>) -> (slot: &'a mut T)
        ensures
            if needs_init(old(cx).map@, self.id()) {
                call_ensures(self.initializer(), (), *slot)
            } else {
                *slot == old(cx).map@[self.id()]
            },
            final(cx).map@ == after_access(old(cx).map@, self.id(), *final(slot)),
            *final(final(cx).map) == *final(old(cx).map),
            final(cx).waker == old(cx).waker,
    {
        let map = cx.local_storage();
        match map.slots.entry(self.id) {
            Entry::Occupied(occupied) => occupied.into_mut(),
            Entry::Vacant(vacant) => {
                proof {
                    use_type_invariant(self);
                }
                vacant.insert((self.init)())
            },
        }
    }
}

/// The source of key identities.
///
/// A registry hands out consecutive identities, each once, so the keys
/// declared through one registry are pairwise distinct. Keys that are meant to
/// be used on the same tasks are declared through the same registry, or
/// through registries whose ranges of identities do not meet.
pub struct KeyRegistry {
    next: u64,
}

impl KeyRegistry {
    /// The identity that the next key gets. Every key declared so far has a
    /// smaller one.
    pub closed spec fn upcoming(&self) -> nat {
        self.next as nat
    }

    /// A registry whose first key gets the identity 0.
    pub fn new() -> (registry: KeyRegistry)
        ensures
            registry.upcoming() == 0,
    {
        KeyRegistry { next: 0 }
    }

    /// A registry whose first key gets the identity `first`, for a program
    /// that leaves the identities below `first` to another registry.
    pub fn starting_at(first: u64) -> (registry: KeyRegistry)
        ensures
            registry.upcoming() == first,
    {
        KeyRegistry { next: first }
    }

    /// Declares a new key whose slots start out as `init` says.
    ///
    /// The key gets the upcoming identity, and the one after it is next. The
    /// identity `u64::MAX` is never handed out: once it is the upcoming one,
    /// the registry is exhausted, the result is `None` and the registry is
    /// unchanged.
    pub fn declare<T: Opaque, F: Fn() -> T>(&mut self, init: F) -> (key: Option<LocalKey<T, F>>)
        requires
            call_requires(init, ()),
        ensures
            match key {
                Some(k) => old(self).upcoming() < u64::MAX && k.id() == old(self).upcoming()
                    && k.initializer() == init && final(self).upcoming() == old(self).upcoming()
                    + 1,
                None => old(self).upcoming() == u64::MAX && *final(self) == *old(self),
            },
    {
        if self.next == u64::MAX {
            None
        } else {
            let id: u64 = self.next;
            self.next = id + 1;
            Some(LocalKey { id, init, marker: PhantomData })
        }
    }
}

/// A hasher for key identities that hashes an identity to itself.
///
/// Identities are already distinct numbers, so mixing their bits gains
/// nothing: the digest is the last number written.
pub struct IdHasher {
    id: u64,
}

impl IdHasher {
    /// The digest that `finish` would return.
    pub closed spec fn digest(&self) -> u64 {
        self.id
    }

    /// Feeds the identity `u` to the hasher, replacing what was fed before.
    pub fn write_u64(&mut self, u: u64)
        ensures
            final(self).digest() == u,
    {
        self.id = u;
    }

    /// The digest: the last identity written, or 0 if none was.
    pub fn finish(&self) -> (digest: u64)
        ensures
            digest == self.digest(),
    {
        self.id
    }
}

impl Default for IdHasher {
    /// A hasher to which nothing has been written.
    fn default() -> (hasher: IdHasher)
        ensures
            hasher.digest() == 0,
    {
        IdHasher { id: 0 }
    }
}

} // verus!
