//! Registries of streams and sessions.
use crate::domain::{ClientSessionId, VideoSourceId};
use dashmap::DashMap;
use vstd::prelude::*;

verus! {

/// `dashmap::DashMap`, a map that can be shared between threads.
#[verifier::external_type_specification]
#[verifier::external_body]
#[verifier::reject_recursive_types(K)]
#[verifier::reject_recursive_types(V)]
#[verifier::reject_recursive_types(S)]
pub struct ExDashMap<K, V, S>(DashMap<K, V, S>);

/// What a map from names to slots holds.
pub uninterp spec fn named_slots(map: DashMap<String, u64>) -> Map<Seq<char>, u64>;

/// What a map from session ids to slots holds.
pub uninterp spec fn session_slots(map: DashMap<u128, u64>) -> Map<u128, u64>;

/// `DashMap::new` makes an empty map.
#[verifier::external_body]
fn new_named_map() -> (r: DashMap<String, u64>)
    ensures
        (named_slots(r) == Map::<Seq<char>, u64>::empty()),
{
    DashMap::new()
}

/// `DashMap::contains_key` tells whether a key is in the map.
#[verifier::external_body]
fn named_contains(map: &DashMap<String, u64>, key: &String) -> (r: bool)
    ensures
        r == named_slots(*map).contains_key(key@),
{
    map.contains_key(key)
}

/// `DashMap::get` finds the value of a key.
#[verifier::external_body]
fn named_get(map: &DashMap<String, u64>, key: &String) -> (r: Option<u64>)
    ensures
        r == named_slots(*map).get(key@),
{
    map.get(key).map(|entry| *entry)
}

/// `DashMap::insert` sets the value of a key and returns the one it had.
#[verifier::external_body]
fn named_insert(map: &mut DashMap<String, u64>, key: String, value: u64) -> (r: Option<u64>)
    ensures
        r == named_slots(*old(map)).get(key@),
        named_slots(*final(map)) == named_slots(*old(map)).insert(key@, value),
{
    map.insert(key, value)
}

/// `DashMap::remove` takes a key out and returns the value it had.
#[verifier::external_body]
fn named_remove(map: &mut DashMap<String, u64>, key: &String) -> (r: Option<u64>)
    ensures
        r == named_slots(*old(map)).get(key@),
        named_slots(*final(map)) == named_slots(*old(map)).remove(key@),
{
    map.remove(key).map(|entry| entry.1)
}

/// A list of texts holds each key of a map once.
pub open spec fn lists_names(names: Seq<String>, keys: Set<Seq<char>>) -> bool {
    &&& forall|i: int| 0 <= i < names.len() ==> keys.contains((#[trigger] names[i])@)
    &&& forall|k: Seq<char>| #[trigger]
        keys.contains(k) ==> exists|i: int| 0 <= i < names.len() && (#[trigger] names[i])@ == k
    &&& forall|i: int, j: int|
        0 <= i < j < names.len() ==> (#[trigger] names[i])@ != (#[trigger] names[j])@
}

/// `DashMap::iter` yields every entry once, in no particular order; this
/// collects the keys.
#[verifier::external_body]
fn named_keys(map: &DashMap<String, u64>) -> (r: Vec<String>)
    ensures
        lists_names(r@, named_slots(*map).dom()),
{
    map.iter().map(|entry| entry.key().clone()).collect()
}

/// `DashMap::new` makes an empty map.
#[verifier::external_body]
fn new_session_map() -> (r: DashMap<u128, u64>)
    ensures
        (session_slots(r) == Map::<u128, u64>::empty()),
{
    DashMap::new()
}

/// `DashMap::get` finds the value of a key.
#[verifier::external_body]
fn session_get(map: &DashMap<u128, u64>, key: &u128) -> (r: Option<u64>)
    ensures
        r == session_slots(*map).get(*key),
{
    map.get(key).map(|entry| *entry)
}

/// `DashMap::insert` sets the value of a key and returns the one it had.
#[verifier::external_body]
fn session_insert(map: &mut DashMap<u128, u64>, key: u128, value: u64) -> (r: Option<u64>)
    ensures
        r == session_slots(*old(map)).get(key),
        session_slots(*final(map)) == session_slots(*old(map)).insert(key, value),
{
    map.insert(key, value)
}

/// `DashMap::remove` takes a key out and returns the value it had.
#[verifier::external_body]
fn session_remove(map: &mut DashMap<u128, u64>, key: &u128) -> (r: Option<u64>)
    ensures
        r == session_slots(*old(map)).get(*key),
        session_slots(*final(map)) == session_slots(*old(map)).remove(*key),
{
    map.remove(key).map(|entry| entry.1)
}

/// A list of ids holds each key of a map once.
pub open spec fn lists_ids(ids: Seq<u128>, keys: Set<u128>) -> bool {
    &&& forall|i: int| 0 <= i < ids.len() ==> keys.contains(#[trigger] ids[i])
    &&& forall|k: u128| #[trigger] keys.contains(k) ==> ids.contains(k)
    &&& ids.no_duplicates()
}

/// `DashMap::iter` yields every entry once, in no particular order; this
/// collects the keys.
#[verifier::external_body]
fn session_keys(map: &DashMap<u128, u64>) -> (r: Vec<u128>)
    ensures
        lists_ids(r@, session_slots(*map).dom()),
{
    map.iter().map(|entry| *entry.key()).collect()
}

/// Values in numbered slots. A slot that was given up is used again.
#[derive(Debug)]
pub struct Slots<V> {
    values: Vec<Option<V>>,
    free: Vec<usize>,
}

impl<V> Slots<V> {
    /// The slots: some hold a value.
    pub closed spec fn slots(self) -> Seq<Option<V>> {
        self.values@
    }

    /// The slots on the list of free ones are free.
    pub closed spec fn valid(self) -> bool {
        &&& forall|i: int|
            0 <= i < self.free@.len() ==> (#[trigger] self.free@[i]) < self.values@.len()
                && self.values@[self.free@[i] as int] is None
        &&& self.free@.no_duplicates()
    }

    /// The slot holds a value.
    pub open spec fn holds(self, slot: u64) -> bool {
        slot < self.slots().len() && self.slots()[slot as int] is Some
    }

    fn new() -> (r: Self)
        ensures
            r.valid(),
            r.slots().len() == 0,
    {
        Slots { values: Vec::new(), free: Vec::new() }
    }

    /// Puts a value into a free slot.
    fn add_value(&mut self, value: V) -> (r: u64)
        requires
            old(self).valid(),
        ensures
            final(self).valid(),
            !old(self).holds(r),
            final(self).holds(r),
            final(self).slots()[r as int] == Some(value),
            final(self).slots().len() >= old(self).slots().len(),
            forall|i: int|
                0 <= i < old(self).slots().len() && i != r ==> #[trigger] final(self).slots()[i]
                    == old(self).slots()[i],
    {
        let ghost values = self.values@;
        let ghost free = self.free@;
        match self.free.pop() {
            Some(slot) => {
                proof {
                    assert(free.last() == slot);
                    assert(free[free.len() - 1] == slot);
                }
                self.values.set(slot, Some(value));
                proof {
                    assert forall|i: int| 0 <= i < self.free@.len() implies (
                    #[trigger] self.free@[i]) < self.values@.len()
                        && self.values@[self.free@[i] as int] is None by {
                        assert(self.free@[i] == free[i]);
                        assert(free[i] != free[free.len() - 1]);
                    }
                }
                slot as u64
            },
            None => {
                let slot: usize = self.values.len();
                self.values.push(Some(value));
                slot as u64
            },
        }
    }

    /// The number of a slot that exists, as an index.
    fn index(&self, slot: u64) -> (r: usize)
        requires
            slot < self.slots().len(),
        ensures
            r == slot,
    {
        let count: usize = self.values.len();
        assert(slot < count);
        slot as usize
    }

    /// Takes the value out of a slot and gives the slot up.
    fn take_value(&mut self, slot: u64) -> (r: V)
        requires
            old(self).valid(),
            old(self).holds(slot),
        ensures
            final(self).valid(),
            Some(r) == old(self).slots()[slot as int],
            final(self).slots() == old(self).slots().update(slot as int, None),
    {
        let i: usize = self.index(slot);
        let mut value: Option<V> = None;
        self.values.set_and_swap(i, &mut value);
        proof {
            assert forall|k: int| 0 <= k < self.free@.len() implies self.free@[k] != i by {
                assert(old(self).values@[self.free@[k] as int] is None);
            }
        }
        self.free.push(i);
        value.unwrap()
    }

    /// The value in a slot.
    fn value(&self, slot: u64) -> (r: &V)
        requires
            self.holds(slot),
        ensures
            Some(*r) == self.slots()[slot as int],
    {
        let i: usize = self.index(slot);
        self.values[i].as_ref().unwrap()
    }

    /// The value in a slot, to be changed.
    fn value_mut(&mut self, slot: u64) -> (r: &mut V)
        requires
            old(self).valid(),
            old(self).holds(slot),
        ensures
            Some(*r) == old(self).slots()[slot as int],
            final(self).valid(),
            final(self).slots() == old(self).slots().update(slot as int, Some(*final(r))),
    {
        let i: usize = self.index(slot);
        self.values[i].as_mut().unwrap()
    }
}

/// Values by stream name.
#[derive(Debug)]
pub struct StreamRegistry<V> {
    keys: DashMap<String, u64>,
    slots: Slots<V>,
}

impl<V> View for StreamRegistry<V> {
    type V = Map<Seq<char>, V>;

    closed spec fn view(&self) -> Map<Seq<char>, V> {
        named_slots(self.keys).map_values(|slot: u64| self.slots.slots()[slot as int]->0)
    }
}

impl<V> StreamRegistry<V> {
    /// Every key has a slot of its own, which holds a value.
    pub closed spec fn valid(self) -> bool {
        let slots = named_slots(self.keys);
        &&& self.slots.valid()
        &&& forall|k: Seq<char>| #[trigger]
            slots.contains_key(k) ==> self.slots.holds(slots[k])
        &&& forall|a: Seq<char>, b: Seq<char>| #[trigger]
            slots.contains_key(a) && #[trigger] slots.contains_key(b) && a != b ==> slots[a]
                != slots[b]
    }

    /// An empty registry.
    pub fn new() -> (r: Self)
        ensures
            r.valid(),
            r@ == Map::<Seq<char>, V>::empty(),
    {
        let r = StreamRegistry { keys: new_named_map(), slots: Slots::new() };
        assert(r@ =~= Map::<Seq<char>, V>::empty());
        r
    }

    /// Checks whether a key is there.
    pub fn contains(&self, key: &VideoSourceId) -> (r: bool)
        ensures
            r == self@.contains_key(key@),
    {
        named_contains(&self.keys, key)
    }

    /// The value of a key.
    pub fn get(&self, key: &VideoSourceId) -> (r: Option<&V>)
        requires
            self.valid(),
        ensures
            match r {
                Some(value) => self@.contains_key(key@) && self@[key@] == *value,
                None => !self@.contains_key(key@),
            },
    {
        match named_get(&self.keys, key) {
            Some(slot) => Some(self.slots.value(slot)),
            None => None,
        }
    }

    /// The value of a key, to be changed.
    pub fn get_mut(&mut self, key: &VideoSourceId) -> (r: Option<&mut V>)
        requires
            old(self).valid(),
        ensures
            final(self).valid(),
            match r {
                Some(value) => {
                    &&& old(self)@.contains_key(key@)
                    &&& *value == old(self)@[key@]
                    &&& final(self)@ == old(self)@.insert(key@, *final(value))
                },
                None => !old(self)@.contains_key(key@) && final(self)@ == old(self)@,
            },
    {
        match named_get(&self.keys, key) {
            Some(slot) => Some(self.slots.value_mut(slot)),
            None => None,
        }
    }

    /// Sets the value of a key and returns the one it had.
    pub fn insert(&mut self, key: VideoSourceId, value: V) -> (r: Option<V>)
        requires
            old(self).valid(),
        ensures
            final(self).valid(),
            final(self)@ == old(self)@.insert(key@, value),
            r == old(self)@.get(key@),
    {
        let ghost before = named_slots(self.keys);
        let ghost before_slots = self.slots.slots();
        let replaced = match named_get(&self.keys, &key) {
            Some(slot) => Some(self.slots.take_value(slot)),
            None => None,
        };
        let slot: u64 = self.slots.add_value(value);
        let ghost k = key@;
        let _ = named_insert(&mut self.keys, key, slot);
        proof {
            assert forall|a: Seq<char>| #[trigger]
                before.contains_key(a) && a != k implies self.slots.holds(before[a]) && before[a]
                != slot && self.slots.slots()[before[a] as int] == before_slots[before[a] as int] by {
                if before.contains_key(k) {
                    assert(before[a] != before[k]);
                }
            }
            assert(self@ =~= old(self)@.insert(k, value));
        }
        replaced
    }

    /// Takes a key out and returns the value it had.
    pub fn remove(&mut self, key: &VideoSourceId) -> (r: Option<V>)
        requires
            old(self).valid(),
        ensures
            final(self).valid(),
            final(self)@ == old(self)@.remove(key@),
            r == old(self)@.get(key@),
    {
        let ghost before = named_slots(self.keys);
        match named_remove(&mut self.keys, key) {
            Some(slot) => {
                let value = self.slots.take_value(slot);
                proof {
                    assert forall|a: Seq<char>| #[trigger]
                        before.contains_key(a) && a != key@ implies before[a] != slot by {
                        assert(before.contains_key(key@));
                    }
                    assert(self@ =~= old(self)@.remove(key@));
                }
                Some(value)
            },
            None => {
                assert(self@ =~= old(self)@.remove(key@));
                None
            },
        }
    }

    /// The keys, in no particular order.
    pub fn keys(&self) -> (r: Vec<VideoSourceId>)
        ensures
            lists_names(r@, self@.dom()),
    {
        assert(self@.dom() =~= named_slots(self.keys).dom());
        named_keys(&self.keys)
    }
}

/// Values by session id.
#[derive(Debug)]
pub struct SessionRegistry<V> {
    keys: DashMap<u128, u64>,
    slots: Slots<V>,
}

impl<V> View for SessionRegistry<V> {
    type V = Map<ClientSessionId, V>;

    closed spec fn view(&self) -> Map<ClientSessionId, V> {
        session_slots(self.keys).map_values(|slot: u64| self.slots.slots()[slot as int]->0)
    }
}

impl<V> SessionRegistry<V> {
    /// Every key has a slot of its own, which holds a value.
    pub closed spec fn valid(self) -> bool {
        let slots = session_slots(self.keys);
        &&& self.slots.valid()
        &&& forall|k: ClientSessionId| #[trigger]
            slots.contains_key(k) ==> self.slots.holds(slots[k])
        &&& forall|a: ClientSessionId, b: ClientSessionId| #[trigger]
            slots.contains_key(a) && #[trigger] slots.contains_key(b) && a != b ==> slots[a]
                != slots[b]
    }

    /// An empty registry.
    pub fn new() -> (r: Self)
        ensures
            r.valid(),
            r@ == Map::<ClientSessionId, V>::empty(),
    {
        let r = SessionRegistry { keys: new_session_map(), slots: Slots::new() };
        assert(r@ =~= Map::<ClientSessionId, V>::empty());
        r
    }

    /// The value of a key.
    pub fn get(&self, key: &ClientSessionId) -> (r: Option<&V>)
        requires
            self.valid(),
        ensures
            match r {
                Some(value) => self@.contains_key(*key) && self@[*key] == *value,
                None => !self@.contains_key(*key),
            },
    {
        match session_get(&self.keys, key) {
            Some(slot) => Some(self.slots.value(slot)),
            None => None,
        }
    }

    /// The value of a key, to be changed.
    pub fn get_mut(&mut self, key: &ClientSessionId) -> (r: Option<&mut V>)
        requires
            old(self).valid(),
        ensures
            final(self).valid(),
            match r {
                Some(value) => {
                    &&& old(self)@.contains_key(*key)
                    &&& *value == old(self)@[*key]
                    &&& final(self)@ == old(self)@.insert(*key, *final(value))
                },
                None => !old(self)@.contains_key(*key) && final(self)@ == old(self)@,
            },
    {
        match session_get(&self.keys, key) {
            Some(slot) => Some(self.slots.value_mut(slot)),
            None => None,
        }
    }

    /// Sets the value of a key and returns the one it had.
    pub fn insert(&mut self, key: ClientSessionId, value: V) -> (r: Option<V>)
        requires
            old(self).valid(),
        ensures
            final(self).valid(),
            final(self)@ == old(self)@.insert(key, value),
            r == old(self)@.get(key),
    {
        let ghost before = session_slots(self.keys);
        let ghost before_slots = self.slots.slots();
        let replaced = match session_get(&self.keys, &key) {
            Some(slot) => Some(self.slots.take_value(slot)),
            None => None,
        };
        let slot: u64 = self.slots.add_value(value);
        let ghost k = key;
        let _ = session_insert(&mut self.keys, key, slot);
        proof {
            assert forall|a: ClientSessionId| #[trigger]
                before.contains_key(a) && a != k implies self.slots.holds(before[a]) && before[a]
                != slot && self.slots.slots()[before[a] as int] == before_slots[before[a] as int] by {
                if before.contains_key(k) {
                    assert(before[a] != before[k]);
                }
            }
            assert(self@ =~= old(self)@.insert(k, value));
        }
        replaced
    }

    /// Takes a key out and returns the value it had.
    pub fn remove(&mut self, key: &ClientSessionId) -> (r: Option<V>)
        requires
            old(self).valid(),
        ensures
            final(self).valid(),
            final(self)@ == old(self)@.remove(*key),
            r == old(self)@.get(*key),
    {
        let ghost before = session_slots(self.keys);
        match session_remove(&mut self.keys, key) {
            Some(slot) => {
                let value = self.slots.take_value(slot);
                proof {
                    assert forall|a: ClientSessionId| #[trigger]
                        before.contains_key(a) && a != *key implies before[a] != slot by {
                        assert(before.contains_key(*key));
                    }
                    assert(self@ =~= old(self)@.remove(*key));
                }
                Some(value)
            },
            None => {
                assert(self@ =~= old(self)@.remove(*key));
                None
            },
        }
    }

    /// The keys, in no particular order.
    pub fn keys(&self) -> (r: Vec<ClientSessionId>)
        ensures
            lists_ids(r@, self@.dom()),
    {
        assert(self@.dom() =~= session_slots(self.keys).dom());
        session_keys(&self.keys)
    }
}

} // verus!
