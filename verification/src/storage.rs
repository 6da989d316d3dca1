//! The keyed store that holds everything the registry remembers.
use crate::types::Achievement;
use crate::types::AchievementView;
use crate::types::Address;
use vstd::prelude::*;

verus! {

/// The keys of the store, one variant for each family of slots.
#[derive(Debug, PartialEq, Eq)]
pub enum DataKey {
    /// The identifier allocated last.
    NextId,
    /// The record with the given identifier.
    AchievementById(u64),
    /// The identifiers of the records created by an owner, oldest first.
    AchievementsByOwner(Address),
    /// The identifiers of the records created under a category, oldest first.
    AchievementsByCategory(String),
    /// The administrator.
    Admin,
    /// The mark of a whitelisted verifier.
    Verifier(Address),
}

/// A key as a mathematical value.
pub enum DataKeyView {
    NextId,
    AchievementById(u64),
    AchievementsByOwner(Seq<char>),
    AchievementsByCategory(Seq<char>),
    Admin,
    Verifier(Seq<char>),
}

impl View for DataKey {
    type V = DataKeyView;

    open spec fn view(&self) -> DataKeyView {
        match self {
            DataKey::NextId => DataKeyView::NextId,
            DataKey::AchievementById(id) => DataKeyView::AchievementById(*id),
            DataKey::AchievementsByOwner(owner) => DataKeyView::AchievementsByOwner(owner@),
            DataKey::AchievementsByCategory(category) => DataKeyView::AchievementsByCategory(
                category@,
            ),
            DataKey::Admin => DataKeyView::Admin,
            DataKey::Verifier(address) => DataKeyView::Verifier(address@),
        }
    }
}

impl Clone for DataKey {
    fn clone(&self) -> (r: Self)
        ensures
            r == *self,
    {
        match self {
            DataKey::NextId => DataKey::NextId,
            DataKey::AchievementById(id) => DataKey::AchievementById(*id),
            DataKey::AchievementsByOwner(owner) => DataKey::AchievementsByOwner(owner.clone()),
            DataKey::AchievementsByCategory(category) => DataKey::AchievementsByCategory(
                category.clone(),
            ),
            DataKey::Admin => DataKey::Admin,
            DataKey::Verifier(address) => DataKey::Verifier(address.clone()),
        }
    }
}

impl DataKey {
    /// Whether `self` and `other` name the same slot.
    pub fn same(&self, other: &DataKey) -> (r: bool)
        ensures
            r == (self@ == other@),
    {
        match (self, other) {
            (DataKey::NextId, DataKey::NextId) => true,
            (DataKey::AchievementById(a), DataKey::AchievementById(b)) => *a == *b,
            (DataKey::AchievementsByOwner(a), DataKey::AchievementsByOwner(b)) => a.same(b),
            (DataKey::AchievementsByCategory(a), DataKey::AchievementsByCategory(b)) => *a == *b,
            (DataKey::Admin, DataKey::Admin) => true,
            (DataKey::Verifier(a), DataKey::Verifier(b)) => a.same(b),
            _ => false,
        }
    }
}

/// What a slot of the store can hold.
#[derive(Debug, PartialEq, Eq)]
pub enum Value {
    /// A count of allocated identifiers.
    Counter(u64),
    /// An achievement record.
    Record(Achievement),
    /// A list of record identifiers.
    Ids(Vec<u64>),
    /// An identity.
    Holder(Address),
    /// Nothing but the slot's presence.
    Marker,
}

/// A stored value as a mathematical value.
pub enum ValueView {
    Counter(u64),
    Record(AchievementView),
    Ids(Seq<u64>),
    Holder(Seq<char>),
    Marker,
}

impl View for Value {
    type V = ValueView;

    open spec fn view(&self) -> ValueView {
        match self {
            Value::Counter(n) => ValueView::Counter(*n),
            Value::Record(record) => ValueView::Record(record@),
            Value::Ids(ids) => ValueView::Ids(ids@),
            Value::Holder(address) => ValueView::Holder(address@),
            Value::Marker => ValueView::Marker,
        }
    }
}

impl Clone for Value {
    fn clone(&self) -> (r: Self)
        ensures
            r@ == self@,
    {
        match self {
            Value::Counter(n) => Value::Counter(*n),
            Value::Record(record) => Value::Record(record.clone()),
            Value::Ids(ids) => Value::Ids(ids.clone()),
            Value::Holder(address) => Value::Holder(address.clone()),
            Value::Marker => Value::Marker,
        }
    }
}

/// One occupied slot: a key and the value stored under it.
struct Slot {
    key: DataKey,
    value: Value,
}

/// A keyed store: every key has at most one value.
pub struct Storage {
    slots: Vec<Slot>,
}

impl View for Storage {
    type V = Map<DataKeyView, ValueView>;

    /// The store as a map from the keys of its occupied slots to their values.
    closed spec fn view(&self) -> Map<DataKeyView, ValueView> {
        Map::new(
            |k: DataKeyView| self.holds(k),
            |k: DataKeyView| self.slots[self.place(k)].value@,
        )
    }
}

impl Storage {
    /// No two slots have the same key.
    #[verifier::type_invariant]
    spec fn distinct_keys(&self) -> bool {
        forall|i: int, j: int|
            0 <= i < j < self.slots.len() ==> self.slots[i].key@ != self.slots[j].key@
    }

    spec fn holds(&self, k: DataKeyView) -> bool {
        exists|i: int| 0 <= i < self.slots.len() && #[trigger] self.slots[i].key@ == k
    }

    spec fn place(&self, k: DataKeyView) -> int {
        choose|i: int| 0 <= i < self.slots.len() && #[trigger] self.slots[i].key@ == k
    }

    /// A store with no occupied slot.
    pub fn new() -> (r: Storage)
        ensures
            r@ == Map::<DataKeyView, ValueView>::empty(),
    {
        let r = Storage { slots: Vec::new() };
        assert(r@ =~= Map::<DataKeyView, ValueView>::empty());
        r
    }

    /// The position of the slot with key `key`, if there is one.
    fn find(&self, key: &DataKey) -> (r: Option<usize>)
        ensures
            match r {
                Some(i) => i < self.slots.len() && self.slots[i as int].key@ == key@,
                None => !self.holds(key@),
            },
    {
        let mut i: usize = 0;
        while i < self.slots.len()
            invariant
                i <= self.slots.len(),
                forall|j: int| 0 <= j < i ==> self.slots[j].key@ != key@,
            decreases self.slots.len() - i,
        {
            if self.slots[i].key.same(key) {
                return Some(i);
            }
            i += 1;
        }
        None
    }

    /// Moves the slots out and leaves the store empty.
    fn take_slots(&mut self) -> (r: Vec<Slot>)
        ensures
            r == old(self).slots,
            final(self).slots@.len() == 0,
    {
        let mut taken = Storage { slots: Vec::new() };
        core::mem::swap(self, &mut taken);
        taken.slots
    }

    /// Whether a value is stored under `key`.
    pub fn has(&self, key: &DataKey) -> (r: bool)
        ensures
            r == self@.contains_key(key@),
    {
        self.find(key).is_some()
    }

    /// The value stored under `key`, if there is one.
    pub fn get(&self, key: &DataKey) -> (r: Option<&Value>)
        ensures
            match r {
                Some(value) => self@.contains_key(key@) && self@[key@] == value@,
                None => !self@.contains_key(key@),
            },
    {
        match self.find(key) {
            Some(i) => {
                proof {
                    use_type_invariant(self);
                    assert(self.holds(key@));
                }
                Some(&self.slots[i].value)
            },
            None => None,
        }
    }

    /// Stores `value` under `key`, in place of what was stored there.
    pub fn set(&mut self, key: DataKey, value: Value)
        ensures
            final(self)@ == old(self)@.insert(key@, value@),
    {
        proof {
            use_type_invariant(&*self);
        }
        let found = self.find(&key);
        let ghost pre = *self;
        let ghost k0 = key@;
        let ghost v0 = value@;
        let mut slots = self.take_slots();
        match found {
            Some(i) => {
                slots.set(i, Slot { key, value });
            },
            None => {
                slots.push(Slot { key, value });
            },
        }
        *self = Storage { slots };
        proof {
            let pos: int = match found {
                Some(i) => i as int,
                None => pre.slots.len() as int,
            };
            assert(self.slots[pos].key@ == k0 && self.slots[pos].value@ == v0);
            assert forall|k: DataKeyView| self.holds(k) <==> (k == k0 || pre.holds(k)) by {
                if pre.holds(k) && k != k0 {
                    let j = pre.place(k);
                    assert(self.slots[j].key@ == k);
                }
                if k == k0 {
                    assert(self.slots[pos].key@ == k);
                }
            }
            assert forall|k: DataKeyView| self.holds(k) implies self.slots[self.place(k)].value@
                == pre@.insert(k0, v0)[k] by {
                let j = self.place(k);
                if k != k0 {
                    assert(pre.slots[j].key@ == k);
                    assert(pre.holds(k));
                }
            }
            assert(self@ =~= pre@.insert(k0, v0));
        }
    }

    /// Empties the slot of `key`; nothing changes where it was empty.
    pub fn remove(&mut self, key: &DataKey)
        ensures
            final(self)@ == old(self)@.remove(key@),
    {
        proof {
            use_type_invariant(&*self);
        }
        let ghost pre = *self;
        match self.find(key) {
            Some(i) => {
                let mut slots = self.take_slots();
                let _ = slots.remove(i);
                proof {
                    let before = pre.slots@;
                    let after = slots@;
                    assert forall|a: int, b: int| 0 <= a < b < after.len() implies after[a].key@
                        != after[b].key@ by {
                        let a0 = if a < i { a } else { a + 1 };
                        let b0 = if b < i { b } else { b + 1 };
                        assert(after[a] == before[a0] && after[b] == before[b0]);
                    }
                }
                *self = Storage { slots };
                proof {
                    let before = pre.slots@;
                    let after = self.slots@;
                    assert forall|k: DataKeyView| self.holds(k) <==> (k != key@ && pre.holds(k)) by {
                        if self.holds(k) {
                            let j = self.place(k);
                            let j0 = if j < i { j } else { j + 1 };
                            assert(before[j0].key@ == k);
                        }
                        if pre.holds(k) && k != key@ {
                            let j0 = pre.place(k);
                            let j = if j0 < i { j0 } else { j0 - 1 };
                            assert(after[j].key@ == k);
                        }
                    }
                    assert forall|k: DataKeyView| self.holds(k) implies self.slots[self.place(
                        k,
                    )].value@ == pre@[k] by {
                        let j = self.place(k);
                        let j0 = if j < i { j } else { j + 1 };
                        assert(before[j0].key@ == k);
                    }
                    assert(self@ =~= pre@.remove(key@));
                }
            },
            None => {
                assert(self@ =~= pre@.remove(key@));
            },
        }
    }
}

} // verus!
