//! A map from small integer keys, held as one slot per key.
use vstd::prelude::*;

verus! {

/// A key that names a slot.
pub trait SlotKey: Copy + Sized {
    /// The slot of this key.
    spec fn slot(self) -> nat;

    /// The key of a slot.
    spec fn of_slot(i: nat) -> Self;

    /// The last slot that has a key.
    spec fn last_slot() -> nat;

    proof fn lemma_slot_of_key(self)
        ensures
            self.slot() <= Self::last_slot(),
            Self::of_slot(self.slot()) == self,
    ;

    proof fn lemma_key_of_slot(i: nat)
        requires
            i <= Self::last_slot(),
        ensures
            Self::of_slot(i).slot() == i,
    ;

    fn to_index(self) -> (r: usize)
        ensures
            r == self.slot(),
    ;

    fn from_index(i: usize) -> (r: Self)
        requires
            i <= Self::last_slot(),
        ensures
            r == Self::of_slot(i as nat),
    ;
}

impl SlotKey for u16 {
    open spec fn slot(self) -> nat {
        self as nat
    }

    open spec fn of_slot(i: nat) -> Self {
        i as u16
    }

    open spec fn last_slot() -> nat {
        0xffff
    }

    proof fn lemma_slot_of_key(self) {
    }

    proof fn lemma_key_of_slot(i: nat) {
    }

    fn to_index(self) -> (r: usize) {
        self as usize
    }

    fn from_index(i: usize) -> (r: Self) {
        i as u16
    }
}

impl SlotKey for u32 {
    open spec fn slot(self) -> nat {
        self as nat
    }

    open spec fn of_slot(i: nat) -> Self {
        i as u32
    }

    open spec fn last_slot() -> nat {
        0xffff_ffff
    }

    proof fn lemma_slot_of_key(self) {
    }

    proof fn lemma_key_of_slot(i: nat) {
    }

    fn to_index(self) -> (r: usize) {
        self as usize
    }

    fn from_index(i: usize) -> (r: Self) {
        i as u32
    }
}

/// The map that a sequence of slots holds.
pub open spec fn slot_map<K: SlotKey, V>(slots: Seq<Option<V>>) -> Map<K, V> {
    Map::new(
        |k: K| k.slot() < slots.len() && slots[k.slot() as int] is Some,
        |k: K| slots[k.slot() as int]->0,
    )
}

proof fn lemma_slot_filled<K: SlotKey, V>(slots: Seq<Option<V>>, k: K, v: V)
    requires
        k.slot() < slots.len(),
    ensures
        slot_map::<K, V>(slots.update(k.slot() as int, Some(v))) == slot_map::<K, V>(slots).insert(
            k,
            v,
        ),
{
    let a = slot_map::<K, V>(slots.update(k.slot() as int, Some(v)));
    let b = slot_map::<K, V>(slots).insert(k, v);
    assert forall|j: K| #![auto] a.contains_key(j) <==> b.contains_key(j) by {
        j.lemma_slot_of_key();
        k.lemma_slot_of_key();
    }
    assert forall|j: K| #![auto] a.contains_key(j) implies a[j] == b[j] by {
        j.lemma_slot_of_key();
        k.lemma_slot_of_key();
    }
    assert(a =~= b);
}

proof fn lemma_slot_emptied<K: SlotKey, V>(slots: Seq<Option<V>>, k: K)
    requires
        k.slot() < slots.len(),
    ensures
        slot_map::<K, V>(slots.update(k.slot() as int, None)) == slot_map::<K, V>(slots).remove(k),
{
    let a = slot_map::<K, V>(slots.update(k.slot() as int, None));
    let b = slot_map::<K, V>(slots).remove(k);
    assert forall|j: K| #![auto] a.contains_key(j) <==> b.contains_key(j) by {
        j.lemma_slot_of_key();
        k.lemma_slot_of_key();
    }
    assert forall|j: K| #![auto] a.contains_key(j) implies a[j] == b[j] by {
        j.lemma_slot_of_key();
        k.lemma_slot_of_key();
    }
    assert(a =~= b);
}

/// A map whose keys are the slots `0..capacity`.
pub struct DenseMap<K: SlotKey, V> {
    slots: Vec<Option<V>>,
    _k: core::marker::PhantomData<K>,
}

impl<K: SlotKey, V> View for DenseMap<K, V> {
    type V = Map<K, V>;

    closed spec fn view(&self) -> Map<K, V> {
        slot_map(self.slots@)
    }
}

impl<K: SlotKey, V> DenseMap<K, V> {
    /// How many slots there are.
    pub closed spec fn capacity(&self) -> nat {
        self.slots@.len()
    }

    /// Slots for the keys up to `max_key`, all empty.
    pub fn new(max_key: usize) -> (r: Self)
        requires
            max_key < usize::MAX,
        ensures
            r.capacity() == max_key + 1,
            r@ == Map::<K, V>::empty(),
    {
        let mut slots: Vec<Option<V>> = Vec::new();
        let mut i: usize = 0;
        while i < max_key + 1
            invariant
                max_key < usize::MAX,
                i <= max_key + 1,
                slots@.len() == i,
                forall|j: int| 0 <= j < slots@.len() ==> slots@[j] is None,
            decreases max_key + 1 - i,
        {
            slots.push(None);
            i += 1;
        }
        let r = DenseMap { slots, _k: core::marker::PhantomData };
        assert(r@ =~= Map::<K, V>::empty());
        r
    }

    /// Every key in the map has a slot.
    pub proof fn lemma_keys_in_capacity(&self)
        ensures
            forall|k: K| #[trigger] self@.contains_key(k) ==> k.slot() < self.capacity(),
    {
    }

    pub fn get(&self, k: &K) -> (r: Option<&V>)
        ensures
            r == (if self@.contains_key(*k) {
                Some(&self@[*k])
            } else {
                None
            }),
    {
        let i: usize = k.to_index();
        if i < self.slots.len() {
            self.slots[i].as_ref()
        } else {
            None
        }
    }

    /// The value of `k`, to be changed in place.
    pub fn get_mut(&mut self, k: &K) -> (r: Option<&mut V>)
        ensures
            r is Some <==> old(self)@.contains_key(*k),
            match r {
                Some(v) => *v == old(self)@[*k] && final(self)@ == old(self)@.insert(*k, *final(v)),
                None => final(self)@ == old(self)@,
            },
            final(self).capacity() == old(self).capacity(),
    {
        let i: usize = k.to_index();
        if i < self.slots.len() {
            proof {
                assert forall|v: V|
                    #![trigger self.slots@.update(i as int, Some(v))]
                    slot_map::<K, V>(self.slots@.update(i as int, Some(v))) == slot_map::<K, V>(
                        self.slots@,
                    ).insert(*k, v) by {
                    lemma_slot_filled::<K, V>(self.slots@, *k, v);
                }
                lemma_slot_emptied::<K, V>(self.slots@, *k);
                assert(self.slots@[i as int] is None ==> self@.remove(*k) =~= self@);
            }
            self.slots[i].as_mut()
        } else {
            None
        }
    }

    /// Puts `v` into the slot of `k` and gives back what was there. A key beyond
    /// the last slot leaves the map as it is.
    pub fn insert(&mut self, k: K, v: V) -> (r: Option<V>)
        ensures
            k.slot() < old(self).capacity() ==> final(self)@ == old(self)@.insert(k, v),
            k.slot() >= old(self).capacity() ==> final(self)@ == old(self)@,
            r == (if old(self)@.contains_key(k) {
                Some(old(self)@[k])
            } else {
                None
            }),
            final(self).capacity() == old(self).capacity(),
    {
        let i: usize = k.to_index();
        if i < self.slots.len() {
            proof {
                lemma_slot_filled::<K, V>(self.slots@, k, v);
            }
            let mut value = Some(v);
            core::mem::swap(&mut self.slots[i], &mut value);
            value
        } else {
            None
        }
    }

    /// Empties the slot of `k` and gives back what was there.
    pub fn remove(&mut self, k: &K) -> (r: Option<V>)
        ensures
            final(self)@ == old(self)@.remove(*k),
            r == (if old(self)@.contains_key(*k) {
                Some(old(self)@[*k])
            } else {
                None
            }),
            final(self).capacity() == old(self).capacity(),
    {
        let i: usize = k.to_index();
        if i < self.slots.len() {
            proof {
                lemma_slot_emptied::<K, V>(self.slots@, *k);
            }
            self.slots[i].take()
        } else {
            assert(self@.remove(*k) =~= self@);
            None
        }
    }

    pub fn contains_key(&self, k: &K) -> (r: bool)
        ensures
            r == self@.contains_key(*k),
    {
        self.get(k).is_some()
    }

    /// Empties every slot.
    pub fn clear(&mut self)
        ensures
            final(self)@ == Map::<K, V>::empty(),
            final(self).capacity() == old(self).capacity(),
    {
        let n: usize = self.slots.len();
        let mut i: usize = 0;
        while i < n
            invariant
                i <= n,
                n == self.slots@.len(),
                n == old(self).capacity(),
                forall|j: int| 0 <= j < i ==> self.slots@[j] is None,
            decreases n - i,
        {
            self.slots[i] = None;
            i += 1;
        }
        assert(self@ =~= Map::<K, V>::empty());
    }

    /// The keys in the map, in ascending order.
    pub fn keys(&self) -> (r: Vec<K>)
        requires
            self.capacity() <= K::last_slot() + 1,
        ensures
            keys_ascending(r@),
            r@.to_set() == self@.dom(),
    {
        let mut r: Vec<K> = Vec::new();
        let mut i: usize = 0;
        while i < self.slots.len()
            invariant
                i <= self.slots@.len(),
                self.slots@.len() <= K::last_slot() + 1,
                keys_ascending(r@),
                forall|j: int| #![auto] 0 <= j < r@.len() ==> r@[j].slot() < i,
                forall|j: int| #![auto] 0 <= j < r@.len() ==> self@.contains_key(r@[j]),
                forall|k: K| #[trigger] self@.contains_key(k) && k.slot() < i ==> r@.contains(k),
            decreases self.slots@.len() - i,
        {
            let ghost before = r@;
            proof {
                K::lemma_key_of_slot(i as nat);
            }
            if self.slots[i].is_some() {
                r.push(K::from_index(i));
                assert(r@[before.len() as int] == K::of_slot(i as nat));
            }
            assert forall|k: K| #[trigger] self@.contains_key(k) && k.slot() < i + 1 implies r@.contains(
                k,
            ) by {
                k.lemma_slot_of_key();
                if k.slot() < i {
                    assert(before.contains(k));
                    let j = choose|j: int| 0 <= j < before.len() && before[j] == k;
                    assert(r@[j] == k);
                }
            }
            i += 1;
        }
        proof {
            self.lemma_keys_in_capacity();
            assert forall|k: K| #[trigger] r@.to_set().contains(k) <==> self@.dom().contains(k) by {
                if r@.contains(k) {
                    let j = choose|j: int| 0 <= j < r@.len() && r@[j] == k;
                    assert(self@.contains_key(r@[j]));
                }
                if self@.contains_key(k) {
                    assert(r@.contains(k));
                }
            }
            assert(r@.to_set() =~= self@.dom());
        }
        r
    }

    /// The keys in the map with their values, in ascending order of the keys.
    pub fn iter(&self) -> (r: Vec<(K, &V)>)
        requires
            self.capacity() <= K::last_slot() + 1,
        ensures
            keys_ascending(r@.map_values(|e: (K, &V)| e.0)),
            r@.map_values(|e: (K, &V)| e.0).to_set() == self@.dom(),
            forall|i: int| 0 <= i < r@.len() ==> *(#[trigger] r@[i]).1 == self@[r@[i].0],
    {
        let ks = self.keys();
        let mut r: Vec<(K, &V)> = Vec::new();
        let mut i: usize = 0;
        while i < ks.len()
            invariant
                i <= ks@.len(),
                ks@.to_set() == self@.dom(),
                r@.len() == i,
                forall|j: int| 0 <= j < i ==> (#[trigger] r@[j]).0 == ks@[j],
                forall|j: int| 0 <= j < i ==> *(#[trigger] r@[j]).1 == self@[r@[j].0],
            decreases ks@.len() - i,
        {
            let k: K = ks[i];
            assert(ks@.to_set().contains(k));
            if let Some(v) = self.get(&k) {
                r.push((k, v));
            }
            i += 1;
        }
        assert(r@.map_values(|e: (K, &V)| e.0) =~= ks@);
        r
    }

    /// How many slots are filled.
    pub fn len(&self) -> (r: usize)
        requires
            self.capacity() <= K::last_slot() + 1,
        ensures
            r == self@.dom().len(),
            self@.dom().finite(),
    {
        let ks = self.keys();
        proof {
            lemma_ascending_distinct(ks@);
            ks@.unique_seq_to_set();
        }
        ks.len()
    }
}

impl<'a, K: SlotKey, V> vstd::std_specs::core::IndexSpecImpl<&'a K> for DenseMap<K, V> {
    open spec fn index_req(&self, k: &&'a K) -> bool {
        self@.contains_key(**k)
    }
}

impl<'a, K: SlotKey, V> core::ops::Index<&'a K> for DenseMap<K, V> {
    type Output = V;

    /// The value of a key that is in the map.
    fn index(&self, k: &'a K) -> (r: &V)
        ensures
            *r == self@[*k],
    {
        match self.get(k) {
            Some(v) => v,
            None => vstd::pervasive::unreached(),
        }
    }
}

impl<'a, K: SlotKey, V> core::ops::IndexMut<&'a K> for DenseMap<K, V> {
    /// The value of a key that is in the map, to be changed in place.
    fn index_mut(&mut self, k: &'a K) -> (r: &mut V)
        requires
            old(self)@.contains_key(*k),
        ensures
            *r == old(self)@[*k],
            final(self)@ == old(self)@.insert(*k, *final(r)),
            final(self).capacity() == old(self).capacity(),
    {
        match self.get_mut(k) {
            Some(v) => v,
            None => vstd::pervasive::unreached(),
        }
    }
}

/// Each key names a later slot than the one before it.
pub open spec fn keys_ascending<K: SlotKey>(s: Seq<K>) -> bool {
    forall|i: int, j: int| 0 <= i < j < s.len() ==> (#[trigger] s[i]).slot() < (#[trigger] s[j]).slot()
}

proof fn lemma_ascending_distinct<K: SlotKey>(s: Seq<K>)
    requires
        keys_ascending(s),
    ensures
        s.no_duplicates(),
{
}

/// A map has only one ascending list of its keys.
pub proof fn law_ascending_keys_unique<K: SlotKey>(a: Seq<K>, b: Seq<K>)
    requires
        keys_ascending(a),
        keys_ascending(b),
        a.to_set() == b.to_set(),
    ensures
        a == b,
    decreases a.len(),
{
    lemma_ascending_distinct(a);
    lemma_ascending_distinct(b);
    a.unique_seq_to_set();
    b.unique_seq_to_set();
    if a.len() == 0 {
        assert(a =~= b);
    } else {
        let (x, y) = (a.last(), b.last());
        assert(a[a.len() - 1] == x && a.to_set().contains(x) && b.to_set().contains(x));
        assert(b[b.len() - 1] == y && b.to_set().contains(y) && a.to_set().contains(y));
        let i = choose|i: int| 0 <= i < b.len() && b[i] == x;
        let j = choose|j: int| 0 <= j < a.len() && a[j] == y;
        x.lemma_slot_of_key();
        y.lemma_slot_of_key();
        assert(x == y);
        let (a0, b0) = (a.drop_last(), b.drop_last());
        assert forall|k: K| #[trigger] a0.to_set().contains(k) <==> b0.to_set().contains(k) by {
            if a0.contains(k) {
                let n = choose|n: int| 0 <= n < a0.len() && a0[n] == k;
                assert(a[n] == k && a.to_set().contains(k) && b.to_set().contains(k));
                let m = choose|m: int| 0 <= m < b.len() && b[m] == k;
                assert(k != x);
                assert(b0[m] == k);
            }
            if b0.contains(k) {
                let n = choose|n: int| 0 <= n < b0.len() && b0[n] == k;
                assert(b[n] == k && b.to_set().contains(k) && a.to_set().contains(k));
                let m = choose|m: int| 0 <= m < a.len() && a[m] == k;
                assert(k != x);
                assert(a0[m] == k);
            }
        }
        assert(a0.to_set() =~= b0.to_set());
        law_ascending_keys_unique(a0, b0);
        assert(a =~= a0.push(x));
        assert(b =~= b0.push(x));
    }
}

} // verus!
