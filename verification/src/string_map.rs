//! A map from texts to values that keeps its keys in the order in which they came.
//!
//! Look-ups go through a hash index; the entries themselves lie in a list, so that they can be
//! walked and changed in place. Keys are never taken out.

use vstd::prelude::*;
use vstd::hash_map::StringHashMap;

verus! {

/// A map keyed by text. Its view is the mathematical map.
#[verifier::reject_recursive_types(V)]
pub struct StringMap<V> {
    index: StringHashMap<usize>,
    keys: Vec<String>,
    values: Vec<V>,
}

impl<V> View for StringMap<V> {
    type V = Map<Seq<char>, V>;

    closed spec fn view(&self) -> Map<Seq<char>, V> {
        Map::new(
            |k: Seq<char>| self.index@.contains_key(k),
            |k: Seq<char>| self.values@[self.index@[k] as int],
        )
    }
}

impl<V> StringMap<V> {
    /// Every key stands once in the list, at the place that the index gives for it.
    pub closed spec fn wf(&self) -> bool {
        &&& self.keys@.len() == self.values@.len()
        &&& forall|i: int|
            0 <= i < self.keys@.len() ==> self.index@.contains_key(#[trigger] self.keys@[i]@)
                && self.index@[self.keys@[i]@] == i
        &&& forall|k: Seq<char>| #[trigger]
            self.index@.contains_key(k) ==> self.index@[k] < self.keys@.len()
                && self.keys@[self.index@[k] as int]@ == k
    }

    /// The keys, in the order in which they came.
    pub closed spec fn order(&self) -> Seq<Seq<char>> {
        crate::text::texts(self.keys@)
    }

    /// The order lists the keys of the map, each of them once.
    pub proof fn lemma_order(&self)
        requires
            self.wf(),
        ensures
            self.order().no_duplicates(),
            forall|k: Seq<char>| #[trigger] self.order().contains(k) <==> self@.contains_key(k),
            forall|i: int|
                0 <= i < self.order().len() ==> self@.contains_key(#[trigger] self.order()[i]),
    {
        assert forall|i: int| 0 <= i < self.order().len() implies self@.contains_key(
            #[trigger] self.order()[i],
        ) by {
            assert(self.order()[i] == self.keys@[i]@);
        }
        assert forall|k: Seq<char>| self@.contains_key(k) implies #[trigger] self.order().contains(
            k,
        ) by {
            assert(self.order()[self.index@[k] as int] == k);
        }
        assert forall|i: int, j: int|
            0 <= i < self.order().len() && 0 <= j < self.order().len() && i != j implies
            self.order()[i] != self.order()[j] by {
            assert(self.index@[self.keys@[i]@] == i);
            assert(self.index@[self.keys@[j]@] == j);
        }
    }

    /// There are as many keys in the order as in the map.
    pub proof fn lemma_len(&self)
        requires
            self.wf(),
        ensures
            self@.dom().finite(),
            self@.len() == self.order().len(),
    {
        self.lemma_order();
        self.order().unique_seq_to_set();
        assert(self@.dom() =~= self.order().to_set());
    }

    /// A map without entries.
    pub fn new() -> (r: Self)
        ensures
            r.wf(),
            r@ == Map::<Seq<char>, V>::empty(),
            r.order() == Seq::<Seq<char>>::empty(),
    {
        let r = StringMap { index: StringHashMap::new(), keys: Vec::new(), values: Vec::new() };
        assert(r@ =~= Map::<Seq<char>, V>::empty());
        assert(r.order() =~= Seq::<Seq<char>>::empty());
        r
    }

    /// The number of keys.
    pub fn len(&self) -> (r: usize)
        requires
            self.wf(),
        ensures
            r == self.order().len(),
    {
        self.keys.len()
    }

    /// The key that came as number `i`.
    pub fn key_at(&self, i: usize) -> (r: &String)
        requires
            self.wf(),
            i < self.order().len(),
        ensures
            r@ == self.order()[i as int],
    {
        &self.keys[i]
    }

    /// The value of the key that came as number `i`.
    pub fn value_at(&self, i: usize) -> (r: &V)
        requires
            self.wf(),
            i < self.order().len(),
        ensures
            self@.contains_key(self.order()[i as int]),
            *r == self@[self.order()[i as int]],
    {
        assert(self.order()[i as int] == self.keys@[i as int]@);
        &self.values[i]
    }

    /// The value of a key.
    pub fn get(&self, key: &str) -> (r: Option<&V>)
        requires
            self.wf(),
        ensures
            match r {
                Some(v) => self@.contains_key(key@) && *v == self@[key@],
                None => !self@.contains_key(key@),
            },
    {
        match self.index.get(key) {
            Some(i) => Some(&self.values[*i]),
            None => None,
        }
    }

    /// Whether the map has a key.
    pub fn contains_key(&self, key: &str) -> (r: bool)
        requires
            self.wf(),
        ensures
            r == self@.contains_key(key@),
    {
        self.index.contains_key(key)
    }

    /// Replaces the value of the key that came as number `i`, and gives the former value back.
    pub fn replace_at(&mut self, i: usize, value: V) -> (r: V)
        requires
            old(self).wf(),
            i < old(self).order().len(),
        ensures
            final(self).wf(),
            final(self).order() == old(self).order(),
            old(self)@.contains_key(old(self).order()[i as int]),
            final(self)@ == old(self)@.insert(old(self).order()[i as int], value),
            r == old(self)@[old(self).order()[i as int]],
    {
        let ghost before = *self;
        assert(before.order()[i as int] == before.keys@[i as int]@);
        let mut held: V = value;
        let ghost given = held;
        let slot: &mut V = &mut self.values[i];
        core::mem::swap(slot, &mut held);
        assert(self.values@ =~= before.values@.update(i as int, given));
        assert forall|k: Seq<char>| before.index@.contains_key(k) && k != before.order()[i as int] implies
            before.index@[k] != i by {}
        assert(self@ =~= before@.insert(before.order()[i as int], given));
        held
    }

    /// The place of a key.
    pub fn position(&self, key: &str) -> (r: Option<usize>)
        requires
            self.wf(),
        ensures
            match r {
                Some(i) => i < self.order().len() && self.order()[i as int] == key@
                    && self@.contains_key(key@),
                None => !self@.contains_key(key@),
            },
    {
        match self.index.get(key) {
            Some(i) => Some(*i),
            None => None,
        }
    }

    /// Sets the value of a key. A new key comes last in the order.
    pub fn insert(&mut self, key: String, value: V)
        requires
            old(self).wf(),
        ensures
            final(self).wf(),
            final(self)@ == old(self)@.insert(key@, value),
            final(self).order() == (if old(self)@.contains_key(key@) {
                old(self).order()
            } else {
                old(self).order().push(key@)
            }),
    {
        let ghost before = *self;
        match self.position(key.as_str()) {
            Some(i) => {
                let _former: V = self.replace_at(i, value);
            },
            None => {
                let place: usize = self.keys.len();
                self.index.insert(key.clone(), place);
                self.keys.push(key);
                self.values.push(value);
                assert(self.order() =~= before.order().push(key@));
                assert forall|i: int| 0 <= i < self.keys@.len() implies self.index@.contains_key(
                    #[trigger] self.keys@[i]@,
                ) && self.index@[self.keys@[i]@] == i by {
                    if i < before.keys@.len() {
                        assert(self.keys@[i] == before.keys@[i]);
                    }
                }
                assert(self@ =~= before@.insert(key@, value));
            },
        }
    }
}

} // verus!
