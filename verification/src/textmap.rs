//! A map keyed by texts, kept in the order in which its keys came.

use vstd::prelude::*;

use crate::text::{same_text, texts};

verus! {

/// The map that pairs each key with the value at the same place; of two equal
/// keys the later one counts.
pub open spec fn keyed<T>(keys: Seq<Seq<char>>, values: Seq<T>) -> Map<Seq<char>, T>
    decreases keys.len(),
{
    if keys.len() == 0 {
        Map::empty()
    } else {
        keyed(keys.drop_last(), values.drop_last()).insert(keys.last(), values.last())
    }
}

proof fn lemma_keyed_dom<T>(keys: Seq<Seq<char>>, values: Seq<T>, key: Seq<char>)
    ensures
        keyed(keys, values).contains_key(key) <==> keys.contains(key),
    decreases keys.len(),
{
    if keys.len() > 0 {
        lemma_keyed_dom(keys.drop_last(), values.drop_last(), key);
        let shorter = keys.drop_last();
        if keys.contains(key) {
            let i = choose|i: int| 0 <= i < keys.len() && keys[i] == key;
            if i < keys.len() - 1 {
                assert(shorter[i] == key);
            }
        }
        if shorter.contains(key) {
            let i = choose|i: int| 0 <= i < shorter.len() && shorter[i] == key;
            assert(keys[i] == key);
        }
        assert(keys[keys.len() - 1] == keys.last());
    }
}

proof fn lemma_keyed_at<T>(keys: Seq<Seq<char>>, values: Seq<T>, i: int)
    requires
        keys.no_duplicates(),
        keys.len() == values.len(),
        0 <= i < keys.len(),
    ensures
        keyed(keys, values).contains_key(keys[i]),
        keyed(keys, values)[keys[i]] == values[i],
    decreases keys.len(),
{
    if i < keys.len() - 1 {
        lemma_keyed_at(keys.drop_last(), values.drop_last(), i);
        assert(keys[i] != keys[keys.len() - 1]);
    }
}

proof fn lemma_keyed_update<T>(keys: Seq<Seq<char>>, values: Seq<T>, i: int, value: T)
    requires
        keys.no_duplicates(),
        keys.len() == values.len(),
        0 <= i < keys.len(),
    ensures
        keyed(keys, values.update(i, value)) == keyed(keys, values).insert(keys[i], value),
    decreases keys.len(),
{
    let changed = values.update(i, value);
    if i < keys.len() - 1 {
        lemma_keyed_update(keys.drop_last(), values.drop_last(), i, value);
        assert(changed.drop_last() =~= values.drop_last().update(i, value));
        assert(keys[i] != keys[keys.len() - 1]);
    } else {
        assert(changed.drop_last() =~= values.drop_last());
    }
    assert(keyed(keys, changed) =~= keyed(keys, values).insert(keys[i], value));
}

proof fn lemma_keyed_remove<T>(keys: Seq<Seq<char>>, values: Seq<T>, i: int)
    requires
        keys.no_duplicates(),
        keys.len() == values.len(),
        0 <= i < keys.len(),
    ensures
        keyed(keys.remove(i), values.remove(i)) == keyed(keys, values).remove(keys[i]),
    decreases keys.len(),
{
    if i < keys.len() - 1 {
        lemma_keyed_remove(keys.drop_last(), values.drop_last(), i);
        assert(keys.remove(i).drop_last() =~= keys.drop_last().remove(i));
        assert(values.remove(i).drop_last() =~= values.drop_last().remove(i));
        assert(keys[i] != keys[keys.len() - 1]);
    } else {
        assert(keys.remove(i) =~= keys.drop_last());
        assert(values.remove(i) =~= values.drop_last());
        lemma_keyed_dom(keys.drop_last(), values.drop_last(), keys[i]);
        if keys.drop_last().contains(keys[i]) {
            let k = choose|k: int|
                0 <= k < keys.drop_last().len() && keys.drop_last()[k] == keys[i];
            assert(keys[k] == keys[i]);
        }
    }
    assert(keyed(keys.remove(i), values.remove(i)) =~= keyed(keys, values).remove(keys[i]));
}

/// A map keyed by texts.
#[derive(Debug)]
pub struct TextMap<T> {
    keys: Vec<String>,
    values: Vec<T>,
}

impl<T> View for TextMap<T> {
    type V = Map<Seq<char>, T>;

    closed spec fn view(&self) -> Map<Seq<char>, T> {
        keyed(texts(self.keys@), self.values@)
    }
}

impl<T> TextMap<T> {
    /// The keys in the order in which they came.
    pub closed spec fn order(&self) -> Seq<Seq<char>> {
        texts(self.keys@)
    }

    /// What holds of every map: no key stands in it twice.
    pub closed spec fn wf(&self) -> bool {
        &&& self.order().no_duplicates()
        &&& self.keys@.len() == self.values@.len()
    }

    /// The order lists every key of the map exactly once.
    pub proof fn order_lists_the_keys(&self)
        requires
            self.wf(),
        ensures
            self.order().no_duplicates(),
            forall|key: Seq<char>| self@.contains_key(key) <==> self.order().contains(key),
    {
        assert forall|key: Seq<char>| self@.contains_key(key) <==> self.order().contains(key) by {
            lemma_keyed_dom(self.order(), self.values@, key);
        }
    }

    /// An empty map.
    pub fn new() -> (r: Self)
        ensures
            r.wf(),
            r@ == Map::<Seq<char>, T>::empty(),
            r.order() == Seq::<Seq<char>>::empty(),
    {
        let r = TextMap { keys: Vec::new(), values: Vec::new() };
        assert(r.order() =~= Seq::<Seq<char>>::empty());
        r
    }

    /// The number of keys.
    pub fn len(&self) -> (r: usize)
        requires
            self.wf(),
        ensures
            r == self.order().len(),
    {
        self.keys.len()
    }

    /// The key at a place of the order.
    pub fn key_at(&self, i: usize) -> (r: &String)
        requires
            self.wf(),
            i < self.order().len(),
        ensures
            r@ == self.order()[i as int],
            self@.contains_key(r@),
    {
        proof {
            lemma_keyed_at(self.order(), self.values@, i as int);
        }
        &self.keys[i]
    }

    /// The value at a place of the order.
    pub fn value_at(&self, i: usize) -> (r: &T)
        requires
            self.wf(),
            i < self.order().len(),
        ensures
            self@.contains_key(self.order()[i as int]),
            *r == self@[self.order()[i as int]],
    {
        proof {
            lemma_keyed_at(self.order(), self.values@, i as int);
        }
        &self.values[i]
    }

    fn position(&self, key: &str) -> (r: Option<usize>)
        requires
            self.wf(),
        ensures
            match r {
                Some(i) => {
                    &&& i < self.keys@.len()
                    &&& self.order()[i as int] == key@
                    &&& self@.contains_key(key@)
                    &&& self@[key@] == self.values@[i as int]
                },
                None => !self@.contains_key(key@) && !self.order().contains(key@),
            },
    {
        let mut i: usize = 0;
        while i < self.keys.len()
            invariant
                self.wf(),
                i <= self.keys@.len(),
                forall|k: int| 0 <= k < i ==> self.order()[k] != key@,
            decreases self.keys@.len() - i,
        {
            if same_text(self.keys[i].as_str(), key) {
                proof {
                    lemma_keyed_at(self.order(), self.values@, i as int);
                }
                return Some(i);
            }
            i = i + 1;
        }
        proof {
            lemma_keyed_dom(self.order(), self.values@, key@);
        }
        None
    }

    /// Whether a key stands in the map.
    pub fn contains_key(&self, key: &str) -> (r: bool)
        requires
            self.wf(),
        ensures
            r == self@.contains_key(key@),
    {
        self.position(key).is_some()
    }

    /// The value of a key.
    pub fn get(&self, key: &str) -> (r: Option<&T>)
        requires
            self.wf(),
        ensures
            match r {
                Some(value) => self@.contains_key(key@) && *value == self@[key@],
                None => !self@.contains_key(key@),
            },
    {
        match self.position(key) {
            Some(i) => Some(&self.values[i]),
            None => None,
        }
    }

    /// Give a key a value; the value that it had comes back.
    pub fn insert(&mut self, key: String, value: T) -> (r: Option<T>)
        requires
            old(self).wf(),
        ensures
            final(self).wf(),
            final(self)@ == old(self)@.insert(key@, value),
            match r {
                Some(was) => {
                    &&& old(self)@.contains_key(key@)
                    &&& was == old(self)@[key@]
                    &&& final(self).order() == old(self).order()
                },
                None => {
                    &&& !old(self)@.contains_key(key@)
                    &&& final(self).order() == old(self).order().push(key@)
                },
            },
    {
        let ghost keys_before = self.order();
        let ghost values_before = self.values@;
        match self.position(key.as_str()) {
            Some(i) => {
                let mut slot = value;
                std::mem::swap(&mut self.values[i], &mut slot);
                proof {
                    lemma_keyed_update(keys_before, values_before, i as int, value);
                    assert(self.values@ =~= values_before.update(i as int, value));
                }
                Some(slot)
            },
            None => {
                self.keys.push(key);
                self.values.push(value);
                proof {
                    assert(self.order() =~= keys_before.push(key@));
                    assert(self.order().drop_last() =~= keys_before);
                    assert(self.values@.drop_last() =~= values_before);
                }
                None
            },
        }
    }

    /// The value of a key, to be changed in place.
    pub fn get_mut(&mut self, key: &str) -> (r: Option<&mut T>)
        requires
            old(self).wf(),
        ensures
            match r {
                Some(value) => {
                    &&& old(self)@.contains_key(key@)
                    &&& *value == old(self)@[key@]
                    &&& final(self).wf()
                    &&& final(self).order() == old(self).order()
                    &&& final(self)@ == old(self)@.insert(key@, *final(value))
                },
                None => !old(self)@.contains_key(key@) && *final(self) == *old(self),
            },
    {
        let ghost keys_before = self.order();
        let ghost values_before = self.values@;
        match self.position(key) {
            Some(i) => {
                proof {
                    assert forall|value: T|
                        keyed(keys_before, #[trigger] values_before.update(i as int, value))
                            == keyed(keys_before, values_before).insert(key@, value) by {
                        lemma_keyed_update(keys_before, values_before, i as int, value);
                    }
                }
                Some(&mut self.values[i])
            },
            None => None,
        }
    }

    /// Take a key out of the map; its value comes back.
    pub fn remove(&mut self, key: &str) -> (r: Option<T>)
        requires
            old(self).wf(),
        ensures
            final(self).wf(),
            final(self)@ == old(self)@.remove(key@),
            match r {
                Some(was) => old(self)@.contains_key(key@) && was == old(self)@[key@],
                None => !old(self)@.contains_key(key@) && final(self).order() == old(self).order(),
            },
    {
        let ghost keys_before = self.order();
        let ghost values_before = self.values@;
        match self.position(key) {
            Some(i) => {
                let _ = self.keys.remove(i);
                let was = self.values.remove(i);
                proof {
                    lemma_keyed_remove(keys_before, values_before, i as int);
                    assert(self.order() =~= keys_before.remove(i as int));
                }
                Some(was)
            },
            None => {
                assert(self@ =~= self@.remove(key@));
                None
            },
        }
    }
}

} // verus!
