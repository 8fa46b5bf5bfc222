//! A map from strings to values, kept in the order of its keys.

use vstd::prelude::*;

use crate::text;

verus! {

/// A key with its value.
pub struct Entry<V> {
    pub key: String,
    pub value: V,
}

/// Whether keys rise from each entry to the next.
pub open spec fn keys_rise<V>(list: Seq<Entry<V>>) -> bool {
    forall|i: int, j: int|
        0 <= i < j < list.len() ==> text::text_before(
            (#[trigger] list[i]).key@,
            (#[trigger] list[j]).key@,
        )
}

/// The map that a list of entries spells.
pub open spec fn map_of<V>(list: Seq<Entry<V>>) -> Map<Seq<char>, V>
    decreases list.len(),
{
    if list.len() == 0 {
        Map::empty()
    } else {
        map_of(list.drop_last()).insert(list.last().key@, list.last().value)
    }
}

/// A map from strings to values.
pub struct TextMap<V> {
    list: Vec<Entry<V>>,
}

impl<V> View for TextMap<V> {
    type V = Map<Seq<char>, V>;

    closed spec fn view(&self) -> Map<Seq<char>, V> {
        map_of(self.list@)
    }
}

/// What a rising list says of `key`.
pub proof fn lemma_map_of<V>(list: Seq<Entry<V>>, key: Seq<char>)
    requires
        keys_rise(list),
    ensures
        map_of(list).contains_key(key) <==> exists|i: int|
            0 <= i < list.len() && (#[trigger] list[i]).key@ == key,
        forall|i: int|
            0 <= i < list.len() && (#[trigger] list[i]).key@ == key ==> map_of(list)[key]
                == list[i].value,
    decreases list.len(),
{
    if list.len() > 0 {
        let rest = list.drop_last();
        assert(list[list.len() - 1] == list.last());
        assert(keys_rise(rest)) by {
            assert forall|i: int, j: int| 0 <= i < j < rest.len() implies text::text_before(
                (#[trigger] rest[i]).key@,
                (#[trigger] rest[j]).key@,
            ) by {
                assert(rest[i] == list[i] && rest[j] == list[j]);
            }
        }
        lemma_map_of(rest, key);
        if exists|i: int| 0 <= i < list.len() && (#[trigger] list[i]).key@ == key {
            let i = choose|i: int| 0 <= i < list.len() && (#[trigger] list[i]).key@ == key;
            if i < rest.len() {
                assert(rest[i].key@ == key);
            }
        }
        if exists|i: int| 0 <= i < rest.len() && (#[trigger] rest[i]).key@ == key {
            let i = choose|i: int| 0 <= i < rest.len() && (#[trigger] rest[i]).key@ == key;
            assert(list[i].key@ == key);
        }
        assert forall|i: int|
            0 <= i < list.len() && (#[trigger] list[i]).key@ == key implies map_of(list)[key]
            == list[i].value by {
            if i < rest.len() {
                assert(rest[i].key@ == key);
                assert(text::text_before(list[i].key@, list[list.len() - 1].key@));
                text::lemma_order_strict(key, key);
            }
        }
    }
}

/// Gives `key` the value `value`.
fn put_entry<V>(list: &mut Vec<Entry<V>>, key: String, value: V)
    requires
        keys_rise(old(list)@),
    ensures
        keys_rise(final(list)@),
        map_of(final(list)@) == map_of(old(list)@).insert(key@, value),
{
    let ghost before = list@;
    let ghost name = key@;
    let ghost given = value;
    let mut i: usize = 0;
    while i < list.len() && text::comes_before(list[i].key.as_str(), key.as_str())
        invariant
            i <= list@.len(),
            forall|j: int| 0 <= j < i ==> text::text_before((#[trigger] list@[j]).key@, key@),
        decreases list@.len() - i,
    {
        i += 1;
    }
    if i < list.len() && text::same_text(list[i].key.as_str(), key.as_str()) {
        list.set(i, Entry { key, value });
    } else {
        proof {
            if i < list@.len() {
                text::lemma_order_total(list@[i as int].key@, name);
            }
        }
        list.insert(i, Entry { key, value });
        assert forall|j: int| i < j < list@.len() implies text::text_before(
            name,
            (#[trigger] list@[j]).key@,
        ) by {
            assert(list@[j] == before[j - 1]);
            if j - 1 > i {
                text::lemma_order_transitive(name, before[i as int].key@, before[j - 1].key@);
            }
        }
    }
    proof {
        let after = list@;
        assert(after[i as int].key@ == name && after[i as int].value == given);
        let grown = after.len() > before.len();
        assert forall|a: int, b: int| 0 <= a < b < after.len() implies text::text_before(
            (#[trigger] after[a]).key@,
            (#[trigger] after[b]).key@,
        ) by {
            let a0 = if grown && a > i { a - 1 } else { a };
            let b0 = if grown && b > i { b - 1 } else { b };
            if a != i && b != i {
                assert(after[a].key@ == before[a0].key@ && after[b].key@ == before[b0].key@);
            } else if !grown {
                assert(after[a].key@ == before[a].key@ && after[b].key@ == before[b].key@);
            }
        }
        let wanted = map_of(before).insert(name, given);
        assert forall|k: Seq<char>| #[trigger]
            map_of(after).contains_key(k) <==> wanted.contains_key(k) by {
            lemma_map_of(after, k);
            lemma_map_of(before, k);
            if map_of(after).contains_key(k) {
                let a = choose|a: int| 0 <= a < after.len() && (#[trigger] after[a]).key@ == k;
                if a != i {
                    let a0 = if grown && a > i { a - 1 } else { a };
                    assert(before[a0].key@ == k);
                }
            }
            if map_of(before).contains_key(k) {
                let a = choose|a: int| 0 <= a < before.len() && (#[trigger] before[a]).key@ == k;
                let a1 = if grown && a >= i { a + 1 } else { a };
                assert(after[a1].key@ == k);
            }
            if k == name {
                assert(after[i as int].key@ == k);
            }
        }
        assert forall|k: Seq<char>| #[trigger] map_of(after).contains_key(k) implies map_of(after)[k]
            == wanted[k] by {
            lemma_map_of(after, k);
            lemma_map_of(before, k);
            let a = choose|a: int| 0 <= a < after.len() && (#[trigger] after[a]).key@ == k;
            if k == name {
                assert(after[i as int].key@ == k);
            } else {
                let a0 = if grown && a > i { a - 1 } else { a };
                assert(before[a0].key@ == k);
                assert(before[a0].value == after[a].value);
            }
        }
        assert(map_of(after) =~= wanted);
    }
}

impl<V> TextMap<V> {
    #[verifier::type_invariant]
    spec fn wf(self) -> bool {
        keys_rise(self.list@)
    }

    /// An empty map.
    pub fn new() -> (r: Self)
        ensures
            r@ == Map::<Seq<char>, V>::empty(),
    {
        TextMap { list: Vec::new() }
    }

    /// Whether the map holds nothing.
    pub fn is_empty(&self) -> (r: bool)
        ensures
            r == (self@ == Map::<Seq<char>, V>::empty()),
    {
        proof {
            use_type_invariant(self);
            if self.list@.len() > 0 {
                lemma_map_of(self.list@, self.list@[0].key@);
                assert(self@.contains_key(self.list@[0].key@));
            }
        }
        self.list.len() == 0
    }

    /// Gives `key` the value `value`.
    pub fn insert(&mut self, key: String, value: V)
        ensures
            final(self)@ == old(self)@.insert(key@, value),
    {
        proof {
            use_type_invariant(&*self);
        }
        let mut list: Vec<Entry<V>> = Vec::new();
        std::mem::swap(&mut self.list, &mut list);
        put_entry(&mut list, key, value);
        self.list = list;
    }

    /// The value of `key`.
    pub fn get(&self, key: &str) -> (r: Option<&V>)
        ensures
            match r {
                Some(value) => self@.contains_key(key@) && self@[key@] == *value,
                None => !self@.contains_key(key@),
            },
    {
        proof {
            use_type_invariant(self);
        }
        let mut i: usize = 0;
        while i < self.list.len()
            invariant
                self.wf(),
                i <= self.list@.len(),
                forall|j: int| 0 <= j < i ==> (#[trigger] self.list@[j]).key@ != key@,
            decreases self.list@.len() - i,
        {
            if text::same_text(self.list[i].key.as_str(), key) {
                proof {
                    lemma_map_of(self.list@, key@);
                }
                return Some(&self.list[i].value);
            }
            i += 1;
        }
        proof {
            lemma_map_of(self.list@, key@);
        }
        None
    }

    /// The entries of the map in the order of their keys.
    pub fn entries(&self) -> (r: &Vec<Entry<V>>)
        ensures
            keys_rise(r@),
            map_of(r@) == self@,
    {
        proof {
            use_type_invariant(self);
        }
        &self.list
    }
}

impl TextMap<u64> {
    /// A map with the same entries.
    pub fn copied(&self) -> (r: Self)
        ensures
            r@ == self@,
    {
        proof {
            use_type_invariant(self);
        }
        let mut list: Vec<Entry<u64>> = Vec::new();
        let mut i: usize = 0;
        assert(self.list@.take(0) =~= Seq::empty());
        while i < self.list.len()
            invariant
                i <= self.list@.len(),
                list@.len() == i,
                forall|j: int| 0 <= j < i ==> (#[trigger] list@[j]).key@ == self.list@[j].key@,
                map_of(list@) == map_of(self.list@.take(i as int)),
            decreases self.list@.len() - i,
        {
            let ghost before = list@;
            list.push(Entry { key: self.list[i].key.clone(), value: self.list[i].value });
            assert(list@.drop_last() =~= before);
            assert(self.list@.take(i as int + 1).drop_last() =~= self.list@.take(i as int));
            i += 1;
        }
        assert(self.list@.take(i as int) =~= self.list@);
        assert(keys_rise(list@)) by {
            assert forall|a: int, b: int| 0 <= a < b < list@.len() implies text::text_before(
                (#[trigger] list@[a]).key@,
                (#[trigger] list@[b]).key@,
            ) by {
                assert(text::text_before(self.list@[a].key@, self.list@[b].key@));
            }
        }
        TextMap { list }
    }
}

} // verus!
