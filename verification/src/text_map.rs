//! A map with text keys, kept in the order of its keys.

use crate::text::{same_text, text_order, TextOrder};
#[allow(unused_imports)]
use crate::text::{lemma_text_before_strict, lemma_text_before_transitive, text_before};
use vstd::prelude::*;

verus! {

/// A map from texts to values, whose entries stand in the order of their keys.
#[derive(Debug)]
pub struct TextMap<V> {
    entries: Vec<(String, V)>,
}

/// The entries of a map as pairs of a key's characters and its value.
pub open spec fn entry_views<V>(entries: Seq<(String, V)>) -> Seq<(Seq<char>, V)> {
    entries.map_values(|e: (String, V)| (e.0@, e.1))
}

/// Whether each entry's key comes before the key of every later entry.
pub open spec fn in_key_order<V>(entries: Seq<(Seq<char>, V)>) -> bool {
    forall|i: int, j: int|
        0 <= i < j < entries.len() ==> text_before(#[trigger] entries[i].0, #[trigger] entries[j].0)
}

/// Whether some entry has this key.
pub open spec fn has_key<V>(entries: Seq<(Seq<char>, V)>, key: Seq<char>) -> bool {
    exists|i: int| 0 <= i < entries.len() && #[trigger] entries[i].0 == key
}

/// The place of an entry with this key.
pub open spec fn place_of<V>(entries: Seq<(Seq<char>, V)>, key: Seq<char>) -> int {
    choose|i: int| 0 <= i < entries.len() && #[trigger] entries[i].0 == key
}

/// The map that a list of entries stands for.
pub open spec fn map_of<V>(entries: Seq<(Seq<char>, V)>) -> Map<Seq<char>, V> {
    Map::new(
        |key: Seq<char>| has_key(entries, key),
        |key: Seq<char>| entries[place_of(entries, key)].1,
    )
}

impl<V> View for TextMap<V> {
    type V = Map<Seq<char>, V>;

    open spec fn view(&self) -> Map<Seq<char>, V> {
        map_of(self.listed())
    }
}

impl<V> TextMap<V> {
    /// The entries in the order of their keys.
    pub closed spec fn listed(self) -> Seq<(Seq<char>, V)> {
        entry_views(self.entries@)
    }

    /// The entries stand in the order of their keys, so no key occurs twice.
    #[verifier::type_invariant]
    pub closed spec fn wf(self) -> bool {
        in_key_order(self.listed())
    }

    /// Returns a map with no entries.
    pub fn new() -> (r: Self)
        ensures
            r@ == Map::<Seq<char>, V>::empty(),
            r.listed() == Seq::<(Seq<char>, V)>::empty(),
    {
        let r = TextMap { entries: Vec::new() };
        assert(r.listed() =~= Seq::empty());
        assert(r@ =~= Map::empty());
        r
    }

    /// Returns the number of entries.
    pub fn len(&self) -> (r: usize)
        ensures
            r == self.listed().len(),
    {
        self.entries.len()
    }

    /// Returns whether there are no entries.
    pub fn is_empty(&self) -> (r: bool)
        ensures
            r == (self@ == Map::<Seq<char>, V>::empty()),
    {
        proof {
            if self.listed().len() > 0 {
                let first = self.listed()[0].0;
                assert(has_key(self.listed(), first));
                assert(self@.contains_key(first));
            } else {
                assert(self@ =~= Map::empty());
            }
        }
        self.entries.len() == 0
    }

    /// Returns the key of the entry at place `i`, counted in key order.
    pub fn key_at(&self, i: usize) -> (r: &str)
        requires
            i < self.listed().len(),
        ensures
            r@ == self.listed()[i as int].0,
    {
        self.entries[i].0.as_str()
    }

    /// Returns the value of the entry at place `i`, counted in key order.
    pub fn value_at(&self, i: usize) -> (r: &V)
        requires
            i < self.listed().len(),
        ensures
            *r == self.listed()[i as int].1,
    {
        &self.entries[i].1
    }

    /// Returns the value under a key, if there is one.
    pub fn get(&self, key: &str) -> (r: Option<&V>)
        ensures
            r == (if self@.contains_key(key@) {
                Some(&self@[key@])
            } else {
                None
            }),
    {
        proof {
            use_type_invariant(self);
        }
        let mut i: usize = 0;
        while i < self.entries.len()
            invariant
                self.wf(),
                i <= self.entries@.len(),
                forall|j: int| 0 <= j < i ==> #[trigger] self.listed()[j].0 != key@,
            decreases self.entries.len() - i,
        {
            if same_text(self.entries[i].0.as_str(), key) {
                proof {
                    lemma_entry(self.listed(), i as int);
                }
                return Some(&self.entries[i].1);
            }
            i += 1;
        }
        None
    }

    /// Puts a value under a key, in place of the one that was there, if any.
    pub fn insert(&mut self, key: String, value: V)
        ensures
            final(self)@ == old(self)@.insert(key@, value),
    {
        proof {
            use_type_invariant(&*self);
        }
        let mut entries: Vec<(String, V)> = Vec::new();
        std::mem::swap(&mut entries, &mut self.entries);
        let ghost before = entry_views(entries@);
        let ghost key_view = key@;
        let mut i: usize = 0;
        let mut order: TextOrder = TextOrder::After;
        while i < entries.len() && order == TextOrder::After
            invariant
                before == entry_views(entries@),
                key_view == key@,
                i <= entries@.len(),
                order != TextOrder::After ==> i < entries@.len(),
                order == TextOrder::Same <==> i < entries@.len() && order != TextOrder::After
                    && before[i as int].0 == key_view,
                order == TextOrder::Before ==> text_before(key_view, before[i as int].0),
                forall|j: int| 0 <= j < i ==> text_before(#[trigger] before[j].0, key_view),
            decreases
                entries.len() - i,
                (if order == TextOrder::After {
                    1int
                } else {
                    0int
                }),
        {
            order = text_order(key.as_str(), entries[i].0.as_str());
            if order == TextOrder::After {
                i += 1;
            }
        }
        if order == TextOrder::Same {
            entries[i].1 = value;
            proof {
                lemma_replaced(before, i as int, value);
                assert(entry_views(entries@) =~= before.update(i as int, (key_view, value)));
            }
        } else {
            entries.insert(i, (key, value));
            proof {
                lemma_placed(before, i as int, key_view, value);
                assert(entry_views(entries@) =~= before.insert(i as int, (key_view, value)));
            }
        }
        self.entries = entries;
    }
}

impl<V: Clone> Clone for TextMap<V> {
    /// Returns a map with the same keys, in the same order, each with a clone
    /// of its value.
    fn clone(&self) -> (r: Self)
        ensures
            r.listed().len() == self.listed().len(),
            forall|i: int|
                0 <= i < r.listed().len() ==> {
                    &&& (#[trigger] r.listed()[i]).0 == self.listed()[i].0
                    &&& cloned(self.listed()[i].1, r.listed()[i].1)
                },
    {
        proof {
            use_type_invariant(self);
        }
        let mut entries: Vec<(String, V)> = Vec::new();
        let mut i: usize = 0;
        while i < self.entries.len()
            invariant
                self.wf(),
                i <= self.entries@.len(),
                entries@.len() == i,
                forall|j: int|
                    0 <= j < i ==> {
                        &&& (#[trigger] entries@[j]).0@ == self.listed()[j].0
                        &&& cloned(self.listed()[j].1, entries@[j].1)
                    },
            decreases self.entries.len() - i,
        {
            entries.push((self.entries[i].0.clone(), self.entries[i].1.clone()));
            i += 1;
        }
        assert forall|a: int, b: int| 0 <= a < b < entries@.len() implies text_before(
            #[trigger] entry_views(entries@)[a].0,
            #[trigger] entry_views(entries@)[b].0,
        ) by {
            assert(text_before(self.listed()[a].0, self.listed()[b].0));
            assert(entries@[a].0@ == self.listed()[a].0);
            assert(entries@[b].0@ == self.listed()[b].0);
        }
        TextMap { entries }
    }
}

/// The listed entries of a map stand in the order of their keys, and each is
/// the one that its key leads to.
pub proof fn lemma_listed<V>(map: TextMap<V>)
    requires
        map.wf(),
    ensures
        in_key_order(map.listed()),
        forall|i: int|
            0 <= i < map.listed().len() ==> {
                &&& map@.contains_key(#[trigger] map.listed()[i].0)
                &&& map@[map.listed()[i].0] == map.listed()[i].1
            },
{
    assert forall|i: int| 0 <= i < map.listed().len() implies {
        &&& map@.contains_key(#[trigger] map.listed()[i].0)
        &&& map@[map.listed()[i].0] == map.listed()[i].1
    } by {
        lemma_entry(map.listed(), i);
    }
}

/// An entry in key order is the one that its key leads to.
pub proof fn lemma_entry<V>(entries: Seq<(Seq<char>, V)>, i: int)
    requires
        in_key_order(entries),
        0 <= i < entries.len(),
    ensures
        map_of(entries).contains_key(entries[i].0),
        map_of(entries)[entries[i].0] == entries[i].1,
{
    let key = entries[i].0;
    assert(has_key(entries, key));
    let p = place_of(entries, key);
    if p != i {
        lemma_text_before_strict(entries[p].0, entries[i].0);
        lemma_text_before_strict(entries[i].0, entries[p].0);
    }
}

/// Without its last entry, a list in key order is in key order and has every
/// key but the last one.
proof fn lemma_without_last<V>(entries: Seq<(Seq<char>, V)>, key: Seq<char>)
    requires
        in_key_order(entries),
        entries.len() > 0,
    ensures
        in_key_order(entries.drop_last()),
        has_key(entries.drop_last(), key) == (has_key(entries, key) && key != entries.last().0),
{
    let earlier = entries.drop_last();
    assert forall|a: int, b: int| 0 <= a < b < earlier.len() implies text_before(
        #[trigger] earlier[a].0,
        #[trigger] earlier[b].0,
    ) by {
        assert(text_before(entries[a].0, entries[b].0));
    }
    if has_key(earlier, key) {
        let p = place_of(earlier, key);
        assert(earlier[p].0 == key);
        assert(entries[p].0 == key);
        assert(text_before(entries[p].0, entries[entries.len() - 1].0));
        lemma_text_before_strict(entries[p].0, entries.last().0);
    }
    if has_key(entries, key) && key != entries.last().0 {
        let p = place_of(entries, key);
        assert(entries[p].0 == key);
        assert(earlier[p].0 == key);
    }
}

/// Two lists in key order with the same keys have them in the same places.
proof fn lemma_same_places<V>(a: Seq<(Seq<char>, V)>, b: Seq<(Seq<char>, V)>)
    requires
        in_key_order(a),
        in_key_order(b),
        forall|key: Seq<char>| #[trigger] has_key(a, key) == has_key(b, key),
    ensures
        a.len() == b.len(),
        forall|i: int| 0 <= i < a.len() ==> (#[trigger] a[i]).0 == b[i].0,
    decreases a.len(),
{
    if a.len() == 0 {
        if b.len() > 0 {
            assert(b[0].0 == b[0].0);
            assert(has_key(b, b[0].0));
            assert(has_key(a, b[0].0));
        }
    } else {
        let last_a = a.last().0;
        assert(a[a.len() - 1].0 == last_a);
        assert(has_key(a, last_a));
        assert(has_key(b, last_a));
        let p = place_of(b, last_a);
        assert(b[p].0 == last_a);
        let last_b = b.last().0;
        assert(b[b.len() - 1].0 == last_b);
        assert(has_key(b, last_b));
        assert(has_key(a, last_b));
        let q = place_of(a, last_b);
        assert(a[q].0 == last_b);
        if p < b.len() - 1 {
            assert(text_before(b[p].0, b[b.len() - 1].0));
            lemma_text_before_strict(last_a, last_b);
            if q < a.len() - 1 {
                assert(text_before(a[q].0, a[a.len() - 1].0));
            }
        }
        assert(last_a == last_b);
        assert forall|key: Seq<char>| #[trigger] has_key(a.drop_last(), key) == has_key(
            b.drop_last(),
            key,
        ) by {
            lemma_without_last(a, key);
            lemma_without_last(b, key);
            assert(has_key(a, key) == has_key(b, key));
        }
        lemma_without_last(a, last_a);
        lemma_without_last(b, last_b);
        lemma_same_places(a.drop_last(), b.drop_last());
        assert forall|i: int| 0 <= i < a.len() implies (#[trigger] a[i]).0 == b[i].0 by {
            if i < a.len() - 1 {
                assert(a.drop_last()[i].0 == b.drop_last()[i].0);
            }
        }
    }
}

/// How a map lists its entries depends on nothing but what it maps: two maps
/// with the same keys list them in the same places, and the same key leads to
/// the value listed with it.
pub proof fn law_listing_depends_on_content<V>(a: TextMap<V>, b: TextMap<V>)
    requires
        a.wf(),
        b.wf(),
        a@.dom() == b@.dom(),
    ensures
        a.listed().len() == b.listed().len(),
        forall|i: int|
            0 <= i < a.listed().len() ==> {
                &&& (#[trigger] a.listed()[i]).0 == b.listed()[i].0
                &&& a.listed()[i].1 == a@[a.listed()[i].0]
                &&& b.listed()[i].1 == b@[a.listed()[i].0]
            },
{
    assert forall|key: Seq<char>| #[trigger] has_key(a.listed(), key) == has_key(
        b.listed(),
        key,
    ) by {
        assert(a@.dom().contains(key) == b@.dom().contains(key));
        assert(a@.contains_key(key) == has_key(a.listed(), key));
        assert(b@.contains_key(key) == has_key(b.listed(), key));
    }
    lemma_same_places(a.listed(), b.listed());
    lemma_listed(a);
    lemma_listed(b);
    assert forall|i: int| 0 <= i < a.listed().len() implies {
        &&& (#[trigger] a.listed()[i]).0 == b.listed()[i].0
        &&& a.listed()[i].1 == a@[a.listed()[i].0]
        &&& b.listed()[i].1 == b@[a.listed()[i].0]
    } by {
        assert(b@.contains_key(b.listed()[i].0));
    }
}

/// A list of entries in key order stands for the map that holds every entry
/// and no other key.
proof fn lemma_stands_for<V>(entries: Seq<(Seq<char>, V)>, map: Map<Seq<char>, V>)
    requires
        in_key_order(entries),
        forall|i: int|
            0 <= i < entries.len() ==> map.contains_key(#[trigger] entries[i].0)
                && map[entries[i].0] == entries[i].1,
        forall|key: Seq<char>| #[trigger] map.contains_key(key) ==> has_key(entries, key),
    ensures
        map_of(entries) == map,
{
    assert forall|key: Seq<char>| #[trigger] map_of(entries).contains_key(key) implies {
        &&& map.contains_key(key)
        &&& map[key] == map_of(entries)[key]
    } by {
        let p = place_of(entries, key);
        assert(entries[p].0 == key);
    }
    assert(map_of(entries) =~= map);
}

/// Giving an entry another value gives its key that value in the map.
proof fn lemma_replaced<V>(entries: Seq<(Seq<char>, V)>, i: int, value: V)
    requires
        in_key_order(entries),
        0 <= i < entries.len(),
    ensures
        in_key_order(entries.update(i, (entries[i].0, value))),
        map_of(entries.update(i, (entries[i].0, value))) == map_of(entries).insert(
            entries[i].0,
            value,
        ),
{
    let key = entries[i].0;
    let updated = entries.update(i, (key, value));
    let map = map_of(entries).insert(key, value);
    assert forall|a: int, b: int| 0 <= a < b < updated.len() implies text_before(
        #[trigger] updated[a].0,
        #[trigger] updated[b].0,
    ) by {
        assert(text_before(entries[a].0, entries[b].0));
    }
    assert forall|j: int| 0 <= j < updated.len() implies map.contains_key(
        #[trigger] updated[j].0,
    ) && map[updated[j].0] == updated[j].1 by {
        lemma_entry(entries, j);
        if j < i {
            lemma_text_before_strict(entries[j].0, entries[i].0);
        } else if i < j {
            lemma_text_before_strict(entries[i].0, entries[j].0);
        }
    }
    assert forall|k: Seq<char>| #[trigger] map.contains_key(k) implies has_key(updated, k) by {
        let p = if k == key {
            i
        } else {
            place_of(entries, k)
        };
        assert(updated[p].0 == k);
    }
    lemma_stands_for(updated, map);
}

/// Placing an entry between those before and those after its key adds it to
/// the map.
proof fn lemma_placed<V>(entries: Seq<(Seq<char>, V)>, i: int, key: Seq<char>, value: V)
    requires
        in_key_order(entries),
        0 <= i <= entries.len(),
        forall|j: int| 0 <= j < i ==> text_before(#[trigger] entries[j].0, key),
        i < entries.len() ==> text_before(key, entries[i].0),
    ensures
        in_key_order(entries.insert(i, (key, value))),
        map_of(entries.insert(i, (key, value))) == map_of(entries).insert(key, value),
{
    let placed = entries.insert(i, (key, value));
    let map = map_of(entries).insert(key, value);
    assert forall|j: int| i <= j < entries.len() implies text_before(
        key,
        #[trigger] entries[j].0,
    ) by {
        if i < j {
            lemma_text_before_transitive(key, entries[i].0, entries[j].0);
        }
    }
    assert forall|a: int, b: int| 0 <= a < b < placed.len() implies text_before(
        #[trigger] placed[a].0,
        #[trigger] placed[b].0,
    ) by {
        let x = if a < i {
            a
        } else {
            a - 1
        };
        let y = if b < i {
            b
        } else {
            b - 1
        };
        if a != i && b != i {
            assert(text_before(entries[x].0, entries[y].0));
        } else if a == i {
            assert(placed[b] == entries[b - 1]);
        } else {
            assert(placed[a] == entries[a]);
        }
    }
    assert forall|j: int| 0 <= j < placed.len() implies map.contains_key(
        #[trigger] placed[j].0,
    ) && map[placed[j].0] == placed[j].1 by {
        if j < i {
            assert(placed[j] == entries[j]);
            lemma_entry(entries, j);
            lemma_text_before_strict(entries[j].0, key);
        } else if i < j {
            assert(placed[j] == entries[j - 1]);
            lemma_entry(entries, j - 1);
            lemma_text_before_strict(key, entries[j - 1].0);
        }
    }
    assert forall|k: Seq<char>| #[trigger] map.contains_key(k) implies has_key(placed, k) by {
        if k == key {
            assert(placed[i].0 == k);
        } else {
            let p = place_of(entries, k);
            assert(entries[p].0 == k);
            if p < i {
                assert(placed[p] == entries[p]);
            } else {
                assert(placed[p + 1] == entries[p]);
            }
        }
    }
    lemma_stands_for(placed, map);
}

} // verus!
