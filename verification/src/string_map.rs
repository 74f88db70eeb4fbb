//! Association maps and sets keyed by property names.
//!
//! The engine stores every per-property table in a [`StringMap`]: a vector of
//! key/value pairs with pairwise-distinct keys, viewed as a mathematical
//! `Map<Seq<char>, _>`.  Insertion order is kept, which makes every
//! traversal of a map deterministic.  [`StringSet`] is the analogous set of
//! property names.

use vstd::prelude::*;
use vstd::string::StrSliceExecFns;

verus! {

/// A value that can live in a [`StringMap`]: it has a mathematical model
/// that the map's view stores.
pub trait Modeled {
    /// The type of the mathematical model.
    type ModelT;

    /// The mathematical model of the value.
    spec fn model(&self) -> Self::ModelT;
}

/// Compares two string slices by their character sequences.
pub fn str_eq(a: &str, b: &str) -> (r: bool)
    ensures
        r == (a@ == b@),
{
    let a_len = a.unicode_len();
    let b_len = b.unicode_len();
    if a_len != b_len {
        proof {
            assert(a@ != b@) by {
                assert(a@.len() != b@.len());
            }
        }
        return false;
    }
    let mut i: usize = 0;
    while i < a_len
        invariant
            i <= a_len,
            a_len == a@.len(),
            b_len == b@.len(),
            a_len == b_len,
            forall|j: int| 0 <= j < i ==> a@[j] == b@[j],
        decreases a_len - i,
    {
        if a.get_char(i) != b.get_char(i) {
            return false;
        }
        i = i + 1;
    }
    proof {
        assert(a@ =~= b@);
    }
    true
}

/// The map denoted by a sequence of key/value pairs; a later entry for the
/// same key wins.
pub open spec fn map_of<V: Modeled>(s: Seq<(String, V)>) -> Map<Seq<char>, V::ModelT>
    decreases s.len(),
{
    if s.len() == 0 {
        Map::empty()
    } else {
        map_of(s.drop_last()).insert(s.last().0@, s.last().1.model())
    }
}

/// The set denoted by a sequence of strings.
pub open spec fn set_of(s: Seq<String>) -> Set<Seq<char>>
    decreases s.len(),
{
    if s.len() == 0 {
        Set::empty()
    } else {
        set_of(s.drop_last()).insert(s.last()@)
    }
}

/// A map from property names to values, backed by a vector of entries with
/// pairwise-distinct keys, in insertion order.
#[derive(Debug, PartialEq, Eq)]
pub struct StringMap<V> {
    entries: Vec<(String, V)>,
}

impl<V: Modeled> View for StringMap<V> {
    type V = Map<Seq<char>, V::ModelT>;

    closed spec fn view(&self) -> Map<Seq<char>, V::ModelT> {
        map_of(self.entries@)
    }
}

impl<V: Modeled> StringMap<V> {
    /// The keys of the map, as character sequences, in insertion order.
    pub closed spec fn key_seq(&self) -> Seq<Seq<char>> {
        self.entries@.map_values(|e: (String, V)| e.0@)
    }

    /// Well-formedness: no key occurs twice.
    pub closed spec fn wf(&self) -> bool {
        self.key_seq().no_duplicates()
    }

    /// The domain of the map's view is exactly the set of keys that occur in
    /// the entry sequence.
    pub proof fn lemma_dom(&self)
        ensures
            forall|k: Seq<char>| #[trigger] self@.dom().contains(k) <==> self.key_seq().contains(k),
    {
        Self::lemma_map_of_dom(self.entries@);
    }

    /// The domain of the map's view is finite.
    pub proof fn lemma_dom_finite(&self)
        ensures
            self@.dom().finite(),
    {
        Self::lemma_map_of_dom_finite(self.entries@);
    }

    proof fn lemma_map_of_dom_finite(s: Seq<(String, V)>)
        ensures
            map_of(s).dom().finite(),
        decreases s.len(),
    {
        if s.len() > 0 {
            Self::lemma_map_of_dom_finite(s.drop_last());
        }
    }

    proof fn lemma_map_of_dom(s: Seq<(String, V)>)
        ensures
            forall|k: Seq<char>|
                #[trigger] map_of(s).dom().contains(k) <==> s.map_values(
                    |e: (String, V)| e.0@,
                ).contains(k),
        decreases s.len(),
    {
        let keys = s.map_values(|e: (String, V)| e.0@);
        if s.len() == 0 {
            assert(forall|k: Seq<char>| !(#[trigger] keys.contains(k))) by {
                assert(keys.len() == 0);
            }
        } else {
            let rest = s.drop_last();
            Self::lemma_map_of_dom(rest);
            let rest_keys = rest.map_values(|e: (String, V)| e.0@);
            assert(rest_keys =~= keys.drop_last());
            assert forall|k: Seq<char>| #[trigger] map_of(s).dom().contains(k) implies keys.contains(
                k,
            ) by {
                if k == s.last().0@ {
                    assert(keys[keys.len() - 1] == k);
                } else {
                    assert(map_of(rest).dom().contains(k));
                    assert(rest_keys.contains(k));
                    let i = choose|i: int| 0 <= i < rest_keys.len() && rest_keys[i] == k;
                    assert(keys[i] == rest_keys[i]);
                    assert(keys[i] == k);
                }
            }
            assert forall|k: Seq<char>| #[trigger] keys.contains(k) implies map_of(
                s,
            ).dom().contains(k) by {
                let i = choose|i: int| 0 <= i < keys.len() && keys[i] == k;
                if i < keys.len() - 1 {
                    assert(rest_keys[i] == keys[i]);
                    assert(rest_keys.contains(k));
                    assert(map_of(rest).dom().contains(k));
                } else {
                    assert(k == s.last().0@);
                }
            }
        }
    }

    /// Looking a key up in the view returns the model of the entry that
    /// carries it.
    proof fn lemma_map_of_get(s: Seq<(String, V)>, i: int)
        requires
            s.map_values(|e: (String, V)| e.0@).no_duplicates(),
            0 <= i < s.len(),
        ensures
            map_of(s).dom().contains(s[i].0@),
            map_of(s)[s[i].0@] == s[i].1.model(),
        decreases s.len(),
    {
        let keys = s.map_values(|e: (String, V)| e.0@);
        Self::lemma_map_of_dom(s);
        assert(keys[i] == s[i].0@);
        if i == s.len() - 1 {
        } else {
            let rest = s.drop_last();
            let rest_keys = rest.map_values(|e: (String, V)| e.0@);
            assert(rest_keys =~= keys.drop_last());
            Self::lemma_map_of_get(rest, i);
            assert(keys[s.len() - 1] != keys[i]);
        }
    }

    /// Creates an empty map.
    pub fn new() -> (res: Self)
        ensures
            res.wf(),
            res@ == Map::<Seq<char>, V::ModelT>::empty(),
            res.key_seq() == Seq::<Seq<char>>::empty(),
    {
        let res = StringMap { entries: Vec::new() };
        proof {
            assert(res.key_seq() =~= Seq::<Seq<char>>::empty());
        }
        res
    }

    /// The number of entries, which equals the number of distinct keys.
    pub fn len(&self) -> (n: usize)
        ensures
            n == self.key_seq().len(),
    {
        self.entries.len()
    }

    /// The position of the entry holding `name`, if any.
    fn index_of(&self, name: &str) -> (r: Option<usize>)
        ensures
            match r {
                Some(i) => i < self.key_seq().len() && self.key_seq()[i as int] == name@,
                None => !self.key_seq().contains(name@),
            },
    {
        let ghost keys = self.key_seq();
        let mut i: usize = 0;
        while i < self.entries.len()
            invariant
                i <= self.entries.len(),
                keys == self.key_seq(),
                keys.len() == self.entries.len(),
                forall|j: int| 0 <= j < i ==> keys[j] != name@,
            decreases self.entries.len() - i,
        {
            proof {
                assert(keys[i as int] == self.entries@[i as int].0@);
            }
            if str_eq(self.entries[i].0.as_str(), name) {
                return Some(i);
            }
            i = i + 1;
        }
        proof {
            assert forall|j: int| 0 <= j < keys.len() implies keys[j] != name@ by {}
        }
        None
    }

    /// Whether the map holds a value for `name`.
    pub fn contains_key(&self, name: &str) -> (r: bool)
        ensures
            r == self@.dom().contains(name@),
    {
        proof {
            self.lemma_dom();
        }
        self.index_of(name).is_some()
    }

    /// The value stored for `name`, if any.
    pub fn get(&self, name: &str) -> (r: Option<&V>)
        requires
            self.wf(),
        ensures
            match r {
                Some(v) => self@.dom().contains(name@) && v.model() == self@[name@],
                None => !self@.dom().contains(name@),
            },
    {
        proof {
            self.lemma_dom();
        }
        match self.index_of(name) {
            Some(i) => {
                proof {
                    Self::lemma_map_of_get(self.entries@, i as int);
                    assert(self.entries@[i as int].0@ == self.key_seq()[i as int]);
                }
                Some(&self.entries[i].1)
            },
            None => None,
        }
    }

    /// The entry at position `i`, in insertion order.
    pub fn entry_at(&self, i: usize) -> (r: &(String, V))
        requires
            self.wf(),
            i < self.key_seq().len(),
        ensures
            r.0@ == self.key_seq()[i as int],
            self@.dom().contains(r.0@),
            r.1.model() == self@[r.0@],
    {
        proof {
            Self::lemma_map_of_get(self.entries@, i as int);
            assert(self.entries@[i as int].0@ == self.key_seq()[i as int]);
        }
        &self.entries[i]
    }

    /// Stores `value` under `name`, replacing any earlier value for the same
    /// name.  A fresh name is appended at the end of the entry order.
    pub fn insert(&mut self, name: String, value: V)
        requires
            old(self).wf(),
        ensures
            final(self).wf(),
            final(self)@ == old(self)@.insert(name@, value.model()),
            old(self)@.dom().contains(name@) ==> final(self).key_seq() == old(self).key_seq(),
            !old(self)@.dom().contains(name@) ==> final(self).key_seq() == old(
                self,
            ).key_seq().push(name@),
    {
        proof {
            self.lemma_dom();
        }
        match self.index_of(name.as_str()) {
            Some(i) => {
                let ghost old_entries = self.entries@;
                self.entries.set(i, (name, value));
                proof {
                    assert(self.key_seq() =~= old(self).key_seq());
                    Self::lemma_map_of_update(old_entries, i as int, self.entries@[i as int]);
                    assert(self.entries@ =~= old_entries.update(
                        i as int,
                        self.entries@[i as int],
                    ));
                }
            },
            None => {
                let ghost old_entries = self.entries@;
                self.entries.push((name, value));
                proof {
                    assert(self.entries@.drop_last() =~= old_entries);
                    assert(self.key_seq() =~= old(self).key_seq().push(
                        self.entries@.last().0@,
                    ));
                    assert(self.key_seq().drop_last() =~= old(self).key_seq());
                }
            },
        }
    }

    /// Replacing the value of the entry at `i` with one for the same key
    /// updates the denoted map at that key alone.
    proof fn lemma_map_of_update(s: Seq<(String, V)>, i: int, e: (String, V))
        requires
            s.map_values(|ent: (String, V)| ent.0@).no_duplicates(),
            0 <= i < s.len(),
            e.0@ == s[i].0@,
        ensures
            map_of(s.update(i, e)) == map_of(s).insert(e.0@, e.1.model()),
        decreases s.len(),
    {
        let keys = s.map_values(|ent: (String, V)| ent.0@);
        let s2 = s.update(i, e);
        if i == s.len() - 1 {
            assert(s2.drop_last() =~= s.drop_last());
            assert(map_of(s2) =~= map_of(s).insert(e.0@, e.1.model()));
        } else {
            let rest = s.drop_last();
            let rest_keys = rest.map_values(|ent: (String, V)| ent.0@);
            assert(rest_keys =~= keys.drop_last());
            Self::lemma_map_of_update(rest, i, e);
            assert(s2.drop_last() =~= rest.update(i, e));
            assert(s2.last() == s.last());
            assert(keys[s.len() - 1] != keys[i]);
            assert(map_of(s2) == map_of(rest.update(i, e)).insert(
                s.last().0@,
                s.last().1.model(),
            ));
            assert(map_of(s2) =~= map_of(s).insert(e.0@, e.1.model()));
        }
    }
}

/// A set of property names, backed by a vector of pairwise-distinct strings
/// in insertion order.
#[derive(Debug, PartialEq, Eq)]
pub struct StringSet {
    items: Vec<String>,
}

impl View for StringSet {
    type V = Set<Seq<char>>;

    closed spec fn view(&self) -> Set<Seq<char>> {
        set_of(self.items@)
    }
}

impl StringSet {
    /// The names in the set, as character sequences, in insertion order.
    pub closed spec fn name_seq(&self) -> Seq<Seq<char>> {
        self.items@.map_values(|s: String| s@)
    }

    /// Well-formedness: no name occurs twice.
    pub closed spec fn wf(&self) -> bool {
        self.name_seq().no_duplicates()
    }

    /// The view contains exactly the names that occur in the item sequence.
    pub proof fn lemma_contains(&self)
        ensures
            forall|k: Seq<char>| #[trigger] self@.contains(k) <==> self.name_seq().contains(k),
    {
        Self::lemma_set_of_contains(self.items@);
    }

    proof fn lemma_set_of_contains(s: Seq<String>)
        ensures
            forall|k: Seq<char>|
                #[trigger] set_of(s).contains(k) <==> s.map_values(|x: String| x@).contains(k),
        decreases s.len(),
    {
        let names = s.map_values(|x: String| x@);
        if s.len() == 0 {
            assert(forall|k: Seq<char>| !(#[trigger] names.contains(k))) by {
                assert(names.len() == 0);
            }
        } else {
            let rest = s.drop_last();
            Self::lemma_set_of_contains(rest);
            let rest_names = rest.map_values(|x: String| x@);
            assert(rest_names =~= names.drop_last());
            assert forall|k: Seq<char>| #[trigger] set_of(s).contains(k) implies names.contains(
                k,
            ) by {
                if k == s.last()@ {
                    assert(names[names.len() - 1] == k);
                } else {
                    assert(set_of(rest).contains(k));
                    assert(rest_names.contains(k));
                    let i = choose|i: int| 0 <= i < rest_names.len() && rest_names[i] == k;
                    assert(names[i] == rest_names[i]);
                    assert(names[i] == k);
                }
            }
            assert forall|k: Seq<char>| #[trigger] names.contains(k) implies set_of(s).contains(
                k,
            ) by {
                let i = choose|i: int| 0 <= i < names.len() && names[i] == k;
                if i < names.len() - 1 {
                    assert(rest_names[i] == names[i]);
                    assert(rest_names.contains(k));
                    assert(set_of(rest).contains(k));
                } else {
                    assert(k == s.last()@);
                }
            }
        }
    }

    /// Creates an empty set.
    pub fn new() -> (res: Self)
        ensures
            res.wf(),
            res@ == Set::<Seq<char>>::empty(),
            res.name_seq() == Seq::<Seq<char>>::empty(),
    {
        let res = StringSet { items: Vec::new() };
        proof {
            assert(res.name_seq() =~= Seq::<Seq<char>>::empty());
        }
        res
    }

    /// The number of names in the set.
    pub fn len(&self) -> (n: usize)
        ensures
            n == self.name_seq().len(),
    {
        self.items.len()
    }

    /// The position of `name` in the item vector, if present.
    fn index_of(&self, name: &str) -> (r: Option<usize>)
        ensures
            match r {
                Some(i) => i < self.name_seq().len() && self.name_seq()[i as int] == name@,
                None => !self.name_seq().contains(name@),
            },
    {
        let ghost names = self.name_seq();
        let mut i: usize = 0;
        while i < self.items.len()
            invariant
                i <= self.items.len(),
                names == self.name_seq(),
                names.len() == self.items.len(),
                forall|j: int| 0 <= j < i ==> names[j] != name@,
            decreases self.items.len() - i,
        {
            proof {
                assert(names[i as int] == self.items@[i as int]@);
            }
            if str_eq(self.items[i].as_str(), name) {
                return Some(i);
            }
            i = i + 1;
        }
        None
    }

    /// Whether the set contains `name`.
    pub fn contains(&self, name: &str) -> (r: bool)
        ensures
            r == self@.contains(name@),
    {
        proof {
            self.lemma_contains();
        }
        self.index_of(name).is_some()
    }

    /// The name at position `i`, in insertion order.
    pub fn name_at(&self, i: usize) -> (r: &String)
        requires
            i < self.name_seq().len(),
        ensures
            r@ == self.name_seq()[i as int],
            self@.contains(r@),
    {
        proof {
            self.lemma_contains();
            assert(self.name_seq()[i as int] == self.items@[i as int]@);
        }
        &self.items[i]
    }

    /// Adds `name` to the set; a name already present is left alone.
    pub fn insert(&mut self, name: String)
        requires
            old(self).wf(),
        ensures
            final(self).wf(),
            final(self)@ == old(self)@.insert(name@),
            old(self)@.contains(name@) ==> final(self).name_seq() == old(self).name_seq(),
            !old(self)@.contains(name@) ==> final(self).name_seq() == old(self).name_seq().push(
                name@,
            ),
    {
        proof {
            self.lemma_contains();
        }
        match self.index_of(name.as_str()) {
            Some(_) => {
                proof {
                    assert(self@ =~= old(self)@.insert(name@));
                }
            },
            None => {
                let ghost old_items = self.items@;
                self.items.push(name);
                proof {
                    assert(self.items@.drop_last() =~= old_items);
                    assert(self.name_seq() =~= old(self).name_seq().push(
                        self.items@.last()@,
                    ));
                    assert(self.name_seq().drop_last() =~= old(self).name_seq());
                }
            },
        }
    }

    /// Removes `name` from the set; a name not present is left alone.
    pub fn remove(&mut self, name: &str)
        requires
            old(self).wf(),
        ensures
            final(self).wf(),
            final(self)@ == old(self)@.remove(name@),
    {
        proof {
            self.lemma_contains();
        }
        match self.index_of(name) {
            Some(i) => {
                let ghost old_items = self.items@;
                self.items.remove(i);
                proof {
                    let names = old(self).name_seq();
                    assert(self.items@ =~= old_items.subrange(0, i as int) + old_items.subrange(
                        i as int + 1,
                        old_items.len() as int,
                    ));
                    assert(self.name_seq() =~= names.remove(i as int));
                    Self::lemma_set_of_remove(old_items, i as int);
                    self.lemma_contains();
                    assert(self@ =~= old(self)@.remove(name@));
                }
            },
            None => {
                proof {
                    assert(self@ =~= old(self)@.remove(name@));
                }
            },
        }
    }

    /// Removing the item at `i` removes exactly its name from the denoted
    /// set, provided names are pairwise distinct.
    proof fn lemma_set_of_remove(s: Seq<String>, i: int)
        requires
            s.map_values(|x: String| x@).no_duplicates(),
            0 <= i < s.len(),
        ensures
            forall|k: Seq<char>|
                #[trigger] set_of(s.remove(i)).contains(k) <==> (set_of(s).contains(k) && k != s[i]@),
    {
        let names = s.map_values(|x: String| x@);
        let removed = s.remove(i);
        let removed_names = removed.map_values(|x: String| x@);
        Self::lemma_set_of_contains(s);
        Self::lemma_set_of_contains(removed);
        assert(removed_names =~= names.remove(i));
        assert forall|k: Seq<char>| #[trigger] set_of(removed).contains(k) implies (set_of(
            s,
        ).contains(k) && k != s[i]@) by {
            let j = choose|j: int| 0 <= j < removed_names.len() && removed_names[j] == k;
            if j < i {
                assert(names[j] == k);
                assert(names[i] != names[j]);
            } else {
                assert(names[j + 1] == k);
                assert(names[i] != names[j + 1]);
            }
        }
        assert forall|k: Seq<char>| set_of(s).contains(k) && k != s[i]@ implies #[trigger] set_of(
            removed,
        ).contains(k) by {
            let j = choose|j: int| 0 <= j < names.len() && names[j] == k;
            if j < i {
                assert(removed_names[j] == k);
            } else {
                assert(j != i);
                assert(removed_names[j - 1] == k);
            }
        }
    }
}

/// The set of names occurring in a sequence of character sequences.
pub open spec fn names_set(s: Seq<Seq<char>>) -> Set<Seq<char>>
    decreases s.len(),
{
    if s.len() == 0 {
        Set::empty()
    } else {
        names_set(s.drop_last()).insert(s.last())
    }
}

impl StringSet {
    /// The view of a set is the set of names in its name sequence.
    pub proof fn lemma_view_names_set(&self)
        ensures
            self@ == names_set(self.name_seq()),
    {
        Self::lemma_set_of_names_set(self.items@);
    }

    proof fn lemma_set_of_names_set(s: Seq<String>)
        ensures
            set_of(s) == names_set(s.map_values(|x: String| x@)),
        decreases s.len(),
    {
        let names = s.map_values(|x: String| x@);
        if s.len() == 0 {
            assert(names.len() == 0);
            assert(set_of(s) =~= names_set(names));
        } else {
            let rest = s.drop_last();
            Self::lemma_set_of_names_set(rest);
            assert(rest.map_values(|x: String| x@) =~= names.drop_last());
            assert(names.last() == s.last()@);
            assert(set_of(s) =~= names_set(names));
        }
    }
}

} // verus!
