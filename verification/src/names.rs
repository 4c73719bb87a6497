//! Names, their order, and the sorted collections keyed by them.
use std::sync::Arc;

use vstd::prelude::*;

use crate::shared::share;

verus! {

/// The order of names: character by character, a proper prefix first.
pub open spec fn name_before(a: Seq<char>, b: Seq<char>) -> bool
    decreases a.len(),
{
    if b.len() == 0 {
        false
    } else if a.len() == 0 {
        true
    } else if a[0] != b[0] {
        a[0] < b[0]
    } else {
        name_before(a.drop_first(), b.drop_first())
    }
}

/// No name stands before itself.
pub proof fn name_order_is_irreflexive(a: Seq<char>)
    ensures
        !name_before(a, a),
    decreases a.len(),
{
    if a.len() > 0 {
        name_order_is_irreflexive(a.drop_first());
    }
}

/// The order of names is transitive.
pub proof fn name_order_is_transitive(a: Seq<char>, b: Seq<char>, c: Seq<char>)
    requires
        name_before(a, b),
        name_before(b, c),
    ensures
        name_before(a, c),
    decreases a.len(),
{
    if a.len() > 0 && a[0] == b[0] && b[0] == c[0] {
        name_order_is_transitive(a.drop_first(), b.drop_first(), c.drop_first());
    }
}

/// Of two different names one stands before the other.
pub proof fn name_order_is_total(a: Seq<char>, b: Seq<char>)
    ensures
        a == b || name_before(a, b) || name_before(b, a),
    decreases a.len(),
{
    if a.len() > 0 && b.len() > 0 && a[0] == b[0] {
        name_order_is_total(a.drop_first(), b.drop_first());
        if a.drop_first() == b.drop_first() {
            assert(a =~= seq![a[0]] + a.drop_first());
            assert(b =~= seq![b[0]] + b.drop_first());
        }
    } else if a.len() == 0 && b.len() == 0 {
        assert(a =~= b);
    }
}

/// How two names stand to each other.
#[derive(Clone, Copy, PartialEq, Eq, Structural)]
pub enum NameOrder {
    Before,
    Same,
    After,
}

/// Compares two names.
pub fn order_names(a: &str, b: &str) -> (order: NameOrder)
    ensures
        order == NameOrder::Before <==> name_before(a@, b@),
        order == NameOrder::Same <==> a@ == b@,
        order == NameOrder::After <==> name_before(b@, a@),
{
    let mut left = a.chars();
    let mut right = b.chars();
    proof {
        name_order_is_irreflexive(a@);
    }
    loop
        invariant
            vstd::std_specs::iter::IteratorSpec::decrease(&left) is Some,
            name_before(a@, b@) == name_before(
                vstd::std_specs::iter::IteratorSpec::remaining(&left),
                vstd::std_specs::iter::IteratorSpec::remaining(&right),
            ),
            name_before(b@, a@) == name_before(
                vstd::std_specs::iter::IteratorSpec::remaining(&right),
                vstd::std_specs::iter::IteratorSpec::remaining(&left),
            ),
            (a@ == b@) == (vstd::std_specs::iter::IteratorSpec::remaining(&left)
                == vstd::std_specs::iter::IteratorSpec::remaining(&right)),
        decreases vstd::std_specs::iter::IteratorSpec::decrease(&left)->0,
    {
        let ghost x = vstd::std_specs::iter::IteratorSpec::remaining(&left);
        let ghost y = vstd::std_specs::iter::IteratorSpec::remaining(&right);
        match (left.next(), right.next()) {
            (None, None) => {
                assert(x =~= y);
                proof {
                    name_order_is_irreflexive(x);
                }
                return NameOrder::Same;
            },
            (None, Some(_)) => {
                return NameOrder::Before;
            },
            (Some(_), None) => {
                return NameOrder::After;
            },
            (Some(p), Some(q)) => {
                if p != q {
                    if p < q {
                        return NameOrder::Before;
                    }
                    return NameOrder::After;
                }
                proof {
                    assert(x =~= seq![p] + x.drop_first());
                    assert(y =~= seq![q] + y.drop_first());
                }
            },
        }
    }
}

/// Each name stands before all that follow it, so none occurs twice.
pub open spec fn in_name_order(names: Seq<Seq<char>>) -> bool {
    forall|i: int, j: int|
        0 <= i < j < names.len() ==> #[trigger] name_before(names[i], names[j])
}

spec fn keys_of<V>(entries: Seq<(String, V)>) -> Seq<Seq<char>> {
    Seq::new(entries.len(), |i: int| entries[i].0@)
}

spec fn map_of<V>(entries: Seq<(String, V)>) -> Map<Seq<char>, V> {
    Map::new(
        |name: Seq<char>| keys_of(entries).contains(name),
        |name: Seq<char>| entries[keys_of(entries).index_of(name)].1,
    )
}

proof fn lemma_ordered_names_differ(names: Seq<Seq<char>>)
    requires
        in_name_order(names),
    ensures
        names.no_duplicates(),
{
    assert forall|i: int, j: int|
        0 <= i < names.len() && 0 <= j < names.len() && i != j implies names[i] != names[j] by {
        if names[i] == names[j] {
            name_order_is_irreflexive(names[i]);
            if i < j {
                assert(name_before(names[i], names[j]));
            } else {
                assert(name_before(names[j], names[i]));
            }
        }
    }
}

proof fn lemma_entry_is_mapped<V>(entries: Seq<(String, V)>, i: int)
    requires
        in_name_order(keys_of(entries)),
        0 <= i < entries.len(),
    ensures
        map_of(entries).contains_key(entries[i].0@),
        map_of(entries)[entries[i].0@] == entries[i].1,
{
    let keys = keys_of(entries);
    lemma_ordered_names_differ(keys);
    assert(keys[i] == entries[i].0@);
    assert(keys.contains(keys[i]));
    assert(keys.index_of(keys[i]) == i);
}

/// The entries map a name exactly if one of them carries it.
proof fn lemma_mapped_name_has_entry<V>(entries: Seq<(String, V)>, name: Seq<char>) -> (i: int)
    requires
        in_name_order(keys_of(entries)),
        map_of(entries).contains_key(name),
    ensures
        0 <= i < entries.len(),
        entries[i].0@ == name,
        map_of(entries)[name] == entries[i].1,
{
    let i = keys_of(entries).index_of(name);
    assert(keys_of(entries).contains(name));
    i
}

proof fn lemma_insert_entry<V>(entries: Seq<(String, V)>, at: int, name: String, value: V)
    requires
        in_name_order(keys_of(entries)),
        0 <= at <= entries.len(),
        forall|i: int| 0 <= i < at ==> name_before(#[trigger] entries[i].0@, name@),
        forall|i: int| at <= i < entries.len() ==> name_before(name@, #[trigger] entries[i].0@),
    ensures
        in_name_order(keys_of(entries.insert(at, (name, value)))),
        map_of(entries.insert(at, (name, value))) == map_of(entries).insert(name@, value),
{
    let after = entries.insert(at, (name, value));
    let keys = keys_of(after);
    assert forall|i: int, j: int| 0 <= i < j < keys.len() implies #[trigger] name_before(
        keys[i],
        keys[j],
    ) by {
        let p = if i < at { i } else { i - 1 };
        let q = if j < at { j } else { j - 1 };
        if i != at && j != at {
            assert(name_before(keys_of(entries)[p], keys_of(entries)[q]));
        } else if i == at {
            assert(name_before(name@, entries[q].0@));
        } else {
            assert(name_before(entries[p].0@, name@));
        }
    }
    lemma_entry_is_mapped(after, at);
    assert(after[at] == (name, value));
    assert forall|k: Seq<char>| #[trigger] map_of(after).contains_key(k) == map_of(entries).insert(
        name@,
        value,
    ).contains_key(k) && (map_of(after).contains_key(k) ==> map_of(after)[k] == map_of(
        entries,
    ).insert(name@, value)[k]) by {
        if map_of(after).contains_key(k) {
            let i = lemma_mapped_name_has_entry(after, k);
            if i < at {
                lemma_entry_is_mapped(entries, i);
                assert(entries[i] == after[i]);
                lemma_ordered_names_differ(keys);
                assert(keys[i] != keys[at]);
            } else if i > at {
                lemma_entry_is_mapped(entries, i - 1);
                assert(entries[i - 1] == after[i]);
                lemma_ordered_names_differ(keys);
                assert(keys[i] != keys[at]);
            }
        } else if map_of(entries).contains_key(k) {
            let i = lemma_mapped_name_has_entry(entries, k);
            let j = if i < at { i } else { i + 1 };
            assert(after[j] == entries[i]);
            lemma_entry_is_mapped(after, j);
        }
    }
    assert(map_of(after) =~= map_of(entries).insert(name@, value));
}

proof fn lemma_replace_entry<V>(entries: Seq<(String, V)>, at: int, name: String, value: V)
    requires
        in_name_order(keys_of(entries)),
        0 <= at < entries.len(),
        entries[at].0@ == name@,
    ensures
        in_name_order(keys_of(entries.update(at, (name, value)))),
        map_of(entries.update(at, (name, value))) == map_of(entries).insert(name@, value),
{
    let after = entries.update(at, (name, value));
    assert(keys_of(after) =~= keys_of(entries));
    lemma_ordered_names_differ(keys_of(entries));
    lemma_entry_is_mapped(entries, at);
    lemma_entry_is_mapped(after, at);
    assert forall|k: Seq<char>| k != name@ && #[trigger] map_of(entries).contains_key(
        k,
    ) implies map_of(after)[k] == map_of(entries)[k] by {
        let i = lemma_mapped_name_has_entry(entries, k);
        lemma_entry_is_mapped(after, i);
    }
    assert(map_of(after) =~= map_of(entries).insert(name@, value));
}

proof fn lemma_remove_entry<V>(entries: Seq<(String, V)>, at: int)
    requires
        in_name_order(keys_of(entries)),
        0 <= at < entries.len(),
    ensures
        in_name_order(keys_of(entries.remove(at))),
        map_of(entries.remove(at)) == map_of(entries).remove(entries[at].0@),
{
    let after = entries.remove(at);
    let name = entries[at].0@;
    let keys = keys_of(after);
    lemma_ordered_names_differ(keys_of(entries));
    assert forall|i: int, j: int| 0 <= i < j < keys.len() implies #[trigger] name_before(
        keys[i],
        keys[j],
    ) by {
        let p = if i < at { i } else { i + 1 };
        let q = if j < at { j } else { j + 1 };
        assert(name_before(keys_of(entries)[p], keys_of(entries)[q]));
    }
    assert forall|k: Seq<char>| #[trigger] map_of(after).contains_key(k) == map_of(entries).remove(
        name,
    ).contains_key(k) && (map_of(after).contains_key(k) ==> map_of(after)[k] == map_of(
        entries,
    ).remove(name)[k]) by {
        if map_of(after).contains_key(k) {
            let i = lemma_mapped_name_has_entry(after, k);
            let p = if i < at { i } else { i + 1 };
            lemma_entry_is_mapped(entries, p);
            assert(entries[p] == after[i]);
            assert(keys_of(entries)[p] != keys_of(entries)[at]);
        } else if map_of(entries).contains_key(k) && k != name {
            let i = lemma_mapped_name_has_entry(entries, k);
            let j = if i < at { i } else { i - 1 };
            assert(after[j] == entries[i]);
            lemma_entry_is_mapped(after, j);
        }
    }
    assert(map_of(after) =~= map_of(entries).remove(name));
}

/// A map from names to values that is walked in name order.
///
/// Its view is the map; `names` lists the keys in the order of the walk.
#[derive(Debug)]
#[verifier::reject_recursive_types(V)]
pub struct NameMap<V> {
    entries: Vec<(String, V)>,
}

impl<V> View for NameMap<V> {
    type V = Map<Seq<char>, V>;

    closed spec fn view(&self) -> Map<Seq<char>, V> {
        map_of(self.entries@)
    }
}

impl<V> NameMap<V> {
    #[verifier::type_invariant]
    spec fn entries_in_order(&self) -> bool {
        in_name_order(keys_of(self.entries@))
    }

    /// The names in the map, in order.
    pub closed spec fn names(&self) -> Seq<Seq<char>> {
        keys_of(self.entries@)
    }

    /// An empty map.
    pub fn new() -> (map: Self)
        ensures
            map@ == Map::<Seq<char>, V>::empty(),
            map.names() == Seq::<Seq<char>>::empty(),
    {
        let map = NameMap { entries: Vec::new() };
        assert(map@ =~= Map::<Seq<char>, V>::empty());
        map
    }

    /// The number of names in the map.
    pub fn len(&self) -> (len: usize)
        ensures
            len == self.names().len(),
            in_name_order(self.names()),
            self.names().to_set() == self@.dom(),
            self@.dom().finite(),
            len == self@.dom().len(),
    {
        proof {
            use_type_invariant(self);
            lemma_ordered_names_differ(self.names());
            self.names().unique_seq_to_set();
            assert(self.names().to_set() =~= self@.dom());
            vstd::seq_lib::seq_to_set_is_finite(self.names());
        }
        self.entries.len()
    }

    /// Where a name stands, or would have to stand.
    fn place(&self, name: &str) -> (place: (bool, usize))
        ensures
            place.1 <= self.entries@.len(),
            place.0 ==> place.1 < self.entries@.len() && self.entries@[place.1 as int].0@ == name@,
            place.0 == self@.contains_key(name@),
            !place.0 ==> forall|i: int|
                0 <= i < place.1 ==> name_before(#[trigger] self.entries@[i].0@, name@),
            !place.0 ==> forall|i: int|
                place.1 <= i < self.entries@.len() ==> name_before(
                    name@,
                    #[trigger] self.entries@[i].0@,
                ),
    {
        proof {
            use_type_invariant(self);
        }
        let ghost keys = keys_of(self.entries@);
        let mut low: usize = 0;
        let mut high: usize = self.entries.len();
        while low < high
            invariant
                in_name_order(keys),
                keys == keys_of(self.entries@),
                low <= high <= self.entries@.len(),
                forall|i: int| 0 <= i < low ==> name_before(#[trigger] self.entries@[i].0@, name@),
                forall|i: int|
                    high <= i < self.entries@.len() ==> name_before(
                        name@,
                        #[trigger] self.entries@[i].0@,
                    ),
            decreases high - low,
        {
            let middle: usize = low + (high - low) / 2;
            match order_names(self.entries[middle].0.as_str(), name) {
                NameOrder::Same => {
                    proof {
                        lemma_entry_is_mapped(self.entries@, middle as int);
                    }
                    return (true, middle);
                },
                NameOrder::Before => {
                    proof {
                        assert forall|i: int| 0 <= i < middle + 1 implies name_before(
                            #[trigger] self.entries@[i].0@,
                            name@,
                        ) by {
                            if i < middle {
                                assert(name_before(keys[i], keys[middle as int]));
                                name_order_is_transitive(keys[i], keys[middle as int], name@);
                            }
                        }
                    }
                    low = middle + 1;
                },
                NameOrder::After => {
                    proof {
                        assert forall|i: int| middle <= i < self.entries@.len() implies name_before(
                            name@,
                            #[trigger] self.entries@[i].0@,
                        ) by {
                            if i > middle {
                                assert(name_before(keys[middle as int], keys[i]));
                                name_order_is_transitive(name@, keys[middle as int], keys[i]);
                            }
                        }
                    }
                    high = middle;
                },
            }
        }
        proof {
            if self@.contains_key(name@) {
                let i = lemma_mapped_name_has_entry(self.entries@, name@);
                name_order_is_irreflexive(name@);
                assert(self.entries@[i].0@ == name@);
            }
        }
        (false, low)
    }

    /// Whether the map holds a name.
    pub fn contains_key(&self, name: &str) -> (held: bool)
        ensures
            held == self@.contains_key(name@),
    {
        self.place(name).0
    }

    /// The value under a name.
    pub fn get(&self, name: &str) -> (value: Option<&V>)
        ensures
            match value {
                Some(v) => self@.contains_key(name@) && *v == self@[name@],
                None => !self@.contains_key(name@),
            },
    {
        let (held, at) = self.place(name);
        if held {
            proof {
                use_type_invariant(self);
                lemma_entry_is_mapped(self.entries@, at as int);
            }
            Some(&self.entries[at].1)
        } else {
            None
        }
    }

    /// Puts a value under a name, in place of the one that was there.
    pub fn insert(&mut self, name: String, value: V)
        ensures
            final(self)@ == old(self)@.insert(name@, value),
    {
        proof {
            use_type_invariant(&*self);
        }
        let (held, at) = self.place(name.as_str());
        let mut entries = Vec::new();
        std::mem::swap(&mut self.entries, &mut entries);
        if held {
            proof {
                lemma_replace_entry(entries@, at as int, name, value);
            }
            entries.set(at, (name, value));
        } else {
            proof {
                lemma_insert_entry(entries@, at as int, name, value);
            }
            entries.insert(at, (name, value));
        }
        self.entries = entries;
    }

    /// Takes a name out of the map.
    pub fn remove(&mut self, name: &str)
        ensures
            final(self)@ == old(self)@.remove(name@),
    {
        proof {
            use_type_invariant(&*self);
        }
        let (held, at) = self.place(name);
        if held {
            let mut entries = Vec::new();
            std::mem::swap(&mut self.entries, &mut entries);
            proof {
                lemma_remove_entry(entries@, at as int);
            }
            entries.remove(at);
            self.entries = entries;
        } else {
            assert(self@ =~= old(self)@.remove(name@));
        }
    }

    /// Takes every name out of the map.
    pub fn clear(&mut self)
        ensures
            final(self)@ == Map::<Seq<char>, V>::empty(),
    {
        self.entries = Vec::new();
        assert(self@ =~= Map::<Seq<char>, V>::empty());
    }

    /// The name at a position of the walk.
    pub fn name_at(&self, i: usize) -> (name: &str)
        requires
            i < self.names().len(),
        ensures
            name@ == self.names()[i as int],
            self@.contains_key(name@),
    {
        proof {
            use_type_invariant(self);
            lemma_entry_is_mapped(self.entries@, i as int);
        }
        self.entries[i].0.as_str()
    }

    /// The value at a position of the walk.
    pub fn value_at(&self, i: usize) -> (value: &V)
        requires
            i < self.names().len(),
        ensures
            self@.contains_key(self.names()[i as int]),
            *value == self@[self.names()[i as int]],
    {
        proof {
            use_type_invariant(self);
            lemma_entry_is_mapped(self.entries@, i as int);
        }
        &self.entries[i].1
    }

    /// Takes the last name of the walk out of the map, with its value.
    pub fn pop(&mut self) -> (last: Option<(String, V)>)
        ensures
            match last {
                Some((name, value)) => {
                    &&& old(self)@.contains_key(name@)
                    &&& value == old(self)@[name@]
                    &&& final(self)@ == old(self)@.remove(name@)
                    &&& old(self).names().len() > 0
                    &&& name@ == old(self).names().last()
                    &&& final(self).names() == old(self).names().drop_last()
                },
                None => {
                    &&& old(self)@ == Map::<Seq<char>, V>::empty()
                    &&& *final(self) == *old(self)
                },
            },
    {
        proof {
            use_type_invariant(&*self);
        }
        if self.entries.len() == 0 {
            assert(self@ =~= Map::<Seq<char>, V>::empty());
            return None;
        }
        let at: usize = self.entries.len() - 1;
        let mut entries = Vec::new();
        std::mem::swap(&mut self.entries, &mut entries);
        proof {
            lemma_remove_entry(entries@, at as int);
            lemma_entry_is_mapped(entries@, at as int);
        }
        let last = entries.remove(at);
        self.entries = entries;
        assert(self.names() =~= old(self).names().drop_last());
        Some(last)
    }
}

impl<V> Clone for NameMap<Arc<V>> {
    fn clone(&self) -> (copy: Self)
        ensures
            copy@ == self@,
            copy.names() == self.names(),
    {
        proof {
            use_type_invariant(self);
        }
        let mut entries: Vec<(String, Arc<V>)> = Vec::new();
        let mut i: usize = 0;
        while i < self.entries.len()
            invariant
                i <= self.entries@.len(),
                entries@ == self.entries@.take(i as int),
            decreases self.entries@.len() - i,
        {
            let (name, value) = &self.entries[i];
            entries.push((name.clone(), share(value)));
            i += 1;
            assert(self.entries@.take(i as int) =~= self.entries@.take(i - 1).push(
                self.entries@[i - 1],
            ));
        }
        assert(self.entries@.take(i as int) =~= self.entries@);
        NameMap { entries }
    }
}

/// A set of names that is walked in name order.
#[derive(Debug)]
pub struct NameSet {
    members: NameMap<()>,
}

impl View for NameSet {
    type V = Set<Seq<char>>;

    closed spec fn view(&self) -> Set<Seq<char>> {
        self.members@.dom()
    }
}

impl NameSet {
    /// The names in the set, in order.
    pub closed spec fn names(&self) -> Seq<Seq<char>> {
        self.members.names()
    }

    /// An empty set.
    pub fn new() -> (set: Self)
        ensures
            set@ == Set::<Seq<char>>::empty(),
            set.names() == Seq::<Seq<char>>::empty(),
    {
        let set = NameSet { members: NameMap::new() };
        assert(set@ =~= Set::<Seq<char>>::empty());
        set
    }

    /// The number of names in the set.
    pub fn len(&self) -> (len: usize)
        ensures
            len == self.names().len(),
            in_name_order(self.names()),
            self.names().to_set() == self@,
            self@.finite(),
            len == self@.len(),
    {
        self.members.len()
    }

    /// Whether a name is in the set.
    pub fn contains(&self, name: &str) -> (held: bool)
        ensures
            held == self@.contains(name@),
    {
        self.members.contains_key(name)
    }

    /// Puts a name into the set.
    pub fn insert(&mut self, name: String)
        ensures
            final(self)@ == old(self)@.insert(name@),
    {
        self.members.insert(name, ());
        assert(self@ =~= old(self)@.insert(name@));
    }

    /// Takes a name out of the set.
    pub fn remove(&mut self, name: &str)
        ensures
            final(self)@ == old(self)@.remove(name@),
    {
        self.members.remove(name);
        assert(self@ =~= old(self)@.remove(name@));
    }

    /// Takes every name out of the set.
    pub fn clear(&mut self)
        ensures
            final(self)@ == Set::<Seq<char>>::empty(),
    {
        self.members.clear();
        assert(self@ =~= Set::<Seq<char>>::empty());
    }

    /// The name at a position of the walk.
    pub fn name_at(&self, i: usize) -> (name: &str)
        requires
            i < self.names().len(),
        ensures
            name@ == self.names()[i as int],
            self@.contains(name@),
    {
        self.members.name_at(i)
    }

    /// Takes the last name of the walk out of the set.
    pub fn pop(&mut self) -> (last: Option<String>)
        ensures
            match last {
                Some(name) => {
                    &&& old(self)@.contains(name@)
                    &&& final(self)@ == old(self)@.remove(name@)
                    &&& old(self).names().len() > 0
                    &&& name@ == old(self).names().last()
                    &&& final(self).names() == old(self).names().drop_last()
                },
                None => {
                    &&& old(self)@ == Set::<Seq<char>>::empty()
                    &&& *final(self) == *old(self)
                },
            },
    {
        match self.members.pop() {
            Some((name, _)) => {
                assert(self@ =~= old(self)@.remove(name@));
                Some(name)
            },
            None => {
                assert(self@ =~= Set::<Seq<char>>::empty());
                None
            },
        }
    }
}

impl Clone for NameSet {
    fn clone(&self) -> (copy: Self)
        ensures
            copy@ == self@,
    {
        let mut copy = NameSet::new();
        let count: usize = self.len();
        let ghost names = self.names();
        let mut i: usize = 0;
        assert(names.take(0).to_set() =~= Set::empty());
        while i < count
            invariant
                count == names.len(),
                names == self.names(),
                i <= count,
                copy@ == names.take(i as int).to_set(),
            decreases count - i,
        {
            copy.insert(self.name_at(i).to_owned());
            i += 1;
            assert(names.take(i as int) =~= names.take(i - 1).push(names[i - 1]));
            proof {
                names.take(i - 1).lemma_push_to_set_commute(names[i - 1]);
            }
        }
        assert(names.take(i as int) =~= names);
        copy
    }
}

} // verus!
