use vstd::prelude::*;
use vstd::std_specs::cmp::PartialEqSpec;

verus! {

/// The names under which the entries of an association sequence stand, in
/// the order of the sequence.
pub open spec fn names_of<V>(entries: Seq<(Seq<char>, V)>) -> Seq<Seq<char>> {
    entries.map_values(|e: (Seq<char>, V)| e.0)
}

/// No name stands twice in the sequence.
pub open spec fn distinct_names<V>(entries: Seq<(Seq<char>, V)>) -> bool {
    names_of(entries).no_duplicates()
}

/// The place of `name` in the sequence, where it has one.
pub open spec fn position<V>(entries: Seq<(Seq<char>, V)>, name: Seq<char>) -> int {
    names_of(entries).index_of(name)
}

/// The mapping that an association sequence stands for: each name of the
/// sequence is a key, and its value is the one that stands beside it.
pub open spec fn as_map<V>(entries: Seq<(Seq<char>, V)>) -> Map<Seq<char>, V> {
    Map::new(
        |name: Seq<char>| names_of(entries).contains(name),
        |name: Seq<char>| entries[position(entries, name)].1,
    )
}

/// The sequence after `value` has been put under `name`: a name that is
/// already there keeps its place and gets the new value, a new name goes to
/// the end.
pub open spec fn put<V>(entries: Seq<(Seq<char>, V)>, name: Seq<char>, value: V) -> Seq<
    (Seq<char>, V),
> {
    if names_of(entries).contains(name) {
        entries.update(position(entries, name), (name, value))
    } else {
        entries.push((name, value))
    }
}

/// In a sequence of distinct names a name is found at one place only.
pub proof fn lemma_position<V>(entries: Seq<(Seq<char>, V)>, i: int)
    requires
        distinct_names(entries),
        0 <= i < entries.len(),
    ensures
        names_of(entries).contains(entries[i].0),
        position(entries, entries[i].0) == i,
        as_map(entries).contains_key(entries[i].0),
        as_map(entries)[entries[i].0] == entries[i].1,
{
    assert(names_of(entries)[i] == entries[i].0);
}

/// Putting a value under a name is `Map::insert` on the mapping, and keeps
/// the names distinct.
pub proof fn lemma_put<V>(entries: Seq<(Seq<char>, V)>, name: Seq<char>, value: V)
    requires
        distinct_names(entries),
    ensures
        distinct_names(put(entries, name, value)),
        as_map(put(entries, name, value)) == as_map(entries).insert(name, value),
        names_of(entries).contains(name) ==> put(entries, name, value).len() == entries.len(),
        !names_of(entries).contains(name) ==> put(entries, name, value).len() == entries.len()
            + 1,
{
    let after = put(entries, name, value);
    let names = names_of(entries);
    let names_after = names_of(after);
    if names.contains(name) {
        let p = position(entries, name);
        assert(0 <= p < names.len() && names[p] == name);
        assert(names_after =~= names);
        assert forall|n: Seq<char>| #[trigger] names.contains(n) implies as_map(after)[n]
            == as_map(entries).insert(name, value)[n] by {
            let q = position(entries, n);
            assert(0 <= q < names.len() && names[q] == n);
            assert(position(after, n) == q);
        }
        assert(as_map(after) =~= as_map(entries).insert(name, value));
    } else {
        assert(names_after =~= names.push(name));
        assert forall|i: int, j: int|
            0 <= i < names_after.len() && 0 <= j < names_after.len() && i != j implies
            names_after[i] != names_after[j] by {
            if i < names.len() {
                assert(names.contains(names[i]));
            }
            if j < names.len() {
                assert(names.contains(names[j]));
            }
        }
        assert forall|n: Seq<char>| names_after.contains(n) <==> (n == name || names.contains(
            n,
        )) by {
            if names.contains(n) {
                let q = names.index_of(n);
                assert(names_after[q] == n);
            }
            if n == name {
                assert(names_after[names.len() as int] == n);
            }
        }
        assert forall|n: Seq<char>| #[trigger] names_after.contains(n) implies as_map(after)[n]
            == as_map(entries).insert(name, value)[n] by {
            let q = position(after, n);
            assert(0 <= q < names_after.len() && names_after[q] == n);
            if n != name {
                let r = position(entries, n);
                assert(0 <= r < names.len() && names[r] == n);
                assert(names_after[r] == n);
                assert(q == r);
            } else {
                if q < names.len() {
                    assert(names.contains(names[q]));
                }
            }
        }
        assert(as_map(after) =~= as_map(entries).insert(name, value));
    }
}

/// Of two values put under one name, one after the other, only the second
/// stays: the sequence is the one that the second alone would have given,
/// and it is no longer than after the first.
pub proof fn lemma_put_twice<V>(entries: Seq<(Seq<char>, V)>, name: Seq<char>, first: V, second: V)
    requires
        distinct_names(entries),
    ensures
        put(put(entries, name, first), name, second) == put(entries, name, second),
        put(put(entries, name, first), name, second).len() == put(entries, name, first).len(),
        as_map(put(put(entries, name, first), name, second)).len() == as_map(
            put(entries, name, first),
        ).len(),
        as_map(put(put(entries, name, first), name, second)).contains_key(name),
        as_map(put(put(entries, name, first), name, second))[name] == second,
{
    let once = put(entries, name, first);
    let twice = put(once, name, second);
    lemma_put(entries, name, first);
    lemma_put(once, name, second);
    lemma_put(entries, name, second);
    lemma_len(once);
    lemma_len(twice);
    let names = names_of(entries);
    if names.contains(name) {
        let p = position(entries, name);
        assert(0 <= p < names.len() && names[p] == name);
        assert(names_of(once) =~= names);
    } else {
        assert(names_of(once) =~= names.push(name));
        assert(names_of(once)[entries.len() as int] == name);
        lemma_position(once, entries.len() as int);
    }
    assert(twice =~= put(entries, name, second));
}

/// The same entries, each value replaced by its view.
pub open spec fn views_of<V: View>(entries: Seq<(Seq<char>, V)>) -> Seq<(Seq<char>, V::V)> {
    entries.map_values(|e: (Seq<char>, V)| (e.0, e.1@))
}

/// Taking views changes no name: the names stay distinct, each keeps its
/// place, and the mapping of the views is the mapping with each value
/// replaced by its view.
pub proof fn lemma_views_of<V: View>(entries: Seq<(Seq<char>, V)>)
    ensures
        names_of(views_of(entries)) == names_of(entries),
        distinct_names(views_of(entries)) == distinct_names(entries),
        as_map(views_of(entries)).dom() == as_map(entries).dom(),
        forall|name: Seq<char>| #[trigger]
            as_map(entries).contains_key(name) ==> as_map(views_of(entries))[name] == as_map(
                entries,
            )[name]@,
{
    assert(names_of(views_of(entries)) =~= names_of(entries));
}

/// Putting a value and then taking views is putting the value's view among
/// the views.
pub proof fn lemma_put_views<V: View>(entries: Seq<(Seq<char>, V)>, name: Seq<char>, value: V)
    ensures
        views_of(put(entries, name, value)) == put(views_of(entries), name, value@),
{
    lemma_views_of(entries);
    assert(views_of(put(entries, name, value)) =~= put(views_of(entries), name, value@));
}

/// A mapping of distinct names has as many keys as the sequence has entries.
pub proof fn lemma_len<V>(entries: Seq<(Seq<char>, V)>)
    requires
        distinct_names(entries),
    ensures
        as_map(entries).dom().finite(),
        as_map(entries).len() == entries.len(),
{
    let names = names_of(entries);
    names.unique_seq_to_set();
    vstd::seq_lib::seq_to_set_is_finite(names);
    assert(as_map(entries).dom() =~= names.to_set());
}

/// A mapping from names to values that keeps its entries in the order in
/// which their names first came.
#[derive(Debug)]
pub struct NameMap<V> {
    entries: Vec<(String, V)>,
}

impl<V: View> View for NameMap<V> {
    type V = Seq<(Seq<char>, V::V)>;

    /// The entries in the order in which they are walked, each value by its
    /// own view. `as_map` of it is the mapping.
    open spec fn view(&self) -> Seq<(Seq<char>, V::V)> {
        views_of(self.entries())
    }
}

impl<V> NameMap<V> {
    /// The entries in the order in which they are walked, each name as the
    /// sequence of its characters.
    pub closed spec fn entries(&self) -> Seq<(Seq<char>, V)> {
        self.entries@.map_values(|e: (String, V)| (e.0@, e.1))
    }

    /// Every value of this type keeps its names distinct.
    #[verifier::type_invariant]
    pub open spec fn wf(&self) -> bool {
        distinct_names(self.entries())
    }

    /// A mapping without entries.
    pub fn new() -> (map: Self)
        ensures
            map.entries() == Seq::<(Seq<char>, V)>::empty(),
    {
        NameMap { entries: Vec::new() }
    }

    /// The number of entries.
    pub fn len(&self) -> (n: usize)
        ensures
            n == self.entries().len(),
            n == as_map(self.entries()).len(),
    {
        proof {
            use_type_invariant(self);
            lemma_len(self.entries());
        }
        self.entries.len()
    }

    /// Whether there is no entry.
    pub fn is_empty(&self) -> (empty: bool)
        ensures
            empty == (self.entries().len() == 0),
            empty == (as_map(self.entries()).len() == 0),
    {
        proof {
            use_type_invariant(self);
            lemma_len(self.entries());
        }
        self.entries.len() == 0
    }

    /// The place at which `name` stands among the entries, if it stands there.
    fn find(entries: &Vec<(String, V)>, name: &String) -> (place: Option<usize>)
        ensures
            match place {
                Some(i) => i < entries.len() && entries@[i as int].0@ == name@,
                None => forall|j: int| 0 <= j < entries.len() ==> entries@[j].0@ != name@,
            },
    {
        let mut i: usize = 0;
        while i < entries.len()
            invariant
                i <= entries.len(),
                forall|j: int| 0 <= j < i ==> entries@[j].0@ != name@,
            decreases entries.len() - i,
        {
            if entries[i].0 == *name {
                return Some(i);
            }
            i += 1;
        }
        None
    }

    /// Puts `value` under `name`. A value that stood under that name is
    /// replaced, and the name keeps its place in the order; a new name goes
    /// to the end.
    pub fn insert(&mut self, name: String, value: V)
        ensures
            final(self).entries() == put(old(self).entries(), name@, value),
            as_map(final(self).entries()) == as_map(old(self).entries()).insert(name@, value),
    {
        proof {
            use_type_invariant(&*self);
        }
        let ghost before = self.entries();
        let mut entries: Vec<(String, V)> = Vec::new();
        std::mem::swap(&mut entries, &mut self.entries);
        match Self::find(&entries, &name) {
            Some(i) => {
                assert(names_of(before)[i as int] == name@);
                entries.set(i, (name, value));
            },
            None => {
                entries.push((name, value));
            },
        }
        proof {
            assert(entries@.map_values(|e: (String, V)| (e.0@, e.1)) =~= put(
                before,
                name@,
                value,
            ));
            lemma_put(before, name@, value);
        }
        self.entries = entries;
    }

    /// The value under `name`, if there is one.
    pub fn get(&self, name: &String) -> (value: Option<&V>)
        ensures
            value == (if as_map(self.entries()).contains_key(name@) {
                Some(&as_map(self.entries())[name@])
            } else {
                None
            }),
    {
        proof {
            use_type_invariant(self);
        }
        match Self::find(&self.entries, name) {
            Some(i) => {
                proof {
                    lemma_position(self.entries(), i as int);
                }
                Some(&self.entries[i].1)
            },
            None => None,
        }
    }

    /// The values in the order in which the entries are walked.
    pub fn values(&self) -> (values: Vec<&V>)
        ensures
            values@.len() == self.entries().len(),
            forall|i: int|
                0 <= i < values@.len() ==> *(#[trigger] values@[i]) == self.entries()[i].1,
    {
        let mut values: Vec<&V> = Vec::new();
        let mut i: usize = 0;
        while i < self.entries.len()
            invariant
                i <= self.entries.len(),
                values@.len() == i,
                forall|j: int| 0 <= j < i ==> *(#[trigger] values@[j]) == self.entries@[j].1,
            decreases self.entries.len() - i,
        {
            values.push(&self.entries[i].1);
            i += 1;
        }
        values
    }

    /// The entries as a slice, in the order in which they are walked.
    pub fn as_slice(&self) -> (slice: &[(String, V)])
        ensures
            slice@.map_values(|e: (String, V)| (e.0@, e.1)) == self.entries(),
            distinct_names(self.entries()),
    {
        proof {
            use_type_invariant(self);
        }
        self.entries.as_slice()
    }
}

impl<V: Clone> Clone for NameMap<V> {
    /// A mapping with the same names in the same order, each value a clone
    /// of the one that stands under that name here.
    fn clone(&self) -> (copy: Self)
        ensures
            names_of(copy.entries()) == names_of(self.entries()),
            copy.entries().len() == self.entries().len(),
            forall|i: int|
                0 <= i < self.entries().len() ==> cloned::<V>(
                    #[trigger] self.entries()[i].1,
                    copy.entries()[i].1,
                ),
    {
        proof {
            use_type_invariant(self);
        }
        let mut entries: Vec<(String, V)> = Vec::new();
        let mut i: usize = 0;
        while i < self.entries.len()
            invariant
                i <= self.entries.len(),
                entries.len() == i,
                forall|j: int| 0 <= j < i ==> (#[trigger] entries@[j]).0@ == self.entries@[j].0@,
                forall|j: int|
                    0 <= j < i ==> cloned::<V>(self.entries@[j].1, (#[trigger] entries@[j]).1),
            decreases self.entries.len() - i,
        {
            let name = self.entries[i].0.clone();
            let value = self.entries[i].1.clone();
            entries.push((name, value));
            i += 1;
        }
        let ghost copied = entries@.map_values(|e: (String, V)| (e.0@, e.1));
        assert(names_of(copied) =~= names_of(self.entries()));
        let copy = NameMap { entries };
        copy
    }
}

impl<V: PartialEq> PartialEq for NameMap<V> {
    /// Two mappings are equal when they hold equal values under the same
    /// names, in whatever order.
    fn eq(&self, other: &Self) -> (equal: bool) {
        proof {
            use_type_invariant(self);
            use_type_invariant(other);
            lemma_len(self.entries());
            lemma_len(other.entries());
        }
        if self.entries.len() != other.entries.len() {
            return false;
        }
        let mut i: usize = 0;
        while i < self.entries.len()
            invariant
                i <= self.entries.len(),
                distinct_names(self.entries()),
                distinct_names(other.entries()),
                forall|j: int|
                    0 <= j < i ==> as_map(other.entries()).contains_key(
                        #[trigger] self.entries()[j].0,
                    ),
                V::obeys_eq_spec() ==> forall|j: int|
                    0 <= j < i ==> (#[trigger] self.entries()[j]).1.eq_spec(
                        &as_map(other.entries())[self.entries()[j].0],
                    ),
            decreases self.entries.len() - i,
        {
            proof {
                lemma_position(self.entries(), i as int);
            }
            match Self::find(&other.entries, &self.entries[i].0) {
                Some(k) => {
                    proof {
                        lemma_position(other.entries(), k as int);
                    }
                    if !(self.entries[i].1 == other.entries[k].1) {
                        return false;
                    }
                },
                None => {
                    return false;
                },
            }
            i += 1;
        }
        proof {
            let here = as_map(self.entries());
            let there = as_map(other.entries());
            assert forall|name: Seq<char>| here.contains_key(name) implies there.contains_key(
                name,
            ) && (V::obeys_eq_spec() ==> here[name].eq_spec(&there[name])) by {
                let p = position(self.entries(), name);
                assert(self.entries()[p].0 == name);
            }
            vstd::set_lib::lemma_subset_equality(here.dom(), there.dom());
        }
        true
    }
}

impl<V: PartialEq> vstd::std_specs::cmp::PartialEqSpecImpl for NameMap<V> {
    open spec fn obeys_eq_spec() -> bool {
        V::obeys_eq_spec()
    }

    open spec fn eq_spec(&self, other: &Self) -> bool {
        &&& as_map(self.entries()).dom() == as_map(other.entries()).dom()
        &&& forall|name: Seq<char>| #[trigger]
            as_map(self.entries()).contains_key(name) ==> as_map(self.entries())[name].eq_spec(
                &as_map(other.entries())[name],
            )
    }
}

} // verus!
