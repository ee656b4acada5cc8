//! A map from names to values, as a list of entries in which no name occurs twice.
use vstd::prelude::*;

verus! {

/// The map that a list of entries stands for; of two entries under one name the later one counts.
pub open spec fn entries_map<V>(entries: Seq<(String, V)>) -> Map<Seq<char>, V>
    decreases entries.len(),
{
    if entries.len() == 0 {
        Map::empty()
    } else {
        entries_map(entries.drop_last()).insert(entries.last().0@, entries.last().1)
    }
}

/// Whether no name occurs twice among the entries.
pub open spec fn names_distinct<V>(entries: Seq<(String, V)>) -> bool {
    forall|i: int, j: int|
        #![trigger entries[i], entries[j]]
        0 <= i < j < entries.len() ==> entries[i].0@ != entries[j].0@
}

/// A map from names to values that keeps the order in which its names came.
#[derive(Debug, PartialEq)]
pub struct Dict<V> {
    entries: Vec<(String, V)>,
}

impl<V> View for Dict<V> {
    type V = Map<Seq<char>, V>;

    closed spec fn view(&self) -> Map<Seq<char>, V> {
        entries_map(self.entries@)
    }
}

impl<V> Dict<V> {
    #[verifier::type_invariant]
    spec fn distinct(self) -> bool {
        names_distinct(self.entries@)
    }

    /// The entries in order.
    pub closed spec fn entries(self) -> Seq<(String, V)> {
        self.entries@
    }

    /// What the first `n` entries hold.
    pub open spec fn prefix(self, n: int) -> Map<Seq<char>, V> {
        entries_map(self.entries().take(n))
    }

    /// An empty map.
    pub fn new() -> (d: Dict<V>)
        ensures
            d@ == Map::<Seq<char>, V>::empty(),
            d.entries().len() == 0,
    {
        Dict { entries: Vec::new() }
    }

    /// The number of names.
    pub fn len(&self) -> (n: usize)
        ensures
            n == self.entries().len(),
            self@.dom().finite(),
            n == self@.len(),
            self.prefix(0) == Map::<Seq<char>, V>::empty(),
            self.prefix(n as int) == self@,
    {
        proof {
            use_type_invariant(self);
            lemma_map_len(self.entries@);
            assert(self.entries@.take(self.entries@.len() as int) =~= self.entries@);
        }
        self.entries.len()
    }

    /// The entry at an index: its name and its value.
    pub fn entry(&self, i: usize) -> (e: (&String, &V))
        requires
            i < self.entries().len(),
        ensures
            *e.0 == self.entries()[i as int].0,
            *e.1 == self.entries()[i as int].1,
            !self.prefix(i as int).contains_key(e.0@),
            self.prefix(i + 1) == self.prefix(i as int).insert(e.0@, *e.1),
            self@.contains_key(e.0@),
            self@[e.0@] == *e.1,
            decreases_to!(*self => *e.1),
    {
        proof {
            use_type_invariant(self);
            lemma_entry(self.entries@, i as int);
            assert(decreases_to!(*self => self.entries));
            assert(decreases_to!(self.entries => self.entries@));
            assert(decreases_to!(self.entries@ => self.entries@[i as int]));
            assert(decreases_to!(self.entries@[i as int] => self.entries@[i as int].1));
        }
        let e = &self.entries[i];
        (&e.0, &e.1)
    }

    /// The value under a name.
    pub fn get(&self, name: &str) -> (r: Option<&V>)
        ensures
            match r {
                Some(v) => {
                    &&& self@.contains_key(name@)
                    &&& *v == self@[name@]
                    &&& decreases_to!(*self => *v)
                },
                None => !self@.contains_key(name@),
            },
    {
        let wanted = name.to_owned();
        let mut i: usize = 0;
        while i < self.entries.len()
            invariant
                wanted@ == name@,
                i <= self.entries@.len(),
                forall|j: int| 0 <= j < i ==> (#[trigger] self.entries@[j]).0@ != name@,
            decreases self.entries@.len() - i,
        {
            let e = self.entry(i);
            if *e.0 == wanted {
                return Some(e.1);
            }
            i += 1;
        }
        proof {
            lemma_absent(self.entries@, name@);
        }
        None
    }

    /// Puts a value under a name that has none yet.
    pub fn push(&mut self, name: String, value: V)
        requires
            !old(self)@.contains_key(name@),
        ensures
            final(self)@ == old(self)@.insert(name@, value),
            final(self).entries() == old(self).entries().push((name, value)),
    {
        proof {
            use_type_invariant(&*self);
            let s = self.entries@;
            assert forall|i: int| 0 <= i < s.len() implies (#[trigger] s[i]).0@ != name@ by {
                lemma_found(s, i);
            }
        }
        let mut entries: Vec<(String, V)> = Vec::new();
        std::mem::swap(&mut entries, &mut self.entries);
        entries.push((name, value));
        proof {
            assert(entries@.drop_last() =~= old(self).entries@);
        }
        self.entries = entries;
    }

    /// Puts a value under a name: in the place of the value that the name had, or after the other
    /// entries where the name is new.
    pub fn insert(&mut self, name: String, value: V)
        ensures
            final(self)@ == old(self)@.insert(name@, value),
            !old(self)@.contains_key(name@) ==> final(self).entries() == old(self).entries().push(
                (name, value),
            ),
            forall|i: int|
                0 <= i < old(self).entries().len() && (#[trigger] old(self).entries()[i]).0@
                    == name@ ==> final(self).entries() == old(self).entries().update(
                    i,
                    (name, value),
                ),
    {
        proof {
            use_type_invariant(&*self);
        }
        let mut entries: Vec<(String, V)> = Vec::new();
        std::mem::swap(&mut entries, &mut self.entries);
        let mut i: usize = 0;
        let ghost s = entries@;
        while i < entries.len() && entries[i].0 != name
            invariant
                i <= entries@.len(),
                entries@ == s,
                forall|j: int| 0 <= j < i ==> (#[trigger] s[j]).0@ != name@,
            decreases entries@.len() - i,
        {
            i += 1;
        }
        if i < entries.len() {
            entries[i] = (name, value);
            proof {
                assert(entries@ =~= s.update(i as int, (name, value)));
                lemma_update(s, i as int, (name, value));
                lemma_found(s, i as int);
                assert forall|j: int| 0 <= j < s.len() && (#[trigger] s[j]).0@ == name@ implies j
                    == i by {
                    if j > i {
                        assert(s[i as int].0@ != s[j].0@);
                    }
                }
            }
        } else {
            entries.push((name, value));
            proof {
                assert(entries@.drop_last() =~= s);
            }
        }
        self.entries = entries;
    }
}

/// The entry after the first `i` of a list without repeated names adds one name to the map.
pub proof fn lemma_entry<V>(s: Seq<(String, V)>, i: int)
    requires
        names_distinct(s),
        0 <= i < s.len(),
    ensures
        !entries_map(s.take(i)).contains_key(s[i].0@),
        entries_map(s.take(i + 1)) == entries_map(s.take(i)).insert(s[i].0@, s[i].1),
        entries_map(s).contains_key(s[i].0@),
        entries_map(s)[s[i].0@] == s[i].1,
{
    assert(s.take(i + 1).drop_last() =~= s.take(i));
    lemma_absent(s.take(i), s[i].0@);
    lemma_found(s, i);
}

/// The map of a list without repeated names has as many names as there are entries.
proof fn lemma_map_len<V>(s: Seq<(String, V)>)
    requires
        names_distinct(s),
    ensures
        entries_map(s).dom().finite(),
        entries_map(s).len() == s.len(),
    decreases s.len(),
{
    if s.len() > 0 {
        let r = s.drop_last();
        assert(names_distinct(r)) by {
            assert forall|a: int, b: int|
                #![trigger r[a], r[b]]
                0 <= a < b < r.len() implies r[a].0@ != r[b].0@ by {
                assert(s[a].0@ != s[b].0@);
            }
        }
        lemma_map_len(r);
        assert forall|j: int| 0 <= j < r.len() implies (#[trigger] r[j]).0@ != s.last().0@ by {
            assert(s[j].0@ != s[s.len() - 1].0@);
        }
        lemma_absent(r, s.last().0@);
    }
}

/// A map is larger than each of its values.
pub proof fn lemma_value_smaller<V>(d: Dict<V>, name: Seq<char>)
    requires
        d@.contains_key(name),
    ensures
        decreases_to!(d => d@[name]),
{
    assert(decreases_to!(d => d.entries));
    assert(decreases_to!(d.entries => d.entries@));
    lemma_from_entry(d.entries@, name);
    let i = choose|i: int| 0 <= i < d.entries@.len() && (#[trigger] d.entries@[i]).1 == d@[name];
    assert(decreases_to!(d.entries@ => d.entries@[i]));
    assert(decreases_to!(d.entries@[i] => d.entries@[i].1));
}

/// Each value of the map comes from an entry.
proof fn lemma_from_entry<V>(s: Seq<(String, V)>, name: Seq<char>)
    requires
        entries_map(s).contains_key(name),
    ensures
        exists|i: int|
            0 <= i < s.len() && (#[trigger] s[i]).0@ == name && s[i].1 == entries_map(s)[name],
    decreases s.len(),
{
    if s.last().0@ == name {
        assert(s[s.len() - 1].1 == entries_map(s)[name]);
    } else {
        let r = s.drop_last();
        lemma_from_entry(r, name);
        let i = choose|i: int|
            0 <= i < r.len() && (#[trigger] r[i]).0@ == name && r[i].1 == entries_map(r)[name];
        assert(s[i] == r[i]);
    }
}

/// A name that no entry has is not in the map.
proof fn lemma_absent<V>(s: Seq<(String, V)>, name: Seq<char>)
    requires
        forall|j: int| 0 <= j < s.len() ==> (#[trigger] s[j]).0@ != name,
    ensures
        !entries_map(s).contains_key(name),
    decreases s.len(),
{
    if s.len() > 0 {
        assert forall|j: int| 0 <= j < s.drop_last().len() implies (
        #[trigger] s.drop_last()[j]).0@ != name by {
            assert(s.drop_last()[j] == s[j]);
        }
        lemma_absent(s.drop_last(), name);
    }
}

/// Each entry of a list without repeated names is in the map.
proof fn lemma_found<V>(s: Seq<(String, V)>, i: int)
    requires
        names_distinct(s),
        0 <= i < s.len(),
    ensures
        entries_map(s).contains_key(s[i].0@),
        entries_map(s)[s[i].0@] == s[i].1,
    decreases s.len(),
{
    if i < s.len() - 1 {
        assert(s.drop_last()[i] == s[i]);
        assert(names_distinct(s.drop_last())) by {
            assert forall|a: int, b: int|
                #![trigger s.drop_last()[a], s.drop_last()[b]]
                0 <= a < b < s.drop_last().len() implies s.drop_last()[a].0@
                != s.drop_last()[b].0@ by {
                assert(s.drop_last()[a] == s[a]);
                assert(s.drop_last()[b] == s[b]);
            }
        }
        lemma_found(s.drop_last(), i);
        assert(s[i].0@ != s[s.len() - 1].0@);
    }
}

/// An entry put in the place of one with the same name replaces its value in the map.
proof fn lemma_update<V>(s: Seq<(String, V)>, i: int, e: (String, V))
    requires
        names_distinct(s),
        0 <= i < s.len(),
        s[i].0@ == e.0@,
    ensures
        names_distinct(s.update(i, e)),
        entries_map(s.update(i, e)) == entries_map(s).insert(e.0@, e.1),
    decreases s.len(),
{
    let t = s.update(i, e);
    assert forall|a: int, b: int| #![trigger t[a], t[b]] 0 <= a < b < t.len() implies t[a].0@
        != t[b].0@ by {
        assert(s[a].0@ != s[b].0@);
    }
    if i == s.len() - 1 {
        assert(t.drop_last() =~= s.drop_last());
        assert(entries_map(t) =~= entries_map(s).insert(e.0@, e.1));
    } else {
        let r = s.drop_last();
        assert(names_distinct(r)) by {
            assert forall|a: int, b: int|
                #![trigger r[a], r[b]]
                0 <= a < b < r.len() implies r[a].0@ != r[b].0@ by {
                assert(s[a].0@ != s[b].0@);
            }
        }
        lemma_update(r, i, e);
        assert(t.drop_last() =~= r.update(i, e));
        assert(s[i].0@ != s[s.len() - 1].0@);
        assert(entries_map(t) =~= entries_map(s).insert(e.0@, e.1));
    }
}

} // verus!
