use vstd::prelude::*;

verus! {

/// The position of the first occurrence of `key` in `keys`, if it occurs.
pub open spec fn position(keys: Seq<Seq<char>>, key: Seq<char>) -> Option<int>
    decreases keys.len(),
{
    if keys.len() == 0 {
        None
    } else {
        match position(keys.drop_last(), key) {
            Some(i) => Some(i),
            None => if keys.last() == key {
                Some(keys.len() - 1)
            } else {
                None
            },
        }
    }
}

/// `position` finds the first place at which `key` stands, and finds nothing only
/// where `key` stands nowhere.
pub proof fn lemma_position(keys: Seq<Seq<char>>, key: Seq<char>)
    ensures
        match position(keys, key) {
            Some(i) => 0 <= i < keys.len() && keys[i] == key && forall|j: int|
                0 <= j < i ==> keys[j] != key,
            None => forall|j: int| 0 <= j < keys.len() ==> keys[j] != key,
        },
    decreases keys.len(),
{
    if keys.len() > 0 {
        let front = keys.drop_last();
        lemma_position(front, key);
        assert(forall|j: int| 0 <= j < front.len() ==> front[j] == keys[j]);
    }
}

/// The names of `entries`, in order.
pub open spec fn names_of<T>(entries: Seq<(Seq<char>, T)>) -> Seq<Seq<char>> {
    entries.map_values(|e: (Seq<char>, T)| e.0)
}

/// What stands under `name` in `entries`, if anything.
pub open spec fn lookup<T>(entries: Seq<(Seq<char>, T)>, name: Seq<char>) -> Option<T> {
    match position(names_of(entries), name) {
        Some(i) => Some(entries[i].1),
        None => None,
    }
}

/// `entries` with `value` under `name`: in the place of what stood there, or at
/// the end where the name is new.
pub open spec fn upsert<T>(entries: Seq<(Seq<char>, T)>, name: Seq<char>, value: T) -> Seq<
    (Seq<char>, T),
> {
    match position(names_of(entries), name) {
        Some(i) => entries.update(i, (name, value)),
        None => entries.push((name, value)),
    }
}

/// After `value` was put under `name`, it is what stands under `name`, and under
/// every other name stands what stood there before.
pub proof fn lemma_lookup_after_upsert<T>(
    entries: Seq<(Seq<char>, T)>,
    name: Seq<char>,
    value: T,
    other: Seq<char>,
)
    ensures
        lookup(upsert(entries, name, value), other) == if other == name {
            Some(value)
        } else {
            lookup(entries, other)
        },
{
    let after = upsert(entries, name, value);
    lemma_position(names_of(entries), name);
    lemma_position(names_of(entries), other);
    lemma_position(names_of(after), other);
    match position(names_of(entries), name) {
        Some(at) => {
            assert(names_of(after) =~= names_of(entries));
        },
        None => {
            assert(names_of(after) =~= names_of(entries).push(name));
            if other == name {
                assert(names_of(after)[entries.len() as int] == name);
                let found = position(names_of(after), other).unwrap();
                if found < entries.len() {
                    assert(names_of(entries)[found] == name);
                }
            } else {
                match position(names_of(after), other) {
                    Some(found) => {
                        assert(names_of(entries)[found] == other);
                        let before = position(names_of(entries), other).unwrap();
                        assert(names_of(after)[before] == other);
                    },
                    None => {
                        if position(names_of(entries), other) is Some {
                            let before = position(names_of(entries), other).unwrap();
                            assert(names_of(after)[before] == other);
                        }
                    },
                }
            }
        },
    }
}

/// To put a value under a name keeps the names apart, where they were apart.
pub proof fn lemma_upsert_keeps_names_apart<T>(
    entries: Seq<(Seq<char>, T)>,
    name: Seq<char>,
    value: T,
)
    requires
        names_of(entries).no_duplicates(),
    ensures
        names_of(upsert(entries, name, value)).no_duplicates(),
{
    let after = upsert(entries, name, value);
    lemma_position(names_of(entries), name);
    match position(names_of(entries), name) {
        Some(at) => {
            assert(names_of(after) =~= names_of(entries));
        },
        None => {
            let names = names_of(after);
            assert(names =~= names_of(entries).push(name));
            assert forall|a: int, b: int|
                0 <= a < names.len() && 0 <= b < names.len() && a != b implies names[a]
                != names[b] by {
                if a < entries.len() {
                    assert(names[a] == names_of(entries)[a]);
                }
                if b < entries.len() {
                    assert(names[b] == names_of(entries)[b]);
                }
            }
        },
    }
}

/// A map from names to values that remembers the order in which the names came in.
///
/// No name occurs twice. A name that is inserted again keeps its place and gets the
/// new value.
#[derive(Debug)]
pub struct NameMap<V> {
    entries: Vec<(String, V)>,
}

impl<V> NameMap<V> {
    /// The names with their values, in the order in which the names were first
    /// inserted.
    pub closed spec fn entries(&self) -> Seq<(Seq<char>, V)> {
        self.entries@.map_values(|e: (String, V)| (e.0@, e.1))
    }

    #[verifier::type_invariant]
    spec fn distinct(&self) -> bool {
        names_of(self.entries()).no_duplicates()
    }

    /// The names, in order.
    pub open spec fn keys(&self) -> Seq<Seq<char>> {
        names_of(self.entries())
    }

    /// Whether something stands under `key`.
    pub open spec fn contains(&self, key: Seq<char>) -> bool {
        lookup(self.entries(), key) is Some
    }

    /// A map without entries.
    pub fn new() -> (m: Self)
        ensures
            m.entries() == Seq::<(Seq<char>, V)>::empty(),
    {
        let m = NameMap { entries: Vec::new() };
        assert(m.entries() =~= Seq::<(Seq<char>, V)>::empty());
        m
    }

    /// The number of entries. No name is counted twice.
    pub fn len(&self) -> (n: usize)
        ensures
            n == self.entries().len(),
            self.keys().no_duplicates(),
    {
        proof {
            use_type_invariant(self);
        }
        self.entries.len()
    }

    /// The name at position `i`.
    pub fn key_at(&self, i: usize) -> (k: &String)
        requires
            i < self.entries().len(),
        ensures
            k@ == self.entries()[i as int].0,
    {
        &self.entries[i].0
    }

    /// The value at position `i`.
    pub fn value_at(&self, i: usize) -> (v: &V)
        requires
            i < self.entries().len(),
        ensures
            *v == self.entries()[i as int].1,
    {
        &self.entries[i].1
    }

    /// Where `key` stands, if it is there.
    pub fn find(&self, key: &str) -> (r: Option<usize>)
        ensures
            match r {
                Some(i) => position(self.keys(), key@) == Some(i as int) && i < self.entries().len(),
                None => position(self.keys(), key@) is None,
            },
    {
        let mut i: usize = 0;
        while i < self.entries.len()
            invariant
                i <= self.entries.len(),
                position(self.keys().take(i as int), key@) is None,
            decreases self.entries.len() - i,
        {
            assert(self.keys().take(i + 1).drop_last() == self.keys().take(i as int));
            if *self.entries[i].0.as_str() == *key {
                proof {
                    let front = self.keys().take(i as int);
                    lemma_position(self.keys(), key@);
                    lemma_position(front, key@);
                    assert(self.keys()[i as int] == key@);
                    let p = position(self.keys(), key@).unwrap();
                    if p < i {
                        assert(front[p] == self.keys()[p]);
                    }
                }
                return Some(i);
            }
            i += 1;
        }
        assert(self.keys().take(i as int) == self.keys());
        None
    }

    /// What stands under `key`, if anything.
    pub fn get(&self, key: &str) -> (r: Option<&V>)
        ensures
            match r {
                Some(v) => lookup(self.entries(), key@) == Some(*v),
                None => lookup(self.entries(), key@) is None,
            },
    {
        match self.find(key) {
            Some(i) => Some(&self.entries[i].1),
            None => None,
        }
    }

    /// Whether something stands under `key`.
    pub fn contains_key(&self, key: &str) -> (r: bool)
        ensures
            r == self.contains(key@),
    {
        self.find(key).is_some()
    }

    /// Puts `value` under `key`: in the place of the value that stood there, or
    /// behind all other names where `key` is new.
    pub fn insert(&mut self, key: String, value: V)
        ensures
            final(self).entries() == upsert(old(self).entries(), key@, value),
    {
        proof {
            use_type_invariant(&*self);
            lemma_position(self.keys(), key@);
        }
        let found = self.find(key.as_str());
        let mut entries: Vec<(String, V)> = Vec::new();
        assert(names_of(entries@.map_values(|e: (String, V)| (e.0@, e.1))) =~= Seq::<
            Seq<char>,
        >::empty());
        core::mem::swap(&mut self.entries, &mut entries);
        match found {
            Some(i) => {
                entries.set(i, (key, value));
            },
            None => {
                entries.push((key, value));
            },
        }
        let ghost after = entries@.map_values(|e: (String, V)| (e.0@, e.1));
        proof {
            assert(after =~= upsert(old(self).entries(), key@, value));
            match found {
                Some(i) => {
                    assert(names_of(after) =~= old(self).keys());
                },
                None => {
                    let keys = names_of(after);
                    assert(keys =~= old(self).keys().push(key@));
                    assert forall|a: int, b: int|
                        0 <= a < keys.len() && 0 <= b < keys.len() && a != b implies keys[a]
                        != keys[b] by {
                        if a < old(self).keys().len() {
                            assert(keys[a] == old(self).keys()[a]);
                        }
                        if b < old(self).keys().len() {
                            assert(keys[b] == old(self).keys()[b]);
                        }
                    }
                },
            }
        }
        core::mem::swap(&mut self.entries, &mut entries);
    }
}

} // verus!
