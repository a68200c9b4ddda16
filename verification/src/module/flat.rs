//! Parameters flattened to `.`-joined keys, in insertion order.
use vstd::prelude::*;

use indexmap::IndexSet;

verus! {

/// `entries` with `value` stored under `key`: in place when the key is
/// already there, else appended.
pub open spec fn inserted<V>(entries: Seq<(Seq<char>, V)>, key: Seq<char>, value: V) -> Seq<(Seq<char>, V)> {
    let at = position_of(entries, key);
    if at < 0 {
        entries.push((key, value))
    } else {
        entries.update(at, (key, value))
    }
}

/// Where `key` first occurs in `entries`, or `-1`.
pub open spec fn position_of<V>(entries: Seq<(Seq<char>, V)>, key: Seq<char>) -> int
    decreases entries.len(),
{
    if entries.len() == 0 {
        -1
    } else if entries[0].0 == key {
        0
    } else {
        let rest = position_of(entries.drop_first(), key);
        if rest < 0 {
            -1
        } else {
            rest + 1
        }
    }
}

/// `position_of` is the first index holding `key`, or `-1` when none does.
pub proof fn lemma_position_of<V>(entries: Seq<(Seq<char>, V)>, key: Seq<char>, at: int)
    requires
        at == -1 || (0 <= at < entries.len() && entries[at].0 == key),
        forall|j: int| 0 <= j < entries.len() && (at == -1 || j < at) ==> #[trigger] entries[j].0 != key,
    ensures
        position_of(entries, key) == at,
    decreases entries.len(),
{
    if entries.len() > 0 && entries[0].0 != key {
        let rest = entries.drop_first();
        assert forall|j: int| 0 <= j < rest.len() && (at == -1 || j < at - 1) implies #[trigger] rest[j].0 != key by {
            assert(rest[j] == entries[j + 1]);
        }
        if at == -1 {
            lemma_position_of(rest, key, -1);
        } else {
            assert(rest[at - 1] == entries[at]);
            lemma_position_of(rest, key, at - 1);
        }
    } else if entries.len() > 0 {
        if at != 0 {
            assert(entries[0].0 != key);
        }
    }
}

/// Every entry of `items` inserted in turn into `entries`.
pub open spec fn inserted_all<V>(entries: Seq<(Seq<char>, V)>, items: Seq<(Seq<char>, V)>) -> Seq<(Seq<char>, V)>
    decreases items.len(),
{
    if items.len() == 0 {
        entries
    } else {
        inserted(inserted_all(entries, items.drop_last()), items.last().0, items.last().1)
    }
}

/// Whether some entry of `entries` has the key `key`.
pub open spec fn holds_key<V>(entries: Seq<(Seq<char>, V)>, key: Seq<char>) -> bool {
    exists|i: int| 0 <= i < entries.len() && #[trigger] entries[i].0 == key
}

/// Whether no key occurs twice in `entries`.
pub open spec fn keys_unique<V>(entries: Seq<(Seq<char>, V)>) -> bool {
    forall|i: int, j: int| 0 <= i < j < entries.len() ==> entries[i].0 != entries[j].0
}

/// The keys an `IndexSet` of strings holds, in its order.
pub uninterp spec fn set_keys(set: IndexSet<String>) -> Seq<Seq<char>>;

#[verifier::external_type_specification]
#[verifier::external_body]
#[verifier::reject_recursive_types(T)]
#[verifier::reject_recursive_types(S)]
pub struct ExIndexSet<T, S>(indexmap::IndexSet<T, S>);

/// `IndexSet::new`: a set with no keys.
#[verifier::external_body]
fn new_key_set() -> (set: IndexSet<String>)
    ensures
        set_keys(set) == Seq::<Seq<char>>::empty(),
{
    IndexSet::new()
}

/// `IndexSet::len`: how many keys the set holds.
#[verifier::external_body]
fn key_count(set: &IndexSet<String>) -> (n: usize)
    ensures
        n == set_keys(*set).len(),
{
    set.len()
}

/// `IndexSet::get_index_of`: where `key` stands in the set's order, if it is
/// there.
#[verifier::external_body]
fn key_position(set: &IndexSet<String>, key: &str) -> (at: Option<usize>)
    ensures
        match at {
            Some(i) => i < set_keys(*set).len() && set_keys(*set)[i as int] == key@,
            None => !set_keys(*set).contains(key@),
        },
{
    set.get_index_of(key)
}

/// `IndexSet::insert_full`: a key already there keeps its place, the set is
/// unchanged and its position is returned with `false`; a new key goes last
/// and its position is returned with `true`.
#[verifier::external_body]
fn insert_key(set: &mut IndexSet<String>, key: String) -> (out: (usize, bool))
    ensures
        set_keys(*old(set)).contains(key@) ==> {
            &&& !out.1
            &&& set_keys(*final(set)) == set_keys(*old(set))
            &&& out.0 < set_keys(*old(set)).len()
            &&& set_keys(*old(set))[out.0 as int] == key@
        },
        !set_keys(*old(set)).contains(key@) ==> {
            &&& out.1
            &&& set_keys(*final(set)) == set_keys(*old(set)).push(key@)
            &&& out.0 == set_keys(*old(set)).len()
        },
{
    set.insert_full(key)
}

/// `IndexSet::get_index`: the key at position `i`, if there is one.
#[verifier::external_body]
fn key_at(set: &IndexSet<String>, i: usize) -> (key: Option<&String>)
    ensures
        match key {
            Some(k) => i < set_keys(*set).len() && k@ == set_keys(*set)[i as int],
            None => i >= set_keys(*set).len(),
        },
{
    set.get_index(i)
}

/// A map from `.`-joined keys to parameters that remembers insertion order:
/// the keys in an `IndexSet`, which finds a key's position, and the values in
/// the same order beside them.
#[derive(Debug)]
pub struct FlatParams<V> {
    keys: IndexSet<String>,
    values: Vec<V>,
}

impl<V> View for FlatParams<V> {
    type V = Seq<(Seq<char>, V)>;

    closed spec fn view(&self) -> Seq<(Seq<char>, V)> {
        Seq::new(self.values@.len(), |i: int| (set_keys(self.keys)[i], self.values@[i]))
    }
}

impl<V> FlatParams<V> {
    #[verifier::type_invariant]
    closed spec fn unique(&self) -> bool {
        &&& set_keys(self.keys).len() == self.values@.len()
        &&& keys_unique(self@)
    }

    /// An empty map.
    pub fn new() -> (map: Self)
        ensures
            map@ == Seq::<(Seq<char>, V)>::empty(),
    {
        let map = FlatParams { keys: new_key_set(), values: Vec::new() };
        assert(map@ =~= Seq::<(Seq<char>, V)>::empty());
        map
    }

    /// Number of keys.
    pub fn len(&self) -> (n: usize)
        ensures
            n == self@.len(),
    {
        self.values.len()
    }

    fn index_of(&self, key: &str) -> (at: Option<usize>)
        ensures
            match at {
                Some(i) => i < self@.len() && self@[i as int].0 == key@ && forall|j: int|
                    0 <= j < i ==> #[trigger] self@[j].0 != key@,
                None => forall|i: int| 0 <= i < self@.len() ==> #[trigger] self@[i].0 != key@,
            },
    {
        proof {
            use_type_invariant(self);
        }
        let at = key_position(&self.keys, key);
        match at {
            Some(i) => {
                assert forall|j: int| 0 <= j < i implies #[trigger] self@[j].0 != key@ by {
                    assert(self@[j].0 != self@[i as int].0);
                }
            },
            None => {
                assert forall|i: int| 0 <= i < self@.len() implies #[trigger] self@[i].0 != key@ by {
                    assert(set_keys(self.keys)[i] == self@[i].0);
                }
            },
        }
        at
    }

    /// The parameter stored under `key`.
    pub fn get(&self, key: &str) -> (found: Option<&V>)
        ensures
            found is Some <==> holds_key(self@, key@),
            found is Some ==> {
                let at = position_of(self@, key@);
                &&& 0 <= at < self@.len()
                &&& self@[at] == (key@, *found->Some_0)
            },
            found is None ==> position_of(self@, key@) == -1,
    {
        match self.index_of(key) {
            Some(i) => {
                proof {
                    lemma_position_of(self@, key@, i as int);
                }
                assert(self@[i as int] == (key@, self.values@[i as int]));
                Some(&self.values[i])
            },
            None => {
                proof {
                    lemma_position_of(self@, key@, -1);
                }
                None
            },
        }
    }

    /// Store `value` under `key`: replacing the value in place if the key is
    /// present, keeping its position, else appending.
    pub fn insert(&mut self, key: String, value: V)
        ensures
            final(self)@ == inserted(old(self)@, key@, value),
            keys_unique(final(self)@),
    {
        proof {
            use_type_invariant(&*self);
        }
        let ghost before = self@;
        let ghost k = key@;
        let mut taken = FlatParams::new();
        std::mem::swap(self, &mut taken);
        proof {
            use_type_invariant(&taken);
        }
        assert(taken@ == before);
        let FlatParams { mut keys, mut values } = taken;
        let ghost old_keys = set_keys(keys);
        let ghost old_values = values@;
        assert forall|i: int| 0 <= i < before.len() implies #[trigger] before[i] == (old_keys[i], old_values[i]) by {}
        let (at, added) = insert_key(&mut keys, key);
        if added {
            values.push(value);
            proof {
                assert forall|j: int| 0 <= j < before.len() implies #[trigger] before[j].0 != k by {
                    assert(old_keys[j] == before[j].0);
                }
                lemma_position_of(before, k, -1);
            }
        } else {
            values.set(at, value);
            proof {
                assert forall|j: int| 0 <= j < at implies #[trigger] before[j].0 != k by {
                    assert(before[j].0 != before[at as int].0);
                }
                lemma_position_of(before, k, at as int);
            }
        }
        proof {
            let after = Seq::new(values@.len(), |i: int| (set_keys(keys)[i], values@[i]));
            if added {
                assert(after =~= before.push((k, value)));
                assert forall|a: int, b: int| 0 <= a < b < after.len() implies after[a].0 != after[b].0 by {
                    if b < before.len() {
                        assert(before[a].0 != before[b].0);
                    } else {
                        assert(before[a].0 != k);
                    }
                }
            } else {
                assert(after =~= before.update(at as int, (k, value)));
                assert forall|a: int, b: int| 0 <= a < b < after.len() implies after[a].0 != after[b].0 by {
                    assert(before[a].0 != before[b].0);
                }
            }
        }
        let rebuilt = FlatParams { keys, values };
        *self = rebuilt;
    }

    /// The keys, in insertion order.
    pub fn keys(&self) -> (keys: Vec<String>)
        ensures
            keys@.map_values(|k: String| k@) == self@.map_values(|e: (Seq<char>, V)| e.0),
            keys_unique(self@),
    {
        proof {
            use_type_invariant(self);
        }
        let n = self.values.len();
        let mut keys: Vec<String> = Vec::new();
        let mut i: usize = 0;
        while i < n
            invariant
                n == self@.len(),
                set_keys(self.keys).len() == n,
                i <= n,
                keys@.len() == i,
                forall|j: int| 0 <= j < i ==> #[trigger] keys@[j]@ == self@[j].0,
            decreases n - i,
        {
            match key_at(&self.keys, i) {
                Some(k) => {
                    keys.push(k.clone());
                },
                None => {
                    proof {
                        assert(false);
                    }
                },
            }
            i = i + 1;
        }
        assert(keys@.map_values(|k: String| k@) =~= self@.map_values(|e: (Seq<char>, V)| e.0));
        keys
    }
}

impl<V> FlatParams<V> {
    /// The `(key, value)` entries, in insertion order.
    pub fn into_entries(self) -> (entries: Vec<(String, V)>)
        ensures
            entries@.map_values(|e: (String, V)| (e.0@, e.1)) == self@,
    {
        proof {
            use_type_invariant(&self);
        }
        let ghost all = self@;
        let FlatParams { keys, mut values } = self;
        let n = values.len();
        let ghost orig = values@;
        let mut entries: Vec<(String, V)> = Vec::new();
        let mut i: usize = 0;
        assert(orig.skip(0) == orig);
        while i < n
            invariant
                n == orig.len(),
                n == all.len(),
                set_keys(keys).len() == n,
                forall|j: int| 0 <= j < n ==> #[trigger] all[j] == (set_keys(keys)[j], orig[j]),
                i <= n,
                values@ == orig.skip(i as int),
                entries@.len() == i,
                forall|j: int| 0 <= j < i ==> (#[trigger] entries@[j]).0@ == all[j].0 && entries@[j].1 == all[j].1,
            decreases n - i,
        {
            let value = values.remove(0);
            assert(value == orig[i as int]);
            match key_at(&keys, i) {
                Some(k) => {
                    entries.push((k.clone(), value));
                },
                None => {
                    proof {
                        assert(false);
                    }
                },
            }
            assert(values@ =~= orig.skip(i + 1));
            i = i + 1;
        }
        assert(entries@.map_values(|e: (String, V)| (e.0@, e.1)) =~= all);
        entries
    }
}

} // verus!
