//! A nested parameter tree.
use vstd::prelude::*;

use super::flat::{inserted, inserted_all, keys_unique, lemma_position_of, FlatParams};
use crate::text::{chars_of, same_chars, string_of};

verus! {

/// Either a leaf value or a sub-tree of named entries, in insertion order.
#[derive(Debug)]
pub enum NestedValue<V> {
    /// A leaf.
    Value(V),
    /// A sub-tree.
    Branch(Vec<(String, NestedValue<V>)>),
}

/// The flattened key of `key` under `prefix`: `prefix.key`, or `key` alone at
/// the root.
pub open spec fn joined_key(prefix: Seq<char>, key: Seq<char>) -> Seq<char> {
    if prefix.len() == 0 {
        key
    } else {
        prefix + "."@ + key
    }
}

/// The number of nodes of a tree.
pub open spec fn tree_size<V>(value: NestedValue<V>) -> nat
    decreases value, 0nat,
{
    match value {
        NestedValue::Value(_) => 1,
        NestedValue::Branch(entries) => 1 + entries_size(entries@),
    }
}

/// The number of nodes under a list of entries.
pub open spec fn entries_size<V>(entries: Seq<(String, NestedValue<V>)>) -> nat
    decreases entries, 1nat,
{
    if entries.len() == 0 {
        0
    } else {
        entries_size(entries.subrange(0, entries.len() - 1)) + tree_size(entries[entries.len() - 1].1)
    }
}

/// Every leaf of `value` with its `.`-joined key, in insertion order
/// (depth first).
pub open spec fn leaves<V>(value: NestedValue<V>, prefix: Seq<char>) -> Seq<(Seq<char>, V)>
    decreases value, 0nat,
{
    match value {
        NestedValue::Value(v) => seq![(prefix, v)],
        NestedValue::Branch(entries) => entries_leaves(entries@, prefix),
    }
}

/// Every leaf under `entries`, in order.
pub open spec fn entries_leaves<V>(entries: Seq<(String, NestedValue<V>)>, prefix: Seq<char>) -> Seq<(Seq<char>, V)>
    decreases entries, 1nat,
{
    if entries.len() == 0 {
        Seq::empty()
    } else {
        let last = entries[entries.len() - 1];
        entries_leaves(entries.subrange(0, entries.len() - 1), prefix) + leaves(
            last.1,
            joined_key(prefix, last.0@),
        )
    }
}

/// What flattening `value` under `prefix` gives: each leaf inserted in order
/// under its joined key, a later leaf with an equal key replacing the earlier
/// one in place.
pub open spec fn flattened<V>(value: NestedValue<V>, prefix: Seq<char>) -> Seq<(Seq<char>, V)> {
    inserted_all(Seq::empty(), leaves(value, prefix))
}

proof fn lemma_inserted_all_append<V>(
    entries: Seq<(Seq<char>, V)>,
    a: Seq<(Seq<char>, V)>,
    b: Seq<(Seq<char>, V)>,
)
    ensures
        inserted_all(entries, a + b) == inserted_all(inserted_all(entries, a), b),
    decreases b.len(),
{
    if b.len() == 0 {
        assert(a + b == a);
    } else {
        lemma_inserted_all_append(entries, a, b.drop_last());
        assert((a + b).drop_last() == a + b.drop_last());
        assert((a + b).last() == b.last());
    }
}

proof fn lemma_child_smaller<V>(entries: Seq<(String, NestedValue<V>)>, k: int)
    requires
        0 <= k < entries.len(),
    ensures
        tree_size(entries[k].1) <= entries_size(entries),
    decreases entries.len(),
{
    let init = entries.subrange(0, entries.len() - 1);
    if k < entries.len() - 1 {
        lemma_child_smaller(init, k);
        assert(init[k] == entries[k]);
    }
}

proof fn lemma_entries_size_prefix<V>(entries: Seq<(String, NestedValue<V>)>, k: int)
    requires
        0 <= k <= entries.len(),
    ensures
        entries_size(entries.take(k)) <= entries_size(entries),
    decreases entries.len() - k,
{
    if k < entries.len() {
        lemma_entries_size_prefix(entries, k + 1);
        assert(entries.take(k + 1).subrange(0, k) == entries.take(k));
    } else {
        assert(entries.take(k) == entries);
    }
}

fn joined(prefix: &Vec<char>, key: &String) -> (out: Vec<char>)
    ensures
        out@ == joined_key(prefix@, key@),
{
    let mut out = prefix.clone();
    if prefix.len() > 0 {
        out.push('.');
    }
    let mut tail = chars_of(key.as_str());
    out.append(&mut tail);
    proof {
        reveal_strlit(".");
    }
    out
}

fn flatten_into<V>(value: NestedValue<V>, prefix: Vec<char>, out: &mut FlatParams<V>)
    ensures
        final(out)@ == inserted_all(old(out)@, leaves(value, prefix@)),
    decreases tree_size(value),
{
    let ghost whole = value;
    match value {
        NestedValue::Value(v) => {
            let ghost start = out@;
            out.insert(string_of(&prefix), v);
            assert(leaves(whole, prefix@) == seq![(prefix@, v)]);
            assert(seq![(prefix@, v)].drop_last() == Seq::<(Seq<char>, V)>::empty());
            assert(inserted_all(start, Seq::<(Seq<char>, V)>::empty()) == start);
            assert(inserted_all(start, seq![(prefix@, v)]) == inserted(start, prefix@, v));
        },
        NestedValue::Branch(entries) => {
            let ghost all = entries@;
            let ghost start = out@;
            assert(all.len() == entries.len());
            let mut rest = entries;
            let mut done: usize = 0;
            assert(all.take(0) == Seq::<(String, NestedValue<V>)>::empty());
            assert(all.skip(0) == all);
            while rest.len() > 0
                invariant
                    done <= all.len(),
                    all.len() <= usize::MAX,
                    rest@ == all.skip(done as int),
                    tree_size(whole) == 1 + entries_size(all),
                    out@ == inserted_all(start, entries_leaves(all.take(done as int), prefix@)),
                    whole == NestedValue::Branch(entries) && all == entries@,
                    whole == value,
                decreases rest@.len(),
            {
                let ghost before = out@;
                let (key, child) = rest.remove(0);
                assert(all[done as int] == (key, child));
                let child_prefix = joined(&prefix, &key);
                proof {
                    lemma_child_smaller(all, done as int);
                }
                assert(tree_size(child) < tree_size(whole));
                flatten_into(child, child_prefix, out);
                proof {
                    let taken = all.take(done + 1);
                    assert(taken.subrange(0, taken.len() - 1) == all.take(done as int));
                    assert(taken[taken.len() - 1] == (key, child));
                    lemma_inserted_all_append(
                        start,
                        entries_leaves(all.take(done as int), prefix@),
                        leaves(child, joined_key(prefix@, key@)),
                    );
                    assert(all.skip(done as int).remove(0) == all.skip(done + 1));
                }
                done = done + 1;
            }
            assert(done == all.len());
            assert(all.take(done as int) == all);
        },
    }
}

impl<V> NestedValue<V> {
    /// Flatten into `prefix`-joined keys, in insertion order.
    pub fn flatten(self, prefix: &str) -> (flat: FlatParams<V>)
        ensures
            flat@ == flattened(self, prefix@),
    {
        let mut flat = FlatParams::new();
        flatten_into(self, chars_of(prefix), &mut flat);
        flat
    }
}

/// A sub-tree with no entries holds no leaves: an absent optional parameter
/// adds nothing when flattened.
pub proof fn lemma_empty_branch_has_no_leaves<V>(entries: Vec<(String, NestedValue<V>)>, prefix: Seq<char>)
    requires
        entries@.len() == 0,
    ensures
        leaves(NestedValue::Branch(entries), prefix) == Seq::<(Seq<char>, V)>::empty(),
        flattened(NestedValue::Branch(entries), prefix) == Seq::<(Seq<char>, V)>::empty(),
{
}

/// The leaves of one level whose entries are all leaves: each under its joined
/// key, in entry order.
pub open spec fn direct_leaves<V>(entries: Seq<(String, NestedValue<V>)>, prefix: Seq<char>) -> Seq<(Seq<char>, V)> {
    entries.map_values(|e: (String, NestedValue<V>)| (joined_key(prefix, e.0@), e.1->Value_0))
}

proof fn lemma_joined_key_injective(prefix: Seq<char>, a: Seq<char>, b: Seq<char>)
    requires
        joined_key(prefix, a) == joined_key(prefix, b),
    ensures
        a == b,
{
    if prefix.len() > 0 {
        let head = prefix + "."@;
        assert(joined_key(prefix, a) == head + a);
        assert(joined_key(prefix, b) == head + b);
        assert((head + a).skip(head.len() as int) == a);
        assert((head + b).skip(head.len() as int) == b);
    }
}

/// Inserting items whose keys are distinct, in turn, into nothing keeps them
/// all, in order.
pub proof fn lemma_inserting_distinct_keys<V>(items: Seq<(Seq<char>, V)>)
    requires
        keys_unique(items),
    ensures
        inserted_all(Seq::empty(), items) == items,
    decreases items.len(),
{
    if items.len() > 0 {
        let init = items.drop_last();
        assert(keys_unique(init));
        lemma_inserting_distinct_keys(init);
        assert forall|j: int| 0 <= j < init.len() && (-1int == -1 || j < -1) implies #[trigger] init[j].0
            != items.last().0 by {
            assert(items[j].0 != items[items.len() - 1].0);
        }
        lemma_position_of(init, items.last().0, -1);
        assert(init.push(items.last()) == items);
    }
}

proof fn lemma_direct_leaves<V>(entries: Seq<(String, NestedValue<V>)>, prefix: Seq<char>)
    requires
        forall|i: int| 0 <= i < entries.len() ==> #[trigger] entries[i].1 is Value,
    ensures
        entries_leaves(entries, prefix) == direct_leaves(entries, prefix),
    decreases entries.len(),
{
    if entries.len() > 0 {
        let init = entries.subrange(0, entries.len() - 1);
        assert forall|i: int| 0 <= i < init.len() implies #[trigger] init[i].1 is Value by {
            assert(init[i] == entries[i]);
        }
        lemma_direct_leaves(init, prefix);
        let last = entries[entries.len() - 1];
        assert(last.1 is Value);
        let leaf = (joined_key(prefix, last.0@), last.1->Value_0);
        assert(leaves(last.1, joined_key(prefix, last.0@)) == seq![leaf]);
        assert(direct_leaves(entries, prefix) =~= direct_leaves(init, prefix).push(leaf));
        assert(entries_leaves(entries, prefix) == entries_leaves(init, prefix) + seq![leaf]);
        assert(direct_leaves(init, prefix) + seq![leaf] == direct_leaves(init, prefix).push(leaf));
    }
}

/// Flattening a level of leaves with distinct keys names each leaf by its
/// path, in declaration order, and loses none.
pub proof fn lemma_flatten_keeps_declaration_order<V>(entries: Seq<(String, NestedValue<V>)>, prefix: Seq<char>)
    requires
        forall|i: int| 0 <= i < entries.len() ==> #[trigger] entries[i].1 is Value,
        forall|i: int, j: int| 0 <= i < j < entries.len() ==> entries[i].0@ != entries[j].0@,
    ensures
        inserted_all(Seq::empty(), entries_leaves(entries, prefix)) == direct_leaves(entries, prefix),
{
    lemma_direct_leaves(entries, prefix);
    let items = direct_leaves(entries, prefix);
    assert forall|i: int, j: int| 0 <= i < j < items.len() implies items[i].0 != items[j].0 by {
        if items[i].0 == items[j].0 {
            lemma_joined_key_injective(prefix, entries[i].0@, entries[j].0@);
        }
    }
    lemma_inserting_distinct_keys(items);
}

/// The entries of a tree level keyed by their views.
pub open spec fn keyed<V>(entries: Seq<(String, NestedValue<V>)>) -> Seq<(Seq<char>, NestedValue<V>)> {
    entries.map_values(|e: (String, NestedValue<V>)| (e.0@, e.1))
}

/// A tree of parameters, one level deep at the root.
#[derive(Debug)]
pub struct NestedMap<V> {
    /// The root entries, in insertion order.
    pub entries: Vec<(String, NestedValue<V>)>,
}

impl<V> Default for NestedMap<V> {
    fn default() -> (map: Self)
        ensures
            map.entries@.len() == 0,
    {
        NestedMap::new()
    }
}

impl<V> NestedMap<V> {
    /// An empty tree.
    pub fn new() -> (map: Self)
        ensures
            map.entries@.len() == 0,
    {
        NestedMap { entries: Vec::new() }
    }

    /// Add an entry, keeping insertion order: a key already present keeps its
    /// place and takes the new value.
    pub fn insert(&mut self, key: String, value: NestedValue<V>)
        ensures
            keyed(final(self).entries@) == inserted(keyed(old(self).entries@), key@, value),
    {
        let ghost before = keyed(self.entries@);
        let wanted = chars_of(key.as_str());
        let mut i: usize = 0;
        while i < self.entries.len()
            invariant
                i <= self.entries@.len(),
                before == keyed(self.entries@),
                before == keyed(old(self).entries@),
                wanted@ == key@,
                forall|j: int| 0 <= j < i ==> #[trigger] before[j].0 != key@,
            decreases self.entries@.len() - i,
        {
            assert(before[i as int].0 == self.entries@[i as int].0@);
            if same_chars(&chars_of(self.entries[i].0.as_str()), &wanted) {
                proof {
                    lemma_position_of(before, key@, i as int);
                }
                self.entries.set(i, (key, value));
                assert(keyed(self.entries@) == before.update(i as int, (key@, value)));
                return;
            }
            i = i + 1;
        }
        proof {
            lemma_position_of(before, key@, -1);
        }
        self.entries.push((key, value));
        assert(keyed(self.entries@) == before.push((key@, value)));
    }

    /// Flatten the whole tree into `.`-joined keys, in insertion order.
    pub fn flatten(self) -> (flat: FlatParams<V>)
        ensures
            flat@ == flattened(NestedValue::Branch(self.entries), Seq::empty()),
    {
        let value = NestedValue::Branch(self.entries);
        let flat = value.flatten("");
        proof {
            reveal_strlit("");
            assert(""@ == Seq::<char>::empty());
        }
        flat
    }

    /// This tree as a sub-tree.
    pub fn into_value(self) -> (value: NestedValue<V>)
        ensures
            value == NestedValue::Branch(self.entries),
    {
        NestedValue::Branch(self.entries)
    }
}

} // verus!
