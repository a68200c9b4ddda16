//! Modules and their parameters.
//!
//! Parameters form a tree whose leaves are arrays; flattening it names each by
//! its `.`-joined path, in declaration order, so checkpoints and optimizer
//! state are reproducible.
use vstd::prelude::*;

pub mod flat;
pub mod nested;
pub mod param;

use crate::error::Error;
use flat::FlatParams;
use flat::{holds_key, inserted_all, position_of};
use flat::keys_unique;
use nested::{
    direct_leaves, entries_leaves, lemma_flatten_keeps_declaration_order, lemma_inserting_distinct_keys,
    NestedMap, NestedValue,
};
use param::Leaf;

verus! {

/// Every parameter array of a module whose parameter tree is `tree`, under its
/// flattened key, in the order [`flatten`](ModuleParameters::flatten) lists
/// them: the leaves of the tree, each inserted under its `.`-joined path.
pub open spec fn parameter_values<A>(tree: Seq<(String, NestedValue<&A>)>) -> Seq<(Seq<char>, A)> {
    inserted_all(Seq::empty(), entries_leaves(tree, Seq::empty())).map_values(
        |e: (Seq<char>, &A)| (e.0, *e.1),
    )
}

/// A module's parameters flatten to the leaves of its parameter tree, depth
/// first in declaration order, each under its `.`-joined path, whenever those
/// paths are distinct: nothing is reordered, merged or lost.
pub proof fn lemma_parameters_flatten_in_declaration_order<A>(tree: Seq<(String, NestedValue<&A>)>)
    requires
        keys_unique(entries_leaves(tree, Seq::empty())),
    ensures
        parameter_values(tree) == entries_leaves(tree, Seq::empty()).map_values(
            |e: (Seq<char>, &A)| (e.0, *e.1),
        ),
{
    lemma_inserting_distinct_keys(entries_leaves(tree, Seq::empty()));
}

/// A module whose parameter tree holds one array per field, under distinct
/// field names in declaration order, has its parameters flattened under the
/// field names themselves, in the order the fields are declared.
pub proof fn lemma_fields_flatten_in_declaration_order<A>(tree: Seq<(String, NestedValue<&A>)>)
    requires
        forall|i: int| 0 <= i < tree.len() ==> #[trigger] tree[i].1 is Value,
        forall|i: int, j: int| 0 <= i < j < tree.len() ==> tree[i].0@ != tree[j].0@,
    ensures
        parameter_values(tree).len() == tree.len(),
        forall|i: int|
            0 <= i < tree.len() ==> #[trigger] parameter_values(tree)[i] == (
                tree[i].0@,
                *tree[i].1->Value_0,
            ),
{
    lemma_flatten_keeps_declaration_order(tree, Seq::empty());
    let direct = direct_leaves(tree, Seq::empty());
    assert forall|i: int| 0 <= i < tree.len() implies #[trigger] parameter_values(tree)[i] == (
        tree[i].0@,
        *tree[i].1->Value_0,
    ) by {
        assert(direct[i] == (tree[i].0@, tree[i].1->Value_0));
    }
}

/// A type whose parameters can be enumerated, frozen and replaced.
///
/// The spec functions name what the methods report. A verified implementation
/// states its own; the defaults say nothing of any module.
pub trait ModuleParameters {
    /// The parameter arrays' type.
    type Array;

    /// The root entries that [`parameters`](Self::parameters) returns.
    closed spec fn parameter_tree(&self) -> Seq<(String, NestedValue<&Self::Array>)> {
        arbitrary()
    }

    /// The root entries that
    /// [`trainable_parameters`](Self::trainable_parameters) returns.
    closed spec fn trainable_tree(&self) -> Seq<(String, NestedValue<&Self::Array>)> {
        arbitrary()
    }

    /// How many arrays this module and its children hold.
    closed spec fn parameter_count(&self) -> nat {
        arbitrary()
    }

    /// What [`all_frozen`](Self::all_frozen) reports.
    closed spec fn all_frozen_state(&self) -> Option<bool> {
        arbitrary()
    }

    /// What [`any_frozen`](Self::any_frozen) reports.
    closed spec fn any_frozen_state(&self) -> Option<bool> {
        arbitrary()
    }

    /// Borrow every parameter.
    fn parameters(&self) -> (map: NestedMap<&Self::Array>)
        ensures
            map.entries@ == self.parameter_tree(),
    ;

    /// Borrow every parameter mutably, under the keys [`parameters`](Self::parameters)
    /// uses.
    ///
    /// Flattened, the borrows list the parameter arrays in the order of
    /// [`parameter_values`]: each borrows the array
    /// under the same key, and what it holds when the borrow ends is what that
    /// parameter holds afterwards.
    fn parameters_mut(&mut self) -> (map: NestedMap<&mut Self::Array>)
        ensures
            map.entries@.map_values(|e: (String, NestedValue<&mut Self::Array>)| e.0@)
                == old(self).parameter_tree().map_values(|e: (String, NestedValue<&Self::Array>)| e.0@),
            ({
                let flat = inserted_all(Seq::empty(), entries_leaves(map.entries@, Seq::empty()));
                let before = parameter_values(old(self).parameter_tree());
                let after = parameter_values(final(self).parameter_tree());
                &&& flat.len() == before.len()
                &&& after.len() == flat.len()
                &&& forall|i: int|
                    0 <= i < flat.len() ==> {
                        &&& (#[trigger] flat[i]).0 == before[i].0
                        &&& *flat[i].1 == before[i].1
                        &&& after[i] == (flat[i].0, *final(flat[i].1))
                    }
            }),
    ;

    /// Borrow only the parameters gradients still flow to.
    fn trainable_parameters(&self) -> (map: NestedMap<&Self::Array>)
        ensures
            map.entries@ == self.trainable_tree(),
    ;

    /// Stop gradients flowing to every parameter: afterwards all are frozen,
    /// or there are none.
    fn freeze_parameters(&mut self, recursive: bool)
        ensures
            final(self).parameter_count() == old(self).parameter_count(),
            final(self).all_frozen_state() == (if final(self).parameter_count() == 0 {
                None
            } else {
                Some(true)
            }),
    ;

    /// Let gradients flow to every parameter again: afterwards none is frozen,
    /// or there are none.
    fn unfreeze_parameters(&mut self, recursive: bool)
        ensures
            final(self).parameter_count() == old(self).parameter_count(),
            final(self).any_frozen_state() == (if final(self).parameter_count() == 0 {
                None
            } else {
                Some(false)
            }),
    ;

    /// `Some(true)` when every parameter is frozen, `None` when there are none.
    fn all_frozen(&self) -> (frozen: Option<bool>)
        ensures
            frozen == self.all_frozen_state(),
    ;

    /// `Some(true)` when any parameter is frozen, `None` when there are none.
    fn any_frozen(&self) -> (frozen: Option<bool>)
        ensures
            frozen == self.any_frozen_state(),
    ;

    /// How many arrays this module and its children hold.
    fn num_parameters(&self) -> (n: usize)
        ensures
            n == self.parameter_count(),
    ;

    /// Every parameter under a `.`-joined key, in declaration order.
    fn flatten(&self) -> (flat: FlatParams<&Self::Array>)
        ensures
            flat@ == inserted_all(Seq::empty(), entries_leaves(self.parameter_tree(), Seq::empty())),
    {
        self.parameters().flatten()
    }

    /// Replace parameters by flattened key. Each parameter whose key a
    /// replacement carries becomes a handle to that replacement's array; one
    /// whose key none carries keeps its array. Keys with no matching parameter
    /// are ignored, which is what lets a checkpoint carry extra entries. The
    /// keys and their order stay as they were.
    fn update_flattened(&mut self, replacements: &FlatParams<Self::Array>) where Self::Array: Leaf
        ensures
            parameter_values(final(self).parameter_tree()).len() == parameter_values(old(self).parameter_tree()).len(),
            forall|i: int|
                0 <= i < parameter_values(old(self).parameter_tree()).len() ==> {
                    let before = parameter_values(old(self).parameter_tree())[i];
                    let after = #[trigger] parameter_values(final(self).parameter_tree())[i];
                    &&& after.0 == before.0
                    &&& holds_key(replacements@, before.0) ==> after.1.is_handle_to(
                        &replacements@[position_of(replacements@, before.0)].1,
                    )
                    &&& !holds_key(replacements@, before.0) ==> after.1 == before.1
                },
    {
        let ghost before = parameter_values(self.parameter_tree());
        let map = self.parameters_mut();
        let ghost leaves_view = inserted_all(Seq::empty(), entries_leaves(map.entries@, Seq::empty()));
        let flat = map.flatten();
        let ghost flat_view = flat@;
        assert(flat_view == leaves_view);
        let mut slots = flat.into_entries();
        let ghost all = slots@;
        assert(all.len() == slots.len());
        let mut done: usize = 0;
        while slots.len() > 0
            invariant
                done <= all.len(),
                all.len() <= usize::MAX,
                slots@ == all.skip(done as int),
                forall|i: int|
                    0 <= i < done && !holds_key(replacements@, all[i].0@)
                        ==> *final(#[trigger] all[i].1) == *all[i].1,
                forall|i: int|
                    0 <= i < done && holds_key(replacements@, all[i].0@)
                        ==> (*final(#[trigger] all[i].1)).is_handle_to(
                        &replacements@[position_of(replacements@, all[i].0@)].1,
                    ),
            decreases slots@.len(),
        {
            let (key, slot) = slots.remove(0);
            assert(all[done as int] == (key, slot));
            match replacements.get(key.as_str()) {
                Some(replacement) => {
                    *slot = replacement.clone_handle();
                },
                None => {},
            }
            done = done + 1;
        }
        assert forall|i: int| 0 <= i < all.len() implies all[i].0@ == flat_view[i].0 && all[i].1
            == flat_view[i].1 by {
            assert(all.map_values(|e: (String, &mut Self::Array)| (e.0@, e.1))[i] == flat_view[i]);
        }
        let ghost after = parameter_values(self.parameter_tree());
        assert(all.len() == before.len());
        assert(after.len() == before.len());
        assert forall|i: int| 0 <= i < before.len() implies {
            &&& after[i].0 == before[i].0
            &&& holds_key(replacements@, before[i].0) ==> after[i].1.is_handle_to(
                &replacements@[position_of(replacements@, before[i].0)].1,
            )
            &&& !holds_key(replacements@, before[i].0) ==> after[i].1 == before[i].1
        } by {
            assert(flat_view[i].0 == before[i].0);
            assert(*flat_view[i].1 == before[i].1);
            assert(after[i] == (flat_view[i].0, *final(flat_view[i].1)));
            if holds_key(replacements@, all[i].0@) {
                assert((*final(all[i].1)).is_handle_to(&replacements@[position_of(replacements@, all[i].0@)].1));
            } else {
                assert(*final(all[i].1) == *all[i].1);
            }
        }
    }
}

/// A module that maps an input to an output.
///
/// `forward` takes `&mut self` because stateful layers (dropout's generator,
/// batch norm's running statistics) change as they run.
pub trait Module<Input>: ModuleParameters {
    /// What `forward` produces.
    type Output;

    /// How `forward` fails.
    type Error;

    /// Run the module.
    fn forward(&mut self, input: Input) -> Result<Self::Output, Self::Error>;

    /// Switch between training and evaluation behaviour, recursively.
    fn training_mode(&mut self, mode: bool);
}

/// The common case: a borrowed array in, an array out, failing with this
/// crate's [`Error`].
pub trait UnaryModule<A>: for<'a> Module<&'a A, Output = A, Error = Error> {

}

impl<A, T> UnaryModule<A> for T where T: for<'a> Module<&'a A, Output = A, Error = Error> {

}

} // verus!
