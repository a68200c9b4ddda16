//! Marking struct fields as parameters.
use vstd::prelude::*;

use super::nested::NestedValue;
use super::ModuleParameters;

verus! {

/// A type that can stand as one trainable parameter: the array type.
pub trait Leaf: Sized {
    /// Whether `self` is a handle to the array that `source` refers to.
    ///
    /// An implementation states what that means for its arrays; the default
    /// says nothing of any value.
    closed spec fn is_handle_to(&self, source: &Self) -> bool {
        arbitrary()
    }

    /// Another handle to the same array.
    fn clone_handle(&self) -> (copy: Self)
        ensures
            copy.is_handle_to(self),
    ;
}

/// A trainable parameter, or a group of them.
///
/// Implemented for `Param<A>` and `Param<Option<A>>` of a [`Leaf`] type `A`,
/// and for any [`ModuleParameters`], so a field of any of those shapes can be
/// marked as a parameter.
pub trait Parameter {
    /// The parameter arrays' type.
    type Array;

    /// How many arrays this holds.
    fn count(&self) -> usize;

    /// Stop gradients flowing to these arrays.
    fn freeze(&mut self, recursive: bool);

    /// Let gradients flow to these arrays again.
    fn unfreeze(&mut self, recursive: bool);

    /// `None` when this holds no arrays at all, so a caller can tell "all
    /// frozen" apart from "nothing to freeze".
    fn is_frozen(&self) -> Option<bool>;

    /// Borrow as a tree.
    fn as_nested_value(&self) -> NestedValue<&Self::Array>;

    /// Borrow mutably as a tree.
    fn as_nested_value_mut(&mut self) -> NestedValue<&mut Self::Array>;

    /// Borrow as a tree, skipping the frozen entries.
    fn as_trainable_nested_value(&self) -> Option<NestedValue<&Self::Array>>;
}

/// A struct field holding parameters, and whether they are frozen.
///
/// The frozen flag is private, so to Verus the struct is opaque outside this
/// module and contracts name the parameters by [`contents`](Param::contents);
/// verified code reads them through [`as_ref`](Param::as_ref), whose result
/// is exactly that.
#[derive(Debug, Clone)]
pub struct Param<T> {
    /// The parameters themselves.
    pub value: T,
    frozen: bool,
}

impl<T> Param<T> {
    /// Whether the parameters are frozen.
    pub closed spec fn frozen(&self) -> bool {
        self.frozen
    }

    /// The parameters held.
    pub closed spec fn contents(&self) -> T {
        self.value
    }

    /// Wrap `value` as a trainable parameter.
    pub fn new(value: T) -> (param: Self)
        ensures
            param.contents() == value,
            !param.frozen(),
    {
        Param { value, frozen: false }
    }

    /// Borrow the parameters.
    pub fn as_ref(&self) -> (value: &T)
        ensures
            *value == self.contents(),
    {
        &self.value
    }
}

impl<A: Leaf> Parameter for Param<A> {
    type Array = A;

    fn as_nested_value_mut(&mut self) -> (tree: NestedValue<&mut A>)
        ensures
            tree is Value,
            *tree->Value_0 == old(self).contents(),
            final(self).contents() == *final(tree->Value_0),
            final(self).frozen() == old(self).frozen(),
    {
        NestedValue::Value(&mut self.value)
    }

    fn count(&self) -> (n: usize)
        ensures
            n == 1,
    {
        1
    }

    fn freeze(&mut self, recursive: bool)
        ensures
            final(self).frozen(),
            final(self).contents() == old(self).contents(),
    {
        self.frozen = true;
    }

    fn unfreeze(&mut self, recursive: bool)
        ensures
            !final(self).frozen(),
            final(self).contents() == old(self).contents(),
    {
        self.frozen = false;
    }

    fn is_frozen(&self) -> (frozen: Option<bool>)
        ensures
            frozen == Some(self.frozen()),
    {
        Some(self.frozen)
    }

    fn as_nested_value(&self) -> (tree: NestedValue<&A>)
        ensures
            tree == NestedValue::Value(&self.contents()),
    {
        NestedValue::Value(&self.value)
    }

    fn as_trainable_nested_value(&self) -> (tree: Option<NestedValue<&A>>)
        ensures
            tree == (if self.frozen() {
                None
            } else {
                Some(NestedValue::Value(&self.contents()))
            }),
    {
        if self.frozen {
            None
        } else {
            Some(NestedValue::Value(&self.value))
        }
    }
}

impl<A: Leaf> Parameter for Param<Option<A>> {
    type Array = A;

    fn as_nested_value_mut(&mut self) -> (tree: NestedValue<&mut A>)
        ensures
            final(self).frozen() == old(self).frozen(),
            match old(self).contents() {
                Some(array) => tree is Value && *tree->Value_0 == array && final(self).contents()
                    == Some(*final(tree->Value_0)),
                None => (tree matches NestedValue::Branch(entries) && entries@.len() == 0)
                    && final(self).contents() is None,
            },
    {
        match &mut self.value {
            Some(array) => NestedValue::Value(array),
            None => NestedValue::Branch(Vec::new()),
        }
    }

    fn count(&self) -> (n: usize)
        ensures
            n == (if self.contents() is Some { 1usize } else { 0usize }),
    {
        if self.value.is_some() {
            1
        } else {
            0
        }
    }

    fn freeze(&mut self, recursive: bool)
        ensures
            final(self).frozen(),
            final(self).contents() == old(self).contents(),
    {
        self.frozen = true;
    }

    fn unfreeze(&mut self, recursive: bool)
        ensures
            !final(self).frozen(),
            final(self).contents() == old(self).contents(),
    {
        self.frozen = false;
    }

    fn is_frozen(&self) -> (frozen: Option<bool>)
        ensures
            frozen == (if self.contents() is Some { Some(self.frozen()) } else { None }),
    {
        match &self.value {
            Some(_) => Some(self.frozen),
            None => None,
        }
    }

    fn as_nested_value(&self) -> (tree: NestedValue<&A>)
        ensures
            match self.contents() {
                Some(array) => tree == NestedValue::Value(&array),
                None => tree matches NestedValue::Branch(entries) && entries@.len() == 0,
            },
    {
        match &self.value {
            Some(array) => NestedValue::Value(array),
            None => NestedValue::Branch(Vec::new()),
        }
    }

    fn as_trainable_nested_value(&self) -> (tree: Option<NestedValue<&A>>)
        ensures
            tree == (match self.contents() {
                Some(array) => if self.frozen() {
                    None
                } else {
                    Some(NestedValue::Value(&array))
                },
                None => None,
            }),
    {
        match &self.value {
            Some(array) => {
                if self.frozen {
                    None
                } else {
                    Some(NestedValue::Value(array))
                }
            },
            None => None,
        }
    }
}

/// A nested module is itself a parameter group.
impl<T: ModuleParameters> Parameter for T {
    type Array = T::Array;

    fn count(&self) -> (n: usize)
        ensures
            n == self.parameter_count(),
    {
        self.num_parameters()
    }

    fn freeze(&mut self, recursive: bool)
        ensures
            final(self).parameter_count() == old(self).parameter_count(),
            final(self).all_frozen_state() == (if final(self).parameter_count() == 0 {
                None
            } else {
                Some(true)
            }),
    {
        self.freeze_parameters(recursive);
    }

    fn unfreeze(&mut self, recursive: bool)
        ensures
            final(self).parameter_count() == old(self).parameter_count(),
            final(self).any_frozen_state() == (if final(self).parameter_count() == 0 {
                None
            } else {
                Some(false)
            }),
    {
        self.unfreeze_parameters(recursive);
    }

    fn is_frozen(&self) -> (frozen: Option<bool>)
        ensures
            frozen == self.all_frozen_state(),
    {
        self.all_frozen()
    }

    fn as_nested_value(&self) -> (tree: NestedValue<&T::Array>)
        ensures
            tree matches NestedValue::Branch(entries) && entries@ == self.parameter_tree(),
    {
        self.parameters().into_value()
    }

    fn as_nested_value_mut(&mut self) -> (tree: NestedValue<&mut T::Array>)
        ensures
            tree matches NestedValue::Branch(entries) && entries@.map_values(
                |e: (String, NestedValue<&mut T::Array>)| e.0@,
            ) == old(self).parameter_tree().map_values(
                |e: (String, NestedValue<&T::Array>)| e.0@,
            ),
    {
        self.parameters_mut().into_value()
    }

    fn as_trainable_nested_value(&self) -> (tree: Option<NestedValue<&T::Array>>)
        ensures
            tree matches Some(NestedValue::Branch(entries)) && entries@ == self.trainable_tree(),
    {
        Some(self.trainable_parameters().into_value())
    }
}

} // verus!
