//! The parameter tree: declaration-order flattening, freezing and replacement.

use mlx::module::flat::FlatParams;
use mlx::module::nested::{NestedMap, NestedValue};
use mlx::module::param::{Leaf, Param, Parameter};
use mlx::module::{Module, ModuleParameters};

/// Stands in for an MLX array: the tree only carries its leaves.
#[derive(Debug, Clone, PartialEq)]
struct Array(Vec<f32>);

impl Leaf for Array {
    fn clone_handle(&self) -> Self {
        self.clone()
    }
}

fn array(values: &[f32]) -> Array {
    Array(values.to_vec())
}

fn all_of(states: &[Option<bool>]) -> Option<bool> {
    let known: Vec<bool> = states.iter().filter_map(|state| *state).collect();
    if known.is_empty() {
        None
    } else {
        Some(known.iter().all(|frozen| *frozen))
    }
}

fn any_of(states: &[Option<bool>]) -> Option<bool> {
    let known: Vec<bool> = states.iter().filter_map(|state| *state).collect();
    if known.is_empty() {
        None
    } else {
        Some(known.iter().any(|frozen| *frozen))
    }
}

/// Shaped like a real linear layer: a required parameter, an optional one, and
/// a configuration field that is not a parameter.
#[derive(Debug)]
struct Linear {
    weight: Param<Array>,
    bias: Param<Option<Array>>,
    in_features: i32,
}

impl Linear {
    fn new(with_bias: bool) -> Self {
        Linear {
            weight: Param::new(array(&[1.0, 2.0, 3.0, 4.0])),
            bias: Param::new(with_bias.then(|| array(&[0.5, 1.5]))),
            in_features: 2,
        }
    }
}

impl ModuleParameters for Linear {
    type Array = Array;

    fn parameters_mut(&mut self) -> NestedMap<&mut Array> {
        let mut map = NestedMap::new();
        map.insert("weight".to_string(), self.weight.as_nested_value_mut());
        map.insert("bias".to_string(), self.bias.as_nested_value_mut());
        map
    }

    fn parameters(&self) -> NestedMap<&Array> {
        let mut map = NestedMap::new();
        map.insert("weight".to_string(), self.weight.as_nested_value());
        map.insert("bias".to_string(), self.bias.as_nested_value());
        map
    }

    fn trainable_parameters(&self) -> NestedMap<&Array> {
        let mut map = NestedMap::new();
        if let Some(value) = self.weight.as_trainable_nested_value() {
            map.insert("weight".to_string(), value);
        }
        if let Some(value) = self.bias.as_trainable_nested_value() {
            map.insert("bias".to_string(), value);
        }
        map
    }

    fn freeze_parameters(&mut self, recursive: bool) {
        self.weight.freeze(recursive);
        self.bias.freeze(recursive);
    }

    fn unfreeze_parameters(&mut self, recursive: bool) {
        self.weight.unfreeze(recursive);
        self.bias.unfreeze(recursive);
    }

    fn all_frozen(&self) -> Option<bool> {
        all_of(&[self.weight.is_frozen(), self.bias.is_frozen()])
    }

    fn any_frozen(&self) -> Option<bool> {
        any_of(&[self.weight.is_frozen(), self.bias.is_frozen()])
    }

    fn num_parameters(&self) -> usize {
        self.weight.count() + self.bias.count()
    }
}

impl Module<&Array> for Linear {
    type Output = Array;
    type Error = mlx::Error;

    fn forward(&mut self, input: &Array) -> mlx::Result<Array> {
        Ok(input.clone())
    }

    fn training_mode(&mut self, _mode: bool) {}
}

/// A module holding modules, so the tree is actually nested.
#[derive(Debug)]
struct TwoLayer {
    first: Linear,
    second: Linear,
}

impl ModuleParameters for TwoLayer {
    type Array = Array;

    fn parameters_mut(&mut self) -> NestedMap<&mut Array> {
        let mut map = NestedMap::new();
        map.insert("first".to_string(), self.first.as_nested_value_mut());
        map.insert("second".to_string(), self.second.as_nested_value_mut());
        map
    }

    fn parameters(&self) -> NestedMap<&Array> {
        let mut map = NestedMap::new();
        map.insert("first".to_string(), self.first.as_nested_value());
        map.insert("second".to_string(), self.second.as_nested_value());
        map
    }

    fn trainable_parameters(&self) -> NestedMap<&Array> {
        let mut map = NestedMap::new();
        if let Some(value) = self.first.as_trainable_nested_value() {
            map.insert("first".to_string(), value);
        }
        if let Some(value) = self.second.as_trainable_nested_value() {
            map.insert("second".to_string(), value);
        }
        map
    }

    fn freeze_parameters(&mut self, recursive: bool) {
        self.first.freeze(recursive);
        self.second.freeze(recursive);
    }

    fn unfreeze_parameters(&mut self, recursive: bool) {
        self.first.unfreeze(recursive);
        self.second.unfreeze(recursive);
    }

    fn all_frozen(&self) -> Option<bool> {
        all_of(&[self.first.is_frozen(), self.second.is_frozen()])
    }

    fn any_frozen(&self) -> Option<bool> {
        any_of(&[self.first.any_frozen(), self.second.any_frozen()])
    }

    fn num_parameters(&self) -> usize {
        self.first.count() + self.second.count()
    }
}

#[test]
fn flatten_names_parameters_by_path_in_declaration_order() {
    let model = TwoLayer { first: Linear::new(true), second: Linear::new(false) };

    // A field that is not a parameter is configuration: it must not appear in
    // the tree, and must still be readable.
    assert_eq!(model.first.in_features, 2);

    let keys: Vec<String> = model.flatten().keys();
    assert_eq!(
        keys,
        vec!["first.weight".to_string(), "first.bias".to_string(), "second.weight".to_string()],
        "an absent optional parameter must not appear, and order must follow declaration"
    );
    assert_eq!(model.num_parameters(), 3);
}

#[test]
fn parameter_order_is_stable_across_many_rebuilds() {
    let expected: Vec<String> =
        TwoLayer { first: Linear::new(true), second: Linear::new(true) }.flatten().keys();

    for round in 0..100 {
        let keys: Vec<String> =
            TwoLayer { first: Linear::new(true), second: Linear::new(true) }.flatten().keys();
        assert_eq!(keys, expected, "ordering changed on round {round}");
    }
}

#[test]
fn freezing_removes_parameters_from_the_trainable_set() {
    let mut model = TwoLayer { first: Linear::new(true), second: Linear::new(true) };
    assert_eq!(model.trainable_parameters().flatten().len(), 4);
    assert_eq!(model.all_frozen(), Some(false));

    model.first.freeze_parameters(true);
    let trainable: Vec<String> = model.trainable_parameters().flatten().keys();
    assert_eq!(
        trainable,
        vec!["second.weight".to_string(), "second.bias".to_string()],
        "frozen parameters must drop out of the trainable set"
    );
    assert_eq!(model.any_frozen(), Some(true));

    model.first.unfreeze_parameters(true);
    assert_eq!(model.trainable_parameters().flatten().len(), 4);
}

#[test]
fn flattened_leaves_point_at_the_declared_arrays() {
    let model = TwoLayer { first: Linear::new(true), second: Linear::new(true) };
    let flat = model.flatten();
    assert_eq!(flat.get("first.bias"), Some(&&array(&[0.5, 1.5])));
    assert_eq!(flat.get("second.weight"), Some(&&array(&[1.0, 2.0, 3.0, 4.0])));
    assert_eq!(flat.get("first"), None);
    assert_eq!(flat.get("nonexistent"), None);
}

#[test]
fn a_module_forwards_its_input() {
    let mut layer = Linear::new(false);
    let input = array(&[1.0, 1.0]);
    assert_eq!(layer.forward(&input).unwrap(), input);
}

#[test]
fn param_freezing_and_counting() {
    let mut weight = Param::new(array(&[1.0]));
    assert_eq!(weight.count(), 1);
    assert_eq!(weight.is_frozen(), Some(false));
    assert!(weight.as_trainable_nested_value().is_some());
    weight.freeze(false);
    assert_eq!(weight.is_frozen(), Some(true));
    assert!(weight.as_trainable_nested_value().is_none());
    assert_eq!(weight.as_ref(), &array(&[1.0]));
    weight.unfreeze(true);
    assert_eq!(weight.is_frozen(), Some(false));

    let mut absent: Param<Option<Array>> = Param::new(None);
    assert_eq!(absent.count(), 0);
    assert_eq!(absent.is_frozen(), None);
    absent.freeze(true);
    assert_eq!(absent.is_frozen(), None, "nothing to freeze is not 'all frozen'");
    assert!(absent.as_trainable_nested_value().is_none());
    assert!(matches!(absent.as_nested_value(), NestedValue::Branch(entries) if entries.is_empty()));
}

#[test]
fn flat_params_insert_keeps_the_first_position() {
    let mut flat: FlatParams<i32> = FlatParams::new();
    flat.insert("b".to_string(), 1);
    flat.insert("a".to_string(), 2);
    flat.insert("b".to_string(), 3);
    assert_eq!(flat.len(), 2);
    assert_eq!(flat.keys(), vec!["b".to_string(), "a".to_string()]);
    assert_eq!(flat.get("b"), Some(&3));
    assert_eq!(flat.get("a"), Some(&2));
    assert_eq!(flat.get("c"), None);
    assert_eq!(flat.get(""), None);
    assert_eq!(
        flat.into_entries(),
        vec![("b".to_string(), 3), ("a".to_string(), 2)]
    );
}

#[test]
fn nested_flatten_joins_keys_with_dots() {
    let mut inner = NestedMap::new();
    inner.insert("x".to_string(), NestedValue::Value(1));
    inner.insert("y".to_string(), NestedValue::Branch(Vec::new()));
    let mut root = NestedMap::new();
    root.insert("outer".to_string(), inner.into_value());
    root.insert("z".to_string(), NestedValue::Value(2));
    root.insert("outer".to_string(), {
        let mut replacement = NestedMap::new();
        replacement.insert("w".to_string(), NestedValue::Value(3));
        replacement.into_value()
    });
    let flat = root.flatten();
    assert_eq!(flat.keys(), vec!["outer.w".to_string(), "z".to_string()]);
    assert_eq!(flat.get("outer.w"), Some(&3));

    let leaf = NestedValue::Value(7).flatten("top");
    assert_eq!(leaf.keys(), vec!["top".to_string()]);
    let default_map: NestedMap<i32> = NestedMap::default();
    assert_eq!(default_map.flatten().len(), 0);
}

#[test]
fn update_flattened_replaces_only_matching_keys() {
    let mut model = TwoLayer { first: Linear::new(true), second: Linear::new(true) };

    let mut replacements = FlatParams::new();
    replacements.insert("first.weight".to_string(), array(&[9.0; 4]));
    // A key no parameter matches must be ignored, not panic: checkpoints carry
    // extra entries.
    replacements.insert("nonexistent".to_string(), array(&[0.0]));
    model.update_flattened(&replacements);

    assert_eq!(model.first.weight.value, array(&[9.0; 4]));
    assert_eq!(
        model.second.weight.value,
        array(&[1.0, 2.0, 3.0, 4.0]),
        "the other layer must be untouched"
    );
}
