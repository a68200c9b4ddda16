//! What the op attributes make of a `*_device` signature.

use mlx::expand::{
    named_macro_plan, option_inner_of, twin_plan, twin_stream, BoundModel, FnSignatureModel,
    ParamModel, TwinStream,
};

fn bound(segment: &str, arg: Option<Option<&str>>, has_type: bool) -> BoundModel {
    BoundModel {
        is_trait: true,
        last_segment: Some(segment.to_string()),
        first_arg_path: arg.map(|path| path.map(str::to_string)),
        first_arg_has_type: has_type,
    }
}

fn into_option() -> Vec<BoundModel> {
    vec![bound("Into", Some(Some("Option")), true)]
}

fn plain(name: &str) -> ParamModel {
    ParamModel { name: Some(name.to_string()), optional: false, impl_bounds: None }
}

fn optional(name: &str, bounds: Option<Vec<BoundModel>>) -> ParamModel {
    ParamModel { name: Some(name.to_string()), optional: true, impl_bounds: bounds }
}

fn unnamed() -> ParamModel {
    ParamModel { name: None, optional: false, impl_bounds: None }
}

fn signature(name: &str, has_receiver: bool, params: Vec<ParamModel>, attrs: &[&str]) -> FnSignatureModel {
    FnSignatureModel {
        name: name.to_string(),
        has_receiver,
        params,
        attrs: attrs.iter().map(|a| a.to_string()).collect(),
    }
}

#[test]
fn the_first_into_option_bound_is_found() {
    let lifetime = BoundModel {
        is_trait: false,
        last_segment: None,
        first_arg_path: None,
        first_arg_has_type: false,
    };
    let bounds = vec![lifetime, bound("Send", None, false), bound("Into", Some(Some("Option")), true)];
    assert_eq!(option_inner_of(&bounds), Ok(2));
    assert_eq!(option_inner_of(&into_option()), Ok(0));
}

#[test]
fn bounds_without_into_option_are_refused() {
    let message = "#[optional] parameters must be `impl Into<Option<T>>`".to_string();
    assert_eq!(option_inner_of(&vec![]), Err(message.clone()));
    assert_eq!(option_inner_of(&vec![bound("Into", Some(Some("Vec")), true)]), Err(message.clone()));
    assert_eq!(option_inner_of(&vec![bound("Into", Some(Some("Option")), false)]), Err(message.clone()));
    assert_eq!(option_inner_of(&vec![bound("Into", None, false)]), Err(message.clone()));
    // A path with no segments stops the search, though a later bound would fit.
    assert_eq!(
        option_inner_of(&vec![bound("Into", Some(None), false), bound("Into", Some(Some("Option")), true)]),
        Err(message.clone())
    );
    let empty_trait = BoundModel {
        is_trait: true,
        last_segment: None,
        first_arg_path: None,
        first_arg_has_type: false,
    };
    assert_eq!(option_inner_of(&vec![empty_trait]), Err(message));
}

#[test]
fn a_macro_is_planned_for_optional_parameters() {
    let sig = signature(
        "quantized_matmul_device",
        false,
        vec![
            plain("x"),
            plain("w"),
            plain("scales"),
            optional("transpose", Some(into_option())),
            optional("group_size", Some(into_option())),
            plain("stream"),
        ],
        &[],
    );
    let plan = named_macro_plan(&sig).unwrap().unwrap();
    assert_eq!(plan.macro_name, "quantized_matmul");
    assert_eq!(plan.args_struct, "QuantizedMatmulArgs");
    assert_eq!(plan.required, vec!["x", "w", "scales"]);
    assert_eq!(plan.optional, vec![("transpose".to_string(), 0), ("group_size".to_string(), 0)]);
    assert_eq!(
        plan.doc,
        "Call [`quantized_matmul`] with named optional arguments, in any order: \
         `transpose`, `group_size`.\n\nRequired arguments stay positional. \
         Exported at the crate root, so it is `crate::quantized_matmul!`."
    );
}

#[test]
fn no_macro_without_optional_parameters() {
    let sig = signature("add_device", false, vec![plain("a"), plain("b"), plain("stream")], &[]);
    assert!(named_macro_plan(&sig).unwrap().is_none());
    // The stream parameter is not read, whatever its pattern.
    let sig = signature("add_device", false, vec![plain("a"), unnamed()], &[]);
    assert!(named_macro_plan(&sig).unwrap().is_none());
}

#[test]
fn the_macro_plan_names_each_refusal() {
    let refusal = |sig: FnSignatureModel| named_macro_plan(&sig).unwrap_err();
    assert_eq!(
        refusal(signature("add", false, vec![plain("stream")], &[])),
        "#[generate_macro] requires a name ending in `_device`"
    );
    assert_eq!(
        refusal(signature("add_device", true, vec![plain("stream")], &[])),
        "#[generate_macro] does not support methods"
    );
    assert_eq!(
        refusal(signature("add_device", false, vec![], &[])),
        "expected a trailing `stream` parameter"
    );
    assert_eq!(
        refusal(signature("add_device", false, vec![unnamed(), plain("stream")], &[])),
        "#[default_device] requires plain identifier parameters"
    );
    assert_eq!(
        refusal(signature("add_device", false, vec![optional("t", None), plain("stream")], &[])),
        "#[optional] parameters must be `impl Into<Option<T>>`"
    );
    // The first parameter that does not fit decides.
    assert_eq!(
        refusal(signature(
            "add_device",
            false,
            vec![optional("t", Some(vec![])), unnamed(), plain("stream")],
            &[]
        )),
        "#[optional] parameters must be `impl Into<Option<T>>`"
    );
}

#[test]
fn the_twin_drops_the_stream_and_keeps_the_rest() {
    let sig = signature(
        "quantize_device",
        false,
        vec![plain("w"), optional("group_size", Some(into_option())), plain("stream")],
        &["doc", "cfg", "inline", "must_use", "allow", "expect", "generate_macro"],
    );
    let plan = twin_plan(&sig, "").unwrap();
    assert_eq!(plan.name, "quantize");
    assert!(!plan.calls_method);
    assert_eq!(plan.forwarded, vec!["w", "group_size"]);
    assert_eq!(plan.attrs, vec![0, 1, 3, 4, 5]);
    assert_eq!(plan.stream, TwinStream::Default);

    let method = signature("sum_device", true, vec![plain("axes"), plain("stream")], &[]);
    let plan = twin_plan(&method, "").unwrap();
    assert_eq!(plan.name, "sum");
    assert!(plan.calls_method);
    assert_eq!(plan.forwarded, vec!["axes"]);
    assert!(plan.attrs.is_empty());
}

#[test]
fn the_twin_plan_names_each_refusal() {
    let refusal = |sig: FnSignatureModel| twin_plan(&sig, "").unwrap_err();
    assert_eq!(
        refusal(signature("quantize", false, vec![plain("stream")], &[])),
        "#[default_device] requires a name ending in `_device`"
    );
    assert_eq!(
        refusal(signature("quantize_device", true, vec![], &[])),
        "#[default_device] requires a trailing `stream` parameter"
    );
    assert_eq!(
        refusal(signature("quantize_device", false, vec![plain("w"), unnamed()], &[])),
        "#[default_device] requires plain identifier parameters"
    );
    assert_eq!(
        refusal(signature("quantize_device", false, vec![plain("w"), plain("s")], &[])),
        "#[default_device] requires the last parameter to be named `stream`"
    );
    assert_eq!(
        refusal(signature("quantize_device", false, vec![unnamed(), plain("stream")], &[])),
        "#[default_device] requires plain identifier parameters"
    );
}

#[test]
fn a_cpu_argument_puts_the_twin_on_the_default_cpu_stream() {
    let sig = signature("inv_device", false, vec![plain("a"), plain("stream")], &["doc"]);
    let plan = twin_plan(&sig, "cpu").unwrap();
    assert_eq!(plan.name, "inv");
    assert_eq!(plan.stream, TwinStream::DefaultCpu);
    assert_eq!(plan.forwarded, vec!["a"]);
    assert_eq!(twin_plan(&sig, "").unwrap().stream, TwinStream::Default);

    assert_eq!(twin_stream("cpu"), TwinStream::DefaultCpu);
    assert_eq!(twin_stream(" cpu "), TwinStream::DefaultCpu);
    assert_eq!(twin_stream(""), TwinStream::Default);
    assert_eq!(twin_stream("gpu"), TwinStream::Default);
    assert_eq!(twin_stream("cpux"), TwinStream::Default);
}
