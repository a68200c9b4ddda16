//! The names the op attributes derive.

use mlx::naming::{
    args_struct_name, check_stream_param, is_forwarded_attr, macro_doc, macro_name, twin_name,
    upper_camel,
};

#[test]
fn snake_names_become_upper_camel() {
    assert_eq!(upper_camel("quantized_matmul"), "QuantizedMatmul");
    assert_eq!(upper_camel("gather_qmm"), "GatherQmm");
    assert_eq!(upper_camel("sum"), "Sum");
    assert_eq!(upper_camel("conv_transpose3d"), "ConvTranspose3d");
    assert_eq!(upper_camel("a__b"), "AB");
    assert_eq!(upper_camel("a__b_"), "AB");
    assert_eq!(upper_camel(""), "");
    assert_eq!(upper_camel("x1_2y"), "X12y");
    assert_eq!(upper_camel("ß_é"), "SSÉ");
}

#[test]
fn twins_drop_the_device_suffix() {
    assert_eq!(twin_name("quantize_device"), Ok("quantize".to_string()));
    assert_eq!(twin_name("_device"), Ok(String::new()));
    assert_eq!(
        twin_name("quantize"),
        Err("#[default_device] requires a name ending in `_device`".to_string())
    );
    assert_eq!(args_struct_name("quantized_matmul"), "QuantizedMatmulArgs");
}

#[test]
fn the_stream_must_come_last() {
    let params = |names: &[&str]| names.iter().map(|n| n.to_string()).collect::<Vec<_>>();
    assert!(check_stream_param(&params(&["a", "stream"])).is_ok());
    assert_eq!(
        check_stream_param(&params(&[])),
        Err("#[default_device] requires a trailing `stream` parameter".to_string())
    );
    assert_eq!(
        check_stream_param(&params(&["stream", "a"])),
        Err("#[default_device] requires the last parameter to be named `stream`".to_string())
    );
}

#[test]
fn forwarded_attributes() {
    for name in ["doc", "cfg", "allow", "expect", "must_use"] {
        assert!(is_forwarded_attr(name));
    }
    for name in ["optional", "inline", "derive", "docs"] {
        assert!(!is_forwarded_attr(name));
    }
}

#[test]
fn named_macros_document_their_optional_arguments() {
    let optional = vec!["biases".to_string(), "transpose".to_string(), "config".to_string()];
    assert_eq!(
        macro_doc("quantized_matmul", &optional),
        "Call [`quantized_matmul`] with named optional arguments, in any order: `biases`, `transpose`, `config`.\n\nRequired arguments stay positional. Exported at the crate root, so it is `crate::quantized_matmul!`."
    );
}

#[test]
fn named_macros_take_the_base_name() {
    assert_eq!(macro_name("gather_qmm_device"), Ok("gather_qmm".to_string()));
    assert_eq!(
        macro_name("gather_qmm"),
        Err("#[generate_macro] requires a name ending in `_device`".to_string())
    );
}
