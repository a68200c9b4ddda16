//! What the op-generating attributes make of a `*_device` function: the
//! default-stream twin and the named-argument macro.
//!
//! The decisions are taken on a plain model of the function's signature; the
//! attribute itself only reads the signature into the model and writes out
//! the tokens the plan describes.
use vstd::prelude::*;

use crate::naming::{
    args_struct_name, device_base, forwarded, is_forwarded_attr, macro_doc, macro_doc_text,
    macro_name, twin_name, upper_camel_of,
};
use crate::text::{chars_of, same_chars, string_of, trim, trimmed};

verus! {

/// One bound of an `impl ...` parameter type, as far as the check of an
/// optional parameter reads it.
#[derive(Debug, Clone)]
pub struct BoundModel {
    /// Whether it is a trait bound (and not, say, a lifetime).
    pub is_trait: bool,
    /// The last segment of the trait's path; `None` when the path has none.
    pub last_segment: Option<String>,
    /// When that segment's first angle-bracketed argument is a path type, the
    /// last segment of that path (`None` when the path has none); `None`
    /// when there is no such argument.
    pub first_arg_path: Option<Option<String>>,
    /// Whether the last segment of that argument's path has a first
    /// angle-bracketed argument that is a type.
    pub first_arg_has_type: bool,
}

/// One parameter of a `*_device` function other than a receiver.
#[derive(Debug, Clone)]
pub struct ParamModel {
    /// The parameter's name when its pattern is a plain identifier.
    pub name: Option<String>,
    /// Whether it is marked `#[optional]`.
    pub optional: bool,
    /// The bounds of its type when that type is `impl ...`; `None` otherwise.
    pub impl_bounds: Option<Vec<BoundModel>>,
}

/// The parts of a `*_device` function's signature that the attributes read.
#[derive(Debug, Clone)]
pub struct FnSignatureModel {
    /// The function's name.
    pub name: String,
    /// Whether it takes `self` in some form.
    pub has_receiver: bool,
    /// Its parameters after the receiver, in order.
    pub params: Vec<ParamModel>,
    /// The path of each of its attributes, in order.
    pub attrs: Vec<String>,
}

/// The complaint about an optional parameter of the wrong type.
pub open spec fn optional_type_message() -> Seq<char> {
    "#[optional] parameters must be `impl Into<Option<T>>`"@
}

/// The complaint about a parameter whose pattern is not a plain identifier.
pub open spec fn plain_identifier_message() -> Seq<char> {
    "#[default_device] requires plain identifier parameters"@
}

fn optional_type_error() -> (message: String)
    ensures
        message@ == optional_type_message(),
{
    string_of(&chars_of("#[optional] parameters must be `impl Into<Option<T>>`"))
}

fn plain_identifier_error() -> (message: String)
    ensures
        message@ == plain_identifier_message(),
{
    string_of(&chars_of("#[default_device] requires plain identifier parameters"))
}

/// What the search for an `Into<Option<T>>` bound gives from position `i` on:
/// the position of the first such bound, or the complaint. Bounds that are
/// not trait bounds, traits not named `Into`, `Into` without a path type
/// argument, and paths not named `Option` or without a type argument are
/// passed over; a trait path or an `Into` argument path with no segments
/// ends the search with the complaint.
pub open spec fn option_inner_from(bounds: Seq<BoundModel>, i: int) -> Result<int, Seq<char>>
    decreases bounds.len() - i,
{
    if i < 0 || i >= bounds.len() {
        Err(optional_type_message())
    } else {
        let b = bounds[i];
        if !b.is_trait {
            option_inner_from(bounds, i + 1)
        } else {
            match b.last_segment {
                None => Err(optional_type_message()),
                Some(segment) => if segment@ != "Into"@ {
                    option_inner_from(bounds, i + 1)
                } else {
                    match b.first_arg_path {
                        None => option_inner_from(bounds, i + 1),
                        Some(None) => Err(optional_type_message()),
                        Some(Some(path)) => if path@ == "Option"@ && b.first_arg_has_type {
                            Ok(i)
                        } else {
                            option_inner_from(bounds, i + 1)
                        },
                    }
                },
            }
        }
    }
}

/// Which bound of an optional parameter's `impl ...` type carries the `T` of
/// `Into<Option<T>>`.
pub open spec fn option_inner_spec(bounds: Seq<BoundModel>) -> Result<int, Seq<char>> {
    option_inner_from(bounds, 0)
}

/// The first bound of the form `Into<Option<T>>`, by position, whose `T` the
/// named-argument macro's arguments struct stores.
///
/// # Errors
///
/// `"#[optional] parameters must be `impl Into<Option<T>>`"` when there is
/// none, or when a path on the way has no segments.
pub fn option_inner_of(bounds: &Vec<BoundModel>) -> (out: Result<usize, String>)
    ensures
        out is Ok ==> option_inner_spec(bounds@) == Ok::<int, Seq<char>>(out->Ok_0 as int),
        out is Err ==> option_inner_spec(bounds@) == Err::<int, Seq<char>>(out->Err_0@),
{
    let mut i: usize = 0;
    while i < bounds.len()
        invariant
            i <= bounds@.len(),
            option_inner_from(bounds@, i as int) == option_inner_spec(bounds@),
        decreases bounds@.len() - i,
    {
        let b = &bounds[i];
        if b.is_trait {
            match &b.last_segment {
                None => {
                    return Err(optional_type_error());
                },
                Some(segment) => {
                    if same_chars(&chars_of(segment.as_str()), &chars_of("Into")) {
                        match &b.first_arg_path {
                            None => {},
                            Some(None) => {
                                return Err(optional_type_error());
                            },
                            Some(Some(path)) => {
                                if same_chars(&chars_of(path.as_str()), &chars_of("Option"))
                                    && b.first_arg_has_type {
                                    return Ok(i);
                                }
                            },
                        }
                    }
                },
            }
        }
        i = i + 1;
    }
    Err(optional_type_error())
}

/// The `T` of an optional parameter's `impl Into<Option<T>>` type, as the
/// position of the bound that carries it.
pub open spec fn param_inner(param: ParamModel) -> Result<int, Seq<char>> {
    match param.impl_bounds {
        None => Err(optional_type_message()),
        Some(bounds) => option_inner_spec(bounds@),
    }
}

/// The parameters sorted for a named-argument macro: the names of the
/// required ones, and each optional one's name with the bound that carries
/// its type; or the complaint about the first parameter, in order, that does
/// not fit.
pub open spec fn split_params(params: Seq<ParamModel>) -> Result<
    (Seq<Seq<char>>, Seq<(Seq<char>, int)>),
    Seq<char>,
>
    decreases params.len(),
{
    if params.len() == 0 {
        Ok((Seq::empty(), Seq::empty()))
    } else {
        match split_params(params.drop_last()) {
            Err(e) => Err(e),
            Ok((required, optional)) => {
                let p = params.last();
                match p.name {
                    None => Err(plain_identifier_message()),
                    Some(name) => if p.optional {
                        match param_inner(p) {
                            Err(e) => Err(e),
                            Ok(k) => Ok((required, optional.push((name@, k)))),
                        }
                    } else {
                        Ok((required.push(name@), optional))
                    },
                }
            },
        }
    }
}

proof fn lemma_split_params_err(params: Seq<ParamModel>, i: int)
    requires
        0 <= i <= params.len(),
        split_params(params.take(i)) is Err,
    ensures
        split_params(params) == split_params(params.take(i)),
    decreases params.len() - i,
{
    if i < params.len() {
        assert(params.take(i + 1).drop_last() == params.take(i));
        lemma_split_params_err(params, i + 1);
    } else {
        assert(params.take(i) == params);
    }
}

/// What the named-argument macro of a `*_device` function is made of: the
/// macro's name, its arguments struct's name, the required parameters'
/// names, each optional parameter's name with the bound carrying its type,
/// and the macro's documentation.
#[derive(Debug)]
pub struct NamedMacroPlan {
    /// The macro's name: the function's name without `_device`.
    pub macro_name: String,
    /// The hidden struct that gathers the optional arguments.
    pub args_struct: String,
    /// The positional parameters, in order.
    pub required: Vec<String>,
    /// The optional parameters, in order, each with the position of the
    /// `Into<Option<T>>` bound whose `T` its field holds.
    pub optional: Vec<(String, usize)>,
    /// The macro's documentation.
    pub doc: String,
}

impl View for NamedMacroPlan {
    type V = (Seq<char>, Seq<char>, Seq<Seq<char>>, Seq<(Seq<char>, int)>, Seq<char>);

    open spec fn view(&self) -> Self::V {
        (
            self.macro_name@,
            self.args_struct@,
            self.required@.map_values(|r: String| r@),
            self.optional@.map_values(|o: (String, usize)| (o.0@, o.1 as int)),
            self.doc@,
        )
    }
}

/// What `#[generate_macro]` makes of a signature: the complaint, no macro
/// when no parameter is optional, or the macro's plan.
pub open spec fn named_macro_plan_spec(sig: FnSignatureModel) -> Result<
    Option<(Seq<char>, Seq<char>, Seq<Seq<char>>, Seq<(Seq<char>, int)>, Seq<char>)>,
    Seq<char>,
> {
    match device_base(sig.name@) {
        None => Err("#[generate_macro] requires a name ending in `_device`"@),
        Some(base) => if sig.has_receiver {
            Err("#[generate_macro] does not support methods"@)
        } else if sig.params@.len() == 0 {
            Err("expected a trailing `stream` parameter"@)
        } else {
            match split_params(sig.params@.drop_last()) {
                Err(e) => Err(e),
                Ok((required, optional)) => if optional.len() == 0 {
                    Ok(None)
                } else {
                    Ok(
                        Some(
                            (
                                base,
                                upper_camel_of(base) + "Args"@,
                                required,
                                optional,
                                macro_doc_text(
                                    base,
                                    optional.map_values(|o: (Seq<char>, int)| o.0),
                                ),
                            ),
                        ),
                    )
                },
            }
        },
    }
}

/// Plan the named-argument macro of a `*_device` function: positional
/// required arguments, `name = value` optional ones in any order. The last
/// parameter is the stream and takes no part.
///
/// # Errors
///
/// The name does not end in `_device`; the function is a method; it has no
/// parameters; a parameter before the stream is not a plain identifier; an
/// optional parameter's type is not `impl Into<Option<T>>`. Each with the
/// attribute's message; the first such parameter in order decides.
pub fn named_macro_plan(sig: &FnSignatureModel) -> (out: Result<Option<NamedMacroPlan>, String>)
    ensures
        match named_macro_plan_spec(*sig) {
            Err(e) => out is Err && out->Err_0@ == e,
            Ok(None) => out is Ok && out->Ok_0 is None,
            Ok(Some(plan)) => out is Ok && out->Ok_0 is Some && out->Ok_0->Some_0@ == plan,
        },
{
    let base = match macro_name(sig.name.as_str()) {
        Ok(base) => base,
        Err(e) => {
            return Err(e);
        },
    };
    if sig.has_receiver {
        return Err(string_of(&chars_of("#[generate_macro] does not support methods")));
    }
    if sig.params.len() == 0 {
        return Err(string_of(&chars_of("expected a trailing `stream` parameter")));
    }
    let n = sig.params.len() - 1;
    let ghost inputs = sig.params@.drop_last();
    let mut required: Vec<String> = Vec::new();
    let mut optional: Vec<(String, usize)> = Vec::new();
    let mut i: usize = 0;
    assert(inputs.take(0) == Seq::<ParamModel>::empty());
    assert(required@.map_values(|r: String| r@) =~= Seq::<Seq<char>>::empty());
    assert(optional@.map_values(|o: (String, usize)| (o.0@, o.1 as int)) =~= Seq::<
        (Seq<char>, int),
    >::empty());
    while i < n
        invariant
            n == inputs.len(),
            n + 1 == sig.params@.len(),
            device_base(sig.name@) == Some(base@),
            !sig.has_receiver,
            inputs == sig.params@.drop_last(),
            i <= n,
            split_params(inputs.take(i as int)) == Ok::<
                (Seq<Seq<char>>, Seq<(Seq<char>, int)>),
                Seq<char>,
            >(
                (
                    required@.map_values(|r: String| r@),
                    optional@.map_values(|o: (String, usize)| (o.0@, o.1 as int)),
                ),
            ),
        decreases n - i,
    {
        let p = &sig.params[i];
        assert(inputs[i as int] == *p);
        assert(inputs.take(i + 1).drop_last() == inputs.take(i as int));
        assert(inputs.take(i + 1).last() == *p);
        match &p.name {
            None => {
                proof {
                    assert(split_params(inputs.take(i + 1)) == Err::<
                        (Seq<Seq<char>>, Seq<(Seq<char>, int)>),
                        Seq<char>,
                    >(plain_identifier_message()));
                    lemma_split_params_err(inputs, i + 1);
                }
                return Err(plain_identifier_error());
            },
            Some(name) => {
                if p.optional {
                    let inner = match &p.impl_bounds {
                        None => Err(optional_type_error()),
                        Some(bounds) => option_inner_of(bounds),
                    };
                    match inner {
                        Err(e) => {
                            proof {
                                assert(param_inner(*p) == Err::<int, Seq<char>>(e@));
                                assert(split_params(inputs.take(i + 1)) == Err::<
                                    (Seq<Seq<char>>, Seq<(Seq<char>, int)>),
                                    Seq<char>,
                                >(e@));
                                lemma_split_params_err(inputs, i + 1);
                            }
                            return Err(e);
                        },
                        Ok(k) => {
                            let ghost before = optional@.map_values(|o: (String, usize)| (o.0@, o.1 as int));
                            optional.push((name.clone(), k));
                            assert(optional@.map_values(|o: (String, usize)| (o.0@, o.1 as int))
                                =~= before.push((name@, k as int)));
                        },
                    }
                } else {
                    let ghost before = required@.map_values(|r: String| r@);
                    required.push(name.clone());
                    assert(required@.map_values(|r: String| r@) =~= before.push(name@));
                }
            },
        }
        i = i + 1;
    }
    assert(inputs.take(n as int) == inputs);
    if optional.len() == 0 {
        return Ok(None);
    }
    let mut names: Vec<String> = Vec::new();
    let mut j: usize = 0;
    while j < optional.len()
        invariant
            j <= optional@.len(),
            names@.len() == j,
            forall|k: int| 0 <= k < j ==> #[trigger] names@[k]@ == optional@[k].0@,
        decreases optional@.len() - j,
    {
        names.push(optional[j].0.clone());
        j = j + 1;
    }
    let ghost opt_view = optional@.map_values(|o: (String, usize)| (o.0@, o.1 as int));
    assert(names@.map_values(|s: String| s@) =~= opt_view.map_values(|o: (Seq<char>, int)| o.0));
    let args_struct = args_struct_name(base.as_str());
    let doc = macro_doc(base.as_str(), &names);
    Ok(Some(NamedMacroPlan { macro_name: base, args_struct, required, optional, doc }))
}

/// Whether every parameter in `params` has a plain identifier for a name.
pub open spec fn all_named(params: Seq<ParamModel>) -> bool {
    forall|i: int| 0 <= i < params.len() ==> (#[trigger] params[i]).name is Some
}

/// The names of `params`, in order.
pub open spec fn param_names(params: Seq<ParamModel>) -> Seq<Seq<char>> {
    params.map_values(|p: ParamModel| p.name->Some_0@)
}

/// The positions of the attributes in `attrs` that carry over to the twin.
pub open spec fn forwarded_positions(attrs: Seq<Seq<char>>) -> Seq<int>
    decreases attrs.len(),
{
    if attrs.len() == 0 {
        Seq::empty()
    } else {
        forwarded_positions(attrs.drop_last()) + if forwarded(attrs.last()) {
            seq![attrs.len() - 1]
        } else {
            Seq::empty()
        }
    }
}

/// The stream a twin supplies to its `*_device` function.
#[derive(Copy, Clone, Debug, PartialEq, Eq, Structural)]
pub enum TwinStream {
    /// The default stream.
    Default,
    /// The default CPU stream, for ops MLX runs on the CPU only.
    DefaultCpu,
}

/// The stream that `#[default_device(args)]` asks for: the default CPU
/// stream when the argument is `cpu`, else the default stream.
pub open spec fn twin_stream_of(args: Seq<char>) -> TwinStream {
    if trimmed(args) == "cpu"@ {
        TwinStream::DefaultCpu
    } else {
        TwinStream::Default
    }
}

/// The stream a twin supplies, from the attribute's arguments as written
/// between its parentheses (empty when it has none).
pub fn twin_stream(args: &str) -> (stream: TwinStream)
    ensures
        stream == twin_stream_of(args@),
{
    if same_chars(&trim(&chars_of(args)), &chars_of("cpu")) {
        TwinStream::DefaultCpu
    } else {
        TwinStream::Default
    }
}

/// What the default-stream twin of a `*_device` function is made of.
#[derive(Debug)]
pub struct TwinPlan {
    /// The twin's name: the function's name without `_device`.
    pub name: String,
    /// Whether the twin calls the function as a method on `self`.
    pub calls_method: bool,
    /// The parameters the twin takes and passes on, in order: all but the
    /// stream.
    pub forwarded: Vec<String>,
    /// The positions of the function's attributes that the twin repeats.
    pub attrs: Vec<usize>,
    /// The stream the twin passes on.
    pub stream: TwinStream,
}

impl View for TwinPlan {
    type V = (Seq<char>, bool, Seq<Seq<char>>, Seq<int>, TwinStream);

    open spec fn view(&self) -> Self::V {
        (
            self.name@,
            self.calls_method,
            self.forwarded@.map_values(|f: String| f@),
            self.attrs@.map_values(|a: usize| a as int),
            self.stream,
        )
    }
}

/// What `#[default_device(args)]` makes of a signature: the complaint, or
/// the twin's plan.
pub open spec fn twin_plan_spec(sig: FnSignatureModel, args: Seq<char>) -> Result<
    (Seq<char>, bool, Seq<Seq<char>>, Seq<int>, TwinStream),
    Seq<char>,
> {
    match device_base(sig.name@) {
        None => Err("#[default_device] requires a name ending in `_device`"@),
        Some(base) => if sig.params@.len() == 0 {
            Err("#[default_device] requires a trailing `stream` parameter"@)
        } else {
            match sig.params@.last().name {
                None => Err(plain_identifier_message()),
                Some(stream) => if stream@ != "stream"@ {
                    Err("#[default_device] requires the last parameter to be named `stream`"@)
                } else if !all_named(sig.params@.drop_last()) {
                    Err(plain_identifier_message())
                } else {
                    Ok(
                        (
                            base,
                            sig.has_receiver,
                            param_names(sig.params@.drop_last()),
                            forwarded_positions(sig.attrs@.map_values(|a: String| a@)),
                            twin_stream_of(args),
                        ),
                    )
                },
            }
        },
    }
}

/// Plan the twin of a `*_device` function that supplies the default stream:
/// it drops `_device` from the name and the trailing `stream` parameter,
/// passes the other parameters on in order, calls through `self` when the
/// function is a method, repeats the attributes that must apply to it too,
/// and supplies the stream that the attribute's arguments `args` ask for.
///
/// # Errors
///
/// The name does not end in `_device`; there are no parameters; the last one
/// is not a plain identifier, or not named `stream`; another one is not a
/// plain identifier. Each with the attribute's message, in that order.
pub fn twin_plan(sig: &FnSignatureModel, args: &str) -> (out: Result<TwinPlan, String>)
    ensures
        match twin_plan_spec(*sig, args@) {
            Err(e) => out is Err && out->Err_0@ == e,
            Ok(plan) => out is Ok && out->Ok_0@ == plan,
        },
{
    let name = match twin_name(sig.name.as_str()) {
        Ok(name) => name,
        Err(e) => {
            return Err(e);
        },
    };
    let n = sig.params.len();
    if n == 0 {
        return Err(string_of(&chars_of("#[default_device] requires a trailing `stream` parameter")));
    }
    assert(sig.params@.last() == sig.params@[n - 1]);
    match &sig.params[n - 1].name {
        None => {
            return Err(plain_identifier_error());
        },
        Some(stream) => {
            if !same_chars(&chars_of(stream.as_str()), &chars_of("stream")) {
                return Err(
                    string_of(
                        &chars_of(
                            "#[default_device] requires the last parameter to be named `stream`",
                        ),
                    ),
                );
            }
        },
    }
    let ghost inputs = sig.params@.drop_last();
    let mut forwarded: Vec<String> = Vec::new();
    let mut i: usize = 0;
    while i < n - 1
        invariant
            n == sig.params@.len(),
            n >= 1,
            inputs == sig.params@.drop_last(),
            device_base(sig.name@) is Some,
            sig.params@.last().name is Some,
            sig.params@.last().name->Some_0@ == "stream"@,
            i <= n - 1,
            forwarded@.len() == i,
            forall|k: int| 0 <= k < i ==> (#[trigger] inputs[k]).name is Some,
            forall|k: int| 0 <= k < i ==> #[trigger] forwarded@[k]@ == inputs[k].name->Some_0@,
        decreases n - 1 - i,
    {
        assert(inputs[i as int] == sig.params@[i as int]);
        match &sig.params[i].name {
            None => {
                return Err(plain_identifier_error());
            },
            Some(param) => {
                forwarded.push(param.clone());
            },
        }
        i = i + 1;
    }
    assert(forwarded@.map_values(|f: String| f@) =~= param_names(inputs));
    let ghost attr_names = sig.attrs@.map_values(|a: String| a@);
    let mut attrs: Vec<usize> = Vec::new();
    let mut j: usize = 0;
    assert(attr_names.take(0) == Seq::<Seq<char>>::empty());
    assert(attrs@.map_values(|a: usize| a as int) =~= Seq::<int>::empty());
    while j < sig.attrs.len()
        invariant
            j <= sig.attrs@.len(),
            attr_names == sig.attrs@.map_values(|a: String| a@),
            attrs@.map_values(|a: usize| a as int) == forwarded_positions(attr_names.take(j as int)),
        decreases sig.attrs@.len() - j,
    {
        assert(attr_names.take(j + 1).drop_last() == attr_names.take(j as int));
        assert(attr_names.take(j + 1).last() == sig.attrs@[j as int]@);
        let ghost before = attrs@.map_values(|a: usize| a as int);
        if is_forwarded_attr(sig.attrs[j].as_str()) {
            attrs.push(j);
            assert(attrs@.map_values(|a: usize| a as int) =~= before.push(j as int));
        }
        j = j + 1;
    }
    assert(attr_names.take(sig.attrs@.len() as int) == attr_names);
    let stream = twin_stream(args);
    Ok(TwinPlan { name, calls_method: sig.has_receiver, forwarded, attrs, stream })
}

} // verus!
