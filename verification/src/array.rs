//! Shape and layout rules for arrays moved between the host and MLX.
use vstd::prelude::*;

use crate::dtype::Dtype;
use crate::error::Error;
use crate::text::{chars_of, decimal, decimal_i64, decimal_u64, signed_decimal, string_of};

verus! {

/// The product of `dims`.
pub open spec fn product(dims: Seq<int>) -> int
    decreases dims.len(),
{
    if dims.len() == 0 {
        1
    } else {
        product(dims.drop_last()) * dims.last()
    }
}

/// A shape's axis lengths as integers.
pub open spec fn ints_of_i32(s: Seq<i32>) -> Seq<int> {
    s.map_values(|x: i32| x as int)
}

/// A list of integers as `{:?}` prints it: `[1, -2, 3]`.
pub open spec fn debug_ints(s: Seq<int>) -> Seq<char> {
    "["@ + joined_ints(s) + "]"@
}

/// The integers of `s` printed in base ten and separated by `", "`.
pub open spec fn joined_ints(s: Seq<int>) -> Seq<char>
    decreases s.len(),
{
    if s.len() == 0 {
        Seq::empty()
    } else if s.len() == 1 {
        signed_decimal(s[0])
    } else {
        joined_ints(s.drop_last()) + ", "@ + signed_decimal(s.last())
    }
}

fn push_all(out: &mut Vec<char>, text: &str)
    ensures
        final(out)@ == old(out)@ + text@,
{
    let mut tail = chars_of(text);
    out.append(&mut tail);
}

/// `{:?}` of a list of `i64`.
pub fn debug_i64s(s: &[i64]) -> (out: Vec<char>)
    ensures
        out@ == debug_ints(s@.map_values(|x: i64| x as int)),
{
    let ghost ints = s@.map_values(|x: i64| x as int);
    let mut out: Vec<char> = Vec::new();
    let mut i: usize = 0;
    assert(ints.take(0) == Seq::<int>::empty());
    while i < s.len()
        invariant
            i <= s@.len(),
            ints == s@.map_values(|x: i64| x as int),
            out@ == joined_ints(ints.take(i as int)),
        decreases s@.len() - i,
    {
        assert(ints.take(i + 1).drop_last() == ints.take(i as int));
        if i > 0 {
            push_all(&mut out, ", ");
        }
        let mut digits = decimal_i64(s[i]);
        out.append(&mut digits);
        i = i + 1;
    }
    assert(ints.take(s@.len() as int) == ints);
    let mut result = chars_of("[");
    result.append(&mut out);
    push_all(&mut result, "]");
    result
}

/// `{:?}` of a shape.
pub fn debug_i32s(s: &[i32]) -> (out: Vec<char>)
    ensures
        out@ == debug_ints(ints_of_i32(s@)),
{
    let mut wide: Vec<i64> = Vec::new();
    let mut i: usize = 0;
    while i < s.len()
        invariant
            i <= s@.len(),
            wide@.len() == i,
            forall|j: int| 0 <= j < i ==> wide@[j] as int == s@[j] as int,
        decreases s@.len() - i,
    {
        wide.push(s[i] as i64);
        i = i + 1;
    }
    assert(wide@.map_values(|x: i64| x as int) =~= ints_of_i32(s@));
    debug_i64s(&wide)
}

/// Whether axis `axis` of `shape` passes `element_count`'s checks: its length is
/// not negative and the product up to and including it fits in a `usize`.
pub open spec fn axis_counts(shape: Seq<i32>, axis: int) -> bool {
    shape[axis] >= 0 && product(ints_of_i32(shape.take(axis + 1))) <= usize::MAX
}

/// The message for a negative axis length.
pub open spec fn negative_dimension_message(shape: Seq<i32>, axis: int) -> Seq<char> {
    "shape "@ + debug_ints(ints_of_i32(shape)) + " has a negative dimension "@ + signed_decimal(
        shape[axis] as int,
    ) + " at axis "@ + decimal(axis as nat)
}

/// The message for a shape whose element count overflows.
pub open spec fn overflow_message(shape: Seq<i32>, axis: int) -> Seq<char> {
    "shape "@ + debug_ints(ints_of_i32(shape)) + " overflows usize at axis "@ + decimal(axis as nat)
}

proof fn lemma_product_step(shape: Seq<i32>, i: int)
    requires
        0 <= i < shape.len(),
    ensures
        product(ints_of_i32(shape.take(i + 1))) == product(ints_of_i32(shape.take(i))) * shape[i],
{
    assert(ints_of_i32(shape.take(i + 1)).drop_last() == ints_of_i32(shape.take(i)));
}

/// Number of elements a shape describes, rejecting negative and overflowing
/// dimensions.
///
/// Axes are checked in order; the first that is negative, or at which the
/// running product leaves `usize`, is reported.
pub fn element_count(shape: &[i32]) -> (out: Result<usize, Error>)
    ensures
        match out {
            Ok(count) => (forall|a: int| 0 <= a < shape@.len() ==> axis_counts(shape@, a))
                && count == product(ints_of_i32(shape@)),
            Err(error) => exists|axis: int|
                0 <= axis < shape@.len() && (forall|a: int| 0 <= a < axis ==> axis_counts(shape@, a))
                    && !axis_counts(shape@, axis) && error.is_invalid_with(
                    if shape@[axis] < 0 {
                        negative_dimension_message(shape@, axis)
                    } else {
                        overflow_message(shape@, axis)
                    },
                ),
        },
{
    let mut total: usize = 1;
    let mut axis: usize = 0;
    assert(ints_of_i32(shape@.take(0)) == Seq::<int>::empty());
    while axis < shape.len()
        invariant
            axis <= shape@.len(),
            forall|a: int| 0 <= a < axis ==> axis_counts(shape@, a),
            total as int == product(ints_of_i32(shape@.take(axis as int))),
        decreases shape@.len() - axis,
    {
        let dim = shape[axis];
        proof { lemma_product_step(shape@, axis as int); }
        if dim < 0 {
            let mut message = chars_of("shape ");
            let mut listed = debug_i32s(shape);
            message.append(&mut listed);
            push_all(&mut message, " has a negative dimension ");
            let mut value = decimal_i64(dim as i64);
            message.append(&mut value);
            push_all(&mut message, " at axis ");
            let mut index = decimal_u64(axis as u64);
            message.append(&mut index);
            assert(!axis_counts(shape@, axis as int));
            return Err(Error::Invalid(string_of(&message)));
        }
        match total.checked_mul(dim as usize) {
            Some(next) => {
                total = next;
            },
            None => {
                let mut message = chars_of("shape ");
                let mut listed = debug_i32s(shape);
                message.append(&mut listed);
                push_all(&mut message, " overflows usize at axis ");
                let mut index = decimal_u64(axis as u64);
                message.append(&mut index);
                assert(!axis_counts(shape@, axis as int));
                return Err(Error::Invalid(string_of(&message)));
            },
        }
        axis = axis + 1;
    }
    assert(shape@.take(shape@.len() as int) == shape@);
    Ok(total)
}

/// Whether `element_count` accepts every axis of `shape`.
pub open spec fn all_axes_count(shape: Seq<i32>) -> bool {
    forall|a: int| 0 <= a < shape.len() ==> axis_counts(shape, a)
}

/// `error` is what `element_count` reports for `shape`: the first axis that is
/// negative or overflows, with its message.
pub open spec fn element_count_error(shape: Seq<i32>, error: Error) -> bool {
    exists|axis: int|
        0 <= axis < shape.len() && (forall|a: int| 0 <= a < axis ==> axis_counts(shape, a))
            && !axis_counts(shape, axis) && error.is_invalid_with(
            if shape[axis] < 0 {
                negative_dimension_message(shape, axis)
            } else {
                overflow_message(shape, axis)
            },
        )
}

/// The message for a shape with more axes than an `i32` counts.
pub open spec fn too_many_axes_message(axes: nat) -> Seq<char> {
    "shape has "@ + decimal(axes) + " axes"@
}

/// The message for data whose length disagrees with its shape.
pub open spec fn length_mismatch_message(shape: Seq<i32>, expected: nat, given: nat) -> Seq<char> {
    "shape "@ + debug_ints(ints_of_i32(shape)) + " implies "@ + decimal(expected) + " elements but "@
        + decimal(given) + " were given"@
}

/// Check that `data_len` elements can be uploaded with `shape`, returning the
/// axis count that MLX takes.
///
/// # Errors
///
/// In this order: more axes than an `i32` counts; a negative or overflowing
/// axis (see [`element_count`]); a shape whose element count is not `data_len`.
pub fn check_upload(shape: &[i32], data_len: usize) -> (out: Result<i32, Error>)
    ensures
        shape@.len() > i32::MAX ==> out is Err && out->Err_0.is_invalid_with(
            too_many_axes_message(shape@.len()),
        ),
        shape@.len() <= i32::MAX && !all_axes_count(shape@) ==> out is Err && element_count_error(
            shape@,
            out->Err_0,
        ),
        shape@.len() <= i32::MAX && all_axes_count(shape@) && product(ints_of_i32(shape@))
            != data_len ==> out is Err && out->Err_0.is_invalid_with(
            length_mismatch_message(shape@, product(ints_of_i32(shape@)) as nat, data_len as nat),
        ),
        shape@.len() <= i32::MAX && all_axes_count(shape@) && product(ints_of_i32(shape@))
            == data_len ==> out == Ok::<i32, Error>(shape@.len() as i32),
{
    if shape.len() > 2147483647 {
        let mut message = chars_of("shape has ");
        let mut count = decimal_u64(shape.len() as u64);
        message.append(&mut count);
        push_all(&mut message, " axes");
        return Err(Error::Invalid(string_of(&message)));
    }
    let ndim = shape.len() as i32;
    let expected = match element_count(shape) {
        Ok(count) => count,
        Err(error) => {
            return Err(error);
        },
    };
    if expected != data_len {
        let mut message = chars_of("shape ");
        let mut listed = debug_i32s(shape);
        message.append(&mut listed);
        push_all(&mut message, " implies ");
        let mut count = decimal_u64(expected as u64);
        message.append(&mut count);
        push_all(&mut message, " elements but ");
        let mut given = decimal_u64(data_len as u64);
        message.append(&mut given);
        push_all(&mut message, " were given");
        return Err(Error::Invalid(string_of(&message)));
    }
    Ok(ndim)
}

/// The product of the axis lengths from `from` on: the row-major stride that
/// axis `from - 1` must have.
pub open spec fn suffix_product(shape: Seq<i32>, from: int) -> int {
    product(ints_of_i32(shape.skip(from)))
}

/// Whether `strides` lay `shape` out contiguously in row-major order: one stride
/// per axis, and every axis longer or shorter than 1 strides over exactly the
/// elements of the axes after it.
pub open spec fn row_contiguous(shape: Seq<i32>, strides: Seq<i64>) -> bool {
    shape.len() == strides.len() && forall|i: int|
        0 <= i < shape.len() ==> #[trigger] shape[i] == 1 || strides[i] == suffix_product(shape, i + 1)
}

proof fn lemma_product_front(dims: Seq<int>)
    requires
        dims.len() > 0,
    ensures
        product(dims) == dims[0] * product(dims.drop_first()),
    decreases dims.len(),
{
    if dims.len() == 1 {
        assert(dims.drop_last() == Seq::<int>::empty());
        assert(dims.drop_first() == Seq::<int>::empty());
    } else {
        lemma_product_front(dims.drop_last());
        assert(dims.drop_last().drop_first() == dims.drop_first().drop_last());
        assert(product(dims) == product(dims.drop_last()) * dims.last());
        assert(product(dims.drop_first()) == product(dims.drop_first().drop_last()) * dims.last());
        assert(dims[0] * product(dims.drop_last().drop_first()) * dims.last() == dims[0] * (
        product(dims.drop_last().drop_first()) * dims.last())) by (nonlinear_arith);
    }
}

proof fn lemma_suffix_product_step(shape: Seq<i32>, i: int)
    requires
        0 <= i < shape.len(),
    ensures
        suffix_product(shape, i) == shape[i] * suffix_product(shape, i + 1),
        suffix_product(shape, shape.len() as int) == 1,
{
    lemma_product_front(ints_of_i32(shape.skip(i)));
    assert(ints_of_i32(shape.skip(i)).drop_first() == ints_of_i32(shape.skip(i + 1)));
    assert(ints_of_i32(shape.skip(shape.len() as int)) == Seq::<int>::empty());
}

/// Whether the elements are laid out contiguously in row-major order.
pub fn is_row_contiguous(shape: &[i32], strides: &[i64]) -> (b: bool)
    ensures
        b == row_contiguous(shape@, strides@),
{
    if shape.len() != strides.len() {
        return false;
    }
    // `None` once the running product has left the range of `i64`: no stride
    // can equal it then.
    let mut expected: Option<i64> = Some(1);
    let mut k: usize = shape.len();
    proof {
        assert(ints_of_i32(shape@.skip(shape@.len() as int)) == Seq::<int>::empty());
    }
    while k > 0
        invariant
            k <= shape@.len(),
            shape@.len() == strides@.len(),
            forall|i: int|
                k <= i < shape@.len() ==> #[trigger] shape@[i] == 1 || strides@[i] == suffix_product(
                    shape@,
                    i + 1,
                ),
            match expected {
                Some(e) => e as int == suffix_product(shape@, k as int),
                None => !(i64::MIN <= suffix_product(shape@, k as int) <= i64::MAX),
            },
        decreases k,
    {
        let axis_length = shape[k - 1];
        let stride = strides[k - 1];
        proof { lemma_suffix_product_step(shape@, k - 1); }
        match expected {
            Some(e) => {
                if stride != e && axis_length != 1 {
                    return false;
                }
                assert((e as int) * (axis_length as int) == (axis_length as int) * (e as int))
                    by (nonlinear_arith);
                expected = e.checked_mul(axis_length as i64);
                assert(suffix_product(shape@, k - 1) == (e as int) * (axis_length as int));
            },
            None => {
                if axis_length != 1 {
                    return false;
                }
                let ghost rest = suffix_product(shape@, k as int);
                assert(suffix_product(shape@, k - 1) == (axis_length as int) * rest);
                assert((axis_length as int) * rest == rest) by (nonlinear_arith)
                    requires axis_length == 1;
            },
        }
        k = k - 1;
    }
    true
}

/// The strides that a freshly laid out array has, each axis striding over the
/// elements of the axes after it, are row-contiguous.
pub proof fn lemma_row_major_strides_are_contiguous(shape: Seq<i32>, strides: Seq<i64>)
    requires
        shape.len() == strides.len(),
        forall|i: int| 0 <= i < shape.len() ==> #[trigger] strides[i] == suffix_product(shape, i + 1),
    ensures
        row_contiguous(shape, strides),
{
}

/// A one-axis view of more or less than one element is row-contiguous exactly
/// when its stride is 1: a strided or reversed slice must be made contiguous
/// before a host read.
pub proof fn lemma_one_axis_contiguous_iff_unit_stride(length: i32, stride: i64)
    requires
        length != 1,
    ensures
        row_contiguous(seq![length], seq![stride]) <==> stride == 1,
{
    lemma_suffix_product_step(seq![length], 0);
    assert(row_contiguous(seq![length], seq![stride]) ==> seq![stride][0] == suffix_product(seq![length], 1));
}

/// The message for a layout that cannot be read on the host as it stands.
pub open spec fn not_contiguous_message(shape: Seq<i32>, strides: Seq<i64>) -> Seq<char> {
    "array with shape "@ + debug_ints(ints_of_i32(shape)) + " and strides "@ + debug_ints(
        strides.map_values(|x: i64| x as int),
    ) + " is not row-contiguous; call `contiguous()` before reading it on the host"@
}

/// Refuse a layout that is not row-contiguous, naming it.
pub fn require_row_contiguous(shape: &[i32], strides: &[i64]) -> (out: Result<(), Error>)
    ensures
        out is Ok <==> row_contiguous(shape@, strides@),
        out is Err ==> out->Err_0.is_invalid_with(not_contiguous_message(shape@, strides@)),
{
    if is_row_contiguous(shape, strides) {
        return Ok(());
    }
    let mut message = chars_of("array with shape ");
    let mut listed = debug_i32s(shape);
    message.append(&mut listed);
    push_all(&mut message, " and strides ");
    let mut stride_list = debug_i64s(strides);
    message.append(&mut stride_list);
    push_all(&mut message, " is not row-contiguous; call `contiguous()` before reading it on the host");
    Err(Error::Invalid(string_of(&message)))
}

/// What reading an evaluated array of `element_count` elements on the host
/// comes to, the count looked at first: `Ok(true)` for an empty read, since
/// MLX gives a zero-size array no data pointer, whatever its strides;
/// `Ok(false)` when the data can be read in place; the refusal of a layout
/// that is not row-contiguous otherwise.
pub fn check_host_read(element_count: usize, shape: &[i32], strides: &[i64]) -> (out: Result<bool, Error>)
    ensures
        element_count == 0 ==> out is Ok && out->Ok_0,
        element_count != 0 && row_contiguous(shape@, strides@) ==> out is Ok && !out->Ok_0,
        element_count != 0 && !row_contiguous(shape@, strides@) ==> out is Err && out->Err_0.is_invalid_with(
            not_contiguous_message(shape@, strides@),
        ),
{
    if element_count == 0 {
        return Ok(true);
    }
    match require_row_contiguous(shape, strides) {
        Ok(()) => Ok(false),
        Err(error) => Err(error),
    }
}

/// The message for reading an array as a dtype it does not hold.
pub open spec fn dtype_mismatch_message(actual: Dtype, requested: Dtype) -> Seq<char> {
    "array dtype is "@ + actual.debug_name() + " but "@ + requested.debug_name() + " was requested"@
}

/// Refuse to read an array of dtype `actual` as `requested` elements.
pub fn check_element_dtype(actual: Dtype, requested: Dtype) -> (out: Result<(), Error>)
    ensures
        out is Ok <==> actual == requested,
        out is Err ==> out->Err_0.is_invalid_with(dtype_mismatch_message(actual, requested)),
{
    if actual == requested {
        return Ok(());
    }
    let mut message = chars_of("array dtype is ");
    push_all(&mut message, actual.name());
    push_all(&mut message, " but ");
    push_all(&mut message, requested.name());
    push_all(&mut message, " was requested");
    Err(Error::Invalid(string_of(&message)))
}

} // verus!
