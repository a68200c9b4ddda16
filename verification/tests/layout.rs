//! Shapes, strides and dtypes of host transfers.

use mlx::array::{
    check_host_read,
    check_element_dtype, check_upload, element_count, is_row_contiguous, require_row_contiguous,
};
use mlx::dtype::Dtype;
use mlx::Error;

#[test]
fn element_count_multiplies_the_axes() {
    assert_eq!(element_count(&[]).unwrap(), 1);
    assert_eq!(element_count(&[2, 3, 4]).unwrap(), 24);
    assert_eq!(element_count(&[5, 0, 7]).unwrap(), 0);
    assert_eq!(element_count(&[65536, 65536]).unwrap(), 4294967296);
}

#[test]
fn element_count_names_the_first_bad_axis() {
    let error = element_count(&[2, -3, -4]).unwrap_err();
    assert!(matches!(error, Error::Invalid(_)));
    assert_eq!(error.to_string(), "shape [2, -3, -4] has a negative dimension -3 at axis 1");

    let error = element_count(&[i32::MAX, i32::MAX, i32::MAX, -1]).unwrap_err();
    assert_eq!(
        error.to_string(),
        "shape [2147483647, 2147483647, 2147483647, -1] overflows usize at axis 2"
    );
    // An overflow is reported even when a later axis is zero.
    assert!(element_count(&[i32::MAX, i32::MAX, i32::MAX, 0]).is_err());
}

#[test]
fn upload_checks_shape_against_data() {
    assert_eq!(check_upload(&[2, 2], 4).unwrap(), 2);
    assert_eq!(check_upload(&[], 1).unwrap(), 0);
    assert_eq!(check_upload(&[0], 0).unwrap(), 1);
    assert_eq!(
        check_upload(&[2, 2], 3).unwrap_err().to_string(),
        "shape [2, 2] implies 4 elements but 3 were given"
    );
}

#[test]
fn row_contiguity_of_views() {
    // A fresh 8x8 array.
    assert!(is_row_contiguous(&[8, 8], &[8, 1]));
    // Every other row and column of it.
    assert!(!is_row_contiguous(&[4, 4], &[16, 2]));
    // A reversed line.
    assert!(!is_row_contiguous(&[16], &[-1]));
    // A contiguous tail with an offset.
    assert!(is_row_contiguous(&[8], &[1]));
    // Length-1 axes may have any stride.
    assert!(is_row_contiguous(&[1, 3, 1], &[99, 1, -7]));
    assert!(is_row_contiguous(&[], &[]));
    assert!(!is_row_contiguous(&[2, 2], &[2]));
    // A running product past i64 can only be matched by length-1 axes.
    assert!(is_row_contiguous(
        &[1, 65536, 65536, 65536, 65536],
        &[5, 281474976710656, 4294967296, 65536, 1]
    ));
    assert!(!is_row_contiguous(
        &[2, 65536, 65536, 65536, 65536],
        &[0, 281474976710656, 4294967296, 65536, 1]
    ));
}

#[test]
fn strided_views_are_refused_for_host_reads() {
    let error = require_row_contiguous(&[4, 4], &[16, 2]).unwrap_err().to_string();
    assert!(error.contains("not row-contiguous"), "{error}");
    assert_eq!(
        error,
        "array with shape [4, 4] and strides [16, 2] is not row-contiguous; call `contiguous()` before reading it on the host"
    );
    assert!(require_row_contiguous(&[8, 8], &[8, 1]).is_ok());
}

#[test]
fn host_reads_check_the_dtype() {
    let error = check_element_dtype(Dtype::Uint32, Dtype::Float32).unwrap_err().to_string();
    assert!(error.contains("dtype is Uint32"), "unexpected message: {error}");
    assert_eq!(error, "array dtype is Uint32 but Float32 was requested");
    assert!(check_element_dtype(Dtype::Bfloat16, Dtype::Bfloat16).is_ok());
}

#[test]
fn host_reads_look_at_the_element_count_first() {
    assert_eq!(check_host_read(0, &[0, 3], &[1, 7]).unwrap(), true);
    assert_eq!(check_host_read(6, &[2, 3], &[3, 1]).unwrap(), false);
    let refusal = check_host_read(6, &[2, 3], &[1, 2]).unwrap_err();
    assert_eq!(
        refusal.to_string(),
        "array with shape [2, 3] and strides [1, 2] is not row-contiguous; call `contiguous()` before reading it on the host"
    );
}
