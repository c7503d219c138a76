use imgpool::error::{resolve_completion, Error, ImageError};

#[test]
fn closed_channel_becomes_delivery_failure() {
    // A completion channel that closed without a value must surface as the
    // explicit delivery-failure error, never hang or vanish.
    let r = resolve_completion(None);
    assert_eq!(r, Err(Error::OneshotReceiveError));
}

#[test]
fn delivered_success_passes_through() {
    let r = resolve_completion(Some(Ok(vec![1u8, 2, 3])));
    assert_eq!(r, Ok(vec![1u8, 2, 3]));
}

#[test]
fn delivered_transform_failure_passes_through() {
    let e = ImageError::ImageLoadingError("bad magic".to_string());
    let r = resolve_completion(Some(Err(e.clone())));
    assert_eq!(r, Err(Error::ImageError(e)));
}

#[test]
fn each_transform_failure_kind_is_distinguishable() {
    let kinds = vec![
        ImageError::ImageLoadingError("a".to_string()),
        ImageError::GeneralImageError("b".to_string()),
        ImageError::ImageCreationError("c".to_string()),
        ImageError::ImageResizingError("d".to_string()),
        ImageError::ImageEncodingError("e".to_string()),
    ];
    for (i, a) in kinds.iter().enumerate() {
        for (j, b) in kinds.iter().enumerate() {
            assert_eq!(a == b, i == j);
        }
    }
}

#[test]
fn transform_error_converts_into_top_level_error() {
    let e = ImageError::ImageEncodingError("no encoder".to_string());
    let top = Error::from(e.clone());
    assert_eq!(top, Error::ImageError(e));
}
