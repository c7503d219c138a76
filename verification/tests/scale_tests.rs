use imgpool::scale::{plan_transform, verify_and_adjust_scale, TransformPlan};

#[test]
fn aspect_preserving_scale_width_given() {
    // Source 800x600, requested width 400, height unspecified: the height
    // follows the source aspect ratio, floored.
    let mut tx: u32 = 400;
    let mut ty: u32 = 0;
    let scale = verify_and_adjust_scale(800, 600, &mut tx, &mut ty);
    assert!(scale);
    assert_eq!(tx, 400);
    assert_eq!(ty, 300);
}

#[test]
fn aspect_preserving_scale_height_given() {
    let mut tx: u32 = 0;
    let mut ty: u32 = 300;
    let scale = verify_and_adjust_scale(800, 600, &mut tx, &mut ty);
    assert!(scale);
    assert_eq!(tx, 400);
    assert_eq!(ty, 300);
}

#[test]
fn aspect_scale_floors_derived_dimension() {
    // 643 * 600 / 800 = 482.25 floors to 482.
    let mut tx: u32 = 643;
    let mut ty: u32 = 0;
    let scale = verify_and_adjust_scale(800, 600, &mut tx, &mut ty);
    assert!(scale);
    assert_eq!(ty, 482);
}

#[test]
fn upscale_rejected() {
    // Requested dimensions above the source are a no-scale signal, not an
    // error; the targets stay untouched.
    let mut tx: u32 = 800;
    let mut ty: u32 = 600;
    let scale = verify_and_adjust_scale(400, 300, &mut tx, &mut ty);
    assert!(!scale);
    assert_eq!(tx, 800);
    assert_eq!(ty, 600);
    assert_eq!(plan_transform(400, 300, 800, 600), TransformPlan::PassThrough);
}

#[test]
fn upscale_rejected_on_one_axis_alone() {
    let mut tx: u32 = 200;
    let mut ty: u32 = 601;
    assert!(!verify_and_adjust_scale(800, 600, &mut tx, &mut ty));
    let mut tx2: u32 = 801;
    let mut ty2: u32 = 200;
    assert!(!verify_and_adjust_scale(800, 600, &mut tx2, &mut ty2));
}

#[test]
fn ratio_mismatch_rejected() {
    // 800x600 is ratio 1.333; 400x400 is ratio 1.0; the difference is far
    // beyond the 0.01 tolerance, so the bytes pass through undistorted.
    let mut tx: u32 = 400;
    let mut ty: u32 = 400;
    let scale = verify_and_adjust_scale(800, 600, &mut tx, &mut ty);
    assert!(!scale);
    assert_eq!(tx, 400);
    assert_eq!(ty, 400);
    assert_eq!(plan_transform(800, 600, 400, 400), TransformPlan::PassThrough);
}

#[test]
fn ratio_match_within_tolerance_accepted() {
    // Exactly the source ratio: accepted, dimensions kept as requested.
    let mut tx: u32 = 400;
    let mut ty: u32 = 300;
    let scale = verify_and_adjust_scale(800, 600, &mut tx, &mut ty);
    assert!(scale);
    assert_eq!(tx, 400);
    assert_eq!(ty, 300);
}

#[test]
fn ratio_tolerance_boundary() {
    // |200/200 - 100/101| is just below 0.01: inside the tolerance.
    let mut tx: u32 = 100;
    let mut ty: u32 = 101;
    assert!(verify_and_adjust_scale(200, 200, &mut tx, &mut ty));
    // |200/200 - 100/102| is just under 0.02: outside.
    let mut tx2: u32 = 100;
    let mut ty2: u32 = 102;
    assert!(!verify_and_adjust_scale(200, 200, &mut tx2, &mut ty2));
}

#[test]
fn both_zero_scales_to_source_size() {
    let mut tx: u32 = 0;
    let mut ty: u32 = 0;
    let scale = verify_and_adjust_scale(800, 600, &mut tx, &mut ty);
    assert!(scale);
    assert_eq!(tx, 800);
    assert_eq!(ty, 600);
}

#[test]
fn plan_both_zero_passes_through_verbatim() {
    // The deliberate compatibility quirk: a zero/zero request returns the
    // source bytes untouched, even though a target format may have been
    // requested alongside.
    assert_eq!(plan_transform(800, 600, 0, 0), TransformPlan::PassThrough);
}

#[test]
fn plan_no_op_when_target_width_equals_source() {
    // Same width as the source: no resize call occurs; the decoded pixels
    // are encoded directly.
    assert_eq!(plan_transform(800, 600, 800, 0), TransformPlan::EncodeOnly);
    assert_eq!(plan_transform(800, 600, 800, 600), TransformPlan::EncodeOnly);
}

#[test]
fn plan_resizes_with_derived_height() {
    assert_eq!(
        plan_transform(800, 600, 400, 0),
        TransformPlan::Resize { width: 400, height: 300 }
    );
}

#[test]
fn plan_resizes_with_derived_width() {
    assert_eq!(
        plan_transform(800, 600, 0, 300),
        TransformPlan::Resize { width: 400, height: 300 }
    );
}

#[test]
fn plan_no_op_when_derived_width_equals_source() {
    // Height 600 against an 800x600 source derives width 800*600/600 = 800,
    // the source width itself: encode directly, no resize.
    assert_eq!(plan_transform(800, 600, 0, 600), TransformPlan::EncodeOnly);
}

#[test]
fn plan_resizes_when_both_given_and_ratio_matches() {
    assert_eq!(
        plan_transform(800, 600, 400, 300),
        TransformPlan::Resize { width: 400, height: 300 }
    );
}

#[test]
fn scale_decision_at_u32_extremes() {
    // The ratio test runs in wide arithmetic: the largest representable
    // square source against a half-size square request stays exact.
    let mut tx: u32 = u32::MAX / 2;
    let mut ty: u32 = u32::MAX / 2;
    let scale = verify_and_adjust_scale(u32::MAX, u32::MAX, &mut tx, &mut ty);
    assert!(scale);
    let mut tx2: u32 = 0;
    let mut ty2: u32 = u32::MAX;
    let scale2 = verify_and_adjust_scale(u32::MAX, u32::MAX, &mut tx2, &mut ty2);
    assert!(scale2);
    assert_eq!(tx2, u32::MAX);
}
