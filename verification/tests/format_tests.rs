use imgpool::format::ImageTarget;

#[test]
fn parse_known_tokens() {
    assert_eq!(ImageTarget::parse_or_default("png"), ImageTarget::Png);
    assert_eq!(ImageTarget::parse_or_default("jpg"), ImageTarget::Jpeg);
    assert_eq!(ImageTarget::parse_or_default("jpeg"), ImageTarget::Jpeg);
    assert_eq!(ImageTarget::parse_or_default("webp"), ImageTarget::WebP);
}

#[test]
fn parse_fallback_is_low_quality_webp() {
    // Any unrecognized token falls back to the low-quality WEBP variant;
    // parsing never errors.
    assert_eq!(ImageTarget::parse_or_default("bmp"), ImageTarget::WebPLQ);
    assert_eq!(ImageTarget::parse_or_default(""), ImageTarget::WebPLQ);
    assert_eq!(ImageTarget::parse_or_default("gif"), ImageTarget::WebPLQ);
    assert_eq!(ImageTarget::parse_or_default("pngg"), ImageTarget::WebPLQ);
}

#[test]
fn parse_is_case_sensitive() {
    assert_eq!(ImageTarget::parse_or_default("PNG"), ImageTarget::WebPLQ);
    assert_eq!(ImageTarget::parse_or_default("Jpeg"), ImageTarget::WebPLQ);
}

#[test]
fn extensions() {
    assert_eq!(ImageTarget::Png.ext(), ".png");
    assert_eq!(ImageTarget::Jpeg.ext(), ".jpg");
    assert_eq!(ImageTarget::WebP.ext(), ".webp");
    assert_eq!(ImageTarget::WebPLQ.ext(), ".webp");
}

#[test]
fn webp_quality_parameter_in_valid_range() {
    // Only the full-quality WEBP target carries an explicit quality, and it
    // lies in the codec's valid 0..=100 range.
    let q = ImageTarget::WebP.encode_quality();
    assert_eq!(q, Some(100));
    assert!(q.unwrap() <= 100);
    assert_eq!(ImageTarget::WebPLQ.encode_quality(), None);
    assert_eq!(ImageTarget::Png.encode_quality(), None);
    assert_eq!(ImageTarget::Jpeg.encode_quality(), None);
}
