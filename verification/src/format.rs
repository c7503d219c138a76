use vstd::prelude::*;

verus! {

/// Quality parameter used when encoding to the full-quality WEBP target.
/// The codec accepts qualities in 0..=100; this is a configuration constant,
/// not a magic literal, and it must stay inside that range.
pub const WEBP_QUALITY: i32 = 100;

/// The closed set of output formats a caller may request. Each variant maps
/// to a canonical file extension and to its encode parameters; the two WEBP
/// variants differ in quality only.
#[derive(Copy, Clone, Debug, PartialEq, Eq, Structural)]
pub enum ImageTarget {
    Png,
    Jpeg,
    WebP,
    WebPLQ,
}

impl ImageTarget {
    /// The canonical file extension of this format, as the encoder expects it.
    pub open spec fn spec_ext(self) -> Seq<char> {
        match self {
            ImageTarget::Png => ".png"@,
            ImageTarget::Jpeg => ".jpg"@,
            ImageTarget::WebP => ".webp"@,
            ImageTarget::WebPLQ => ".webp"@,
        }
    }

    pub fn ext(&self) -> (e: &'static str)
        ensures
            e@ == self.spec_ext(),
    {
        match self {
            ImageTarget::Png => ".png",
            ImageTarget::Jpeg => ".jpg",
            ImageTarget::WebPLQ | ImageTarget::WebP => ".webp",
        }
    }

    /// How a caller-supplied format token parses: case-sensitive, with the
    /// `jpg`/`jpeg` alias pair, and every unrecognized token falling back to
    /// the low-quality WEBP variant. The fallback is a defined default, not
    /// an error.
    pub open spec fn spec_parse(s: Seq<char>) -> ImageTarget {
        if s == "png"@ {
            ImageTarget::Png
        } else if s == "jpg"@ || s == "jpeg"@ {
            ImageTarget::Jpeg
        } else if s == "webp"@ {
            ImageTarget::WebP
        } else {
            ImageTarget::WebPLQ
        }
    }

    pub fn parse_or_default(s: &str) -> (t: Self)
        ensures
            t == Self::spec_parse(s@),
    {
        if str_eq(s, "png") {
            ImageTarget::Png
        } else if str_eq(s, "jpg") || str_eq(s, "jpeg") {
            ImageTarget::Jpeg
        } else if str_eq(s, "webp") {
            ImageTarget::WebP
        } else {
            ImageTarget::WebPLQ
        }
    }

    /// The explicit quality parameter this format's encode call carries:
    /// only the full-quality WEBP target sets one, and it is always a valid
    /// quality in 0..=100. The other formats use the encoder's defaults.
    pub fn encode_quality(&self) -> (q: Option<i32>)
        ensures
            q == (if *self == ImageTarget::WebP {
                Some(WEBP_QUALITY)
            } else {
                None::<i32>
            }),
            q matches Some(v) ==> 0 <= v <= 100,
    {
        match self {
            ImageTarget::WebP => Some(WEBP_QUALITY),
            _ => None,
        }
    }
}

/// Character-wise string equality, proved against the string views.
fn str_eq(a: &str, b: &str) -> (r: bool)
    ensures
        r == (a@ == b@),
{
    let alen = a.unicode_len();
    let blen = b.unicode_len();
    if alen != blen {
        return false;
    }
    let mut i: usize = 0;
    while i < alen
        invariant
            i <= alen,
            alen == a@.len(),
            alen == b@.len(),
            forall|j: int| 0 <= j < i ==> a@[j] == b@[j],
        decreases alen - i,
    {
        if a.get_char(i) != b.get_char(i) {
            return false;
        }
        i = i + 1;
    }
    proof {
        assert(a@ =~= b@);
    }
    true
}

} // verus!
