use vstd::arithmetic::div_mod::{lemma_div_is_ordered, lemma_div_multiples_vanish};
use vstd::arithmetic::mul::{lemma_mul_inequality, lemma_mul_upper_bound};
use vstd::prelude::*;

verus! {

/// The requested width:height ratio matches the source ratio within an
/// absolute tolerance of 1/100 on the ratio value. Cleared of divisions:
/// |ox/oy - tx/ty| <= 1/100 is, for positive oy and ty, the same as
/// 100 * |ox*ty - tx*oy| <= oy*ty.
pub open spec fn ratio_within_tolerance(ox: int, oy: int, tx: int, ty: int) -> bool {
    100 * vstd::math::abs(ox * ty - tx * oy) <= oy * ty
}

/// The width derived from a requested height by the source aspect ratio,
/// floored to an integer.
pub open spec fn derived_width(ox: int, oy: int, ty: int) -> int {
    ty * ox / oy
}

/// The height derived from a requested width by the source aspect ratio,
/// floored to an integer.
pub open spec fn derived_height(ox: int, oy: int, tx: int) -> int {
    tx * oy / ox
}

/// The complete scale decision on source dimensions `ox`x`oy` and requested
/// dimensions `tx`x`ty` (`0` meaning unspecified): whether to scale, and the
/// adjusted target width and height.
///
/// - Any upscale request is rejected: no scaling, dimensions untouched.
/// - Both unspecified: scale to the source dimensions themselves.
/// - One unspecified: derive it from the source aspect ratio, floored.
/// - Both given: scale exactly when the ratios agree within tolerance;
///   a mismatch is a no-scale signal, never a distortion and not an error.
pub open spec fn scale_outcome(ox: int, oy: int, tx: int, ty: int) -> (bool, int, int) {
    if tx > ox || ty > oy {
        (false, tx, ty)
    } else if tx == 0 && ty == 0 {
        (true, ox, oy)
    } else if tx == 0 {
        (true, derived_width(ox, oy, ty), ty)
    } else if ty == 0 {
        (true, tx, derived_height(ox, oy, tx))
    } else {
        (ratio_within_tolerance(ox, oy, tx, ty), tx, ty)
    }
}

/// Validates a scale request against the decoded source dimensions and
/// adjusts the unspecified target dimensions in place. Returns whether the
/// caller should scale at all; on `false` the targets are left untouched and
/// the source bytes pass through unchanged.
pub fn verify_and_adjust_scale(ox: u32, oy: u32, tx: &mut u32, ty: &mut u32) -> (scale: bool)
    ensures
        ({
            let (s, ntx, nty) = scale_outcome(
                ox as int,
                oy as int,
                *old(tx) as int,
                *old(ty) as int,
            );
            scale == s && *final(tx) == ntx && *final(ty) == nty
        }),
{
    if *tx > ox || *ty > oy {
        return false;
    }
    if *tx == 0 && *ty == 0 {
        *tx = ox;
        *ty = oy;
        return true;
    }
    if *tx == 0 {
        proof {
            lemma_mul_upper_bound(*ty as int, 0xffff_ffff, ox as int, 0xffff_ffff);
            lemma_mul_inequality(*ty as int, oy as int, ox as int);
            lemma_div_is_ordered((*ty as int) * (ox as int), (oy as int) * (ox as int), oy as int);
            lemma_div_multiples_vanish(ox as int, oy as int);
        }
        let nw = ((*ty as u64) * (ox as u64)) / (oy as u64);
        *tx = nw as u32;
        return true;
    }
    if *ty == 0 {
        proof {
            lemma_mul_upper_bound(*tx as int, 0xffff_ffff, oy as int, 0xffff_ffff);
            lemma_mul_inequality(*tx as int, ox as int, oy as int);
            lemma_div_is_ordered((*tx as int) * (oy as int), (ox as int) * (oy as int), ox as int);
            lemma_div_multiples_vanish(oy as int, ox as int);
        }
        let nh = ((*tx as u64) * (oy as u64)) / (ox as u64);
        *ty = nh as u32;
        return true;
    }
    proof {
        lemma_mul_upper_bound(ox as int, 0xffff_ffff, *ty as int, 0xffff_ffff);
        lemma_mul_upper_bound(*tx as int, 0xffff_ffff, oy as int, 0xffff_ffff);
        lemma_mul_upper_bound(oy as int, 0xffff_ffff, *ty as int, 0xffff_ffff);
    }
    let a = (ox as u64) * (*ty as u64);
    let b = (*tx as u64) * (oy as u64);
    let d: u64 = if a >= b {
        a - b
    } else {
        b - a
    };
    let lhs: u128 = 100u128 * (d as u128);
    let rhs: u128 = (oy as u128) * (*ty as u128);
    proof {
        assert(d as int == vstd::math::abs((ox as int) * (*ty as int) - (*tx as int) * (oy as int)));
    }
    lhs <= rhs
}

/// What the transform pipeline should do with one request, decided from the
/// decoded source dimensions alone.
#[derive(Copy, Clone, Debug, PartialEq, Eq, Structural)]
pub enum TransformPlan {
    /// Return the source bytes verbatim: no resize, no re-encode.
    PassThrough,
    /// Encode the already-decoded image at its source size, skipping the
    /// resize step entirely (the target width equals the source width).
    EncodeOnly,
    /// Resize to exactly this size, then encode.
    Resize { width: u32, height: u32 },
}

/// Decides the pipeline's path for a request: pass the source bytes through,
/// re-encode at source size, or resize to an adjusted target.
///
/// When both requested dimensions are zero the source bytes pass through
/// verbatim, even if a target format different from the source's was
/// requested; the requested format is silently ignored in that one case.
/// This quirk is kept deliberately for compatibility and is flagged here
/// rather than fixed.
pub fn plan_transform(source_w: u32, source_h: u32, target_w: u32, target_h: u32) -> (plan:
    TransformPlan)
    ensures
        target_w == 0 && target_h == 0 ==> plan == TransformPlan::PassThrough,
        !(target_w == 0 && target_h == 0) ==> ({
            let (s, ntx, nty) = scale_outcome(
                source_w as int,
                source_h as int,
                target_w as int,
                target_h as int,
            );
            &&& !s ==> plan == TransformPlan::PassThrough
            &&& s && ntx == source_w as int ==> plan == TransformPlan::EncodeOnly
            &&& s && ntx != source_w as int ==> plan == (TransformPlan::Resize {
                width: ntx as u32,
                height: nty as u32,
            }) && ntx == ntx as u32 as int && nty == nty as u32 as int
        }),
{
    if target_w == 0 && target_h == 0 {
        return TransformPlan::PassThrough;
    }
    let mut tx = target_w;
    let mut ty = target_h;
    if !verify_and_adjust_scale(source_w, source_h, &mut tx, &mut ty) {
        return TransformPlan::PassThrough;
    }
    if tx == source_w {
        return TransformPlan::EncodeOnly;
    }
    TransformPlan::Resize { width: tx, height: ty }
}

} // verus!
