use vstd::prelude::*;
use vstd::arithmetic::div_mod::lemma_div_is_ordered;
use vstd::arithmetic::mul::lemma_mul_inequality;

verus! {

// Pixel measurements enter the library as integer micropixels: millionths
// of one reference pixel at the fixed reference resolution of 96 pixels
// per inch. 793.707 reference pixels are written 793_707_000.
//
// Both conversions truncate toward zero; this truncation is deliberate
// and load-bearing for output compatibility, so the contracts state the
// floor division exactly.

/// What `to_drawing_unit` returns: floor(px / 96 * 914400) where
/// `upx` is the pixel measurement in micropixels; 9525 is the number of
/// drawing units (the container format's high-resolution length unit,
/// 914400 per inch) in one reference pixel.
pub open spec fn spec_to_drawing_unit(upx: nat) -> nat {
    upx * 9525 / 1000000
}

/// What `to_page_unit` returns: floor(px / 96 * 72 * 20) where
/// `upx` is the pixel measurement in micropixels; 15 is the number of
/// page units (twentieths of a point, at 72 points per inch) in one
/// reference pixel.
pub open spec fn spec_to_page_unit(upx: nat) -> nat {
    upx * 15 / 1000000
}

/// Converts a pixel measurement (micropixels) into drawing units, used
/// for inline image extents. Pure and total: the same input always
/// yields the same output.
pub fn to_drawing_unit(upx: u64) -> (r: u64)
    ensures
        r == spec_to_drawing_unit(upx as nat),
{
    let wide: u128 = (upx as u128) * 9525 / 1000000;
    proof {
        lemma_mul_inequality(upx as int, u64::MAX as int, 9525);
        lemma_div_is_ordered((upx as int) * 9525, (u64::MAX as int) * 9525, 1000000);
        assert((u64::MAX as int) * 9525 / 1000000 < u64::MAX as int);
    }
    wide as u64
}

/// Converts a pixel measurement (micropixels) into page units, used for
/// the document-level page geometry. Pure and total: the same input
/// always yields the same output.
pub fn to_page_unit(upx: u64) -> (r: u64)
    ensures
        r == spec_to_page_unit(upx as nat),
{
    let wide: u128 = (upx as u128) * 15 / 1000000;
    proof {
        lemma_mul_inequality(upx as int, u64::MAX as int, 15);
        lemma_div_is_ordered((upx as int) * 15, (u64::MAX as int) * 15, 1000000);
        assert((u64::MAX as int) * 15 / 1000000 < u64::MAX as int);
    }
    wide as u64
}

/// A page's intrinsic size in micropixels (millionths of a reference
/// pixel), as read from the page's vector asset.
#[derive(Debug, Clone, Copy, PartialEq, Eq, Structural)]
pub struct PixelSize {
    /// Width in micropixels.
    pub width: u64,
    /// Height in micropixels.
    pub height: u64,
}

} // verus!
