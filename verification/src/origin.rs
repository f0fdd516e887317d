//! Where in the frame the ripple starts.
//!
//! A coordinate is a double-precision number of IEEE 754, held as its 64 bits: a sign, an exponent
//! of 11 bits and a fraction of 52 bits. The model of a coordinate is the real number that the
//! bits denote, counted in the smallest positive double, which is 2 to the power of -1074.
use vstd::arithmetic::power2::*;
use vstd::prelude::*;

verus! {

/// The point at which the ripple starts, each coordinate a fraction of the frame.
#[derive(Clone, Copy, Debug, PartialEq, Eq, Structural)]
pub struct RenderOrigin {
    /// The bits of the horizontal coordinate.
    pub x_bits: u64,
    /// The bits of the vertical coordinate.
    pub y_bits: u64,
}

/// Whether the sign bit is set.
pub open spec fn is_negative(bits: u64) -> bool {
    bits >= 0x8000_0000_0000_0000
}

/// The exponent, as it is stored.
pub open spec fn exponent(bits: u64) -> int {
    (bits as int / 0x10_0000_0000_0000) % 0x800
}

/// The fraction, as it is stored.
pub open spec fn fraction(bits: u64) -> int {
    bits as int % 0x10_0000_0000_0000
}

/// Whether the bits denote a number, not an infinity or a NaN.
pub open spec fn is_finite(bits: u64) -> bool {
    exponent(bits) != 0x7ff
}

/// The magnitude of the number, in the smallest positive double. A number with the exponent 0 is
/// subnormal; any other has a leading 1 before its fraction.
pub open spec fn magnitude(bits: u64) -> int {
    if exponent(bits) == 0 {
        fraction(bits)
    } else {
        (0x10_0000_0000_0000 + fraction(bits)) * pow2((exponent(bits) - 1) as nat)
    }
}

/// The number that finite bits denote, in the smallest positive double.
pub open spec fn number(bits: u64) -> int {
    if is_negative(bits) {
        -magnitude(bits)
    } else {
        magnitude(bits)
    }
}

/// The number one, in the smallest positive double.
pub open spec fn one() -> int {
    pow2(1074) as int
}

/// Whether the bits denote a number from zero to one.
pub open spec fn is_in_frame(bits: u64) -> bool {
    is_finite(bits) && 0 <= number(bits) <= one()
}

/// Whether `origin` is inside the frame or on its edge.
pub open spec fn is_origin_in_frame(origin: RenderOrigin) -> bool {
    is_in_frame(origin.x_bits) && is_in_frame(origin.y_bits)
}

/// The bits of one are the largest of a number that is neither negative nor above one.
proof fn lemma_in_frame(bits: u64)
    ensures
        is_in_frame(bits) <==> bits <= 0x3ff0_0000_0000_0000 || bits == 0x8000_0000_0000_0000,
{
    let e = exponent(bits);
    let f = fraction(bits);
    let top: int = bits as int / 0x10_0000_0000_0000;
    let significand: int = 0x10_0000_0000_0000 + f;
    assert(bits as int == top * 0x10_0000_0000_0000 + f);
    assert(top < 0x1000);
    assert(is_negative(bits) <==> top >= 0x800);
    assert(e == if top >= 0x800 {
        top - 0x800
    } else {
        top
    });
    assert(pow2(52) == 0x10_0000_0000_0000) by {
        lemma2_to64();
        lemma2_to64_rest();
    }
    lemma_pow2_adds(52, 1022);
    assert(one() == 0x10_0000_0000_0000 * pow2(1022));
    if e == 0 {
        lemma_pow2_pos(1022);
        assert(f <= one()) by (nonlinear_arith)
            requires
                0 <= f < 0x10_0000_0000_0000,
                one() == 0x10_0000_0000_0000 * pow2(1022),
                pow2(1022) > 0,
        ;
    } else {
        let scale = pow2((e - 1) as nat) as int;
        lemma_pow2_pos((e - 1) as nat);
        assert(significand * scale > 0) by (nonlinear_arith)
            requires
                significand > 0,
                scale > 0,
        ;
        if e < 1023 {
            lemma_pow2_strictly_increases((e - 1) as nat, 1022);
            lemma_pow2_unfold(e as nat);
            assert(pow2(e as nat) == 2 * scale);
            if e < 1022 {
                lemma_pow2_strictly_increases(e as nat, 1022);
            }
            assert(significand * scale <= 0x10_0000_0000_0000 * pow2(1022)) by (nonlinear_arith)
                requires
                    0 < significand < 2 * 0x10_0000_0000_0000,
                    0 < scale,
                    2 * scale <= pow2(1022),
            ;
        } else if e == 1023 {
            assert(significand * scale <= 0x10_0000_0000_0000 * scale <==> f == 0)
                by (nonlinear_arith)
                requires
                    significand == 0x10_0000_0000_0000 + f,
                    f >= 0,
                    scale > 0,
            ;
        } else {
            lemma_pow2_strictly_increases(1022, (e - 1) as nat);
            assert(significand * scale > 0x10_0000_0000_0000 * pow2(1022)) by (nonlinear_arith)
                requires
                    significand >= 0x10_0000_0000_0000,
                    scale > pow2(1022),
                    pow2(1022) >= 0,
            ;
        }
    }
}

fn check_in_frame(bits: u64) -> (answer: bool)
    ensures
        answer == is_in_frame(bits),
{
    proof {
        lemma_in_frame(bits);
    }
    bits <= 0x3ff0_0000_0000_0000 || bits == 0x8000_0000_0000_0000
}

/// Accepts an origin inside the frame or on its edge, and no other.
pub fn validate_render_origin(origin: RenderOrigin) -> (verdict: Result<RenderOrigin, String>)
    ensures
        match verdict {
            Ok(accepted) => accepted == origin && is_origin_in_frame(origin),
            Err(message) => !is_origin_in_frame(origin) && message@
                == "Choose a ripple origin inside the frame."@,
        },
        verdict matches Ok(accepted) ==> accepted.x_bits == origin.x_bits && accepted.y_bits
            == origin.y_bits,
{
    if !check_in_frame(origin.x_bits) || !check_in_frame(origin.y_bits) {
        return Err("Choose a ripple origin inside the frame.".to_owned());
    }
    Ok(origin)
}

/// A coordinate is in the frame exactly where its bits are at most those of one, or those of
/// negative zero. Up to the bits of one lie zero and every positive number that is not above one;
/// above them lie larger numbers, the infinity, the NaNs, and all that is negative.
pub proof fn frame_ends_at_one(bits: u64)
    ensures
        is_in_frame(bits) <==> bits <= 0x3ff0_0000_0000_0000 || bits == 0x8000_0000_0000_0000,
{
    lemma_in_frame(bits);
}

/// An origin is in the frame exactly where each of its two coordinates is.
pub proof fn origin_needs_both_coordinates(origin: RenderOrigin)
    ensures
        is_origin_in_frame(origin) <==> (origin.x_bits <= 0x3ff0_0000_0000_0000 || origin.x_bits
            == 0x8000_0000_0000_0000) && (origin.y_bits <= 0x3ff0_0000_0000_0000 || origin.y_bits
            == 0x8000_0000_0000_0000),
{
    lemma_in_frame(origin.x_bits);
    lemma_in_frame(origin.y_bits);
}

/// The two coordinates are treated alike: an origin with the coordinates exchanged is in the frame
/// where the origin is.
pub proof fn coordinates_are_treated_alike(origin: RenderOrigin)
    ensures
        is_origin_in_frame(RenderOrigin { x_bits: origin.y_bits, y_bits: origin.x_bits })
            == is_origin_in_frame(origin),
{
}

} // verus!
