//! Two tests on vectors whose components are single-precision numbers, given
//! by their bits.

use vstd::prelude::*;
use crate::bits::{below, magnitude, spec_below, ONE};

verus! {

/// The bits of the size below which a component counts as nothing: the
/// single-precision number nearest to one hundred-millionth.
pub const TINY: u32 = 0x322b_cc77;

/// Whether the vector with the three components is too short to give a
/// direction: each component is smaller in size than [`TINY`]. A component that
/// is NaN is not.
pub open spec fn spec_near_zero(x: u32, y: u32, z: u32) -> bool {
    magnitude(x) < TINY && magnitude(y) < TINY && magnitude(z) < TINY
}

/// Whether a vector of the given squared length lies inside the unit ball: the
/// squared length is a number below one.
pub open spec fn spec_in_unit_ball(length_squared: u32) -> bool {
    spec_below(length_squared, ONE)
}

/// The bits without the sign bit.
fn size_of(bits: u32) -> (size: u32)
    ensures
        size == magnitude(bits),
{
    if bits >= 0x8000_0000 {
        bits - 0x8000_0000
    } else {
        bits
    }
}

/// Whether the vector with the three components is too short to give a
/// direction.
#[verifier::when_used_as_spec(spec_near_zero)]
pub fn near_zero(x: u32, y: u32, z: u32) -> (tiny: bool)
    ensures
        tiny == spec_near_zero(x, y, z),
{
    size_of(x) < TINY && size_of(y) < TINY && size_of(z) < TINY
}

/// Whether a vector of the given squared length lies inside the unit ball. A
/// random point is drawn again until it does.
#[verifier::when_used_as_spec(spec_in_unit_ball)]
pub fn in_unit_ball(length_squared: u32) -> (inside: bool)
    ensures
        inside == spec_in_unit_ball(length_squared),
{
    below(length_squared, ONE)
}

} // verus!
