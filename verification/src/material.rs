//! What a surface does with a ray that hits it.
//!
//! There are three materials. A Lambertian surface scatters every ray. A metal
//! mirrors the ray, roughly, and swallows it where the mirrored ray would run
//! into the surface. A dielectric sends every ray on: it reflects the ray where
//! refraction is impossible or where the reflectance of the surface wins over a
//! random draw, and refracts it otherwise.
//!
//! The caller calculates directions, angles and the reflectance and hands over
//! the numbers that the decisions rest on, each by its bits.

use vstd::prelude::*;
use crate::bits::{
    at_most_one, below, below_zero, is_number, spec_at_most_one, spec_below, spec_below_zero, ONE,
};
use crate::integrator::Bounce;

verus! {

/// The material of a surface.
#[derive(Clone, Copy, Debug, PartialEq, Eq, Structural)]
pub enum Surface {
    /// A matte surface.
    Lambertian,
    /// A mirror, polished or rough.
    Metal,
    /// Glass and the like.
    Dielectric,
}

/// The way a dielectric sends a ray on.
#[derive(Clone, Copy, Debug, PartialEq, Eq, Structural)]
pub enum Turn {
    /// The ray is mirrored at the surface.
    Reflect,
    /// The ray passes through the surface and is bent.
    Refract,
}

/// What a hit on `surface` does to the path. `alignment` is the dot product of
/// the direction in which the material sends the ray on and the surface normal;
/// only a metal asks for it, and scatters where it is above zero.
pub open spec fn spec_scatter_outcome(surface: Surface, alignment: u32) -> Bounce {
    match surface {
        Surface::Lambertian => Bounce::Scattered,
        Surface::Metal => if spec_below(0, alignment) {
            Bounce::Scattered
        } else {
            Bounce::Absorbed
        },
        Surface::Dielectric => Bounce::Scattered,
    }
}

/// The roughness that a metal is made with, held between zero and one: zero
/// where the roughness asked for is a number below zero, the roughness asked
/// for where it lies from zero up to one, and one otherwise, also for NaN.
pub open spec fn spec_clamp_fuzz(fuzz: u32) -> u32 {
    if spec_below_zero(fuzz) {
        0
    } else {
        spec_at_most_one(fuzz)
    }
}

/// Whether refraction is impossible. `product` is the refraction ratio times
/// the sine of the angle of incidence; refraction is impossible where it is
/// above one.
pub open spec fn spec_total_internal_reflection(product: u32) -> bool {
    spec_below(ONE, product)
}

/// Whether the reflectance of a surface wins over a random draw: it does where
/// it is above the draw.
pub open spec fn spec_reflectance_wins(reflectance: u32, draw: u32) -> bool {
    spec_below(draw, reflectance)
}

/// The way a dielectric sends a ray on: it reflects where refraction is
/// impossible, whatever the draw, and where the reflectance wins; it refracts
/// otherwise.
pub open spec fn spec_dielectric_turn(total_internal_reflection: bool, reflectance_wins: bool) -> Turn {
    if total_internal_reflection || reflectance_wins {
        Turn::Reflect
    } else {
        Turn::Refract
    }
}

/// What a hit on `surface` does to the path: a Lambertian surface and a
/// dielectric always scatter, a metal scatters where the ray it sends on
/// leaves the surface and absorbs the ray otherwise. `alignment` holds the bits
/// of the dot product of the new direction and the surface normal.
pub fn scatter_outcome(surface: Surface, alignment: u32) -> (bounce: Bounce)
    ensures
        bounce == spec_scatter_outcome(surface, alignment),
        bounce != Bounce::Miss,
        surface != Surface::Metal ==> bounce == Bounce::Scattered,
{
    match surface {
        Surface::Lambertian => Bounce::Scattered,
        Surface::Metal => {
            if below(0, alignment) {
                Bounce::Scattered
            } else {
                Bounce::Absorbed
            }
        },
        Surface::Dielectric => Bounce::Scattered,
    }
}

/// The roughness that a metal is made with, from the bits of the roughness
/// asked for: a number that is neither below zero nor above one.
#[verifier::when_used_as_spec(spec_clamp_fuzz)]
pub fn clamp_fuzz(fuzz: u32) -> (held: u32)
    ensures
        held == spec_clamp_fuzz(fuzz),
        is_number(held),
        !spec_below_zero(held),
        !spec_below(ONE, held),
{
    if below_zero(fuzz) {
        0
    } else {
        at_most_one(fuzz)
    }
}

/// Whether refraction is impossible, from the bits of the refraction ratio
/// times the sine of the angle of incidence.
#[verifier::when_used_as_spec(spec_total_internal_reflection)]
pub fn total_internal_reflection(product: u32) -> (total: bool)
    ensures
        total == spec_total_internal_reflection(product),
{
    below(ONE, product)
}

/// Whether the reflectance of a surface wins over a random draw, from the bits
/// of both.
#[verifier::when_used_as_spec(spec_reflectance_wins)]
pub fn reflectance_wins(reflectance: u32, draw: u32) -> (wins: bool)
    ensures
        wins == spec_reflectance_wins(reflectance, draw),
{
    below(draw, reflectance)
}

/// The way a dielectric sends a ray on. Under total internal reflection the
/// ray is reflected and `reflectance_wins` is not looked at, so that a caller
/// need not draw for it.
pub fn dielectric_turn(total_internal_reflection: bool, reflectance_wins: bool) -> (turn: Turn)
    ensures
        turn == spec_dielectric_turn(total_internal_reflection, reflectance_wins),
        total_internal_reflection ==> turn == Turn::Reflect,
{
    if total_internal_reflection {
        Turn::Reflect
    } else if reflectance_wins {
        Turn::Reflect
    } else {
        Turn::Refract
    }
}

/// Under total internal reflection a dielectric reflects: where the refraction
/// ratio times the sine of the angle of incidence is above one, the ray is
/// mirrored and never refracted, whatever the reflectance and the draw.
pub proof fn lemma_total_internal_reflection_reflects(product: u32, reflectance: u32, draw: u32)
    requires
        spec_below(ONE, product),
    ensures
        spec_dielectric_turn(
            spec_total_internal_reflection(product),
            spec_reflectance_wins(reflectance, draw),
        ) == Turn::Reflect,
{
}

/// Where refraction is possible the draw decides: the ray is reflected exactly
/// where the reflectance is above the draw.
pub proof fn lemma_draw_decides(product: u32, reflectance: u32, draw: u32)
    requires
        !spec_below(ONE, product),
    ensures
        spec_dielectric_turn(
            spec_total_internal_reflection(product),
            spec_reflectance_wins(reflectance, draw),
        ) == Turn::Reflect <==> spec_below(draw, reflectance),
{
}

} // verus!
