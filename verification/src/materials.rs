//! What a surface does with a ray, as far as comparing scalars decides it.
//!
//! The arguments are scalars; the vectors behind them are the caller's.

use vstd::prelude::*;

use crate::scalar::{at_least, is_at_least, is_less, less, ZERO};

verus! {

/// The way of a ray through the surface of a dielectric.
#[derive(Clone, Copy, Debug, PartialEq, Eq, Structural)]
pub enum Passage {
    /// From outside into the material: the normal is kept, and the ratio of
    /// the refractive indices is the inverse of the material's index.
    Entering,
    /// From the material to the outside: the normal is flipped against the
    /// ray, and the ratio is the material's index.
    Leaving,
}

/// What a dielectric does with a ray.
#[derive(Clone, Copy, Debug, PartialEq, Eq, Structural)]
pub enum Turn {
    Refract,
    Reflect,
}

/// A metal scatters a ray exactly if the reflected and perturbed direction
/// points away from the surface: if `facing`, the dot product of that
/// direction with the normal, is more than zero. Otherwise the ray is
/// absorbed.
pub fn metal_scatters(facing: u32) -> (scatters: bool)
    ensures
        scatters == is_less(ZERO, facing),
{
    less(ZERO, facing)
}

/// Tells whether a ray enters or leaves a dielectric. `facing` is the dot
/// product of the direction of the ray with the normal: a ray that runs
/// with the normal leaves.
pub fn passage(facing: u32) -> (way: Passage)
    ensures
        way == if is_less(ZERO, facing) {
            Passage::Leaving
        } else {
            Passage::Entering
        },
{
    if less(ZERO, facing) {
        Passage::Leaving
    } else {
        Passage::Entering
    }
}

/// Decides between refraction and reflection. Where `discriminant`, that of
/// the refraction equation, is negative, all light is reflected. Otherwise
/// `draw`, a number drawn uniformly from the unit interval, is held against
/// `reflectance`, the share of light that is reflected: the ray is
/// reflected where the draw falls below that share. Where one of the three
/// is not a number the ray is reflected.
pub fn dielectric_turn(discriminant: u32, draw: u32, reflectance: u32) -> (turn: Turn)
    ensures
        turn == if is_at_least(discriminant, ZERO) && is_at_least(draw, reflectance) {
            Turn::Refract
        } else {
            Turn::Reflect
        },
{
    if at_least(discriminant, ZERO) && at_least(draw, reflectance) {
        Turn::Refract
    } else {
        Turn::Reflect
    }
}

} // verus!
