//! Local illumination: which light determines the colour of a surface point.
//!
//! The colour of a hit starts as the ambient term alone. The lights are then
//! visited in scene order. A light that is in shadow, or that lies behind the
//! surface, leaves the colour as it is. Any other light replaces the colour by
//! the sum of its specular term, its diffuse term and the ambient term. The
//! contributions are not added up: the last light that contributes decides.

use vstd::prelude::*;
use crate::intersection::{shadow, struck, Intersection, RayHit};

verus! {

/// What the caller found out about one light for one surface hit.
#[derive(Debug, PartialEq)]
pub struct LightProbe<P> {
    /// What the shapes of the scene report for the ray from the hit point
    /// toward the light, one entry per shape, in scene order.
    pub to_light: Vec<Option<Intersection<P>>>,
    /// Whether the light is on the illuminated side of the surface: the dot
    /// product of the direction toward the light and the surface normal is
    /// greater than zero.
    pub facing: bool,
}

/// How a surface hit is lit.
#[derive(Clone, Copy, Debug, PartialEq, Eq, Structural)]
pub enum Illumination {
    /// No light contributes: the colour is the ambient term alone.
    Ambient,
    /// The colour is the specular, diffuse and ambient terms of this light,
    /// given by its position in the scene.
    Lit { light: usize },
}

/// A light contributes to the colour of a hit when no shape other than the
/// hit's own is struck on the way to it, and it faces the surface.
pub open spec fn contributes<P>(ray_hit: RayHit<P>, probe: LightProbe<P>) -> bool {
    &&& !(exists|i: int| struck(probe.to_light@, Some(ray_hit.shape), i))
    &&& probe.facing
}

/// Decides the illumination of a hit from one probe per light: the last light
/// that contributes, or the ambient term alone where none does.
pub fn light<P: Copy>(ray_hit: &RayHit<P>, probes: &Vec<LightProbe<P>>) -> (result: Illumination)
    ensures
        match result {
            Illumination::Ambient => forall|k: int|
                0 <= k < probes@.len() ==> !contributes(*ray_hit, #[trigger] probes@[k]),
            Illumination::Lit { light } => {
                &&& light < probes@.len()
                &&& contributes(*ray_hit, probes@[light as int])
                &&& forall|k: int|
                    light < k < probes@.len() ==> !contributes(*ray_hit, #[trigger] probes@[k])
            },
        },
{
    let mut result = Illumination::Ambient;
    let mut index: usize = 0;
    while index < probes.len()
        invariant
            index <= probes@.len(),
            match result {
                Illumination::Ambient => forall|k: int|
                    0 <= k < index ==> !contributes(*ray_hit, #[trigger] probes@[k]),
                Illumination::Lit { light } => {
                    &&& light < index
                    &&& contributes(*ray_hit, probes@[light as int])
                    &&& forall|k: int|
                        light < k < index ==> !contributes(*ray_hit, #[trigger] probes@[k])
                },
            },
        decreases probes@.len() - index,
    {
        let probe = &probes[index];
        if !shadow(ray_hit, &probe.to_light) && probe.facing {
            result = Illumination::Lit { light: index };
        }
        index = index + 1;
    }
    result
}

} // verus!
