//! Closest-intersection search and the shadow test.
//!
//! A ray is represented by what the shapes of the scene report for it: one
//! entry per shape, in scene order. An entry is `None` where the shape
//! reports no intersection, and otherwise holds the shape's nearest
//! intersection with the ray. Shapes are identified by their position in
//! scene order: shapes at different positions are different shapes, whatever
//! they hold.

use vstd::prelude::*;
use crate::distance::{key_order_is_numeric_order, magnitude, HORIZON};

verus! {

/// What a shape reports when a ray strikes it: the point of intersection, in
/// whatever form the caller keeps points, and the key of the distance from
/// the ray's origin to that point.
#[derive(Debug, PartialEq)]
pub struct Intersection<P> {
    pub point: P,
    pub distance: u64,
}

/// The result of a search: the struck shape, by its position in the scene,
/// the point of intersection, and the distance from the ray's origin.
#[derive(Debug, PartialEq)]
pub struct RayHit<P> {
    pub shape: usize,
    pub intersection: P,
    pub distance: u64,
}

/// Shape `i` is struck: it is not the excluded shape, it reports an
/// intersection, and the distance of that intersection is below the horizon.
pub open spec fn struck<P>(
    candidates: Seq<Option<Intersection<P>>>,
    exclude: Option<usize>,
    i: int,
) -> bool {
    &&& 0 <= i < candidates.len()
    &&& !(exclude matches Some(e) && e == i)
    &&& candidates[i] matches Some(reported) && reported.distance < HORIZON
}

/// Shape `i` is the closest one: it is struck, every struck shape before it is
/// strictly farther, and no struck shape after it is nearer.
pub open spec fn closest<P>(
    candidates: Seq<Option<Intersection<P>>>,
    exclude: Option<usize>,
    i: int,
) -> bool {
    &&& struck(candidates, exclude, i)
    &&& forall|j: int|
        j < i && #[trigger] struck(candidates, exclude, j) ==> candidates[j]->0.distance
            > candidates[i]->0.distance
    &&& forall|j: int|
        i < j && #[trigger] struck(candidates, exclude, j) ==> candidates[j]->0.distance
            >= candidates[i]->0.distance
}

/// At most one shape is the closest.
pub proof fn closest_is_unique<P>(
    candidates: Seq<Option<Intersection<P>>>,
    exclude: Option<usize>,
    i: int,
    j: int,
)
    requires
        closest(candidates, exclude, i),
        closest(candidates, exclude, j),
    ensures
        i == j,
{
}

/// The closest shape is the nearest in numbers, not only in keys: a struck
/// shape before it lies at a strictly greater distance, and a struck shape
/// after it at no smaller one.
pub proof fn closest_is_nearest<P>(
    candidates: Seq<Option<Intersection<P>>>,
    exclude: Option<usize>,
    i: int,
    j: int,
)
    requires
        closest(candidates, exclude, i),
        struck(candidates, exclude, j),
    ensures
        j < i ==> magnitude(candidates[j]->0.distance) > magnitude(candidates[i]->0.distance),
        i < j ==> magnitude(candidates[j]->0.distance) >= magnitude(candidates[i]->0.distance),
{
    key_order_is_numeric_order(candidates[i]->0.distance, candidates[j]->0.distance);
    key_order_is_numeric_order(candidates[j]->0.distance, candidates[i]->0.distance);
}

/// Scans the shapes in scene order and returns the struck shape with the
/// smallest distance, together with what it reported. The comparison is
/// strict, so among shapes at the same distance the first one wins. The
/// excluded shape, if any, is skipped.
pub fn closest_intersection<P: Copy>(
    candidates: &Vec<Option<Intersection<P>>>,
    exclude: Option<usize>,
) -> (hit: Option<RayHit<P>>)
    ensures
        candidates@.len() == 0 ==> hit is None,
        match hit {
            None => forall|i: int| !struck(candidates@, exclude, i),
            Some(h) => {
                &&& closest(candidates@, exclude, h.shape as int)
                &&& candidates@[h.shape as int] == Some(
                    (Intersection { point: h.intersection, distance: h.distance }),
                )
            },
        },
{
    let mut result: Option<RayHit<P>> = None;
    let mut shortest_distance: u64 = HORIZON;
    let mut index: usize = 0;
    while index < candidates.len()
        invariant
            index <= candidates@.len(),
            match result {
                None => {
                    &&& shortest_distance == HORIZON
                    &&& forall|i: int| i < index ==> !#[trigger] struck(candidates@, exclude, i)
                },
                Some(h) => {
                    &&& h.shape < index
                    &&& h.distance == shortest_distance
                    &&& candidates@[h.shape as int] == Some(
                        (Intersection { point: h.intersection, distance: h.distance }),
                    )
                    &&& struck(candidates@, exclude, h.shape as int)
                    &&& forall|j: int|
                        j < h.shape && #[trigger] struck(candidates@, exclude, j)
                            ==> candidates@[j]->0.distance > h.distance
                    &&& forall|j: int|
                        h.shape < j < index && #[trigger] struck(candidates@, exclude, j)
                            ==> candidates@[j]->0.distance >= h.distance
                },
            },
        decreases candidates@.len() - index,
    {
        let skipped = match exclude {
            Some(this_shape) => this_shape == index,
            None => false,
        };
        if !skipped {
            if let Some(reported) = &candidates[index] {
                if shortest_distance > reported.distance {
                    shortest_distance = reported.distance;
                    result = Some(
                        RayHit {
                            shape: index,
                            intersection: reported.point,
                            distance: reported.distance,
                        },
                    );
                }
            }
        }
        index = index + 1;
    }
    result
}

/// The shadow test for a surface hit and a ray toward a light: the point is in
/// shadow exactly when the ray strikes some shape other than the hit's own.
/// How far the occluder lies is not asked, so a shape beyond the light casts
/// a shadow as well.
pub fn shadow<P: Copy>(ray_hit: &RayHit<P>, to_light: &Vec<Option<Intersection<P>>>) -> (occluded:
    bool)
    ensures
        occluded == exists|i: int| struck(to_light@, Some(ray_hit.shape), i),
{
    match closest_intersection(to_light, Some(ray_hit.shape)) {
        Some(shadow_hit) => {
            assert(struck(to_light@, Some(ray_hit.shape), shadow_hit.shape as int));
            true
        },
        None => false,
    }
}

} // verus!
