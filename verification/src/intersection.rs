//! Selection of the closest hit among a ray's intersections.
//!
//! The geometry around this module resolves a ray against a surface
//! into a list of hits, each at some scale along the ray. This module
//! decides which hit counts: the one with the globally smallest scale
//! within the caller's bounds, not the first one found.
//!
//! A scale is carried here as an order-preserving 64-bit key rather
//! than as the numeric scale itself: all the selection reads of a scale
//! is its order. The renderer encodes an IEEE double scale as a key by
//! flipping its sign bit when the double is nonnegative and all of its
//! bits when it is negative; that encoding orders keys exactly as it
//! orders doubles, sends zero to [`SCALE_ZERO_KEY`] and positive
//! infinity to [`SCALE_INFINITY_KEY`], and sends the not-a-number
//! patterns above every bound, so they never qualify.

use vstd::prelude::*;

verus! {

/// The key of a zero scale under the renderer's scale encoding.
pub const SCALE_ZERO_KEY: u64 = 0x8000_0000_0000_0000;

/// The key of a positively infinite scale under the renderer's scale
/// encoding.
pub const SCALE_INFINITY_KEY: u64 = 0xFFF0_0000_0000_0000;

/// A hit of a ray against a surface, reduced to what hit selection
/// reads: the scale at which the ray meets the surface, as an
/// order-preserving key, and the index of the surface that produced
/// the hit in the scene's surface list.
#[derive(Clone, Copy, Debug, PartialEq, Eq, Structural)]
pub struct Intersection {
    /// The scale along the incident ray, as an order-preserving key.
    pub scale: u64,
    /// The index of the surface that the ray struck.
    pub surface: usize,
}

impl Intersection {
    pub fn new(scale: u64, surface: usize) -> (r: Intersection)
        ensures
            r == (Intersection { scale, surface }),
    {
        Intersection { scale, surface }
    }

    /// The hit at index `i` lies strictly between the two scale bounds.
    pub open spec fn in_range(hits: Seq<Intersection>, i: int, near_scale: u64, far_scale: u64) -> bool {
        &&& 0 <= i < hits.len()
        &&& near_scale < hits[i].scale < far_scale
    }

    /// The hit with the globally smallest scale among those strictly
    /// between `near_scale` and `far_scale`, as an index into `hits`;
    /// `None` when no hit lies between the bounds. The minimum is
    /// global over the whole list, not the first hit past `near_scale`;
    /// among hits of equal smallest scale the earliest wins.
    pub fn closest_bounded(hits: &Vec<Intersection>, near_scale: u64, far_scale: u64) -> (r: Option<usize>)
        ensures
            r is Some <==> exists|i: int| Self::in_range(hits@, i, near_scale, far_scale),
            r matches Some(c) ==> {
                &&& Self::in_range(hits@, c as int, near_scale, far_scale)
                &&& forall|j: int| Self::in_range(hits@, j, near_scale, far_scale)
                    ==> hits@[c as int].scale <= hits@[j].scale
                &&& forall|j: int| Self::in_range(hits@, j, near_scale, far_scale)
                    && hits@[j].scale == hits@[c as int].scale ==> c <= j
            },
    {
        let mut best: Option<usize> = None;
        let mut i: usize = 0;
        while i < hits.len()
            invariant
                i <= hits@.len(),
                best is None ==> forall|j: int| 0 <= j < i
                    ==> !Self::in_range(hits@, j, near_scale, far_scale),
                best matches Some(c) ==> {
                    &&& c < i
                    &&& Self::in_range(hits@, c as int, near_scale, far_scale)
                    &&& forall|j: int| 0 <= j < i && Self::in_range(hits@, j, near_scale, far_scale)
                        ==> hits@[c as int].scale <= hits@[j].scale
                    &&& forall|j: int| 0 <= j < i && Self::in_range(hits@, j, near_scale, far_scale)
                        && hits@[j].scale == hits@[c as int].scale ==> c <= j
                },
            decreases hits@.len() - i,
        {
            let scale = hits[i].scale;
            if near_scale < scale && scale < far_scale {
                match best {
                    None => { best = Some(i); }
                    Some(c) => {
                        if scale < hits[c].scale {
                            best = Some(i);
                        }
                    }
                }
            }
            i = i + 1;
        }
        best
    }

    /// The closest hit at a strictly positive, finite scale: the
    /// bounded search with the keys of zero and of infinity as its
    /// bounds.
    pub fn closest(hits: &Vec<Intersection>) -> (r: Option<usize>)
        ensures
            r is Some <==> exists|i: int| Self::in_range(hits@, i, SCALE_ZERO_KEY, SCALE_INFINITY_KEY),
            r matches Some(c) ==> {
                &&& Self::in_range(hits@, c as int, SCALE_ZERO_KEY, SCALE_INFINITY_KEY)
                &&& forall|j: int| Self::in_range(hits@, j, SCALE_ZERO_KEY, SCALE_INFINITY_KEY)
                    ==> hits@[c as int].scale <= hits@[j].scale
                &&& forall|j: int| Self::in_range(hits@, j, SCALE_ZERO_KEY, SCALE_INFINITY_KEY)
                    && hits@[j].scale == hits@[c as int].scale ==> c <= j
            },
    {
        Self::closest_bounded(hits, SCALE_ZERO_KEY, SCALE_INFINITY_KEY)
    }
}

/// A per-surface candidate at index `j` exists.
pub open spec fn has_candidate(candidates: Seq<Option<Intersection>>, j: int) -> bool {
    &&& 0 <= j < candidates.len()
    &&& candidates[j] is Some
}

/// The scene-wide nearest hit. Each entry of `candidates` is one
/// surface's own closest qualifying hit, or `None` where the ray
/// missed that surface; the result is the index of the entry with the
/// smallest scale, and `None` when the ray missed everything. Among
/// entries of equal smallest scale the last one wins, so a surface
/// later in the scene list shadows an equally distant earlier one.
pub fn nearest_candidate(candidates: &Vec<Option<Intersection>>) -> (r: Option<usize>)
    ensures
        r is Some <==> exists|j: int| has_candidate(candidates@, j),
        r matches Some(c) ==> {
            &&& has_candidate(candidates@, c as int)
            &&& forall|j: int| has_candidate(candidates@, j)
                ==> candidates@[c as int]->0.scale <= candidates@[j]->0.scale
            &&& forall|j: int| has_candidate(candidates@, j)
                && candidates@[j]->0.scale == candidates@[c as int]->0.scale ==> j <= c
        },
{
    let mut best: Option<usize> = None;
    let mut i: usize = 0;
    while i < candidates.len()
        invariant
            i <= candidates@.len(),
            best is None ==> forall|j: int| 0 <= j < i ==> !has_candidate(candidates@, j),
            best matches Some(c) ==> {
                &&& c < i
                &&& has_candidate(candidates@, c as int)
                &&& forall|j: int| 0 <= j < i && has_candidate(candidates@, j)
                    ==> candidates@[c as int]->0.scale <= candidates@[j]->0.scale
                &&& forall|j: int| 0 <= j < i && has_candidate(candidates@, j)
                    && candidates@[j]->0.scale == candidates@[c as int]->0.scale ==> j <= c
            },
        decreases candidates@.len() - i,
    {
        if let Some(hit) = candidates[i] {
            let better = match best {
                None => true,
                Some(c) => match candidates[c] {
                    Some(current) => hit.scale <= current.scale,
                    None => true,
                },
            };
            if better {
                best = Some(i);
            }
        }
        i = i + 1;
    }
    best
}

} // verus!
