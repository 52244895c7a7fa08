//! Vertex indices of the triangles that bodies are drawn with.

use vstd::prelude::*;

verus! {

/// The `i`-th index of a triangle fan around vertex 0: triangle `t` joins the
/// centre with the rim vertices `t + 1` and `t + 2`.
pub open spec fn fan_index(i: int) -> int {
    if i % 3 == 0 {
        0
    } else if i % 3 == 1 {
        i / 3 + 1
    } else {
        i / 3 + 2
    }
}

/// Indices of a single triangle.
pub fn triangle_indices() -> (indices: Vec<i32>)
    ensures
        indices@ == seq![0i32, 1i32, 2i32],
{
    let mut indices: Vec<i32> = Vec::new();
    indices.push(0);
    indices.push(1);
    indices.push(2);
    indices
}

/// Indices of a fan of `segments` triangles around vertex 0, whose rim is the
/// vertices `1..=segments + 1`.
pub fn fan_indices(segments: usize) -> (indices: Vec<i32>)
    requires
        segments < i32::MAX,
    ensures
        indices@.len() == 3 * segments,
        forall|i: int| 0 <= i < indices@.len() ==> #[trigger] indices@[i] == fan_index(i),
{
    let mut indices: Vec<i32> = Vec::new();
    let mut segment: usize = 0;
    while segment < segments
        invariant
            segment <= segments < i32::MAX,
            indices@.len() == 3 * segment,
            forall|i: int| 0 <= i < indices@.len() ==> #[trigger] indices@[i] == fan_index(i),
        decreases segments - segment,
    {
        segment += 1;
        indices.push(0);
        indices.push(segment as i32);
        indices.push(segment as i32 + 1);
    }
    indices
}

/// Indices of `count` separate triangles laid out one after the other:
/// triangle `t` has the vertices `3 * t`, `3 * t + 1` and `3 * t + 2`.
pub fn triangle_list_indices(count: usize) -> (indices: Vec<i32>)
    requires
        3 * count <= i32::MAX,
    ensures
        indices@.len() == 3 * count,
        forall|i: int| 0 <= i < indices@.len() ==> #[trigger] indices@[i] == i,
{
    let mut indices: Vec<i32> = Vec::new();
    let mut i: usize = 0;
    while i < 3 * count
        invariant
            i <= 3 * count <= i32::MAX,
            indices@.len() == i,
            forall|j: int| 0 <= j < indices@.len() ==> #[trigger] indices@[j] == j,
        decreases 3 * count - i,
    {
        indices.push(i as i32);
        i += 1;
    }
    indices
}

} // verus!
