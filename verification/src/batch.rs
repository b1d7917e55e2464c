//! Which instances of an instance buffer each pipeline draws.
use vstd::prelude::*;

verus! {

/// The half-open instance ranges drawn with the solid, textured and
/// wireframe pipelines. The instance buffer holds the solid instances, then
/// the textured ones, then the wireframe ones.
#[derive(Copy, Clone, Debug)]
pub struct InstanceRanges {
    pub solid: (u32, u32),
    pub textured: (u32, u32),
    pub wireframe: (u32, u32),
}

/// The instance ranges of a batch with `solid`, `textured` and `wireframe`
/// instances; the counts are taken as `u32`.
pub fn instance_ranges(solid: usize, textured: usize, wireframe: usize) -> (r: InstanceRanges)
    requires
        solid + textured <= usize::MAX,
        (solid as u32) + (textured as u32) <= u32::MAX,
        ((solid + textured) as u32) + (wireframe as u32) <= u32::MAX,
    ensures
        r.solid == (0u32, solid as u32),
        r.textured == (solid as u32, (solid as u32 + textured as u32) as u32),
        r.wireframe == (((solid + textured) as u32), (((solid + textured) as u32) + (wireframe as u32)) as u32),
{
    let solid_end = solid as u32;
    let textured_start = solid as u32;
    let textured_end = textured_start + textured as u32;
    let wireframe_start = (solid + textured) as u32;
    let wireframe_end = wireframe_start + wireframe as u32;
    InstanceRanges {
        solid: (0, solid_end),
        textured: (textured_start, textured_end),
        wireframe: (wireframe_start, wireframe_end),
    }
}

/// For counts that fit in `u32`, the three ranges sit end to end: each
/// starts where the previous one ends, and each is as long as its count.
pub proof fn lemma_ranges_adjacent(solid: usize, textured: usize, wireframe: usize)
    requires
        solid + textured + wireframe <= u32::MAX,
    ensures
        (solid as u32) as int == solid,
        ((solid + textured) as u32) as int == solid + textured,
        (solid as u32) + (textured as u32) == solid + textured,
        ((solid + textured) as u32) + (wireframe as u32) == solid + textured + wireframe,
{
}

} // verus!
