//! Index buffers of triangle meshes.
use vstd::prelude::*;
use vstd::arithmetic::div_mod::{lemma_fundamental_div_mod, lemma_fundamental_div_mod_converse};

verus! {

/// Which corner of a triangle edge slot `j` (0 to 5) of the line list takes:
/// the edges are corner 0 to 1, 1 to 2 and 2 to 0.
pub open spec fn edge_corner(j: int) -> int {
    if j == 0 {
        0
    } else if j == 1 || j == 2 {
        1
    } else if j == 3 || j == 4 {
        2
    } else {
        0
    }
}

/// The line list that outlines the triangles of a triangle list: each
/// complete triangle `(a, b, c)` gives the lines `a b`, `b c`, `c a`; a
/// trailing incomplete triangle is ignored.
pub open spec fn wireframe_of(indices: Seq<u16>) -> Seq<u16> {
    Seq::new(((indices.len() / 3) * 6) as nat, |k: int| indices[3 * (k / 6) + edge_corner(k % 6)])
}

/// The line-list indices that draw the edges of every triangle of a
/// triangle-list index buffer.
pub fn wireframe_indices(indices: &[u16]) -> (lines: Vec<u16>)
    ensures
        lines@ == wireframe_of(indices@),
{
    let len = indices.len();
    let triangles = len / 3;
    let mut line_indices: Vec<u16> = Vec::new();
    let mut t: usize = 0;
    while t < triangles
        invariant
            len == indices@.len(),
            triangles == len / 3,
            t <= triangles,
            line_indices@.len() == 6 * t,
            forall|k: int|
                0 <= k < 6 * t ==> #[trigger] line_indices@[k] == indices@[3 * (k / 6) + edge_corner(k % 6)],
        decreases triangles - t,
    {
        proof {
            lemma_fundamental_div_mod(indices@.len() as int, 3);
            assert(3 * t + 3 <= indices@.len());
        }
        let a = indices[3 * t];
        let b = indices[3 * t + 1];
        let c = indices[3 * t + 2];

        line_indices.push(a);
        line_indices.push(b);

        line_indices.push(b);
        line_indices.push(c);

        line_indices.push(c);
        line_indices.push(a);

        proof {
            assert forall|k: int| 6 * t <= k < 6 * t + 6 implies #[trigger] line_indices@[k] == indices@[3 * (k / 6)
                + edge_corner(k % 6)] by {
                lemma_fundamental_div_mod_converse(k, 6, t as int, k - 6 * t);
            }
        }
        t = t + 1;
    }
    assert(line_indices@ =~= wireframe_of(indices@));
    line_indices
}

/// Every triangle contributes three lines, and the lines of triangle `t`
/// join its corners in turn.
pub proof fn lemma_wireframe_edges(indices: Seq<u16>, t: int)
    requires
        0 <= t < indices.len() / 3,
    ensures
        wireframe_of(indices).len() == 2 * (3 * (indices.len() / 3)),
        wireframe_of(indices)[6 * t] == indices[3 * t],
        wireframe_of(indices)[6 * t + 1] == indices[3 * t + 1],
        wireframe_of(indices)[6 * t + 2] == indices[3 * t + 1],
        wireframe_of(indices)[6 * t + 3] == indices[3 * t + 2],
        wireframe_of(indices)[6 * t + 4] == indices[3 * t + 2],
        wireframe_of(indices)[6 * t + 5] == indices[3 * t],
{
    let w = wireframe_of(indices);
    lemma_fundamental_div_mod_converse(6 * t, 6, t, 0);
    lemma_fundamental_div_mod_converse(6 * t + 1, 6, t, 1);
    lemma_fundamental_div_mod_converse(6 * t + 2, 6, t, 2);
    lemma_fundamental_div_mod_converse(6 * t + 3, 6, t, 3);
    lemma_fundamental_div_mod_converse(6 * t + 4, 6, t, 4);
    lemma_fundamental_div_mod_converse(6 * t + 5, 6, t, 5);
}

} // verus!
