use vstd::prelude::*;

use crate::error::MeshError;
use crate::seam::TEX_ONE;

verus! {

/// Corner `k` of the quad as signs of its half extents: the position is
/// `(sx * width / 2, sy * height / 2, 0)`.
pub open spec fn quad_corner_signs() -> Seq<(i32, i32)> {
    seq![(-1i32, -1i32), (1i32, -1i32), (1i32, 1i32), (-1i32, 1i32)]
}

/// Fixed-point texture coordinate of each corner: the lower left corner
/// maps to (0, 0), the upper right one to (1, 1).
pub open spec fn quad_tex_coords() -> Seq<(u32, u32)> {
    seq![(0, 0), (TEX_ONE, 0), (TEX_ONE, TEX_ONE), (0, TEX_ONE)]
}

/// The two triangles of the quad.
pub open spec fn quad_triangles() -> Seq<u32> {
    seq![0, 1, 2, 2, 3, 0]
}

/// The quad's corners, their texture coordinates and its two triangles.
pub struct QuadLayout {
    pub corners: Vec<(i32, i32)>,
    pub tex_coords: Vec<(u32, u32)>,
    pub indices: Vec<u32>,
}

impl QuadLayout {
    /// The quad centred at the origin in the XY plane. `width_positive`
    /// and `height_positive` tell whether the requested extents are
    /// strictly positive; a quad with another extent is refused.
    pub fn build(width_positive: bool, height_positive: bool) -> (r: Result<QuadLayout, MeshError>)
        ensures
            !(width_positive && height_positive) ==> r == Err::<QuadLayout, MeshError>(
                MeshError::InvalidParameter,
            ),
            width_positive && height_positive ==> (r matches Ok(q) && q.corners@ == quad_corner_signs()
                && q.tex_coords@ == quad_tex_coords() && q.indices@ == quad_triangles()),
    {
        if !(width_positive && height_positive) {
            return Err(MeshError::InvalidParameter);
        }
        let corners: Vec<(i32, i32)> = vec![(-1, -1), (1, -1), (1, 1), (-1, 1)];
        let tex_coords: Vec<(u32, u32)> = vec![(0, 0), (TEX_ONE, 0), (TEX_ONE, TEX_ONE), (0, TEX_ONE)];
        let indices: Vec<u32> = vec![0, 1, 2, 2, 3, 0];
        assert(corners@ =~= quad_corner_signs());
        assert(tex_coords@ =~= quad_tex_coords());
        assert(indices@ =~= quad_triangles());
        Ok(QuadLayout { corners, tex_coords, indices })
    }
}

} // verus!
