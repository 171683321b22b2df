use vstd::prelude::*;

verus! {

/// The draw command that renders a mesh handle.
#[derive(Debug, Clone, Copy, PartialEq, Eq)]
pub enum DrawCall {
    /// Draw through the index buffer: indices `0..count`, base vertex 0.
    Indexed { count: u32, instance_start: u32, instance_end: u32 },
    /// Draw vertices `0..count` in buffer order.
    Sequential { count: u32, instance_start: u32, instance_end: u32 },
}

impl DrawCall {
    /// The call for a mesh handle with `num_elements` elements: indexed
    /// when the handle has an index buffer, sequential otherwise, over the
    /// instances `instance_start..instance_end`.
    pub fn for_mesh(has_index_buffer: bool, num_elements: u32, instance_start: u32, instance_end: u32) -> (r: DrawCall)
        ensures
            has_index_buffer ==> r == (DrawCall::Indexed { count: num_elements, instance_start, instance_end }),
            !has_index_buffer ==> r == (DrawCall::Sequential {
                count: num_elements,
                instance_start,
                instance_end,
            }),
    {
        if has_index_buffer {
            DrawCall::Indexed { count: num_elements, instance_start, instance_end }
        } else {
            DrawCall::Sequential { count: num_elements, instance_start, instance_end }
        }
    }

    /// The call that draws a single instance of the mesh.
    pub fn single(has_index_buffer: bool, num_elements: u32) -> (r: DrawCall)
        ensures
            r == DrawCall::for_mesh_spec(has_index_buffer, num_elements, 0, 1),
    {
        DrawCall::for_mesh(has_index_buffer, num_elements, 0, 1)
    }

    pub open spec fn for_mesh_spec(has_index_buffer: bool, num_elements: u32, instance_start: u32, instance_end: u32) -> DrawCall {
        if has_index_buffer {
            DrawCall::Indexed { count: num_elements, instance_start, instance_end }
        } else {
            DrawCall::Sequential { count: num_elements, instance_start, instance_end }
        }
    }
}

} // verus!
