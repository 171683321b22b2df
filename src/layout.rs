use vstd::prelude::*;

verus! {

/// Format of one vertex attribute.
#[derive(Debug, Clone, Copy, PartialEq, Eq)]
pub enum AttributeFormat {
    Float32x2,
    Float32x3,
    Float32x4,
}

impl AttributeFormat {
    /// Size in bytes of one value of the format.
    pub open spec fn spec_byte_size(self) -> nat {
        match self {
            AttributeFormat::Float32x2 => 8,
            AttributeFormat::Float32x3 => 12,
            AttributeFormat::Float32x4 => 16,
        }
    }

    pub fn byte_size(&self) -> (r: u64)
        ensures
            r == self.spec_byte_size(),
    {
        match self {
            AttributeFormat::Float32x2 => 8,
            AttributeFormat::Float32x3 => 12,
            AttributeFormat::Float32x4 => 16,
        }
    }
}

/// Whether a buffer advances per vertex or per instance.
#[derive(Debug, Clone, Copy, PartialEq, Eq)]
pub enum StepMode {
    Vertex,
    Instance,
}

/// One attribute of a vertex buffer: where it starts within an element,
/// the shader location it feeds, and its format.
#[derive(Debug, Clone, Copy, PartialEq, Eq)]
pub struct VertexAttribute {
    pub offset: u64,
    pub shader_location: u32,
    pub format: AttributeFormat,
}

/// How the elements of a vertex buffer are laid out.
pub struct VertexLayout {
    pub array_stride: u64,
    pub step_mode: StepMode,
    pub attributes: Vec<VertexAttribute>,
}

/// Byte offset of attribute `k` when the attributes `formats` are packed
/// one after the other without padding.
pub open spec fn packed_offset(formats: Seq<AttributeFormat>, k: nat) -> nat
    decreases k,
{
    if k == 0 {
        0
    } else {
        packed_offset(formats, (k - 1) as nat) + formats[k - 1].spec_byte_size()
    }
}

/// No attribute is larger than sixteen bytes.
proof fn lemma_packed_offset_bound(formats: Seq<AttributeFormat>, k: nat)
    ensures
        packed_offset(formats, k) <= 16 * k,
    decreases k,
{
    if k > 0 {
        lemma_packed_offset_bound(formats, (k - 1) as nat);
    }
}

impl VertexLayout {
    /// The layout of tightly packed attributes `formats`, fed to
    /// consecutive shader locations from `first_location` on.
    pub fn packed(formats: &Vec<AttributeFormat>, first_location: u32, step_mode: StepMode) -> (r: Self)
        requires
            first_location + formats.len() <= u32::MAX,
        ensures
            r.array_stride == packed_offset(formats@, formats.len() as nat),
            r.step_mode == step_mode,
            r.attributes.len() == formats.len(),
            forall|k: int|
                0 <= k < formats.len() ==> #[trigger] r.attributes[k] == (VertexAttribute {
                    offset: packed_offset(formats@, k as nat) as u64,
                    shader_location: (first_location + k) as u32,
                    format: formats[k],
                }),
    {
        let mut attributes: Vec<VertexAttribute> = Vec::new();
        let mut offset: u64 = 0;
        let mut k: usize = 0;
        while k < formats.len()
            invariant
                k <= formats.len(),
                first_location + formats.len() <= u32::MAX,
                offset == packed_offset(formats@, k as nat),
                attributes.len() == k,
                forall|i: int|
                    0 <= i < k ==> #[trigger] attributes[i] == (VertexAttribute {
                        offset: packed_offset(formats@, i as nat) as u64,
                        shader_location: (first_location + i) as u32,
                        format: formats[i],
                    }),
            decreases formats.len() - k,
        {
            proof {
                lemma_packed_offset_bound(formats@, (k + 1) as nat);
            }
            let format = formats[k];
            attributes.push(
                VertexAttribute { offset, shader_location: first_location + k as u32, format },
            );
            offset = offset + format.byte_size();
            k = k + 1;
        }
        VertexLayout { array_stride: offset, step_mode, attributes }
    }

    /// Layout of a mesh vertex: position, texture coordinate, normal,
    /// tangent and bitangent, at shader locations 0 to 4, stepping per
    /// vertex.
    pub fn mesh_vertex() -> (r: Self)
        ensures
            r.array_stride == 56,
            r.step_mode == StepMode::Vertex,
            r.attributes@ == seq![
                VertexAttribute { offset: 0, shader_location: 0, format: AttributeFormat::Float32x3 },
                VertexAttribute { offset: 12, shader_location: 1, format: AttributeFormat::Float32x2 },
                VertexAttribute { offset: 20, shader_location: 2, format: AttributeFormat::Float32x3 },
                VertexAttribute { offset: 32, shader_location: 3, format: AttributeFormat::Float32x3 },
                VertexAttribute { offset: 44, shader_location: 4, format: AttributeFormat::Float32x3 },
            ],
    {
        let formats: Vec<AttributeFormat> = vec![
            AttributeFormat::Float32x3,
            AttributeFormat::Float32x2,
            AttributeFormat::Float32x3,
            AttributeFormat::Float32x3,
            AttributeFormat::Float32x3,
        ];
        let r = VertexLayout::packed(&formats, 0, StepMode::Vertex);
        proof {
            reveal_with_fuel(packed_offset, 6);
            assert(r.attributes[0] == VertexAttribute { offset: 0, shader_location: 0, format: AttributeFormat::Float32x3 });
            assert(r.attributes[1] == VertexAttribute { offset: 12, shader_location: 1, format: AttributeFormat::Float32x2 });
            assert(r.attributes[2] == VertexAttribute { offset: 20, shader_location: 2, format: AttributeFormat::Float32x3 });
            assert(r.attributes[3] == VertexAttribute { offset: 32, shader_location: 3, format: AttributeFormat::Float32x3 });
            assert(r.attributes[4] == VertexAttribute { offset: 44, shader_location: 4, format: AttributeFormat::Float32x3 });
            assert(r.attributes@ =~= seq![
                VertexAttribute { offset: 0, shader_location: 0, format: AttributeFormat::Float32x3 },
                VertexAttribute { offset: 12, shader_location: 1, format: AttributeFormat::Float32x2 },
                VertexAttribute { offset: 20, shader_location: 2, format: AttributeFormat::Float32x3 },
                VertexAttribute { offset: 32, shader_location: 3, format: AttributeFormat::Float32x3 },
                VertexAttribute { offset: 44, shader_location: 4, format: AttributeFormat::Float32x3 },
            ]);
        }
        r
    }
}

} // verus!
