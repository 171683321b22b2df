use vstd::prelude::*;

use crate::topology::indices_below;

verus! {

/// The vertices that `idx` names, slot by slot.
pub open spec fn gather<T>(vertices: Seq<T>, idx: Seq<u32>) -> Seq<T> {
    idx.map_values(|i: u32| vertices[i as int])
}

/// A mesh as its vertex list and its optional index list.
pub type MeshView<T> = (Seq<T>, Option<Seq<u32>>);

/// The mesh that packing `vertices` and `idx` yields: indexed, the two
/// lists as they are; unindexed, one vertex per index slot and no index
/// list.
pub open spec fn packed<T>(vertices: Seq<T>, idx: Seq<u32>, indexed: bool) -> MeshView<T> {
    if indexed {
        (vertices, Some(idx))
    } else {
        (gather(vertices, idx), None)
    }
}

/// The vertices in the order in which a draw call visits them.
pub open spec fn draw_order<T>(m: MeshView<T>) -> Seq<T> {
    match m.1 {
        Some(idx) => gather(m.0, idx),
        None => m.0,
    }
}

/// The element count of the draw call: the index count when there is an
/// index list, the vertex count otherwise.
pub open spec fn element_total<T>(m: MeshView<T>) -> nat {
    match m.1 {
        Some(idx) => idx.len(),
        None => m.0.len(),
    }
}

/// A generated mesh, ready for upload: its vertices and, when indexed,
/// its triangle list.
pub struct MeshData<T> {
    pub vertices: Vec<T>,
    pub indices: Option<Vec<u32>>,
}

impl<T> View for MeshData<T> {
    type V = MeshView<T>;

    open spec fn view(&self) -> MeshView<T> {
        (
            self.vertices@,
            match self.indices {
                Some(i) => Some(i@),
                None => None,
            },
        )
    }
}

impl<T: Copy> MeshData<T> {
    /// Packs generated vertices and their triangle list. With `indexed`
    /// false the list is flattened: each slot becomes its own vertex and
    /// no index list remains.
    pub fn pack(vertices: Vec<T>, indices: Vec<u32>, indexed: bool) -> (r: Self)
        requires
            indices_below(indices@, vertices.len() as int),
        ensures
            r@ == packed(vertices@, indices@, indexed),
    {
        if indexed {
            MeshData { vertices, indices: Some(indices) }
        } else {
            let flat = flatten(&vertices, &indices);
            MeshData { vertices: flat, indices: None }
        }
    }

    /// Number of elements that drawing the mesh covers.
    pub fn element_count(&self) -> (r: usize)
        ensures
            r == element_total(self@),
    {
        match &self.indices {
            Some(i) => i.len(),
            None => self.vertices.len(),
        }
    }
}

/// One copy of the vertex that each slot of `indices` names, in order.
pub fn flatten<T: Copy>(vertices: &Vec<T>, indices: &Vec<u32>) -> (r: Vec<T>)
    requires
        indices_below(indices@, vertices.len() as int),
    ensures
        r@ == gather(vertices@, indices@),
{
    let mut out: Vec<T> = Vec::new();
    let mut j: usize = 0;
    while j < indices.len()
        invariant
            j <= indices.len(),
            indices_below(indices@, vertices.len() as int),
            out@ =~= gather(vertices@, indices@).take(j as int),
        decreases indices.len() - j,
    {
        let i = indices[j] as usize;
        out.push(vertices[i]);
        j = j + 1;
    }
    assert(out@ =~= gather(vertices@, indices@));
    out
}

/// Flattening keeps what is drawn: the unindexed packing of a mesh has
/// one vertex per index of the indexed packing, no index list, and its
/// vertices are those of the indexed packing looked up through its index
/// list in order.
pub proof fn lemma_flattened_matches_indexed<T>(vertices: Seq<T>, idx: Seq<u32>)
    requires
        indices_below(idx, vertices.len() as int),
    ensures
        packed(vertices, idx, false).1 is None,
        packed(vertices, idx, false).0.len() == element_total(packed(vertices, idx, true)),
        packed(vertices, idx, false).0 == draw_order(packed(vertices, idx, true)),
        element_total(packed(vertices, idx, false)) == element_total(packed(vertices, idx, true)),
        forall|k: int|
            0 <= k < idx.len() ==> #[trigger] packed(vertices, idx, false).0[k] == vertices[idx[k] as int],
{
}

} // verus!
