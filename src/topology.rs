use vstd::prelude::*;

use crate::error::MeshError;

verus! {

/// Number of vertices of the base icosahedron.
pub const BASE_VERTEX_COUNT: u32 = 12;

/// Deepest subdivision that a generation call accepts.
pub const MAX_ITERATIONS: u32 = 6;

/// The twenty faces of the unit icosahedron, three vertex indices each.
pub open spec fn icosahedron_triangles() -> Seq<u32> {
    seq![
        0, 1, 2, 0, 3, 1, 0, 4, 5, 1, 7, 6, 1, 6, 2,
        1, 3, 7, 0, 2, 4, 0, 5, 3, 2, 6, 8, 2, 8, 4,
        3, 5, 9, 3, 9, 7, 11, 6, 7, 10, 5, 4, 10, 4, 8,
        10, 9, 5, 11, 8, 6, 11, 7, 9, 10, 8, 11, 10, 11, 9,
    ]
}

/// Every entry of `idx` names one of the first `n` vertices.
pub open spec fn indices_below(idx: Seq<u32>, n: int) -> bool {
    forall|j: int| 0 <= j < idx.len() ==> (#[trigger] idx[j]) < n
}

/// The four triangles that replace triangle `(a, b, c)` when its edge
/// midpoints are vertices `m` (edge a-b), `m + 1` (edge b-c) and `m + 2`
/// (edge a-c): three corner triangles and the inverted central one.
pub open spec fn split_triangle(a: u32, b: u32, c: u32, m: int) -> Seq<u32> {
    let ab = m as u32;
    let bc = (m + 1) as u32;
    let ac = (m + 2) as u32;
    seq![a, ab, ac, b, bc, ab, c, ac, bc, ab, bc, ac]
}

/// One round of midpoint subdivision of the triangle list `idx`, whose
/// new vertices are numbered from `base` on, three per triangle in order.
pub open spec fn subdivided(idx: Seq<u32>, base: int) -> Seq<u32> {
    Seq::new(
        (4 * idx.len()) as nat,
        |k: int|
            {
                let t = k / 12;
                split_triangle(idx[3 * t], idx[3 * t + 1], idx[3 * t + 2], base + 3 * t)[k % 12]
            },
    )
}

/// The edge whose midpoint is the `k`-th vertex created by one round of
/// subdivision of `idx`: per triangle, edges a-b, b-c and a-c.
pub open spec fn edge_of(idx: Seq<u32>, k: int) -> (u32, u32) {
    let t = k / 3;
    let e = k % 3;
    if e == 0 {
        (idx[3 * t], idx[3 * t + 1])
    } else if e == 1 {
        (idx[3 * t + 1], idx[3 * t + 2])
    } else {
        (idx[3 * t], idx[3 * t + 2])
    }
}

/// The edges of all new vertices of one round of subdivision, in order.
pub open spec fn edge_midpoints(idx: Seq<u32>) -> Seq<(u32, u32)> {
    Seq::new(idx.len(), |k: int| edge_of(idx, k))
}

/// The connectivity of the base icosahedron.
pub fn icosahedron_indices() -> (r: Vec<u32>)
    ensures
        r@ == icosahedron_triangles(),
{
    let r: Vec<u32> = vec![
        0, 1, 2, 0, 3, 1, 0, 4, 5, 1, 7, 6, 1, 6, 2,
        1, 3, 7, 0, 2, 4, 0, 5, 3, 2, 6, 8, 2, 8, 4,
        3, 5, 9, 3, 9, 7, 11, 6, 7, 10, 5, 4, 10, 4, 8,
        10, 9, 5, 11, 8, 6, 11, 7, 9, 10, 8, 11, 10, 11, 9,
    ];
    assert(r@ =~= icosahedron_triangles());
    r
}

/// Result of one subdivision round: the new triangle list and, for each
/// new vertex in order, the edge whose midpoint it is.
pub struct Subdivision {
    pub indices: Vec<u32>,
    pub edges: Vec<(u32, u32)>,
}

/// Splits every triangle of `indices` into four. The three midpoints of
/// each triangle become new vertices `vertex_count + 3t ..`, appended
/// without sharing between neighbouring triangles.
pub fn subdivide(indices: &Vec<u32>, vertex_count: u32) -> (r: Subdivision)
    requires
        indices.len() % 3 == 0,
        vertex_count + indices.len() <= u32::MAX,
    ensures
        r.indices@ == subdivided(indices@, vertex_count as int),
        r.edges@ == edge_midpoints(indices@),
{
    let n_tri = indices.len() / 3;
    let mut new_indices: Vec<u32> = Vec::new();
    let mut edges: Vec<(u32, u32)> = Vec::new();
    let mut t: usize = 0;
    while t < n_tri
        invariant
            n_tri == indices.len() / 3,
            indices.len() % 3 == 0,
            t <= n_tri,
            vertex_count + indices.len() <= u32::MAX,
            new_indices@ =~= subdivided(indices@, vertex_count as int).take(12 * t as int),
            edges@ =~= edge_midpoints(indices@).take(3 * t as int),
        decreases n_tri - t,
    {
        let a = indices[3 * t];
        let b = indices[3 * t + 1];
        let c = indices[3 * t + 2];
        let ab = vertex_count + 3 * t as u32;
        let bc = ab + 1;
        let ac = ab + 2;
        new_indices.push(a);
        new_indices.push(ab);
        new_indices.push(ac);
        new_indices.push(b);
        new_indices.push(bc);
        new_indices.push(ab);
        new_indices.push(c);
        new_indices.push(ac);
        new_indices.push(bc);
        new_indices.push(ab);
        new_indices.push(bc);
        new_indices.push(ac);
        edges.push((a, b));
        edges.push((b, c));
        edges.push((a, c));
        proof {
            let s = subdivided(indices@, vertex_count as int);
            assert forall|k: int| 12 * t <= k < 12 * t + 12 implies #[trigger] s[k]
                == new_indices@[k] by {
                assert(k / 12 == t);
            }
            let e = edge_midpoints(indices@);
            assert forall|k: int| 3 * t <= k < 3 * t + 3 implies #[trigger] e[k] == edges@[k] by {
                assert(k / 3 == t);
            }
        }
        t = t + 1;
    }
    assert(new_indices@ =~= subdivided(indices@, vertex_count as int));
    assert(edges@ =~= edge_midpoints(indices@));
    Subdivision { indices: new_indices, edges }
}

/// Four to the power `n`.
pub open spec fn pow4(n: nat) -> nat
    decreases n,
{
    if n == 0 {
        1
    } else {
        4 * pow4((n - 1) as nat)
    }
}

/// Triangle list and midpoint edges after `n` rounds of subdivision of the
/// icosahedron. Vertex `12 + k` is the midpoint, pushed onto the sphere,
/// of the `k`-th edge.
pub open spec fn sphere_topology(n: nat) -> (Seq<u32>, Seq<(u32, u32)>)
    decreases n,
{
    if n == 0 {
        (icosahedron_triangles(), Seq::empty())
    } else {
        let prev = sphere_topology((n - 1) as nat);
        (subdivided(prev.0, 12 + prev.1.len() as int), prev.1 + edge_midpoints(prev.0))
    }
}

/// Number of vertices after `n` rounds, before seam splitting.
pub open spec fn sphere_vertex_count(n: nat) -> nat {
    12 + sphere_topology(n).1.len()
}

/// Every midpoint edge joins two vertices that exist before it.
pub open spec fn edges_precede(edges: Seq<(u32, u32)>) -> bool {
    forall|k: int|
        0 <= k < edges.len() ==> (#[trigger] edges[k]).0 < 12 + k && edges[k].1 < 12 + k
}

/// After `n` rounds of subdivision the icosphere has `20 * 4^n` triangles
/// and `12 + 20 * (4^n - 1)` vertices: each round appends three unshared
/// midpoints per triangle and replaces each triangle by four.
pub proof fn lemma_sphere_counts(n: nat)
    ensures
        sphere_topology(n).0.len() == 3 * (20 * pow4(n)),
        sphere_vertex_count(n) == 12 + 20 * (pow4(n) - 1),
        pow4(n) >= 1,
    decreases n,
{
    if n > 0 {
        lemma_sphere_counts((n - 1) as nat);
    }
}

/// The triangle list after `n` rounds names only existing vertices, and
/// each midpoint is made from two earlier vertices.
pub proof fn lemma_sphere_well_formed(n: nat)
    ensures
        sphere_topology(n).0.len() % 3 == 0,
        indices_below(sphere_topology(n).0, sphere_vertex_count(n) as int),
        edges_precede(sphere_topology(n).1),
    decreases n,
{
    if n == 0 {
        let s = icosahedron_triangles();
        assert(indices_below(s, 12));
    } else {
        let m = (n - 1) as nat;
        lemma_sphere_well_formed(m);
        lemma_sphere_counts(m);
        let prev = sphere_topology(m);
        let base = 12 + prev.1.len();
        let next = sphere_topology(n);
        let len = prev.0.len();
        assert(next.0.len() == 4 * len);
        assert(next.0.len() % 3 == 0);
        assert forall|k: int| 0 <= k < next.0.len() implies (#[trigger] next.0[k]) < base + len by {
            let t = k / 12;
            assert(0 <= t < len / 3);
            assert(3 * t + 2 < len);
            assert(prev.0[3 * t] < base);
            assert(prev.0[3 * t + 1] < base);
            assert(prev.0[3 * t + 2] < base);
        }
        let e = edge_midpoints(prev.0);
        assert forall|k: int| 0 <= k < next.1.len() implies (#[trigger] next.1[k]).0 < 12 + k
            && next.1[k].1 < 12 + k by {
            if k >= prev.1.len() {
                let i = k - prev.1.len();
                let t = i / 3;
                assert(next.1[k] == e[i]);
                assert(3 * t + 2 < len);
                assert(prev.0[3 * t] < base);
                assert(prev.0[3 * t + 1] < base);
                assert(prev.0[3 * t + 2] < base);
            } else {
                assert(next.1[k] == prev.1[k]);
            }
        }
    }
}

/// Connectivity of an icosphere: its triangle list and, for every vertex
/// past the twelve of the icosahedron, the edge whose midpoint it is.
pub struct IcosphereTopology {
    pub indices: Vec<u32>,
    pub midpoints: Vec<(u32, u32)>,
}

impl IcosphereTopology {
    /// Builds the connectivity of an icosphere subdivided `iterations`
    /// times. `radius_positive` tells whether the requested radius is
    /// strictly positive; the radius itself only scales positions.
    pub fn build(radius_positive: bool, iterations: u32) -> (r: Result<IcosphereTopology, MeshError>)
        ensures
            !radius_positive ==> r == Err::<IcosphereTopology, MeshError>(MeshError::InvalidParameter),
            radius_positive && iterations > MAX_ITERATIONS ==> r == Err::<IcosphereTopology, MeshError>(
                MeshError::ResourceLimitExceeded,
            ),
            radius_positive && iterations <= MAX_ITERATIONS ==> (r matches Ok(t) && t.indices@
                == sphere_topology(iterations as nat).0 && t.midpoints@ == sphere_topology(
                iterations as nat,
            ).1 && t.indices.len() % 3 == 0 && indices_below(
                t.indices@,
                12 + t.midpoints.len(),
            ) && edges_precede(t.midpoints@)),
    {
        if !radius_positive {
            return Err(MeshError::InvalidParameter);
        }
        if iterations > MAX_ITERATIONS {
            return Err(MeshError::ResourceLimitExceeded);
        }
        let mut indices = icosahedron_indices();
        let mut midpoints: Vec<(u32, u32)> = Vec::new();
        let mut it: u32 = 0;
        while it < iterations
            invariant
                it <= iterations <= MAX_ITERATIONS,
                indices@ == sphere_topology(it as nat).0,
                midpoints@ == sphere_topology(it as nat).1,
            decreases iterations - it,
        {
            proof {
                lemma_sphere_counts(it as nat);
                lemma_sphere_well_formed(it as nat);
                lemma_pow4_monotone(it as nat, 5);
                assert(pow4(5) == 1024) by {
                    reveal_with_fuel(pow4, 6);
                }
            }
            let count = BASE_VERTEX_COUNT + midpoints.len() as u32;
            let sub = subdivide(&indices, count);
            let mut edges = sub.edges;
            midpoints.append(&mut edges);
            indices = sub.indices;
            it = it + 1;
        }
        proof {
            lemma_sphere_well_formed(iterations as nat);
        }
        Ok(IcosphereTopology { indices, midpoints })
    }
}

/// `pow4` never decreases.
proof fn lemma_pow4_monotone(a: nat, b: nat)
    requires
        a <= b,
    ensures
        pow4(a) <= pow4(b),
    decreases b,
{
    if a < b {
        lemma_pow4_monotone(a, (b - 1) as nat);
    }
}

} // verus!
