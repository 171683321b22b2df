use vstd::prelude::*;

use crate::topology::indices_below;

verus! {

/// Number of slots of `s` that hold `v`.
pub open spec fn occurrences(s: Seq<u32>, v: u32) -> nat
    decreases s.len(),
{
    if s.len() == 0 {
        0
    } else {
        occurrences(s.drop_last(), v) + if s.last() == v {
            1nat
        } else {
            0nat
        }
    }
}

/// The divisor that averages the tangent and bitangent of vertex `v`:
/// one for the vertex itself plus one per triangle corner it occupies.
pub open spec fn incidence_weight(idx: Seq<u32>, v: u32) -> nat {
    1 + occurrences(idx, v)
}

/// For each of `vertex_count` vertices, the number by which the tangent
/// solver divides its accumulated tangent and bitangent. Counting starts
/// at one, so a vertex that no triangle uses keeps a divisor of one.
pub fn incidence_counts(vertex_count: usize, indices: &Vec<u32>) -> (r: Vec<u32>)
    requires
        indices.len() % 3 == 0,
        indices.len() < u32::MAX,
        vertex_count <= u32::MAX,
        indices_below(indices@, vertex_count as int),
    ensures
        r.len() == vertex_count,
        forall|v: int| 0 <= v < vertex_count ==> #[trigger] r[v] == incidence_weight(indices@, v as u32),
{
    let mut counts: Vec<u32> = Vec::new();
    let mut v: usize = 0;
    while v < vertex_count
        invariant
            v <= vertex_count,
            counts.len() == v,
            forall|i: int| 0 <= i < v ==> #[trigger] counts[i] == 1,
        decreases vertex_count - v,
    {
        counts.push(1);
        v = v + 1;
    }
    let mut j: usize = 0;
    while j < indices.len()
        invariant
            j <= indices.len(),
            indices.len() < u32::MAX,
            vertex_count <= u32::MAX,
            counts.len() == vertex_count,
            indices_below(indices@, vertex_count as int),
            forall|i: int|
                0 <= i < vertex_count ==> #[trigger] counts[i] == 1 + occurrences(
                    indices@.take(j as int),
                    i as u32,
                ),
        decreases indices.len() - j,
    {
        let c = indices[j] as usize;
        proof {
            lemma_occurrences_bound(indices@.take(j as int), c as u32);
            assert(indices@.take(j as int + 1).drop_last() =~= indices@.take(j as int));
        }
        let n = counts[c];
        counts.set(c, n + 1);
        proof {
            let s1 = indices@.take(j as int + 1);
            assert(s1.drop_last() =~= indices@.take(j as int));
            assert(s1.last() == c as u32);
            assert forall|i: int| 0 <= i < vertex_count implies #[trigger] counts[i] == 1
                + occurrences(s1, i as u32) by {
                if i != c {
                    assert(i as u32 != c as u32);
                }
            }
        }
        j = j + 1;
    }
    assert(indices@.take(indices.len() as int) =~= indices@);
    counts
}

/// A value occurs at most as often as the sequence is long.
proof fn lemma_occurrences_bound(s: Seq<u32>, v: u32)
    ensures
        occurrences(s, v) <= s.len(),
    decreases s.len(),
{
    if s.len() > 0 {
        lemma_occurrences_bound(s.drop_last(), v);
    }
}

} // verus!
