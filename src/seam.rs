use vstd::prelude::*;

use crate::topology::indices_below;

verus! {

/// Texture coordinates are fixed-point numbers: `TEX_ONE` stands for 1.0.
/// Its step, 2^-24, is the resolution of an `f32` between one half and one.
pub const TEX_ONE: u32 = 16777216;

/// The seam threshold, one half in fixed point.
pub const TEX_HALF: u32 = 8388608;

/// Distance between two U coordinates.
pub open spec fn u_gap(a: u32, b: u32) -> int {
    if a >= b {
        a - b
    } else {
        b - a
    }
}

/// What the vertex pair `a`, `b` of one triangle marks for duplication:
/// the vertex with the smaller U when the two U differ by more than one
/// half, nothing otherwise.
pub open spec fn pair_mark(u: Seq<u32>, a: u32, b: u32) -> Seq<u32> {
    if u_gap(u[a as int], u[b as int]) > TEX_HALF {
        seq![if u[a as int] < u[b as int] { a } else { b }]
    } else {
        Seq::empty()
    }
}

/// Marks of triangle `t`, testing its pairs (0, 2), (0, 1) and (1, 2).
pub open spec fn triangle_marks(idx: Seq<u32>, u: Seq<u32>, t: int) -> Seq<u32> {
    let a = idx[3 * t];
    let b = idx[3 * t + 1];
    let c = idx[3 * t + 2];
    pair_mark(u, a, c) + pair_mark(u, a, b) + pair_mark(u, b, c)
}

/// Marks of the first `n` triangles, in order.
pub open spec fn marks_upto(idx: Seq<u32>, u: Seq<u32>, n: nat) -> Seq<u32>
    decreases n,
{
    if n == 0 {
        Seq::empty()
    } else {
        marks_upto(idx, u, (n - 1) as nat) + triangle_marks(idx, u, n - 1)
    }
}

/// Every vertex marked for duplication, once per seam-crossing pair.
pub open spec fn seam_marks(idx: Seq<u32>, u: Seq<u32>) -> Seq<u32> {
    marks_upto(idx, u, idx.len() / 3)
}

/// Position of the first occurrence of `x` in `s`.
pub open spec fn first_index(s: Seq<u32>, x: u32) -> Option<nat>
    decreases s.len(),
{
    if s.len() == 0 {
        None
    } else {
        let prev = first_index(s.drop_last(), x);
        if prev is Some {
            prev
        } else if s.last() == x {
            Some((s.len() - 1) as nat)
        } else {
            None
        }
    }
}

/// Slot `j` of the index list lies in a triangle where one of the two
/// other vertices has U above one half.
pub open spec fn other_above_half(idx: Seq<u32>, u: Seq<u32>, j: int) -> bool {
    let t = j / 3;
    u[idx[3 * t + (j + 1) % 3] as int] > TEX_HALF || u[idx[3 * t + (j + 2) % 3] as int]
        > TEX_HALF
}

/// The vertex that slot `j` names after seam resolution: a marked vertex
/// in a triangle that reaches past one half is replaced by its first
/// duplicate, which is appended after the `u.len()` existing vertices.
pub open spec fn resolved_index(idx: Seq<u32>, u: Seq<u32>, j: int) -> u32 {
    match first_index(seam_marks(idx, u), idx[j]) {
        Some(k) => if other_above_half(idx, u, j) {
            (u.len() + k) as u32
        } else {
            idx[j]
        },
        None => idx[j],
    }
}

/// The index list after seam resolution; its length is unchanged.
pub open spec fn resolved_indices(idx: Seq<u32>, u: Seq<u32>) -> Seq<u32> {
    Seq::new(idx.len(), |j: int| resolved_index(idx, u, j))
}

/// U of every vertex after seam resolution: the existing ones, then one
/// duplicate per mark, shifted by one.
pub open spec fn resolved_u(idx: Seq<u32>, u: Seq<u32>) -> Seq<u32> {
    u + seam_marks(idx, u).map_values(|m: u32| (u[m as int] + TEX_ONE) as u32)
}

/// Outcome of seam resolution.
pub struct SeamSplit {
    /// The redirected triangle list.
    pub indices: Vec<u32>,
    /// For each appended vertex, the vertex it duplicates.
    pub duplicates: Vec<u32>,
    /// U of every vertex, the existing ones first.
    pub u: Vec<u32>,
}

/// Resolves the longitude seam of a triangle mesh whose vertices have the
/// fixed-point U coordinates `u`: vertices on the low side of a
/// seam-crossing edge are duplicated with U shifted by one, and the
/// triangles that reach past one half are redirected to the duplicate.
pub fn resolve_seams(indices: &Vec<u32>, u: &Vec<u32>) -> (r: SeamSplit)
    requires
        indices.len() % 3 == 0,
        indices_below(indices@, u.len() as int),
        u.len() + indices.len() <= u32::MAX,
        forall|i: int| 0 <= i < u.len() ==> #[trigger] u[i] <= TEX_ONE,
    ensures
        r.duplicates@ == seam_marks(indices@, u@),
        r.indices@ == resolved_indices(indices@, u@),
        r.u@ == resolved_u(indices@, u@),
        r.u.len() == u.len() + r.duplicates.len(),
        indices_below(r.indices@, r.u.len() as int),
{
    let n_tri = indices.len() / 3;
    let n_vert = u.len();
    let mut marks: Vec<u32> = Vec::new();
    let mut t: usize = 0;
    while t < n_tri
        invariant
            n_tri == indices.len() / 3,
            indices.len() % 3 == 0,
            t <= n_tri,
            n_vert == u.len(),
            indices_below(indices@, n_vert as int),
            marks@ == marks_upto(indices@, u@, t as nat),
            marks.len() <= 3 * t,
            indices_below(marks@, n_vert as int),
        decreases n_tri - t,
    {
        let a = indices[3 * t];
        let b = indices[3 * t + 1];
        let c = indices[3 * t + 2];
        let ghost before = marks@;
        push_pair_mark(&mut marks, u, a, c);
        push_pair_mark(&mut marks, u, a, b);
        push_pair_mark(&mut marks, u, b, c);
        proof {
            assert(marks@ =~= before + triangle_marks(indices@, u@, t as int));
        }
        t = t + 1;
    }
    let ghost all = seam_marks(indices@, u@);
    assert(marks@ == all);

    // first[v] is the index of the first duplicate of vertex v, if any.
    let mut first: Vec<Option<u32>> = Vec::new();
    let mut v: usize = 0;
    while v < n_vert
        invariant
            v <= n_vert,
            first.len() == v,
            forall|i: int| 0 <= i < v ==> first@[i] is None,
        decreases n_vert - v,
    {
        first.push(None);
        v = v + 1;
    }
    let mut k: usize = 0;
    while k < marks.len()
        invariant
            k <= marks.len(),
            marks@ == all,
            marks.len() <= indices.len(),
            n_vert == u.len(),
            first.len() == n_vert,
            n_vert + indices.len() <= u32::MAX,
            indices_below(marks@, n_vert as int),
            forall|i: int|
                0 <= i < n_vert ==> match first_index(all.take(k as int), i as u32) {
                    Some(p) => #[trigger] first@[i] == Some((n_vert + p) as u32),
                    None => first@[i] is None,
                },
        decreases marks.len() - k,
    {
        let m = marks[k] as usize;
        let ghost pre = all.take(k as int);
        let ghost post = all.take(k as int + 1);
        proof {
            assert(post.drop_last() =~= pre);
        }
        if first[m].is_none() {
            first.set(m, Some((n_vert + k) as u32));
        }
        proof {
            assert forall|i: int| 0 <= i < n_vert implies match first_index(post, i as u32) {
                Some(p) => #[trigger] first@[i] == Some((n_vert + p) as u32),
                None => first@[i] is None,
            } by {
                assert(post.drop_last() =~= pre);
            }
        }
        k = k + 1;
    }
    assert(all.take(all.len() as int) =~= all);
    assert(forall|i: int|
        0 <= i < n_vert ==> match first_index(all, i as u32) {
            Some(p) => #[trigger] first@[i] == Some((n_vert + p) as u32),
            None => first@[i] is None,
        });

    let mut out: Vec<u32> = Vec::new();
    let mut j: usize = 0;
    while j < indices.len()
        invariant
            j <= indices.len(),
            indices.len() % 3 == 0,
            n_vert == u.len(),
            first.len() == n_vert,
            indices_below(indices@, n_vert as int),
            n_vert + indices.len() <= u32::MAX,
            all == seam_marks(indices@, u@),
            forall|i: int|
                0 <= i < n_vert ==> match first_index(all, i as u32) {
                    Some(p) => #[trigger] first@[i] == Some((n_vert + p) as u32),
                    None => first@[i] is None,
                },
            out@ =~= resolved_indices(indices@, u@).take(j as int),
        decreases indices.len() - j,
    {
        let c = indices[j];
        let base = (j / 3) * 3;
        let o1 = indices[base + (j + 1) % 3];
        let o2 = indices[base + (j + 2) % 3];
        let above = u[o1 as usize] > TEX_HALF || u[o2 as usize] > TEX_HALF;
        let slot = match first[c as usize] {
            Some(d) => if above {
                d
            } else {
                c
            },
            None => c,
        };
        out.push(slot);
        j = j + 1;
    }

    let mut new_u: Vec<u32> = Vec::new();
    let mut i: usize = 0;
    while i < n_vert
        invariant
            i <= n_vert,
            n_vert == u.len(),
            new_u@ =~= u@.take(i as int),
        decreases n_vert - i,
    {
        new_u.push(u[i]);
        i = i + 1;
    }
    let mut k: usize = 0;
    while k < marks.len()
        invariant
            k <= marks.len(),
            marks@ == all,
            n_vert == u.len(),
            indices_below(marks@, n_vert as int),
            forall|i: int| 0 <= i < u.len() ==> #[trigger] u[i] <= TEX_ONE,
            new_u@ =~= resolved_u(indices@, u@).take(n_vert + k),
            all == seam_marks(indices@, u@),
        decreases marks.len() - k,
    {
        let m = marks[k];
        new_u.push(u[m as usize] + TEX_ONE);
        k = k + 1;
    }
    assert(new_u@ =~= resolved_u(indices@, u@));
    assert(out@ =~= resolved_indices(indices@, u@));
    proof {
        assert forall|j: int| 0 <= j < out.len() implies #[trigger] out@[j] < new_u.len() by {
            lemma_first_index(all, indices@[j]);
        }
    }
    SeamSplit { indices: out, duplicates: marks, u: new_u }
}

/// Appends, for each entry of `duplicates`, a copy of the attribute of the
/// vertex it names, so that per-vertex attributes follow a seam split.
pub fn extend_with_duplicates<T: Copy>(attrs: &mut Vec<T>, duplicates: &Vec<u32>)
    requires
        indices_below(duplicates@, old(attrs).len() as int),
    ensures
        final(attrs)@ == old(attrs)@ + duplicates@.map_values(|d: u32| old(attrs)@[d as int]),
{
    let ghost before = attrs@;
    let n = attrs.len();
    let mut k: usize = 0;
    while k < duplicates.len()
        invariant
            k <= duplicates.len(),
            n == before.len(),
            indices_below(duplicates@, n as int),
            attrs@ =~= before + duplicates@.map_values(|d: u32| before[d as int]).take(k as int),
        decreases duplicates.len() - k,
    {
        let d = duplicates[k] as usize;
        let value = attrs[d];
        attrs.push(value);
        k = k + 1;
    }
    assert(duplicates@.map_values(|d: u32| before[d as int]).take(k as int) =~= duplicates@.map_values(
        |d: u32| before[d as int],
    ));
}

/// Appends what the pair `a`, `b` marks.
fn push_pair_mark(marks: &mut Vec<u32>, u: &Vec<u32>, a: u32, b: u32)
    requires
        a < u.len(),
        b < u.len(),
    ensures
        final(marks)@ == old(marks)@ + pair_mark(u@, a, b),
{
    let ua = u[a as usize];
    let ub = u[b as usize];
    let gap = if ua >= ub {
        ua - ub
    } else {
        ub - ua
    };
    if gap > TEX_HALF {
        if ua < ub {
            marks.push(a);
        } else {
            marks.push(b);
        }
    }
    proof {
        assert(final(marks)@ =~= old(marks)@ + pair_mark(u@, a, b));
    }
}

/// No two vertices of one triangle have U more than one half apart.
pub open spec fn no_seam_crossing(idx: Seq<u32>, u: Seq<u32>) -> bool {
    forall|j1: int, j2: int|
        0 <= j1 < idx.len() && 0 <= j2 < idx.len() && j1 / 3 == j2 / 3 ==> u_gap(
            u[#[trigger] idx[j1] as int],
            u[#[trigger] idx[j2] as int],
        ) <= TEX_HALF
}

/// The triangle of slot `j` has a vertex with U above one half.
pub open spec fn reaches_past_half(idx: Seq<u32>, u: Seq<u32>, j: int) -> bool {
    let t = j / 3;
    u[idx[3 * t] as int] > TEX_HALF || u[idx[3 * t + 1] as int] > TEX_HALF || u[idx[3 * t
        + 2] as int] > TEX_HALF
}

/// In every triangle that reaches past one half, each vertex marked for
/// duplication lies at least one half below each unmarked vertex, so that
/// the shifted duplicate lands within one half of it.
pub open spec fn seam_separated(idx: Seq<u32>, u: Seq<u32>) -> bool {
    let marks = seam_marks(idx, u);
    forall|j1: int, j2: int|
        0 <= j1 < idx.len() && 0 <= j2 < idx.len() && j1 / 3 == j2 / 3 && reaches_past_half(
            idx,
            u,
            j1,
        ) && first_index(marks, #[trigger] idx[j1]) is Some && first_index(
            marks,
            #[trigger] idx[j2],
        ) is None ==> u[idx[j2] as int] >= u[idx[j1] as int] + TEX_HALF
}

/// Seam resolution is stable: on a mesh whose marked vertices sit well
/// below the unmarked ones of every triangle reaching past one half, no
/// triangle of the resolved mesh still crosses the seam, and running the
/// detection again marks nothing.
pub proof fn lemma_seam_resolution_is_stable(idx: Seq<u32>, u: Seq<u32>)
    requires
        idx.len() % 3 == 0,
        indices_below(idx, u.len() as int),
        u.len() + idx.len() <= u32::MAX,
        forall|i: int| 0 <= i < u.len() ==> #[trigger] u[i] <= TEX_ONE,
        seam_separated(idx, u),
    ensures
        no_seam_crossing(resolved_indices(idx, u), resolved_u(idx, u)),
        seam_marks(resolved_indices(idx, u), resolved_u(idx, u)).len() == 0,
{
    let ri = resolved_indices(idx, u);
    let ru = resolved_u(idx, u);
    let marks = seam_marks(idx, u);
    lemma_marks_below_half(idx, u, idx.len() / 3);
    assert forall|j1: int, j2: int|
        0 <= j1 < ri.len() && 0 <= j2 < ri.len() && j1 / 3 == j2 / 3 implies u_gap(
        ru[#[trigger] ri[j1] as int],
        ru[#[trigger] ri[j2] as int],
    ) <= TEX_HALF by {
        lemma_resolved_u_at(idx, u, j1);
        lemma_resolved_u_at(idx, u, j2);
        let c1 = idx[j1];
        let c2 = idx[j2];
        lemma_first_index(marks, c1);
        lemma_first_index(marks, c2);
        lemma_slot_neighbours(j1);
        lemma_slot_neighbours(j2);
        if reaches_past_half(idx, u, j1) {
            if first_index(marks, c1) is None && first_index(marks, c2) is None
                && u_gap(u[c1 as int], u[c2 as int]) > TEX_HALF {
                lemma_crossing_pair_marked(idx, u, j1, j2);
            }
        }
    }
    lemma_no_marks(ri, ru, ri.len() / 3);
}

/// Slot `j` and its two neighbours are the three slots of its triangle.
proof fn lemma_slot_neighbours(j: int)
    requires
        0 <= j,
    ensures
        ({
            let t = j / 3;
            let n1 = 3 * t + (j + 1) % 3;
            let n2 = 3 * t + (j + 2) % 3;
            (j == 3 * t && n1 == 3 * t + 1 && n2 == 3 * t + 2) || (j == 3 * t + 1 && n1 == 3 * t
                + 2 && n2 == 3 * t) || (j == 3 * t + 2 && n1 == 3 * t && n2 == 3 * t + 1)
        }),
{
}

/// What `first_index` returns is a position of `x`; `None` means absence.
proof fn lemma_first_index(s: Seq<u32>, x: u32)
    ensures
        match first_index(s, x) {
            Some(k) => k < s.len() && s[k as int] == x,
            None => forall|i: int| 0 <= i < s.len() ==> s[i] != x,
        },
    decreases s.len(),
{
    if s.len() > 0 {
        let init = s.drop_last();
        lemma_first_index(init, x);
        assert(forall|i: int| 0 <= i < init.len() ==> init[i] == #[trigger] s[i]);
    }
}

/// A mark of the pair `a`, `b` is one of the two, and lies below one half
/// when every U is at most one.
proof fn lemma_pair_mark(u: Seq<u32>, a: u32, b: u32)
    requires
        a < u.len(),
        b < u.len(),
        u[a as int] <= TEX_ONE,
        u[b as int] <= TEX_ONE,
    ensures
        forall|i: int|
            0 <= i < pair_mark(u, a, b).len() ==> (#[trigger] pair_mark(u, a, b)[i] == a
                || pair_mark(u, a, b)[i] == b) && u[pair_mark(u, a, b)[i] as int] < TEX_HALF,
{
}

/// Marked vertices are in range and have U below one half.
proof fn lemma_marks_below_half(idx: Seq<u32>, u: Seq<u32>, n: nat)
    requires
        n <= idx.len() / 3,
        indices_below(idx, u.len() as int),
        forall|i: int| 0 <= i < u.len() ==> #[trigger] u[i] <= TEX_ONE,
    ensures
        forall|k: int|
            0 <= k < marks_upto(idx, u, n).len() ==> (#[trigger] marks_upto(idx, u, n)[k]) < u.len()
                && u[marks_upto(idx, u, n)[k] as int] < TEX_HALF,
    decreases n,
{
    if n > 0 {
        lemma_marks_below_half(idx, u, (n - 1) as nat);
        let t = n - 1;
        assert(3 * t + 2 < idx.len());
        let a = idx[3 * t];
        let b = idx[3 * t + 1];
        let c = idx[3 * t + 2];
        assert(a < u.len() && b < u.len() && c < u.len());
        lemma_pair_mark(u, a, c);
        lemma_pair_mark(u, a, b);
        lemma_pair_mark(u, b, c);
        let prev = marks_upto(idx, u, (n - 1) as nat);
        let mark_ac = pair_mark(u, a, c);
        let mark_ab = pair_mark(u, a, b);
        let mark_bc = pair_mark(u, b, c);
        let all = marks_upto(idx, u, n);
        assert(all =~= prev + mark_ac + mark_ab + mark_bc);
        assert forall|k: int| 0 <= k < all.len() implies (#[trigger] all[k]) < u.len() && u[all[k] as int]
            < TEX_HALF by {
            if k < prev.len() {
                assert(all[k] == prev[k]);
            } else if k < prev.len() + mark_ac.len() {
                assert(all[k] == mark_ac[k - prev.len()]);
            } else if k < prev.len() + mark_ac.len() + mark_ab.len() {
                assert(all[k] == mark_ab[k - prev.len() - mark_ac.len()]);
            } else {
                assert(all[k] == mark_bc[k - prev.len() - mark_ac.len() - mark_ab.len()]);
            }
        }
    }
}

/// The U that the resolved slot `j` carries.
proof fn lemma_resolved_u_at(idx: Seq<u32>, u: Seq<u32>, j: int)
    requires
        0 <= j < idx.len(),
        idx.len() % 3 == 0,
        indices_below(idx, u.len() as int),
        u.len() + idx.len() <= u32::MAX,
        forall|i: int| 0 <= i < u.len() ==> #[trigger] u[i] <= TEX_ONE,
    ensures
        ({
            let marks = seam_marks(idx, u);
            let c = idx[j];
            let r = resolved_indices(idx, u)[j];
            let ru = resolved_u(idx, u);
            if first_index(marks, c) is Some && other_above_half(idx, u, j) {
                ru[r as int] == u[c as int] + TEX_ONE
            } else {
                r == c && ru[r as int] == u[c as int]
            }
        }),
{
    let marks = seam_marks(idx, u);
    let c = idx[j];
    lemma_first_index(marks, c);
    lemma_marks_below_half(idx, u, idx.len() / 3);
    lemma_marks_length(idx, u, idx.len() / 3);
    let ru = resolved_u(idx, u);
    if let Some(k) = first_index(marks, c) {
        if other_above_half(idx, u, j) {
            assert(ru[u.len() + k as int] == (u[marks[k as int] as int] + TEX_ONE) as u32);
        }
    }
}

/// At most three marks per triangle.
proof fn lemma_marks_length(idx: Seq<u32>, u: Seq<u32>, n: nat)
    ensures
        marks_upto(idx, u, n).len() <= 3 * n,
    decreases n,
{
    if n > 0 {
        lemma_marks_length(idx, u, (n - 1) as nat);
    }
}

/// Two vertices of one triangle whose U differ by more than one half get
/// one of them marked.
proof fn lemma_crossing_pair_marked(idx: Seq<u32>, u: Seq<u32>, j1: int, j2: int)
    requires
        0 <= j1 < idx.len(),
        0 <= j2 < idx.len(),
        j1 / 3 == j2 / 3,
        idx.len() % 3 == 0,
        u_gap(u[idx[j1] as int], u[idx[j2] as int]) > TEX_HALF,
    ensures
        first_index(seam_marks(idx, u), idx[j1]) is Some || first_index(
            seam_marks(idx, u),
            idx[j2],
        ) is Some,
{
    let t = j1 / 3;
    let marks = seam_marks(idx, u);
    let tm = triangle_marks(idx, u, t);
    lemma_slot_neighbours(j1);
    lemma_slot_neighbours(j2);
    let a = idx[3 * t];
    let b = idx[3 * t + 1];
    let c = idx[3 * t + 2];
    let mark_ac = pair_mark(u, a, c);
    let mark_ab = pair_mark(u, a, b);
    let mark_bc = pair_mark(u, b, c);
    assert(tm =~= mark_ac + mark_ab + mark_bc);
    let s1 = j1 - 3 * t;
    let s2 = j2 - 3 * t;
    let p: int = if (s1 == 0 && s2 == 2) || (s1 == 2 && s2 == 0) {
        0
    } else if (s1 == 0 && s2 == 1) || (s1 == 1 && s2 == 0) {
        mark_ac.len() as int
    } else {
        (mark_ac.len() + mark_ab.len()) as int
    };
    assert(0 <= p < tm.len());
    assert(tm[p] == idx[j1] || tm[p] == idx[j2]);
    lemma_marks_contain(idx, u, t, p, idx.len() / 3);
    let k = choose|k: int| 0 <= k < marks.len() && marks[k] == tm[p];
    lemma_first_index(marks, tm[p]);
}

/// The marks of triangle `t` occur among the marks of the first `n`.
proof fn lemma_marks_contain(idx: Seq<u32>, u: Seq<u32>, t: int, p: int, n: nat)
    requires
        0 <= t < n,
        0 <= p < triangle_marks(idx, u, t).len(),
    ensures
        exists|k: int|
            0 <= k < marks_upto(idx, u, n).len() && marks_upto(idx, u, n)[k] == triangle_marks(
                idx,
                u,
                t,
            )[p],
    decreases n,
{
    let prev = marks_upto(idx, u, (n - 1) as nat);
    let all = marks_upto(idx, u, n);
    if t == n - 1 {
        assert(all[prev.len() + p] == triangle_marks(idx, u, t)[p]);
    } else {
        lemma_marks_contain(idx, u, t, p, (n - 1) as nat);
        let k = choose|k: int| 0 <= k < prev.len() && prev[k] == triangle_marks(idx, u, t)[p];
        assert(all[k] == prev[k]);
    }
}

/// A mesh without seam-crossing triangles has no marks.
proof fn lemma_no_marks(idx: Seq<u32>, u: Seq<u32>, n: nat)
    requires
        n <= idx.len() / 3,
        no_seam_crossing(idx, u),
    ensures
        marks_upto(idx, u, n).len() == 0,
    decreases n,
{
    if n > 0 {
        lemma_no_marks(idx, u, (n - 1) as nat);
        let t = n - 1;
        let a = idx[3 * t];
        let b = idx[3 * t + 1];
        let c = idx[3 * t + 2];
        assert(u_gap(u[a as int], u[c as int]) <= TEX_HALF);
        assert(u_gap(u[a as int], u[b as int]) <= TEX_HALF);
        assert(u_gap(u[b as int], u[c as int]) <= TEX_HALF);
    }
}

} // verus!
