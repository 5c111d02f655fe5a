//! Interior classification. A parity sweep along z marks the empty voxels that lie
//! between runs of edge voxels as inside; sweeps along x and y then keep only the
//! inside voxels that have an edge voxel on both sides of their row.

use vstd::prelude::*;

use crate::grid::{
    finalized_from, fixed_coords, lemma_flat_index_in_range, line_point, line_pos, line_xyz, Axis,
    VoxelGrid,
};
use crate::voxel::{NonFinalVoxelData, VoxelData};

verus! {

/// Which positions of a line of the grid hold edge voxels.
pub open spec fn line_edges<C, V>(
    g: &VoxelGrid<NonFinalVoxelData<C, V>>,
    axis: Axis,
    f1: int,
    f2: int,
) -> Seq<bool> {
    Seq::new(g.axis_len(axis) as nat, |t: int| g.at_line(axis, f1, f2, t) is Edge)
}

/// Some position in `lo..hi` holds an edge voxel.
pub open spec fn edge_in(e: Seq<bool>, lo: int, hi: int) -> bool {
    exists|j: int| lo <= j < hi && #[trigger] e[j]
}

/// The sweep's state (inside, previous voxel was an edge) after the first `k`
/// positions of a line: an empty voxel right after an edge run toggles inside.
pub open spec fn parity_state(e: Seq<bool>, k: int) -> (bool, bool)
    decreases k,
{
    if k <= 0 {
        (false, false)
    } else {
        let prev = parity_state(e, k - 1);
        if e[k - 1] {
            (prev.0, true)
        } else if prev.1 {
            (!prev.0, false)
        } else {
            (prev.0, false)
        }
    }
}

/// The parity sweep marks position `t` as inside.
pub open spec fn parity_marks(e: Seq<bool>, t: int) -> bool {
    !e[t] && parity_state(e, t + 1).0
}

/// What the z sweep, with its cleanup of open columns, makes of voxel `v` at
/// position `t` of a column whose edge positions are `e`.
pub open spec fn column_fill<C, V>(e: Seq<bool>, t: int, v: NonFinalVoxelData<C, V>) -> NonFinalVoxelData<C, V> {
    if v is Edge {
        v
    } else if parity_marks(e, t) && edge_in(e, t + 1, e.len() as int) {
        NonFinalVoxelData::InsideMesh
    } else {
        NonFinalVoxelData::Empty
    }
}

/// What an x or y sweep makes of voxel `v` at position `t` of a row whose edge
/// positions are `e`: an inside voxel without an edge on both sides becomes empty.
pub open spec fn line_strip<C, V>(e: Seq<bool>, t: int, v: NonFinalVoxelData<C, V>) -> NonFinalVoxelData<C, V> {
    if v is InsideMesh && !(edge_in(e, 0, t) && edge_in(e, t + 1, e.len() as int)) {
        NonFinalVoxelData::Empty
    } else {
        v
    }
}

pub open spec fn line_rule<C, V>(fill: bool, e: Seq<bool>, t: int, v: NonFinalVoxelData<C, V>) -> NonFinalVoxelData<C, V> {
    if fill {
        column_fill(e, t, v)
    } else {
        line_strip(e, t, v)
    }
}

/// No voxel of the grid is marked inside.
pub open spec fn no_inside_voxels<C, V>(g: &VoxelGrid<NonFinalVoxelData<C, V>>) -> bool {
    forall|a: int, b: int, c: int| g.in_bounds(a, b, c) ==> !(#[trigger] g.at(a, b, c) is InsideMesh)
}

/// `new` is `old` with the line rule applied to the voxels of the line along `axis`
/// with fixed coordinates (f1, f2) and every other voxel kept.
pub open spec fn line_swept<C, V>(
    new: &VoxelGrid<NonFinalVoxelData<C, V>>,
    old: &VoxelGrid<NonFinalVoxelData<C, V>>,
    axis: Axis,
    f1: int,
    f2: int,
    fill: bool,
) -> bool {
    &&& new.wf()
    &&& new.wf_voxels()
    &&& new.same_shape(old)
    &&& forall|a: int, b: int, c: int|
        #![trigger new.at(a, b, c)]
        old.in_bounds(a, b, c) ==> new.at(a, b, c) == if fixed_coords(axis, a, b, c) == (f1, f2) {
            line_rule(fill, line_edges(old, axis, f1, f2), line_pos(axis, a, b, c), old.at(a, b, c))
        } else {
            old.at(a, b, c)
        }
}

/// `new` is `old` with the line rule applied to every line along `axis`.
pub open spec fn lines_swept<C, V>(
    new: &VoxelGrid<NonFinalVoxelData<C, V>>,
    old: &VoxelGrid<NonFinalVoxelData<C, V>>,
    axis: Axis,
    fill: bool,
) -> bool {
    &&& new.wf()
    &&& new.wf_voxels()
    &&& new.same_shape(old)
    &&& forall|a: int, b: int, c: int|
        #![trigger new.at(a, b, c)]
        old.in_bounds(a, b, c) ==> new.at(a, b, c) == line_rule(
            fill,
            line_edges(old, axis, fixed_coords(axis, a, b, c).0, fixed_coords(axis, a, b, c).1),
            line_pos(axis, a, b, c),
            old.at(a, b, c),
        )
}

/// Without an edge in `k..n`, and with no edge just before `k`, the sweep's state
/// does not change between `k` and `n`.
pub proof fn lemma_parity_state_stable(e: Seq<bool>, k: int, n: int)
    requires
        0 <= k <= n <= e.len(),
        !parity_state(e, k).1,
        forall|j: int| k <= j < n ==> !#[trigger] e[j],
    ensures
        parity_state(e, n) == parity_state(e, k),
    decreases n - k,
{
    if n > k {
        lemma_parity_state_stable(e, k, n - 1);
    }
}

/// A position that the parity sweep marks has an edge before it.
pub proof fn lemma_parity_marks_edge_before(e: Seq<bool>, t: int)
    requires
        0 <= t < e.len(),
        parity_marks(e, t),
    ensures
        edge_in(e, 0, t),
{
    if !edge_in(e, 0, t) {
        lemma_parity_state_stable(e, 0, t);
    }
}

fn is_edge_on_line<C, V>(
    grid: &VoxelGrid<NonFinalVoxelData<C, V>>,
    axis: Axis,
    f1: usize,
    f2: usize,
    t: usize,
) -> (r: bool)
    requires
        grid.wf(),
        f1 < grid.fixed_lens(axis).0,
        f2 < grid.fixed_lens(axis).1,
        t < grid.axis_len(axis),
    ensures
        r == grid.at_line(axis, f1 as int, f2 as int, t as int) is Edge,
{
    let (x, y, z) = line_xyz(axis, f1, f2, t);
    grid.voxel_by_xyz_index_unchecked(x, y, z).is_edge()
}

/// The parity sweep along one line, followed, where the line ends inside, by the
/// cleanup that empties the inside voxels after the line's last edge.
fn fill_line<C, V>(grid: &mut VoxelGrid<NonFinalVoxelData<C, V>>, axis: Axis, f1: usize, f2: usize)
    requires
        old(grid).wf(),
        old(grid).wf_voxels(),
        f1 < old(grid).fixed_lens(axis).0,
        f2 < old(grid).fixed_lens(axis).1,
        forall|t: int|
            0 <= t < old(grid).axis_len(axis) ==> !(#[trigger] old(grid).at_line(
                axis,
                f1 as int,
                f2 as int,
                t,
            ) is InsideMesh),
    ensures
        line_swept(&*final(grid), &*old(grid), axis, f1 as int, f2 as int, true),
{
    let ghost g0 = *grid;
    let ghost e = line_edges(&g0, axis, f1 as int, f2 as int);
    let n = grid.axis_length(axis);
    let mut inside = false;
    let mut prev_edge = false;
    let mut t: usize = 0;
    while t < n
        invariant
            n == g0.axis_len(axis),
            t <= n,
            e == line_edges(&g0, axis, f1 as int, f2 as int),
            f1 < g0.fixed_lens(axis).0,
            f2 < g0.fixed_lens(axis).1,
            forall|s: int|
                0 <= s < n ==> !(#[trigger] g0.at_line(axis, f1 as int, f2 as int, s) is InsideMesh),
            grid.wf(),
            grid.wf_voxels(),
            grid.same_shape(&g0),
            (inside, prev_edge) == parity_state(e, t as int),
            forall|a: int, b: int, c: int|
                #![trigger grid.at(a, b, c)]
                g0.in_bounds(a, b, c) ==> grid.at(a, b, c) == if fixed_coords(axis, a, b, c) == (
                    f1 as int,
                    f2 as int,
                ) && line_pos(axis, a, b, c) < t {
                    if g0.at(a, b, c) is Edge {
                        g0.at(a, b, c)
                    } else if parity_marks(e, line_pos(axis, a, b, c)) {
                        NonFinalVoxelData::InsideMesh
                    } else {
                        NonFinalVoxelData::Empty
                    }
                } else {
                    g0.at(a, b, c)
                },
        decreases n - t,
    {
        let (x, y, z) = line_xyz(axis, f1, f2, t);
        let is_edge = grid.voxel_by_xyz_index_unchecked(x, y, z).is_edge();
        if is_edge {
            prev_edge = true;
        } else {
            if prev_edge {
                inside = !inside;
                prev_edge = false;
            }
            if inside {
                grid.set_voxel_by_xyz_index_unchecked(x, y, z, NonFinalVoxelData::InsideMesh);
            }
        }
        t = t + 1;
    }
    let ghost g1 = *grid;
    if inside {
        let mut u: usize = n;
        while u > 0 && !is_edge_on_line(grid, axis, f1, f2, u - 1)
            invariant
                n == g0.axis_len(axis),
                u <= n,
                e == line_edges(&g0, axis, f1 as int, f2 as int),
                f1 < g0.fixed_lens(axis).0,
                f2 < g0.fixed_lens(axis).1,
                grid.wf(),
                grid.wf_voxels(),
                grid.same_shape(&g0),
                forall|s: int| u <= s < n ==> !#[trigger] e[s],
                forall|a: int, b: int, c: int|
                    #![trigger g1.at(a, b, c)]
                    g0.in_bounds(a, b, c) ==> g1.at(a, b, c) == if fixed_coords(axis, a, b, c)
                        == (f1 as int, f2 as int) {
                        if g0.at(a, b, c) is Edge {
                            g0.at(a, b, c)
                        } else if parity_marks(e, line_pos(axis, a, b, c)) {
                            NonFinalVoxelData::InsideMesh
                        } else {
                            NonFinalVoxelData::Empty
                        }
                    } else {
                        g0.at(a, b, c)
                    },
                forall|a: int, b: int, c: int|
                    #![trigger grid.at(a, b, c)]
                    g0.in_bounds(a, b, c) ==> grid.at(a, b, c) == if fixed_coords(axis, a, b, c)
                        == (f1 as int, f2 as int) && line_pos(axis, a, b, c) >= u {
                        NonFinalVoxelData::Empty
                    } else {
                        g1.at(a, b, c)
                    },
            decreases u,
        {
            u = u - 1;
            proof {
                let p = line_point(axis, f1 as int, f2 as int, u as int);
                assert(g0.at_line(axis, f1 as int, f2 as int, u as int) == g0.at(p.0, p.1, p.2));
                assert(g1.at(p.0, p.1, p.2) is Edge <==> g0.at(p.0, p.1, p.2) is Edge);
            }
            let (x, y, z) = line_xyz(axis, f1, f2, u);
            let is_inside = grid.voxel_by_xyz_index_unchecked(x, y, z).is_inside_mesh();
            if is_inside {
                grid.set_voxel_by_xyz_index_unchecked(x, y, z, NonFinalVoxelData::Empty);
            }
        }
        proof {
            if u > 0 {
                let p = line_point(axis, f1 as int, f2 as int, u - 1);
                assert(g0.at_line(axis, f1 as int, f2 as int, u - 1) == g0.at(p.0, p.1, p.2));
                assert(grid.at(p.0, p.1, p.2) == g1.at(p.0, p.1, p.2));
                assert(e[u - 1]);
            }
            assert forall|a: int, b: int, c: int|
                #![trigger grid.at(a, b, c)]
                g0.in_bounds(a, b, c) && fixed_coords(axis, a, b, c) == (f1 as int, f2 as int)
                implies grid.at(a, b, c) == column_fill(
                e,
                line_pos(axis, a, b, c),
                g0.at(a, b, c),
            ) by {
                let s = line_pos(axis, a, b, c);
                assert(g0.at_line(axis, f1 as int, f2 as int, s) == g0.at(a, b, c));
                assert(e[s] == (g0.at(a, b, c) is Edge));
                if s >= u {
                    assert(!e[s]);
                    assert(!edge_in(e, s + 1, n as int));
                    assert(grid.at(a, b, c) == NonFinalVoxelData::<C, V>::Empty);
                } else {
                    assert(grid.at(a, b, c) == g1.at(a, b, c));
                    if !e[s] && parity_marks(e, s) {
                        assert(e[u - 1]);
                        assert(edge_in(e, s + 1, n as int));
                    }
                }
            }
        }
    } else {
        proof {
            assert forall|a: int, b: int, c: int|
                #![trigger grid.at(a, b, c)]
                g0.in_bounds(a, b, c) && fixed_coords(axis, a, b, c) == (f1 as int, f2 as int)
                implies grid.at(a, b, c) == column_fill(
                e,
                line_pos(axis, a, b, c),
                g0.at(a, b, c),
            ) by {
                let s = line_pos(axis, a, b, c);
                assert(g0.at_line(axis, f1 as int, f2 as int, s) == g0.at(a, b, c));
                if !e[s] && parity_marks(e, s) && !edge_in(e, s + 1, n as int) {
                    lemma_parity_state_stable(e, s + 1, n as int);
                }
            }
        }
    }
}

/// Empties the inside voxels of one line that come before its first edge voxel,
/// scanning from the start, and those after its last edge voxel, scanning from the end.
fn strip_line<C, V>(grid: &mut VoxelGrid<NonFinalVoxelData<C, V>>, axis: Axis, f1: usize, f2: usize)
    requires
        old(grid).wf(),
        old(grid).wf_voxels(),
        f1 < old(grid).fixed_lens(axis).0,
        f2 < old(grid).fixed_lens(axis).1,
    ensures
        line_swept(&*final(grid), &*old(grid), axis, f1 as int, f2 as int, false),
{
    let ghost g0 = *grid;
    let ghost e = line_edges(&g0, axis, f1 as int, f2 as int);
    let n = grid.axis_length(axis);
    let mut t: usize = 0;
    while t < n && !is_edge_on_line(grid, axis, f1, f2, t)
        invariant
            n == g0.axis_len(axis),
            t <= n,
            e == line_edges(&g0, axis, f1 as int, f2 as int),
            f1 < g0.fixed_lens(axis).0,
            f2 < g0.fixed_lens(axis).1,
            grid.wf(),
            grid.wf_voxels(),
            grid.same_shape(&g0),
            forall|s: int| 0 <= s < t ==> !#[trigger] e[s],
            forall|a: int, b: int, c: int|
                #![trigger grid.at(a, b, c)]
                g0.in_bounds(a, b, c) ==> grid.at(a, b, c) == if fixed_coords(axis, a, b, c) == (
                    f1 as int,
                    f2 as int,
                ) && line_pos(axis, a, b, c) < t && g0.at(a, b, c) is InsideMesh {
                    NonFinalVoxelData::Empty
                } else {
                    g0.at(a, b, c)
                },
        decreases n - t,
    {
        proof {
            let p = line_point(axis, f1 as int, f2 as int, t as int);
            assert(g0.at_line(axis, f1 as int, f2 as int, t as int) == g0.at(p.0, p.1, p.2));
        }
        let (x, y, z) = line_xyz(axis, f1, f2, t);
        let is_inside = grid.voxel_by_xyz_index_unchecked(x, y, z).is_inside_mesh();
        if is_inside {
            grid.set_voxel_by_xyz_index_unchecked(x, y, z, NonFinalVoxelData::Empty);
        }
        t = t + 1;
    }
    proof {
        if t < n {
            let p = line_point(axis, f1 as int, f2 as int, t as int);
            assert(g0.at_line(axis, f1 as int, f2 as int, t as int) == g0.at(p.0, p.1, p.2));
            assert(e[t as int]);
        }
    }
    let ghost g1 = *grid;
    let mut u: usize = n;
    while u > 0 && !is_edge_on_line(grid, axis, f1, f2, u - 1)
        invariant
            n == g0.axis_len(axis),
            t <= n,
            u <= n,
            e == line_edges(&g0, axis, f1 as int, f2 as int),
            f1 < g0.fixed_lens(axis).0,
            f2 < g0.fixed_lens(axis).1,
            grid.wf(),
            grid.wf_voxels(),
            grid.same_shape(&g0),
            forall|s: int| 0 <= s < t ==> !#[trigger] e[s],
            t < n ==> e[t as int],
            forall|s: int| u <= s < n ==> !#[trigger] e[s],
            forall|a: int, b: int, c: int|
                #![trigger g1.at(a, b, c)]
                g0.in_bounds(a, b, c) ==> g1.at(a, b, c) == if fixed_coords(axis, a, b, c) == (
                    f1 as int,
                    f2 as int,
                ) && line_pos(axis, a, b, c) < t && g0.at(a, b, c) is InsideMesh {
                    NonFinalVoxelData::Empty
                } else {
                    g0.at(a, b, c)
                },
            forall|a: int, b: int, c: int|
                #![trigger grid.at(a, b, c)]
                g0.in_bounds(a, b, c) ==> grid.at(a, b, c) == if fixed_coords(axis, a, b, c) == (
                    f1 as int,
                    f2 as int,
                ) && line_pos(axis, a, b, c) >= u && g0.at(a, b, c) is InsideMesh {
                    NonFinalVoxelData::Empty
                } else {
                    g1.at(a, b, c)
                },
        decreases u,
    {
        u = u - 1;
        proof {
            let p = line_point(axis, f1 as int, f2 as int, u as int);
            assert(g0.at_line(axis, f1 as int, f2 as int, u as int) == g0.at(p.0, p.1, p.2));
            assert(g1.at(p.0, p.1, p.2) is Edge <==> g0.at(p.0, p.1, p.2) is Edge);
        }
        let (x, y, z) = line_xyz(axis, f1, f2, u);
        let is_inside = grid.voxel_by_xyz_index_unchecked(x, y, z).is_inside_mesh();
        if is_inside {
            grid.set_voxel_by_xyz_index_unchecked(x, y, z, NonFinalVoxelData::Empty);
        }
    }
    proof {
        if u > 0 {
            let p = line_point(axis, f1 as int, f2 as int, u - 1);
            assert(g0.at_line(axis, f1 as int, f2 as int, u - 1) == g0.at(p.0, p.1, p.2));
            assert(grid.at(p.0, p.1, p.2) == g1.at(p.0, p.1, p.2));
            assert(e[u - 1]);
        }
        assert forall|a: int, b: int, c: int|
            #![trigger grid.at(a, b, c)]
            g0.in_bounds(a, b, c) && fixed_coords(axis, a, b, c) == (f1 as int, f2 as int)
            implies grid.at(a, b, c) == line_strip(e, line_pos(axis, a, b, c), g0.at(a, b, c)) by {
            let s = line_pos(axis, a, b, c);
            assert(g0.at_line(axis, f1 as int, f2 as int, s) == g0.at(a, b, c));
            assert(e[s] == (g0.at(a, b, c) is Edge));
            if g0.at(a, b, c) is InsideMesh {
                if s < t {
                    assert(!edge_in(e, 0, s));
                } else if s >= u {
                    assert(!edge_in(e, s + 1, n as int));
                } else {
                    assert(e[t as int]);
                    assert(edge_in(e, 0, s));
                    assert(e[u - 1]);
                    assert(edge_in(e, s + 1, n as int));
                }
            }
        }
    }
}

/// Applies the line rule to every line of the grid along `axis`.
fn sweep_lines<C, V>(grid: &mut VoxelGrid<NonFinalVoxelData<C, V>>, axis: Axis, fill: bool)
    requires
        old(grid).wf(),
        old(grid).wf_voxels(),
        fill ==> no_inside_voxels(&*old(grid)),
    ensures
        lines_swept(&*final(grid), &*old(grid), axis, fill),
{
    let ghost g0 = *grid;
    let (n1, n2) = grid.fixed_lengths(axis);
    let mut f2: usize = 0;
    while f2 < n2
        invariant
            n1 == g0.fixed_lens(axis).0,
            n2 == g0.fixed_lens(axis).1,
            f2 <= n2,
            fill ==> no_inside_voxels(&g0),
            grid.wf(),
            grid.wf_voxels(),
            grid.same_shape(&g0),
            forall|a: int, b: int, c: int|
                #![trigger grid.at(a, b, c)]
                g0.in_bounds(a, b, c) ==> grid.at(a, b, c) == if fixed_coords(axis, a, b, c).1
                    < f2 {
                    line_rule(
                        fill,
                        line_edges(
                            &g0,
                            axis,
                            fixed_coords(axis, a, b, c).0,
                            fixed_coords(axis, a, b, c).1,
                        ),
                        line_pos(axis, a, b, c),
                        g0.at(a, b, c),
                    )
                } else {
                    g0.at(a, b, c)
                },
        decreases n2 - f2,
    {
        let mut f1: usize = 0;
        while f1 < n1
            invariant
                n1 == g0.fixed_lens(axis).0,
                n2 == g0.fixed_lens(axis).1,
                f1 <= n1,
                f2 < n2,
                fill ==> no_inside_voxels(&g0),
                grid.wf(),
                grid.wf_voxels(),
                grid.same_shape(&g0),
                forall|a: int, b: int, c: int|
                    #![trigger grid.at(a, b, c)]
                    g0.in_bounds(a, b, c) ==> grid.at(a, b, c) == if fixed_coords(axis, a, b, c).1
                        < f2 || (fixed_coords(axis, a, b, c).1 == f2 && fixed_coords(
                        axis,
                        a,
                        b,
                        c,
                    ).0 < f1) {
                        line_rule(
                            fill,
                            line_edges(
                                &g0,
                                axis,
                                fixed_coords(axis, a, b, c).0,
                                fixed_coords(axis, a, b, c).1,
                            ),
                            line_pos(axis, a, b, c),
                            g0.at(a, b, c),
                        )
                    } else {
                        g0.at(a, b, c)
                    },
            decreases n1 - f1,
        {
            let ghost before = *grid;
            proof {
                assert(before.axis_len(axis) == g0.axis_len(axis));
                assert forall|t: int| 0 <= t < g0.axis_len(axis) implies #[trigger] line_edges(
                    &before,
                    axis,
                    f1 as int,
                    f2 as int,
                )[t] == line_edges(&g0, axis, f1 as int, f2 as int)[t] by {
                    let p = line_point(axis, f1 as int, f2 as int, t);
                    assert(g0.in_bounds(p.0, p.1, p.2));
                    assert(before.at(p.0, p.1, p.2) == g0.at(p.0, p.1, p.2));
                }
                assert(line_edges(&before, axis, f1 as int, f2 as int) =~= line_edges(
                    &g0,
                    axis,
                    f1 as int,
                    f2 as int,
                ));
                if fill {
                    assert forall|t: int| 0 <= t < before.axis_len(axis) implies !(
                    #[trigger] before.at_line(axis, f1 as int, f2 as int, t) is InsideMesh) by {
                        let p = line_point(axis, f1 as int, f2 as int, t);
                        assert(g0.in_bounds(p.0, p.1, p.2));
                        assert(before.at(p.0, p.1, p.2) == g0.at(p.0, p.1, p.2));
                    }
                }
            }
            if fill {
                fill_line(grid, axis, f1, f2);
            } else {
                strip_line(grid, axis, f1, f2);
            }
            proof {
                assert forall|a: int, b: int, c: int|
                    #![trigger grid.at(a, b, c)]
                    g0.in_bounds(a, b, c) && fixed_coords(axis, a, b, c) == (f1 as int, f2 as int)
                    implies grid.at(a, b, c) == line_rule(
                    fill,
                    line_edges(&g0, axis, f1 as int, f2 as int),
                    line_pos(axis, a, b, c),
                    g0.at(a, b, c),
                ) by {
                    assert(before.at(a, b, c) == g0.at(a, b, c));
                }
            }
            f1 = f1 + 1;
        }
        f2 = f2 + 1;
    }
}

/// The classification of voxel (x, y, z) of a grid whose non-edge voxels are all
/// empty: the z sweep marks it, and its column, its x row and its y row each hold an
/// edge voxel on both sides of it (below it in the column, by the parity rule).
pub open spec fn interior_after_sweeps<C, V>(
    g: &VoxelGrid<NonFinalVoxelData<C, V>>,
    x: int,
    y: int,
    z: int,
) -> bool {
    let ez = line_edges(g, Axis::Z, x, y);
    let ex = line_edges(g, Axis::X, y, z);
    let ey = line_edges(g, Axis::Y, x, z);
    &&& parity_marks(ez, z)
    &&& edge_in(ez, z + 1, ez.len() as int)
    &&& edge_in(ex, 0, x)
    &&& edge_in(ex, x + 1, ex.len() as int)
    &&& edge_in(ey, 0, y)
    &&& edge_in(ey, y + 1, ey.len() as int)
}

/// `new` is the classification of `old`: edge voxels are kept, and every other voxel
/// is inside exactly where `interior_after_sweeps` holds, else empty.
pub open spec fn classified_from<C, V>(
    new: &VoxelGrid<NonFinalVoxelData<C, V>>,
    old: &VoxelGrid<NonFinalVoxelData<C, V>>,
) -> bool {
    &&& new.wf()
    &&& new.wf_voxels()
    &&& new.same_shape(old)
    &&& forall|a: int, b: int, c: int|
        #![trigger new.at(a, b, c)]
        old.in_bounds(a, b, c) ==> new.at(a, b, c) == if old.at(a, b, c) is Edge {
            old.at(a, b, c)
        } else if interior_after_sweeps(old, a, b, c) {
            NonFinalVoxelData::InsideMesh
        } else {
            NonFinalVoxelData::Empty
        }
}

/// Classifies the empty voxels of a surface-voxelized grid as inside or empty: a
/// parity sweep along z with cleanup of open columns, then sweeps along x and y that
/// empty the inside voxels not enclosed by edge voxels in their row.
pub fn classify_interior_voxels<C, V>(grid: &mut VoxelGrid<NonFinalVoxelData<C, V>>)
    requires
        old(grid).wf(),
        old(grid).wf_voxels(),
        no_inside_voxels(&*old(grid)),
    ensures
        classified_from(&*final(grid), &*old(grid)),
{
    let ghost g0 = *grid;
    sweep_lines(grid, Axis::Z, true);
    let ghost g1 = *grid;
    sweep_lines(grid, Axis::X, false);
    let ghost g2 = *grid;
    sweep_lines(grid, Axis::Y, false);
    proof {
        assert forall|a: int, b: int, c: int|
            #![trigger grid.at(a, b, c)]
            g0.in_bounds(a, b, c) implies grid.at(a, b, c) == if g0.at(a, b, c) is Edge {
            g0.at(a, b, c)
        } else if interior_after_sweeps(&g0, a, b, c) {
            NonFinalVoxelData::InsideMesh
        } else {
            NonFinalVoxelData::Empty
        } by {
            assert forall|t: int| 0 <= t < g0.x_len() implies #[trigger] line_edges(
                &g1,
                Axis::X,
                b,
                c,
            )[t] == line_edges(&g0, Axis::X, b, c)[t] by {
                assert(g1.at(t, b, c) is Edge <==> g0.at(t, b, c) is Edge);
            }
            assert(line_edges(&g1, Axis::X, b, c) =~= line_edges(&g0, Axis::X, b, c));
            assert forall|t: int| 0 <= t < g0.y_len() implies #[trigger] line_edges(
                &g2,
                Axis::Y,
                a,
                c,
            )[t] == line_edges(&g0, Axis::Y, a, c)[t] by {
                assert(g1.at(a, t, c) is Edge <==> g0.at(a, t, c) is Edge);
                assert(g2.at(a, t, c) is Edge <==> g1.at(a, t, c) is Edge);
            }
            assert(line_edges(&g2, Axis::Y, a, c) =~= line_edges(&g0, Axis::Y, a, c));
            assert(!(g0.at(a, b, c) is InsideMesh));
        }
    }
}

/// Voxel (x, y, z) has an edge voxel on both sides of it along each of the three axes.
pub open spec fn shielded<C, V>(g: &VoxelGrid<NonFinalVoxelData<C, V>>, x: int, y: int, z: int) -> bool {
    let ez = line_edges(g, Axis::Z, x, y);
    let ex = line_edges(g, Axis::X, y, z);
    let ey = line_edges(g, Axis::Y, x, z);
    &&& edge_in(ex, 0, x)
    &&& edge_in(ex, x + 1, ex.len() as int)
    &&& edge_in(ey, 0, y)
    &&& edge_in(ey, y + 1, ey.len() as int)
    &&& edge_in(ez, 0, z)
    &&& edge_in(ez, z + 1, ez.len() as int)
}

/// After classification every inside voxel is enclosed by edge voxels in all six axial
/// directions: walking from it along an axis, in either direction, meets an edge voxel
/// before the grid's boundary, so no inside voxel touches an empty boundary voxel.
pub proof fn lemma_inside_voxels_are_shielded<C, V>(
    new: &VoxelGrid<NonFinalVoxelData<C, V>>,
    old: &VoxelGrid<NonFinalVoxelData<C, V>>,
)
    requires
        classified_from(new, old),
    ensures
        forall|a: int, b: int, c: int|
            #![trigger new.at(a, b, c)]
            new.in_bounds(a, b, c) && new.at(a, b, c) is InsideMesh ==> shielded(new, a, b, c),
{
    assert forall|a: int, b: int, c: int|
        #![trigger new.at(a, b, c)]
        new.in_bounds(a, b, c) && new.at(a, b, c) is InsideMesh implies shielded(new, a, b, c) by {
        lemma_same_edges(new, old, Axis::X, b, c);
        lemma_same_edges(new, old, Axis::Y, a, c);
        lemma_same_edges(new, old, Axis::Z, a, b);
        lemma_parity_marks_edge_before(line_edges(old, Axis::Z, a, b), c);
    }
}

/// Classification keeps the edge voxels of a line, and makes no others.
proof fn lemma_same_edges<C, V>(
    new: &VoxelGrid<NonFinalVoxelData<C, V>>,
    old: &VoxelGrid<NonFinalVoxelData<C, V>>,
    axis: Axis,
    f1: int,
    f2: int,
)
    requires
        classified_from(new, old),
        0 <= f1 < new.fixed_lens(axis).0,
        0 <= f2 < new.fixed_lens(axis).1,
    ensures
        line_edges(new, axis, f1, f2) == line_edges(old, axis, f1, f2),
{
    assert forall|t: int| 0 <= t < old.axis_len(axis) implies #[trigger] line_edges(
        new,
        axis,
        f1,
        f2,
    )[t] == line_edges(old, axis, f1, f2)[t] by {
        let p = line_point(axis, f1, f2, t);
        assert(old.in_bounds(p.0, p.1, p.2));
        assert(new.at(p.0, p.1, p.2) is Edge <==> old.at(p.0, p.1, p.2) is Edge);
    }
    assert(line_edges(new, axis, f1, f2) =~= line_edges(old, axis, f1, f2));
}

/// Classification and finalization keep the edge voxels of the surface pass: a voxel
/// of the final grid is an edge voxel exactly where the surface pass made one.
pub proof fn lemma_edges_preserved<C, V, FC, FV>(
    surface: &VoxelGrid<NonFinalVoxelData<C, V>>,
    classified: &VoxelGrid<NonFinalVoxelData<C, V>>,
    fin: &VoxelGrid<VoxelData<C, V>>,
    combine_colors: &FC,
    average_values: &FV,
) where FC: Fn(&Vec<C>) -> C, FV: Fn(&Vec<V>) -> V
    requires
        classified_from(classified, surface),
        finalized_from(fin, classified, combine_colors, average_values),
    ensures
        fin.same_shape(surface),
        forall|a: int, b: int, c: int|
            #![trigger fin.at(a, b, c)]
            surface.in_bounds(a, b, c) ==> (fin.at(a, b, c) is Edge <==> surface.at(a, b, c) is Edge),
        forall|a: int, b: int, c: int|
            #![trigger classified.at(a, b, c)]
            surface.in_bounds(a, b, c) && surface.at(a, b, c) is Edge ==> classified.at(a, b, c)
                == surface.at(a, b, c),
{
    assert forall|a: int, b: int, c: int|
        #![trigger fin.at(a, b, c)]
        surface.in_bounds(a, b, c) implies (fin.at(a, b, c) is Edge <==> surface.at(a, b, c) is Edge) by {
        lemma_flat_index_in_range(classified.x_len(), classified.y_len(), classified.z_len(), a, b, c);
        assert(fin.cells()[fin.flat_index(a, b, c)].reduced_from(
            &classified.cells()[classified.flat_index(a, b, c)],
            combine_colors,
            average_values,
        ));
        assert(classified.at(a, b, c) is Edge <==> surface.at(a, b, c) is Edge);
    }
}

/// Voxel (a, b, c) lies in the box `lo..=hi` on every axis.
pub open spec fn in_box(lo: int, hi: int, a: int, b: int, c: int) -> bool {
    lo <= a <= hi && lo <= b <= hi && lo <= c <= hi
}

/// Voxel (a, b, c) lies strictly inside the box `lo..=hi` on every axis.
pub open spec fn strictly_inside(lo: int, hi: int, a: int, b: int, c: int) -> bool {
    lo < a < hi && lo < b < hi && lo < c < hi
}

/// Where every edge voxel lies in the box `lo..=hi`, classification puts inside voxels
/// only strictly inside that box: no fill leaks out of a shell, closed or open.
pub proof fn lemma_inside_voxels_within_edge_box<C, V>(
    new: &VoxelGrid<NonFinalVoxelData<C, V>>,
    old: &VoxelGrid<NonFinalVoxelData<C, V>>,
    lo: int,
    hi: int,
)
    requires
        classified_from(new, old),
        forall|a: int, b: int, c: int|
            #![trigger old.at(a, b, c)]
            old.in_bounds(a, b, c) && old.at(a, b, c) is Edge ==> in_box(lo, hi, a, b, c),
    ensures
        forall|a: int, b: int, c: int|
            #![trigger new.at(a, b, c)]
            new.in_bounds(a, b, c) && new.at(a, b, c) is InsideMesh ==> strictly_inside(lo, hi, a, b, c),
{
    lemma_inside_voxels_are_shielded(new, old);
    assert forall|a: int, b: int, c: int|
        #![trigger new.at(a, b, c)]
        new.in_bounds(a, b, c) && new.at(a, b, c) is InsideMesh implies strictly_inside(
        lo,
        hi,
        a,
        b,
        c,
    ) by {
        assert(shielded(new, a, b, c));
        let ex = line_edges(new, Axis::X, b, c);
        let ey = line_edges(new, Axis::Y, a, c);
        let ez = line_edges(new, Axis::Z, a, b);
        let x1 = choose|j: int| 0 <= j < a && #[trigger] ex[j];
        let x2 = choose|j: int| a + 1 <= j < ex.len() && #[trigger] ex[j];
        let y1 = choose|j: int| 0 <= j < b && #[trigger] ey[j];
        let y2 = choose|j: int| b + 1 <= j < ey.len() && #[trigger] ey[j];
        let z1 = choose|j: int| 0 <= j < c && #[trigger] ez[j];
        let z2 = choose|j: int| c + 1 <= j < ez.len() && #[trigger] ez[j];
        assert(new.at(x1, b, c) is Edge && new.at(x2, b, c) is Edge);
        assert(new.at(a, y1, c) is Edge && new.at(a, y2, c) is Edge);
        assert(new.at(a, b, z1) is Edge && new.at(a, b, z2) is Edge);
        assert(old.at(x1, b, c) is Edge && old.at(x2, b, c) is Edge);
        assert(old.at(a, y1, c) is Edge && old.at(a, y2, c) is Edge);
        assert(old.at(a, b, z1) is Edge && old.at(a, b, z2) is Edge);
    }
}

/// In a line whose only edge positions are `lo` and `hi`, the parity sweep marks
/// every position strictly between them.
proof fn lemma_two_edge_line_marks(e: Seq<bool>, lo: int, hi: int, t: int)
    requires
        0 <= lo < t < hi < e.len(),
        forall|j: int| 0 <= j < e.len() ==> (e[j] <==> (j == lo || j == hi)),
    ensures
        parity_marks(e, t),
{
    lemma_parity_state_stable(e, 0, lo);
    assert(parity_state(e, lo + 1) == (false, true));
    assert(parity_state(e, lo + 2) == (true, false));
    lemma_parity_state_stable(e, lo + 2, t + 1);
}

/// A grid whose edge voxels are exactly the surface of the box `lo..=hi`, a closed
/// shell, is classified with inside voxels exactly strictly inside the box.
pub proof fn lemma_closed_box_shell_fills_inside<C, V>(
    new: &VoxelGrid<NonFinalVoxelData<C, V>>,
    old: &VoxelGrid<NonFinalVoxelData<C, V>>,
    lo: int,
    hi: int,
)
    requires
        classified_from(new, old),
        0 <= lo,
        hi < old.x_len(),
        hi < old.y_len(),
        hi < old.z_len(),
        forall|a: int, b: int, c: int|
            #![trigger old.at(a, b, c)]
            old.in_bounds(a, b, c) ==> (old.at(a, b, c) is Edge <==> in_box(lo, hi, a, b, c)
                && !strictly_inside(lo, hi, a, b, c)),
    ensures
        forall|a: int, b: int, c: int|
            #![trigger new.at(a, b, c)]
            new.in_bounds(a, b, c) ==> (new.at(a, b, c) is InsideMesh <==> strictly_inside(
                lo,
                hi,
                a,
                b,
                c,
            )),
{
    lemma_inside_voxels_within_edge_box(new, old, lo, hi);
    assert forall|a: int, b: int, c: int|
        #![trigger new.at(a, b, c)]
        new.in_bounds(a, b, c) && strictly_inside(lo, hi, a, b, c) implies new.at(
        a,
        b,
        c,
    ) is InsideMesh by {
        let ex = line_edges(old, Axis::X, b, c);
        let ey = line_edges(old, Axis::Y, a, c);
        let ez = line_edges(old, Axis::Z, a, b);
        assert forall|j: int| 0 <= j < ez.len() implies (ez[j] <==> (j == lo || j == hi)) by {
            assert(ez[j] == old.at(a, b, j) is Edge);
        }
        lemma_two_edge_line_marks(ez, lo, hi, c);
        assert(ez[hi]);
        assert(ex[lo] == old.at(lo, b, c) is Edge);
        assert(ex[hi] == old.at(hi, b, c) is Edge);
        assert(ey[lo] == old.at(a, lo, c) is Edge);
        assert(ey[hi] == old.at(a, hi, c) is Edge);
        assert(interior_after_sweeps(old, a, b, c));
    }
}

/// Removing edge voxels from a closed box shell (opening it) never adds inside voxels:
/// the opened shell's inside voxels are among the closed shell's.
pub proof fn lemma_open_shell_fills_no_more<C, V>(
    open_new: &VoxelGrid<NonFinalVoxelData<C, V>>,
    open: &VoxelGrid<NonFinalVoxelData<C, V>>,
    closed_new: &VoxelGrid<NonFinalVoxelData<C, V>>,
    closed: &VoxelGrid<NonFinalVoxelData<C, V>>,
    lo: int,
    hi: int,
)
    requires
        classified_from(open_new, open),
        classified_from(closed_new, closed),
        open.same_shape(closed),
        0 <= lo,
        hi < closed.x_len(),
        hi < closed.y_len(),
        hi < closed.z_len(),
        forall|a: int, b: int, c: int|
            #![trigger closed.at(a, b, c)]
            closed.in_bounds(a, b, c) ==> (closed.at(a, b, c) is Edge <==> in_box(lo, hi, a, b, c)
                && !strictly_inside(lo, hi, a, b, c)),
        forall|a: int, b: int, c: int|
            #![trigger open.at(a, b, c)]
            open.in_bounds(a, b, c) && open.at(a, b, c) is Edge ==> closed.at(a, b, c) is Edge,
    ensures
        forall|a: int, b: int, c: int|
            #![trigger open_new.at(a, b, c)]
            open_new.in_bounds(a, b, c) && open_new.at(a, b, c) is InsideMesh ==> closed_new.at(
                a,
                b,
                c,
            ) is InsideMesh,
{
    lemma_closed_box_shell_fills_inside(closed_new, closed, lo, hi);
    assert forall|a: int, b: int, c: int|
        #![trigger open.at(a, b, c)]
        open.in_bounds(a, b, c) && open.at(a, b, c) is Edge implies in_box(lo, hi, a, b, c) by {
        assert(closed.at(a, b, c) is Edge);
    }
    lemma_inside_voxels_within_edge_box(open_new, open, lo, hi);
    assert forall|a: int, b: int, c: int|
        #![trigger open_new.at(a, b, c)]
        open_new.in_bounds(a, b, c) && open_new.at(a, b, c) is InsideMesh implies closed_new.at(
        a,
        b,
        c,
    ) is InsideMesh by {
        assert(strictly_inside(lo, hi, a, b, c));
        assert(closed_new.in_bounds(a, b, c));
    }
}

} // verus!
