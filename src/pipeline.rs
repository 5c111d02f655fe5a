//! One model's voxelization in index space: surface pass over the triangles' index
//! boxes, interior classification, and reduction into a final grid.

use vstd::prelude::*;

use crate::grid::{finalized_from, VoxelGrid};
use crate::infill::{classified_from, classify_interior_voxels};
use crate::surface::{clamp_index_range, clamp_int, in_index_box, voxelize_triangle_box};
use crate::voxel::{NonFinalVoxelData, VoxelData};

verus! {

/// A triangle's candidate voxels as the caller derives them from its bounding box:
/// per axis the first index `floor((min - origin) / s)` and the count
/// `floor((max - min) / s) + 2`.
#[derive(Clone, Copy, PartialEq, Eq, Debug)]
pub struct TriangleIndexBox {
    pub x_start: i64,
    pub x_count: u64,
    pub y_start: i64,
    pub y_count: u64,
    pub z_start: i64,
    pub z_count: u64,
}

/// Voxel (a, b, c) lies in the box clamped to a grid of the given dimensions.
pub open spec fn in_clamped_box(
    t: TriangleIndexBox,
    x_len: int,
    y_len: int,
    z_len: int,
    a: int,
    b: int,
    c: int,
) -> bool {
    &&& clamp_int(t.x_start as int, 0, x_len) <= a < clamp_int(t.x_start + t.x_count, 0, x_len)
    &&& clamp_int(t.y_start as int, 0, y_len) <= b < clamp_int(t.y_start + t.y_count, 0, y_len)
    &&& clamp_int(t.z_start as int, 0, z_len) <= c < clamp_int(t.z_start + t.z_count, 0, z_len)
}

/// The probe found voxel (a, b, c) not overlapped by triangle `t`.
pub open spec fn probe_miss<C, V, P>(probe: &P, t: int, a: int, b: int, c: int) -> bool where
    P: Fn(usize, usize, usize, usize) -> Option<(C, V, V)>,
 {
    probe.ensures((t as usize, a as usize, b as usize, c as usize), None)
}

/// The sample sequences (color, metallic, roughness) of a work voxel: those of an edge
/// voxel, empty for any other.
pub open spec fn samples_of<C, V>(v: NonFinalVoxelData<C, V>) -> (Seq<C>, Seq<V>, Seq<V>) {
    match v {
        NonFinalVoxelData::Edge {
            color_samples,
            metallic_value_samples,
            roughness_value_samples,
        } => (color_samples@, metallic_value_samples@, roughness_value_samples@),
        _ => (Seq::empty(), Seq::empty(), Seq::empty()),
    }
}

/// `ts` lists, in increasing order, the triangles among the first `count` that hit
/// voxel (a, b, c): each holds the voxel in its clamped box, and its probe handed back
/// the sample at the same position of the voxel's sample sequences. Every other
/// triangle whose clamped box holds the voxel missed it. The voxel is an edge voxel
/// exactly when `ts` is not empty.
pub open spec fn hits_recorded<C, V, P>(
    g: &VoxelGrid<NonFinalVoxelData<C, V>>,
    ts: Seq<int>,
    boxes: Seq<TriangleIndexBox>,
    count: int,
    probe: &P,
    a: int,
    b: int,
    c: int,
) -> bool where P: Fn(usize, usize, usize, usize) -> Option<(C, V, V)> {
    let v = g.at(a, b, c);
    let samples = samples_of(v);
    &&& (v is Edge <==> ts.len() > 0)
    &&& samples.0.len() == ts.len()
    &&& samples.1.len() == ts.len()
    &&& samples.2.len() == ts.len()
    &&& forall|k: int|
        0 <= k < ts.len() ==> {
            &&& 0 <= #[trigger] ts[k] < count
            &&& in_clamped_box(boxes[ts[k]], g.x_len(), g.y_len(), g.z_len(), a, b, c)
            &&& probe.ensures(
                (ts[k] as usize, a as usize, b as usize, c as usize),
                Some((samples.0[k], samples.1[k], samples.2[k])),
            )
        }
    &&& forall|k: int, l: int| 0 <= k < l < ts.len() ==> ts[k] < ts[l]
    &&& forall|t: int|
        0 <= t < count && #[trigger] in_clamped_box(boxes[t], g.x_len(), g.y_len(), g.z_len(), a, b, c)
            ==> (exists|k: int| 0 <= k < ts.len() && ts[k] == t) || probe_miss(probe, t, a, b, c)
}

/// Voxel (a, b, c) after the surface pass over the first `count` triangles: not an
/// inside voxel, and carrying exactly the samples of the triangles that hit it, in
/// triangle order.
pub open spec fn surface_voxel_ok<C, V, P>(
    g: &VoxelGrid<NonFinalVoxelData<C, V>>,
    boxes: Seq<TriangleIndexBox>,
    count: int,
    probe: &P,
    a: int,
    b: int,
    c: int,
) -> bool where P: Fn(usize, usize, usize, usize) -> Option<(C, V, V)> {
    &&& !(g.at(a, b, c) is InsideMesh)
    &&& exists|ts: Seq<int>| #[trigger] hits_recorded(g, ts, boxes, count, probe, a, b, c)
}

/// `surface` is the surface pass over all boxes: well formed, and each voxel as
/// `surface_voxel_ok` says.
pub open spec fn surface_of<C, V, P>(
    surface: &VoxelGrid<NonFinalVoxelData<C, V>>,
    boxes: Seq<TriangleIndexBox>,
    probe: &P,
) -> bool where P: Fn(usize, usize, usize, usize) -> Option<(C, V, V)> {
    &&& surface.wf()
    &&& surface.wf_voxels()
    &&& forall|a: int, b: int, c: int|
        #![trigger surface.at(a, b, c)]
        surface.in_bounds(a, b, c) ==> surface_voxel_ok(surface, boxes, boxes.len() as int, probe, a, b, c)
}

/// Voxelizes one model into a final grid of the given dimensions. For triangle `t`
/// the probe tests voxel (x, y, z) against the triangle and returns the material
/// sample to record where they overlap; only voxels of the triangle's index box,
/// clamped to the grid, are probed. The result is the reduction of the classification
/// of a surface-voxelized grid.
pub fn voxelize_model_grid<C, V, P, FC, FV>(
    x_size: usize,
    y_size: usize,
    z_size: usize,
    triangle_boxes: &Vec<TriangleIndexBox>,
    probe: &P,
    combine_colors: &FC,
    average_values: &FV,
) -> (r: VoxelGrid<VoxelData<C, V>>) where
    P: Fn(usize, usize, usize, usize) -> Option<(C, V, V)>,
    FC: Fn(&Vec<C>) -> C,
    FV: Fn(&Vec<V>) -> V,

    requires
        x_size * y_size * z_size <= usize::MAX,
        forall|t: usize, a: usize, b: usize, c: usize| #[trigger] probe.requires((t, a, b, c)),
        forall|s: &Vec<C>| s@.len() > 0 ==> #[trigger] combine_colors.requires((s,)),
        forall|s: &Vec<V>| s@.len() > 0 ==> #[trigger] average_values.requires((s,)),
    ensures
        r.wf(),
        r.x_len() == x_size,
        r.y_len() == y_size,
        r.z_len() == z_size,
        exists|surface: VoxelGrid<NonFinalVoxelData<C, V>>, classified: VoxelGrid<NonFinalVoxelData<C, V>>|
            {
                &&& #[trigger] surface_of(&surface, triangle_boxes@, probe)
                &&& classified_from(&classified, &surface)
                &&& #[trigger] finalized_from(&r, &classified, combine_colors, average_values)
            },
{
    let mut grid: VoxelGrid<NonFinalVoxelData<C, V>> = VoxelGrid::new(x_size, y_size, z_size);
    proof {
        crate::grid::lemma_grid_layout(&grid);
        assert forall|a: int, b: int, c: int|
            #![trigger grid.at(a, b, c)]
            grid.in_bounds(a, b, c) implies grid.at(a, b, c) is Empty && surface_voxel_ok(
            &grid,
            triangle_boxes@,
            0,
            probe,
            a,
            b,
            c,
        ) by {
            assert(grid.cells()[grid.flat_index(a, b, c)] is Empty);
            assert(hits_recorded(&grid, Seq::empty(), triangle_boxes@, 0, probe, a, b, c));
        }
    }
    let mut t: usize = 0;
    while t < triangle_boxes.len()
        invariant
            t <= triangle_boxes@.len(),
            grid.wf(),
            grid.wf_voxels(),
            grid.x_len() == x_size,
            grid.y_len() == y_size,
            grid.z_len() == z_size,
            forall|t: usize, a: usize, b: usize, c: usize| #[trigger] probe.requires((t, a, b, c)),
            forall|a: int, b: int, c: int|
                #![trigger grid.at(a, b, c)]
                grid.in_bounds(a, b, c) ==> surface_voxel_ok(
                    &grid,
                    triangle_boxes@,
                    t as int,
                    probe,
                    a,
                    b,
                    c,
                ),
        decreases triangle_boxes@.len() - t,
    {
        let bx = triangle_boxes[t];
        let x_range = clamp_index_range(bx.x_start, bx.x_count, x_size);
        let y_range = clamp_index_range(bx.y_start, bx.y_count, y_size);
        let z_range = clamp_index_range(bx.z_start, bx.z_count, z_size);
        let box_probe = |x: usize, y: usize, z: usize| -> (r: Option<(C, V, V)>)
            ensures
                probe.ensures((t, x, y, z), r),
            { probe(t, x, y, z) };
        let ghost before = grid;
        voxelize_triangle_box(&mut grid, x_range, y_range, z_range, &box_probe);
        proof {
            assert forall|a: int, b: int, c: int|
                #![trigger grid.at(a, b, c)]
                grid.in_bounds(a, b, c) implies surface_voxel_ok(
                &grid,
                triangle_boxes@,
                t + 1,
                probe,
                a,
                b,
                c,
            ) by {
                assert(surface_voxel_ok(&before, triangle_boxes@, t as int, probe, a, b, c));
                let ts = choose|ts: Seq<int>|
                    #[trigger] hits_recorded(&before, ts, triangle_boxes@, t as int, probe, a, b, c);
                let in_this = in_clamped_box(
                    triangle_boxes@[t as int],
                    grid.x_len(),
                    grid.y_len(),
                    grid.z_len(),
                    a,
                    b,
                    c,
                );
                assert(in_this == in_index_box(x_range, y_range, z_range, a, b, c));
                if in_this && !(grid.at(a, b, c) == before.at(a, b, c) && probe_miss(
                    probe,
                    t as int,
                    a,
                    b,
                    c,
                )) {
                    let s = choose|s: (C, V, V)|
                        #[trigger] box_probe.ensures((a as usize, b as usize, c as usize), Some(s))
                            && grid.at(a, b, c).sample_added(before.at(a, b, c), s.0, s.1, s.2);
                    assert(probe.ensures((t, a as usize, b as usize, c as usize), Some(s)));
                    let ts2 = ts.push(t as int);
                    let old_samples = samples_of(before.at(a, b, c));
                    let new_samples = samples_of(grid.at(a, b, c));
                    assert(new_samples.0 =~= old_samples.0.push(s.0));
                    assert(new_samples.1 =~= old_samples.1.push(s.1));
                    assert(new_samples.2 =~= old_samples.2.push(s.2));
                    assert forall|w: int|
                        0 <= w < t + 1 && #[trigger] in_clamped_box(
                            triangle_boxes@[w],
                            grid.x_len(),
                            grid.y_len(),
                            grid.z_len(),
                            a,
                            b,
                            c,
                        ) implies (exists|k: int| 0 <= k < ts2.len() && ts2[k] == w) || probe_miss(
                        probe,
                        w,
                        a,
                        b,
                        c,
                    ) by {
                        if w == t {
                            assert(ts2[ts.len() as int] == w);
                        } else if !probe_miss(probe, w, a, b, c) {
                            let k = choose|k: int| 0 <= k < ts.len() && ts[k] == w;
                            assert(ts2[k] == w);
                        }
                    }
                    assert(hits_recorded(&grid, ts2, triangle_boxes@, t + 1, probe, a, b, c));
                } else {
                    assert(grid.at(a, b, c) == before.at(a, b, c));
                    assert(hits_recorded(&grid, ts, triangle_boxes@, t + 1, probe, a, b, c));
                }
            }
        }
        t = t + 1;
    }
    let ghost surface = grid;
    classify_interior_voxels(&mut grid);
    let ghost classified = grid;
    let fin = grid.into_final_grid(combine_colors, average_values);
    proof {
        assert(surface_of(&surface, triangle_boxes@, probe));
        assert(finalized_from(&fin, &classified, combine_colors, average_values));
    }
    fin
}

} // verus!
