//! Surface voxelization: the voxels of a triangle's index box that the triangle
//! overlaps become edge voxels and record one material sample each.

use vstd::prelude::*;

use crate::grid::VoxelGrid;
use crate::voxel::NonFinalVoxelData;

verus! {

/// `v` clamped to `lo..=hi`.
pub open spec fn clamp_int(v: int, lo: int, hi: int) -> int {
    if v < lo {
        lo
    } else if v > hi {
        hi
    } else {
        v
    }
}

/// The part of the index range `start..start + count` that lies inside `0..length`,
/// as a half-open range: indices outside the grid are dropped, never visited.
pub fn clamp_index_range(start: i64, count: u64, length: usize) -> (r: (usize, usize))
    ensures
        r.0 == clamp_int(start as int, 0, length as int),
        r.1 == clamp_int(start + count, 0, length as int),
        r.0 <= r.1 <= length,
{
    let lo: usize = if start < 0 {
        0
    } else if start as u64 >= length as u64 {
        length
    } else {
        start as usize
    };
    let end: i128 = start as i128 + count as i128;
    let hi: usize = if end < 0 {
        0
    } else if end >= length as i128 {
        length
    } else {
        end as usize
    };
    (lo, hi)
}

/// The index triple lies in the half-open box `x.0..x.1` by `y.0..y.1` by `z.0..z.1`.
pub open spec fn in_index_box(
    x_range: (usize, usize),
    y_range: (usize, usize),
    z_range: (usize, usize),
    a: int,
    b: int,
    c: int,
) -> bool {
    &&& x_range.0 <= a < x_range.1
    &&& y_range.0 <= b < y_range.1
    &&& z_range.0 <= c < z_range.1
}

/// What one probe of voxel (a, b, c) may have done: either the probe reported no
/// overlap and the voxel is kept, or it handed back a sample that the voxel recorded.
pub open spec fn probed<C, V, F>(
    probe: &F,
    new: NonFinalVoxelData<C, V>,
    old: NonFinalVoxelData<C, V>,
    a: int,
    b: int,
    c: int,
) -> bool where F: Fn(usize, usize, usize) -> Option<(C, V, V)> {
    ||| (probe.ensures((a as usize, b as usize, c as usize), None) && new == old)
    ||| exists|s: (C, V, V)|
        #[trigger] probe.ensures((a as usize, b as usize, c as usize), Some(s))
            && new.sample_added(old, s.0, s.1, s.2)
}

/// Probes every voxel of an index box inside the grid once, z varying fastest. The
/// probe tests one voxel's box against one triangle; where they overlap it returns the
/// material sample (color, metallic, roughness) to record there.
pub fn voxelize_triangle_box<C, V, F>(
    grid: &mut VoxelGrid<NonFinalVoxelData<C, V>>,
    x_range: (usize, usize),
    y_range: (usize, usize),
    z_range: (usize, usize),
    probe: &F,
) where F: Fn(usize, usize, usize) -> Option<(C, V, V)>
    requires
        old(grid).wf(),
        old(grid).wf_voxels(),
        x_range.0 <= x_range.1 <= old(grid).x_len(),
        y_range.0 <= y_range.1 <= old(grid).y_len(),
        z_range.0 <= z_range.1 <= old(grid).z_len(),
        forall|a: usize, b: usize, c: usize| #[trigger] probe.requires((a, b, c)),
    ensures
        final(grid).wf(),
        final(grid).wf_voxels(),
        final(grid).same_shape(&*old(grid)),
        forall|a: int, b: int, c: int|
            #![trigger final(grid).at(a, b, c)]
            old(grid).in_bounds(a, b, c) ==> if in_index_box(x_range, y_range, z_range, a, b, c) {
                probed(probe, final(grid).at(a, b, c), old(grid).at(a, b, c), a, b, c)
            } else {
                final(grid).at(a, b, c) == old(grid).at(a, b, c)
            },
{
    let ghost g0 = *grid;
    let mut x = x_range.0;
    while x < x_range.1
        invariant
            x_range.0 <= x <= x_range.1 <= g0.x_len(),
            y_range.0 <= y_range.1 <= g0.y_len(),
            z_range.0 <= z_range.1 <= g0.z_len(),
            forall|a: usize, b: usize, c: usize| #[trigger] probe.requires((a, b, c)),
            grid.wf(),
            grid.wf_voxels(),
            grid.same_shape(&g0),
            forall|a: int, b: int, c: int|
                #![trigger grid.at(a, b, c)]
                g0.in_bounds(a, b, c) ==> if in_index_box(x_range, y_range, z_range, a, b, c) && a < x {
                    probed(probe, grid.at(a, b, c), g0.at(a, b, c), a, b, c)
                } else {
                    grid.at(a, b, c) == g0.at(a, b, c)
                },
        decreases x_range.1 - x,
    {
        let mut y = y_range.0;
        while y < y_range.1
            invariant
                x_range.0 <= x < x_range.1 <= g0.x_len(),
                y_range.0 <= y <= y_range.1 <= g0.y_len(),
                z_range.0 <= z_range.1 <= g0.z_len(),
                forall|a: usize, b: usize, c: usize| #[trigger] probe.requires((a, b, c)),
                grid.wf(),
                grid.wf_voxels(),
                grid.same_shape(&g0),
                forall|a: int, b: int, c: int|
                    #![trigger grid.at(a, b, c)]
                    g0.in_bounds(a, b, c) ==> if in_index_box(x_range, y_range, z_range, a, b, c)
                        && (a < x || (a == x && b < y)) {
                        probed(probe, grid.at(a, b, c), g0.at(a, b, c), a, b, c)
                    } else {
                        grid.at(a, b, c) == g0.at(a, b, c)
                    },
            decreases y_range.1 - y,
        {
            let mut z = z_range.0;
            while z < z_range.1
                invariant
                    x_range.0 <= x < x_range.1 <= g0.x_len(),
                    y_range.0 <= y < y_range.1 <= g0.y_len(),
                    z_range.0 <= z <= z_range.1 <= g0.z_len(),
                    forall|a: usize, b: usize, c: usize| #[trigger] probe.requires((a, b, c)),
                    grid.wf(),
                    grid.wf_voxels(),
                    grid.same_shape(&g0),
                    forall|a: int, b: int, c: int|
                        #![trigger grid.at(a, b, c)]
                        g0.in_bounds(a, b, c) ==> if in_index_box(
                            x_range,
                            y_range,
                            z_range,
                            a,
                            b,
                            c,
                        ) && (a < x || (a == x && b < y) || (a == x && b == y && c < z)) {
                            probed(probe, grid.at(a, b, c), g0.at(a, b, c), a, b, c)
                        } else {
                            grid.at(a, b, c) == g0.at(a, b, c)
                        },
                decreases z_range.1 - z,
            {
                let hit = probe(x, y, z);
                match hit {
                    Some(sample) => {
                        let (color, metallic_value, roughness_value) = sample;
                        let mut voxel = grid.take_voxel_by_xyz_index_unchecked(x, y, z);
                        voxel.add_sample(color, metallic_value, roughness_value);
                        grid.set_voxel_by_xyz_index_unchecked(x, y, z, voxel);
                        proof {
                            assert(probe.ensures((x, y, z), Some(sample)));
                            assert(grid.at(x as int, y as int, z as int).sample_added(
                                g0.at(x as int, y as int, z as int),
                                sample.0,
                                sample.1,
                                sample.2,
                            ));
                        }
                    },
                    None => {},
                }
                z = z + 1;
            }
            y = y + 1;
        }
        x = x + 1;
    }
}

} // verus!
