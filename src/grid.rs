//! Dense three-dimensional voxel grid. The voxel at index (x, y, z) is stored at flat
//! position `x + y * x_length + z * x_length * y_length`.

use vstd::prelude::*;

use crate::voxel::{NonFinalVoxelData, VoxelData};

verus! {

/// Flat storage position of voxel (x, y, z) in a grid with the given x and y lengths.
pub open spec fn flat_index_of(x_length: int, y_length: int, x: int, y: int, z: int) -> int {
    x + y * x_length + z * x_length * y_length
}

/// Every index triple inside the grid's dimensions maps to a position inside the storage.
pub proof fn lemma_flat_index_in_range(
    x_length: int,
    y_length: int,
    z_length: int,
    x: int,
    y: int,
    z: int,
)
    requires
        0 <= x < x_length,
        0 <= y < y_length,
        0 <= z < z_length,
    ensures
        0 <= flat_index_of(x_length, y_length, x, y, z) < x_length * y_length * z_length,
{
    assert(0 <= y * x_length <= (y_length - 1) * x_length) by (nonlinear_arith)
        requires
            0 <= y <= y_length - 1,
            0 <= x_length,
    ;
    assert(0 <= z * (x_length * y_length) <= (z_length - 1) * (x_length * y_length))
        by (nonlinear_arith)
        requires
            0 <= z <= z_length - 1,
            0 <= x_length,
            0 <= y_length,
    ;
    assert((y_length - 1) * x_length == x_length * y_length - x_length) by (nonlinear_arith);
    assert((z_length - 1) * (x_length * y_length) == x_length * y_length * z_length - x_length
        * y_length) by (nonlinear_arith);
    assert(z * x_length * y_length == z * (x_length * y_length)) by (nonlinear_arith);
}

/// Two index triples inside the grid's dimensions share a storage position only if
/// they are equal.
pub proof fn lemma_flat_index_injective(
    x_length: int,
    y_length: int,
    x1: int,
    y1: int,
    z1: int,
    x2: int,
    y2: int,
    z2: int,
)
    requires
        0 <= x1 < x_length,
        0 <= y1 < y_length,
        0 <= z1,
        0 <= x2 < x_length,
        0 <= y2 < y_length,
        0 <= z2,
        flat_index_of(x_length, y_length, x1, y1, z1) == flat_index_of(
            x_length,
            y_length,
            x2,
            y2,
            z2,
        ),
    ensures
        x1 == x2,
        y1 == y2,
        z1 == z2,
{
    let xy = x_length * y_length;
    assert(z1 * x_length * y_length == z1 * xy) by (nonlinear_arith)
        requires
            xy == x_length * y_length,
    ;
    assert(z2 * x_length * y_length == z2 * xy) by (nonlinear_arith)
        requires
            xy == x_length * y_length,
    ;
    let r1 = x1 + y1 * x_length;
    let r2 = x2 + y2 * x_length;
    assert(0 <= r1 < xy && 0 <= r2 < xy) by {
        lemma_flat_index_in_range(x_length, y_length, 1, x1, y1, 0);
        lemma_flat_index_in_range(x_length, y_length, 1, x2, y2, 0);
    }
    assert(z1 == z2) by (nonlinear_arith)
        requires
            r1 + z1 * xy == r2 + z2 * xy,
            0 <= r1 < xy,
            0 <= r2 < xy,
    ;
    assert(y1 == y2) by (nonlinear_arith)
        requires
            x1 + y1 * x_length == x2 + y2 * x_length,
            0 <= x1 < x_length,
            0 <= x2 < x_length,
    ;
}

/// A model's final voxel grid together with the model's primitive index, which the
/// engine carries through without interpreting it.
pub struct ContextualVoxelGrid<C, V> {
    pub gltf_model_primitive_index: usize,
    pub grid: VoxelGrid<VoxelData<C, V>>,
}

/// One of the grid's three axes.
#[derive(Clone, Copy, PartialEq, Eq, Debug)]
pub enum Axis {
    X,
    Y,
    Z,
}

/// The index triple at position `t` of the line along `axis` whose two other
/// coordinates are `f1` and `f2`, in (x, y, z) order.
pub open spec fn line_point(axis: Axis, f1: int, f2: int, t: int) -> (int, int, int) {
    match axis {
        Axis::X => (t, f1, f2),
        Axis::Y => (f1, t, f2),
        Axis::Z => (f1, f2, t),
    }
}

/// The two coordinates of (x, y, z) that stay fixed along `axis`.
pub open spec fn fixed_coords(axis: Axis, x: int, y: int, z: int) -> (int, int) {
    match axis {
        Axis::X => (y, z),
        Axis::Y => (x, z),
        Axis::Z => (x, y),
    }
}

/// The coordinate of (x, y, z) that varies along `axis`.
pub open spec fn line_pos(axis: Axis, x: int, y: int, z: int) -> int {
    match axis {
        Axis::X => x,
        Axis::Y => y,
        Axis::Z => z,
    }
}

/// Index triple of position `t` on a line of the grid.
pub fn line_xyz(axis: Axis, f1: usize, f2: usize, t: usize) -> (r: (usize, usize, usize))
    ensures
        r.0 == line_point(axis, f1 as int, f2 as int, t as int).0,
        r.1 == line_point(axis, f1 as int, f2 as int, t as int).1,
        r.2 == line_point(axis, f1 as int, f2 as int, t as int).2,
{
    match axis {
        Axis::X => (t, f1, f2),
        Axis::Y => (f1, t, f2),
        Axis::Z => (f1, f2, t),
    }
}

/// `fin` is the reduction of the work grid `work` with the given reducers: same
/// shape, and each voxel reduced from the voxel at the same position.
pub open spec fn finalized_from<C, V, FC, FV>(
    fin: &VoxelGrid<VoxelData<C, V>>,
    work: &VoxelGrid<NonFinalVoxelData<C, V>>,
    combine_colors: &FC,
    average_values: &FV,
) -> bool where FC: Fn(&Vec<C>) -> C, FV: Fn(&Vec<V>) -> V {
    &&& fin.wf()
    &&& fin.same_shape(work)
    &&& fin.cells().len() == work.cells().len()
    &&& forall|i: int|
        0 <= i < fin.cells().len() ==> (#[trigger] fin.cells()[i]).reduced_from(
            &work.cells()[i],
            combine_colors,
            average_values,
        )
}

/// The storage of a well-formed grid holds exactly x_length * y_length * z_length
/// voxels, and voxel (x, y, z) is the one at flat position
/// `x + y * x_length + z * x_length * y_length`.
pub proof fn lemma_grid_layout<T>(grid: &VoxelGrid<T>)
    requires
        grid.wf(),
    ensures
        grid.cells().len() == grid.x_len() * grid.y_len() * grid.z_len(),
        forall|x: int, y: int, z: int|
            #![trigger grid.flat_index(x, y, z)]
            grid.in_bounds(x, y, z) ==> 0 <= grid.flat_index(x, y, z) < grid.cells().len()
                && grid.at(x, y, z) == grid.cells()[grid.flat_index(x, y, z)],
{
    assert forall|x: int, y: int, z: int|
        #![trigger grid.flat_index(x, y, z)]
        grid.in_bounds(x, y, z) implies 0 <= grid.flat_index(x, y, z) < grid.cells().len()
        && grid.at(x, y, z) == grid.cells()[grid.flat_index(x, y, z)] by {
        lemma_flat_index_in_range(grid.x_len(), grid.y_len(), grid.z_len(), x, y, z);
    }
}

/// A dense grid of voxels with its dimensions; see the module documentation for
/// the storage layout.
pub struct VoxelGrid<T> {
    x_length: usize,
    y_length: usize,
    z_length: usize,
    grid: Vec<T>,
}

impl<T> VoxelGrid<T> {
    pub closed spec fn x_len(&self) -> int {
        self.x_length as int
    }

    pub closed spec fn y_len(&self) -> int {
        self.y_length as int
    }

    pub closed spec fn z_len(&self) -> int {
        self.z_length as int
    }

    /// The voxels in storage order.
    pub closed spec fn cells(&self) -> Seq<T> {
        self.grid@
    }

    /// The storage holds exactly one voxel per index triple.
    pub open spec fn wf(&self) -> bool {
        &&& self.cells().len() == self.x_len() * self.y_len() * self.z_len()
        &&& self.cells().len() <= usize::MAX
        &&& 0 <= self.x_len() <= usize::MAX
        &&& 0 <= self.y_len() <= usize::MAX
        &&& 0 <= self.z_len() <= usize::MAX
    }

    pub open spec fn in_bounds(&self, x: int, y: int, z: int) -> bool {
        0 <= x < self.x_len() && 0 <= y < self.y_len() && 0 <= z < self.z_len()
    }

    pub open spec fn flat_index(&self, x: int, y: int, z: int) -> int {
        flat_index_of(self.x_len(), self.y_len(), x, y, z)
    }

    /// The voxel at index (x, y, z).
    pub open spec fn at(&self, x: int, y: int, z: int) -> T {
        self.cells()[self.flat_index(x, y, z)]
    }

    /// Number of voxels along `axis`.
    pub open spec fn axis_len(&self, axis: Axis) -> int {
        match axis {
            Axis::X => self.x_len(),
            Axis::Y => self.y_len(),
            Axis::Z => self.z_len(),
        }
    }

    /// Number of voxels along the first and the second fixed coordinate of lines
    /// along `axis`.
    pub open spec fn fixed_lens(&self, axis: Axis) -> (int, int) {
        match axis {
            Axis::X => (self.y_len(), self.z_len()),
            Axis::Y => (self.x_len(), self.z_len()),
            Axis::Z => (self.x_len(), self.y_len()),
        }
    }

    /// The voxel at position `t` of a line along `axis`.
    pub open spec fn at_line(&self, axis: Axis, f1: int, f2: int, t: int) -> T {
        let p = line_point(axis, f1, f2, t);
        self.at(p.0, p.1, p.2)
    }

    /// Same dimensions as `other`.
    pub open spec fn same_shape<U>(&self, other: &VoxelGrid<U>) -> bool {
        &&& self.x_len() == other.x_len()
        &&& self.y_len() == other.y_len()
        &&& self.z_len() == other.z_len()
    }

    pub fn axis_length(&self, axis: Axis) -> (r: usize)
        ensures
            r == self.axis_len(axis),
    {
        match axis {
            Axis::X => self.x_length,
            Axis::Y => self.y_length,
            Axis::Z => self.z_length,
        }
    }

    pub fn fixed_lengths(&self, axis: Axis) -> (r: (usize, usize))
        ensures
            r.0 == self.fixed_lens(axis).0,
            r.1 == self.fixed_lens(axis).1,
    {
        match axis {
            Axis::X => (self.y_length, self.z_length),
            Axis::Y => (self.x_length, self.z_length),
            Axis::Z => (self.x_length, self.y_length),
        }
    }

    pub fn x_length(&self) -> (r: usize)
        ensures
            r == self.x_len(),
    {
        self.x_length
    }

    pub fn y_length(&self) -> (r: usize)
        ensures
            r == self.y_len(),
    {
        self.y_length
    }

    pub fn z_length(&self) -> (r: usize)
        ensures
            r == self.z_len(),
    {
        self.z_length
    }

    /// The voxels in storage order.
    pub fn voxels(&self) -> (r: &[T])
        ensures
            r@ == self.cells(),
    {
        self.grid.as_slice()
    }

    pub fn voxel_by_xyz_index_unchecked(&self, x: usize, y: usize, z: usize) -> (r: &T)
        requires
            self.wf(),
            self.in_bounds(x as int, y as int, z as int),
        ensures
            *r == self.at(x as int, y as int, z as int),
    {
        let index = self.flat_index_exec(x, y, z);
        &self.grid[index]
    }

    /// Puts `voxel` at index (x, y, z) and hands back the voxel that was there.
    pub fn replace_voxel_by_xyz_index_unchecked(
        &mut self,
        x: usize,
        y: usize,
        z: usize,
        voxel: T,
    ) -> (r: T)
        requires
            old(self).wf(),
            old(self).in_bounds(x as int, y as int, z as int),
        ensures
            final(self).same_shape(old(self)),
            final(self).wf(),
            r == old(self).at(x as int, y as int, z as int),
            final(self).cells() == old(self).cells().update(
                old(self).flat_index(x as int, y as int, z as int),
                voxel,
            ),
            forall|a: int, b: int, c: int|
                #![trigger final(self).at(a, b, c)]
                old(self).in_bounds(a, b, c) ==> final(self).at(a, b, c) == if a == x && b == y
                    && c == z {
                    voxel
                } else {
                    old(self).at(a, b, c)
                },
    {
        proof {
            assert forall|a: int, b: int, c: int|
                #![trigger self.at(a, b, c)]
                self.in_bounds(a, b, c) && !(a == x && b == y && c == z) implies self.flat_index(
                a,
                b,
                c,
            ) != self.flat_index(x as int, y as int, z as int) && 0 <= self.flat_index(a, b, c)
                < self.cells().len() by {
                lemma_flat_index_in_range(self.x_len(), self.y_len(), self.z_len(), a, b, c);
                if self.flat_index(a, b, c) == self.flat_index(x as int, y as int, z as int) {
                    lemma_flat_index_injective(
                        self.x_len(),
                        self.y_len(),
                        a,
                        b,
                        c,
                        x as int,
                        y as int,
                        z as int,
                    );
                }
            }
        }
        let index = self.flat_index_exec(x, y, z);
        let mut voxel = voxel;
        std::mem::swap(&mut self.grid[index], &mut voxel);
        voxel
    }

    /// Storage position of index (x, y, z).
    fn flat_index_exec(&self, x: usize, y: usize, z: usize) -> (r: usize)
        requires
            self.wf(),
            self.in_bounds(x as int, y as int, z as int),
        ensures
            r == self.flat_index(x as int, y as int, z as int),
            r < self.cells().len(),
    {
        proof {
            lemma_flat_index_in_range(
                self.x_len(),
                self.y_len(),
                self.z_len(),
                x as int,
                y as int,
                z as int,
            );
            assert(x + y * self.x_len() <= self.flat_index(x as int, y as int, z as int))
                by (nonlinear_arith)
                requires
                    0 <= z,
                    0 <= self.x_len(),
                    0 <= self.y_len(),
                    self.flat_index(x as int, y as int, z as int) == x + y * self.x_len() + z
                        * self.x_len() * self.y_len(),
            ;
            assert(0 <= z * (self.x_len() * self.y_len()) <= self.flat_index(
                x as int,
                y as int,
                z as int,
            )) by (nonlinear_arith)
                requires
                    0 <= x,
                    0 <= y,
                    0 <= z,
                    0 <= self.x_len(),
                    0 <= self.y_len(),
                    self.flat_index(x as int, y as int, z as int) == x + y * self.x_len() + z
                        * self.x_len() * self.y_len(),
            ;
            assert(0 <= self.x_len() * self.y_len() <= self.cells().len()) by (nonlinear_arith)
                requires
                    0 <= self.x_len(),
                    0 <= self.y_len(),
                    0 < self.z_len(),
                    self.cells().len() == self.x_len() * self.y_len() * self.z_len(),
            ;
            assert(z * (self.x_len() * self.y_len()) == z * self.x_len() * self.y_len())
                by (nonlinear_arith);
        }
        let xy = self.x_length * self.y_length;
        x + y * self.x_length + z * xy
    }

    /// The index triple of the voxel at storage position `index`: the inverse of the
    /// storage layout, x varying fastest, then y, then z.
    pub fn xyz_index_of_flat_index(&self, index: usize) -> (r: (usize, usize, usize))
        requires
            self.wf(),
            index < self.cells().len(),
        ensures
            self.in_bounds(r.0 as int, r.1 as int, r.2 as int),
            self.flat_index(r.0 as int, r.1 as int, r.2 as int) == index,
    {
        let xl = self.x_length;
        let yl = self.y_length;
        proof {
            assert(0 < xl * yl <= self.cells().len()) by (nonlinear_arith)
                requires
                    0 <= xl,
                    0 <= yl,
                    0 <= self.z_len(),
                    self.cells().len() == xl * yl * self.z_len(),
                    index < self.cells().len(),
            ;
        }
        let xy = xl * yl;
        let z = index / xy;
        let rest = index % xy;
        let y = rest / xl;
        let x = rest % xl;
        proof {
            assert(0 < xl) by (nonlinear_arith)
                requires
                    0 < xl * yl,
                    0 <= yl,
            ;
            assert(index == xy * z + rest && 0 <= rest < xy) by (nonlinear_arith)
                requires
                    0 < xy,
                    z == index / xy,
                    rest == index % xy,
            ;
            assert(rest == xl * y + x && 0 <= x < xl) by (nonlinear_arith)
                requires
                    0 < xl,
                    y == rest / xl,
                    x == rest % xl,
            ;
            assert(z < self.z_len()) by (nonlinear_arith)
                requires
                    index == xy * z + rest,
                    0 <= rest,
                    index < xy * self.z_len(),
                    0 < xy,
            ;
            assert(y < yl) by (nonlinear_arith)
                requires
                    rest == xl * y + x,
                    0 <= x,
                    rest < xl * yl,
                    0 < xl,
            ;
            assert(z * xl * yl == xy * z) by (nonlinear_arith)
                requires
                    xy == xl * yl,
            ;
            assert(y * xl == xl * y) by (nonlinear_arith);
        }
        (x, y, z)
    }

    /// Offsets of the voxel's center from the grid's origin, in units of the voxel
    /// half-extent: the center of voxel (x, y, z) lies at
    /// `origin + h * (2x + 1, 2y + 1, 2z + 1)`.
    pub fn center_offsets_in_half_extents(&self, x: usize, y: usize, z: usize) -> (r: (
        u128,
        u128,
        u128,
    ))
        requires
            self.in_bounds(x as int, y as int, z as int),
        ensures
            r.0 == 2 * x + 1,
            r.1 == 2 * y + 1,
            r.2 == 2 * z + 1,
    {
        (2 * (x as u128) + 1, 2 * (y as u128) + 1, 2 * (z as u128) + 1)
    }

    /// Offsets of the voxel's box corners from the grid's origin, in units of the voxel
    /// half-extent: voxel (x, y, z) spans `origin + h * (2x, 2y, 2z)` to
    /// `origin + h * (2x + 2, 2y + 2, 2z + 2)`.
    pub fn aabb_offsets_in_half_extents(&self, x: usize, y: usize, z: usize) -> (r: (
        (u128, u128, u128),
        (u128, u128, u128),
    ))
        requires
            self.in_bounds(x as int, y as int, z as int),
        ensures
            r.0.0 == 2 * x && r.0.1 == 2 * y && r.0.2 == 2 * z,
            r.1.0 == 2 * x + 2 && r.1.1 == 2 * y + 2 && r.1.2 == 2 * z + 2,
    {
        let (xm, ym, zm) = (2 * (x as u128), 2 * (y as u128), 2 * (z as u128));
        ((xm, ym, zm), (xm + 2, ym + 2, zm + 2))
    }
}

impl<C, V> VoxelGrid<NonFinalVoxelData<C, V>> {
    /// Every voxel's sample sequences are well formed.
    pub open spec fn wf_voxels(&self) -> bool {
        forall|i: int| 0 <= i < self.cells().len() ==> (#[trigger] self.cells()[i]).wf()
    }

    /// Puts `voxel` at index (x, y, z).
    pub fn set_voxel_by_xyz_index_unchecked(
        &mut self,
        x: usize,
        y: usize,
        z: usize,
        voxel: NonFinalVoxelData<C, V>,
    )
        requires
            old(self).wf(),
            old(self).wf_voxels(),
            old(self).in_bounds(x as int, y as int, z as int),
            voxel.wf(),
        ensures
            final(self).same_shape(old(self)),
            final(self).wf(),
            final(self).wf_voxels(),
            forall|a: int, b: int, c: int|
                #![trigger final(self).at(a, b, c)]
                old(self).in_bounds(a, b, c) ==> final(self).at(a, b, c) == if a == x && b == y
                    && c == z {
                    voxel
                } else {
                    old(self).at(a, b, c)
                },
    {
        let ghost before = self.cells();
        let ghost index = self.flat_index(x as int, y as int, z as int);
        proof {
            lemma_flat_index_in_range(
                self.x_len(),
                self.y_len(),
                self.z_len(),
                x as int,
                y as int,
                z as int,
            );
        }
        let _ = self.replace_voxel_by_xyz_index_unchecked(x, y, z, voxel);
        assert forall|i: int| 0 <= i < self.cells().len() implies (
        #[trigger] self.cells()[i]).wf() by {
            if i != index {
                assert(self.cells()[i] == before[i]);
            }
        }
    }

    /// Takes the voxel at index (x, y, z) out of the grid, leaving an empty voxel.
    pub fn take_voxel_by_xyz_index_unchecked(&mut self, x: usize, y: usize, z: usize) -> (r:
        NonFinalVoxelData<C, V>)
        requires
            old(self).wf(),
            old(self).wf_voxels(),
            old(self).in_bounds(x as int, y as int, z as int),
        ensures
            r == old(self).at(x as int, y as int, z as int),
            r.wf(),
            final(self).same_shape(old(self)),
            final(self).wf(),
            final(self).wf_voxels(),
            forall|a: int, b: int, c: int|
                #![trigger final(self).at(a, b, c)]
                old(self).in_bounds(a, b, c) ==> final(self).at(a, b, c) == if a == x && b == y
                    && c == z {
                    NonFinalVoxelData::Empty
                } else {
                    old(self).at(a, b, c)
                },
    {
        let ghost before = self.cells();
        let ghost index = self.flat_index(x as int, y as int, z as int);
        proof {
            lemma_flat_index_in_range(
                self.x_len(),
                self.y_len(),
                self.z_len(),
                x as int,
                y as int,
                z as int,
            );
        }
        let r = self.replace_voxel_by_xyz_index_unchecked(x, y, z, NonFinalVoxelData::Empty);
        assert forall|i: int| 0 <= i < self.cells().len() implies (
        #[trigger] self.cells()[i]).wf() by {
            if i != index {
                assert(self.cells()[i] == before[i]);
            }
        }
        r
    }

    /// A work grid of the given dimensions with every voxel empty.
    pub fn new(x_size: usize, y_size: usize, z_size: usize) -> (r: Self)
        requires
            x_size * y_size * z_size <= usize::MAX,
        ensures
            r.wf(),
            r.wf_voxels(),
            r.x_len() == x_size,
            r.y_len() == y_size,
            r.z_len() == z_size,
            forall|i: int| 0 <= i < r.cells().len() ==> #[trigger] r.cells()[i] is Empty,
    {
        proof {
            assert(0 <= x_size * y_size <= x_size * y_size * z_size || z_size == 0)
                by (nonlinear_arith)
                requires
                    0 <= x_size,
                    0 <= y_size,
                    0 <= z_size,
            ;
            assert(0 <= x_size * y_size * z_size) by (nonlinear_arith)
                requires
                    0 <= x_size,
                    0 <= y_size,
                    0 <= z_size,
            ;
        }
        let count: usize = if z_size == 0 {
            0
        } else {
            x_size * y_size * z_size
        };
        proof {
            assert(count == x_size * y_size * z_size) by (nonlinear_arith)
                requires
                    z_size == 0 ==> count == 0,
                    z_size != 0 ==> count == x_size * y_size * z_size,
            ;
        }
        let mut grid: Vec<NonFinalVoxelData<C, V>> = Vec::with_capacity(count);
        let mut i: usize = 0;
        while i < count
            invariant
                i <= count,
                grid@.len() == i,
                forall|j: int| 0 <= j < i ==> #[trigger] grid@[j] is Empty,
            decreases count - i,
        {
            grid.push(NonFinalVoxelData::new_empty());
            i = i + 1;
        }
        VoxelGrid { x_length: x_size, y_length: y_size, z_length: z_size, grid }
    }
    /// Consumes the work grid and reduces every voxel with the given reducers into a
    /// final grid of the same shape.
    pub fn into_final_grid<FC, FV>(self, combine_colors: &FC, average_values: &FV) -> (r:
        VoxelGrid<VoxelData<C, V>>) where FC: Fn(&Vec<C>) -> C, FV: Fn(&Vec<V>) -> V
        requires
            self.wf(),
            self.wf_voxels(),
            forall|s: &Vec<C>| s@.len() > 0 ==> #[trigger] combine_colors.requires((s,)),
            forall|s: &Vec<V>| s@.len() > 0 ==> #[trigger] average_values.requires((s,)),
        ensures
            finalized_from(&r, &self, combine_colors, average_values),
    {
        let ghost work = self.cells();
        let VoxelGrid { x_length, y_length, z_length, grid } = self;
        let mut cells = grid;
        let count = cells.len();
        let mut reduced: Vec<VoxelData<C, V>> = Vec::with_capacity(count);
        let mut i: usize = 0;
        while i < count
            invariant
                i <= count,
                count == work.len(),
                cells@.len() == count,
                reduced@.len() == i,
                forall|j: int| i <= j < count ==> #[trigger] cells@[j] == work[j],
                forall|j: int| 0 <= j < count ==> (#[trigger] work[j]).wf(),
                forall|j: int|
                    0 <= j < i ==> (#[trigger] reduced@[j]).reduced_from(
                        &work[j],
                        combine_colors,
                        average_values,
                    ),
                forall|s: &Vec<C>| s@.len() > 0 ==> #[trigger] combine_colors.requires((s,)),
                forall|s: &Vec<V>| s@.len() > 0 ==> #[trigger] average_values.requires((s,)),
            decreases count - i,
        {
            let mut voxel = NonFinalVoxelData::new_empty();
            std::mem::swap(&mut cells[i], &mut voxel);
            reduced.push(voxel.into_final_voxel_data(combine_colors, average_values));
            i = i + 1;
        }
        VoxelGrid { x_length, y_length, z_length, grid: reduced }
    }
}

} // verus!
