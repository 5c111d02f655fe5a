//! Per-voxel state in its two phases: the work phase, which accumulates material
//! samples, and the final phase, which carries the reduced attributes.

use vstd::prelude::*;

verus! {

/// A voxel while the grid is being built. An edge voxel carries three parallel
/// sequences of material samples: base color, metallic value and roughness value.
#[derive(Debug)]
pub enum NonFinalVoxelData<C, V> {
    Empty,
    Edge { color_samples: Vec<C>, metallic_value_samples: Vec<V>, roughness_value_samples: Vec<V> },
    InsideMesh,
}

/// A voxel of a finished grid: an edge voxel carries one reduced value per attribute.
#[derive(Debug)]
pub enum VoxelData<C, V> {
    Empty,
    Edge { color: C, metallic_value: V, roughness_value: V },
    InsideMesh,
}

impl<C, V> NonFinalVoxelData<C, V> {
    /// The sample sequences of an edge voxel are parallel and never empty.
    pub open spec fn wf(&self) -> bool {
        match self {
            NonFinalVoxelData::Edge {
                color_samples,
                metallic_value_samples,
                roughness_value_samples,
            } => {
                &&& color_samples@.len() > 0
                &&& metallic_value_samples@.len() == color_samples@.len()
                &&& roughness_value_samples@.len() == color_samples@.len()
            },
            _ => true,
        }
    }

    /// This voxel is `before` with one sample recorded: an edge voxel whose sample
    /// sequences are those of `before` with the sample appended, or hold the sample
    /// alone where `before` was not an edge voxel.
    pub open spec fn sample_added(self, before: Self, color: C, metallic_value: V, roughness_value: V) -> bool {
        &&& self is Edge
        &&& match before {
            NonFinalVoxelData::Edge {
                color_samples,
                metallic_value_samples,
                roughness_value_samples,
            } => {
                &&& self->color_samples@ == color_samples@.push(color)
                &&& self->metallic_value_samples@ == metallic_value_samples@.push(metallic_value)
                &&& self->roughness_value_samples@ == roughness_value_samples@.push(roughness_value)
            },
            _ => {
                &&& self->color_samples@ == seq![color]
                &&& self->metallic_value_samples@ == seq![metallic_value]
                &&& self->roughness_value_samples@ == seq![roughness_value]
            },
        }
    }

    pub fn new_empty() -> (r: Self)
        ensures
            r is Empty,
    {
        NonFinalVoxelData::Empty
    }

    pub fn is_edge(&self) -> (r: bool)
        ensures
            r == self is Edge,
    {
        matches!(self, NonFinalVoxelData::Edge { .. })
    }

    pub fn is_empty(&self) -> (r: bool)
        ensures
            r == self is Empty,
    {
        matches!(self, NonFinalVoxelData::Empty)
    }

    pub fn is_inside_mesh(&self) -> (r: bool)
        ensures
            r == self is InsideMesh,
    {
        matches!(self, NonFinalVoxelData::InsideMesh)
    }

    /// Records one material sample: a non-edge voxel becomes an edge voxel with
    /// one-element sample sequences, an edge voxel appends to each sequence.
    pub fn add_sample(&mut self, color: C, metallic_value: V, roughness_value: V)
        requires
            old(self).wf(),
        ensures
            final(self).wf(),
            *final(self) is Edge,
            match *old(self) {
                NonFinalVoxelData::Edge {
                    color_samples,
                    metallic_value_samples,
                    roughness_value_samples,
                } => {
                    &&& (*final(self))->color_samples@ == color_samples@.push(color)
                    &&& (*final(self))->metallic_value_samples@ == metallic_value_samples@.push(
                        metallic_value,
                    )
                    &&& (*final(self))->roughness_value_samples@
                        == roughness_value_samples@.push(roughness_value)
                },
                _ => {
                    &&& (*final(self))->color_samples@ == seq![color]
                    &&& (*final(self))->metallic_value_samples@ == seq![metallic_value]
                    &&& (*final(self))->roughness_value_samples@ == seq![roughness_value]
                },
            },
    {
        match self {
            NonFinalVoxelData::Edge {
                color_samples,
                metallic_value_samples,
                roughness_value_samples,
            } => {
                color_samples.push(color);
                metallic_value_samples.push(metallic_value);
                roughness_value_samples.push(roughness_value);
            },
            _ => {
                *self =
                NonFinalVoxelData::Edge {
                    color_samples: vec![color],
                    metallic_value_samples: vec![metallic_value],
                    roughness_value_samples: vec![roughness_value],
                };
            },
        }
    }
    /// Reduces the sample sequences of an edge voxel to single values with the given
    /// reducers; empty and inside voxels keep their kind.
    pub fn into_final_voxel_data<FC, FV>(self, combine_colors: &FC, average_values: &FV) -> (r:
        VoxelData<C, V>) where FC: Fn(&Vec<C>) -> C, FV: Fn(&Vec<V>) -> V
        requires
            self.wf(),
            forall|s: &Vec<C>| s@.len() > 0 ==> #[trigger] combine_colors.requires((s,)),
            forall|s: &Vec<V>| s@.len() > 0 ==> #[trigger] average_values.requires((s,)),
        ensures
            r.reduced_from(&self, combine_colors, average_values),
    {
        match self {
            NonFinalVoxelData::Empty => VoxelData::Empty,
            NonFinalVoxelData::Edge {
                color_samples,
                metallic_value_samples,
                roughness_value_samples,
            } => {
                let color = combine_colors(&color_samples);
                let metallic_value = average_values(&metallic_value_samples);
                let roughness_value = average_values(&roughness_value_samples);
                VoxelData::Edge { color, metallic_value, roughness_value }
            },
            NonFinalVoxelData::InsideMesh => VoxelData::InsideMesh,
        }
    }
}

impl<C, V> VoxelData<C, V> {
    /// Both voxels are of the same kind: empty, edge or inside.
    pub open spec fn kind_matches(&self, work: &NonFinalVoxelData<C, V>) -> bool {
        &&& (self is Empty <==> work is Empty)
        &&& (self is Edge <==> work is Edge)
        &&& (self is InsideMesh <==> work is InsideMesh)
    }

    /// This voxel is what the given reducers make of `work`: the same kind, and for an
    /// edge voxel the reduced color, metallic and roughness values.
    pub open spec fn reduced_from<FC, FV>(
        &self,
        work: &NonFinalVoxelData<C, V>,
        combine_colors: &FC,
        average_values: &FV,
    ) -> bool where FC: Fn(&Vec<C>) -> C, FV: Fn(&Vec<V>) -> V {
        &&& self.kind_matches(work)
        &&& match *work {
            NonFinalVoxelData::Edge {
                color_samples,
                metallic_value_samples,
                roughness_value_samples,
            } => {
                &&& combine_colors.ensures((&color_samples,), self->color)
                &&& average_values.ensures((&metallic_value_samples,), self->metallic_value)
                &&& average_values.ensures((&roughness_value_samples,), self->roughness_value)
            },
            _ => true,
        }
    }

    pub fn is_edge(&self) -> (r: bool)
        ensures
            r == self is Edge,
    {
        matches!(self, VoxelData::Edge { .. })
    }

    /// An edge or inside voxel: part of the filled volume.
    pub fn is_filled(&self) -> (r: bool)
        ensures
            r == !(self is Empty),
    {
        !matches!(self, VoxelData::Empty)
    }
}

/// Every sample recorded in a voxel reaches the reducers: a voxel that records samples
/// one after another from empty is reduced from the sequences of all of them, in
/// recording order.
pub proof fn lemma_reducers_see_every_sample<C, V, FC, FV>(
    recorded: Seq<NonFinalVoxelData<C, V>>,
    colors: Seq<C>,
    metallic_values: Seq<V>,
    roughness_values: Seq<V>,
    fin: VoxelData<C, V>,
    combine_colors: &FC,
    average_values: &FV,
) where FC: Fn(&Vec<C>) -> C, FV: Fn(&Vec<V>) -> V
    requires
        colors.len() > 0,
        metallic_values.len() == colors.len(),
        roughness_values.len() == colors.len(),
        recorded.len() == colors.len() + 1,
        recorded[0] is Empty,
        forall|k: int|
            0 <= k < colors.len() ==> #[trigger] recorded[k + 1].sample_added(
                recorded[k],
                colors[k],
                metallic_values[k],
                roughness_values[k],
            ),
        fin.reduced_from(&recorded.last(), combine_colors, average_values),
    ensures
        fin is Edge,
        exists|cs: Vec<C>, ms: Vec<V>, rs: Vec<V>|
            {
                &&& cs@ == colors
                &&& ms@ == metallic_values
                &&& rs@ == roughness_values
                &&& #[trigger] combine_colors.ensures((&cs,), fin->color)
                &&& #[trigger] average_values.ensures((&ms,), fin->metallic_value)
                &&& #[trigger] average_values.ensures((&rs,), fin->roughness_value)
            },
{
    let n = colors.len() as int;
    assert forall|k: int| 1 <= k <= n implies {
        &&& #[trigger] recorded[k] is Edge
        &&& recorded[k]->color_samples@ == colors.subrange(0, k)
        &&& recorded[k]->metallic_value_samples@ == metallic_values.subrange(0, k)
        &&& recorded[k]->roughness_value_samples@ == roughness_values.subrange(0, k)
    } by {
        lemma_recorded_prefix(recorded, colors, metallic_values, roughness_values, k);
    }
    assert(colors.subrange(0, n) =~= colors);
    assert(metallic_values.subrange(0, n) =~= metallic_values);
    assert(roughness_values.subrange(0, n) =~= roughness_values);
    let last = recorded[n];
    assert(recorded.last() == last);
    let cs = last->color_samples;
    let ms = last->metallic_value_samples;
    let rs = last->roughness_value_samples;
    assert(combine_colors.ensures((&cs,), fin->color));
    assert(average_values.ensures((&ms,), fin->metallic_value));
    assert(average_values.ensures((&rs,), fin->roughness_value));
}

proof fn lemma_recorded_prefix<C, V>(
    recorded: Seq<NonFinalVoxelData<C, V>>,
    colors: Seq<C>,
    metallic_values: Seq<V>,
    roughness_values: Seq<V>,
    k: int,
)
    requires
        1 <= k <= colors.len(),
        metallic_values.len() == colors.len(),
        roughness_values.len() == colors.len(),
        recorded.len() == colors.len() + 1,
        recorded[0] is Empty,
        forall|j: int|
            0 <= j < colors.len() ==> #[trigger] recorded[j + 1].sample_added(
                recorded[j],
                colors[j],
                metallic_values[j],
                roughness_values[j],
            ),
    ensures
        recorded[k] is Edge,
        recorded[k]->color_samples@ == colors.subrange(0, k),
        recorded[k]->metallic_value_samples@ == metallic_values.subrange(0, k),
        recorded[k]->roughness_value_samples@ == roughness_values.subrange(0, k),
    decreases k,
{
    assert(recorded[(k - 1) + 1].sample_added(
        recorded[k - 1],
        colors[k - 1],
        metallic_values[k - 1],
        roughness_values[k - 1],
    ));
    if k > 1 {
        lemma_recorded_prefix(recorded, colors, metallic_values, roughness_values, k - 1);
    }
    assert(colors.subrange(0, k - 1).push(colors[k - 1]) =~= colors.subrange(0, k));
    assert(metallic_values.subrange(0, k - 1).push(metallic_values[k - 1]) =~= metallic_values.subrange(0, k));
    assert(roughness_values.subrange(0, k - 1).push(roughness_values[k - 1]) =~= roughness_values.subrange(0, k));
}

} // verus!
