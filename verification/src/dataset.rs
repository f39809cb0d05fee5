//! The unstructured grid that a frame becomes: points, one list of cells
//! over all families, and named fields on the points and on the cells.
//!
//! Cells, and every field on cells, follow one fixed order of the families:
//! lines, facets, volumes, particles. A field that only one family defines
//! is filled with zeros for the cells of the others, so that each field on
//! cells has one entry per cell.

use vstd::prelude::*;
use crate::classify::face_of;
use crate::classify::solid_of;
use crate::classify::Cell;
use crate::frame::AnimFrameView;
use crate::frame::ElementsView;
use crate::frame::Family;
use crate::frame::NodesView;
use crate::parts::part_ids;
use crate::sizes::lemma_times_row;
use crate::sizes::times;
use crate::text::underscored;

verus! {

/// The tensor of one cell, as the input stores it.
#[derive(Clone, Copy, Debug, PartialEq, Eq, Structural)]
pub enum Tensor {
    /// The cell belongs to a family that does not define the field.
    Absent,
    /// A plane tensor by its components xx, yy, xy.
    Planar(u32, u32, u32),
    /// A symmetric tensor by its components xx, yy, zz, xy, xz, yz.
    Full(u32, u32, u32, u32, u32, u32),
}

impl Tensor {
    /// The nine entries of the 3 by 3 matrix, row after row; an entry that
    /// the input does not store is `None`.
    pub open spec fn entries(self) -> Seq<Option<u32>> {
        match self {
            Tensor::Absent => seq![None, None, None, None, None, None, None, None, None],
            Tensor::Planar(xx, yy, xy) => seq![
                Some(xx),
                Some(xy),
                None,
                Some(xy),
                Some(yy),
                None,
                None,
                None,
                None,
            ],
            Tensor::Full(xx, yy, zz, xy, xz, yz) => seq![
                Some(xx),
                Some(xy),
                Some(xz),
                Some(xy),
                Some(yy),
                Some(yz),
                Some(xz),
                Some(yz),
                Some(zz),
            ],
        }
    }

    /// The nine numbers of the 3 by 3 matrix, row after row, with zero for
    /// every entry that the input does not store.
    pub open spec fn expanded(self) -> Seq<u32> {
        Seq::new(
            9,
            |i: int|
                match self.entries()[i] {
                    Some(v) => v,
                    None => 0u32,
                },
        )
    }

    /// The nine entries of the 3 by 3 matrix, row after row; an entry that
    /// the input does not store is `None`.
    pub fn entry_list(&self) -> (r: [Option<u32>; 9])
        ensures
            r@ == self.entries(),
    {
        let r = match *self {
            Tensor::Absent => [None, None, None, None, None, None, None, None, None],
            Tensor::Planar(xx, yy, xy) => [
                Some(xx),
                Some(xy),
                None,
                Some(xy),
                Some(yy),
                None,
                None,
                None,
                None,
            ],
            Tensor::Full(xx, yy, zz, xy, xz, yz) => [
                Some(xx),
                Some(xy),
                Some(xz),
                Some(xy),
                Some(yy),
                Some(yz),
                Some(xz),
                Some(yz),
                Some(zz),
            ],
        };
        assert(r@ =~= self.entries());
        r
    }

    /// Rebuilds the 3 by 3 matrix, row after row.
    pub fn expand(&self) -> (r: [u32; 9])
        ensures
            r@ == self.expanded(),
    {
        let r = match *self {
            Tensor::Absent => [0, 0, 0, 0, 0, 0, 0, 0, 0],
            Tensor::Planar(xx, yy, xy) => [xx, xy, 0, xy, yy, 0, 0, 0, 0],
            Tensor::Full(xx, yy, zz, xy, xz, yz) => [xx, xy, xz, xy, yy, yz, xz, yz, zz],
        };
        assert(r@ =~= self.expanded());
        r
    }
}

/// The values of a field.
pub enum Values {
    /// One integer per entry.
    Ints(Vec<i32>),
    /// One real number per entry.
    Scalars(Vec<u32>),
    /// Three real numbers per entry.
    Vectors(Vec<u32>),
    /// One tensor per entry.
    Tensors(Vec<Tensor>),
}

/// What a [`Values`] holds.
pub enum ValuesView {
    Ints(Seq<i32>),
    Scalars(Seq<u32>),
    Vectors(Seq<u32>),
    Tensors(Seq<Tensor>),
}

impl View for Values {
    type V = ValuesView;

    open spec fn view(&self) -> ValuesView {
        match self {
            Values::Ints(v) => ValuesView::Ints(v@),
            Values::Scalars(v) => ValuesView::Scalars(v@),
            Values::Vectors(v) => ValuesView::Vectors(v@),
            Values::Tensors(v) => ValuesView::Tensors(v@),
        }
    }
}

impl ValuesView {
    /// How many points or cells the values cover.
    pub open spec fn entries(self) -> int {
        match self {
            ValuesView::Ints(v) => v.len() as int,
            ValuesView::Scalars(v) => v.len() as int,
            ValuesView::Vectors(v) => v.len() as int / 3,
            ValuesView::Tensors(v) => v.len() as int,
        }
    }
}

/// A named field.
pub struct Field {
    pub name: String,
    pub values: Values,
}

/// What a [`Field`] holds.
pub struct FieldView {
    pub name: Seq<char>,
    pub values: ValuesView,
}

impl View for Field {
    type V = FieldView;

    open spec fn view(&self) -> FieldView {
        FieldView { name: self.name@, values: self.values@ }
    }
}

/// What a sequence of fields holds.
pub open spec fn fields(v: Seq<Field>) -> Seq<FieldView> {
    Seq::new(v.len(), |i: int| v[i]@)
}

/// An unstructured grid with its fields.
pub struct Dataset {
    /// The simulation time, as a single-precision bit pattern.
    pub time: u32,
    /// Three coordinates per point.
    pub points: Vec<u32>,
    pub cells: Vec<Cell>,
    pub point_data: Vec<Field>,
    pub cell_data: Vec<Field>,
}

/// What a [`Dataset`] holds.
pub struct DatasetView {
    pub time: u32,
    pub points: Seq<u32>,
    pub cells: Seq<Cell>,
    pub point_data: Seq<FieldView>,
    pub cell_data: Seq<FieldView>,
}

impl View for Dataset {
    type V = DatasetView;

    open spec fn view(&self) -> DatasetView {
        DatasetView {
            time: self.time,
            points: self.points@,
            cells: self.cells@,
            point_data: fields(self.point_data@),
            cell_data: fields(self.cell_data@),
        }
    }
}

/// `n` zeros.
pub open spec fn zeros(n: int) -> Seq<u32> {
    Seq::new(n as nat, |i: int| 0u32)
}

/// `n` absent tensors.
pub open spec fn absent(n: int) -> Seq<Tensor> {
    Seq::new(n as nat, |i: int| Tensor::Absent)
}

/// The cells of the lines: one edge per element.
pub open spec fn line_cells(e: ElementsView) -> Seq<Cell> {
    Seq::new(e.count, |i: int| Cell::Edge(e.connectivity[2 * i], e.connectivity[2 * i + 1]))
}

/// The cells of the facets: a triangle or a quadrilateral per element.
pub open spec fn facet_cells(e: ElementsView) -> Seq<Cell> {
    Seq::new(e.count, |i: int| face_of(e.connectivity.subrange(4 * i, 4 * i + 4)))
}

/// The cells of the volumes: a tetrahedron or a hexahedron per element.
pub open spec fn volume_cells(e: ElementsView) -> Seq<Cell> {
    Seq::new(e.count, |i: int| solid_of(e.connectivity.subrange(8 * i, 8 * i + 8)))
}

/// The cells of the particles: one vertex per element.
pub open spec fn particle_cells(e: ElementsView) -> Seq<Cell> {
    Seq::new(e.count, |i: int| Cell::Vertex(e.connectivity[i]))
}

/// The cells of a frame, family after family.
pub open spec fn cells_of(f: AnimFrameView) -> Seq<Cell> {
    line_cells(f.lines) + facet_cells(f.facets) + volume_cells(f.volumes) + particle_cells(
        f.particles,
    )
}

/// The erosion status of each element: one for a deleted element, else zero.
pub open spec fn erosion_status(e: ElementsView) -> Seq<i32> {
    Seq::new(e.count, |i: int| if e.erosion[i] != 0 { 1i32 } else { 0i32 })
}

/// The part numbers of the elements of a family.
pub open spec fn family_parts(e: ElementsView) -> Seq<i32> {
    part_ids(e.part_boundaries, e.part_labels, e.count)
}

/// The three fields that every cell has: external number, part number and
/// erosion status.
pub open spec fn identity_fields(f: AnimFrameView) -> Seq<FieldView> {
    seq![
        FieldView {
            name: "ELEMENT_ID"@,
            values: ValuesView::Ints(
                f.lines.external_ids + f.facets.external_ids + f.volumes.external_ids
                    + f.particles.external_ids,
            ),
        },
        FieldView {
            name: "PART_ID"@,
            values: ValuesView::Ints(
                family_parts(f.lines) + family_parts(f.facets) + family_parts(f.volumes)
                    + family_parts(f.particles),
            ),
        },
        FieldView {
            name: "EROSION_STATUS"@,
            values: ValuesView::Ints(
                erosion_status(f.lines) + erosion_status(f.facets) + erosion_status(f.volumes)
                    + erosion_status(f.particles),
            ),
        },
    ]
}

/// The prefix that the name of a field takes from the family that defines it.
pub open spec fn family_prefix(kind: Family) -> Seq<char> {
    match kind {
        Family::Line => "1DELEM_"@,
        Family::Facet => "2DELEM_"@,
        Family::Volume => "3DELEM_"@,
        Family::Particle => "SPHELEM_"@,
    }
}

/// How many cells come before those of a family.
pub open spec fn cells_before(f: AnimFrameView, kind: Family) -> int {
    match kind {
        Family::Line => 0,
        Family::Facet => f.lines.count as int,
        Family::Volume => (f.lines.count + f.facets.count) as int,
        Family::Particle => (f.lines.count + f.facets.count + f.volumes.count) as int,
    }
}

/// How many cells come after those of a family.
pub open spec fn cells_after(f: AnimFrameView, kind: Family) -> int {
    match kind {
        Family::Line => (f.facets.count + f.volumes.count + f.particles.count) as int,
        Family::Facet => (f.volumes.count + f.particles.count) as int,
        Family::Volume => f.particles.count as int,
        Family::Particle => 0,
    }
}

/// The scalar fields of a family, each padded with zeros for the `before`
/// cells ahead of the family and the `after` cells behind it.
pub open spec fn scalar_fields(e: ElementsView, kind: Family, before: int, after: int) -> Seq<
    FieldView,
> {
    Seq::new(
        e.scalar_names.len(),
        |j: int|
            FieldView {
                name: family_prefix(kind) + underscored(e.scalar_names[j]),
                values: ValuesView::Scalars(
                    zeros(before) + e.scalars.subrange(
                        times(j, e.count as int),
                        times(j, e.count as int) + e.count,
                    ) + zeros(after),
                ),
            },
    )
}

/// The names that the nine components of a torsor add to its own: three
/// forces, then six moments.
pub open spec fn torsor_suffix(c: int) -> Seq<char> {
    if c == 0 {
        "F1"@
    } else if c == 1 {
        "F2"@
    } else if c == 2 {
        "F3"@
    } else if c == 3 {
        "M1"@
    } else if c == 4 {
        "M2"@
    } else if c == 5 {
        "M3"@
    } else if c == 6 {
        "M4"@
    } else if c == 7 {
        "M5"@
    } else {
        "M6"@
    }
}

/// Component `c` of torsor `j` over the lines: one value per line.
pub open spec fn torsor_column(e: ElementsView, j: int, c: int) -> Seq<u32> {
    Seq::new(e.count, |i: int| e.tensors[9 * times(j, e.count as int) + 9 * i + c])
}

/// The fields of the torsors of the lines: nine scalar fields per torsor,
/// each padded with zeros for the `after` cells behind the lines.
pub open spec fn torsor_fields(e: ElementsView, after: int) -> Seq<FieldView> {
    Seq::new(
        9 * e.tensor_names.len(),
        |k: int|
            FieldView {
                name: family_prefix(Family::Line) + underscored(e.tensor_names[k / 9])
                    + torsor_suffix(k % 9),
                values: ValuesView::Scalars(torsor_column(e, k / 9, k % 9) + zeros(after)),
            },
    )
}

/// Tensor `j` of each facet.
pub open spec fn planar_column(e: ElementsView, j: int) -> Seq<Tensor> {
    Seq::new(
        e.count,
        |i: int|
            {
                let base = 3 * times(j, e.count as int) + 3 * i;
                Tensor::Planar(e.tensors[base], e.tensors[base + 1], e.tensors[base + 2])
            },
    )
}

/// Tensor `j` of each volume or particle.
pub open spec fn full_column(e: ElementsView, j: int) -> Seq<Tensor> {
    Seq::new(
        e.count,
        |i: int|
            {
                let base = 6 * times(j, e.count as int) + 6 * i;
                Tensor::Full(
                    e.tensors[base],
                    e.tensors[base + 1],
                    e.tensors[base + 2],
                    e.tensors[base + 3],
                    e.tensors[base + 4],
                    e.tensors[base + 5],
                )
            },
    )
}

/// Tensor `j` of each element of a family of facets, volumes or particles.
pub open spec fn tensor_column(e: ElementsView, kind: Family, j: int) -> Seq<Tensor> {
    if kind is Facet {
        planar_column(e, j)
    } else {
        full_column(e, j)
    }
}

/// The tensor fields of a family of facets, volumes or particles, each
/// padded with absent tensors for the cells of the other families.
pub open spec fn tensor_fields(e: ElementsView, kind: Family, before: int, after: int) -> Seq<
    FieldView,
> {
    Seq::new(
        e.tensor_names.len(),
        |j: int|
            FieldView {
                name: family_prefix(kind) + underscored(e.tensor_names[j]),
                values: ValuesView::Tensors(
                    absent(before) + tensor_column(e, kind, j) + absent(after),
                ),
            },
    )
}

/// The fields on the cells of a frame.
pub open spec fn cell_fields(f: AnimFrameView) -> Seq<FieldView> {
    identity_fields(f) + scalar_fields(
        f.lines,
        Family::Line,
        cells_before(f, Family::Line),
        cells_after(f, Family::Line),
    ) + torsor_fields(f.lines, cells_after(f, Family::Line)) + scalar_fields(
        f.facets,
        Family::Facet,
        cells_before(f, Family::Facet),
        cells_after(f, Family::Facet),
    ) + tensor_fields(
        f.facets,
        Family::Facet,
        cells_before(f, Family::Facet),
        cells_after(f, Family::Facet),
    ) + scalar_fields(
        f.volumes,
        Family::Volume,
        cells_before(f, Family::Volume),
        cells_after(f, Family::Volume),
    ) + tensor_fields(
        f.volumes,
        Family::Volume,
        cells_before(f, Family::Volume),
        cells_after(f, Family::Volume),
    ) + scalar_fields(
        f.particles,
        Family::Particle,
        cells_before(f, Family::Particle),
        cells_after(f, Family::Particle),
    ) + tensor_fields(
        f.particles,
        Family::Particle,
        cells_before(f, Family::Particle),
        cells_after(f, Family::Particle),
    )
}

/// The scalar fields of the nodes.
pub open spec fn node_scalar_fields(n: NodesView) -> Seq<FieldView> {
    Seq::new(
        n.scalar_names.len(),
        |j: int|
            FieldView {
                name: underscored(n.scalar_names[j]),
                values: ValuesView::Scalars(
                    n.scalars.subrange(
                        times(j, n.count as int),
                        times(j, n.count as int) + n.count,
                    ),
                ),
            },
    )
}

/// The vector fields of the nodes.
pub open spec fn node_vector_fields(n: NodesView) -> Seq<FieldView> {
    Seq::new(
        n.vector_names.len(),
        |j: int|
            FieldView {
                name: underscored(n.vector_names[j]),
                values: ValuesView::Vectors(
                    n.vectors.subrange(
                        3 * times(j, n.count as int),
                        3 * times(j, n.count as int) + 3 * n.count,
                    ),
                ),
            },
    )
}

/// The fields on the points of a frame: the external number of each node,
/// then the scalar fields, then the vector fields.
pub open spec fn point_fields(n: NodesView) -> Seq<FieldView> {
    seq![FieldView { name: "NODE_ID"@, values: ValuesView::Ints(n.external_ids) }]
        + node_scalar_fields(n) + node_vector_fields(n)
}

/// The grid that a frame becomes.
pub open spec fn dataset_of(f: AnimFrameView) -> DatasetView {
    DatasetView {
        time: f.time,
        points: f.nodes.coordinates,
        cells: cells_of(f),
        point_data: point_fields(f.nodes),
        cell_data: cell_fields(f),
    }
}

/// Each scalar field of a complete family has one entry per cell of the
/// family, and one zero for each cell before and after.
pub proof fn lemma_scalar_field_entries(
    e: ElementsView,
    kind: Family,
    before: int,
    after: int,
    j: int,
)
    requires
        e.complete(kind),
        0 <= before,
        0 <= after,
        0 <= j < e.scalar_names.len(),
    ensures
        scalar_fields(e, kind, before, after)[j].values.entries() == before + e.count + after,
{
    lemma_times_row(j, e.scalar_names.len() as int, e.count as int);
}

/// Each field of a torsor has one entry per line, and one zero for each
/// cell behind the lines.
pub proof fn lemma_torsor_field_entries(e: ElementsView, after: int, k: int)
    requires
        0 <= after,
        0 <= k < 9 * e.tensor_names.len(),
    ensures
        torsor_fields(e, after)[k].values.entries() == e.count + after,
{
}

/// Each tensor field of a family has one entry per cell of the family, and
/// one absent tensor for each cell before and after.
pub proof fn lemma_tensor_field_entries(
    e: ElementsView,
    kind: Family,
    before: int,
    after: int,
    j: int,
)
    requires
        0 <= before,
        0 <= after,
        0 <= j < e.tensor_names.len(),
    ensures
        tensor_fields(e, kind, before, after)[j].values.entries() == before + e.count + after,
{
}

/// The grid of a complete frame has one cell per element, all families
/// together, and every field on its cells has exactly one entry per cell,
/// whichever family defines the field.
pub proof fn lemma_cell_fields_cover_every_cell(f: AnimFrameView)
    requires
        f.complete(),
    ensures
        dataset_of(f).cells.len() == f.lines.count + f.facets.count + f.volumes.count
            + f.particles.count,
        forall|k: int|
            0 <= k < dataset_of(f).cell_data.len() ==> (#[trigger] dataset_of(
                f,
            ).cell_data[k]).values.entries() == dataset_of(f).cells.len(),
{
    let total = f.total_cells() as int;
    let s0 = identity_fields(f);
    let s1 = scalar_fields(
        f.lines,
        Family::Line,
        cells_before(f, Family::Line),
        cells_after(f, Family::Line),
    );
    let s2 = torsor_fields(f.lines, cells_after(f, Family::Line));
    let s3 = scalar_fields(
        f.facets,
        Family::Facet,
        cells_before(f, Family::Facet),
        cells_after(f, Family::Facet),
    );
    let s4 = tensor_fields(
        f.facets,
        Family::Facet,
        cells_before(f, Family::Facet),
        cells_after(f, Family::Facet),
    );
    let s5 = scalar_fields(
        f.volumes,
        Family::Volume,
        cells_before(f, Family::Volume),
        cells_after(f, Family::Volume),
    );
    let s6 = tensor_fields(
        f.volumes,
        Family::Volume,
        cells_before(f, Family::Volume),
        cells_after(f, Family::Volume),
    );
    let s7 = scalar_fields(
        f.particles,
        Family::Particle,
        cells_before(f, Family::Particle),
        cells_after(f, Family::Particle),
    );
    let s8 = tensor_fields(
        f.particles,
        Family::Particle,
        cells_before(f, Family::Particle),
        cells_after(f, Family::Particle),
    );
    let all = cell_fields(f);
    assert(all == s0 + s1 + s2 + s3 + s4 + s5 + s6 + s7 + s8);
    assert forall|k: int| 0 <= k < all.len() implies (#[trigger] all[k]).values.entries()
        == total by {
        let b1 = s0.len() as int;
        let b2 = b1 + s1.len();
        let b3 = b2 + s2.len();
        let b4 = b3 + s3.len();
        let b5 = b4 + s4.len();
        let b6 = b5 + s5.len();
        let b7 = b6 + s6.len();
        let b8 = b7 + s7.len();
        if k < b1 {
            assert(all[k] == s0[k]);
        } else if k < b2 {
            assert(all[k] == s1[k - b1]);
            lemma_scalar_field_entries(
                f.lines,
                Family::Line,
                cells_before(f, Family::Line),
                cells_after(f, Family::Line),
                k - b1,
            );
        } else if k < b3 {
            assert(all[k] == s2[k - b2]);
            lemma_torsor_field_entries(f.lines, cells_after(f, Family::Line), k - b2);
        } else if k < b4 {
            assert(all[k] == s3[k - b3]);
            lemma_scalar_field_entries(
                f.facets,
                Family::Facet,
                cells_before(f, Family::Facet),
                cells_after(f, Family::Facet),
                k - b3,
            );
        } else if k < b5 {
            assert(all[k] == s4[k - b4]);
            lemma_tensor_field_entries(
                f.facets,
                Family::Facet,
                cells_before(f, Family::Facet),
                cells_after(f, Family::Facet),
                k - b4,
            );
        } else if k < b6 {
            assert(all[k] == s5[k - b5]);
            lemma_scalar_field_entries(
                f.volumes,
                Family::Volume,
                cells_before(f, Family::Volume),
                cells_after(f, Family::Volume),
                k - b5,
            );
        } else if k < b7 {
            assert(all[k] == s6[k - b6]);
            lemma_tensor_field_entries(
                f.volumes,
                Family::Volume,
                cells_before(f, Family::Volume),
                cells_after(f, Family::Volume),
                k - b6,
            );
        } else if k < b8 {
            assert(all[k] == s7[k - b7]);
            lemma_scalar_field_entries(
                f.particles,
                Family::Particle,
                cells_before(f, Family::Particle),
                cells_after(f, Family::Particle),
                k - b7,
            );
        } else {
            assert(all[k] == s8[k - b8]);
            lemma_tensor_field_entries(
                f.particles,
                Family::Particle,
                cells_before(f, Family::Particle),
                cells_after(f, Family::Particle),
                k - b8,
            );
        }
    }
}

} // verus!
