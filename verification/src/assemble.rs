//! Building the grid of a frame.

use vstd::prelude::*;
use vstd::string::StringExecFns;
use crate::classify::classify_2d;
use crate::classify::classify_3d;
use crate::classify::Cell;
use crate::dataset::absent;
use crate::dataset::cell_fields;
use crate::dataset::cells_of;
use crate::dataset::dataset_of;
use crate::dataset::erosion_status;
use crate::dataset::facet_cells;
use crate::dataset::family_parts;
use crate::dataset::family_prefix;
use crate::dataset::fields;
use crate::dataset::identity_fields;
use crate::dataset::line_cells;
use crate::dataset::node_scalar_fields;
use crate::dataset::node_vector_fields;
use crate::dataset::particle_cells;
use crate::dataset::point_fields;
use crate::dataset::scalar_fields;
use crate::dataset::tensor_column;
use crate::dataset::tensor_fields;
use crate::dataset::torsor_column;
use crate::dataset::torsor_fields;
use crate::dataset::torsor_suffix;
use crate::dataset::volume_cells;
use crate::dataset::zeros;
use crate::dataset::Dataset;
use crate::dataset::Field;
use crate::dataset::FieldView;
use crate::dataset::Tensor;
use crate::dataset::Values;
use crate::error::ConvertError;
use crate::frame::AnimFrame;
use crate::frame::Elements;
use crate::frame::Family;
use crate::frame::Nodes;
use crate::parts::resolve_parts;
use crate::sizes::lemma_times_is_product;
use crate::sizes::lemma_times_row;
use crate::sizes::times;
use crate::text::replace_underscore;
use crate::text::underscored;

verus! {

/// Appends one edge per line.
fn push_line_cells(cells: &mut Vec<Cell>, e: &Elements)
    requires
        e@.complete(Family::Line),
    ensures
        final(cells)@ == old(cells)@ + line_cells(e@),
{
    proof {
        lemma_times_is_product(2, e.count as int);
    }
    let slots_total = e.connectivity.len();
    let mut i: usize = 0;
    while i < e.count
        invariant
            i <= e.count,
            slots_total == 2 * e.count,
            e.connectivity@.len() == 2 * e.count,
            cells@ == old(cells)@ + line_cells(e@).take(i as int),
        decreases e.count - i,
    {
        cells.push(Cell::Edge(e.connectivity[2 * i], e.connectivity[2 * i + 1]));
        i = i + 1;
        assert(cells@ =~= old(cells)@ + line_cells(e@).take(i as int));
    }
    assert(line_cells(e@).take(e.count as int) =~= line_cells(e@));
}

/// Appends one triangle or quadrilateral per facet.
fn push_facet_cells(cells: &mut Vec<Cell>, e: &Elements)
    requires
        e@.complete(Family::Facet),
    ensures
        final(cells)@ == old(cells)@ + facet_cells(e@),
{
    proof {
        lemma_times_is_product(4, e.count as int);
    }
    let slots_total = e.connectivity.len();
    let mut i: usize = 0;
    while i < e.count
        invariant
            i <= e.count,
            slots_total == 4 * e.count,
            e.connectivity@.len() == 4 * e.count,
            cells@ == old(cells)@ + facet_cells(e@).take(i as int),
        decreases e.count - i,
    {
        let c = &e.connectivity;
        let slots = [c[4 * i], c[4 * i + 1], c[4 * i + 2], c[4 * i + 3]];
        assert(slots@ =~= e@.connectivity.subrange(4 * i, 4 * i + 4));
        cells.push(classify_2d(slots));
        i = i + 1;
        assert(cells@ =~= old(cells)@ + facet_cells(e@).take(i as int));
    }
    assert(facet_cells(e@).take(e.count as int) =~= facet_cells(e@));
}

/// Appends one tetrahedron or hexahedron per volume.
fn push_volume_cells(cells: &mut Vec<Cell>, e: &Elements)
    requires
        e@.complete(Family::Volume),
    ensures
        final(cells)@ == old(cells)@ + volume_cells(e@),
{
    proof {
        lemma_times_is_product(8, e.count as int);
    }
    let slots_total = e.connectivity.len();
    let mut i: usize = 0;
    while i < e.count
        invariant
            i <= e.count,
            slots_total == 8 * e.count,
            e.connectivity@.len() == 8 * e.count,
            cells@ == old(cells)@ + volume_cells(e@).take(i as int),
        decreases e.count - i,
    {
        let c = &e.connectivity;
        let slots = [
            c[8 * i],
            c[8 * i + 1],
            c[8 * i + 2],
            c[8 * i + 3],
            c[8 * i + 4],
            c[8 * i + 5],
            c[8 * i + 6],
            c[8 * i + 7],
        ];
        assert(slots@ =~= e@.connectivity.subrange(8 * i, 8 * i + 8));
        cells.push(classify_3d(slots));
        i = i + 1;
        assert(cells@ =~= old(cells)@ + volume_cells(e@).take(i as int));
    }
    assert(volume_cells(e@).take(e.count as int) =~= volume_cells(e@));
}

/// Appends one vertex per particle.
fn push_particle_cells(cells: &mut Vec<Cell>, e: &Elements)
    requires
        e@.complete(Family::Particle),
    ensures
        final(cells)@ == old(cells)@ + particle_cells(e@),
{
    proof {
        lemma_times_is_product(1, e.count as int);
    }
    let mut i: usize = 0;
    while i < e.count
        invariant
            i <= e.count,
            e.connectivity@.len() == e.count,
            cells@ == old(cells)@ + particle_cells(e@).take(i as int),
        decreases e.count - i,
    {
        cells.push(Cell::Vertex(e.connectivity[i]));
        i = i + 1;
        assert(cells@ =~= old(cells)@ + particle_cells(e@).take(i as int));
    }
    assert(particle_cells(e@).take(e.count as int) =~= particle_cells(e@));
}

/// The cells of a frame, family after family.
pub fn build_cells(frame: &AnimFrame) -> (r: Vec<Cell>)
    requires
        frame@.complete(),
    ensures
        r@ == cells_of(frame@),
{
    let mut cells: Vec<Cell> = Vec::new();
    push_line_cells(&mut cells, &frame.lines);
    push_facet_cells(&mut cells, &frame.facets);
    push_volume_cells(&mut cells, &frame.volumes);
    push_particle_cells(&mut cells, &frame.particles);
    assert(cells@ =~= cells_of(frame@));
    cells
}

/// The name of a field in the output: the prefix of its family, its own
/// name with underscores for spaces, and the suffix of its component.
fn field_name(prefix: &str, name: &str, suffix: &str) -> (r: String)
    ensures
        r@ == prefix@ + underscored(name@) + suffix@,
{
    let mut r = String::from_str(prefix);
    r.append(replace_underscore(name).as_str());
    r.append(suffix);
    r
}

/// The prefix that the name of a field takes from the family that defines it.
fn prefix_of(kind: Family) -> (r: &'static str)
    ensures
        r@ == family_prefix(kind),
{
    match kind {
        Family::Line => "1DELEM_",
        Family::Facet => "2DELEM_",
        Family::Volume => "3DELEM_",
        Family::Particle => "SPHELEM_",
    }
}

/// Appends `n` zeros.
fn push_zeros(v: &mut Vec<u32>, n: usize)
    ensures
        final(v)@ == old(v)@ + zeros(n as int),
{
    let mut i: usize = 0;
    while i < n
        invariant
            i <= n,
            v@ == old(v)@ + zeros(i as int),
        decreases n - i,
    {
        v.push(0);
        i = i + 1;
        assert(v@ =~= old(v)@ + zeros(i as int));
    }
}

/// Appends `n` absent tensors.
fn push_absent(v: &mut Vec<Tensor>, n: usize)
    ensures
        final(v)@ == old(v)@ + absent(n as int),
{
    let mut i: usize = 0;
    while i < n
        invariant
            i <= n,
            v@ == old(v)@ + absent(i as int),
        decreases n - i,
    {
        v.push(Tensor::Absent);
        i = i + 1;
        assert(v@ =~= old(v)@ + absent(i as int));
    }
}

/// Appends `n` entries of `source`, starting at `from`.
fn push_range(v: &mut Vec<u32>, source: &Vec<u32>, from: usize, n: usize)
    requires
        from + n <= source@.len(),
    ensures
        final(v)@ == old(v)@ + source@.subrange(from as int, from + n),
{
    let available = source.len();
    let mut i: usize = 0;
    while i < n
        invariant
            i <= n,
            available == source@.len(),
            from + n <= source@.len(),
            v@ == old(v)@ + source@.subrange(from as int, from + i),
        decreases n - i,
    {
        v.push(source[from + i]);
        i = i + 1;
        assert(v@ =~= old(v)@ + source@.subrange(from as int, from + i));
    }
}

/// Appends a field to a list of fields.
fn push_field(out: &mut Vec<Field>, name: String, values: Values)
    ensures
        fields(final(out)@) == fields(old(out)@).push(FieldView { name: name@, values: values@ }),
{
    out.push(Field { name, values });
    assert(fields(out@) =~= fields(old(out)@).push(FieldView { name: name@, values: values@ }));
}

/// Appends the scalar fields of a family, each padded with zeros for the
/// cells of the other families.
fn push_scalar_fields(out: &mut Vec<Field>, e: &Elements, kind: Family, before: usize, after: usize)
    requires
        e@.complete(kind),
    ensures
        fields(final(out)@) == fields(old(out)@) + scalar_fields(
            e@,
            kind,
            before as int,
            after as int,
        ),
{
    let n = e.count;
    let rows = e.scalar_names.len();
    let total = e.scalars.len();
    let ghost all = scalar_fields(e@, kind, before as int, after as int);
    let mut offset: usize = 0;
    let mut j: usize = 0;
    proof {
        lemma_times_is_product(0, n as int);
    }
    while j < rows
        invariant
            j <= rows,
            n == e.count,
            rows == e.scalar_names@.len(),
            total == e.scalars@.len(),
            e@.complete(kind),
            offset == times(j as int, n as int),
            all == scalar_fields(e@, kind, before as int, after as int),
            fields(out@) == fields(old(out)@) + all.take(j as int),
        decreases rows - j,
    {
        proof {
            lemma_times_row(j as int, rows as int, n as int);
        }
        let mut values: Vec<u32> = Vec::new();
        push_zeros(&mut values, before);
        push_range(&mut values, &e.scalars, offset, n);
        push_zeros(&mut values, after);
        let name = field_name(prefix_of(kind), e.scalar_names[j].as_str(), "");
        proof {
            reveal_strlit("");
            assert(name@ =~= family_prefix(kind) + underscored(e@.scalar_names[j as int]));
            assert(values@ =~= zeros(before as int) + e@.scalars.subrange(
                offset as int,
                offset + n,
            ) + zeros(after as int));
        }
        push_field(out, name, Values::Scalars(values));
        offset = offset + n;
        j = j + 1;
        assert(fields(out@) =~= fields(old(out)@) + all.take(j as int));
    }
    assert(all.take(rows as int) =~= all);
}

/// The name that a component of a torsor adds to the name of the torsor.
fn suffix_of(c: usize) -> (r: &'static str)
    requires
        c < 9,
    ensures
        r@ == torsor_suffix(c as int),
{
    match c {
        0 => "F1",
        1 => "F2",
        2 => "F3",
        3 => "M1",
        4 => "M2",
        5 => "M3",
        6 => "M4",
        7 => "M5",
        _ => "M6",
    }
}

/// Appends the nine fields of each torsor of the lines, each padded with
/// zeros for the cells behind the lines.
fn push_torsor_fields(out: &mut Vec<Field>, e: &Elements, after: usize)
    requires
        e@.complete(Family::Line),
    ensures
        fields(final(out)@) == fields(old(out)@) + torsor_fields(e@, after as int),
{
    let n = e.count;
    let rows = e.tensor_names.len();
    let total = e.tensors.len();
    let ghost all = torsor_fields(e@, after as int);
    let mut offset: usize = 0;
    let mut j: usize = 0;
    proof {
        lemma_times_is_product(0, n as int);
        lemma_times_is_product(9, times(rows as int, n as int));
    }
    while j < rows
        invariant
            j <= rows,
            n == e.count,
            rows == e.tensor_names@.len(),
            total == e.tensors@.len(),
            total == 9 * times(rows as int, n as int),
            e@.complete(Family::Line),
            offset == times(j as int, n as int),
            all == torsor_fields(e@, after as int),
            fields(out@) == fields(old(out)@) + all.take(9 * j),
        decreases rows - j,
    {
        proof {
            lemma_times_row(j as int, rows as int, n as int);
        }
        let mut c: usize = 0;
        while c < 9
            invariant
                c <= 9,
                j < rows,
                n == e.count,
                rows == e.tensor_names@.len(),
                total == e.tensors@.len(),
                total == 9 * times(rows as int, n as int),
                offset == times(j as int, n as int),
                0 <= offset,
                offset + n <= times(rows as int, n as int),
                all == torsor_fields(e@, after as int),
                fields(out@) == fields(old(out)@) + all.take(9 * j + c),
            decreases 9 - c,
        {
            let mut values: Vec<u32> = Vec::new();
            let mut i: usize = 0;
            while i < n
                invariant
                    i <= n,
                    c < 9,
                    n == e.count,
                    total == e.tensors@.len(),
                    total == 9 * times(rows as int, n as int),
                    offset == times(j as int, n as int),
                    0 <= offset,
                    offset + n <= times(rows as int, n as int),
                    values@ == torsor_column(e@, j as int, c as int).take(i as int),
                decreases n - i,
            {
                values.push(e.tensors[9 * offset + 9 * i + c]);
                i = i + 1;
                assert(values@ =~= torsor_column(e@, j as int, c as int).take(i as int));
            }
            assert(torsor_column(e@, j as int, c as int).take(n as int) =~= torsor_column(
                e@,
                j as int,
                c as int,
            ));
            push_zeros(&mut values, after);
            let name = field_name("1DELEM_", e.tensor_names[j].as_str(), suffix_of(c));
            let ghost k = 9 * j + c;
            assert(k / 9 == j && k % 9 == c);
            push_field(out, name, Values::Scalars(values));
            c = c + 1;
            assert(fields(out@) =~= fields(old(out)@) + all.take(9 * j + c));
        }
        offset = offset + n;
        j = j + 1;
    }
    assert(all.take(9 * rows) =~= all);
}

/// Appends the tensor fields of a family of facets, volumes or particles,
/// each padded with absent tensors for the cells of the other families.
fn push_tensor_fields(out: &mut Vec<Field>, e: &Elements, kind: Family, before: usize, after: usize)
    requires
        !(kind is Line),
        e@.complete(kind),
    ensures
        fields(final(out)@) == fields(old(out)@) + tensor_fields(
            e@,
            kind,
            before as int,
            after as int,
        ),
{
    let n = e.count;
    let rows = e.tensor_names.len();
    let total = e.tensors.len();
    let planar = match kind {
        Family::Facet => true,
        _ => false,
    };
    let ghost all = tensor_fields(e@, kind, before as int, after as int);
    let mut offset: usize = 0;
    let mut j: usize = 0;
    proof {
        lemma_times_is_product(0, n as int);
        lemma_times_is_product(kind.components(), times(rows as int, n as int));
    }
    while j < rows
        invariant
            j <= rows,
            n == e.count,
            rows == e.tensor_names@.len(),
            total == e.tensors@.len(),
            total == kind.components() * times(rows as int, n as int),
            planar == (kind is Facet),
            !(kind is Line),
            e@.complete(kind),
            offset == times(j as int, n as int),
            all == tensor_fields(e@, kind, before as int, after as int),
            fields(out@) == fields(old(out)@) + all.take(j as int),
        decreases rows - j,
    {
        proof {
            lemma_times_row(j as int, rows as int, n as int);
        }
        let mut values: Vec<Tensor> = Vec::new();
        push_absent(&mut values, before);
        let ghost head = values@;
        let mut i: usize = 0;
        while i < n
            invariant
                i <= n,
                n == e.count,
                total == e.tensors@.len(),
                total == kind.components() * times(rows as int, n as int),
                planar == (kind is Facet),
                !(kind is Line),
                offset == times(j as int, n as int),
                0 <= offset,
                offset + n <= times(rows as int, n as int),
                values@ == head + tensor_column(e@, kind, j as int).take(i as int),
            decreases n - i,
        {
            let t = &e.tensors;
            if planar {
                let base = 3 * offset + 3 * i;
                values.push(Tensor::Planar(t[base], t[base + 1], t[base + 2]));
            } else {
                let base = 6 * offset + 6 * i;
                values.push(
                    Tensor::Full(
                        t[base],
                        t[base + 1],
                        t[base + 2],
                        t[base + 3],
                        t[base + 4],
                        t[base + 5],
                    ),
                );
            }
            i = i + 1;
            assert(values@ =~= head + tensor_column(e@, kind, j as int).take(i as int));
        }
        assert(tensor_column(e@, kind, j as int).take(n as int) =~= tensor_column(
            e@,
            kind,
            j as int,
        ));
        push_absent(&mut values, after);
        let name = field_name(prefix_of(kind), e.tensor_names[j].as_str(), "");
        proof {
            reveal_strlit("");
            assert(name@ =~= family_prefix(kind) + underscored(e@.tensor_names[j as int]));
        }
        push_field(out, name, Values::Tensors(values));
        offset = offset + n;
        j = j + 1;
        assert(fields(out@) =~= fields(old(out)@) + all.take(j as int));
    }
    assert(all.take(rows as int) =~= all);
}

/// Appends every entry of `source`.
fn push_all(v: &mut Vec<i32>, source: &Vec<i32>)
    ensures
        final(v)@ == old(v)@ + source@,
{
    let n = source.len();
    let mut i: usize = 0;
    while i < n
        invariant
            i <= n,
            n == source@.len(),
            v@ == old(v)@ + source@.take(i as int),
        decreases n - i,
    {
        v.push(source[i]);
        i = i + 1;
        assert(v@ =~= old(v)@ + source@.take(i as int));
    }
    assert(source@.take(n as int) =~= source@);
}

/// Appends the erosion status of each element of a family.
fn push_erosion(v: &mut Vec<i32>, e: &Elements)
    requires
        e.erosion@.len() == e.count,
    ensures
        final(v)@ == old(v)@ + erosion_status(e@),
{
    let mut i: usize = 0;
    while i < e.count
        invariant
            i <= e.count,
            e.erosion@.len() == e.count,
            v@ == old(v)@ + erosion_status(e@).take(i as int),
        decreases e.count - i,
    {
        let status: i32 = if e.erosion[i] != 0 {
            1
        } else {
            0
        };
        v.push(status);
        i = i + 1;
        assert(v@ =~= old(v)@ + erosion_status(e@).take(i as int));
    }
    assert(erosion_status(e@).take(e.count as int) =~= erosion_status(e@));
}

/// Appends the part number of each element of a family.
fn push_parts(v: &mut Vec<i32>, e: &Elements)
    ensures
        final(v)@ == old(v)@ + family_parts(e@),
{
    let parts = resolve_parts(&e.part_boundaries, &e.part_labels, e.count);
    push_all(v, &parts);
}

/// Appends the three fields that every cell has.
fn push_identity_fields(out: &mut Vec<Field>, frame: &AnimFrame)
    requires
        frame@.complete(),
    ensures
        fields(final(out)@) == fields(old(out)@) + identity_fields(frame@),
{
    let mut ids: Vec<i32> = Vec::new();
    push_all(&mut ids, &frame.lines.external_ids);
    push_all(&mut ids, &frame.facets.external_ids);
    push_all(&mut ids, &frame.volumes.external_ids);
    push_all(&mut ids, &frame.particles.external_ids);
    let mut parts: Vec<i32> = Vec::new();
    push_parts(&mut parts, &frame.lines);
    push_parts(&mut parts, &frame.facets);
    push_parts(&mut parts, &frame.volumes);
    push_parts(&mut parts, &frame.particles);
    let mut status: Vec<i32> = Vec::new();
    push_erosion(&mut status, &frame.lines);
    push_erosion(&mut status, &frame.facets);
    push_erosion(&mut status, &frame.volumes);
    push_erosion(&mut status, &frame.particles);
    proof {
        let f = frame@;
        assert(ids@ =~= f.lines.external_ids + f.facets.external_ids + f.volumes.external_ids
            + f.particles.external_ids);
        assert(parts@ =~= family_parts(f.lines) + family_parts(f.facets) + family_parts(f.volumes)
            + family_parts(f.particles));
        assert(status@ =~= erosion_status(f.lines) + erosion_status(f.facets) + erosion_status(
            f.volumes,
        ) + erosion_status(f.particles));
    }
    push_field(out, String::from_str("ELEMENT_ID"), Values::Ints(ids));
    push_field(out, String::from_str("PART_ID"), Values::Ints(parts));
    push_field(out, String::from_str("EROSION_STATUS"), Values::Ints(status));
    assert(fields(out@) =~= fields(old(out)@) + identity_fields(frame@));
}

/// The fields on the cells of a frame.
pub fn build_cell_fields(frame: &AnimFrame) -> (r: Vec<Field>)
    requires
        frame@.complete(),
    ensures
        fields(r@) == cell_fields(frame@),
{
    let n1 = frame.lines.count;
    let n2 = frame.facets.count;
    let n3 = frame.volumes.count;
    let n0 = frame.particles.count;
    let ghost f = frame@;
    let mut out: Vec<Field> = Vec::new();
    assert(fields(out@) =~= Seq::<FieldView>::empty());
    push_identity_fields(&mut out, frame);
    push_scalar_fields(&mut out, &frame.lines, Family::Line, 0, n2 + n3 + n0);
    push_torsor_fields(&mut out, &frame.lines, n2 + n3 + n0);
    push_scalar_fields(&mut out, &frame.facets, Family::Facet, n1, n3 + n0);
    push_tensor_fields(&mut out, &frame.facets, Family::Facet, n1, n3 + n0);
    push_scalar_fields(&mut out, &frame.volumes, Family::Volume, n1 + n2, n0);
    push_tensor_fields(&mut out, &frame.volumes, Family::Volume, n1 + n2, n0);
    push_scalar_fields(&mut out, &frame.particles, Family::Particle, n1 + n2 + n3, 0);
    push_tensor_fields(&mut out, &frame.particles, Family::Particle, n1 + n2 + n3, 0);
    assert(fields(out@) =~= cell_fields(f));
    out
}

/// Appends the scalar fields of the nodes.
fn push_node_scalar_fields(out: &mut Vec<Field>, nodes: &Nodes)
    requires
        nodes@.complete(),
    ensures
        fields(final(out)@) == fields(old(out)@) + node_scalar_fields(nodes@),
{
    let n = nodes.count;
    let rows = nodes.scalar_names.len();
    let total = nodes.scalars.len();
    let ghost all = node_scalar_fields(nodes@);
    let mut offset: usize = 0;
    let mut j: usize = 0;
    proof {
        lemma_times_is_product(0, n as int);
    }
    while j < rows
        invariant
            j <= rows,
            n == nodes.count,
            rows == nodes.scalar_names@.len(),
            total == nodes.scalars@.len(),
            nodes@.complete(),
            offset == times(j as int, n as int),
            all == node_scalar_fields(nodes@),
            fields(out@) == fields(old(out)@) + all.take(j as int),
        decreases rows - j,
    {
        proof {
            lemma_times_row(j as int, rows as int, n as int);
        }
        let mut values: Vec<u32> = Vec::new();
        push_range(&mut values, &nodes.scalars, offset, n);
        let name = replace_underscore(nodes.scalar_names[j].as_str());
        assert(values@ =~= nodes@.scalars.subrange(offset as int, offset + n));
        push_field(out, name, Values::Scalars(values));
        offset = offset + n;
        j = j + 1;
        assert(fields(out@) =~= fields(old(out)@) + all.take(j as int));
    }
    assert(all.take(rows as int) =~= all);
}

/// Appends the vector fields of the nodes.
fn push_node_vector_fields(out: &mut Vec<Field>, nodes: &Nodes)
    requires
        nodes@.complete(),
    ensures
        fields(final(out)@) == fields(old(out)@) + node_vector_fields(nodes@),
{
    let n = nodes.count;
    let rows = nodes.vector_names.len();
    let total = nodes.vectors.len();
    let ghost all = node_vector_fields(nodes@);
    let mut offset: usize = 0;
    let mut j: usize = 0;
    proof {
        lemma_times_is_product(0, n as int);
    }
    while j < rows
        invariant
            j <= rows,
            n == nodes.count,
            rows == nodes.vector_names@.len(),
            total == nodes.vectors@.len(),
            nodes@.complete(),
            offset == times(j as int, n as int),
            all == node_vector_fields(nodes@),
            fields(out@) == fields(old(out)@) + all.take(j as int),
        decreases rows - j,
    {
        proof {
            lemma_times_row(j as int, rows as int, n as int);
        }
        let mut values: Vec<u32> = Vec::new();
        push_range(&mut values, &nodes.vectors, 3 * offset, 3 * n);
        let name = replace_underscore(nodes.vector_names[j].as_str());
        assert(values@ =~= nodes@.vectors.subrange(3 * offset, 3 * offset + 3 * n));
        push_field(out, name, Values::Vectors(values));
        offset = offset + n;
        j = j + 1;
        assert(fields(out@) =~= fields(old(out)@) + all.take(j as int));
    }
    assert(all.take(rows as int) =~= all);
}

/// The fields on the points of a frame.
pub fn build_point_fields(nodes: &Nodes) -> (r: Vec<Field>)
    requires
        nodes@.complete(),
    ensures
        fields(r@) == point_fields(nodes@),
{
    let mut out: Vec<Field> = Vec::new();
    let mut ids: Vec<i32> = Vec::new();
    push_all(&mut ids, &nodes.external_ids);
    assert(ids@ =~= nodes@.external_ids);
    assert(fields(out@) =~= Seq::<FieldView>::empty());
    push_field(&mut out, String::from_str("NODE_ID"), Values::Ints(ids));
    push_node_scalar_fields(&mut out, nodes);
    push_node_vector_fields(&mut out, nodes);
    assert(fields(out@) =~= point_fields(nodes@));
    out
}

/// Builds the grid of a frame.
///
/// The output needs every array of the frame at the length that its counts
/// ask for, the external numbers included: a frame decoded from a stream
/// without numbering has elements without external numbers, and is refused.
pub fn assemble(frame: &AnimFrame) -> (r: Result<Dataset, ConvertError>)
    ensures
        match r {
            Ok(d) => frame@.complete() && d@ == dataset_of(frame@),
            Err(e) => !frame@.complete() && e == ConvertError::Incomplete,
        },
{
    if !frame.is_complete() {
        return Err(ConvertError::Incomplete);
    }
    let mut points: Vec<u32> = Vec::new();
    push_range(&mut points, &frame.nodes.coordinates, 0, frame.nodes.coordinates.len());
    assert(points@ =~= frame@.nodes.coordinates);
    let cells = build_cells(frame);
    let point_data = build_point_fields(&frame.nodes);
    let cell_data = build_cell_fields(frame);
    Ok(Dataset { time: frame.time, points, cells, point_data, cell_data })
}

} // verus!
