//! The legacy unstructured-grid format, in its text and its binary variant.
//!
//! Both variants hold the same sections in the same order, with the same
//! counts and the same padding. They differ in how a number is written: as
//! decimal text that ends a line or a row, or as big-endian bytes with
//! nothing between them.

use vstd::prelude::*;
use crate::classify::Cell;
use crate::dataset::fields;
use crate::dataset::Dataset;
use crate::dataset::DatasetView;
use crate::dataset::Field;
use crate::dataset::FieldView;
use crate::dataset::Tensor;
use crate::dataset::Values;
use crate::dataset::ValuesView;
use crate::endian::be_bytes_i32;
use crate::endian::be_bytes_u32;
use crate::output::bytes_units;
use crate::output::text;
use crate::output::units;
use crate::output::Output;
use crate::output::Piece;
use crate::output::Unit;
use crate::text::decimal;
use crate::text::format_i32;
use crate::text::format_nat;

verus! {

/// The end of a line.
pub open spec fn newline() -> Seq<Unit> {
    text("\n"@)
}

/// A text and the end of its line.
pub open spec fn line(s: Seq<char>) -> Seq<Unit> {
    text(s) + newline()
}

/// A count in a header line.
pub open spec fn count(n: int) -> Seq<Unit> {
    text(decimal(n))
}

/// One integer of an array: four bytes, or a line of text.
pub open spec fn int_value(v: i32, binary: bool) -> Seq<Unit> {
    if binary {
        bytes_units(be_bytes_i32(v))
    } else {
        text(decimal(v as int)) + newline()
    }
}

/// One real number: four bytes, or its decimal text.
pub open spec fn number(bits: u32, binary: bool) -> Seq<Unit> {
    if binary {
        bytes_units(be_bytes_u32(bits))
    } else {
        seq![Unit::Real(bits)]
    }
}

/// One real number of an array of scalars: four bytes, or a line of text.
pub open spec fn scalar_value(bits: u32, binary: bool) -> Seq<Unit> {
    if binary {
        number(bits, binary)
    } else {
        number(bits, binary) + newline()
    }
}

/// Three real numbers: twelve bytes, or a row of text.
#[verifier::opaque]
pub open spec fn triple(x: u32, y: u32, z: u32, binary: bool) -> Seq<Unit> {
    if binary {
        number(x, binary) + number(y, binary) + number(z, binary)
    } else {
        number(x, binary) + text(" "@) + number(y, binary) + text(" "@) + number(z, binary) + newline()
    }
}

/// The first `n` triples of `v`.
pub open spec fn triples(v: Seq<u32>, n: nat, binary: bool) -> Seq<Unit>
    decreases n,
{
    if n == 0 {
        Seq::empty()
    } else {
        let i = n - 1;
        triples(v, i as nat, binary) + triple(v[3 * i], v[3 * i + 1], v[3 * i + 2], binary)
    }
}

/// The integers of an array, one after the other.
pub open spec fn int_values(v: Seq<i32>, binary: bool) -> Seq<Unit>
    decreases v.len(),
{
    if v.len() == 0 {
        Seq::empty()
    } else {
        int_values(v.drop_last(), binary) + int_value(v.last(), binary)
    }
}

/// The real numbers of an array of scalars, one after the other.
pub open spec fn scalar_values(v: Seq<u32>, binary: bool) -> Seq<Unit>
    decreases v.len(),
{
    if v.len() == 0 {
        Seq::empty()
    } else {
        scalar_values(v.drop_last(), binary) + scalar_value(v.last(), binary)
    }
}

/// One entry of a tensor: a stored number, or zero for an entry that the
/// input does not store.
pub open spec fn tensor_entry(e: Option<u32>, binary: bool) -> Seq<Unit> {
    match e {
        Some(bits) => number(bits, binary),
        None => if binary {
            number(0, binary)
        } else {
            text("0"@)
        },
    }
}

/// One row of a tensor: twelve bytes, or a row of text. In text, a row
/// whose last entry is not stored has a space before the end of the line.
#[verifier::opaque]
pub open spec fn tensor_row(a: Option<u32>, b: Option<u32>, c: Option<u32>, binary: bool) -> Seq<
    Unit,
> {
    if binary {
        tensor_entry(a, binary) + tensor_entry(b, binary) + tensor_entry(c, binary)
    } else if c is None {
        tensor_entry(a, binary) + text(" "@) + tensor_entry(b, binary) + text(" "@) + tensor_entry(
            c,
            binary,
        ) + text(" "@) + newline()
    } else {
        tensor_entry(a, binary) + text(" "@) + tensor_entry(b, binary) + text(" "@) + tensor_entry(
            c,
            binary,
        ) + newline()
    }
}

/// The three rows of a matrix of nine entries.
pub open spec fn matrix_rows(e: Seq<Option<u32>>, binary: bool) -> Seq<Unit> {
    tensor_row(e[0], e[1], e[2], binary) + tensor_row(e[3], e[4], e[5], binary) + tensor_row(
        e[6],
        e[7],
        e[8],
        binary,
    )
}

/// One tensor: the three rows of its matrix.
#[verifier::opaque]
pub open spec fn tensor_value(t: Tensor, binary: bool) -> Seq<Unit> {
    matrix_rows(t.entries(), binary)
}

/// The tensors of an array, one after the other.
pub open spec fn tensor_values(v: Seq<Tensor>, binary: bool) -> Seq<Unit>
    decreases v.len(),
{
    if v.len() == 0 {
        Seq::empty()
    } else {
        tensor_values(v.drop_last(), binary) + tensor_value(v.last(), binary)
    }
}

/// The nodes of a cell in text, each after its separator: one space, or
/// two between the nodes of a hexahedron.
pub open spec fn node_texts(nodes: Seq<i32>, wide: bool) -> Seq<Unit>
    decreases nodes.len(),
{
    if nodes.len() == 0 {
        Seq::empty()
    } else {
        node_texts(nodes.drop_last(), wide) + text(
            if wide && nodes.len() > 1 {
                "  "@
            } else {
                " "@
            },
        ) + text(decimal(nodes.last() as int))
    }
}

/// One cell of the cell list: the number of its nodes, then the nodes.
#[verifier::opaque]
pub open spec fn cell_value(c: Cell, binary: bool) -> Seq<Unit> {
    if binary {
        int_value(c.nodes().len() as i32, binary) + int_values(c.nodes(), binary)
    } else {
        text(decimal(c.nodes().len() as int)) + node_texts(c.nodes(), c is Hexa) + newline()
    }
}

/// The cells of the cell list, one after the other.
pub open spec fn cell_values(c: Seq<Cell>, binary: bool) -> Seq<Unit>
    decreases c.len(),
{
    if c.len() == 0 {
        Seq::empty()
    } else {
        cell_values(c.drop_last(), binary) + cell_value(c.last(), binary)
    }
}

/// The type codes of the cells, one after the other.
pub open spec fn code_values(c: Seq<Cell>, binary: bool) -> Seq<Unit>
    decreases c.len(),
{
    if c.len() == 0 {
        Seq::empty()
    } else {
        code_values(c.drop_last(), binary) + int_value(c.last().code(), binary)
    }
}

/// How many integers the cell list holds: for each cell, the number of its
/// nodes and the nodes.
pub open spec fn cell_list_size(c: Seq<Cell>) -> int
    decreases c.len(),
{
    if c.len() == 0 {
        0
    } else {
        cell_list_size(c.drop_last()) + 1 + c.last().nodes().len()
    }
}

/// The lines that open every output.
#[verifier::opaque]
pub open spec fn header(binary: bool) -> Seq<Unit> {
    line("# vtk DataFile Version 3.0"@) + line("vtk output"@) + line(
        if binary {
            "BINARY"@
        } else {
            "ASCII"@
        },
    ) + line("DATASET UNSTRUCTURED_GRID"@)
}

/// The two global values: the time, in double precision in the binary
/// variant, and a cycle counter that is always zero.
#[verifier::opaque]
pub open spec fn field_data(time: u32, binary: bool) -> Seq<Unit> {
    line("FIELD FieldData 2"@) + line("TIME 1 1 double"@) + (if binary {
        seq![Unit::Double(time)]
    } else {
        seq![Unit::Real(time)]
    }) + newline() + line("CYCLE 1 1 int"@) + (if binary {
        bytes_units(be_bytes_i32(0))
    } else {
        text("0"@)
    }) + newline()
}

/// The points: three coordinates each.
#[verifier::opaque]
pub open spec fn points_section(p: Seq<u32>, binary: bool) -> Seq<Unit> {
    text("POINTS "@) + count(p.len() as int / 3) + line(" float"@) + triples(
        p,
        (p.len() / 3) as nat,
        binary,
    ) + newline()
}

/// The cell list. A grid without cells has an empty line in its place.
#[verifier::opaque]
pub open spec fn cells_section(c: Seq<Cell>, binary: bool) -> Seq<Unit> {
    if c.len() > 0 {
        text("CELLS "@) + count(c.len() as int) + text(" "@) + count(cell_list_size(c))
            + newline() + cell_values(c, binary) + newline()
    } else {
        newline()
    }
}

/// The cell types. A grid without cells has an empty line in their place.
#[verifier::opaque]
pub open spec fn types_section(c: Seq<Cell>, binary: bool) -> Seq<Unit> {
    if c.len() > 0 {
        text("CELL_TYPES "@) + count(c.len() as int) + newline() + code_values(c, binary)
            + newline()
    } else {
        newline()
    }
}

/// One field: its header, its values, and an empty line.
#[verifier::opaque]
pub open spec fn field_section(f: FieldView, binary: bool) -> Seq<Unit> {
    match f.values {
        ValuesView::Ints(v) => text("SCALARS "@) + text(f.name) + line(" int 1"@) + line(
            "LOOKUP_TABLE default"@,
        ) + int_values(v, binary) + newline(),
        ValuesView::Scalars(v) => text("SCALARS "@) + text(f.name) + line(" float 1"@) + line(
            "LOOKUP_TABLE default"@,
        ) + scalar_values(v, binary) + newline(),
        ValuesView::Vectors(v) => text("VECTORS "@) + text(f.name) + line(" float"@) + triples(
            v,
            (v.len() / 3) as nat,
            binary,
        ) + newline(),
        ValuesView::Tensors(v) => text("TENSORS "@) + text(f.name) + line(" float"@)
            + tensor_values(v, binary) + newline(),
    }
}

/// The fields of a list, one after the other.
pub open spec fn field_sections(f: Seq<FieldView>, binary: bool) -> Seq<Unit>
    decreases f.len(),
{
    if f.len() == 0 {
        Seq::empty()
    } else {
        field_sections(f.drop_last(), binary) + field_section(f.last(), binary)
    }
}

/// The whole output for a grid, section after section: header, global
/// values, points, cells, cell types, fields on points, fields on cells.
pub open spec fn grid_units(d: DatasetView, binary: bool) -> Seq<Unit> {
    header(binary) + field_data(d.time, binary) + points_section(d.points, binary)
        + cells_section(d.cells, binary) + types_section(d.cells, binary) + text("POINT_DATA "@)
        + count(d.points.len() as int / 3) + newline() + field_sections(d.point_data, binary)
        + text("CELL_DATA "@) + count(d.cells.len() as int) + newline() + field_sections(
        d.cell_data,
        binary,
    )
}

/// Writes the end of a line.
fn put_newline(out: &mut Output)
    ensures
        final(out)@ == old(out)@ + newline(),
{
    out.put_str("\n");
}

/// Writes a text and the end of its line.
fn put_line(out: &mut Output, s: &str)
    ensures
        final(out)@ == old(out)@ + line(s@),
{
    out.put_str(s);
    out.put_str("\n");
    assert(out@ =~= old(out)@ + line(s@));
}

/// Writes a count.
fn put_count(out: &mut Output, n: u128)
    ensures
        final(out)@ == old(out)@ + count(n as int),
{
    let s = format_nat(n);
    out.put_str(s.as_str());
}

/// Writes an integer as text.
fn put_decimal(out: &mut Output, v: i32)
    ensures
        final(out)@ == old(out)@ + text(decimal(v as int)),
{
    let s = format_i32(v);
    out.put_str(s.as_str());
}

/// Writes one integer of an array.
fn put_int(out: &mut Output, v: i32, binary: bool)
    ensures
        final(out)@ == old(out)@ + int_value(v, binary),
{
    if binary {
        out.put_i32_binary(v);
    } else {
        put_decimal(out, v);
        put_newline(out);
        assert(out@ =~= old(out)@ + int_value(v, binary));
    }
}

/// Writes one real number.
fn put_number(out: &mut Output, bits: u32, binary: bool)
    ensures
        final(out)@ == old(out)@ + number(bits, binary),
{
    if binary {
        out.put_f32_binary(bits);
    } else {
        out.put_real(bits);
    }
}

/// Writes three real numbers.
fn put_triple(out: &mut Output, x: u32, y: u32, z: u32, binary: bool)
    ensures
        final(out)@ == old(out)@ + triple(x, y, z, binary),
{
    reveal(triple);
    put_number(out, x, binary);
    if !binary {
        out.put_str(" ");
    }
    put_number(out, y, binary);
    if !binary {
        out.put_str(" ");
    }
    put_number(out, z, binary);
    if !binary {
        put_newline(out);
    }
    assert(out@ =~= old(out)@ + triple(x, y, z, binary));
}

/// Writes the triples of an array.
fn put_triples(out: &mut Output, v: &Vec<u32>, binary: bool)
    ensures
        final(out)@ == old(out)@ + triples(v@, (v@.len() / 3) as nat, binary),
{
    let len = v.len();
    let n = len / 3;
    let mut i: usize = 0;
    assert(out@ =~= old(out)@ + triples(v@, 0, binary));
    while i < n
        invariant
            i <= n,
            len == v@.len(),
            n == v@.len() / 3,
            out@ == old(out)@ + triples(v@, i as nat, binary),
        decreases n - i,
    {
        put_triple(out, v[3 * i], v[3 * i + 1], v[3 * i + 2], binary);
        i = i + 1;
        assert(out@ =~= old(out)@ + triples(v@, i as nat, binary));
    }
}

/// Writes the integers of an array.
fn put_ints(out: &mut Output, v: &Vec<i32>, binary: bool)
    ensures
        final(out)@ == old(out)@ + int_values(v@, binary),
{
    let n = v.len();
    let mut i: usize = 0;
    assert(out@ =~= old(out)@ + int_values(v@.take(0), binary));
    while i < n
        invariant
            i <= n,
            n == v@.len(),
            out@ == old(out)@ + int_values(v@.take(i as int), binary),
        decreases n - i,
    {
        put_int(out, v[i], binary);
        assert(v@.take(i + 1).drop_last() =~= v@.take(i as int));
        i = i + 1;
        assert(out@ =~= old(out)@ + int_values(v@.take(i as int), binary));
    }
    assert(v@.take(n as int) =~= v@);
}

/// Writes the real numbers of an array of scalars.
fn put_scalars(out: &mut Output, v: &Vec<u32>, binary: bool)
    ensures
        final(out)@ == old(out)@ + scalar_values(v@, binary),
{
    let n = v.len();
    let mut i: usize = 0;
    assert(out@ =~= old(out)@ + scalar_values(v@.take(0), binary));
    while i < n
        invariant
            i <= n,
            n == v@.len(),
            out@ == old(out)@ + scalar_values(v@.take(i as int), binary),
        decreases n - i,
    {
        put_number(out, v[i], binary);
        if !binary {
            put_newline(out);
        }
        assert(v@.take(i + 1).drop_last() =~= v@.take(i as int));
        i = i + 1;
        assert(out@ =~= old(out)@ + scalar_values(v@.take(i as int), binary));
    }
    assert(v@.take(n as int) =~= v@);
}

/// Writes one entry of a tensor.
fn put_tensor_entry(out: &mut Output, e: Option<u32>, binary: bool)
    ensures
        final(out)@ == old(out)@ + tensor_entry(e, binary),
{
    match e {
        Some(bits) => put_number(out, bits, binary),
        None => {
            if binary {
                put_number(out, 0, binary);
            } else {
                out.put_str("0");
            }
        },
    }
}

/// Writes one row of a tensor.
fn put_tensor_row(out: &mut Output, a: Option<u32>, b: Option<u32>, c: Option<u32>, binary: bool)
    ensures
        final(out)@ == old(out)@ + tensor_row(a, b, c, binary),
{
    reveal(tensor_row);
    put_tensor_entry(out, a, binary);
    if !binary {
        out.put_str(" ");
    }
    put_tensor_entry(out, b, binary);
    if !binary {
        out.put_str(" ");
    }
    put_tensor_entry(out, c, binary);
    if !binary {
        if c.is_none() {
            out.put_str(" ");
        }
        put_newline(out);
    }
    assert(out@ =~= old(out)@ + tensor_row(a, b, c, binary));
}

/// Writes one tensor.
fn put_tensor(out: &mut Output, t: Tensor, binary: bool)
    ensures
        final(out)@ == old(out)@ + tensor_value(t, binary),
{
    reveal(tensor_value);
    let e = t.entry_list();
    put_tensor_row(out, e[0], e[1], e[2], binary);
    put_tensor_row(out, e[3], e[4], e[5], binary);
    put_tensor_row(out, e[6], e[7], e[8], binary);
    assert(out@ =~= old(out)@ + matrix_rows(e@, binary));
}

/// Writes the tensors of an array.
fn put_tensors(out: &mut Output, v: &Vec<Tensor>, binary: bool)
    ensures
        final(out)@ == old(out)@ + tensor_values(v@, binary),
{
    let n = v.len();
    let mut i: usize = 0;
    assert(out@ =~= old(out)@ + tensor_values(v@.take(0), binary));
    while i < n
        invariant
            i <= n,
            n == v@.len(),
            out@ == old(out)@ + tensor_values(v@.take(i as int), binary),
        decreases n - i,
    {
        put_tensor(out, v[i], binary);
        assert(v@.take(i + 1).drop_last() =~= v@.take(i as int));
        i = i + 1;
        assert(out@ =~= old(out)@ + tensor_values(v@.take(i as int), binary));
    }
    assert(v@.take(n as int) =~= v@);
}

/// Writes the nodes of a cell in text.
fn put_node_texts(out: &mut Output, nodes: &Vec<i32>, wide: bool)
    ensures
        final(out)@ == old(out)@ + node_texts(nodes@, wide),
{
    let n = nodes.len();
    let mut i: usize = 0;
    assert(out@ =~= old(out)@ + node_texts(nodes@.take(0), wide));
    while i < n
        invariant
            i <= n,
            n == nodes@.len(),
            out@ == old(out)@ + node_texts(nodes@.take(i as int), wide),
        decreases n - i,
    {
        if wide && i > 0 {
            out.put_str("  ");
        } else {
            out.put_str(" ");
        }
        put_decimal(out, nodes[i]);
        assert(nodes@.take(i + 1).drop_last() =~= nodes@.take(i as int));
        i = i + 1;
        assert(out@ =~= old(out)@ + node_texts(nodes@.take(i as int), wide));
    }
    assert(nodes@.take(n as int) =~= nodes@);
}

/// Writes one cell of the cell list.
fn put_cell(out: &mut Output, c: &Cell, binary: bool)
    ensures
        final(out)@ == old(out)@ + cell_value(*c, binary),
{
    reveal(cell_value);
    let nodes = c.node_list();
    assert(nodes@.len() <= 8);
    let n = nodes.len() as i32;
    if binary {
        put_int(out, n, binary);
        put_ints(out, &nodes, binary);
    } else {
        let wide = match c {
            Cell::Hexa(..) => true,
            _ => false,
        };
        put_decimal(out, n);
        put_node_texts(out, &nodes, wide);
        put_newline(out);
    }
    assert(out@ =~= old(out)@ + cell_value(*c, binary));
}

/// Writes the cells of the cell list.
fn put_cells(out: &mut Output, cells: &Vec<Cell>, binary: bool)
    ensures
        final(out)@ == old(out)@ + cell_values(cells@, binary),
{
    let n = cells.len();
    let mut i: usize = 0;
    assert(out@ =~= old(out)@ + cell_values(cells@.take(0), binary));
    while i < n
        invariant
            i <= n,
            n == cells@.len(),
            out@ == old(out)@ + cell_values(cells@.take(i as int), binary),
        decreases n - i,
    {
        put_cell(out, &cells[i], binary);
        assert(cells@.take(i + 1).drop_last() =~= cells@.take(i as int));
        i = i + 1;
        assert(out@ =~= old(out)@ + cell_values(cells@.take(i as int), binary));
    }
    assert(cells@.take(n as int) =~= cells@);
}

/// Writes the type codes of the cells.
fn put_codes(out: &mut Output, cells: &Vec<Cell>, binary: bool)
    ensures
        final(out)@ == old(out)@ + code_values(cells@, binary),
{
    let n = cells.len();
    let mut i: usize = 0;
    assert(out@ =~= old(out)@ + code_values(cells@.take(0), binary));
    while i < n
        invariant
            i <= n,
            n == cells@.len(),
            out@ == old(out)@ + code_values(cells@.take(i as int), binary),
        decreases n - i,
    {
        put_int(out, cells[i].type_code(), binary);
        assert(cells@.take(i + 1).drop_last() =~= cells@.take(i as int));
        i = i + 1;
        assert(out@ =~= old(out)@ + code_values(cells@.take(i as int), binary));
    }
    assert(cells@.take(n as int) =~= cells@);
}

/// How many integers the cell list holds.
pub fn count_cell_list(cells: &Vec<Cell>) -> (r: u128)
    ensures
        r == cell_list_size(cells@),
{
    let n = cells.len();
    let mut size: u128 = 0;
    let mut i: usize = 0;
    assert(cells@.take(0) =~= Seq::<Cell>::empty());
    while i < n
        invariant
            i <= n,
            n == cells@.len(),
            size == cell_list_size(cells@.take(i as int)),
            size <= 9 * i,
        decreases n - i,
    {
        let nodes: u128 = match cells[i] {
            Cell::Vertex(..) => 1,
            Cell::Edge(..) => 2,
            Cell::Triangle(..) => 3,
            Cell::Quad(..) => 4,
            Cell::Tetra(..) => 4,
            Cell::Hexa(..) => 8,
        };
        assert(nodes == cells@[i as int].nodes().len());
        size = size + 1 + nodes;
        assert(cells@.take(i + 1).drop_last() =~= cells@.take(i as int));
        i = i + 1;
    }
    assert(cells@.take(n as int) =~= cells@);
    size
}

/// Writes the cell list.
fn put_cells_section(out: &mut Output, cells: &Vec<Cell>, binary: bool)
    ensures
        final(out)@ == old(out)@ + cells_section(cells@, binary),
{
    reveal(cells_section);
    if cells.len() > 0 {
        out.put_str("CELLS ");
        put_count(out, cells.len() as u128);
        out.put_str(" ");
        put_count(out, count_cell_list(cells));
        put_newline(out);
        put_cells(out, cells, binary);
    }
    put_newline(out);
    assert(out@ =~= old(out)@ + cells_section(cells@, binary));
}

/// Writes the cell types.
fn put_types_section(out: &mut Output, cells: &Vec<Cell>, binary: bool)
    ensures
        final(out)@ == old(out)@ + types_section(cells@, binary),
{
    reveal(types_section);
    if cells.len() > 0 {
        out.put_str("CELL_TYPES ");
        put_count(out, cells.len() as u128);
        put_newline(out);
        put_codes(out, cells, binary);
    }
    put_newline(out);
    assert(out@ =~= old(out)@ + types_section(cells@, binary));
}

/// Writes the lines that open every output.
fn put_header(out: &mut Output, binary: bool)
    ensures
        final(out)@ == old(out)@ + header(binary),
{
    reveal(header);
    put_line(out, "# vtk DataFile Version 3.0");
    put_line(out, "vtk output");
    if binary {
        put_line(out, "BINARY");
    } else {
        put_line(out, "ASCII");
    }
    put_line(out, "DATASET UNSTRUCTURED_GRID");
    assert(out@ =~= old(out)@ + header(binary));
}

/// Writes the two global values.
fn put_field_data(out: &mut Output, time: u32, binary: bool)
    ensures
        final(out)@ == old(out)@ + field_data(time, binary),
{
    reveal(field_data);
    put_line(out, "FIELD FieldData 2");
    put_line(out, "TIME 1 1 double");
    if binary {
        out.put_double(time);
    } else {
        out.put_real(time);
    }
    put_newline(out);
    put_line(out, "CYCLE 1 1 int");
    if binary {
        out.put_i32_binary(0);
    } else {
        out.put_str("0");
    }
    put_newline(out);
    assert(out@ =~= old(out)@ + field_data(time, binary));
}

/// Writes the points.
fn put_points_section(out: &mut Output, points: &Vec<u32>, binary: bool)
    ensures
        final(out)@ == old(out)@ + points_section(points@, binary),
{
    reveal(points_section);
    out.put_str("POINTS ");
    put_count(out, (points.len() / 3) as u128);
    put_line(out, " float");
    put_triples(out, points, binary);
    put_newline(out);
    assert(out@ =~= old(out)@ + points_section(points@, binary));
}

/// Writes one field.
fn put_field(out: &mut Output, f: &Field, binary: bool)
    ensures
        final(out)@ == old(out)@ + field_section(f@, binary),
{
    reveal(field_section);
    match &f.values {
        Values::Ints(v) => {
            out.put_str("SCALARS ");
            out.put_str(f.name.as_str());
            put_line(out, " int 1");
            put_line(out, "LOOKUP_TABLE default");
            put_ints(out, v, binary);
            put_newline(out);
            assert(out@ =~= old(out)@ + field_section(f@, binary));
        },
        Values::Scalars(v) => {
            out.put_str("SCALARS ");
            out.put_str(f.name.as_str());
            put_line(out, " float 1");
            put_line(out, "LOOKUP_TABLE default");
            put_scalars(out, v, binary);
            put_newline(out);
            assert(out@ =~= old(out)@ + field_section(f@, binary));
        },
        Values::Vectors(v) => {
            out.put_str("VECTORS ");
            out.put_str(f.name.as_str());
            put_line(out, " float");
            put_triples(out, v, binary);
            put_newline(out);
            assert(out@ =~= old(out)@ + field_section(f@, binary));
        },
        Values::Tensors(v) => {
            out.put_str("TENSORS ");
            out.put_str(f.name.as_str());
            put_line(out, " float");
            put_tensors(out, v, binary);
            put_newline(out);
            assert(out@ =~= old(out)@ + field_section(f@, binary));
        },
    }
}

/// Writes the fields of a list.
fn put_fields(out: &mut Output, list: &Vec<Field>, binary: bool)
    ensures
        final(out)@ == old(out)@ + field_sections(fields(list@), binary),
{
    let n = list.len();
    let mut i: usize = 0;
    assert(out@ =~= old(out)@ + field_sections(fields(list@).take(0), binary));
    while i < n
        invariant
            i <= n,
            n == list@.len(),
            out@ == old(out)@ + field_sections(fields(list@).take(i as int), binary),
        decreases n - i,
    {
        put_field(out, &list[i], binary);
        assert(fields(list@).take(i + 1).drop_last() =~= fields(list@).take(i as int));
        i = i + 1;
        assert(out@ =~= old(out)@ + field_sections(fields(list@).take(i as int), binary));
    }
    assert(fields(list@).take(n as int) =~= fields(list@));
}

/// Writes a grid in the text variant of the format, or in the binary one.
pub fn render(d: &Dataset, binary: bool) -> (r: Vec<Piece>)
    ensures
        units(r@) == grid_units(d@, binary),
{
    let mut out = Output::new();
    put_header(&mut out, binary);
    put_field_data(&mut out, d.time, binary);
    put_points_section(&mut out, &d.points, binary);
    put_cells_section(&mut out, &d.cells, binary);
    put_types_section(&mut out, &d.cells, binary);
    out.put_str("POINT_DATA ");
    put_count(&mut out, (d.points.len() / 3) as u128);
    put_newline(&mut out);
    put_fields(&mut out, &d.point_data, binary);
    out.put_str("CELL_DATA ");
    put_count(&mut out, d.cells.len() as u128);
    put_newline(&mut out);
    put_fields(&mut out, &d.cell_data, binary);
    assert(out@ =~= grid_units(d@, binary));
    out.finish()
}

} // verus!
