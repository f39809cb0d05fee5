use anim_to_vtk::assemble::assemble;
use anim_to_vtk::assemble::build_cell_fields;
use anim_to_vtk::assemble::build_cells;
use anim_to_vtk::assemble::build_point_fields;
use anim_to_vtk::classify::Cell;
use anim_to_vtk::dataset::Dataset;
use anim_to_vtk::dataset::Field;
use anim_to_vtk::dataset::Tensor;
use anim_to_vtk::dataset::Values;
use anim_to_vtk::error::ConvertError;
use anim_to_vtk::frame::AnimFrame;
use anim_to_vtk::frame::Elements;
use anim_to_vtk::frame::Family;
use anim_to_vtk::frame::Flags;
use anim_to_vtk::frame::Nodes;
use anim_to_vtk::output::Output;
use anim_to_vtk::output::Piece;
use anim_to_vtk::render::count_cell_list;
use anim_to_vtk::render::render;
use anim_to_vtk::vtk_read::read_binary_floats;
use anim_to_vtk::vtk_read::read_binary_ints;
use anim_to_vtk::vtk_read::read_int_values;

fn bits(values: &[f32]) -> Vec<u32> {
    values.iter().map(|x| x.to_bits()).collect()
}

fn names(texts: &[&str]) -> Vec<String> {
    texts.iter().map(|t| t.to_string()).collect()
}

fn flatten(pieces: &[Piece]) -> Vec<u8> {
    let mut out = Vec::new();
    for piece in pieces {
        match piece {
            Piece::Bytes(b) => out.extend_from_slice(b),
            Piece::Real(x) => out.extend_from_slice(format!("{}", f32::from_bits(*x)).as_bytes()),
            Piece::Double(x) => out.extend_from_slice(&(f32::from_bits(*x) as f64).to_be_bytes()),
        }
    }
    out
}

fn sample() -> AnimFrame {
    AnimFrame {
        time: 0.5f32.to_bits(),
        flags: Flags {
            mass: false,
            surface_numbering: true,
            numbering: true,
            volumes: true,
            lines: true,
            hierarchy: false,
            history: false,
            particles: true,
        },
        nodes: Nodes {
            count: 4,
            coordinates: bits(&[0.0, 0.0, 0.0, 1.0, 0.0, 0.0, 1.0, 1.0, 0.0, 0.0, 1.0, 0.5]),
            scalar_names: names(&["T 1"]),
            scalars: bits(&[1.0, 2.0, 3.0, 4.0]),
            vector_names: names(&["v"]),
            vectors: bits(&[
                0.1, 0.2, 0.3, 1.1, 1.2, 1.3, 2.1, 2.2, 2.3, 3.1, 3.2, 3.3,
            ]),
            external_ids: vec![101, 102, 103, 104],
        },
        lines: Elements {
            count: 1,
            connectivity: vec![0, 1],
            erosion: vec![0],
            part_boundaries: vec![1],
            part_labels: names(&["5"]),
            scalar_names: names(&["N x"]),
            scalars: bits(&[0.5]),
            tensor_names: names(&["tor"]),
            tensors: bits(&[1.0, 2.0, 3.0, 4.0, 5.0, 6.0, 7.0, 8.0, 9.0]),
            external_ids: vec![201],
        },
        facets: Elements {
            count: 2,
            connectivity: vec![0, 1, 2, 3, 0, 1, 1, 2],
            erosion: vec![1, 0],
            part_boundaries: vec![1, 2],
            part_labels: names(&["6", "7"]),
            scalar_names: names(&["th"]),
            scalars: bits(&[0.25, 0.75]),
            tensor_names: names(&["ms"]),
            tensors: bits(&[1.0, 2.0, 3.0, 4.0, 5.0, 6.0]),
            external_ids: vec![301, 302],
        },
        volumes: Elements {
            count: 2,
            connectivity: vec![0, 1, 2, 3, 3, 3, 3, 3, 0, 1, 2, 3, 4, 5, 6, 7],
            erosion: vec![0, 0],
            part_boundaries: vec![],
            part_labels: vec![],
            scalar_names: vec![],
            scalars: vec![],
            tensor_names: names(&["s"]),
            tensors: bits(&[
                1.0, 2.0, 3.0, 4.0, 5.0, 6.0, 7.0, 8.0, 9.0, 10.0, 11.0, 12.0,
            ]),
            external_ids: vec![401, 402],
        },
        particles: Elements {
            count: 1,
            connectivity: vec![3],
            erosion: vec![2],
            part_boundaries: vec![1],
            part_labels: names(&["9"]),
            scalar_names: names(&["p"]),
            scalars: bits(&[1.5]),
            tensor_names: vec![],
            tensors: vec![],
            external_ids: vec![501],
        },
    }
}

const ZERO_ROWS: &str = "0 0 0 \n0 0 0 \n0 0 0 \n";

fn expected_text() -> String {
    let mut t = String::new();
    t += "# vtk DataFile Version 3.0\nvtk output\nASCII\nDATASET UNSTRUCTURED_GRID\n";
    t += "FIELD FieldData 2\nTIME 1 1 double\n0.5\nCYCLE 1 1 int\n0\n";
    t += "POINTS 4 float\n0 0 0\n1 0 0\n1 1 0\n0 1 0.5\n\n";
    t += "CELLS 6 28\n2 0 1\n4 0 1 2 3\n3 0 1 2\n4 0 1 2 3\n8 0  1  2  3  4  5  6  7\n1 3\n\n";
    t += "CELL_TYPES 6\n3\n9\n5\n10\n12\n1\n\n";
    t += "POINT_DATA 4\n";
    t += "SCALARS NODE_ID int 1\nLOOKUP_TABLE default\n101\n102\n103\n104\n\n";
    t += "SCALARS T_1 float 1\nLOOKUP_TABLE default\n1\n2\n3\n4\n\n";
    t += "VECTORS v float\n0.1 0.2 0.3\n1.1 1.2 1.3\n2.1 2.2 2.3\n3.1 3.2 3.3\n\n";
    t += "CELL_DATA 6\n";
    t += "SCALARS ELEMENT_ID int 1\nLOOKUP_TABLE default\n201\n301\n302\n401\n402\n501\n\n";
    t += "SCALARS PART_ID int 1\nLOOKUP_TABLE default\n5\n6\n7\n0\n0\n9\n\n";
    t += "SCALARS EROSION_STATUS int 1\nLOOKUP_TABLE default\n0\n1\n0\n0\n0\n1\n\n";
    t += "SCALARS 1DELEM_N_x float 1\nLOOKUP_TABLE default\n0.5\n0\n0\n0\n0\n0\n\n";
    let suffixes = ["F1", "F2", "F3", "M1", "M2", "M3", "M4", "M5", "M6"];
    for (c, suffix) in suffixes.iter().enumerate() {
        t += &format!(
            "SCALARS 1DELEM_tor{} float 1\nLOOKUP_TABLE default\n{}\n0\n0\n0\n0\n0\n\n",
            suffix,
            c + 1
        );
    }
    t += "SCALARS 2DELEM_th float 1\nLOOKUP_TABLE default\n0\n0.25\n0.75\n0\n0\n0\n\n";
    t += "TENSORS 2DELEM_ms float\n";
    t += ZERO_ROWS;
    t += "1 3 0 \n3 2 0 \n0 0 0 \n";
    t += "4 6 0 \n6 5 0 \n0 0 0 \n";
    t += ZERO_ROWS;
    t += ZERO_ROWS;
    t += ZERO_ROWS;
    t += "\n";
    t += "TENSORS 3DELEM_s float\n";
    t += ZERO_ROWS;
    t += ZERO_ROWS;
    t += ZERO_ROWS;
    t += "1 4 5\n4 2 6\n5 6 3\n";
    t += "7 10 11\n10 8 12\n11 12 9\n";
    t += ZERO_ROWS;
    t += "\n";
    t += "SCALARS SPHELEM_p float 1\nLOOKUP_TABLE default\n0\n0\n0\n0\n0\n1.5\n\n";
    t
}

fn put_ints(out: &mut Vec<u8>, values: &[i32]) {
    for v in values {
        out.extend_from_slice(&v.to_be_bytes());
    }
}

fn put_reals(out: &mut Vec<u8>, values: &[f32]) {
    for x in values {
        out.extend_from_slice(&x.to_be_bytes());
    }
}

fn expected_binary() -> Vec<u8> {
    let mut b = Vec::new();
    b.extend_from_slice(
        b"# vtk DataFile Version 3.0\nvtk output\nBINARY\nDATASET UNSTRUCTURED_GRID\n",
    );
    b.extend_from_slice(b"FIELD FieldData 2\nTIME 1 1 double\n");
    b.extend_from_slice(&0.5f64.to_be_bytes());
    b.extend_from_slice(b"\nCYCLE 1 1 int\n");
    put_ints(&mut b, &[0]);
    b.extend_from_slice(b"\nPOINTS 4 float\n");
    put_reals(&mut b, &[0.0, 0.0, 0.0, 1.0, 0.0, 0.0, 1.0, 1.0, 0.0, 0.0, 1.0, 0.5]);
    b.extend_from_slice(b"\nCELLS 6 28\n");
    put_ints(
        &mut b,
        &[
            2, 0, 1, 4, 0, 1, 2, 3, 3, 0, 1, 2, 4, 0, 1, 2, 3, 8, 0, 1, 2, 3, 4, 5, 6, 7, 1, 3,
        ],
    );
    b.extend_from_slice(b"\nCELL_TYPES 6\n");
    put_ints(&mut b, &[3, 9, 5, 10, 12, 1]);
    b.extend_from_slice(b"\nPOINT_DATA 4\nSCALARS NODE_ID int 1\nLOOKUP_TABLE default\n");
    put_ints(&mut b, &[101, 102, 103, 104]);
    b.extend_from_slice(b"\nSCALARS T_1 float 1\nLOOKUP_TABLE default\n");
    put_reals(&mut b, &[1.0, 2.0, 3.0, 4.0]);
    b.extend_from_slice(b"\nVECTORS v float\n");
    put_reals(
        &mut b,
        &[0.1, 0.2, 0.3, 1.1, 1.2, 1.3, 2.1, 2.2, 2.3, 3.1, 3.2, 3.3],
    );
    b.extend_from_slice(b"\nCELL_DATA 6\nSCALARS ELEMENT_ID int 1\nLOOKUP_TABLE default\n");
    put_ints(&mut b, &[201, 301, 302, 401, 402, 501]);
    b.extend_from_slice(b"\nSCALARS PART_ID int 1\nLOOKUP_TABLE default\n");
    put_ints(&mut b, &[5, 6, 7, 0, 0, 9]);
    b.extend_from_slice(b"\nSCALARS EROSION_STATUS int 1\nLOOKUP_TABLE default\n");
    put_ints(&mut b, &[0, 1, 0, 0, 0, 1]);
    b.extend_from_slice(b"\nSCALARS 1DELEM_N_x float 1\nLOOKUP_TABLE default\n");
    put_reals(&mut b, &[0.5, 0.0, 0.0, 0.0, 0.0, 0.0]);
    let suffixes = ["F1", "F2", "F3", "M1", "M2", "M3", "M4", "M5", "M6"];
    for (c, suffix) in suffixes.iter().enumerate() {
        b.extend_from_slice(
            format!("\nSCALARS 1DELEM_tor{} float 1\nLOOKUP_TABLE default\n", suffix).as_bytes(),
        );
        put_reals(&mut b, &[(c + 1) as f32, 0.0, 0.0, 0.0, 0.0, 0.0]);
    }
    b.extend_from_slice(b"\nSCALARS 2DELEM_th float 1\nLOOKUP_TABLE default\n");
    put_reals(&mut b, &[0.0, 0.25, 0.75, 0.0, 0.0, 0.0]);
    b.extend_from_slice(b"\nTENSORS 2DELEM_ms float\n");
    put_reals(&mut b, &[0.0; 9]);
    put_reals(&mut b, &[1.0, 3.0, 0.0, 3.0, 2.0, 0.0, 0.0, 0.0, 0.0]);
    put_reals(&mut b, &[4.0, 6.0, 0.0, 6.0, 5.0, 0.0, 0.0, 0.0, 0.0]);
    put_reals(&mut b, &[0.0; 27]);
    b.extend_from_slice(b"\nTENSORS 3DELEM_s float\n");
    put_reals(&mut b, &[0.0; 27]);
    put_reals(&mut b, &[1.0, 4.0, 5.0, 4.0, 2.0, 6.0, 5.0, 6.0, 3.0]);
    put_reals(&mut b, &[7.0, 10.0, 11.0, 10.0, 8.0, 12.0, 11.0, 12.0, 9.0]);
    put_reals(&mut b, &[0.0; 9]);
    b.extend_from_slice(b"\nSCALARS SPHELEM_p float 1\nLOOKUP_TABLE default\n");
    put_reals(&mut b, &[0.0, 0.0, 0.0, 0.0, 0.0, 1.5]);
    b.extend_from_slice(b"\n");
    b
}

fn entries(values: &Values) -> usize {
    match values {
        Values::Ints(v) => v.len(),
        Values::Scalars(v) => v.len(),
        Values::Vectors(v) => v.len() / 3,
        Values::Tensors(v) => v.len(),
    }
}

fn empty_grid() -> Dataset {
    Dataset {
        time: 0,
        points: vec![],
        cells: vec![],
        point_data: vec![],
        cell_data: vec![],
    }
}

fn find(haystack: &[u8], needle: &[u8]) -> usize {
    haystack
        .windows(needle.len())
        .position(|w| w == needle)
        .unwrap()
        + needle.len()
}

#[test]
fn cells_follow_the_order_of_the_families() {
    let cells = build_cells(&sample());
    assert_eq!(
        cells,
        vec![
            Cell::Edge(0, 1),
            Cell::Quad(0, 1, 2, 3),
            Cell::Triangle(0, 1, 2),
            Cell::Tetra(0, 1, 2, 3),
            Cell::Hexa(0, 1, 2, 3, 4, 5, 6, 7),
            Cell::Vertex(3),
        ]
    );
}

#[test]
fn the_cell_count_is_the_sum_over_the_families() {
    let frame = sample();
    let grid = assemble(&frame).ok().unwrap();
    assert_eq!(frame.total_cells(), Some(6));
    assert_eq!(
        grid.cells.len(),
        frame.lines.count + frame.facets.count + frame.volumes.count + frame.particles.count
    );
}

#[test]
fn every_field_on_cells_has_one_entry_per_cell() {
    let grid = assemble(&sample()).ok().unwrap();
    assert_eq!(grid.cell_data.len(), 3 + 1 + 9 + 1 + 1 + 1 + 1);
    for field in &grid.cell_data {
        assert_eq!(entries(&field.values), 6, "{}", field.name);
    }
}

#[test]
fn fields_of_one_family_are_zero_for_the_others() {
    let fields = build_cell_fields(&sample());
    match &fields[3].values {
        Values::Scalars(v) => assert_eq!(v, &bits(&[0.5, 0.0, 0.0, 0.0, 0.0, 0.0])),
        _ => panic!("scalars expected"),
    }
    assert_eq!(fields[13].name, "2DELEM_th");
    match &fields[13].values {
        Values::Scalars(v) => assert_eq!(v, &bits(&[0.0, 0.25, 0.75, 0.0, 0.0, 0.0])),
        _ => panic!("scalars expected"),
    }
    assert_eq!(fields[14].name, "2DELEM_ms");
    match &fields[14].values {
        Values::Tensors(v) => assert_eq!(
            v,
            &vec![
                Tensor::Absent,
                Tensor::Planar(1.0f32.to_bits(), 2.0f32.to_bits(), 3.0f32.to_bits()),
                Tensor::Planar(4.0f32.to_bits(), 5.0f32.to_bits(), 6.0f32.to_bits()),
                Tensor::Absent,
                Tensor::Absent,
                Tensor::Absent,
            ]
        ),
        _ => panic!("tensors expected"),
    }
    assert_eq!(fields[16].name, "SPHELEM_p");
    match &fields[16].values {
        Values::Scalars(v) => assert_eq!(v, &bits(&[0.0, 0.0, 0.0, 0.0, 0.0, 1.5])),
        _ => panic!("scalars expected"),
    }
}

#[test]
fn torsors_become_nine_fields_each() {
    let fields = build_cell_fields(&sample());
    let suffixes = ["F1", "F2", "F3", "M1", "M2", "M3", "M4", "M5", "M6"];
    for c in 0..9 {
        assert_eq!(fields[4 + c].name, format!("1DELEM_tor{}", suffixes[c]));
        match &fields[4 + c].values {
            Values::Scalars(v) => {
                assert_eq!(v.len(), 6);
                assert_eq!(v[0], ((c + 1) as f32).to_bits());
                assert_eq!(&v[1..], &[0u32; 5]);
            }
            _ => panic!("scalars expected"),
        }
    }
}

#[test]
fn torsors_of_several_lines_are_read_by_component() {
    let mut frame = sample();
    frame.lines.count = 2;
    frame.lines.connectivity = vec![0, 1, 1, 2];
    frame.lines.erosion = vec![0, 0];
    frame.lines.scalars = bits(&[0.5, 0.6]);
    frame.lines.tensor_names = names(&["a", "b"]);
    frame.lines.tensors = (0..36).map(|i| (i as f32).to_bits()).collect();
    frame.lines.external_ids = vec![201, 202];
    let fields = build_cell_fields(&frame);
    assert_eq!(fields[4].name, "1DELEM_aF1");
    assert_eq!(fields[4 + 9].name, "1DELEM_bF1");
    assert_eq!(fields[4 + 17].name, "1DELEM_bM6");
    match &fields[4 + 4].values {
        Values::Scalars(v) => assert_eq!(&v[..2], &bits(&[4.0, 13.0])[..]),
        _ => panic!("scalars expected"),
    }
    match &fields[4 + 9 + 8].values {
        Values::Scalars(v) => assert_eq!(&v[..2], &bits(&[26.0, 35.0])[..]),
        _ => panic!("scalars expected"),
    }
}

#[test]
fn identity_fields_come_first() {
    let fields = build_cell_fields(&sample());
    assert_eq!(fields[0].name, "ELEMENT_ID");
    assert_eq!(fields[1].name, "PART_ID");
    assert_eq!(fields[2].name, "EROSION_STATUS");
    match &fields[1].values {
        Values::Ints(v) => assert_eq!(v, &vec![5, 6, 7, 0, 0, 9]),
        _ => panic!("integers expected"),
    }
    match &fields[2].values {
        Values::Ints(v) => assert_eq!(v, &vec![0, 1, 0, 0, 0, 1]),
        _ => panic!("integers expected"),
    }
}

#[test]
fn fields_on_points_are_numbers_scalars_vectors() {
    let fields = build_point_fields(&sample().nodes);
    assert_eq!(fields.len(), 3);
    assert_eq!(fields[0].name, "NODE_ID");
    assert_eq!(fields[1].name, "T_1");
    assert_eq!(fields[2].name, "v");
    match &fields[2].values {
        Values::Vectors(v) => assert_eq!(v.len(), 12),
        _ => panic!("vectors expected"),
    }
}

#[test]
fn several_fields_on_points_split_the_arrays() {
    let mut nodes = sample().nodes;
    nodes.scalar_names = names(&["a", "b c"]);
    nodes.scalars = bits(&[1.0, 2.0, 3.0, 4.0, 5.0, 6.0, 7.0, 8.0]);
    nodes.vector_names = names(&["u", "w"]);
    nodes.vectors = (0..24).map(|i| (i as f32).to_bits()).collect();
    let fields = build_point_fields(&nodes);
    assert_eq!(fields.len(), 5);
    assert_eq!(fields[2].name, "b_c");
    match &fields[2].values {
        Values::Scalars(v) => assert_eq!(v, &bits(&[5.0, 6.0, 7.0, 8.0])),
        _ => panic!("scalars expected"),
    }
    match &fields[4].values {
        Values::Vectors(v) => {
            assert_eq!(v.len(), 12);
            assert_eq!(v[0], 12.0f32.to_bits());
            assert_eq!(v[11], 23.0f32.to_bits());
        }
        _ => panic!("vectors expected"),
    }
}

#[test]
fn a_frame_without_external_numbers_is_incomplete() {
    let mut frame = sample();
    frame.volumes.external_ids = vec![];
    assert!(!frame.is_complete());
    assert_eq!(assemble(&frame).err(), Some(ConvertError::Incomplete));
    let mut nodes = sample();
    nodes.nodes.external_ids = vec![];
    assert_eq!(assemble(&nodes).err(), Some(ConvertError::Incomplete));
}

#[test]
fn a_frame_with_an_array_of_the_wrong_length_is_incomplete() {
    let mut short = sample();
    short.facets.connectivity.pop();
    assert_eq!(assemble(&short).err(), Some(ConvertError::Incomplete));
    let mut long = sample();
    long.particles.scalars.push(0);
    assert_eq!(assemble(&long).err(), Some(ConvertError::Incomplete));
    let mut labels = sample();
    labels.lines.part_labels.push("1".to_string());
    assert_eq!(assemble(&labels).err(), Some(ConvertError::Incomplete));
    let mut tensors = sample();
    tensors.lines.tensors.pop();
    assert_eq!(assemble(&tensors).err(), Some(ConvertError::Incomplete));
    let mut huge = sample();
    huge.lines.count = usize::MAX;
    assert_eq!(assemble(&huge).err(), Some(ConvertError::Incomplete));
}

#[test]
fn completeness_is_judged_family_by_family() {
    let frame = sample();
    assert!(frame.is_complete());
    assert!(frame.nodes.is_complete());
    assert!(frame.lines.is_complete(Family::Line));
    assert!(!frame.lines.is_complete(Family::Facet));
    assert!(frame.volumes.is_complete(Family::Volume));
    assert!(!frame.volumes.is_complete(Family::Particle));
    assert!(Elements::none().is_complete(Family::Volume));
    assert_eq!(Family::Line.nodes_per_element(), 2);
    assert_eq!(Family::Facet.nodes_per_element(), 4);
    assert_eq!(Family::Volume.nodes_per_element(), 8);
    assert_eq!(Family::Particle.nodes_per_element(), 1);
    assert_eq!(Family::Line.tensor_components(), 9);
    assert_eq!(Family::Facet.tensor_components(), 3);
    assert_eq!(Family::Volume.tensor_components(), 6);
    assert_eq!(Family::Particle.tensor_components(), 6);
}

#[test]
fn a_symmetric_tensor_expands_to_three_rows() {
    let t = Tensor::Full(
        1.0f32.to_bits(),
        2.0f32.to_bits(),
        3.0f32.to_bits(),
        4.0f32.to_bits(),
        5.0f32.to_bits(),
        6.0f32.to_bits(),
    );
    let rows: Vec<f32> = t.expand().iter().map(|b| f32::from_bits(*b)).collect();
    assert_eq!(rows, vec![1.0, 4.0, 5.0, 4.0, 2.0, 6.0, 5.0, 6.0, 3.0]);
}

#[test]
fn a_plane_tensor_expands_with_zeros() {
    let t = Tensor::Planar(1.0f32.to_bits(), 2.0f32.to_bits(), 3.0f32.to_bits());
    let rows: Vec<f32> = t.expand().iter().map(|b| f32::from_bits(*b)).collect();
    assert_eq!(rows, vec![1.0, 3.0, 0.0, 3.0, 2.0, 0.0, 0.0, 0.0, 0.0]);
    assert_eq!(Tensor::Absent.expand(), [0u32; 9]);
    assert_eq!(
        t.entry_list(),
        [
            Some(1.0f32.to_bits()),
            Some(3.0f32.to_bits()),
            None,
            Some(3.0f32.to_bits()),
            Some(2.0f32.to_bits()),
            None,
            None,
            None,
            None
        ]
    );
}

#[test]
fn the_text_variant_byte_for_byte() {
    let grid = assemble(&sample()).ok().unwrap();
    let out = flatten(&render(&grid, false));
    assert_eq!(String::from_utf8(out).unwrap(), expected_text());
}

#[test]
fn the_binary_variant_byte_for_byte() {
    let grid = assemble(&sample()).ok().unwrap();
    let out = flatten(&render(&grid, true));
    assert_eq!(out, expected_binary());
}

#[test]
fn the_binary_variant_leaves_only_the_time_unwritten() {
    let grid = assemble(&sample()).ok().unwrap();
    let pieces = render(&grid, true);
    assert_eq!(pieces.len(), 3);
    assert!(matches!(pieces[0], Piece::Bytes(_)));
    assert_eq!(pieces[1], Piece::Double(0.5f32.to_bits()));
    assert!(matches!(pieces[2], Piece::Bytes(_)));
}

#[test]
fn the_text_variant_leaves_every_real_number_unwritten() {
    let grid = assemble(&sample()).ok().unwrap();
    let pieces = render(&grid, false);
    let reals = pieces.iter().filter(|p| matches!(p, Piece::Real(_))).count();
    let doubles = pieces.iter().filter(|p| matches!(p, Piece::Double(_))).count();
    assert_eq!(doubles, 0);
    assert_eq!(reals, 1 + 12 + 4 + 12 + 12 * 6 + 2 * 4 + 2 * 9);
    assert_eq!(pieces[1], Piece::Real(0.5f32.to_bits()));
}

#[test]
fn a_grid_without_cells_has_no_cell_list() {
    let out = flatten(&render(&empty_grid(), false));
    let text = String::from_utf8(out).unwrap();
    assert_eq!(
        text,
        "# vtk DataFile Version 3.0\nvtk output\nASCII\nDATASET UNSTRUCTURED_GRID\n\
         FIELD FieldData 2\nTIME 1 1 double\n0\nCYCLE 1 1 int\n0\n\
         POINTS 0 float\n\n\n\nPOINT_DATA 0\nCELL_DATA 0\n"
    );
}

#[test]
fn names_and_values_are_written_as_given() {
    let mut grid = empty_grid();
    grid.time = (-1.5f32).to_bits();
    grid.cell_data.push(Field {
        name: "α β".to_string(),
        values: Values::Ints(vec![i32::MIN, i32::MAX]),
    });
    let text = String::from_utf8(flatten(&render(&grid, false))).unwrap();
    assert!(text.contains("TIME 1 1 double\n-1.5\n"));
    assert!(text.ends_with(
        "CELL_DATA 0\nSCALARS α β int 1\nLOOKUP_TABLE default\n-2147483648\n2147483647\n\n"
    ));
}

#[test]
fn the_cell_list_counts_each_cell_and_its_nodes() {
    assert_eq!(count_cell_list(&vec![]), 0);
    assert_eq!(
        count_cell_list(&vec![
            Cell::Vertex(0),
            Cell::Edge(0, 1),
            Cell::Triangle(0, 1, 2),
            Cell::Quad(0, 1, 2, 3),
            Cell::Tetra(0, 1, 2, 3),
            Cell::Hexa(0, 1, 2, 3, 4, 5, 6, 7),
        ]),
        2 + 3 + 4 + 5 + 5 + 9
    );
}

#[test]
fn both_variants_hold_the_same_integers() {
    let grid = assemble(&sample()).ok().unwrap();
    let text = String::from_utf8(flatten(&render(&grid, false))).unwrap();
    let binary = flatten(&render(&grid, true));
    let lines: Vec<String> = text.lines().map(|l| l.to_string()).collect();
    for (header, count) in [
        ("CELLS 6 28", 28usize),
        ("CELL_TYPES 6", 6),
        ("SCALARS NODE_ID int 1\nLOOKUP_TABLE default", 4),
        ("SCALARS ELEMENT_ID int 1\nLOOKUP_TABLE default", 6),
        ("SCALARS PART_ID int 1\nLOOKUP_TABLE default", 6),
        ("SCALARS EROSION_STATUS int 1\nLOOKUP_TABLE default", 6),
    ] {
        let last = header.lines().last().unwrap();
        let first = header.lines().next().unwrap();
        let start = lines.iter().position(|l| l == first).unwrap() + header.lines().count();
        assert_eq!(lines[start - 1], last);
        let (from_text, next) = read_int_values(&lines, start, count).ok().unwrap();
        assert!(next > start);
        let offset = find(&binary, format!("{}\n", header).as_bytes());
        let from_binary = read_binary_ints(&binary[offset..], count);
        assert_eq!(from_text.len(), count);
        assert_eq!(from_text, from_binary, "{}", header);
    }
}

#[test]
fn both_variants_hold_the_same_real_numbers() {
    let grid = assemble(&sample()).ok().unwrap();
    let text = String::from_utf8(flatten(&render(&grid, false))).unwrap();
    let binary = flatten(&render(&grid, true));
    for (header, count) in [
        ("POINTS 4 float\n", 12usize),
        ("SCALARS T_1 float 1\nLOOKUP_TABLE default\n", 4),
        ("VECTORS v float\n", 12),
        ("SCALARS 1DELEM_torM6 float 1\nLOOKUP_TABLE default\n", 6),
        ("TENSORS 2DELEM_ms float\n", 54),
        ("TENSORS 3DELEM_s float\n", 54),
        ("SCALARS SPHELEM_p float 1\nLOOKUP_TABLE default\n", 6),
    ] {
        let at = text.find(header).unwrap() + header.len();
        let from_text: Vec<u32> = text[at..]
            .split_whitespace()
            .take(count)
            .map(|t| t.parse::<f32>().unwrap().to_bits())
            .collect();
        let offset = find(&binary, header.as_bytes());
        let from_binary = read_binary_floats(&binary[offset..], count);
        assert_eq!(from_text.len(), count);
        assert_eq!(from_text, from_binary, "{}", header);
    }
}

#[test]
fn an_output_collects_bytes_between_real_numbers() {
    let mut out = Output::new();
    out.put_str("a");
    out.put_i32_binary(1);
    out.put_real(7);
    out.put_real(8);
    out.put_f32_binary(0x01020304);
    out.put_double(9);
    let pieces = out.finish();
    assert_eq!(
        pieces,
        vec![
            Piece::Bytes(vec![b'a', 0, 0, 0, 1]),
            Piece::Real(7),
            Piece::Real(8),
            Piece::Bytes(vec![1, 2, 3, 4]),
            Piece::Double(9),
        ]
    );
    assert_eq!(Output::new().finish(), vec![]);
}
