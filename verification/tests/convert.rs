use anim_to_vtk::convert::read_radioss_anim;
use anim_to_vtk::error::ConvertError;
use anim_to_vtk::output::Piece;

fn put_ints(out: &mut Vec<u8>, values: &[i32]) {
    for v in values {
        out.extend_from_slice(&v.to_be_bytes());
    }
}

fn put_reals(out: &mut Vec<u8>, values: &[f32]) {
    for x in values {
        out.extend_from_slice(&x.to_be_bytes());
    }
}

fn put_text(out: &mut Vec<u8>, s: &str, width: usize) {
    let mut field = s.as_bytes().to_vec();
    field.resize(width, 0);
    out.extend_from_slice(&field);
}

fn prologue(time: f32, flags: [i32; 10]) -> Vec<u8> {
    let mut out = Vec::new();
    put_ints(&mut out, &[0x542c]);
    put_reals(&mut out, &[time]);
    put_text(&mut out, "", 243);
    put_ints(&mut out, &flags);
    out
}

fn small_frame() -> Vec<u8> {
    let mut out = prologue(2.0, [0, 1, 1, 0, 0, 0, 0, 0, 0, 0]);
    // 4 nodes, 1 facet, 1 part, no fields
    put_ints(&mut out, &[4, 1, 1, 0, 0, 0, 0, 0]);
    put_reals(
        &mut out,
        &[0.0, 0.0, 0.0, 1.0, 0.0, 0.0, 1.0, 1.0, 0.0, 0.0, 0.0, 1.0],
    );
    put_ints(&mut out, &[0, 1, 2, 2]);
    out.push(0);
    put_ints(&mut out, &[1]);
    put_text(&mut out, "3", 50);
    out.extend_from_slice(&[0; 24]);
    put_ints(&mut out, &[11, 12, 13, 14]);
    put_ints(&mut out, &[21]);
    // 1 volume, no part, 1 scalar, no tensor
    put_ints(&mut out, &[1, 0, 1, 0]);
    put_ints(&mut out, &[0, 1, 2, 3, 3, 3, 3, 3]);
    out.push(1);
    put_text(&mut out, "energy density", 81);
    put_reals(&mut out, &[2.5]);
    put_ints(&mut out, &[31]);
    out
}

fn flatten(pieces: &[Piece]) -> Vec<u8> {
    let mut out = Vec::new();
    for piece in pieces {
        match piece {
            Piece::Bytes(b) => out.extend_from_slice(b),
            Piece::Real(x) => out.extend_from_slice(format!("{}", f32::from_bits(*x)).as_bytes()),
            Piece::Double(x) => out.extend_from_slice(&(f32::from_bits(*x) as f64).to_be_bytes()),
        }
    }
    out
}

#[test]
fn a_small_frame_converts_to_text() {
    let pieces = read_radioss_anim(&small_frame(), false).ok().unwrap();
    let text = String::from_utf8(flatten(&pieces)).unwrap();
    assert_eq!(
        text,
        "# vtk DataFile Version 3.0\nvtk output\nASCII\nDATASET UNSTRUCTURED_GRID\n\
         FIELD FieldData 2\nTIME 1 1 double\n2\nCYCLE 1 1 int\n0\n\
         POINTS 4 float\n0 0 0\n1 0 0\n1 1 0\n0 0 1\n\n\
         CELLS 2 9\n3 0 1 2\n4 0 1 2 3\n\n\
         CELL_TYPES 2\n5\n10\n\n\
         POINT_DATA 4\n\
         SCALARS NODE_ID int 1\nLOOKUP_TABLE default\n11\n12\n13\n14\n\n\
         CELL_DATA 2\n\
         SCALARS ELEMENT_ID int 1\nLOOKUP_TABLE default\n21\n31\n\n\
         SCALARS PART_ID int 1\nLOOKUP_TABLE default\n3\n0\n\n\
         SCALARS EROSION_STATUS int 1\nLOOKUP_TABLE default\n0\n1\n\n\
         SCALARS 3DELEM_energy_density float 1\nLOOKUP_TABLE default\n0\n2.5\n\n"
    );
}

#[test]
fn a_small_frame_converts_to_binary() {
    let pieces = read_radioss_anim(&small_frame(), true).ok().unwrap();
    let out = flatten(&pieces);
    let mut expected = Vec::new();
    expected.extend_from_slice(
        b"# vtk DataFile Version 3.0\nvtk output\nBINARY\nDATASET UNSTRUCTURED_GRID\n\
          FIELD FieldData 2\nTIME 1 1 double\n",
    );
    expected.extend_from_slice(&2.0f64.to_be_bytes());
    expected.extend_from_slice(b"\nCYCLE 1 1 int\n\0\0\0\0\nPOINTS 4 float\n");
    put_reals(
        &mut expected,
        &[0.0, 0.0, 0.0, 1.0, 0.0, 0.0, 1.0, 1.0, 0.0, 0.0, 0.0, 1.0],
    );
    expected.extend_from_slice(b"\nCELLS 2 9\n");
    put_ints(&mut expected, &[3, 0, 1, 2, 4, 0, 1, 2, 3]);
    expected.extend_from_slice(b"\nCELL_TYPES 2\n");
    put_ints(&mut expected, &[5, 10]);
    expected.extend_from_slice(b"\nPOINT_DATA 4\nSCALARS NODE_ID int 1\nLOOKUP_TABLE default\n");
    put_ints(&mut expected, &[11, 12, 13, 14]);
    expected.extend_from_slice(b"\nCELL_DATA 2\nSCALARS ELEMENT_ID int 1\nLOOKUP_TABLE default\n");
    put_ints(&mut expected, &[21, 31]);
    expected.extend_from_slice(b"\nSCALARS PART_ID int 1\nLOOKUP_TABLE default\n");
    put_ints(&mut expected, &[3, 0]);
    expected.extend_from_slice(b"\nSCALARS EROSION_STATUS int 1\nLOOKUP_TABLE default\n");
    put_ints(&mut expected, &[0, 1]);
    expected
        .extend_from_slice(b"\nSCALARS 3DELEM_energy_density float 1\nLOOKUP_TABLE default\n");
    put_reals(&mut expected, &[0.0, 2.5]);
    expected.extend_from_slice(b"\n");
    assert_eq!(out, expected);
}

#[test]
fn a_truncated_frame_gives_no_output_at_all() {
    let stream = small_frame();
    for k in 0..stream.len() {
        for binary in [false, true] {
            assert_eq!(
                read_radioss_anim(&stream[..k], binary).err(),
                Some(ConvertError::Truncated),
                "cut at {}",
                k
            );
        }
    }
}

#[test]
fn an_unsupported_version_gives_no_output() {
    let mut stream = small_frame();
    stream[2] = 0x55;
    assert_eq!(
        read_radioss_anim(&stream, false).err(),
        Some(ConvertError::UnsupportedVersion)
    );
    assert_eq!(
        read_radioss_anim(&stream, true).err(),
        Some(ConvertError::UnsupportedVersion)
    );
}

#[test]
fn a_negative_count_gives_no_output() {
    let mut stream = prologue(0.0, [0; 10]);
    put_ints(&mut stream, &[0, 0, 0, 0, 0, 0, -7, 0]);
    assert_eq!(
        read_radioss_anim(&stream, false).err(),
        Some(ConvertError::NegativeCount)
    );
}

#[test]
fn a_frame_without_numbering_gives_no_output() {
    let mut stream = prologue(0.0, [0; 10]);
    put_ints(&mut stream, &[1, 0, 0, 0, 0, 0, 0, 0]);
    put_reals(&mut stream, &[1.0, 2.0, 3.0]);
    stream.extend_from_slice(&[0; 6]);
    assert_eq!(
        read_radioss_anim(&stream, false).err(),
        Some(ConvertError::Incomplete)
    );
}

#[test]
fn an_empty_frame_converts_without_numbering() {
    let mut stream = prologue(0.0, [0; 10]);
    put_ints(&mut stream, &[0; 8]);
    let pieces = read_radioss_anim(&stream, false).ok().unwrap();
    let text = String::from_utf8(flatten(&pieces)).unwrap();
    assert!(text.ends_with(
        "POINTS 0 float\n\n\n\nPOINT_DATA 0\nSCALARS NODE_ID int 1\nLOOKUP_TABLE default\n\n\
         CELL_DATA 0\nSCALARS ELEMENT_ID int 1\nLOOKUP_TABLE default\n\n\
         SCALARS PART_ID int 1\nLOOKUP_TABLE default\n\n\
         SCALARS EROSION_STATUS int 1\nLOOKUP_TABLE default\n\n"
    ));
}

#[test]
fn both_variants_have_the_same_sections_in_the_same_order() {
    let text = flatten(&read_radioss_anim(&small_frame(), false).ok().unwrap());
    let binary = flatten(&read_radioss_anim(&small_frame(), true).ok().unwrap());
    let keywords: [&[u8]; 10] = [
        b"DATASET UNSTRUCTURED_GRID\n",
        b"FIELD FieldData 2\n",
        b"POINTS 4 float\n",
        b"CELLS 2 9\n",
        b"CELL_TYPES 2\n",
        b"POINT_DATA 4\n",
        b"CELL_DATA 2\n",
        b"SCALARS ELEMENT_ID int 1\n",
        b"SCALARS PART_ID int 1\n",
        b"SCALARS 3DELEM_energy_density float 1\n",
    ];
    for out in [&text, &binary] {
        let mut at = 0;
        for keyword in keywords {
            let found = out[at..]
                .windows(keyword.len())
                .position(|w| w == keyword)
                .unwrap();
            at += found + keyword.len();
        }
    }
}
