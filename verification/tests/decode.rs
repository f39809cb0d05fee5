use anim_to_vtk::decode::decode;
use anim_to_vtk::decode::read_family;
use anim_to_vtk::decode::read_surface;
use anim_to_vtk::decode::skip_hierarchy;
use anim_to_vtk::decode::skip_history;
use anim_to_vtk::decode::skip_list;
use anim_to_vtk::decode::skip_subset;
use anim_to_vtk::decode::MAGIC;
use anim_to_vtk::error::ConvertError;
use anim_to_vtk::frame::Family;
use anim_to_vtk::frame::Flags;
use anim_to_vtk::reader::Reader;

fn put_int(out: &mut Vec<u8>, v: i32) {
    out.extend_from_slice(&v.to_be_bytes());
}

fn ints(out: &mut Vec<u8>, values: &[i32]) {
    for v in values {
        put_int(out, *v);
    }
}

fn reals(out: &mut Vec<u8>, values: &[f32]) {
    for x in values {
        out.extend_from_slice(&x.to_be_bytes());
    }
}

fn shorts(out: &mut Vec<u8>, count: usize) {
    for i in 0..count {
        out.extend_from_slice(&(i as u16).to_be_bytes());
    }
}

fn text(out: &mut Vec<u8>, s: &str, width: usize) {
    let mut field = s.as_bytes().to_vec();
    field.resize(width, 0);
    out.extend_from_slice(&field);
}

fn bits(values: &[f32]) -> Vec<u32> {
    values.iter().map(|x| x.to_bits()).collect()
}

fn prologue(time: f32, flags: [i32; 10]) -> Vec<u8> {
    let mut out = Vec::new();
    put_int(&mut out, 0x542c);
    reals(&mut out, &[time]);
    text(&mut out, "Time=", 81);
    text(&mut out, "model", 81);
    text(&mut out, "run", 81);
    ints(&mut out, &flags);
    out
}

fn empty_surface(out: &mut Vec<u8>) {
    ints(out, &[0, 0, 0, 0, 0, 0, 0, 0]);
}

fn no_flags() -> Flags {
    Flags {
        mass: false,
        surface_numbering: false,
        numbering: false,
        volumes: false,
        lines: false,
        hierarchy: false,
        history: false,
        particles: false,
    }
}

fn all_flags() -> Flags {
    Flags {
        mass: true,
        surface_numbering: true,
        numbering: true,
        volumes: true,
        lines: true,
        hierarchy: true,
        history: true,
        particles: true,
    }
}

fn full_frame() -> Vec<u8> {
    let mut out = prologue(0.5, [1, 1, 1, 1, 1, 1, 0, 1, 0, 0]);
    // surface: 3 nodes, 2 facets, 2 parts, 1 node scalar, 2 facet scalars,
    // 1 vector, 1 tensor, 1 orientation frame
    ints(&mut out, &[3, 2, 2, 1, 2, 1, 1, 1]);
    shorts(&mut out, 6);
    reals(&mut out, &[0.0, 0.0, 0.0, 1.0, 0.0, 0.0, 0.0, 1.0, 0.0]);
    ints(&mut out, &[0, 1, 2, 2, 0, 1, 2, 0]);
    out.extend_from_slice(&[0, 1]);
    ints(&mut out, &[1, 2]);
    text(&mut out, "11", 50);
    text(&mut out, " 12 ", 50);
    shorts(&mut out, 9);
    text(&mut out, "node temperature", 81);
    text(&mut out, "thickness", 81);
    text(&mut out, "plastic strain", 81);
    reals(&mut out, &[10.0, 11.0, 12.0]);
    reals(&mut out, &[20.0, 21.0, 30.0, 31.0]);
    text(&mut out, "velocity", 81);
    reals(&mut out, &[1.0, 2.0, 3.0, 4.0, 5.0, 6.0, 7.0, 8.0, 9.0]);
    text(&mut out, "membrane stress", 81);
    reals(&mut out, &[101.0, 102.0, 103.0, 201.0, 202.0, 203.0]);
    reals(&mut out, &[0.1, 0.2]);
    reals(&mut out, &[0.3, 0.4, 0.5]);
    ints(&mut out, &[1001, 1002, 1003]);
    ints(&mut out, &[2001, 2002]);
    ints(&mut out, &[1, 1, 5, 5, 7, 7]);
    // volumes: 2 elements, 1 part, 1 scalar, 1 tensor
    ints(&mut out, &[2, 1, 1, 1]);
    ints(&mut out, &[0, 1, 2, 0, 0, 0, 0, 0, 0, 1, 2, 0, 1, 2, 0, 1]);
    out.extend_from_slice(&[1, 0]);
    ints(&mut out, &[2]);
    text(&mut out, "31", 50);
    text(&mut out, "density", 81);
    reals(&mut out, &[7.5, 8.5]);
    text(&mut out, "stress", 81);
    reals(
        &mut out,
        &[1.0, 2.0, 3.0, 4.0, 5.0, 6.0, 11.0, 12.0, 13.0, 14.0, 15.0, 16.0],
    );
    reals(&mut out, &[0.6, 0.7]);
    ints(&mut out, &[3001, 3002]);
    ints(&mut out, &[1, 5, 7]);
    // lines: 1 element, 1 part, 1 scalar, 1 torsor, with orientation
    ints(&mut out, &[1, 1, 1, 1, 1]);
    ints(&mut out, &[0, 2]);
    out.extend_from_slice(&[0]);
    ints(&mut out, &[1]);
    text(&mut out, "41", 50);
    text(&mut out, "axial force", 81);
    reals(&mut out, &[9.5]);
    text(&mut out, "beam", 81);
    reals(&mut out, &[1.5, 2.5, 3.5, 4.5, 5.5, 6.5, 7.5, 8.5, 9.5]);
    ints(&mut out, &[0]);
    reals(&mut out, &[0.8]);
    ints(&mut out, &[4001]);
    ints(&mut out, &[1, 5, 7]);
    // hierarchy: 2 subsets, then 1 material and 2 properties
    ints(&mut out, &[2]);
    text(&mut out, "root", 50);
    ints(&mut out, &[0]);
    ints(&mut out, &[1, 2]);
    ints(&mut out, &[2, 1, 2]);
    ints(&mut out, &[1, 1]);
    ints(&mut out, &[0]);
    text(&mut out, "child", 50);
    ints(&mut out, &[1]);
    ints(&mut out, &[0]);
    ints(&mut out, &[0]);
    ints(&mut out, &[0]);
    ints(&mut out, &[1, 1]);
    ints(&mut out, &[1, 2]);
    text(&mut out, "steel", 50);
    ints(&mut out, &[2]);
    text(&mut out, "shell", 50);
    text(&mut out, "solid", 50);
    ints(&mut out, &[1, 14]);
    // time history: 1 node, no facets, 1 volume, no lines
    ints(&mut out, &[1, 0, 1, 0]);
    ints(&mut out, &[3]);
    text(&mut out, "probe", 50);
    ints(&mut out, &[2]);
    text(&mut out, "gauge", 50);
    // particles: 2 elements, 1 part, 1 scalar, 1 tensor
    ints(&mut out, &[2, 1, 1, 1]);
    ints(&mut out, &[1, 2]);
    out.extend_from_slice(&[0, 7]);
    ints(&mut out, &[2]);
    text(&mut out, "51", 50);
    text(&mut out, "pressure", 81);
    reals(&mut out, &[0.25, 0.75]);
    text(&mut out, "sph stress", 81);
    reals(
        &mut out,
        &[21.0, 22.0, 23.0, 24.0, 25.0, 26.0, 31.0, 32.0, 33.0, 34.0, 35.0, 36.0],
    );
    reals(&mut out, &[0.9, 1.1]);
    ints(&mut out, &[5001, 5002]);
    ints(&mut out, &[1, 5, 7]);
    out
}

#[test]
fn the_magic_number_is_fixed() {
    assert_eq!(MAGIC, 0x542c);
}

#[test]
fn a_frame_without_anything_decodes() {
    let mut stream = prologue(1.25, [0; 10]);
    empty_surface(&mut stream);
    assert_eq!(stream.len(), 291 + 32);
    let frame = decode(&stream).unwrap();
    assert_eq!(frame.time, 1.25f32.to_bits());
    assert_eq!(frame.flags, no_flags());
    assert_eq!(frame.nodes.count, 0);
    assert!(frame.nodes.coordinates.is_empty());
    assert!(frame.nodes.external_ids.is_empty());
    assert_eq!(frame.lines.count, 0);
    assert_eq!(frame.facets.count, 0);
    assert_eq!(frame.volumes.count, 0);
    assert_eq!(frame.particles.count, 0);
    assert!(frame.facets.connectivity.is_empty());
    assert!(frame.volumes.tensor_names.is_empty());
}

#[test]
fn another_magic_number_is_an_unsupported_version() {
    let mut stream = prologue(0.0, [0; 10]);
    empty_surface(&mut stream);
    stream[3] = 0x2d;
    assert_eq!(decode(&stream).err(), Some(ConvertError::UnsupportedVersion));
    assert_eq!(decode(&[0, 0, 0, 0]).err(), Some(ConvertError::UnsupportedVersion));
    assert_eq!(
        decode(&[0x54, 0x2c, 0, 0, 9, 9]).err(),
        Some(ConvertError::UnsupportedVersion)
    );
}

#[test]
fn a_stream_shorter_than_the_magic_number_is_truncated() {
    assert_eq!(decode(&[]).err(), Some(ConvertError::Truncated));
    assert_eq!(decode(&[0, 0, 0x54]).err(), Some(ConvertError::Truncated));
}

#[test]
fn a_stream_that_ends_in_the_prologue_is_truncated() {
    let stream = prologue(0.0, [0; 10]);
    assert_eq!(decode(&stream[..4]).err(), Some(ConvertError::Truncated));
    assert_eq!(decode(&stream[..290]).err(), Some(ConvertError::Truncated));
    assert_eq!(decode(&stream).err(), Some(ConvertError::Truncated));
}

#[test]
fn flags_gate_by_their_own_rules() {
    let mut stream = prologue(0.0, [2, 2, 0, 0, 0, 0, 1, 0, 1, 1]);
    empty_surface(&mut stream);
    let frame = decode(&stream).unwrap();
    assert!(!frame.flags.mass);
    assert!(frame.flags.surface_numbering);
    assert!(!frame.flags.numbering);
    assert!(!frame.flags.volumes);
    assert!(!frame.flags.lines);
    assert!(!frame.flags.hierarchy);
    assert!(!frame.flags.history);
    assert!(!frame.flags.particles);
}

#[test]
fn a_full_frame_decodes_field_by_field() {
    let stream = full_frame();
    let frame = decode(&stream).unwrap();
    assert_eq!(frame.time, 0.5f32.to_bits());
    assert_eq!(frame.flags, all_flags());

    assert_eq!(frame.nodes.count, 3);
    assert_eq!(
        frame.nodes.coordinates,
        bits(&[0.0, 0.0, 0.0, 1.0, 0.0, 0.0, 0.0, 1.0, 0.0])
    );
    assert_eq!(frame.nodes.scalar_names, vec!["node temperature"]);
    assert_eq!(frame.nodes.scalars, bits(&[10.0, 11.0, 12.0]));
    assert_eq!(frame.nodes.vector_names, vec!["velocity"]);
    assert_eq!(
        frame.nodes.vectors,
        bits(&[1.0, 2.0, 3.0, 4.0, 5.0, 6.0, 7.0, 8.0, 9.0])
    );
    assert_eq!(frame.nodes.external_ids, vec![1001, 1002, 1003]);

    assert_eq!(frame.facets.count, 2);
    assert_eq!(frame.facets.connectivity, vec![0, 1, 2, 2, 0, 1, 2, 0]);
    assert_eq!(frame.facets.erosion, vec![0, 1]);
    assert_eq!(frame.facets.part_boundaries, vec![1, 2]);
    assert_eq!(frame.facets.part_labels, vec!["11", " 12 "]);
    assert_eq!(frame.facets.scalar_names, vec!["thickness", "plastic strain"]);
    assert_eq!(frame.facets.scalars, bits(&[20.0, 21.0, 30.0, 31.0]));
    assert_eq!(frame.facets.tensor_names, vec!["membrane stress"]);
    assert_eq!(
        frame.facets.tensors,
        bits(&[101.0, 102.0, 103.0, 201.0, 202.0, 203.0])
    );
    assert_eq!(frame.facets.external_ids, vec![2001, 2002]);

    assert_eq!(frame.volumes.count, 2);
    assert_eq!(
        frame.volumes.connectivity,
        vec![0, 1, 2, 0, 0, 0, 0, 0, 0, 1, 2, 0, 1, 2, 0, 1]
    );
    assert_eq!(frame.volumes.erosion, vec![1, 0]);
    assert_eq!(frame.volumes.part_boundaries, vec![2]);
    assert_eq!(frame.volumes.part_labels, vec!["31"]);
    assert_eq!(frame.volumes.scalar_names, vec!["density"]);
    assert_eq!(frame.volumes.scalars, bits(&[7.5, 8.5]));
    assert_eq!(frame.volumes.tensor_names, vec!["stress"]);
    assert_eq!(
        frame.volumes.tensors,
        bits(&[1.0, 2.0, 3.0, 4.0, 5.0, 6.0, 11.0, 12.0, 13.0, 14.0, 15.0, 16.0])
    );
    assert_eq!(frame.volumes.external_ids, vec![3001, 3002]);

    assert_eq!(frame.lines.count, 1);
    assert_eq!(frame.lines.connectivity, vec![0, 2]);
    assert_eq!(frame.lines.erosion, vec![0]);
    assert_eq!(frame.lines.part_boundaries, vec![1]);
    assert_eq!(frame.lines.part_labels, vec!["41"]);
    assert_eq!(frame.lines.scalar_names, vec!["axial force"]);
    assert_eq!(frame.lines.scalars, bits(&[9.5]));
    assert_eq!(frame.lines.tensor_names, vec!["beam"]);
    assert_eq!(
        frame.lines.tensors,
        bits(&[1.5, 2.5, 3.5, 4.5, 5.5, 6.5, 7.5, 8.5, 9.5])
    );
    assert_eq!(frame.lines.external_ids, vec![4001]);

    assert_eq!(frame.particles.count, 2);
    assert_eq!(frame.particles.connectivity, vec![1, 2]);
    assert_eq!(frame.particles.erosion, vec![0, 7]);
    assert_eq!(frame.particles.part_boundaries, vec![2]);
    assert_eq!(frame.particles.part_labels, vec!["51"]);
    assert_eq!(frame.particles.scalar_names, vec!["pressure"]);
    assert_eq!(frame.particles.scalars, bits(&[0.25, 0.75]));
    assert_eq!(frame.particles.tensor_names, vec!["sph stress"]);
    assert_eq!(
        frame.particles.tensors,
        bits(&[21.0, 22.0, 23.0, 24.0, 25.0, 26.0, 31.0, 32.0, 33.0, 34.0, 35.0, 36.0])
    );
    assert_eq!(frame.particles.external_ids, vec![5001, 5002]);

    assert!(frame.is_complete());
    assert_eq!(frame.total_cells(), Some(7));
}

#[test]
fn every_cut_inside_a_frame_is_truncated() {
    let stream = full_frame();
    assert!(decode(&stream).is_ok());
    for k in 0..stream.len() {
        assert_eq!(
            decode(&stream[..k]).err(),
            Some(ConvertError::Truncated),
            "cut at {}",
            k
        );
    }
}

#[test]
fn bytes_behind_the_frame_are_not_looked_at() {
    let mut stream = full_frame();
    let frame = decode(&stream).unwrap();
    stream.extend_from_slice(&[0xff; 13]);
    let again = decode(&stream).unwrap();
    assert_eq!(again.nodes.coordinates, frame.nodes.coordinates);
    assert_eq!(again.particles.tensors, frame.particles.tensors);
    assert_eq!(again.particles.external_ids, frame.particles.external_ids);
}

#[test]
fn a_negative_count_is_refused() {
    for slot in 0..8 {
        let mut stream = prologue(0.0, [0; 10]);
        let mut counts = [0i32; 8];
        counts[slot] = -1;
        ints(&mut stream, &counts);
        assert_eq!(decode(&stream).err(), Some(ConvertError::NegativeCount));
    }
}

#[test]
fn a_header_cut_short_is_truncated_before_its_counts_are_judged() {
    let mut stream = prologue(0.0, [0; 10]);
    ints(&mut stream, &[-1, 0, 0, 0, 0, 0, 0]);
    assert_eq!(decode(&stream).err(), Some(ConvertError::Truncated));
}

#[test]
fn counts_larger_than_the_stream_are_truncated() {
    let mut stream = prologue(0.0, [0; 10]);
    ints(&mut stream, &[i32::MAX, 0, 0, 0, 0, 0, 0, 0]);
    assert_eq!(decode(&stream).err(), Some(ConvertError::Truncated));
    let mut fields = prologue(0.0, [0; 10]);
    ints(&mut fields, &[i32::MAX, i32::MAX, 0, i32::MAX, i32::MAX, i32::MAX, i32::MAX, 0]);
    fields.extend_from_slice(&[0; 64]);
    assert_eq!(decode(&fields).err(), Some(ConvertError::Truncated));
}

#[test]
fn without_numbering_the_external_numbers_are_absent() {
    let mut stream = prologue(0.0, [0, 0, 0, 0, 0, 0, 0, 1, 0, 0]);
    ints(&mut stream, &[1, 0, 0, 0, 0, 0, 0, 0]);
    reals(&mut stream, &[1.0, 2.0, 3.0]);
    shorts(&mut stream, 3);
    ints(&mut stream, &[1, 0, 0, 0]);
    ints(&mut stream, &[0]);
    stream.extend_from_slice(&[0]);
    let frame = decode(&stream).unwrap();
    assert_eq!(frame.nodes.count, 1);
    assert!(frame.nodes.external_ids.is_empty());
    assert_eq!(frame.particles.count, 1);
    assert_eq!(frame.particles.connectivity, vec![0]);
    assert!(frame.particles.external_ids.is_empty());
    assert!(!frame.is_complete());
}

#[test]
fn numbering_of_the_surface_alone() {
    let mut stream = prologue(0.0, [0, 2, 1, 0, 0, 0, 0, 0, 0, 0]);
    ints(&mut stream, &[1, 1, 0, 0, 0, 0, 0, 0]);
    reals(&mut stream, &[1.0, 2.0, 3.0]);
    ints(&mut stream, &[0, 0, 0, 0]);
    stream.extend_from_slice(&[0]);
    shorts(&mut stream, 3);
    ints(&mut stream, &[77]);
    ints(&mut stream, &[88]);
    ints(&mut stream, &[1, 0, 0, 0]);
    ints(&mut stream, &[0, 0, 0, 0, 0, 0, 0, 0]);
    stream.extend_from_slice(&[0]);
    let frame = decode(&stream).unwrap();
    assert_eq!(frame.nodes.external_ids, vec![77]);
    assert_eq!(frame.facets.external_ids, vec![88]);
    assert_eq!(frame.volumes.count, 1);
    assert!(frame.volumes.external_ids.is_empty());
}

#[test]
fn a_family_section_is_read_on_its_own() {
    let mut stream = Vec::new();
    ints(&mut stream, &[2, 1, 0, 1]);
    ints(&mut stream, &[4, 5]);
    stream.extend_from_slice(&[0, 1]);
    ints(&mut stream, &[2]);
    text(&mut stream, "9", 50);
    text(&mut stream, "s", 81);
    reals(&mut stream, &[1.0, 2.0, 3.0, 4.0, 5.0, 6.0, 7.0, 8.0, 9.0, 10.0, 11.0, 12.0]);
    stream.extend_from_slice(&[0xee; 3]);
    let mut reader = Reader::new(&stream);
    let particles = read_family(&mut reader, Family::Particle, no_flags()).unwrap();
    assert_eq!(reader.remaining(), 3);
    assert_eq!(particles.count, 2);
    assert_eq!(particles.connectivity, vec![4, 5]);
    assert_eq!(particles.tensors.len(), 12);
    assert!(particles.is_complete(Family::Particle) == false);
    assert!(particles.external_ids.is_empty());
}

#[test]
fn a_line_section_has_a_fifth_header_entry() {
    let mut stream = Vec::new();
    ints(&mut stream, &[1, 0, 0, 0, -3]);
    ints(&mut stream, &[6, 7]);
    stream.extend_from_slice(&[0]);
    ints(&mut stream, &[99]);
    let mut reader = Reader::new(&stream);
    let lines = read_family(&mut reader, Family::Line, no_flags()).unwrap();
    assert_eq!(reader.remaining(), 0);
    assert_eq!(lines.connectivity, vec![6, 7]);

    let mut plain = Vec::new();
    ints(&mut plain, &[1, 0, 0, 0, 0]);
    ints(&mut plain, &[6, 7]);
    plain.extend_from_slice(&[0]);
    ints(&mut plain, &[99]);
    let mut second = Reader::new(&plain);
    assert!(read_family(&mut second, Family::Line, no_flags()).is_ok());
    assert_eq!(second.remaining(), 4);
}

#[test]
fn the_surface_section_is_read_on_its_own() {
    let mut stream = Vec::new();
    ints(&mut stream, &[1, 0, 0, 0, 0, 0, 0, 2]);
    shorts(&mut stream, 12);
    reals(&mut stream, &[1.0, 2.0, 3.0]);
    shorts(&mut stream, 3);
    let mut reader = Reader::new(&stream);
    let (nodes, facets) = read_surface(&mut reader, no_flags()).unwrap();
    assert_eq!(reader.remaining(), 0);
    assert_eq!(nodes.coordinates, bits(&[1.0, 2.0, 3.0]));
    assert_eq!(facets.count, 0);
}

#[test]
fn counted_lists_are_passed_over() {
    let mut stream = Vec::new();
    ints(&mut stream, &[2, 10, 20, 0, 5]);
    let mut reader = Reader::new(&stream);
    assert_eq!(skip_list(&mut reader), Ok(()));
    assert_eq!(reader.offset(), 12);
    assert_eq!(skip_list(&mut reader), Ok(()));
    assert_eq!(reader.offset(), 16);
    assert_eq!(skip_list(&mut reader), Err(ConvertError::Truncated));
    let mut negative = Vec::new();
    ints(&mut negative, &[-1]);
    let mut second = Reader::new(&negative);
    assert_eq!(skip_list(&mut second), Err(ConvertError::NegativeCount));
}

#[test]
fn subsets_and_tables_are_passed_over() {
    let mut stream = Vec::new();
    text(&mut stream, "subset", 50);
    ints(&mut stream, &[0]);
    ints(&mut stream, &[0, 1, 4, 0, 2, 5, 6]);
    let mut reader = Reader::new(&stream);
    assert_eq!(skip_subset(&mut reader), Ok(()));
    assert_eq!(reader.remaining(), 0);

    let mut hierarchy = Vec::new();
    ints(&mut hierarchy, &[1]);
    hierarchy.extend_from_slice(&stream);
    ints(&mut hierarchy, &[1, 1]);
    text(&mut hierarchy, "m", 50);
    ints(&mut hierarchy, &[3]);
    text(&mut hierarchy, "p", 50);
    ints(&mut hierarchy, &[4]);
    let mut whole = Reader::new(&hierarchy);
    assert_eq!(skip_hierarchy(&mut whole), Ok(()));
    assert_eq!(whole.remaining(), 0);
    for k in 0..hierarchy.len() {
        let mut cut = Reader::new(&hierarchy[..k]);
        assert_eq!(skip_hierarchy(&mut cut), Err(ConvertError::Truncated));
    }
}

#[test]
fn negative_counts_in_the_hierarchy_are_refused() {
    let mut subsets = Vec::new();
    ints(&mut subsets, &[-1]);
    let mut first = Reader::new(&subsets);
    assert_eq!(skip_hierarchy(&mut first), Err(ConvertError::NegativeCount));
    let mut tables = Vec::new();
    ints(&mut tables, &[0, 0, -1]);
    let mut second = Reader::new(&tables);
    assert_eq!(skip_hierarchy(&mut second), Err(ConvertError::NegativeCount));
}

#[test]
fn the_time_history_is_passed_over() {
    let mut stream = Vec::new();
    ints(&mut stream, &[1, 2, 0, 1]);
    stream.extend_from_slice(&[0; 4 * 54]);
    let mut reader = Reader::new(&stream);
    assert_eq!(skip_history(&mut reader), Ok(()));
    assert_eq!(reader.remaining(), 0);
    let mut cut = Reader::new(&stream[..stream.len() - 1]);
    assert_eq!(skip_history(&mut cut), Err(ConvertError::Truncated));
    let mut negative = Vec::new();
    ints(&mut negative, &[0, 0, -2, 0]);
    let mut third = Reader::new(&negative);
    assert_eq!(skip_history(&mut third), Err(ConvertError::NegativeCount));
}
