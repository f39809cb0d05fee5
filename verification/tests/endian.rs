use anim_to_vtk::endian::join_u32;
use anim_to_vtk::endian::to_signed;
use anim_to_vtk::endian::to_unsigned;
use anim_to_vtk::endian::write_f32_binary;
use anim_to_vtk::endian::write_f64_binary;
use anim_to_vtk::endian::write_i32_binary;

#[test]
fn four_bytes_join_in_big_endian_order() {
    assert_eq!(join_u32(0x12, 0x34, 0x56, 0x78), 0x12345678);
    assert_eq!(join_u32(0, 0, 0, 1), 1);
    assert_eq!(join_u32(0xff, 0xff, 0xff, 0xff), u32::MAX);
    assert_eq!(join_u32(0, 0, 0x54, 0x2c), 0x542c);
}

#[test]
fn join_agrees_with_std() {
    for b in [[0u8, 0, 0, 0], [1, 2, 3, 4], [0x80, 0, 0, 0], [0x7f, 0xff, 0xff, 0xff]] {
        assert_eq!(join_u32(b[0], b[1], b[2], b[3]), u32::from_be_bytes(b));
    }
}

#[test]
fn signed_and_unsigned_share_their_bits() {
    assert_eq!(to_signed(0), 0);
    assert_eq!(to_signed(0x7fff_ffff), i32::MAX);
    assert_eq!(to_signed(0x8000_0000), i32::MIN);
    assert_eq!(to_signed(0xffff_ffff), -1);
    assert_eq!(to_unsigned(-1), 0xffff_ffff);
    assert_eq!(to_unsigned(i32::MIN), 0x8000_0000);
    assert_eq!(to_unsigned(i32::MAX), 0x7fff_ffff);
    for v in [0u32, 1, 0x8000_0000, 0xdead_beef, u32::MAX] {
        assert_eq!(to_signed(v), v as i32);
        assert_eq!(to_unsigned(to_signed(v)), v);
    }
}

#[test]
fn integers_are_written_in_big_endian_order() {
    let mut out = vec![0xaa];
    write_i32_binary(&mut out, 1);
    write_i32_binary(&mut out, -2);
    write_i32_binary(&mut out, 0x01020304);
    assert_eq!(
        out,
        vec![0xaa, 0, 0, 0, 1, 0xff, 0xff, 0xff, 0xfe, 1, 2, 3, 4]
    );
}

#[test]
fn write_i32_binary_agrees_with_std() {
    for v in [0, 1, -1, 255, 256, -256, 65536, i32::MAX, i32::MIN, 0x542c] {
        let mut out = Vec::new();
        write_i32_binary(&mut out, v);
        assert_eq!(out, v.to_be_bytes().to_vec());
    }
}

#[test]
fn real_numbers_are_written_as_their_pattern() {
    for x in [0.0f32, -0.0, 1.0, -1.5, 3.25e10, f32::MIN_POSITIVE, f32::INFINITY, f32::NAN] {
        let mut out = Vec::new();
        write_f32_binary(&mut out, x.to_bits());
        assert_eq!(out, x.to_be_bytes().to_vec());
    }
}

#[test]
fn double_precision_patterns_are_written_in_big_endian_order() {
    for x in [0.0f64, -0.0, 0.5, -1.5e300, f64::MAX, f64::INFINITY] {
        let mut out = vec![7];
        write_f64_binary(&mut out, x.to_bits());
        let mut expected = vec![7];
        expected.extend_from_slice(&x.to_be_bytes());
        assert_eq!(out, expected);
    }
    let mut out = Vec::new();
    write_f64_binary(&mut out, 0x0102030405060708);
    assert_eq!(out, vec![1, 2, 3, 4, 5, 6, 7, 8]);
}
