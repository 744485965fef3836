use hprof_slurp::parser::primitive_parsers::{
    copy_bytes, from_i16, from_i32, from_i64, from_i8, read_u16, read_u32, read_u64, read_u8,
    to_i16, to_i32, to_i64, to_i8, write_u16, write_u32, write_u64,
};

#[test]
fn reads_are_big_endian() {
    let data = [0x01, 0x02, 0x03, 0x04, 0x05, 0x06, 0x07, 0x08, 0x09];
    assert_eq!(read_u8(&data, 0), 0x01);
    assert_eq!(read_u8(&data, 8), 0x09);
    assert_eq!(read_u16(&data, 0), 0x0102);
    assert_eq!(read_u16(&data, 7), 0x0809);
    assert_eq!(read_u32(&data, 0), 0x0102_0304);
    assert_eq!(read_u32(&data, 5), 0x0607_0809);
    assert_eq!(read_u64(&data, 0), 0x0102_0304_0506_0708);
    assert_eq!(read_u64(&data, 1), 0x0203_0405_0607_0809);
}

#[test]
fn reads_of_extreme_values() {
    let ones = [0xFF; 8];
    assert_eq!(read_u16(&ones, 0), u16::MAX);
    assert_eq!(read_u32(&ones, 0), u32::MAX);
    assert_eq!(read_u64(&ones, 0), u64::MAX);
    let zeros = [0u8; 8];
    assert_eq!(read_u16(&zeros, 0), 0);
    assert_eq!(read_u32(&zeros, 0), 0);
    assert_eq!(read_u64(&zeros, 0), 0);
}

#[test]
fn reads_agree_with_std() {
    let data = [0xDE, 0xAD, 0xBE, 0xEF, 0x12, 0x34, 0x56, 0x78];
    assert_eq!(read_u16(&data, 2), u16::from_be_bytes([0xBE, 0xEF]));
    assert_eq!(read_u32(&data, 0), u32::from_be_bytes([0xDE, 0xAD, 0xBE, 0xEF]));
    assert_eq!(read_u64(&data, 0), u64::from_be_bytes(data));
}

#[test]
fn signed_readings_are_twos_complement() {
    assert_eq!(to_i8(0), 0);
    assert_eq!(to_i8(0x7F), 127);
    assert_eq!(to_i8(0x80), -128);
    assert_eq!(to_i8(0xFF), -1);
    assert_eq!(to_i16(0x7FFF), i16::MAX);
    assert_eq!(to_i16(0x8000), i16::MIN);
    assert_eq!(to_i16(0xFFFE), -2);
    assert_eq!(to_i32(0x7FFF_FFFF), i32::MAX);
    assert_eq!(to_i32(0x8000_0000), i32::MIN);
    assert_eq!(to_i32(0xFFFF_FFFD), -3);
    assert_eq!(to_i64(0x7FFF_FFFF_FFFF_FFFF), i64::MAX);
    assert_eq!(to_i64(0x8000_0000_0000_0000), i64::MIN);
    assert_eq!(to_i64(u64::MAX), -1);
}

#[test]
fn signed_readings_agree_with_casts() {
    for v in [0u8, 1, 0x7F, 0x80, 0x81, 0xFE, 0xFF] {
        assert_eq!(to_i8(v), v as i8);
        assert_eq!(from_i8(v as i8), v);
    }
    for v in [0u16, 1, 0x7FFF, 0x8000, 0x8001, 0xFFFF] {
        assert_eq!(to_i16(v), v as i16);
        assert_eq!(from_i16(v as i16), v);
    }
    for v in [0u32, 1, 0x7FFF_FFFF, 0x8000_0000, 0x8000_0001, u32::MAX] {
        assert_eq!(to_i32(v), v as i32);
        assert_eq!(from_i32(v as i32), v);
    }
    for v in [0u64, 1, i64::MAX as u64, 0x8000_0000_0000_0000, u64::MAX] {
        assert_eq!(to_i64(v), v as i64);
        assert_eq!(from_i64(v as i64), v);
    }
}

#[test]
fn writes_are_big_endian() {
    let mut out = vec![0xAA];
    write_u16(&mut out, 0x0102);
    write_u32(&mut out, 0x0304_0506);
    write_u64(&mut out, 0x0708_090A_0B0C_0D0E);
    assert_eq!(
        out,
        vec![0xAA, 1, 2, 3, 4, 5, 6, 7, 8, 9, 10, 11, 12, 13, 14]
    );
}

#[test]
fn writes_and_reads_undo_each_other() {
    for v in [0u64, 1, 0xFF, 0x1234_5678_9ABC_DEF0, u64::MAX] {
        let mut out = Vec::new();
        write_u64(&mut out, v);
        assert_eq!(out.len(), 8);
        assert_eq!(read_u64(&out, 0), v);
        assert_eq!(out, v.to_be_bytes().to_vec());
    }
    for v in [0u32, 0x8000_0000, 0xDEAD_BEEF, u32::MAX] {
        let mut out = Vec::new();
        write_u32(&mut out, v);
        assert_eq!(read_u32(&out, 0), v);
        assert_eq!(out, v.to_be_bytes().to_vec());
    }
    for v in [0u16, 0x00FF, 0xFF00, u16::MAX] {
        let mut out = Vec::new();
        write_u16(&mut out, v);
        assert_eq!(read_u16(&out, 0), v);
        assert_eq!(out, v.to_be_bytes().to_vec());
    }
}

#[test]
fn copies_the_range_asked_for() {
    let data = [10, 11, 12, 13, 14];
    assert_eq!(copy_bytes(&data, 1, 4), vec![11, 12, 13]);
    assert_eq!(copy_bytes(&data, 0, 5), data.to_vec());
    assert_eq!(copy_bytes(&data, 5, 5), Vec::<u8>::new());
    assert_eq!(copy_bytes(&data, 2, 2), Vec::<u8>::new());
}
