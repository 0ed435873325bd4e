use bimage::bim::{BIMHeader, BIMMipMap};
use bimage::le::{i16_pattern, i64_pattern, put_le};

#[test]
fn default_header_bytes() {
    let bytes = BIMHeader::default().to_bytes();
    let expected: [u8; 63] = [
        66, 73, 77, 21, 0, 0, 0, 0, 0, 0, 0, 0, 0, 0, 0, 0, 0, 0, 0, 0, 0, 0, 0, 0, 0, 0, 0, 0, 0, 0, 0,
        0, 0, 0, 0, 0, 0, 0, 128, 63, 0, 0, 0, 0, 0, 7, 0, 0, 0, 0, 0, 0, 0, 0, 0, 0, 0, 0, 0, 0, 0, 0, 0,
    ];
    assert_eq!(bytes, expected);
}

#[test]
fn default_header_fields() {
    let header = BIMHeader::default();
    assert_eq!(header.signature, [0x42, 0x49, 0x4D]);
    assert_eq!(header.version, 0x15);
    assert_eq!(header.unk_float_1, 1.0f32.to_bits());
    assert_eq!(header.always_7, 7);
    assert_eq!(header.mip_count, 0);
    assert_eq!(header.texture_format, 0);
}

#[test]
fn header_fields_land_at_their_offsets() {
    let header = BIMHeader {
        signature: [1, 2, 3],
        version: 4,
        texture_type: 0x0807_0605,
        texture_material_kind: 0x0C0B_0A09,
        pixel_width: 0x100F_0E0D,
        pixel_height: 0x1413_1211,
        depth: 0x1817_1615,
        mip_count: 0x1C1B_1A19,
        mip_level: 0x2423_2221_201F_1E1D,
        unk_float_1: 0x2827_2625,
        bool_is_environment_map: 0x29,
        texture_format: 0x2D2C_2B2A,
        always_7: 0x3130_2F2E,
        null_padding: 0x3534_3332,
        atlas_padding: 0x3736,
        bool_is_streamed: 0x38,
        unk_bool: 0x39,
        bool_no_mips: 0x3A,
        bool_fft_bloom: 0x3B,
        streamdb_mip_count: 0x3F3E_3D3C,
    };
    let bytes = header.to_bytes();
    for (i, byte) in bytes.iter().enumerate() {
        assert_eq!(*byte as usize, i + 1);
    }
}

#[test]
fn header_signed_fields_are_twos_complement() {
    let header = BIMHeader { mip_level: -2, atlas_padding: -3, ..Default::default() };
    let bytes = header.to_bytes();
    assert_eq!(bytes[28..36], [0xFE, 0xFF, 0xFF, 0xFF, 0xFF, 0xFF, 0xFF, 0xFF]);
    assert_eq!(bytes[53..55], [0xFD, 0xFF]);
    let header = BIMHeader { mip_level: i64::MIN, atlas_padding: i16::MIN, ..Default::default() };
    let bytes = header.to_bytes();
    assert_eq!(bytes[28..36], [0, 0, 0, 0, 0, 0, 0, 0x80]);
    assert_eq!(bytes[53..55], [0, 0x80]);
}

#[test]
fn default_mip_record_bytes() {
    let record = BIMMipMap::default();
    assert_eq!(record.unknown_flag, 1);
    let mut expected = [0u8; 36];
    expected[16] = 1;
    assert_eq!(record.to_bytes(), expected);
}

#[test]
fn mip_record_bytes() {
    let record = BIMMipMap {
        mip_level: 3,
        mip_pixel_width: 16,
        mip_pixel_height: 260,
        unknown_flag: 1,
        decompressed_size: 0x0102_0304,
        flag_is_compressed: 0,
        compressed_size: 4160,
        cumulative_size_streamdb: 0xFFFF_FFFF,
    };
    let expected: [u8; 36] = [
        3, 0, 0, 0, 0, 0, 0, 0, 16, 0, 0, 0, 4, 1, 0, 0, 1, 0, 0, 0, 4, 3, 2, 1, 0, 0, 0, 0, 0x40, 0x10,
        0, 0, 255, 255, 255, 255,
    ];
    assert_eq!(record.to_bytes(), expected);
    assert_eq!(record.to_bytes(), {
        let mut bytes = Vec::new();
        bytes.extend_from_slice(&3i64.to_le_bytes());
        for field in [16u32, 260, 1, 0x0102_0304, 0, 4160, 0xFFFF_FFFF] {
            bytes.extend_from_slice(&field.to_le_bytes());
        }
        <[u8; 36]>::try_from(bytes).unwrap()
    });
}

#[test]
fn little_endian_writes() {
    let mut buf = [0xAAu8; 8];
    put_le(&mut buf, 2, 0x0102_0304, 4);
    assert_eq!(buf, [0xAA, 0xAA, 4, 3, 2, 1, 0xAA, 0xAA]);
    put_le(&mut buf, 0, 0x1122_3344_5566_7788, 8);
    assert_eq!(buf, 0x1122_3344_5566_7788u64.to_le_bytes());
    // Only the low bytes of the value are written.
    put_le(&mut buf, 7, 0x1234, 1);
    assert_eq!(buf[7], 0x34);
    put_le(&mut buf, 3, 99, 0);
    assert_eq!(buf, [0x88, 0x77, 0x66, 0x55, 0x44, 0x33, 0x22, 0x34]);
}

#[test]
fn twos_complement_patterns() {
    assert_eq!(i64_pattern(0), 0);
    assert_eq!(i64_pattern(7), 7);
    assert_eq!(i64_pattern(-1), u64::MAX);
    assert_eq!(i64_pattern(i64::MIN), 1 << 63);
    assert_eq!(i64_pattern(i64::MAX), i64::MAX as u64);
    assert_eq!(i16_pattern(0), 0);
    assert_eq!(i16_pattern(-1), 0xFFFF);
    assert_eq!(i16_pattern(i16::MIN), 0x8000);
    assert_eq!(i16_pattern(i16::MAX), 0x7FFF);
}
