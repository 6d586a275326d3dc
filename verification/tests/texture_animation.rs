use wow_m2::animation::M2AnimationBlock;
use wow_m2::codec::ByteCursor;
use wow_m2::common::M2Array;
use wow_m2::error::M2Error;
use wow_m2::texture_animation::{M2TextureAnimation, M2TextureAnimationType};
use wow_m2::version::M2Version;

// Helper to write an empty M2AnimationBlock (20 bytes: 2+2+4+4+4+4)
fn write_empty_block(data: &mut Vec<u8>) {
    data.extend_from_slice(&1u16.to_le_bytes()); // Interpolation type (Linear)
    data.extend_from_slice(&(-1i16).to_le_bytes()); // Global sequence
    data.extend_from_slice(&0u32.to_le_bytes()); // Timestamps count
    data.extend_from_slice(&0u32.to_le_bytes()); // Timestamps offset
    data.extend_from_slice(&0u32.to_le_bytes()); // Values count
    data.extend_from_slice(&0u32.to_le_bytes()); // Values offset
}

#[test]
fn test_texture_animation_parse_write() {
    let mut data = Vec::new();

    // Translation block (C3Vector)
    write_empty_block(&mut data);
    // Rotation block (C4Quaternion)
    write_empty_block(&mut data);
    // Scale block (C3Vector)
    write_empty_block(&mut data);

    let mut cursor = ByteCursor::new(data);
    let tex_anim = M2TextureAnimation::parse(&mut cursor).unwrap();

    // Test write round-trip: output size should match input
    let mut output = Vec::new();
    tex_anim.write(&mut output);
    assert_eq!(output.len(), cursor.get_ref().len());
}

#[test]
fn parse_reads_fields_little_endian() {
    let mut data = Vec::new();
    for k in 0u8..3 {
        data.extend_from_slice(&(2u16 + k as u16).to_le_bytes());
        data.extend_from_slice(&(-1i16).to_le_bytes());
        data.extend_from_slice(&0x0403_0201u32.to_le_bytes());
        data.extend_from_slice(&(10u32 + k as u32).to_le_bytes());
        data.extend_from_slice(&7u32.to_le_bytes());
        data.extend_from_slice(&0xFFFF_FFFFu32.to_le_bytes());
    }
    data.push(0xAB);
    let mut cursor = ByteCursor::new(data);
    let anim = M2TextureAnimation::parse(&mut cursor).unwrap();
    assert_eq!(cursor.position(), 60);
    let expected = M2AnimationBlock {
        interpolation_type: 2,
        global_sequence: -1,
        interpolation_ranges: None,
        timestamps: M2Array { count: 0x0403_0201, offset: 10 },
        values: M2Array { count: 7, offset: 0xFFFF_FFFF },
    };
    assert_eq!(anim.translation, expected);
    assert_eq!(anim.rotation.interpolation_type, 3);
    assert_eq!(anim.rotation.timestamps.offset, 11);
    assert_eq!(anim.scale.interpolation_type, 4);
    assert_eq!(anim.scale.global_sequence, -1);
}

#[test]
fn parse_short_input_is_an_error_and_moves_to_the_end() {
    let data = vec![0u8; 59];
    let mut cursor = ByteCursor::new(data);
    assert_eq!(M2TextureAnimation::parse(&mut cursor), Err(M2Error::UnexpectedEof));
    assert_eq!(cursor.position(), 59);
}

#[test]
fn write_then_parse_gives_the_same_animation() {
    let mut anim = M2TextureAnimation::new();
    anim.translation.interpolation_type = 1;
    anim.translation.global_sequence = -32768;
    anim.rotation.values = M2Array::new(3, 0x1234);
    anim.scale.global_sequence = 32767;
    let mut bytes = Vec::new();
    anim.write(&mut bytes);
    assert_eq!(bytes.len(), 60);
    assert_eq!(&bytes[0..4], &[1, 0, 0, 0x80]);
    let mut cursor = ByteCursor::new(bytes);
    assert_eq!(M2TextureAnimation::parse(&mut cursor), Ok(anim));
}

#[test]
fn parse_then_write_gives_the_same_bytes() {
    let data: Vec<u8> = (0u8..60).collect();
    let mut cursor = ByteCursor::new(data.clone());
    let anim = M2TextureAnimation::parse(&mut cursor).unwrap();
    let mut out = Vec::new();
    anim.write(&mut out);
    assert_eq!(out, data);
}

#[test]
fn new_is_all_zero_and_convert_keeps_it() {
    let anim = M2TextureAnimation::new();
    assert_eq!(anim.translation.interpolation_type, 0);
    assert_eq!(anim.scale.values.count, 0);
    let other = anim.convert(M2Version::Legion);
    assert_eq!(other, anim);
}

#[test]
fn texture_animation_type_from_u16() {
    assert_eq!(M2TextureAnimationType::from_u16(0), Some(M2TextureAnimationType::NoAnimation));
    assert_eq!(M2TextureAnimationType::from_u16(1), Some(M2TextureAnimationType::Scroll));
    assert_eq!(M2TextureAnimationType::from_u16(2), Some(M2TextureAnimationType::Rotate));
    assert_eq!(M2TextureAnimationType::from_u16(3), Some(M2TextureAnimationType::Scale));
    assert_eq!(M2TextureAnimationType::from_u16(4), Some(M2TextureAnimationType::KeyFrame));
    assert_eq!(M2TextureAnimationType::from_u16(5), None);
    assert_eq!(M2TextureAnimationType::from_u16(0xFFFF), None);
}
