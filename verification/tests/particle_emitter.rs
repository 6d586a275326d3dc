use wow_m2::particle_emitter::M2ParticleEmitterType;
use wow_m2::particle_flags::M2ParticleFlags;

#[test]
fn test_particle_emitter_flags() {
    let flags = M2ParticleFlags::BILLBOARDED() | M2ParticleFlags::ROTATING();
    assert!(flags.contains(M2ParticleFlags::BILLBOARDED()));
    assert!(flags.contains(M2ParticleFlags::ROTATING()));
    assert!(!flags.contains(M2ParticleFlags::PHYSICS()));
}

#[test]
fn flags_keep_unknown_bits() {
    let flags = M2ParticleFlags::from_bits_retain(0x8000_0021);
    assert_eq!(flags.bits(), 0x8000_0021);
    assert!(flags.contains(M2ParticleFlags::HAS_POSITION()));
    assert!(flags.contains(M2ParticleFlags::ROTATING()));
    assert!(!flags.contains(M2ParticleFlags::FIXED_Y()));
    assert_eq!(M2ParticleFlags::FIXED_Y().bits(), 0x0040_0000);
}

#[test]
fn emitter_type_from_u8() {
    assert_eq!(M2ParticleEmitterType::from_u8(0), Some(M2ParticleEmitterType::Point));
    assert_eq!(M2ParticleEmitterType::from_u8(1), Some(M2ParticleEmitterType::Plane));
    assert_eq!(M2ParticleEmitterType::from_u8(2), Some(M2ParticleEmitterType::Sphere));
    assert_eq!(M2ParticleEmitterType::from_u8(3), Some(M2ParticleEmitterType::Spline));
    assert_eq!(M2ParticleEmitterType::from_u8(4), Some(M2ParticleEmitterType::Bone));
    assert_eq!(M2ParticleEmitterType::from_u8(5), None);
    assert_eq!(M2ParticleEmitterType::Sphere.to_u8(), 2);
}

use wow_m2::animation::{FakeAnimationBlock, M2AnimationBlock};
use wow_m2::codec::ByteCursor;
use wow_m2::common::{C2Vector, C3Vector, M2Array};
use wow_m2::error::M2Error;
use wow_m2::particle_emitter::M2ParticleEmitter;
use wow_m2::version::M2Version;

fn u16s(out: &mut Vec<u8>, v: u16) {
    out.extend_from_slice(&v.to_le_bytes());
}

fn u32s(out: &mut Vec<u8>, v: u32) {
    out.extend_from_slice(&v.to_le_bytes());
}

/// A byte pattern that differs at every position of a record.
fn pattern(len: usize) -> Vec<u8> {
    (0..len).map(|i| (i * 7 + 3) as u8).collect()
}

fn le32(data: &[u8], at: usize) -> u32 {
    u32::from_le_bytes([data[at], data[at + 1], data[at + 2], data[at + 3]])
}

fn le16(data: &[u8], at: usize) -> u16 {
    u16::from_le_bytes([data[at], data[at + 1]])
}

#[test]
fn record_sizes_by_version() {
    // Vanilla and TBC: 504 bytes (28-byte tracks); WotLK and Cataclysm: 476
    // bytes (20-byte tracks); WoD: 477 bytes; Legion: 505 bytes.
    for (version, size) in [(256u32, 504usize), (263, 504), (264, 476), (272, 476), (273, 477), (274, 505)] {
        let data = pattern(size + 3);
        let mut cursor = ByteCursor::new(data);
        assert!(M2ParticleEmitter::parse(&mut cursor, version).is_ok());
        assert_eq!(cursor.position(), size, "version {}", version);
    }
}

#[test]
fn parse_vanilla_fields() {
    let data = pattern(504);
    let mut cursor = ByteCursor::new(data.clone());
    let e = M2ParticleEmitter::parse(&mut cursor, 256).unwrap();
    assert_eq!(cursor.position(), 504);
    assert_eq!(e.id, le32(&data, 0));
    assert_eq!(e.flags.bits(), le32(&data, 4));
    assert_eq!(
        e.position,
        C3Vector { x: le32(&data, 8), y: le32(&data, 12), z: le32(&data, 16) }
    );
    assert_eq!(e.bone_index, le16(&data, 20));
    assert_eq!(e.texture_indices, [le16(&data, 22), 0, 0]);
    assert_eq!(e.model_filename, M2Array::new(le32(&data, 24), le32(&data, 28)));
    // Introduced in WotLK: absent before, though its eight bytes are read past.
    assert_eq!(e.child_emitter_filename, None);
    // Vanilla: blending type and emitter type are u16; their low bytes are kept.
    assert_eq!(e.blending_type, data[40]);
    assert_eq!(e.emitter_type, M2ParticleEmitterType::Point); // low byte 47 is no type
    assert_eq!(e.particle_color_index, None);
    assert_eq!(e.particle_type, data[44]);
    assert_eq!(e.head_or_tail, data[45]);
    assert_eq!(e.priority_plane, le16(&data, 46) as i16);
    assert_eq!(e.texture_dimensions_rows, le16(&data, 48));
    assert_eq!(e.texture_dimensions_columns, le16(&data, 50));
    // Tracks take 28 bytes before WotLK: the interpolation ranges follow the
    // global sequence.
    assert_eq!(
        e.emission_speed,
        M2AnimationBlock {
            interpolation_type: le16(&data, 52),
            global_sequence: le16(&data, 54) as i16,
            interpolation_ranges: Some(M2Array::new(le32(&data, 56), le32(&data, 60))),
            timestamps: M2Array::new(le32(&data, 64), le32(&data, 68)),
            values: M2Array::new(le32(&data, 72), le32(&data, 76)),
        }
    );
    assert_eq!(e.speed_variation.interpolation_type, le16(&data, 80));
    assert_eq!(e.lifespan.values.offset, le32(&data, 192 + 24));
    assert_eq!(e.lifespan_variation, None);
    assert_eq!(e.emission_rate.interpolation_type, le16(&data, 220));
    assert_eq!(e.emission_rate_variation, None);
    assert_eq!(e.emission_area_width.interpolation_type, le16(&data, 248));
    assert_eq!(e.z_source.values.count, le32(&data, 304 + 20));
    // The 48 bytes before the render parameters are a gap: defaults stand.
    assert_eq!(e.color_track, FakeAnimationBlock { timestamps: M2Array::new(0, 0), values: M2Array::new(0, 0) });
    assert_eq!(e.scale_vary, C2Vector { x: 1.0f32.to_bits(), y: 1.0f32.to_bits() });
    assert_eq!(e.tail_length, le32(&data, 380));
    assert_eq!(e.drag, le32(&data, 404));
    assert_eq!(e.legacy_spin, Some(le32(&data, 408)));
    assert_eq!(e.base_spin, None);
    assert_eq!(e.tumble_min.x, le32(&data, 412));
    assert_eq!(e.wind_time, le32(&data, 448));
    assert_eq!(e.follow_scale2, le32(&data, 464));
    assert_eq!(e.spline_points, M2Array::new(le32(&data, 468), le32(&data, 472)));
    assert_eq!(e.enabled_in.interpolation_type, le16(&data, 476));
    assert_eq!(e.enabled_in.interpolation_ranges, Some(M2Array::new(le32(&data, 480), le32(&data, 484))));
    assert_eq!(e.enabled_in.values.offset, le32(&data, 500));
    assert_eq!(e.fallback_model_filename, None);
    assert_eq!(e.particle_initial_state, None);
}

#[test]
fn parse_tbc_late_and_cataclysm_kind_fields() {
    let mut data = pattern(504);
    data[41] = 2; // emitter type: sphere
    data[22] = 0b1010_0011;
    data[23] = 0b0111_1100; // raw = 0x7CA3
    let mut cursor = ByteCursor::new(data.clone());
    let e = M2ParticleEmitter::parse(&mut cursor, 262).unwrap();
    assert_eq!(cursor.position(), 504);
    assert_eq!(e.blending_type, data[40]);
    assert_eq!(e.emitter_type, M2ParticleEmitterType::Sphere);
    assert_eq!(e.particle_color_index, Some(le16(&data, 42)));
    assert_eq!(e.texture_indices, [0x7CA3, 0, 0]);

    let mut cursor = ByteCursor::new(data.clone());
    let e = M2ParticleEmitter::parse(&mut cursor, 272).unwrap();
    assert_eq!(cursor.position(), 476);
    assert_eq!(e.emission_speed.interpolation_ranges, None);
    assert_eq!(e.speed_variation.interpolation_type, le16(&data, 72));
    assert_eq!(e.texture_indices, [0x7CA3 & 0x1F, (0x7CA3 >> 5) & 0x1F, (0x7CA3 >> 10) & 0x1F]);
    assert_eq!(e.child_emitter_filename, Some(M2Array::new(le32(&data, 32), le32(&data, 36))));
    assert_eq!(e.particle_type, 0);
    assert_eq!(e.head_or_tail, 0);
    assert_eq!(e.lifespan_variation, Some(le32(&data, 172)));
    assert_eq!(e.emission_rate.interpolation_type, le16(&data, 176));
    assert_eq!(e.emission_rate_variation, Some(le32(&data, 196)));
    assert_eq!(e.color_track.timestamps.count, le32(&data, 260));
    assert_eq!(e.scale_vary, C2Vector { x: le32(&data, 308), y: le32(&data, 312) });
    assert_eq!(e.tail_uv_anim.values.offset, le32(&data, 332 + 12));
    assert_eq!(e.tail_length, le32(&data, 348));
    assert_eq!(e.legacy_spin, None);
    assert_eq!(e.base_spin, Some(le32(&data, 376)));
    assert_eq!(e.spin_speed_variation, Some(le32(&data, 388)));
    assert_eq!(e.enabled_in.values.offset, le32(&data, 456 + 16));
}

#[test]
fn parse_fails_inside_the_header() {
    for version in [256u32, 264, 274] {
        let data = pattern(51);
        let mut cursor = ByteCursor::new(data);
        assert_eq!(M2ParticleEmitter::parse(&mut cursor, version), Err(M2Error::UnexpectedEof));
        assert_eq!(cursor.position(), 51);
    }
}

#[test]
fn parse_defaults_fields_past_the_end() {
    // WotLK record cut inside the speed variation track.
    let data = pattern(52 + 30);
    let mut cursor = ByteCursor::new(data.clone());
    let e = M2ParticleEmitter::parse(&mut cursor, 264).unwrap();
    assert_eq!(cursor.position(), 82);
    assert_eq!(e.emission_speed.interpolation_type, le16(&data, 52));
    assert_eq!(e.speed_variation, M2AnimationBlock::default());
    assert_eq!(e.lifespan_variation, None);
    assert_eq!(e.scale_vary, C2Vector { x: 0x3F80_0000, y: 0x3F80_0000 });
    assert_eq!(e.tail_length, 0);
    assert_eq!(e.base_spin, None);
    assert_eq!(e.tumble_max, C3Vector { x: 0, y: 0, z: 0 });
    assert_eq!(e.spline_points, M2Array::new(0, 0));

    // Before WotLK a track takes 28 bytes: cut inside the first one, it is
    // the zero track.
    let data = pattern(52 + 27);
    let mut cursor = ByteCursor::new(data);
    let e = M2ParticleEmitter::parse(&mut cursor, 256).unwrap();
    assert_eq!(cursor.position(), 79);
    assert_eq!(e.emission_speed, M2AnimationBlock::default());
}

#[test]
fn legion_needs_the_closing_fields() {
    let data = pattern(504);
    let mut cursor = ByteCursor::new(data);
    assert_eq!(M2ParticleEmitter::parse(&mut cursor, 274), Err(M2Error::UnexpectedEof));
    assert_eq!(cursor.position(), 504);
    let data = pattern(505);
    let mut cursor = ByteCursor::new(data.clone());
    let e = M2ParticleEmitter::parse(&mut cursor, 274).unwrap();
    // Legion puts the fallback model filename before the blending type.
    assert_eq!(e.child_emitter_filename, Some(M2Array::new(le32(&data, 32), le32(&data, 36))));
    assert_eq!(e.fallback_model_filename, Some(M2Array::new(le32(&data, 40), le32(&data, 44))));
    assert_eq!(e.blending_type, data[48]);
    assert_eq!(e.texture_file_data_ids, Some(M2Array::new(le32(&data, 54), le32(&data, 58))));
    assert_eq!(e.enable_encryption, Some(data[62]));
    assert_eq!(e.priority_plane, le16(&data, 63) as i16);
    assert_eq!(e.multi_texture_param0, None);
    assert_eq!(e.multi_texture_param1, None);
    assert_eq!(e.particle_initial_state, Some(le32(&data, 493)));
    assert_eq!(e.particle_initial_state_variation, Some(le32(&data, 497)));
    assert_eq!(e.particle_convergence_time, Some(le32(&data, 501)));
}

#[test]
fn wod_reads_the_encryption_flag() {
    // WoD (273): one byte of encryption flag before the priority plane.
    let data = pattern(477 + 2);
    let mut cursor = ByteCursor::new(data.clone());
    let e = M2ParticleEmitter::parse(&mut cursor, 273).unwrap();
    assert_eq!(cursor.position(), 477);
    assert_eq!(e.enable_encryption, Some(data[46]));
    assert_eq!(e.priority_plane, le16(&data, 47) as i16);
    assert_eq!(e.fallback_model_filename, None);
    assert_eq!(e.texture_file_data_ids, None);
    assert_eq!(e.particle_initial_state, None);
}

#[test]
fn the_gap_before_wotlk_is_not_read() {
    let mut a = pattern(504);
    let b = a.clone();
    for i in 332..380 {
        a[i] = 0xEE;
    }
    let ea = M2ParticleEmitter::parse(&mut ByteCursor::new(a), 260).unwrap();
    let eb = M2ParticleEmitter::parse(&mut ByteCursor::new(b), 260).unwrap();
    assert_eq!(ea, eb);
    assert_eq!(ea.head_uv_anim, FakeAnimationBlock { timestamps: M2Array::new(0, 0), values: M2Array::new(0, 0) });
}

fn sample(version: u32) -> M2ParticleEmitter {
    let mut data = pattern(504);
    data[41] = 4;
    data[22] = 0x41;
    data[23] = 0x08;
    let mut cursor = ByteCursor::new(data);
    M2ParticleEmitter::parse(&mut cursor, version).unwrap()
}

#[test]
fn write_then_parse_gives_the_emitter_back() {
    for version in [256u32, 260, 262, 263, 264, 265, 272] {
        let e = sample(version);
        let mut bytes = Vec::new();
        e.write(&mut bytes, version);
        let size = if version >= 264 { 476 } else { 504 };
        assert_eq!(bytes.len(), size);
        let mut cursor = ByteCursor::new(bytes);
        let back = M2ParticleEmitter::parse(&mut cursor, version).unwrap();
        assert_eq!(back, e, "version {}", version);
        assert_eq!(cursor.position(), size);
    }
}

#[test]
fn write_layout_of_a_plain_emitter() {
    let mut e = sample(264);
    e.particle_color_index = None;
    e.lifespan_variation = None;
    e.child_emitter_filename = None;
    e.priority_plane = -2;
    e.emitter_type = M2ParticleEmitterType::Spline;
    let mut bytes = Vec::new();
    e.write(&mut bytes, 264);
    assert_eq!(&bytes[32..40], &[0u8; 8]);
    assert_eq!(bytes[41], 3);
    assert_eq!(&bytes[42..44], &[0, 0]);
    assert_eq!(&bytes[46..48], &[0xFE, 0xFF]);
    assert_eq!(&bytes[172..176], &[0, 0, 0, 0]);

    // Before WotLK the fake tracks are 48 zero bytes and the blending and
    // emitter types take two bytes each.
    // Tracks take 28 bytes, the empty interpolation ranges standing for none.
    let mut bytes = Vec::new();
    e.write(&mut bytes, 256);
    assert_eq!(bytes.len(), 504);
    assert_eq!(&bytes[40..44], &[e.blending_type, 0, 3, 0]);
    assert_eq!(&bytes[52..54], &e.emission_speed.interpolation_type.to_le_bytes());
    assert_eq!(&bytes[56..64], &[0u8; 8]);
    assert_eq!(&bytes[64..68], &e.emission_speed.timestamps.count.to_le_bytes());
    assert_eq!(&bytes[332..380], &[0u8; 48]);
    assert_eq!(&bytes[380..384], &e.tail_length.to_le_bytes());
    assert_eq!(&bytes[476..478], &e.enabled_in.interpolation_type.to_le_bytes());

    // From Cataclysm on the texture indices are packed and the scale bytes are zero.
    e.texture_indices = [1, 2, 3];
    e.particle_type = 9;
    let mut bytes = Vec::new();
    e.write(&mut bytes, 272);
    let raw = 1u16 | (2 << 5) | (3 << 10);
    assert_eq!(&bytes[22..24], &raw.to_le_bytes());
    assert_eq!(&bytes[44..46], &[0, 0]);
}

#[test]
fn convert_adds_and_drops_extension_fields() {
    let e = sample(264);
    let legion = e.convert(M2Version::Legion);
    assert_eq!(legion.fallback_model_filename, Some(M2Array::new(0, 0)));
    assert_eq!(legion.texture_file_data_ids, Some(M2Array::new(0, 0)));
    assert_eq!(legion.enable_encryption, Some(0));
    assert_eq!(legion.multi_texture_param0, None);
    assert_eq!(legion.particle_initial_state, Some(0));
    assert_eq!(legion.particle_convergence_time, Some(0));
    assert_eq!(legion.id, e.id);
    assert_eq!(legion.convert(M2Version::Legion), legion);

    let bfa = legion.convert(M2Version::BfA);
    assert_eq!(bfa.multi_texture_param0, Some([0, 0, 0, 0]));
    assert_eq!(bfa.multi_texture_param1, Some([0, 0, 0, 0]));

    let mut kept = legion;
    kept.fallback_model_filename = Some(M2Array::new(5, 6));
    assert_eq!(kept.convert(M2Version::Shadowlands).fallback_model_filename, Some(M2Array::new(5, 6)));

    let back = bfa.convert(M2Version::WotLK);
    assert_eq!(back, e);

    // Each missing field of the target version is added on its own.
    let mut partial = e;
    partial.fallback_model_filename = Some(M2Array::new(7, 8));
    partial.particle_initial_state = Some(3);
    partial.multi_texture_param0 = Some([1, 2, 3, 4]);
    let up = partial.convert(M2Version::BfA);
    assert_eq!(up.fallback_model_filename, Some(M2Array::new(7, 8)));
    assert_eq!(up.texture_file_data_ids, Some(M2Array::new(0, 0)));
    assert_eq!(up.particle_initial_state, Some(3));
    assert_eq!(up.particle_initial_state_variation, Some(0));
    assert_eq!(up.particle_convergence_time, Some(0));
    assert_eq!(up.multi_texture_param0, Some([1, 2, 3, 4]));
    assert_eq!(up.multi_texture_param1, Some([0, 0, 0, 0]));
    assert_eq!(bfa.convert(M2Version::WoD).enable_encryption, Some(0));
    assert_eq!(bfa.convert(M2Version::WoD).fallback_model_filename, None);
}

#[test]
fn header_versions() {
    assert_eq!(M2Version::from_header_version(256), Some(M2Version::Vanilla));
    assert_eq!(M2Version::from_header_version(263), Some(M2Version::TBC));
    assert_eq!(M2Version::from_header_version(264), Some(M2Version::WotLK));
    assert_eq!(M2Version::from_header_version(272), Some(M2Version::Cataclysm));
    assert_eq!(M2Version::from_header_version(273), Some(M2Version::WoD));
    assert_eq!(M2Version::from_header_version(274), Some(M2Version::Legion));
    assert_eq!(M2Version::from_header_version(258), None);
    assert!(M2Version::Legion.at_least(M2Version::WoD));
    assert!(!M2Version::WoD.at_least(M2Version::Legion));
}

#[test]
fn u16s_u32s_helpers_agree_with_cursor() {
    let mut data = Vec::new();
    u16s(&mut data, 0xBEEF);
    u32s(&mut data, 0xDEAD_BEEF);
    data.push(0x80);
    let mut cursor = ByteCursor::new(data);
    assert_eq!(cursor.read_u16_le(), Ok(0xBEEF));
    assert_eq!(cursor.read_u32_le(), Ok(0xDEAD_BEEF));
    assert_eq!(cursor.read_i16_le(), Err(M2Error::UnexpectedEof));
    assert_eq!(cursor.position(), 7);
    assert_eq!(cursor.read_u8(), Err(M2Error::UnexpectedEof));
}

#[test]
fn track_layout_by_version() {
    let track = M2AnimationBlock {
        interpolation_type: 2,
        global_sequence: -1,
        interpolation_ranges: None,
        timestamps: M2Array::new(3, 0x40),
        values: M2Array::new(3, 0x80),
    };
    // Before WotLK: 28 bytes, the empty ranges standing for none.
    let mut old = Vec::new();
    track.write_for(&mut old, 263);
    assert_eq!(old.len(), 28);
    assert_eq!(&old[4..12], &[0u8; 8]);
    assert_eq!(&old[12..16], &3u32.to_le_bytes());
    let mut cursor = ByteCursor::new(old);
    let back = M2AnimationBlock::parse_for(&mut cursor, 263).unwrap();
    assert_eq!(back.interpolation_ranges, Some(M2Array::new(0, 0)));
    assert_eq!(back.values, track.values);
    assert_eq!(cursor.position(), 28);
    // From WotLK on: 20 bytes, no ranges.
    let mut new = Vec::new();
    back.write_for(&mut new, 264);
    assert_eq!(new.len(), 20);
    let mut cursor = ByteCursor::new(new);
    assert_eq!(M2AnimationBlock::parse_for(&mut cursor, 264), Ok(track));
    // A cut track is an end-of-input error.
    let mut cursor = ByteCursor::new(vec![0u8; 27]);
    assert_eq!(M2AnimationBlock::parse_for(&mut cursor, 256), Err(M2Error::UnexpectedEof));
}
