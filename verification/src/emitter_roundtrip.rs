//! What reading gives back of what writing a particle emitter produced.
use vstd::prelude::*;

use crate::animation::{FakeAnimationBlock, M2AnimationBlock};
use crate::codec::{
    bits_of_i16, le_u32, lemma_concat_assoc, lemma_le_same_prefix, same_prefix, lemma_i16_bits, lemma_rest_after_rest_after,
    lemma_u16_roundtrip, lemma_u32_roundtrip, rest_after, u16_bytes, u32_bytes,
};
use crate::common::{C3Vector, M2Array};
use crate::error::M2Error;
use crate::particle_emitter::{
    is_bfa, is_cata, is_late_tbc, is_legion, is_wod, is_wotlk, texture_indices_of,
    texture_raw_of, unit_scale, M2ParticleEmitter, M2ParticleEmitterType,
};
use crate::particle_flags::M2ParticleFlags;

verus! {

/// What a record of `version` keeps of `e`: the emitter that reading back
/// what `e.write(.., version)` wrote gives. Fields that the version does not
/// store take the values that reading gives them.
pub open spec fn normalized(e: M2ParticleEmitter, version: u32) -> M2ParticleEmitter {
    let wotlk = is_wotlk(version);
    M2ParticleEmitter {
        texture_indices: texture_indices_of(texture_raw_of(e.texture_indices, version), version),
        child_emitter_filename: if wotlk {
            Some(e.child_or_empty())
        } else {
            None
        },
        particle_color_index: if is_late_tbc(version) {
            Some(
                match e.particle_color_index {
                    Some(c) => c,
                    None => 0,
                },
            )
        } else {
            None
        },
        particle_type: if is_cata(version) { 0 } else { e.particle_type },
        emission_speed: e.emission_speed.normalized_for(version),
        speed_variation: e.speed_variation.normalized_for(version),
        vertical_range: e.vertical_range.normalized_for(version),
        horizontal_range: e.horizontal_range.normalized_for(version),
        gravity: e.gravity.normalized_for(version),
        lifespan: e.lifespan.normalized_for(version),
        emission_rate: e.emission_rate.normalized_for(version),
        emission_area_width: e.emission_area_width.normalized_for(version),
        emission_area_length: e.emission_area_length.normalized_for(version),
        z_source: e.z_source.normalized_for(version),
        enabled_in: e.enabled_in.normalized_for(version),
        head_or_tail: if is_cata(version) { 0 } else { e.head_or_tail },
        lifespan_variation: if wotlk {
            Some(M2ParticleEmitter::bits_or_zero(e.lifespan_variation))
        } else {
            None
        },
        emission_rate_variation: if wotlk {
            Some(M2ParticleEmitter::bits_or_zero(e.emission_rate_variation))
        } else {
            None
        },
        color_track: if wotlk { e.color_track } else { FakeAnimationBlock::empty() },
        alpha_track: if wotlk { e.alpha_track } else { FakeAnimationBlock::empty() },
        scale_track: if wotlk { e.scale_track } else { FakeAnimationBlock::empty() },
        scale_vary: if wotlk { e.scale_vary } else { unit_scale() },
        head_uv_anim: if wotlk { e.head_uv_anim } else { FakeAnimationBlock::empty() },
        tail_uv_anim: if wotlk { e.tail_uv_anim } else { FakeAnimationBlock::empty() },
        legacy_spin: if wotlk {
            None
        } else {
            Some(M2ParticleEmitter::bits_or_zero(e.legacy_spin))
        },
        base_spin: if wotlk {
            Some(M2ParticleEmitter::bits_or_zero(e.base_spin))
        } else {
            None
        },
        base_spin_variation: if wotlk {
            Some(M2ParticleEmitter::bits_or_zero(e.base_spin_variation))
        } else {
            None
        },
        spin_speed: if wotlk {
            Some(M2ParticleEmitter::bits_or_zero(e.spin_speed))
        } else {
            None
        },
        spin_speed_variation: if wotlk {
            Some(M2ParticleEmitter::bits_or_zero(e.spin_speed_variation))
        } else {
            None
        },
        fallback_model_filename: None,
        texture_file_data_ids: None,
        enable_encryption: None,
        multi_texture_param0: None,
        multi_texture_param1: None,
        particle_initial_state: None,
        particle_initial_state_variation: None,
        particle_convergence_time: None,
        ..e
    }
}

proof fn lemma_identity(e: M2ParticleEmitter, version: u32, r: Seq<u8>)
    ensures
        !is_legion(version) ==> M2ParticleEmitter::identity_of(e.identity_bytes(version) + r, version) == (
            e.id,
            e.flags,
            e.position,
            e.bone_index,
            texture_indices_of(texture_raw_of(e.texture_indices, version), version),
            e.model_filename,
            normalized(e, version).child_emitter_filename,
            None::<M2Array>,
        ),
        (e.identity_bytes(version) + r).len() == 40 + r.len(),
        rest_after(e.identity_bytes(version) + r, 40) == r,
{
    reveal(M2ParticleEmitter::identity_of);
    let a1 = u32_bytes(e.id);
    let a2 = u32_bytes(e.flags.bits);
    let a3 = e.position.encode();
    let a4 = u16_bytes(e.bone_index);
    let a5 = u16_bytes(texture_raw_of(e.texture_indices, version));
    let a6 = e.model_filename.encode();
    let a7 = e.child_or_empty().encode();
    let s = e.identity_bytes(version) + r;
    lemma_u32_roundtrip(e.id, a2 + a3 + a4 + a5 + a6 + a7 + r);
    lemma_u32_roundtrip(e.flags.bits, a3 + a4 + a5 + a6 + a7 + r);
    e.position.lemma_roundtrip(a4 + a5 + a6 + a7 + r);
    lemma_u16_roundtrip(e.bone_index, a5 + a6 + a7 + r);
    lemma_u16_roundtrip(texture_raw_of(e.texture_indices, version), a6 + a7 + r);
    e.model_filename.lemma_roundtrip(a7 + r);
    e.child_or_empty().lemma_roundtrip(r);
    assert(s =~= a1 + (a2 + a3 + a4 + a5 + a6 + a7 + r));
    assert(s.skip(4) =~= a2 + (a3 + a4 + a5 + a6 + a7 + r));
    assert(s.skip(8) =~= a3 + (a4 + a5 + a6 + a7 + r));
    assert(s.skip(20) =~= a4 + (a5 + a6 + a7 + r));
    assert(s.skip(22) =~= a5 + (a6 + a7 + r));
    assert(s.skip(24) =~= a6 + (a7 + r));
    assert(s.skip(32) =~= a7 + r);
    assert(s.skip(40) =~= r);
    assert(M2ParticleFlags { bits: e.flags.bits } == e.flags);
}

proof fn lemma_kind(e: M2ParticleEmitter, version: u32, r: Seq<u8>)
    ensures
        !is_wod(version) ==> M2ParticleEmitter::kind_of(e.kind_bytes(version) + r, version) == (
            e.blending_type,
            e.emitter_type,
            normalized(e, version).particle_color_index,
            normalized(e, version).particle_type,
            normalized(e, version).head_or_tail,
            None::<M2Array>,
            None::<u8>,
            None::<[u8; 4]>,
            None::<[u8; 4]>,
        ),
        (e.kind_bytes(version) + r).len() == 6 + r.len(),
        rest_after(e.kind_bytes(version) + r, 6) == r,
{
    reveal(M2ParticleEmitter::kind_of);
    let s = e.kind_bytes(version) + r;
    let c = match e.particle_color_index {
        Some(c) => c,
        None => 0,
    };
    let tail: Seq<u8> = if is_cata(version) {
        seq![0u8, 0u8]
    } else {
        seq![e.particle_type, e.head_or_tail]
    };
    if is_late_tbc(version) {
        let a = seq![e.blending_type, e.emitter_type.code()];
        lemma_u16_roundtrip(c, tail + r);
        assert(s =~= a + (u16_bytes(c) + (tail + r)));
        assert(s.skip(2) =~= u16_bytes(c) + (tail + r));
    } else {
        let b16 = e.blending_type as u16;
        let t16 = e.emitter_type.code() as u16;
        lemma_u16_roundtrip(b16, u16_bytes(t16) + tail + r);
        lemma_u16_roundtrip(t16, tail + r);
        assert(s =~= u16_bytes(b16) + (u16_bytes(t16) + tail + r));
        assert(s.skip(2) =~= u16_bytes(t16) + (tail + r));
    }
    assert(s.skip(6) =~= r);
}

proof fn lemma_dimensions(e: M2ParticleEmitter, r: Seq<u8>)
    ensures
        M2ParticleEmitter::dimensions_of(e.dimensions_bytes() + r) == (
            e.priority_plane,
            e.texture_dimensions_rows,
            e.texture_dimensions_columns,
        ),
        (e.dimensions_bytes() + r).len() == 6 + r.len(),
        rest_after(e.dimensions_bytes() + r, 6) == r,
{
    reveal(M2ParticleEmitter::dimensions_of);
    let a = u16_bytes(bits_of_i16(e.priority_plane));
    let b = u16_bytes(e.texture_dimensions_rows);
    let c = u16_bytes(e.texture_dimensions_columns);
    let s = e.dimensions_bytes() + r;
    lemma_u16_roundtrip(bits_of_i16(e.priority_plane), b + c + r);
    lemma_u16_roundtrip(e.texture_dimensions_rows, c + r);
    lemma_u16_roundtrip(e.texture_dimensions_columns, r);
    lemma_i16_bits(e.priority_plane, 0);
    assert(s =~= a + (b + c + r));
    assert(s.skip(2) =~= b + (c + r));
    assert(s.skip(4) =~= c + r);
    assert(s.skip(6) =~= r);
}

/// A fail-safe read of a track that was written gives what the version keeps
/// of that track back.
proof fn lemma_block(b: M2AnimationBlock, version: u32, r: Seq<u8>)
    ensures
        M2AnimationBlock::decode_or_zero_for(b.encode_for(version) + r, version)
            == b.normalized_for(version),
        (b.encode_for(version) + r).len() == M2AnimationBlock::size_for(version) + r.len(),
        rest_after(b.encode_for(version) + r, M2AnimationBlock::size_for(version)) == r,
{
    b.lemma_roundtrip_for(version, r);
}

proof fn lemma_lead_tracks(e: M2ParticleEmitter, version: u32, r: Seq<u8>)
    ensures
        ({
            let s = e.lead_tracks_bytes(version) + r;
            let n = M2AnimationBlock::size_for(version);
            &&& M2AnimationBlock::decode_or_zero_for(s, version) == e.emission_speed.normalized_for(
                version,
            )
            &&& M2AnimationBlock::decode_or_zero_for(rest_after(s, n), version)
                == e.speed_variation.normalized_for(version)
            &&& M2AnimationBlock::decode_or_zero_for(rest_after(s, 2 * n), version)
                == e.vertical_range.normalized_for(version)
            &&& M2AnimationBlock::decode_or_zero_for(rest_after(s, 3 * n), version)
                == e.horizontal_range.normalized_for(version)
            &&& M2AnimationBlock::decode_or_zero_for(rest_after(s, 4 * n), version)
                == e.gravity.normalized_for(version)
            &&& M2AnimationBlock::decode_or_zero_for(rest_after(s, 5 * n), version)
                == e.lifespan.normalized_for(version)
            &&& s.len() == 6 * n + r.len()
            &&& rest_after(s, 6 * n) == r
        }),
{
    let n = M2AnimationBlock::size_for(version);
    let a = e.emission_speed.encode_for(version);
    let b = e.speed_variation.encode_for(version);
    let c = e.vertical_range.encode_for(version);
    let d = e.horizontal_range.encode_for(version);
    let f = e.gravity.encode_for(version);
    let g = e.lifespan.encode_for(version);
    let s = e.lead_tracks_bytes(version) + r;
    lemma_block(e.emission_speed, version, b + c + d + f + g + r);
    lemma_block(e.speed_variation, version, c + d + f + g + r);
    lemma_block(e.vertical_range, version, d + f + g + r);
    lemma_block(e.horizontal_range, version, f + g + r);
    lemma_block(e.gravity, version, g + r);
    lemma_block(e.lifespan, version, r);
    assert(s =~= a + (b + c + d + f + g + r));
    assert(s.skip(n) =~= b + (c + d + f + g + r));
    assert(s.skip(2 * n) =~= c + (d + f + g + r));
    assert(s.skip(3 * n) =~= d + (f + g + r));
    assert(s.skip(4 * n) =~= f + (g + r));
    assert(s.skip(5 * n) =~= g + r);
    assert(s.skip(6 * n) =~= r);
}

proof fn lemma_rate(e: M2ParticleEmitter, version: u32, r: Seq<u8>)
    ensures
        ({
            let s = e.rate_bytes(version) + r;
            &&& is_wotlk(version) ==> (s.len() >= 4 && le_u32(s) == M2ParticleEmitter::bits_or_zero(
                e.lifespan_variation,
            ))
            &&& M2AnimationBlock::decode_or_zero_for(
                rest_after(s, if is_wotlk(version) { 4int } else { 0int }),
                version,
            ) == e.emission_rate.normalized_for(version)
            &&& is_wotlk(version) ==> (rest_after(s, 24).len() >= 4 && le_u32(rest_after(s, 24))
                == M2ParticleEmitter::bits_or_zero(e.emission_rate_variation))
            &&& s.len() == 28 + r.len()
            &&& rest_after(s, 28) == r
        }),
{
    let s = e.rate_bytes(version) + r;
    let b = e.emission_rate.encode_for(version);
    if is_wotlk(version) {
        let a = u32_bytes(M2ParticleEmitter::bits_or_zero(e.lifespan_variation));
        let c = u32_bytes(M2ParticleEmitter::bits_or_zero(e.emission_rate_variation));
        lemma_u32_roundtrip(M2ParticleEmitter::bits_or_zero(e.lifespan_variation), b + c + r);
        lemma_block(e.emission_rate, version, c + r);
        lemma_u32_roundtrip(M2ParticleEmitter::bits_or_zero(e.emission_rate_variation), r);
        assert(s =~= a + (b + c + r));
        assert(s.skip(4) =~= b + (c + r));
        assert(s.skip(24) =~= c + r);
        assert(s.skip(28) =~= r);
    } else {
        lemma_block(e.emission_rate, version, r);
        assert(s.skip(0) =~= s);
    }
}

proof fn lemma_area(e: M2ParticleEmitter, version: u32, r: Seq<u8>)
    ensures
        ({
            let s = e.area_bytes(version) + r;
            let n = M2AnimationBlock::size_for(version);
            &&& M2AnimationBlock::decode_or_zero_for(s, version)
                == e.emission_area_width.normalized_for(version)
            &&& M2AnimationBlock::decode_or_zero_for(rest_after(s, n), version)
                == e.emission_area_length.normalized_for(version)
            &&& M2AnimationBlock::decode_or_zero_for(rest_after(s, 2 * n), version)
                == e.z_source.normalized_for(version)
            &&& s.len() == 3 * n + r.len()
            &&& rest_after(s, 3 * n) == r
        }),
{
    let n = M2AnimationBlock::size_for(version);
    let a = e.emission_area_width.encode_for(version);
    let b = e.emission_area_length.encode_for(version);
    let c = e.z_source.encode_for(version);
    let s = e.area_bytes(version) + r;
    lemma_block(e.emission_area_width, version, b + c + r);
    lemma_block(e.emission_area_length, version, c + r);
    lemma_block(e.z_source, version, r);
    assert(s =~= a + (b + c + r));
    assert(s.skip(n) =~= b + (c + r));
    assert(s.skip(2 * n) =~= c + r);
    assert(s.skip(3 * n) =~= r);
}

proof fn lemma_tracks(e: M2ParticleEmitter, version: u32, r: Seq<u8>)
    ensures
        M2ParticleEmitter::tracks_of(e.tracks_bytes(version) + r, version) == (
            normalized(e, version).emission_speed,
            normalized(e, version).speed_variation,
            normalized(e, version).vertical_range,
            normalized(e, version).horizontal_range,
            normalized(e, version).gravity,
            normalized(e, version).lifespan,
            normalized(e, version).lifespan_variation,
            normalized(e, version).emission_rate,
            normalized(e, version).emission_rate_variation,
            normalized(e, version).emission_area_width,
            normalized(e, version).emission_area_length,
            normalized(e, version).z_source,
        ),
        (e.tracks_bytes(version) + r).len() == M2ParticleEmitter::tracks_size(version) + r.len(),
        rest_after(e.tracks_bytes(version) + r, M2ParticleEmitter::tracks_size(version)) == r,
{
    reveal(M2ParticleEmitter::tracks_of);
    let n = M2AnimationBlock::size_for(version);
    let l = e.lead_tracks_bytes(version);
    let m = e.rate_bytes(version);
    let a = e.area_bytes(version);
    let s = e.tracks_bytes(version) + r;
    lemma_lead_tracks(e, version, m + a + r);
    lemma_rate(e, version, a + r);
    lemma_area(e, version, r);
    assert(s =~= l + (m + a + r));
    let rm = m + a + r;
    let ra = a + r;
    // Offsets inside the rate part and the area part, counted from the start.
    assert(rest_after(s, 6 * n) == rm);
    lemma_rest_after_rest_after(s, 6 * n, 4);
    lemma_rest_after_rest_after(s, 6 * n, 0);
    lemma_rest_after_rest_after(s, 6 * n, 24);
    lemma_rest_after_rest_after(s, 6 * n, 28);
    assert(rm =~= m + (a + r));
    assert(rest_after(rm, 28) == ra);
    lemma_rest_after_rest_after(s, 6 * n + 28, n);
    lemma_rest_after_rest_after(s, 6 * n + 28, 2 * n);
    lemma_rest_after_rest_after(s, 6 * n + 28, 3 * n);
    lemma_rest_after_rest_after(rm, 0, 0);
    assert(rest_after(rm, 0) == rm);
    assert(ra =~= a + r);
}

proof fn lemma_fake(e: M2ParticleEmitter, version: u32, r: Seq<u8>)
    ensures
        M2ParticleEmitter::fake_tracks_of(e.fake_bytes(version) + r, version) == (
            normalized(e, version).color_track,
            normalized(e, version).alpha_track,
            normalized(e, version).scale_track,
            normalized(e, version).scale_vary,
            normalized(e, version).head_uv_anim,
            normalized(e, version).tail_uv_anim,
        ),
        (e.fake_bytes(version) + r).len() == M2ParticleEmitter::fake_size(version) + r.len(),
        rest_after(e.fake_bytes(version) + r, M2ParticleEmitter::fake_size(version)) == r,
{
    reveal(M2ParticleEmitter::fake_tracks_of);
    let s = e.fake_bytes(version) + r;
    if is_wotlk(version) {
        let a = e.color_track.encode();
        let b = e.alpha_track.encode();
        let c = e.scale_track.encode();
        let d = e.scale_vary.encode();
        let f = e.head_uv_anim.encode();
        let g = e.tail_uv_anim.encode();
        e.color_track.lemma_roundtrip(b + c + d + f + g + r);
        e.alpha_track.lemma_roundtrip(c + d + f + g + r);
        e.scale_track.lemma_roundtrip(d + f + g + r);
        e.scale_vary.lemma_roundtrip(f + g + r);
        e.head_uv_anim.lemma_roundtrip(g + r);
        e.tail_uv_anim.lemma_roundtrip(r);
        assert(s =~= a + (b + c + d + f + g + r));
        assert(s.skip(16) =~= b + (c + d + f + g + r));
        assert(s.skip(32) =~= c + (d + f + g + r));
        assert(s.skip(48) =~= d + (f + g + r));
        assert(s.skip(56) =~= f + (g + r));
        assert(s.skip(72) =~= g + r);
        assert(s.skip(88) =~= r);
    } else {
        assert(s.skip(48) =~= r);
    }
}

proof fn lemma_params(e: M2ParticleEmitter, r: Seq<u8>)
    ensures
        M2ParticleEmitter::render_params_of(e.params_bytes() + r) == (
            e.tail_length,
            e.twinkle_speed,
            e.twinkle_percent,
            e.twinkle_scale_min,
            e.twinkle_scale_max,
            e.inherit_velocity_scale,
            e.drag,
        ),
        (e.params_bytes() + r).len() == 28 + r.len(),
        rest_after(e.params_bytes() + r, 28) == r,
{
    reveal(M2ParticleEmitter::render_params_of);
    let a = u32_bytes(e.tail_length);
    let b = u32_bytes(e.twinkle_speed);
    let c = u32_bytes(e.twinkle_percent);
    let d = u32_bytes(e.twinkle_scale_min);
    let f = u32_bytes(e.twinkle_scale_max);
    let g = u32_bytes(e.inherit_velocity_scale);
    let h = u32_bytes(e.drag);
    let s = e.params_bytes() + r;
    lemma_u32_roundtrip(e.tail_length, b + c + d + f + g + h + r);
    lemma_u32_roundtrip(e.twinkle_speed, c + d + f + g + h + r);
    lemma_u32_roundtrip(e.twinkle_percent, d + f + g + h + r);
    lemma_u32_roundtrip(e.twinkle_scale_min, f + g + h + r);
    lemma_u32_roundtrip(e.twinkle_scale_max, g + h + r);
    lemma_u32_roundtrip(e.inherit_velocity_scale, h + r);
    lemma_u32_roundtrip(e.drag, r);
    assert(s =~= a + (b + c + d + f + g + h + r));
    assert(s.skip(4) =~= b + (c + d + f + g + h + r));
    assert(s.skip(8) =~= c + (d + f + g + h + r));
    assert(s.skip(12) =~= d + (f + g + h + r));
    assert(s.skip(16) =~= f + (g + h + r));
    assert(s.skip(20) =~= g + (h + r));
    assert(s.skip(24) =~= h + r);
    assert(s.skip(28) =~= r);
}

proof fn lemma_spin(e: M2ParticleEmitter, version: u32, r: Seq<u8>)
    ensures
        M2ParticleEmitter::spin_of(e.spin_bytes(version) + r, version) == (
            normalized(e, version).legacy_spin,
            normalized(e, version).base_spin,
            normalized(e, version).base_spin_variation,
            normalized(e, version).spin_speed,
            normalized(e, version).spin_speed_variation,
        ),
        (e.spin_bytes(version) + r).len() == M2ParticleEmitter::spin_size(version) + r.len(),
        rest_after(e.spin_bytes(version) + r, M2ParticleEmitter::spin_size(version)) == r,
{
    reveal(M2ParticleEmitter::spin_of);
    let s = e.spin_bytes(version) + r;
    if is_wotlk(version) {
        let va = M2ParticleEmitter::bits_or_zero(e.base_spin);
        let vb = M2ParticleEmitter::bits_or_zero(e.base_spin_variation);
        let vc = M2ParticleEmitter::bits_or_zero(e.spin_speed);
        let vd = M2ParticleEmitter::bits_or_zero(e.spin_speed_variation);
        let a = u32_bytes(va);
        let b = u32_bytes(vb);
        let c = u32_bytes(vc);
        let d = u32_bytes(vd);
        lemma_u32_roundtrip(va, b + c + d + r);
        lemma_u32_roundtrip(vb, c + d + r);
        lemma_u32_roundtrip(vc, d + r);
        lemma_u32_roundtrip(vd, r);
        assert(s =~= a + (b + c + d + r));
        assert(s.skip(4) =~= b + (c + d + r));
        assert(s.skip(8) =~= c + (d + r));
        assert(s.skip(12) =~= d + r);
        assert(s.skip(16) =~= r);
    } else {
        lemma_u32_roundtrip(M2ParticleEmitter::bits_or_zero(e.legacy_spin), r);
    }
}

#[verifier::rlimit(40)]
proof fn lemma_motion(e: M2ParticleEmitter, version: u32, r: Seq<u8>)
    ensures
        M2ParticleEmitter::motion_of(e.motion_bytes(version) + r, version) == (
            e.tumble_min,
            e.tumble_max,
            e.wind_vector,
            e.wind_time,
            e.follow_speed1,
            e.follow_scale1,
            e.follow_speed2,
            e.follow_scale2,
            e.spline_points,
            e.enabled_in.normalized_for(version),
        ),
        (e.motion_bytes(version) + r).len() == M2ParticleEmitter::motion_size(version) + r.len(),
        rest_after(e.motion_bytes(version) + r, M2ParticleEmitter::motion_size(version)) == r,
{
    reveal(M2ParticleEmitter::motion_of);
    let a = e.tumble_min.encode();
    let b = e.tumble_max.encode();
    let c = e.wind_vector.encode();
    let d = u32_bytes(e.wind_time);
    let f = u32_bytes(e.follow_speed1);
    let g = u32_bytes(e.follow_scale1);
    let h = u32_bytes(e.follow_speed2);
    let i = u32_bytes(e.follow_scale2);
    let j = e.spline_points.encode();
    let k = e.enabled_in.encode_for(version);
    let s = e.motion_bytes(version) + r;
    e.tumble_min.lemma_roundtrip(b + c + d + f + g + h + i + j + k + r);
    e.tumble_max.lemma_roundtrip(c + d + f + g + h + i + j + k + r);
    e.wind_vector.lemma_roundtrip(d + f + g + h + i + j + k + r);
    lemma_u32_roundtrip(e.wind_time, f + g + h + i + j + k + r);
    lemma_u32_roundtrip(e.follow_speed1, g + h + i + j + k + r);
    lemma_u32_roundtrip(e.follow_scale1, h + i + j + k + r);
    lemma_u32_roundtrip(e.follow_speed2, i + j + k + r);
    lemma_u32_roundtrip(e.follow_scale2, j + k + r);
    e.spline_points.lemma_roundtrip(k + r);
    lemma_block(e.enabled_in, version, r);
    assert(s =~= a + (b + c + d + f + g + h + i + j + k + r));
    assert(s.skip(12) =~= b + (c + d + f + g + h + i + j + k + r));
    assert(s.skip(24) =~= c + (d + f + g + h + i + j + k + r));
    assert(s.skip(36) =~= d + (f + g + h + i + j + k + r));
    assert(s.skip(40) =~= f + (g + h + i + j + k + r));
    assert(s.skip(44) =~= g + (h + i + j + k + r));
    assert(s.skip(48) =~= h + (i + j + k + r));
    assert(s.skip(52) =~= i + (j + k + r));
    assert(s.skip(56) =~= j + (k + r));
    assert(s.skip(64) =~= k + r);
    assert(s.skip(M2ParticleEmitter::motion_size(version)) =~= r);
}

/// Writing an emitter for a version before Warlords of Draenor and reading
/// the bytes back with the same version gives what that version keeps of the
/// emitter, and the read consumes exactly the bytes written.
pub proof fn lemma_write_then_parse(e: M2ParticleEmitter, version: u32, rest: Seq<u8>)
    requires
        !is_wod(version),
    ensures
        e.encode(version).len() == M2ParticleEmitter::record_size(version),
        M2ParticleEmitter::parsed(e.encode(version) + rest, version) == Ok::<
            M2ParticleEmitter,
            M2Error,
        >(normalized(e, version)),
        rest_after(e.encode(version) + rest, M2ParticleEmitter::record_size(version)) == rest,
{
    let a = e.identity_bytes(version);
    let b = e.kind_bytes(version);
    let c = e.dimensions_bytes();
    let d = e.tracks_bytes(version);
    let f = e.fake_bytes(version);
    let g = e.params_bytes();
    let h = e.spin_bytes(version);
    let i = e.motion_bytes(version);
    let s = e.encode(version) + rest;
    assert(!is_legion(version) && !is_bfa(version));
    // The record, nested to the right: each part followed by all that follows it.
    let ti = i + rest;
    let th = h + ti;
    let tg = g + th;
    let tf = f + tg;
    let td = d + tf;
    let tc = c + td;
    let tb = b + tc;
    lemma_concat_assoc(a + b + c + d + f + g + h, i, rest);
    lemma_concat_assoc(a + b + c + d + f + g, h, ti);
    lemma_concat_assoc(a + b + c + d + f, g, th);
    lemma_concat_assoc(a + b + c + d, f, tg);
    lemma_concat_assoc(a + b + c, d, tf);
    lemma_concat_assoc(a + b, c, td);
    lemma_concat_assoc(a, b, tc);
    assert(s == a + tb);
    lemma_identity(e, version, tb);
    lemma_kind(e, version, tc);
    lemma_dimensions(e, td);
    lemma_tracks(e, version, tf);
    lemma_fake(e, version, tg);
    lemma_params(e, th);
    lemma_spin(e, version, ti);
    lemma_motion(e, version, rest);
    reveal(M2ParticleEmitter::closing_of);
    let ts = M2ParticleEmitter::tracks_size(version);
    let fs = M2ParticleEmitter::fake_size(version);
    let ss = M2ParticleEmitter::spin_size(version);
    lemma_rest_after_rest_after(s, 40, 6);
    lemma_rest_after_rest_after(s, 46, 6);
    lemma_rest_after_rest_after(s, 52, ts);
    lemma_rest_after_rest_after(s, 52 + ts, fs);
    lemma_rest_after_rest_after(s, 52 + ts + fs, 28);
    lemma_rest_after_rest_after(s, 80 + ts + fs, ss);
    lemma_rest_after_rest_after(s, 80 + ts + fs + ss, M2ParticleEmitter::motion_size(version));
    assert(rest_after(s, 52) == td);
    assert(M2ParticleEmitterType::of_code_or_point(e.emitter_type.code()) == e.emitter_type);
}


/// Whatever the version, `write` appends the number of bytes that the
/// version's layout without the Legion, WoD and BfA fields takes.
pub proof fn lemma_written_size(e: M2ParticleEmitter, version: u32)
    ensures
        e.encode(version).len() == M2ParticleEmitter::written_size(version),
{
    let z = Seq::<u8>::empty();
    lemma_identity(e, version, z);
    lemma_kind(e, version, z);
    lemma_dimensions(e, z);
    lemma_tracks(e, version, z);
    lemma_fake(e, version, z);
    lemma_params(e, z);
    lemma_spin(e, version, z);
    lemma_motion(e, version, z);
    assert(e.identity_bytes(version) + z =~= e.identity_bytes(version));
    assert(e.kind_bytes(version) + z =~= e.kind_bytes(version));
    assert(e.dimensions_bytes() + z =~= e.dimensions_bytes());
    assert(e.tracks_bytes(version) + z =~= e.tracks_bytes(version));
    assert(e.fake_bytes(version) + z =~= e.fake_bytes(version));
    assert(e.params_bytes() + z =~= e.params_bytes());
    assert(e.spin_bytes(version) + z =~= e.spin_bytes(version));
    assert(e.motion_bytes(version) + z =~= e.motion_bytes(version));
}

/// Texture indices that the version can hold come back unchanged from
/// packing and unpacking: from Cataclysm on, three indices below 32; before,
/// one index with the other two zero.
pub proof fn lemma_texture_indices_roundtrip(indices: [u16; 3], version: u32)
    requires
        is_cata(version) ==> indices[0] < 32 && indices[1] < 32 && indices[2] < 32,
        !is_cata(version) ==> indices[1] == 0 && indices[2] == 0,
    ensures
        texture_indices_of(texture_raw_of(indices, version), version) == indices,
{
    if is_cata(version) {
        let a = indices[0];
        let b = indices[1];
        let c = indices[2];
        assert(((a | (b << 5u16) | (c << 10u16)) & 0x1F) == a && (((a | (b << 5u16) | (c
            << 10u16)) >> 5u16) & 0x1F) == b && (((a | (b << 5u16) | (c << 10u16)) >> 10u16)
            & 0x1F) == c) by (bit_vector)
            requires
                a < 32,
                b < 32,
                c < 32,
        ;
        assert(texture_indices_of(texture_raw_of(indices, version), version)@ =~= indices@);
    } else {
        assert(texture_indices_of(texture_raw_of(indices, version), version)@ =~= indices@);
    }
}

/// Whether `s1` and `s2` have one length and agree outside the bytes `lo..hi`.
pub open spec fn agree_outside(s1: Seq<u8>, s2: Seq<u8>, lo: int, hi: int) -> bool {
    &&& s1.len() == s2.len()
    &&& forall|i: int| 0 <= i < s1.len() && !(lo <= i < hi) ==> #[trigger] s1[i] == s2[i]
}

proof fn lemma_prefix_at(s1: Seq<u8>, s2: Seq<u8>, lo: int, hi: int, o: int, n: int)
    requires
        agree_outside(s1, s2, lo, hi),
        0 <= o,
        0 <= n,
        o + n <= lo,
        o + n <= s1.len(),
    ensures
        same_prefix(rest_after(s1, o), rest_after(s2, o), n),
        same_prefix(s1.skip(o), s2.skip(o), n),
{
    assert forall|i: int| 0 <= i < n implies #[trigger] rest_after(s1, o)[i] == rest_after(s2, o)[i] by {
        assert(s1[o + i] == s2[o + i]);
    }
}

proof fn lemma_block_at(s1: Seq<u8>, s2: Seq<u8>, lo: int, hi: int, o: int, version: u32)
    requires
        agree_outside(s1, s2, lo, hi),
        0 <= o,
        o + M2AnimationBlock::size_for(version) <= lo,
    ensures
        M2AnimationBlock::decode_or_zero_for(rest_after(s1, o), version)
            == M2AnimationBlock::decode_or_zero_for(rest_after(s2, o), version),
{
    let n = M2AnimationBlock::size_for(version);
    if o + n <= s1.len() {
        lemma_prefix_at(s1, s2, lo, hi, o, n);
        M2AnimationBlock::lemma_same_prefix_for(rest_after(s1, o), rest_after(s2, o), version);
    }
}

/// Before WotLK, the 48 bytes after the tracks stand in for the fake tracks:
/// what they hold changes nothing that parsing gives, and the fake tracks and
/// the scale variation take their defaults.
pub proof fn lemma_gap_ignored(s1: Seq<u8>, s2: Seq<u8>, version: u32)
    requires
        !is_wotlk(version),
        agree_outside(
            s1,
            s2,
            M2ParticleEmitter::header_size(version) + M2ParticleEmitter::tracks_size(version),
            M2ParticleEmitter::header_size(version) + M2ParticleEmitter::tracks_size(version) + 48,
        ),
    ensures
        M2ParticleEmitter::parsed(s1, version) == M2ParticleEmitter::parsed(s2, version),
        M2ParticleEmitter::parsed(s1, version) matches Ok(e) ==> {
            &&& e.color_track == FakeAnimationBlock::empty()
            &&& e.alpha_track == FakeAnimationBlock::empty()
            &&& e.scale_track == FakeAnimationBlock::empty()
            &&& e.scale_vary == unit_scale()
            &&& e.head_uv_anim == FakeAnimationBlock::empty()
            &&& e.tail_uv_anim == FakeAnimationBlock::empty()
        },
{
    reveal(M2ParticleEmitter::identity_of);
    reveal(M2ParticleEmitter::kind_of);
    reveal(M2ParticleEmitter::dimensions_of);
    reveal(M2ParticleEmitter::tracks_of);
    reveal(M2ParticleEmitter::fake_tracks_of);
    reveal(M2ParticleEmitter::closing_of);
    assert(!is_legion(version) && !is_wod(version) && !is_bfa(version));
    let lo = 332int;
    let hi = 380int;
    if s1.len() >= 52 {
        // The header: identity, kind and dimensions.
        lemma_prefix_at(s1, s2, lo, hi, 0, 4);
        lemma_le_same_prefix(s1, s2);
        lemma_prefix_at(s1, s2, lo, hi, 4, 4);
        lemma_le_same_prefix(s1.skip(4), s2.skip(4));
        lemma_prefix_at(s1, s2, lo, hi, 8, 12);
        C3Vector::lemma_same_prefix(s1.skip(8), s2.skip(8));
        lemma_prefix_at(s1, s2, lo, hi, 20, 2);
        lemma_le_same_prefix(s1.skip(20), s2.skip(20));
        lemma_prefix_at(s1, s2, lo, hi, 22, 2);
        lemma_le_same_prefix(s1.skip(22), s2.skip(22));
        lemma_prefix_at(s1, s2, lo, hi, 24, 8);
        M2Array::lemma_same_prefix(s1.skip(24), s2.skip(24));
        assert(M2ParticleEmitter::identity_of(s1, version) == M2ParticleEmitter::identity_of(
            s2,
            version,
        ));
        let k1 = rest_after(s1, 40);
        let k2 = rest_after(s2, 40);
        lemma_prefix_at(s1, s2, lo, hi, 40, 6);
        lemma_le_same_prefix(k1, k2);
        assert(same_prefix(k1.skip(2), k2.skip(2), 2)) by {
            assert forall|i: int| 0 <= i < 2 implies #[trigger] k1.skip(2)[i] == k2.skip(2)[i] by {
                assert(k1[2 + i] == k2[2 + i]);
            }
        }
        lemma_le_same_prefix(k1.skip(2), k2.skip(2));
        assert(k1[0] == k2[0] && k1[1] == k2[1] && k1[4] == k2[4] && k1[5] == k2[5]);
        assert(M2ParticleEmitter::kind_of(k1, version) == M2ParticleEmitter::kind_of(k2, version));
        let p1 = rest_after(s1, 46);
        let p2 = rest_after(s2, 46);
        lemma_prefix_at(s1, s2, lo, hi, 46, 6);
        lemma_le_same_prefix(p1, p2);
        assert(same_prefix(p1.skip(2), p2.skip(2), 2)) by {
            assert forall|i: int| 0 <= i < 2 implies #[trigger] p1.skip(2)[i] == p2.skip(2)[i] by {
                assert(p1[2 + i] == p2[2 + i]);
            }
        }
        assert(same_prefix(p1.skip(4), p2.skip(4), 2)) by {
            assert forall|i: int| 0 <= i < 2 implies #[trigger] p1.skip(4)[i] == p2.skip(4)[i] by {
                assert(p1[4 + i] == p2[4 + i]);
            }
        }
        lemma_le_same_prefix(p1.skip(2), p2.skip(2));
        lemma_le_same_prefix(p1.skip(4), p2.skip(4));
        assert(M2ParticleEmitter::dimensions_of(p1) == M2ParticleEmitter::dimensions_of(p2));
        // The tracks, twenty-eight bytes each.
        let t1 = rest_after(s1, 52);
        let t2 = rest_after(s2, 52);
        lemma_rest_after_rest_after(s1, 52, 0);
        lemma_rest_after_rest_after(s2, 52, 0);
        assert(rest_after(t1, 0) == t1 && rest_after(t2, 0) == t2);
        lemma_block_at(s1, s2, lo, hi, 52, version);
        lemma_rest_after_rest_after(s1, 52, 28);
        lemma_rest_after_rest_after(s2, 52, 28);
        lemma_block_at(s1, s2, lo, hi, 80, version);
        lemma_rest_after_rest_after(s1, 52, 56);
        lemma_rest_after_rest_after(s2, 52, 56);
        lemma_block_at(s1, s2, lo, hi, 108, version);
        lemma_rest_after_rest_after(s1, 52, 84);
        lemma_rest_after_rest_after(s2, 52, 84);
        lemma_block_at(s1, s2, lo, hi, 136, version);
        lemma_rest_after_rest_after(s1, 52, 112);
        lemma_rest_after_rest_after(s2, 52, 112);
        lemma_block_at(s1, s2, lo, hi, 164, version);
        lemma_rest_after_rest_after(s1, 52, 140);
        lemma_rest_after_rest_after(s2, 52, 140);
        lemma_block_at(s1, s2, lo, hi, 192, version);
        lemma_rest_after_rest_after(s1, 52, 168);
        lemma_rest_after_rest_after(s2, 52, 168);
        lemma_block_at(s1, s2, lo, hi, 220, version);
        lemma_rest_after_rest_after(s1, 52, 196);
        lemma_rest_after_rest_after(s2, 52, 196);
        lemma_block_at(s1, s2, lo, hi, 248, version);
        lemma_rest_after_rest_after(s1, 52, 224);
        lemma_rest_after_rest_after(s2, 52, 224);
        lemma_block_at(s1, s2, lo, hi, 276, version);
        lemma_rest_after_rest_after(s1, 52, 252);
        lemma_rest_after_rest_after(s2, 52, 252);
        lemma_block_at(s1, s2, lo, hi, 304, version);
        assert(M2ParticleEmitter::tracks_of(t1, version) == M2ParticleEmitter::tracks_of(
            t2,
            version,
        ));
        // All after the gap is the same in both.
        lemma_rest_after_rest_after(s1, 52, 280);
        lemma_rest_after_rest_after(s2, 52, 280);
        lemma_rest_after_rest_after(s1, 332, 48);
        lemma_rest_after_rest_after(s2, 332, 48);
        if 380 <= s1.len() {
            assert(s1.skip(380) =~= s2.skip(380)) by {
                assert forall|i: int| 0 <= i < s1.len() - 380 implies #[trigger] s1.skip(380)[i]
                    == s2.skip(380)[i] by {
                    assert(s1[380 + i] == s2[380 + i]);
                }
            }
        }
        assert(rest_after(s1, 380) == rest_after(s2, 380));
    }
}

} // verus!
