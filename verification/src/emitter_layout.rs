//! Where each field of a particle emitter stands in a record, for reading
//! and for writing, byte by byte.
use vstd::prelude::*;

use crate::animation::{
    fake_track_bytes, reads_fake_track_at, reads_track_at_for, track_bytes_for,
    FakeAnimationBlock, M2AnimationBlock,
};
use crate::codec::{
    bits_of_i16, i16_of_bits, le_u16, le_u32, lemma_le_values, lemma_rest_after_rest_after,
    low_byte, rest_after, u16_bytes, u32_bytes,
};
use crate::common::{C2Vector, C3Vector, M2Array};
use crate::error::M2Error;
use crate::particle_emitter::{
    is_bfa, is_cata, is_late_tbc, is_legion, is_wod, is_wotlk, texture_indices_of,
    texture_raw_of, unit_scale, M2ParticleEmitter, M2ParticleEmitterType,
};

verus! {

/// What is left of `s` after `a` bytes, after `b` more, is `s` after `a + b`.
proof fn lemma_skip_at(s: Seq<u8>, a: int, b: int)
    requires
        0 <= a,
        0 <= b,
        a + b <= s.len(),
    ensures
        rest_after(s, a) == s.skip(a),
        rest_after(s.skip(a), b) == s.skip(a + b),
        rest_after(rest_after(s, a), b) == s.skip(a + b),
{
    assert(s.skip(a).skip(b) =~= s.skip(a + b));
}

/// The sections of a whole record of `version` start where the layout puts
/// them: the tracks after the header, then the fake tracks, the render
/// parameters, the spin values, the motion values and the closing values.
proof fn lemma_sections(s: Seq<u8>, version: u32)
    requires
        s.len() >= M2ParticleEmitter::record_size(version),
    ensures
        ({
            let h = M2ParticleEmitter::header_size(version);
            let f = h + M2ParticleEmitter::tracks_size(version);
            let p = f + M2ParticleEmitter::fake_size(version);
            let sp = p + 28;
            let m = sp + M2ParticleEmitter::spin_size(version);
            let c = m + M2ParticleEmitter::motion_size(version);
            let t = rest_after(s, h);
            let ff = rest_after(t, M2ParticleEmitter::tracks_size(version));
            let q = rest_after(ff, M2ParticleEmitter::fake_size(version));
            let ssp = rest_after(q, 28);
            let w = rest_after(ssp, M2ParticleEmitter::spin_size(version));
            let x = rest_after(w, M2ParticleEmitter::motion_size(version));
            &&& t == s.skip(h)
            &&& ff == s.skip(f)
            &&& q == s.skip(p)
            &&& ssp == s.skip(sp)
            &&& w == s.skip(m)
            &&& x == s.skip(c)
            &&& c <= s.len()
        }),
{
    let h = M2ParticleEmitter::header_size(version);
    let f = h + M2ParticleEmitter::tracks_size(version);
    let p = f + M2ParticleEmitter::fake_size(version);
    let sp = p + 28;
    let m = sp + M2ParticleEmitter::spin_size(version);
    lemma_rest_after_rest_after(s, h, M2ParticleEmitter::tracks_size(version));
    lemma_rest_after_rest_after(s, f, M2ParticleEmitter::fake_size(version));
    lemma_rest_after_rest_after(s, p, 28);
    lemma_rest_after_rest_after(s, sp, M2ParticleEmitter::spin_size(version));
    lemma_rest_after_rest_after(s, m, M2ParticleEmitter::motion_size(version));
}

/// Reading a whole record of `version`: the identifier, the flags, the
/// position, the bone, the texture field, the model filename, the child
/// emitter filename (WotLK on) and the fallback model filename (Legion on)
/// at their byte offsets, then the kind fields from the blending type on,
/// and the priority plane and texture dimensions that close the header.
pub proof fn lemma_read_header(s: Seq<u8>, version: u32)
    requires
        s.len() >= M2ParticleEmitter::record_size(version),
    ensures
        M2ParticleEmitter::parsed(s, version) matches Ok(e) && {
            let b = M2ParticleEmitter::blending_at(version);
            let x = b + 6 + if is_legion(version) { 8int } else { 0int };
            let y = x + if is_wod(version) { 1int } else { 0int };
            let d = M2ParticleEmitter::header_size(version) - 6;
            &&& e.id == le_u32(s)
            &&& e.flags.bits == le_u32(s.skip(4))
            &&& e.position == (C3Vector {
                x: le_u32(s.skip(8)),
                y: le_u32(s.skip(12)),
                z: le_u32(s.skip(16)),
            })
            &&& e.bone_index == le_u16(s.skip(20))
            &&& e.texture_indices == texture_indices_of(le_u16(s.skip(22)), version)
            &&& e.model_filename == (M2Array {
                count: le_u32(s.skip(24)),
                offset: le_u32(s.skip(28)),
            })
            &&& e.child_emitter_filename == if is_wotlk(version) {
                Some(M2Array { count: le_u32(s.skip(32)), offset: le_u32(s.skip(36)) })
            } else {
                None
            }
            &&& e.fallback_model_filename == if is_legion(version) {
                Some(M2Array { count: le_u32(s.skip(40)), offset: le_u32(s.skip(44)) })
            } else {
                None
            }
            &&& e.blending_type == if is_late_tbc(version) {
                s[b]
            } else {
                low_byte(le_u16(s.skip(b)))
            }
            &&& e.emitter_type == M2ParticleEmitterType::of_code_or_point(
                if is_late_tbc(version) {
                    s[b + 1]
                } else {
                    low_byte(le_u16(s.skip(b + 2)))
                },
            )
            &&& e.particle_color_index == if is_late_tbc(version) {
                Some(le_u16(s.skip(b + 2)))
            } else {
                None
            }
            &&& e.particle_type == if is_cata(version) { 0 } else { s[b + 4] }
            &&& e.head_or_tail == if is_cata(version) { 0 } else { s[b + 5] }
            &&& e.texture_file_data_ids == if is_legion(version) {
                Some(M2Array { count: le_u32(s.skip(b + 6)), offset: le_u32(s.skip(b + 10)) })
            } else {
                None
            }
            &&& e.enable_encryption == if is_wod(version) {
                Some(s[x])
            } else {
                None
            }
            &&& e.multi_texture_param0 == if is_bfa(version) {
                Some([s[y], s[y + 1], s[y + 2], s[y + 3]])
            } else {
                None
            }
            &&& e.multi_texture_param1 == if is_bfa(version) {
                Some([s[y + 4], s[y + 5], s[y + 6], s[y + 7]])
            } else {
                None
            }
            &&& e.priority_plane == i16_of_bits(le_u16(s.skip(d)))
            &&& e.texture_dimensions_rows == le_u16(s.skip(d + 2))
            &&& e.texture_dimensions_columns == le_u16(s.skip(d + 4))
        },
{
    reveal(M2ParticleEmitter::identity_of);
    reveal(M2ParticleEmitter::kind_of);
    reveal(M2ParticleEmitter::dimensions_of);
    let b = M2ParticleEmitter::blending_at(version);
    let d = M2ParticleEmitter::header_size(version) - 6;
    C3Vector::lemma_decode_at(s, 8);
    M2Array::lemma_decode_at(s, 24);
    M2Array::lemma_decode_at(s, 32);
    if is_legion(version) {
        M2Array::lemma_decode_at(s, 40);
        M2Array::lemma_decode_at(s, b + 6);
    }
    lemma_skip_at(s, b, 2);
    lemma_skip_at(s, b, 6);
    lemma_skip_at(s, d, 2);
    lemma_skip_at(s, d, 4);
    let k = rest_after(s, b);
    assert(k.skip(6) == s.skip(b + 6));
}

/// Reading a whole record of `version`: the ten tracks from the emission
/// speed to the Z source, each field at its place (see `reads_track_at_for`),
/// one track after the other, with the lifespan variation after the sixth
/// and the emission rate variation after the seventh from WotLK on.
pub proof fn lemma_read_tracks(s: Seq<u8>, version: u32)
    requires
        s.len() >= M2ParticleEmitter::record_size(version),
    ensures
        M2ParticleEmitter::parsed(s, version) matches Ok(e) && {
            let h = M2ParticleEmitter::header_size(version);
            let n = M2AnimationBlock::size_for(version);
            let r = h + M2ParticleEmitter::rate_at(version);
            let a = h + M2ParticleEmitter::area_at(version);
            &&& reads_track_at_for(e.emission_speed, s, h, version)
            &&& reads_track_at_for(e.speed_variation, s, h + n, version)
            &&& reads_track_at_for(e.vertical_range, s, h + 2 * n, version)
            &&& reads_track_at_for(e.horizontal_range, s, h + 3 * n, version)
            &&& reads_track_at_for(e.gravity, s, h + 4 * n, version)
            &&& reads_track_at_for(e.lifespan, s, h + 5 * n, version)
            &&& e.lifespan_variation == if is_wotlk(version) {
                Some(le_u32(s.skip(h + 6 * n)))
            } else {
                None
            }
            &&& reads_track_at_for(e.emission_rate, s, r, version)
            &&& e.emission_rate_variation == if is_wotlk(version) {
                Some(le_u32(s.skip(r + n)))
            } else {
                None
            }
            &&& reads_track_at_for(e.emission_area_width, s, a, version)
            &&& reads_track_at_for(e.emission_area_length, s, a + n, version)
            &&& reads_track_at_for(e.z_source, s, a + 2 * n, version)
        },
{
    reveal(M2ParticleEmitter::tracks_of);
    lemma_sections(s, version);
    let h = M2ParticleEmitter::header_size(version);
    let n = M2AnimationBlock::size_for(version);
    let ra = M2ParticleEmitter::rate_at(version);
    let aa = M2ParticleEmitter::area_at(version);
    let t = s.skip(h);
    assert(t.skip(0) =~= t);
    lemma_skip_at(s, h, 0);
    lemma_skip_at(s, h, n);
    lemma_skip_at(s, h, 2 * n);
    lemma_skip_at(s, h, 3 * n);
    lemma_skip_at(s, h, 4 * n);
    lemma_skip_at(s, h, 5 * n);
    lemma_skip_at(s, h, 120);
    lemma_skip_at(s, h, 144);
    lemma_skip_at(s, h, ra);
    lemma_skip_at(s, h, aa);
    lemma_skip_at(s, h, aa + n);
    lemma_skip_at(s, h, aa + 2 * n);
    M2AnimationBlock::lemma_reads_at_for(s, h, version);
    M2AnimationBlock::lemma_reads_at_for(s, h + n, version);
    M2AnimationBlock::lemma_reads_at_for(s, h + 2 * n, version);
    M2AnimationBlock::lemma_reads_at_for(s, h + 3 * n, version);
    M2AnimationBlock::lemma_reads_at_for(s, h + 4 * n, version);
    M2AnimationBlock::lemma_reads_at_for(s, h + 5 * n, version);
    M2AnimationBlock::lemma_reads_at_for(s, h + ra, version);
    M2AnimationBlock::lemma_reads_at_for(s, h + aa, version);
    M2AnimationBlock::lemma_reads_at_for(s, h + aa + n, version);
    M2AnimationBlock::lemma_reads_at_for(s, h + aa + 2 * n, version);
}

/// Reading a whole record of `version`: from WotLK on, the five fake tracks
/// and the scale variation after the tracks (their defaults before, where
/// those 48 bytes are a gap); then the seven render parameters in the order
/// tail length, twinkle speed, twinkle percent, twinkle scale minimum and
/// maximum, inherited velocity scale and drag; then the spin values.
pub proof fn lemma_read_params(s: Seq<u8>, version: u32)
    requires
        s.len() >= M2ParticleEmitter::record_size(version),
    ensures
        M2ParticleEmitter::parsed(s, version) matches Ok(e) && {
            let f = M2ParticleEmitter::header_size(version) + M2ParticleEmitter::tracks_size(
                version,
            );
            let p = f + M2ParticleEmitter::fake_size(version);
            let sp = p + 28;
            &&& is_wotlk(version) ==> {
                &&& reads_fake_track_at(e.color_track, s, f)
                &&& reads_fake_track_at(e.alpha_track, s, f + 16)
                &&& reads_fake_track_at(e.scale_track, s, f + 32)
                &&& e.scale_vary == (C2Vector {
                    x: le_u32(s.skip(f + 48)),
                    y: le_u32(s.skip(f + 52)),
                })
                &&& reads_fake_track_at(e.head_uv_anim, s, f + 56)
                &&& reads_fake_track_at(e.tail_uv_anim, s, f + 72)
            }
            &&& !is_wotlk(version) ==> {
                &&& e.color_track == FakeAnimationBlock::empty()
                &&& e.alpha_track == FakeAnimationBlock::empty()
                &&& e.scale_track == FakeAnimationBlock::empty()
                &&& e.scale_vary == unit_scale()
                &&& e.head_uv_anim == FakeAnimationBlock::empty()
                &&& e.tail_uv_anim == FakeAnimationBlock::empty()
            }
            &&& e.tail_length == le_u32(s.skip(p))
            &&& e.twinkle_speed == le_u32(s.skip(p + 4))
            &&& e.twinkle_percent == le_u32(s.skip(p + 8))
            &&& e.twinkle_scale_min == le_u32(s.skip(p + 12))
            &&& e.twinkle_scale_max == le_u32(s.skip(p + 16))
            &&& e.inherit_velocity_scale == le_u32(s.skip(p + 20))
            &&& e.drag == le_u32(s.skip(p + 24))
            &&& is_wotlk(version) ==> {
                &&& e.legacy_spin is None
                &&& e.base_spin == Some(le_u32(s.skip(sp)))
                &&& e.base_spin_variation == Some(le_u32(s.skip(sp + 4)))
                &&& e.spin_speed == Some(le_u32(s.skip(sp + 8)))
                &&& e.spin_speed_variation == Some(le_u32(s.skip(sp + 12)))
            }
            &&& !is_wotlk(version) ==> {
                &&& e.legacy_spin == Some(le_u32(s.skip(sp)))
                &&& e.base_spin is None
                &&& e.base_spin_variation is None
                &&& e.spin_speed is None
                &&& e.spin_speed_variation is None
            }
        },
{
    reveal(M2ParticleEmitter::fake_tracks_of);
    reveal(M2ParticleEmitter::render_params_of);
    reveal(M2ParticleEmitter::spin_of);
    lemma_sections(s, version);
    let f = M2ParticleEmitter::header_size(version) + M2ParticleEmitter::tracks_size(version);
    let p = f + M2ParticleEmitter::fake_size(version);
    let sp = p + 28;
    if is_wotlk(version) {
        lemma_skip_at(s, f, 16);
        lemma_skip_at(s, f, 32);
        lemma_skip_at(s, f, 48);
        lemma_skip_at(s, f, 56);
        lemma_skip_at(s, f, 72);
        FakeAnimationBlock::lemma_reads_at(s, f);
        FakeAnimationBlock::lemma_reads_at(s, f + 16);
        FakeAnimationBlock::lemma_reads_at(s, f + 32);
        C2Vector::lemma_decode_at(s, f + 48);
        FakeAnimationBlock::lemma_reads_at(s, f + 56);
        FakeAnimationBlock::lemma_reads_at(s, f + 72);
        lemma_skip_at(s, sp, 4);
        lemma_skip_at(s, sp, 8);
        lemma_skip_at(s, sp, 12);
    }
    lemma_skip_at(s, p, 4);
    lemma_skip_at(s, p, 8);
    lemma_skip_at(s, p, 12);
    lemma_skip_at(s, p, 16);
    lemma_skip_at(s, p, 20);
    lemma_skip_at(s, p, 24);
}

/// Reading a whole record of `version`: after the spin values, the tumble
/// minimum and maximum and the wind vector, the wind time, the follow speed
/// and scale pairs, the spline points and the enabled-in track, and, from
/// Legion on, the initial state, its variation and the convergence time.
pub proof fn lemma_read_motion(s: Seq<u8>, version: u32)
    requires
        s.len() >= M2ParticleEmitter::record_size(version),
    ensures
        M2ParticleEmitter::parsed(s, version) matches Ok(e) && {
            let m = M2ParticleEmitter::header_size(version) + M2ParticleEmitter::tracks_size(
                version,
            ) + M2ParticleEmitter::fake_size(version) + 28 + M2ParticleEmitter::spin_size(
                version,
            );
            let c = m + M2ParticleEmitter::motion_size(version);
            &&& e.tumble_min == (C3Vector {
                x: le_u32(s.skip(m)),
                y: le_u32(s.skip(m + 4)),
                z: le_u32(s.skip(m + 8)),
            })
            &&& e.tumble_max == (C3Vector {
                x: le_u32(s.skip(m + 12)),
                y: le_u32(s.skip(m + 16)),
                z: le_u32(s.skip(m + 20)),
            })
            &&& e.wind_vector == (C3Vector {
                x: le_u32(s.skip(m + 24)),
                y: le_u32(s.skip(m + 28)),
                z: le_u32(s.skip(m + 32)),
            })
            &&& e.wind_time == le_u32(s.skip(m + 36))
            &&& e.follow_speed1 == le_u32(s.skip(m + 40))
            &&& e.follow_scale1 == le_u32(s.skip(m + 44))
            &&& e.follow_speed2 == le_u32(s.skip(m + 48))
            &&& e.follow_scale2 == le_u32(s.skip(m + 52))
            &&& e.spline_points == (M2Array {
                count: le_u32(s.skip(m + 56)),
                offset: le_u32(s.skip(m + 60)),
            })
            &&& reads_track_at_for(e.enabled_in, s, m + 64, version)
            &&& e.particle_initial_state == if is_legion(version) {
                Some(le_u32(s.skip(c)))
            } else {
                None
            }
            &&& e.particle_initial_state_variation == if is_legion(version) {
                Some(le_u32(s.skip(c + 4)))
            } else {
                None
            }
            &&& e.particle_convergence_time == if is_legion(version) {
                Some(le_u32(s.skip(c + 8)))
            } else {
                None
            }
        },
{
    reveal(M2ParticleEmitter::motion_of);
    reveal(M2ParticleEmitter::closing_of);
    lemma_sections(s, version);
    let m = M2ParticleEmitter::header_size(version) + M2ParticleEmitter::tracks_size(version)
        + M2ParticleEmitter::fake_size(version) + 28 + M2ParticleEmitter::spin_size(version);
    let c = m + M2ParticleEmitter::motion_size(version);
    lemma_skip_at(s, m, 12);
    lemma_skip_at(s, m, 24);
    lemma_skip_at(s, m, 36);
    lemma_skip_at(s, m, 40);
    lemma_skip_at(s, m, 44);
    lemma_skip_at(s, m, 48);
    lemma_skip_at(s, m, 52);
    lemma_skip_at(s, m, 56);
    lemma_skip_at(s, m, 64);
    C3Vector::lemma_decode_at(s, m);
    C3Vector::lemma_decode_at(s, m + 12);
    C3Vector::lemma_decode_at(s, m + 24);
    M2Array::lemma_decode_at(s, m + 56);
    M2AnimationBlock::lemma_reads_at_for(s, m + 64, version);
    if is_legion(version) {
        assert(s.skip(c).skip(4) =~= s.skip(c + 4));
        assert(s.skip(c).skip(8) =~= s.skip(c + 8));
    }
}

/// Every `u16` takes two bytes and every `u32` four.
proof fn lemma_byte_lengths()
    ensures
        forall|v: u16| #[trigger] u16_bytes(v).len() == 2,
        forall|v: u32| #[trigger] u32_bytes(v).len() == 4,
{
    assert forall|v: u16| #[trigger] u16_bytes(v).len() == 2 by {
        lemma_le_values(Seq::empty(), v, 0);
    }
    assert forall|v: u32| #[trigger] u32_bytes(v).len() == 4 by {
        lemma_le_values(Seq::empty(), 0, v);
    }
}

/// The part `x` of `pre + x + post` stands after `pre`.
proof fn lemma_part(pre: Seq<u8>, x: Seq<u8>, post: Seq<u8>)
    ensures
        (pre + x + post).subrange(pre.len() as int, (pre.len() + x.len()) as int) == x,
{
    assert((pre + x + post).subrange(pre.len() as int, (pre.len() + x.len()) as int) =~= x);
}

/// Writing an emitter for `version` puts each field at its place, field by
/// field in file order: the identifier through the child emitter filename
/// (the empty reference for none) in bytes 0 to 40; the blending and
/// emitter types, the color index and the particle type and head-or-tail
/// bytes in 40 to 46; the priority plane and texture dimensions in 46 to 52;
/// the ten tracks with, from WotLK on, the two variations among them; the
/// fake tracks and scale variation from WotLK on, 48 zero bytes before; the
/// seven render parameters; the spin values; and the vectors, wind, follow
/// values, spline points and enabled-in track. An absent value is written as
/// zero.
pub proof fn lemma_write_layout(e: M2ParticleEmitter, version: u32)
    ensures
        ({
            let w = e.encode(version);
            let f = 52 + M2ParticleEmitter::tracks_size(version);
            let p = f + M2ParticleEmitter::fake_size(version);
            let sp = p + 28;
            let m = sp + M2ParticleEmitter::spin_size(version);
            let child = match e.child_emitter_filename {
                Some(c) => c,
                None => M2Array { count: 0, offset: 0 },
            };
            let color: u16 = match e.particle_color_index {
                Some(c) => c,
                None => 0,
            };
            let lv: u32 = match e.lifespan_variation {
                Some(x) => x,
                None => 0,
            };
            let rv: u32 = match e.emission_rate_variation {
                Some(x) => x,
                None => 0,
            };
            let s0: u32 = match e.legacy_spin {
                Some(x) => x,
                None => 0,
            };
            let s1: u32 = match e.base_spin {
                Some(x) => x,
                None => 0,
            };
            let s2: u32 = match e.base_spin_variation {
                Some(x) => x,
                None => 0,
            };
            let s3: u32 = match e.spin_speed {
                Some(x) => x,
                None => 0,
            };
            let s4: u32 = match e.spin_speed_variation {
                Some(x) => x,
                None => 0,
            };
            &&& w.len() == m + M2ParticleEmitter::motion_size(version)
            &&& w.subrange(0, 40) == u32_bytes(e.id) + u32_bytes(e.flags.bits) + u32_bytes(
                e.position.x,
            ) + u32_bytes(e.position.y) + u32_bytes(e.position.z) + u16_bytes(e.bone_index)
                + u16_bytes(texture_raw_of(e.texture_indices, version)) + u32_bytes(
                e.model_filename.count,
            ) + u32_bytes(e.model_filename.offset) + u32_bytes(child.count) + u32_bytes(
                child.offset,
            )
            &&& w.subrange(40, 46) == (if is_late_tbc(version) {
                seq![e.blending_type, e.emitter_type.code()] + u16_bytes(color)
            } else {
                u16_bytes(e.blending_type as u16) + u16_bytes(e.emitter_type.code() as u16)
            }) + (if is_cata(version) {
                seq![0u8, 0u8]
            } else {
                seq![e.particle_type, e.head_or_tail]
            })
            &&& w.subrange(46, 52) == u16_bytes(bits_of_i16(e.priority_plane)) + u16_bytes(
                e.texture_dimensions_rows,
            ) + u16_bytes(e.texture_dimensions_columns)
            &&& w.subrange(52, f) == track_bytes_for(e.emission_speed, version) + track_bytes_for(
                e.speed_variation,
                version,
            ) + track_bytes_for(e.vertical_range, version) + track_bytes_for(
                e.horizontal_range,
                version,
            ) + track_bytes_for(e.gravity, version) + track_bytes_for(e.lifespan, version) + (
            if is_wotlk(version) {
                u32_bytes(lv) + track_bytes_for(e.emission_rate, version) + u32_bytes(rv)
            } else {
                track_bytes_for(e.emission_rate, version)
            }) + track_bytes_for(e.emission_area_width, version) + track_bytes_for(
                e.emission_area_length,
                version,
            ) + track_bytes_for(e.z_source, version)
            &&& w.subrange(f, p) == if is_wotlk(version) {
                fake_track_bytes(e.color_track) + fake_track_bytes(e.alpha_track)
                    + fake_track_bytes(e.scale_track) + u32_bytes(e.scale_vary.x) + u32_bytes(
                    e.scale_vary.y,
                ) + fake_track_bytes(e.head_uv_anim) + fake_track_bytes(e.tail_uv_anim)
            } else {
                Seq::new(48, |i: int| 0u8)
            }
            &&& w.subrange(p, sp) == u32_bytes(e.tail_length) + u32_bytes(e.twinkle_speed)
                + u32_bytes(e.twinkle_percent) + u32_bytes(e.twinkle_scale_min) + u32_bytes(
                e.twinkle_scale_max,
            ) + u32_bytes(e.inherit_velocity_scale) + u32_bytes(e.drag)
            &&& w.subrange(sp, m) == if is_wotlk(version) {
                u32_bytes(s1) + u32_bytes(s2) + u32_bytes(s3) + u32_bytes(s4)
            } else {
                u32_bytes(s0)
            }
            &&& w.subrange(m, w.len() as int) == u32_bytes(e.tumble_min.x) + u32_bytes(
                e.tumble_min.y,
            ) + u32_bytes(e.tumble_min.z) + u32_bytes(e.tumble_max.x) + u32_bytes(e.tumble_max.y)
                + u32_bytes(e.tumble_max.z) + u32_bytes(e.wind_vector.x) + u32_bytes(
                e.wind_vector.y,
            ) + u32_bytes(e.wind_vector.z) + u32_bytes(e.wind_time) + u32_bytes(e.follow_speed1)
                + u32_bytes(e.follow_scale1) + u32_bytes(e.follow_speed2) + u32_bytes(
                e.follow_scale2,
            ) + u32_bytes(e.spline_points.count) + u32_bytes(e.spline_points.offset)
                + track_bytes_for(e.enabled_in, version)
        }),
{
    lemma_byte_lengths();
    lemma_identity_bytes(e, version);
    lemma_tracks_bytes(e, version);
    lemma_fake_bytes(e, version);
    lemma_motion_bytes(e, version);
    lemma_eight(
        e.identity_bytes(version),
        e.kind_bytes(version),
        e.dimensions_bytes(),
        e.tracks_bytes(version),
        e.fake_bytes(version),
        e.params_bytes(),
        e.spin_bytes(version),
        e.motion_bytes(version),
    );
}

/// Where each of eight parts stands in their concatenation.
proof fn lemma_eight(
    a: Seq<u8>,
    b: Seq<u8>,
    c: Seq<u8>,
    d: Seq<u8>,
    f: Seq<u8>,
    g: Seq<u8>,
    h: Seq<u8>,
    i: Seq<u8>,
)
    ensures
        ({
            let w = a + b + c + d + f + g + h + i;
            let o1 = a.len() as int;
            let o2 = o1 + b.len();
            let o3 = o2 + c.len();
            let o4 = o3 + d.len();
            let o5 = o4 + f.len();
            let o6 = o5 + g.len();
            let o7 = o6 + h.len();
            &&& w.len() == o7 + i.len()
            &&& w.subrange(0, o1) == a
            &&& w.subrange(o1, o2) == b
            &&& w.subrange(o2, o3) == c
            &&& w.subrange(o3, o4) == d
            &&& w.subrange(o4, o5) == f
            &&& w.subrange(o5, o6) == g
            &&& w.subrange(o6, o7) == h
            &&& w.subrange(o7, w.len() as int) == i
        }),
{
    let w = a + b + c + d + f + g + h + i;
    lemma_part(Seq::empty(), a, b + c + d + f + g + h + i);
    assert(w =~= Seq::empty() + a + (b + c + d + f + g + h + i));
    lemma_part(a, b, c + d + f + g + h + i);
    assert(w =~= a + b + (c + d + f + g + h + i));
    lemma_part(a + b, c, d + f + g + h + i);
    assert(w =~= (a + b) + c + (d + f + g + h + i));
    lemma_part(a + b + c, d, f + g + h + i);
    assert(w =~= (a + b + c) + d + (f + g + h + i));
    lemma_part(a + b + c + d, f, g + h + i);
    assert(w =~= (a + b + c + d) + f + (g + h + i));
    lemma_part(a + b + c + d + f, g, h + i);
    assert(w =~= (a + b + c + d + f) + g + (h + i));
    lemma_part(a + b + c + d + f + g, h, i);
    assert(w =~= (a + b + c + d + f + g) + h + i);
    lemma_part(a + b + c + d + f + g + h, i, Seq::empty());
    assert(w =~= (a + b + c + d + f + g + h) + i + Seq::empty());
}

/// The identifier through the child emitter filename, field by field.
proof fn lemma_identity_bytes(e: M2ParticleEmitter, version: u32)
    ensures
        e.identity_bytes(version) == u32_bytes(e.id) + u32_bytes(e.flags.bits) + u32_bytes(
            e.position.x,
        ) + u32_bytes(e.position.y) + u32_bytes(e.position.z) + u16_bytes(e.bone_index)
            + u16_bytes(texture_raw_of(e.texture_indices, version)) + u32_bytes(
            e.model_filename.count,
        ) + u32_bytes(e.model_filename.offset) + u32_bytes(e.child_or_empty().count) + u32_bytes(
            e.child_or_empty().offset,
        ),
        e.identity_bytes(version).len() == 40,
        e.kind_bytes(version).len() == 6,
        e.dimensions_bytes().len() == 6,
        e.params_bytes().len() == 28,
        e.spin_bytes(version).len() == M2ParticleEmitter::spin_size(version),
{
    lemma_byte_lengths();
    let z = Seq::<u8>::empty();
    C3Vector::lemma_layout(z, e.position);
    M2Array::lemma_layout(z, e.model_filename);
    M2Array::lemma_layout(z, e.child_or_empty());
    assert(e.identity_bytes(version) =~= u32_bytes(e.id) + u32_bytes(e.flags.bits) + u32_bytes(
        e.position.x,
    ) + u32_bytes(e.position.y) + u32_bytes(e.position.z) + u16_bytes(e.bone_index) + u16_bytes(
        texture_raw_of(e.texture_indices, version),
    ) + u32_bytes(e.model_filename.count) + u32_bytes(e.model_filename.offset) + u32_bytes(
        e.child_or_empty().count,
    ) + u32_bytes(e.child_or_empty().offset));
}

/// The tracks, each written field by field.
proof fn lemma_tracks_bytes(e: M2ParticleEmitter, version: u32)
    ensures
        e.tracks_bytes(version) == track_bytes_for(e.emission_speed, version) + track_bytes_for(
            e.speed_variation,
            version,
        ) + track_bytes_for(e.vertical_range, version) + track_bytes_for(
            e.horizontal_range,
            version,
        ) + track_bytes_for(e.gravity, version) + track_bytes_for(e.lifespan, version) + (
        if is_wotlk(version) {
            u32_bytes(M2ParticleEmitter::bits_or_zero(e.lifespan_variation)) + track_bytes_for(
                e.emission_rate,
                version,
            ) + u32_bytes(M2ParticleEmitter::bits_or_zero(e.emission_rate_variation))
        } else {
            track_bytes_for(e.emission_rate, version)
        }) + track_bytes_for(e.emission_area_width, version) + track_bytes_for(
            e.emission_area_length,
            version,
        ) + track_bytes_for(e.z_source, version),
        e.tracks_bytes(version).len() == M2ParticleEmitter::tracks_size(version),
{
    lemma_byte_lengths();
    e.emission_speed.lemma_bytes(version);
    e.speed_variation.lemma_bytes(version);
    e.vertical_range.lemma_bytes(version);
    e.horizontal_range.lemma_bytes(version);
    e.gravity.lemma_bytes(version);
    e.lifespan.lemma_bytes(version);
    e.emission_rate.lemma_bytes(version);
    e.emission_area_width.lemma_bytes(version);
    e.emission_area_length.lemma_bytes(version);
    e.z_source.lemma_bytes(version);
    assert(e.tracks_bytes(version) =~= track_bytes_for(e.emission_speed, version)
        + track_bytes_for(e.speed_variation, version) + track_bytes_for(e.vertical_range, version)
        + track_bytes_for(e.horizontal_range, version) + track_bytes_for(e.gravity, version)
        + track_bytes_for(e.lifespan, version) + e.rate_bytes(version) + track_bytes_for(
        e.emission_area_width,
        version,
    ) + track_bytes_for(e.emission_area_length, version) + track_bytes_for(e.z_source, version));
}

/// The fake tracks and the scale variation, field by field, from WotLK on.
proof fn lemma_fake_bytes(e: M2ParticleEmitter, version: u32)
    ensures
        e.fake_bytes(version) == if is_wotlk(version) {
            fake_track_bytes(e.color_track) + fake_track_bytes(e.alpha_track) + fake_track_bytes(
                e.scale_track,
            ) + u32_bytes(e.scale_vary.x) + u32_bytes(e.scale_vary.y) + fake_track_bytes(
                e.head_uv_anim,
            ) + fake_track_bytes(e.tail_uv_anim)
        } else {
            Seq::new(48, |i: int| 0u8)
        },
        e.fake_bytes(version).len() == M2ParticleEmitter::fake_size(version),
{
    lemma_byte_lengths();
    C2Vector::lemma_layout(Seq::empty(), e.scale_vary);
    e.color_track.lemma_bytes();
    e.alpha_track.lemma_bytes();
    e.scale_track.lemma_bytes();
    e.head_uv_anim.lemma_bytes();
    e.tail_uv_anim.lemma_bytes();
    if is_wotlk(version) {
        assert(e.fake_bytes(version) =~= fake_track_bytes(e.color_track) + fake_track_bytes(
            e.alpha_track,
        ) + fake_track_bytes(e.scale_track) + u32_bytes(e.scale_vary.x) + u32_bytes(
            e.scale_vary.y,
        ) + fake_track_bytes(e.head_uv_anim) + fake_track_bytes(e.tail_uv_anim));
    }
}

/// The vectors, the wind time, the follow values, the spline points and the
/// enabled-in track, field by field.
proof fn lemma_motion_bytes(e: M2ParticleEmitter, version: u32)
    ensures
        e.motion_bytes(version) == u32_bytes(e.tumble_min.x) + u32_bytes(e.tumble_min.y)
            + u32_bytes(e.tumble_min.z) + u32_bytes(e.tumble_max.x) + u32_bytes(e.tumble_max.y)
            + u32_bytes(e.tumble_max.z) + u32_bytes(e.wind_vector.x) + u32_bytes(e.wind_vector.y)
            + u32_bytes(e.wind_vector.z) + u32_bytes(e.wind_time) + u32_bytes(e.follow_speed1)
            + u32_bytes(e.follow_scale1) + u32_bytes(e.follow_speed2) + u32_bytes(
            e.follow_scale2,
        ) + u32_bytes(e.spline_points.count) + u32_bytes(e.spline_points.offset)
            + track_bytes_for(e.enabled_in, version),
        e.motion_bytes(version).len() == M2ParticleEmitter::motion_size(version),
{
    lemma_byte_lengths();
    let z = Seq::<u8>::empty();
    C3Vector::lemma_layout(z, e.tumble_min);
    C3Vector::lemma_layout(z, e.tumble_max);
    C3Vector::lemma_layout(z, e.wind_vector);
    M2Array::lemma_layout(z, e.spline_points);
    e.enabled_in.lemma_bytes(version);
    assert(e.motion_bytes(version) =~= u32_bytes(e.tumble_min.x) + u32_bytes(e.tumble_min.y)
        + u32_bytes(e.tumble_min.z) + u32_bytes(e.tumble_max.x) + u32_bytes(e.tumble_max.y)
        + u32_bytes(e.tumble_max.z) + u32_bytes(e.wind_vector.x) + u32_bytes(e.wind_vector.y)
        + u32_bytes(e.wind_vector.z) + u32_bytes(e.wind_time) + u32_bytes(e.follow_speed1)
        + u32_bytes(e.follow_scale1) + u32_bytes(e.follow_speed2) + u32_bytes(e.follow_scale2)
        + u32_bytes(e.spline_points.count) + u32_bytes(e.spline_points.offset) + track_bytes_for(
        e.enabled_in,
        version,
    ));
}

/// Reading fails, with an end-of-input error, exactly when the bytes end
/// inside the header or, from Legion on, before the end of the record.
pub proof fn lemma_read_fails(s: Seq<u8>, version: u32)
    ensures
        M2ParticleEmitter::parsed(s, version) is Err <==> (s.len()
            < M2ParticleEmitter::header_size(version) || (is_legion(version) && s.len()
            < M2ParticleEmitter::record_size(version))),
        M2ParticleEmitter::parsed(s, version) is Err ==> M2ParticleEmitter::parsed(s, version)
            == Err::<M2ParticleEmitter, M2Error>(M2Error::UnexpectedEof),
{
}

/// Reading a record of a version before Legion that ends right after the
/// header: every later field takes its default, the zero track, no
/// variation, the empty fake tracks, a scale variation of `1.0`, zero
/// render parameters and motion values, and no spin value.
pub proof fn lemma_read_cut_after_header(s: Seq<u8>, version: u32)
    requires
        s.len() == M2ParticleEmitter::header_size(version),
        !is_legion(version),
    ensures
        M2ParticleEmitter::parsed(s, version) matches Ok(e) && {
            let z = M2Array { count: 0, offset: 0 };
            let zt = M2AnimationBlock {
                interpolation_type: 0,
                global_sequence: 0,
                interpolation_ranges: None,
                timestamps: z,
                values: z,
            };
            let zf = FakeAnimationBlock { timestamps: z, values: z };
            let zv = C3Vector { x: 0, y: 0, z: 0 };
            &&& e.emission_speed == zt
            &&& e.speed_variation == zt
            &&& e.vertical_range == zt
            &&& e.horizontal_range == zt
            &&& e.gravity == zt
            &&& e.lifespan == zt
            &&& e.lifespan_variation is None
            &&& e.emission_rate == zt
            &&& e.emission_rate_variation is None
            &&& e.emission_area_width == zt
            &&& e.emission_area_length == zt
            &&& e.z_source == zt
            &&& e.color_track == zf
            &&& e.alpha_track == zf
            &&& e.scale_track == zf
            &&& e.scale_vary == (C2Vector { x: 0x3F80_0000, y: 0x3F80_0000 })
            &&& e.head_uv_anim == zf
            &&& e.tail_uv_anim == zf
            &&& e.tail_length == 0
            &&& e.twinkle_speed == 0
            &&& e.twinkle_percent == 0
            &&& e.twinkle_scale_min == 0
            &&& e.twinkle_scale_max == 0
            &&& e.inherit_velocity_scale == 0
            &&& e.drag == 0
            &&& e.legacy_spin is None
            &&& e.base_spin is None
            &&& e.base_spin_variation is None
            &&& e.spin_speed is None
            &&& e.spin_speed_variation is None
            &&& e.tumble_min == zv
            &&& e.tumble_max == zv
            &&& e.wind_vector == zv
            &&& e.wind_time == 0
            &&& e.follow_speed1 == 0
            &&& e.follow_scale1 == 0
            &&& e.follow_speed2 == 0
            &&& e.follow_scale2 == 0
            &&& e.spline_points == z
            &&& e.enabled_in == zt
            &&& e.particle_initial_state is None
            &&& e.particle_initial_state_variation is None
            &&& e.particle_convergence_time is None
        },
{
    reveal(M2ParticleEmitter::tracks_of);
    reveal(M2ParticleEmitter::fake_tracks_of);
    reveal(M2ParticleEmitter::render_params_of);
    reveal(M2ParticleEmitter::spin_of);
    reveal(M2ParticleEmitter::motion_of);
    reveal(M2ParticleEmitter::closing_of);
    let h = M2ParticleEmitter::header_size(version);
    assert(s.skip(h) =~= Seq::<u8>::empty());
    assert(rest_after(s, h).len() == 0);
}

} // verus!
