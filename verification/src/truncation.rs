//! Byte accounting. What a decoder has decoded lies within the input, and
//! what it gives on an input that was cut short is the result that it gives
//! on the whole input, or `UnexpectedEof`. Nothing else comes out of a
//! truncated input, in particular no array shorter than declared.

use vstd::prelude::*;
use crate::error::{DecodeError, DecodeFailure};
use crate::primitive::{
    spec_has_bytes, spec_read_i16, spec_read_i32, spec_read_string, spec_read_u16, spec_read_u32,
};
use crate::array::{
    spec_array_extent, spec_read_count, spec_read_f32_array, spec_read_i16_array,
    spec_read_u16_array,
};
use crate::faces::{spec_read_face_set, spec_read_face_sets, spec_read_faces, FaceSetView};
use crate::mesh::{spec_read_mesh, spec_read_meshes, MeshView};
use crate::skeleton::{
    spec_parse_skeleton, spec_read_joint_record, spec_read_joint_records, spec_read_quat,
    spec_read_vec3, JointRecordView,
};
use crate::file::{spec_decode_file, spec_parse_animation_file};

verus! {

/// Whether `cut` is `whole` or the failure `UnexpectedEof`.
pub open spec fn spec_same_or_eof<T>(cut: Result<T, DecodeError>, whole: Result<T, DecodeError>) -> bool {
    cut == whole || cut == Err::<T, DecodeError>(DecodeError::UnexpectedEof)
}

/// Whether `cut` is `whole` or an `UnexpectedEof` at some place.
pub open spec fn spec_same_or_eof_at<T, A>(cut: Result<T, (A, DecodeError)>, whole: Result<T, (A, DecodeError)>) -> bool {
    cut == whole || (cut matches Err(f) && f.1 == DecodeError::UnexpectedEof)
}

/// Whether `cut` is `whole` or an `UnexpectedEof` at some place of some item.
pub open spec fn spec_same_or_eof_in<T, A, B>(cut: Result<T, (A, B, DecodeError)>, whole: Result<T, (A, B, DecodeError)>) -> bool {
    cut == whole || (cut matches Err(f) && f.2 == DecodeError::UnexpectedEof)
}

/// Whether `cut` is `whole` or a failure of the kind `UnexpectedEof`.
pub open spec fn spec_same_or_eof_failure<T>(cut: Result<T, DecodeFailure>, whole: Result<T, DecodeFailure>) -> bool {
    cut == whole || (cut matches Err(f) && f.kind == DecodeError::UnexpectedEof)
}

/// A fixed-width integer read from a cut input.
pub proof fn lemma_cut_fixed(s: Seq<u8>, pos: int, cut: int)
    requires
        0 <= cut <= s.len(),
    ensures
        spec_same_or_eof(spec_read_u16(s.subrange(0, cut), pos), spec_read_u16(s, pos)),
        spec_same_or_eof(spec_read_i16(s.subrange(0, cut), pos), spec_read_i16(s, pos)),
        spec_same_or_eof(spec_read_u32(s.subrange(0, cut), pos), spec_read_u32(s, pos)),
        spec_same_or_eof(spec_read_i32(s.subrange(0, cut), pos), spec_read_i32(s, pos)),
{
    let t = s.subrange(0, cut);
    if 0 <= pos && pos + 2 <= cut {
        assert(t[pos] == s[pos] && t[pos + 1] == s[pos + 1]);
    }
    if 0 <= pos && pos + 4 <= cut {
        assert(t[pos + 2] == s[pos + 2] && t[pos + 3] == s[pos + 3]);
    }
}

/// A string read from a cut input.
pub proof fn lemma_cut_string(s: Seq<u8>, pos: int, cut: int)
    requires
        0 <= cut <= s.len(),
    ensures
        spec_same_or_eof(spec_read_string(s.subrange(0, cut), pos), spec_read_string(s, pos)),
{
    let t = s.subrange(0, cut);
    lemma_cut_fixed(s, pos, cut);
    if let Ok((n, p)) = spec_read_u16(t, pos) {
        if spec_has_bytes(t, p, n) {
            assert(t.subrange(p, p + n) =~= s.subrange(p, p + n));
        }
    }
}

/// A length prefix, and an array of fixed-width elements, read from a cut input.
pub proof fn lemma_cut_array(s: Seq<u8>, pos: int, cut: int)
    requires
        0 <= cut <= s.len(),
    ensures
        spec_same_or_eof(spec_read_count(s.subrange(0, cut), pos), spec_read_count(s, pos)),
        spec_same_or_eof(spec_array_extent(s.subrange(0, cut), pos, 2), spec_array_extent(s, pos, 2)),
        spec_same_or_eof(spec_array_extent(s.subrange(0, cut), pos, 4), spec_array_extent(s, pos, 4)),
        spec_same_or_eof(spec_read_u16_array(s.subrange(0, cut), pos), spec_read_u16_array(s, pos)),
        spec_same_or_eof(spec_read_i16_array(s.subrange(0, cut), pos), spec_read_i16_array(s, pos)),
        spec_same_or_eof(spec_read_f32_array(s.subrange(0, cut), pos), spec_read_f32_array(s, pos)),
{
    let t = s.subrange(0, cut);
    lemma_cut_fixed(s, pos, cut);
    if let Ok((n, p)) = spec_array_extent(t, pos, 2) {
        assert(spec_read_u16_array(t, pos).unwrap().0 =~= spec_read_u16_array(s, pos).unwrap().0);
        assert(spec_read_i16_array(t, pos).unwrap().0 =~= spec_read_i16_array(s, pos).unwrap().0);
    }
    if let Ok((n, p)) = spec_array_extent(t, pos, 4) {
        assert(spec_read_f32_array(t, pos).unwrap().0 =~= spec_read_f32_array(s, pos).unwrap().0);
    }
}

/// A face set read from a cut input.
pub proof fn lemma_cut_face_set(s: Seq<u8>, pos: int, cut: int)
    requires
        0 <= cut <= s.len(),
    ensures
        spec_same_or_eof(spec_read_face_set(s.subrange(0, cut), pos), spec_read_face_set(s, pos)),
{
    let t = s.subrange(0, cut);
    lemma_cut_fixed(s, pos, cut);
    if let Ok((material, at1)) = spec_read_u32(t, pos) {
        lemma_cut_array(s, at1, cut);
        if let Ok((quads, at2)) = spec_read_u16_array(t, at1) {
            lemma_cut_array(s, at2, cut);
        }
    }
}

/// A run of face sets read from a cut input.
pub proof fn lemma_cut_face_sets(s: Seq<u8>, pos: int, count: int, acc: Seq<FaceSetView>, cut: int)
    requires
        0 <= cut <= s.len(),
    ensures
        spec_same_or_eof_at(
            spec_read_face_sets(s.subrange(0, cut), pos, count, acc),
            spec_read_face_sets(s, pos, count, acc),
        ),
    decreases count,
{
    let t = s.subrange(0, cut);
    if count > 0 {
        lemma_cut_face_set(s, pos, cut);
        if let Ok((set, next)) = spec_read_face_set(t, pos) {
            lemma_cut_face_sets(s, next, count - 1, acc.push(set), cut);
        }
    }
}

/// A face-set table read from a cut input.
pub proof fn lemma_cut_faces(s: Seq<u8>, pos: int, cut: int)
    requires
        0 <= cut <= s.len(),
    ensures
        spec_same_or_eof_at(spec_read_faces(s.subrange(0, cut), pos), spec_read_faces(s, pos)),
{
    let t = s.subrange(0, cut);
    lemma_cut_array(s, pos, cut);
    if let Ok((n, p)) = spec_read_count(t, pos) {
        lemma_cut_face_sets(s, p, n, Seq::empty(), cut);
    }
}

/// A mesh read from a cut input.
pub proof fn lemma_cut_mesh(s: Seq<u8>, pos: int, cut: int)
    requires
        0 <= cut <= s.len(),
    ensures
        spec_same_or_eof_at(spec_read_mesh(s.subrange(0, cut), pos), spec_read_mesh(s, pos)),
{
    let t = s.subrange(0, cut);
    lemma_cut_array(s, pos, cut);
    if let Ok((vertices, at1)) = spec_read_f32_array(t, pos) {
        lemma_cut_array(s, at1, cut);
        if let Ok((uvs, at2)) = spec_read_i16_array(t, at1) {
            lemma_cut_array(s, at2, cut);
            if let Ok((normals, at3)) = spec_read_f32_array(t, at2) {
                lemma_cut_faces(s, at3, cut);
                if let Ok((elements, at4)) = spec_read_faces(t, at3) {
                    lemma_cut_array(s, at4, cut);
                    if let Ok((skin_weights, at5)) = spec_read_f32_array(t, at4) {
                        lemma_cut_array(s, at5, cut);
                    }
                }
            }
        }
    }
}

/// A run of meshes read from a cut input.
pub proof fn lemma_cut_meshes(s: Seq<u8>, pos: int, count: int, acc: Seq<MeshView>, cut: int)
    requires
        0 <= cut <= s.len(),
    ensures
        spec_same_or_eof_in(
            spec_read_meshes(s.subrange(0, cut), pos, count, acc),
            spec_read_meshes(s, pos, count, acc),
        ),
    decreases count,
{
    let t = s.subrange(0, cut);
    if count > 0 {
        lemma_cut_mesh(s, pos, cut);
        if let Ok((mesh, next)) = spec_read_mesh(t, pos) {
            lemma_cut_meshes(s, next, count - 1, acc.push(mesh), cut);
        }
    }
}

/// Three floats, and four floats, read from a cut input.
pub proof fn lemma_cut_vectors(s: Seq<u8>, pos: int, cut: int)
    requires
        0 <= cut <= s.len(),
    ensures
        spec_same_or_eof(spec_read_vec3(s.subrange(0, cut), pos), spec_read_vec3(s, pos)),
        spec_same_or_eof(spec_read_quat(s.subrange(0, cut), pos), spec_read_quat(s, pos)),
{
    lemma_cut_fixed(s, pos, cut);
    lemma_cut_fixed(s, pos + 4, cut);
    lemma_cut_fixed(s, pos + 8, cut);
    lemma_cut_fixed(s, pos + 12, cut);
}

/// A joint record read from a cut input.
pub proof fn lemma_cut_joint_record(s: Seq<u8>, pos: int, cut: int)
    requires
        0 <= cut <= s.len(),
    ensures
        spec_same_or_eof(spec_read_joint_record(s.subrange(0, cut), pos), spec_read_joint_record(s, pos)),
{
    let t = s.subrange(0, cut);
    lemma_cut_fixed(s, pos, cut);
    if let Ok((parent, at1)) = spec_read_i16(t, pos) {
        lemma_cut_string(s, at1, cut);
        if let Ok((name, at2)) = spec_read_string(t, at1) {
            lemma_cut_vectors(s, at2, cut);
            if let Ok((rotation, at3)) = spec_read_quat(t, at2) {
                lemma_cut_vectors(s, at3, cut);
            }
        }
    }
}

/// A run of joint records read from a cut input.
pub proof fn lemma_cut_joint_records(s: Seq<u8>, pos: int, count: int, acc: Seq<JointRecordView>, cut: int)
    requires
        0 <= cut <= s.len(),
    ensures
        spec_same_or_eof_at(
            spec_read_joint_records(s.subrange(0, cut), pos, count, acc),
            spec_read_joint_records(s, pos, count, acc),
        ),
    decreases count,
{
    let t = s.subrange(0, cut);
    if count > 0 {
        lemma_cut_joint_record(s, pos, cut);
        if let Ok((record, next)) = spec_read_joint_record(t, pos) {
            lemma_cut_joint_records(s, next, count - 1, acc.push(record), cut);
        }
    }
}

/// A skeleton read from a cut input.
pub proof fn lemma_cut_skeleton(s: Seq<u8>, pos: int, cut: int)
    requires
        0 <= cut <= s.len(),
    ensures
        spec_same_or_eof_failure(spec_parse_skeleton(s.subrange(0, cut), pos), spec_parse_skeleton(s, pos)),
{
    let t = s.subrange(0, cut);
    lemma_cut_array(s, pos, cut);
    if let Ok((n, p)) = spec_read_count(t, pos) {
        lemma_cut_joint_records(s, p, n, Seq::empty(), cut);
    }
}

/// Cutting a file short never changes what is decoded from it: the cut
/// input gives the result of the whole input, or it fails with
/// `UnexpectedEof`.
pub proof fn lemma_cut_file(s: Seq<u8>, cut: int)
    requires
        0 <= cut <= s.len(),
    ensures
        spec_same_or_eof_failure(spec_decode_file(s.subrange(0, cut)), spec_decode_file(s)),
        spec_same_or_eof_failure(spec_parse_animation_file(s.subrange(0, cut)), spec_parse_animation_file(s)),
{
    let t = s.subrange(0, cut);
    lemma_cut_fixed(s, 0, cut);
    if let Ok((version, at1)) = spec_read_i32(t, 0) {
        lemma_cut_array(s, at1, cut);
        if let Ok((mesh_count, at2)) = spec_read_count(t, at1) {
            lemma_cut_meshes(s, at2, mesh_count, Seq::empty(), cut);
            if let Ok((meshes, at3)) = spec_read_meshes(t, at2, mesh_count, Seq::empty()) {
                lemma_cut_fixed(s, at3, cut);
                if let Ok((influences, at4)) = spec_read_i32(t, at3) {
                    lemma_cut_skeleton(s, at4, cut);
                }
            }
        }
    }
}

/// Whether a successful result `r` of decoding at `pos` ends at or behind
/// `pos` and within an input of the length `len`.
pub open spec fn spec_within<T, E>(r: Result<(T, int), E>, pos: int, len: int) -> bool {
    r matches Ok(x) ==> 0 <= pos <= x.1 <= len
}

/// Integers, strings, length prefixes and arrays of fixed-width elements
/// lie within the input.
pub proof fn lemma_within_basic(s: Seq<u8>, pos: int)
    ensures
        spec_within(spec_read_u16(s, pos), pos, s.len() as int),
        spec_within(spec_read_i16(s, pos), pos, s.len() as int),
        spec_within(spec_read_u32(s, pos), pos, s.len() as int),
        spec_within(spec_read_i32(s, pos), pos, s.len() as int),
        spec_within(spec_read_string(s, pos), pos, s.len() as int),
        spec_within(spec_read_count(s, pos), pos, s.len() as int),
        spec_within(spec_read_u16_array(s, pos), pos, s.len() as int),
        spec_within(spec_read_i16_array(s, pos), pos, s.len() as int),
        spec_within(spec_read_f32_array(s, pos), pos, s.len() as int),
        spec_within(spec_read_vec3(s, pos), pos, s.len() as int),
        spec_within(spec_read_quat(s, pos), pos, s.len() as int),
{
}

/// A face set lies within the input.
pub proof fn lemma_within_face_set(s: Seq<u8>, pos: int)
    ensures
        spec_within(spec_read_face_set(s, pos), pos, s.len() as int),
{
    if let Ok((material, at1)) = spec_read_u32(s, pos) {
        lemma_within_basic(s, at1);
        if let Ok((quads, at2)) = spec_read_u16_array(s, at1) {
            lemma_within_basic(s, at2);
        }
    }
}

/// A run of face sets lies within the input.
pub proof fn lemma_within_face_sets(s: Seq<u8>, pos: int, count: int, acc: Seq<FaceSetView>)
    requires
        0 <= pos <= s.len(),
    ensures
        spec_within(spec_read_face_sets(s, pos, count, acc), pos, s.len() as int),
    decreases count,
{
    if count > 0 {
        lemma_within_face_set(s, pos);
        if let Ok((set, next)) = spec_read_face_set(s, pos) {
            lemma_within_face_sets(s, next, count - 1, acc.push(set));
        }
    }
}

/// A face-set table lies within the input.
pub proof fn lemma_within_faces(s: Seq<u8>, pos: int)
    ensures
        spec_within(spec_read_faces(s, pos), pos, s.len() as int),
{
    if let Ok((n, at1)) = spec_read_count(s, pos) {
        lemma_within_face_sets(s, at1, n, Seq::empty());
    }
}

/// A mesh lies within the input.
pub proof fn lemma_within_mesh(s: Seq<u8>, pos: int)
    ensures
        spec_within(spec_read_mesh(s, pos), pos, s.len() as int),
{
    lemma_within_basic(s, pos);
    if let Ok((vertices, at1)) = spec_read_f32_array(s, pos) {
        lemma_within_basic(s, at1);
        if let Ok((uvs, at2)) = spec_read_i16_array(s, at1) {
            lemma_within_basic(s, at2);
            if let Ok((normals, at3)) = spec_read_f32_array(s, at2) {
                lemma_within_faces(s, at3);
                if let Ok((elements, at4)) = spec_read_faces(s, at3) {
                    lemma_within_basic(s, at4);
                    if let Ok((skin_weights, at5)) = spec_read_f32_array(s, at4) {
                        lemma_within_basic(s, at5);
                    }
                }
            }
        }
    }
}

/// A run of meshes lies within the input.
pub proof fn lemma_within_meshes(s: Seq<u8>, pos: int, count: int, acc: Seq<MeshView>)
    requires
        0 <= pos <= s.len(),
    ensures
        spec_within(spec_read_meshes(s, pos, count, acc), pos, s.len() as int),
    decreases count,
{
    if count > 0 {
        lemma_within_mesh(s, pos);
        if let Ok((mesh, next)) = spec_read_mesh(s, pos) {
            lemma_within_meshes(s, next, count - 1, acc.push(mesh));
        }
    }
}

/// A joint record lies within the input.
pub proof fn lemma_within_joint_record(s: Seq<u8>, pos: int)
    ensures
        spec_within(spec_read_joint_record(s, pos), pos, s.len() as int),
{
    if let Ok((parent, at1)) = spec_read_i16(s, pos) {
        lemma_within_basic(s, at1);
        if let Ok((name, at2)) = spec_read_string(s, at1) {
            lemma_within_basic(s, at2);
            if let Ok((rotation, at3)) = spec_read_quat(s, at2) {
                lemma_within_basic(s, at3);
            }
        }
    }
}

/// A run of joint records lies within the input.
pub proof fn lemma_within_joint_records(s: Seq<u8>, pos: int, count: int, acc: Seq<JointRecordView>)
    requires
        0 <= pos <= s.len(),
    ensures
        spec_within(spec_read_joint_records(s, pos, count, acc), pos, s.len() as int),
    decreases count,
{
    if count > 0 {
        lemma_within_joint_record(s, pos);
        if let Ok((record, next)) = spec_read_joint_record(s, pos) {
            lemma_within_joint_records(s, next, count - 1, acc.push(record));
        }
    }
}

/// A skeleton lies within the input.
pub proof fn lemma_within_skeleton(s: Seq<u8>, pos: int)
    ensures
        spec_within(spec_parse_skeleton(s, pos), pos, s.len() as int),
{
    if let Ok((n, at1)) = spec_read_count(s, pos) {
        lemma_within_joint_records(s, at1, n, Seq::empty());
    }
}

/// A file ends within the input.
pub proof fn lemma_within_file(s: Seq<u8>)
    ensures
        spec_within(spec_decode_file(s), 0, s.len() as int),
{
    if let Ok((version, at1)) = spec_read_i32(s, 0) {
        if let Ok((mesh_count, at2)) = spec_read_count(s, at1) {
            lemma_within_meshes(s, at2, mesh_count, Seq::empty());
            if let Ok((meshes, at3)) = spec_read_meshes(s, at2, mesh_count, Seq::empty()) {
                if let Ok((influences, at4)) = spec_read_i32(s, at3) {
                    lemma_within_skeleton(s, at4);
                }
            }
        }
    }
}

/// A file that is cut anywhere before its end does not decode: the result
/// is `UnexpectedEof`, never a file with less in it.
pub proof fn lemma_truncated_file_is_eof(s: Seq<u8>, cut: int)
    requires
        spec_decode_file(s) is Ok,
        0 <= cut < spec_decode_file(s).unwrap().1,
    ensures
        spec_parse_animation_file(s.subrange(0, cut)) matches Err(f) && f.kind == DecodeError::UnexpectedEof,
{
    lemma_within_file(s);
    lemma_cut_file(s, cut);
    lemma_within_file(s.subrange(0, cut));
}

} // verus!
