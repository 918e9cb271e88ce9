use animfile::array::{
    read_array_extent, read_count, read_f32_array, read_i16_array, read_u16_array,
};
use animfile::error::{DecodeError, DecodeFailure, MeshPart, Stage};
use animfile::faces::{expand_quads, read_face_set, read_faces};
use animfile::file::parse_animation_file;
use animfile::fixed::{unpack_uvs, uv_to_f32_bits};
use animfile::mesh::{read_mesh, read_meshes};
use animfile::primitive::{
    read_bytes, read_f32, read_i16, read_i32, read_length_prefixed_string, read_u16, read_u32,
};
use animfile::skeleton::{
    build_joint, build_skeleton, parse_skeleton, read_joint_record, read_joint_records, read_quat,
    read_vec3, JointRecord,
};

fn put_i32(out: &mut Vec<u8>, v: i32) {
    out.extend_from_slice(&v.to_le_bytes());
}

fn put_u32(out: &mut Vec<u8>, v: u32) {
    out.extend_from_slice(&v.to_le_bytes());
}

fn put_i16(out: &mut Vec<u8>, v: i16) {
    out.extend_from_slice(&v.to_le_bytes());
}

fn put_u16(out: &mut Vec<u8>, v: u16) {
    out.extend_from_slice(&v.to_le_bytes());
}

fn put_f32(out: &mut Vec<u8>, v: f32) {
    out.extend_from_slice(&v.to_bits().to_le_bytes());
}

fn put_u16_array(out: &mut Vec<u8>, items: &[u16]) {
    put_i32(out, items.len() as i32);
    for &v in items {
        put_u16(out, v);
    }
}

fn put_i16_array(out: &mut Vec<u8>, items: &[i16]) {
    put_i32(out, items.len() as i32);
    for &v in items {
        put_i16(out, v);
    }
}

fn put_f32_array(out: &mut Vec<u8>, items: &[f32]) {
    put_i32(out, items.len() as i32);
    for &v in items {
        put_f32(out, v);
    }
}

fn put_face_set(out: &mut Vec<u8>, material: u32, quads: &[u16], triangles: &[u16]) {
    put_u32(out, material);
    put_u16_array(out, quads);
    put_u16_array(out, triangles);
}

fn put_joint(out: &mut Vec<u8>, parent: i16, name: &[u8], rotation: [f32; 4], translation: [f32; 3]) {
    put_i16(out, parent);
    put_u16(out, name.len() as u16);
    out.extend_from_slice(name);
    for v in rotation {
        put_f32(out, v);
    }
    for v in translation {
        put_f32(out, v);
    }
}

fn sample_mesh(out: &mut Vec<u8>) {
    put_f32_array(out, &[0.0, 1.0, 2.0, 3.0, 4.0, 5.0]);
    put_i16_array(out, &[4096, -4096, 0, 2048]);
    put_f32_array(out, &[0.0, 0.0, 1.0, 0.0, 1.0, 0.0]);
    put_i32(out, 2);
    put_face_set(out, 7, &[0, 1, 2, 3], &[9, 8, 7]);
    put_face_set(out, 3, &[], &[1, 2, 3]);
    put_f32_array(out, &[0.25, 0.75]);
    put_i16_array(out, &[0, 1]);
}

fn sample_file() -> Vec<u8> {
    let mut out = Vec::new();
    put_i32(&mut out, 1);
    put_i32(&mut out, 2);
    sample_mesh(&mut out);
    sample_mesh(&mut out);
    put_i32(&mut out, 4);
    put_i32(&mut out, 2);
    put_joint(&mut out, 1, b"child", [0.0, 0.0, 0.0, 1.0], [1.0, 2.0, 3.0]);
    put_joint(&mut out, -1, b"root", [1.0, 0.0, 0.0, 0.0], [0.0, 0.0, 0.0]);
    out
}

fn record(parent: i16, name: &str) -> JointRecord {
    JointRecord {
        parent_idx: parent,
        name: String::from(name),
        rotation: (0, 0, 0, 1.0f32.to_bits()),
        translation: (0, 0, 0),
    }
}

#[test]
fn fixed_width_integers_are_little_endian() {
    let data = [0x34u8, 0x12, 0xfe, 0xff, 0x78, 0x56, 0x34, 0x12, 0xff, 0xff, 0xff, 0xff];
    assert_eq!(read_u16(&data, 0), Ok((0x1234, 2)));
    assert_eq!(read_i16(&data, 0), Ok((0x1234, 2)));
    assert_eq!(read_u16(&data, 2), Ok((0xfffe, 4)));
    assert_eq!(read_i16(&data, 2), Ok((-2, 4)));
    assert_eq!(read_u32(&data, 4), Ok((0x12345678, 8)));
    assert_eq!(read_i32(&data, 4), Ok((0x12345678, 8)));
    assert_eq!(read_u32(&data, 8), Ok((0xffffffff, 12)));
    assert_eq!(read_i32(&data, 8), Ok((-1, 12)));
    assert_eq!(read_i32(&data, 0), Ok((0xfffe1234u32 as i32, 4)));
}

#[test]
fn float_is_read_as_its_bits() {
    let mut data = Vec::new();
    put_f32(&mut data, 1.5);
    let (bits, next) = read_f32(&data, 0).unwrap();
    assert_eq!(f32::from_bits(bits), 1.5);
    assert_eq!(next, 4);
}

#[test]
fn short_input_is_unexpected_eof() {
    let data = [1u8, 2, 3];
    assert_eq!(read_u16(&data, 2), Err(DecodeError::UnexpectedEof));
    assert_eq!(read_i16(&data, 3), Err(DecodeError::UnexpectedEof));
    assert_eq!(read_u32(&data, 0), Err(DecodeError::UnexpectedEof));
    assert_eq!(read_i32(&data, 0), Err(DecodeError::UnexpectedEof));
    assert_eq!(read_f32(&data, 0), Err(DecodeError::UnexpectedEof));
    assert_eq!(read_i32(&data, 100), Err(DecodeError::UnexpectedEof));
    assert_eq!(read_i32(&data, usize::MAX), Err(DecodeError::UnexpectedEof));
    assert_eq!(read_bytes(&data, 1, 3), Err(DecodeError::UnexpectedEof));
    assert_eq!(read_bytes(&data, 1, usize::MAX), Err(DecodeError::UnexpectedEof));
}

#[test]
fn read_bytes_takes_exactly_the_width() {
    let data = [1u8, 2, 3, 4, 5];
    let (bytes, next) = read_bytes(&data, 1, 3).unwrap();
    assert_eq!(bytes, &[2u8, 3, 4][..]);
    assert_eq!(next, 4);
    let (none, same) = read_bytes(&data, 5, 0).unwrap();
    assert!(none.is_empty());
    assert_eq!(same, 5);
}

#[test]
fn string_is_length_prefixed_utf8() {
    let mut data = vec![0xaau8];
    put_u16(&mut data, 6);
    data.extend_from_slice("héllo".as_bytes());
    data.push(0x55);
    let (s, next) = read_length_prefixed_string(&data, 1).unwrap();
    assert_eq!(s, "héllo");
    assert_eq!(next, 9);
}

#[test]
fn empty_string_is_read() {
    let data = [0u8, 0];
    assert_eq!(read_length_prefixed_string(&data, 0), Ok((String::new(), 2)));
}

#[test]
fn invalid_utf8_name_is_rejected() {
    let mut data = Vec::new();
    put_u16(&mut data, 2);
    data.extend_from_slice(&[0xc3, 0x28]);
    assert_eq!(read_length_prefixed_string(&data, 0), Err(DecodeError::InvalidUtf8));

    let mut joint = Vec::new();
    put_joint(&mut joint, -1, &[0xff, 0xfe], [0.0; 4], [0.0; 3]);
    assert!(matches!(read_joint_record(&joint, 0), Err(DecodeError::InvalidUtf8)));
}

#[test]
fn truncated_string_is_unexpected_eof() {
    let mut data = Vec::new();
    put_u16(&mut data, 5);
    data.extend_from_slice(b"abcd");
    assert_eq!(read_length_prefixed_string(&data, 0), Err(DecodeError::UnexpectedEof));
    assert_eq!(read_length_prefixed_string(&data[..1], 0), Err(DecodeError::UnexpectedEof));
}

#[test]
fn count_must_not_be_negative() {
    let mut data = Vec::new();
    put_i32(&mut data, -1);
    data.extend_from_slice(&[0u8; 16]);
    assert_eq!(read_count(&data, 0), Err(DecodeError::MalformedCount));
    assert_eq!(read_u16_array(&data, 0), Err(DecodeError::MalformedCount));
    assert_eq!(read_i16_array(&data, 0), Err(DecodeError::MalformedCount));
    assert_eq!(read_f32_array(&data, 0), Err(DecodeError::MalformedCount));
    assert!(matches!(read_faces(&data, 0), Err((MeshPart::FaceSetCount, DecodeError::MalformedCount))));

    let mut lowest = Vec::new();
    put_i32(&mut lowest, i32::MIN);
    assert_eq!(read_f32_array(&lowest, 0), Err(DecodeError::MalformedCount));
}

#[test]
fn count_is_read() {
    let mut data = Vec::new();
    put_i32(&mut data, 0);
    put_i32(&mut data, i32::MAX);
    assert_eq!(read_count(&data, 0), Ok((0, 4)));
    assert_eq!(read_count(&data, 4), Ok((i32::MAX as usize, 8)));
    assert_eq!(read_count(&data, 6), Err(DecodeError::UnexpectedEof));
}

#[test]
fn array_extent_is_checked_before_the_elements_are_read() {
    let mut data = Vec::new();
    put_i32(&mut data, 3);
    data.extend_from_slice(&[0u8; 11]);
    assert_eq!(read_array_extent(&data, 0, 2), Ok((3, 4)));
    assert_eq!(read_array_extent(&data, 0, 3), Ok((3, 4)));
    assert_eq!(read_array_extent(&data, 0, 4), Err(DecodeError::UnexpectedEof));
    assert_eq!(read_array_extent(&data, 0, usize::MAX), Err(DecodeError::UnexpectedEof));
    assert_eq!(read_array_extent(&data, 0, 0), Ok((3, 4)));
    assert_eq!(read_array_extent(&data, 13, 2), Err(DecodeError::UnexpectedEof));
    let mut negative = Vec::new();
    put_i32(&mut negative, -3);
    assert_eq!(read_array_extent(&negative, 0, 2), Err(DecodeError::MalformedCount));
}

#[test]
fn array_length_is_the_declared_count() {
    let mut data = Vec::new();
    put_u16_array(&mut data, &[1, 2, 0xffff]);
    put_i16_array(&mut data, &[-1, i16::MIN, i16::MAX, 0]);
    put_f32_array(&mut data, &[1.0, -2.5]);
    put_u16_array(&mut data, &[]);
    let (a, at1) = read_u16_array(&data, 0).unwrap();
    assert_eq!(a, vec![1, 2, 0xffff]);
    assert_eq!(at1, 10);
    let (b, at2) = read_i16_array(&data, at1).unwrap();
    assert_eq!(b, vec![-1, i16::MIN, i16::MAX, 0]);
    assert_eq!(at2, 22);
    let (c, at3) = read_f32_array(&data, at2).unwrap();
    assert_eq!(c.len(), 2);
    assert_eq!(f32::from_bits(c[0]), 1.0);
    assert_eq!(f32::from_bits(c[1]), -2.5);
    assert_eq!(at3, 34);
    let (d, at4) = read_u16_array(&data, at3).unwrap();
    assert!(d.is_empty());
    assert_eq!(at4, data.len());
}

#[test]
fn truncated_array_is_unexpected_eof() {
    let mut data = Vec::new();
    put_u16_array(&mut data, &[1, 2, 3]);
    for cut in 0..data.len() {
        assert_eq!(read_u16_array(&data[..cut], 0), Err(DecodeError::UnexpectedEof));
        assert_eq!(read_i16_array(&data[..cut], 0), Err(DecodeError::UnexpectedEof));
    }
    let mut floats = Vec::new();
    put_f32_array(&mut floats, &[1.0, 2.0]);
    for cut in 0..floats.len() {
        assert_eq!(read_f32_array(&floats[..cut], 0), Err(DecodeError::UnexpectedEof));
    }
    let mut huge = Vec::new();
    put_i32(&mut huge, i32::MAX);
    huge.extend_from_slice(&[0u8; 8]);
    assert_eq!(read_f32_array(&huge, 0), Err(DecodeError::UnexpectedEof));
}

#[test]
fn quad_becomes_two_triangles() {
    assert_eq!(expand_quads(&vec![0, 1, 2, 3], Vec::new()), Ok(vec![0, 1, 3, 1, 2, 3]));
}

#[test]
fn quads_follow_the_given_triangles() {
    let quads = vec![10, 11, 12, 13, 20, 21, 22, 23];
    let out = expand_quads(&quads, vec![1, 2, 3]).unwrap();
    assert_eq!(out, vec![1, 2, 3, 10, 11, 13, 11, 12, 13, 20, 21, 23, 21, 22, 23]);
    assert_eq!(expand_quads(&Vec::new(), vec![4, 5, 6]), Ok(vec![4, 5, 6]));
}

#[test]
fn quad_array_must_hold_whole_quads() {
    assert_eq!(expand_quads(&vec![0, 1, 2], Vec::new()), Err(DecodeError::InvalidTopology));
    assert_eq!(expand_quads(&vec![0, 1, 2, 3, 4], vec![1]), Err(DecodeError::InvalidTopology));
    let mut data = Vec::new();
    put_face_set(&mut data, 1, &[0, 1, 2, 3, 4, 5], &[0, 1, 2]);
    assert_eq!(read_face_set(&data, 0), Err(DecodeError::InvalidTopology));
}

#[test]
fn face_set_is_read() {
    let mut data = Vec::new();
    put_face_set(&mut data, 0xdeadbeef, &[0, 1, 2, 3], &[5, 6, 7]);
    let len = data.len();
    assert_eq!(read_face_set(&data, 0), Ok((0xdeadbeef, vec![5, 6, 7, 0, 1, 3, 1, 2, 3], len)));
    assert_eq!(read_face_set(&data[..len - 1], 0), Err(DecodeError::UnexpectedEof));
}

#[test]
fn later_face_set_replaces_earlier_of_same_material() {
    let mut data = Vec::new();
    put_i32(&mut data, 3);
    put_face_set(&mut data, 5, &[], &[1, 2, 3]);
    put_face_set(&mut data, 6, &[], &[7, 8, 9]);
    put_face_set(&mut data, 5, &[0, 1, 2, 3], &[4, 5, 6]);
    let (map, next) = read_faces(&data, 0).unwrap();
    assert_eq!(next, data.len());
    assert_eq!(map.len(), 2);
    assert_eq!(map[&5], vec![4, 5, 6, 0, 1, 3, 1, 2, 3]);
    assert_eq!(map[&6], vec![7, 8, 9]);
}

#[test]
fn empty_face_table_is_read() {
    let mut data = Vec::new();
    put_i32(&mut data, 0);
    let (map, next) = read_faces(&data, 0).unwrap();
    assert!(map.is_empty());
    assert_eq!(next, 4);
}

#[test]
fn face_table_fails_on_missing_face_set() {
    let mut data = Vec::new();
    put_i32(&mut data, 2);
    put_face_set(&mut data, 5, &[], &[1, 2, 3]);
    assert!(matches!(read_faces(&data, 0), Err((MeshPart::FaceSet(1), DecodeError::UnexpectedEof))));
}

#[test]
fn mesh_fields_come_in_order() {
    let mut data = Vec::new();
    sample_mesh(&mut data);
    let (mesh, next) = match read_mesh(&data, 0) {
        Ok(x) => x,
        Err(e) => panic!("{:?}", e),
    };
    assert_eq!(next, data.len());
    let vertices: Vec<f32> = mesh.vertices.iter().map(|&b| f32::from_bits(b)).collect();
    assert_eq!(vertices, vec![0.0, 1.0, 2.0, 3.0, 4.0, 5.0]);
    let uvs: Vec<f32> = mesh.uvs.iter().map(|&b| f32::from_bits(b)).collect();
    assert_eq!(uvs, vec![1.0, -1.0, 0.0, 0.5]);
    let normals: Vec<f32> = mesh.normals.iter().map(|&b| f32::from_bits(b)).collect();
    assert_eq!(normals, vec![0.0, 0.0, 1.0, 0.0, 1.0, 0.0]);
    assert_eq!(mesh.elements.len(), 2);
    assert_eq!(mesh.elements[&7], vec![9, 8, 7, 0, 1, 3, 1, 2, 3]);
    assert_eq!(mesh.elements[&3], vec![1, 2, 3]);
    let weights: Vec<f32> = mesh.skin_weights.iter().map(|&b| f32::from_bits(b)).collect();
    assert_eq!(weights, vec![0.25, 0.75]);
    assert_eq!(mesh.skin_indices, vec![0, 1]);
}

#[test]
fn fixed_point_uv_of_one_and_minus_one() {
    assert_eq!(uv_to_f32_bits(4096), 0x3f80_0000);
    assert_eq!(uv_to_f32_bits(-4096), 0xbf80_0000);
    assert_eq!(uv_to_f32_bits(0), 0);
    assert_eq!(f32::from_bits(uv_to_f32_bits(4096)), 1.0);
    assert_eq!(f32::from_bits(uv_to_f32_bits(-4096)), -1.0);
    assert_eq!(f32::from_bits(uv_to_f32_bits(0)), 0.0);
}

#[test]
fn fixed_point_uv_is_exact_for_every_value() {
    for raw in i16::MIN..=i16::MAX {
        let expected = (raw as f32) / 4096.0;
        assert_eq!(uv_to_f32_bits(raw), expected.to_bits());
    }
}

#[test]
fn fixed_point_uv_edge_values() {
    assert_eq!(f32::from_bits(uv_to_f32_bits(1)), 0.000244140625);
    assert_eq!(f32::from_bits(uv_to_f32_bits(-1)), -0.000244140625);
    assert_eq!(f32::from_bits(uv_to_f32_bits(i16::MAX)), 7.999755859375);
    assert_eq!(f32::from_bits(uv_to_f32_bits(i16::MIN)), -8.0);
    assert_eq!(f32::from_bits(uv_to_f32_bits(6144)), 1.5);
}

#[test]
fn uvs_are_unpacked_one_for_one() {
    let uvs = unpack_uvs(&vec![4096, -4096, 0, 2048, 1024]);
    let floats: Vec<f32> = uvs.iter().map(|&b| f32::from_bits(b)).collect();
    assert_eq!(floats, vec![1.0, -1.0, 0.0, 0.5, 0.25]);
    assert!(unpack_uvs(&Vec::new()).is_empty());
}

#[test]
fn truncated_mesh_is_unexpected_eof() {
    let mut data = Vec::new();
    sample_mesh(&mut data);
    for cut in 0..data.len() {
        assert!(matches!(read_mesh(&data[..cut], 0), Err((_, DecodeError::UnexpectedEof))));
    }
}

#[test]
fn mesh_failure_names_its_part() {
    let mut data = Vec::new();
    sample_mesh(&mut data);
    let parts = [
        (0, MeshPart::Vertices),
        (28, MeshPart::Uvs),
        (40, MeshPart::Normals),
        (68, MeshPart::FaceSetCount),
        (72, MeshPart::FaceSet(0)),
        (98, MeshPart::FaceSet(1)),
        (116, MeshPart::SkinWeights),
        (128, MeshPart::SkinIndices),
    ];
    for (cut, part) in parts {
        match read_mesh(&data[..cut + 1], 0) {
            Ok(_) => panic!("decoded a mesh cut at {}", cut + 1),
            Err(f) => assert_eq!(f, (part, DecodeError::UnexpectedEof)),
        }
    }
    assert_eq!(data.len(), 136);
}

#[test]
fn meshes_fail_with_the_index_of_the_mesh() {
    let mut data = Vec::new();
    sample_mesh(&mut data);
    let one = data.len();
    sample_mesh(&mut data);
    match read_meshes(&data, 0, 2) {
        Ok((meshes, next)) => {
            assert_eq!(meshes.len(), 2);
            assert_eq!(next, data.len());
        },
        Err(e) => panic!("{:?}", e),
    }
    assert!(matches!(read_meshes(&data, 0, 3), Err((2, MeshPart::Vertices, DecodeError::UnexpectedEof))));
    assert!(matches!(
        read_meshes(&data[..one + 5], 0, 2),
        Err((1, MeshPart::Vertices, DecodeError::UnexpectedEof))
    ));
    assert!(matches!(read_meshes(&data, 0, 0), Ok((ref m, 0)) if m.is_empty()));
}

#[test]
fn vectors_are_read_component_by_component() {
    let mut data = Vec::new();
    for v in [1.0f32, 2.0, 3.0, 4.0] {
        put_f32(&mut data, v);
    }
    assert_eq!(read_vec3(&data, 0), Ok(((1.0f32.to_bits(), 2.0f32.to_bits(), 3.0f32.to_bits()), 12)));
    assert_eq!(
        read_quat(&data, 0),
        Ok(((1.0f32.to_bits(), 2.0f32.to_bits(), 3.0f32.to_bits(), 4.0f32.to_bits()), 16))
    );
    assert_eq!(read_vec3(&data, 8), Err(DecodeError::UnexpectedEof));
    assert_eq!(read_quat(&data, 4), Err(DecodeError::UnexpectedEof));
}

#[test]
fn joint_record_is_read() {
    let mut data = Vec::new();
    put_joint(&mut data, 3, b"arm", [0.5, 0.0, 0.0, 1.0], [1.0, 2.0, 3.0]);
    let (rec, next) = match read_joint_record(&data, 0) {
        Ok(x) => x,
        Err(e) => panic!("{:?}", e),
    };
    assert_eq!(next, data.len());
    assert_eq!(rec.parent_idx, 3);
    assert_eq!(rec.name, "arm");
    assert_eq!(rec.rotation, (0.5f32.to_bits(), 0, 0, 1.0f32.to_bits()));
    assert_eq!(rec.translation, (1.0f32.to_bits(), 2.0f32.to_bits(), 3.0f32.to_bits()));
    for cut in 0..data.len() {
        assert!(matches!(read_joint_record(&data[..cut], 0), Err(DecodeError::UnexpectedEof)));
    }
}

#[test]
fn joint_records_fail_with_the_index_of_the_record() {
    let mut data = Vec::new();
    put_joint(&mut data, -1, b"a", [0.0; 4], [0.0; 3]);
    put_joint(&mut data, 0, &[0x80], [0.0; 4], [0.0; 3]);
    assert!(matches!(read_joint_records(&data, 0, 2), Err((1, DecodeError::InvalidUtf8))));
    assert!(matches!(read_joint_records(&data, 0, 1), Ok((ref r, 33)) if r.len() == 1));
}

#[test]
fn skeleton_does_not_depend_on_record_order() {
    let forward = vec![record(-1, "root"), record(0, "child")];
    let joints = match build_skeleton(&forward) {
        Ok(j) => j,
        Err(e) => panic!("{:?}", e),
    };
    assert_eq!(joints.len(), 2);
    assert_eq!(joints[0].name, "root");
    assert_eq!(joints[0].parent, None);
    assert_eq!(joints[1].name, "child");
    assert_eq!(joints[1].parent, Some(0));
    assert_eq!(joints[joints[1].parent.unwrap()].name, "root");

    let backward = vec![record(1, "child"), record(-1, "root")];
    let joints = match build_skeleton(&backward) {
        Ok(j) => j,
        Err(e) => panic!("{:?}", e),
    };
    assert_eq!(joints.len(), 2);
    assert_eq!(joints[0].name, "child");
    assert_eq!(joints[0].parent, Some(1));
    assert_eq!(joints[1].name, "root");
    assert_eq!(joints[1].parent, None);
    assert_eq!(joints[joints[0].parent.unwrap()].name, "root");
}

#[test]
fn siblings_share_one_parent() {
    let table = vec![record(2, "left"), record(2, "right"), record(-1, "hip")];
    let joints = match build_skeleton(&table) {
        Ok(j) => j,
        Err(e) => panic!("{:?}", e),
    };
    assert_eq!(joints[0].parent, Some(2));
    assert_eq!(joints[1].parent, Some(2));
    assert_eq!(joints[2].parent, None);
    assert_eq!(joints[2].rotation, (0, 0, 0, 1.0f32.to_bits()));
}

#[test]
fn long_chain_is_resolved() {
    let n: i16 = 200;
    let mut table = Vec::new();
    for i in 0..n {
        table.push(record(if i + 1 < n { i + 1 } else { -1 }, "j"));
    }
    let joints = match build_skeleton(&table) {
        Ok(j) => j,
        Err(e) => panic!("{:?}", e),
    };
    assert_eq!(joints.len(), 200);
    assert_eq!(joints[0].parent, Some(1));
    assert_eq!(joints[199].parent, None);
}

#[test]
fn dangling_parent_is_rejected() {
    let out_of_range = vec![record(-1, "root"), record(2, "lost")];
    assert!(matches!(build_skeleton(&out_of_range), Err((1, DecodeError::DanglingReference))));
    assert!(matches!(build_joint(&out_of_range, 1), Err(DecodeError::DanglingReference)));
    assert!(matches!(build_joint(&out_of_range, 0), Ok(ref j) if j.parent.is_none()));

    let negative = vec![record(-2, "odd")];
    assert!(matches!(build_skeleton(&negative), Err((0, DecodeError::DanglingReference))));

    let own_parent = vec![record(0, "self")];
    assert!(matches!(build_skeleton(&own_parent), Err((0, DecodeError::DanglingReference))));

    let cycle = vec![record(-1, "root"), record(2, "a"), record(1, "b")];
    assert!(matches!(build_skeleton(&cycle), Err((1, DecodeError::DanglingReference))));

    let into_cycle = vec![record(-1, "root"), record(0, "fine"), record(3, "x"), record(4, "a"), record(3, "b")];
    assert!(matches!(build_skeleton(&into_cycle), Err((2, DecodeError::DanglingReference))));
}

#[test]
fn empty_table_gives_empty_skeleton() {
    assert!(matches!(build_skeleton(&Vec::new()), Ok(ref j) if j.is_empty()));
}

#[test]
fn skeleton_is_parsed_from_bytes() {
    let mut data = Vec::new();
    put_i32(&mut data, 2);
    put_joint(&mut data, 1, b"child", [0.0, 0.0, 0.0, 1.0], [1.0, 2.0, 3.0]);
    put_joint(&mut data, -1, b"root", [1.0, 0.0, 0.0, 0.0], [0.0, 0.0, 0.0]);
    let (joints, next) = match parse_skeleton(&data, 0) {
        Ok(x) => x,
        Err(e) => panic!("{:?}", e),
    };
    assert_eq!(next, data.len());
    assert_eq!(joints[0].name, "child");
    assert_eq!(joints[0].parent, Some(1));
    assert_eq!(joints[0].translation, (1.0f32.to_bits(), 2.0f32.to_bits(), 3.0f32.to_bits()));
    assert_eq!(joints[1].name, "root");
    assert_eq!(joints[1].parent, None);
}

#[test]
fn skeleton_failure_names_its_stage() {
    let mut negative = Vec::new();
    put_i32(&mut negative, -1);
    assert!(matches!(
        parse_skeleton(&negative, 0),
        Err(DecodeFailure { stage: Stage::JointCount, kind: DecodeError::MalformedCount })
    ));

    let mut short = Vec::new();
    put_i32(&mut short, 2);
    put_joint(&mut short, -1, b"root", [0.0; 4], [0.0; 3]);
    assert!(matches!(
        parse_skeleton(&short, 0),
        Err(DecodeFailure { stage: Stage::JointRecord(1), kind: DecodeError::UnexpectedEof })
    ));

    let mut dangling = Vec::new();
    put_i32(&mut dangling, 2);
    put_joint(&mut dangling, -1, b"root", [0.0; 4], [0.0; 3]);
    put_joint(&mut dangling, 1, b"loop", [0.0; 4], [0.0; 3]);
    assert!(matches!(
        parse_skeleton(&dangling, 0),
        Err(DecodeFailure { stage: Stage::JointParent(1), kind: DecodeError::DanglingReference })
    ));
}

#[test]
fn whole_file_is_decoded() {
    let mut data = sample_file();
    data.extend_from_slice(&[0xde, 0xad]);
    let file = match parse_animation_file(&data) {
        Ok(f) => f,
        Err(e) => panic!("{:?}", e),
    };
    assert_eq!(file.influences_per_vertex, 4);
    assert_eq!(file.meshes.len(), 2);
    assert_eq!(file.meshes[1].uvs, vec![1.0f32.to_bits(), (-1.0f32).to_bits(), 0, 0.5f32.to_bits()]);
    assert_eq!(file.meshes[1].elements[&7], vec![9, 8, 7, 0, 1, 3, 1, 2, 3]);
    assert_eq!(file.skeleton.len(), 2);
    assert_eq!(file.skeleton[0].name, "child");
    assert_eq!(file.skeleton[0].parent, Some(1));
    assert_eq!(file.skeleton[file.skeleton[0].parent.unwrap()].name, "root");
}

#[test]
fn truncated_file_is_never_decoded() {
    let data = sample_file();
    for cut in 0..data.len() {
        match parse_animation_file(&data[..cut]) {
            Ok(_) => panic!("decoded a file cut at {}", cut),
            Err(f) => assert_eq!(f.kind, DecodeError::UnexpectedEof),
        }
    }
}

#[test]
fn file_failure_names_its_stage() {
    let data = sample_file();
    assert!(matches!(
        parse_animation_file(&data[..2]),
        Err(DecodeFailure { stage: Stage::Version, kind: DecodeError::UnexpectedEof })
    ));
    assert!(matches!(
        parse_animation_file(&data[..6]),
        Err(DecodeFailure { stage: Stage::MeshCount, kind: DecodeError::UnexpectedEof })
    ));
    assert!(matches!(
        parse_animation_file(&data[..9]),
        Err(DecodeFailure { stage: Stage::Mesh(0, MeshPart::Vertices), kind: DecodeError::UnexpectedEof })
    ));
    let mut mesh = Vec::new();
    sample_mesh(&mut mesh);
    let after_meshes = 8 + 2 * mesh.len();
    assert!(matches!(
        parse_animation_file(&data[..after_meshes - 1]),
        Err(DecodeFailure { stage: Stage::Mesh(1, MeshPart::SkinIndices), kind: DecodeError::UnexpectedEof })
    ));
    assert!(matches!(
        parse_animation_file(&data[..after_meshes + 3]),
        Err(DecodeFailure { stage: Stage::InfluencesPerVertex, kind: DecodeError::UnexpectedEof })
    ));
    assert!(matches!(
        parse_animation_file(&data[..after_meshes + 6]),
        Err(DecodeFailure { stage: Stage::JointCount, kind: DecodeError::UnexpectedEof })
    ));
    assert!(matches!(
        parse_animation_file(&data[..data.len() - 1]),
        Err(DecodeFailure { stage: Stage::JointRecord(1), kind: DecodeError::UnexpectedEof })
    ));

    let mut bad_count = Vec::new();
    put_i32(&mut bad_count, 1);
    put_i32(&mut bad_count, -5);
    assert!(matches!(
        parse_animation_file(&bad_count),
        Err(DecodeFailure { stage: Stage::MeshCount, kind: DecodeError::MalformedCount })
    ));

    let mut bad_topology = Vec::new();
    put_i32(&mut bad_topology, 1);
    put_i32(&mut bad_topology, 1);
    put_f32_array(&mut bad_topology, &[]);
    put_i16_array(&mut bad_topology, &[]);
    put_f32_array(&mut bad_topology, &[]);
    put_i32(&mut bad_topology, 1);
    put_face_set(&mut bad_topology, 0, &[1, 2, 3], &[]);
    assert!(matches!(
        parse_animation_file(&bad_topology),
        Err(DecodeFailure { stage: Stage::Mesh(0, MeshPart::FaceSet(0)), kind: DecodeError::InvalidTopology })
    ));
}
