use vstd::prelude::*;
use std::collections::HashMap;
use crate::error::{DecodeError, MeshPart};
use crate::array::{
    read_f32_array, read_i16_array, spec_read_f32_array, spec_read_i16_array,
};
use crate::fixed::{spec_unpack_uvs, unpack_uvs};
use crate::faces::{read_faces, spec_elements, spec_read_faces};

verus! {

/// One block of geometry. Floats are held as their bit patterns.
#[derive(Debug)]
pub struct Mesh {
    /// Vertex positions, three floats per vertex.
    pub vertices: Vec<u32>,
    /// Texture coordinates, two floats per vertex.
    pub uvs: Vec<u32>,
    /// Vertex normals, three floats per vertex.
    pub normals: Vec<u32>,
    /// For each material index its triangles, three vertex indices each.
    pub elements: HashMap<u32, Vec<u16>>,
    /// Skin weights, as floats.
    pub skin_weights: Vec<u32>,
    /// Joint indices that the skin weights refer to.
    pub skin_indices: Vec<i16>,
}

/// What a `Mesh` holds.
pub ghost struct MeshView {
    pub vertices: Seq<u32>,
    pub uvs: Seq<u32>,
    pub normals: Seq<u32>,
    pub elements: Map<u32, Seq<u16>>,
    pub skin_weights: Seq<u32>,
    pub skin_indices: Seq<i16>,
}

impl View for Mesh {
    type V = MeshView;

    open spec fn view(&self) -> MeshView {
        MeshView {
            vertices: self.vertices@,
            uvs: self.uvs@,
            normals: self.normals@,
            elements: spec_elements(self.elements@),
            skin_weights: self.skin_weights@,
            skin_indices: self.skin_indices@,
        }
    }
}

/// What each of `meshes` holds, in order.
pub open spec fn spec_mesh_views(meshes: Seq<Mesh>) -> Seq<MeshView> {
    Seq::new(meshes.len(), |i: int| meshes[i]@)
}

/// A mesh: vertices, texture coordinates, normals, the face-set table, skin
/// weights and skin indices, in this order. The texture coordinates are
/// stored as 16-bit fixed-point numbers, each of them 4096 times its float.
pub open spec fn spec_read_mesh(s: Seq<u8>, pos: int) -> Result<(MeshView, int), (MeshPart, DecodeError)> {
    match spec_read_f32_array(s, pos) {
        Err(e) => Err((MeshPart::Vertices, e)),
        Ok((vertices, at1)) => match spec_read_i16_array(s, at1) {
            Err(e) => Err((MeshPart::Uvs, e)),
            Ok((fixed_uvs, at2)) => match spec_read_f32_array(s, at2) {
                Err(e) => Err((MeshPart::Normals, e)),
                Ok((normals, at3)) => match spec_read_faces(s, at3) {
                    Err(f) => Err(f),
                    Ok((elements, at4)) => match spec_read_f32_array(s, at4) {
                        Err(e) => Err((MeshPart::SkinWeights, e)),
                        Ok((skin_weights, at5)) => match spec_read_i16_array(s, at5) {
                            Err(e) => Err((MeshPart::SkinIndices, e)),
                            Ok((skin_indices, at6)) => Ok(
                                (
                                    MeshView {
                                        vertices,
                                        uvs: spec_unpack_uvs(fixed_uvs),
                                        normals,
                                        elements,
                                        skin_weights,
                                        skin_indices,
                                    },
                                    at6,
                                ),
                            ),
                        },
                    },
                },
            },
        },
    }
}

/// `count` meshes from `pos` on, appended to `acc` in the order decoded. A
/// failure names the index of the mesh that failed, and its part.
pub open spec fn spec_read_meshes(s: Seq<u8>, pos: int, count: int, acc: Seq<MeshView>) -> Result<(Seq<MeshView>, int), (int, MeshPart, DecodeError)>
    decreases count,
{
    if count <= 0 {
        Ok((acc, pos))
    } else {
        match spec_read_mesh(s, pos) {
            Err((part, e)) => Err((acc.len() as int, part, e)),
            Ok((mesh, next)) => spec_read_meshes(s, next, count - 1, acc.push(mesh)),
        }
    }
}

/// Reads one mesh at `pos`. The first failure comes back with the part of
/// the mesh that failed.
pub fn read_mesh(data: &[u8], pos: usize) -> (r: Result<(Mesh, usize), (MeshPart, DecodeError)>)
    ensures
        match (r, spec_read_mesh(data@, pos as int)) {
            (Ok((mesh, next)), Ok((smesh, snext))) => mesh@ == smesh && next == snext,
            (Err(f), Err(sf)) => f == sf,
            _ => false,
        },
{
    let (vertices, at1) = match read_f32_array(data, pos) {
        Ok(x) => x,
        Err(e) => { return Err((MeshPart::Vertices, e)); },
    };
    let (fixed_uvs, at2) = match read_i16_array(data, at1) {
        Ok(x) => x,
        Err(e) => { return Err((MeshPart::Uvs, e)); },
    };
    let (normals, at3) = match read_f32_array(data, at2) {
        Ok(x) => x,
        Err(e) => { return Err((MeshPart::Normals, e)); },
    };
    let (elements, at4) = match read_faces(data, at3) {
        Ok(x) => x,
        Err(f) => { return Err(f); },
    };
    let (skin_weights, at5) = match read_f32_array(data, at4) {
        Ok(x) => x,
        Err(e) => { return Err((MeshPart::SkinWeights, e)); },
    };
    let (skin_indices, at6) = match read_i16_array(data, at5) {
        Ok(x) => x,
        Err(e) => { return Err((MeshPart::SkinIndices, e)); },
    };
    let uvs = unpack_uvs(&fixed_uvs);
    Ok((Mesh { vertices, uvs, normals, elements, skin_weights, skin_indices }, at6))
}

/// Reads `count` meshes, one after the other, from `pos` on. The first
/// failure ends the reading and comes back with the index of its mesh and
/// the part of the mesh that failed.
pub fn read_meshes(data: &[u8], pos: usize, count: usize) -> (r: Result<(Vec<Mesh>, usize), (usize, MeshPart, DecodeError)>)
    ensures
        match (r, spec_read_meshes(data@, pos as int, count as int, Seq::empty())) {
            (Ok((meshes, next)), Ok((smeshes, snext))) => spec_mesh_views(meshes@) == smeshes && next == snext,
            (Err((at, part, e)), Err((sat, spart, se))) => at == sat && part == spart && e == se,
            _ => false,
        },
        r is Ok ==> r.unwrap().0@.len() == count,
{
    let mut out: Vec<Mesh> = Vec::new();
    let mut cur: usize = pos;
    let mut i: usize = 0;
    assert(spec_mesh_views(out@) =~= Seq::empty());
    while i < count
        invariant
            i <= count,
            out@.len() == i,
            spec_read_meshes(data@, pos as int, count as int, Seq::empty()) == spec_read_meshes(
                data@,
                cur as int,
                count - i,
                spec_mesh_views(out@),
            ),
        decreases count - i,
    {
        match read_mesh(data, cur) {
            Err((part, e)) => { return Err((i, part, e)); },
            Ok((mesh, next)) => {
                assert(spec_mesh_views(out@.push(mesh)) =~= spec_mesh_views(out@).push(mesh@));
                out.push(mesh);
                cur = next;
            },
        }
        i += 1;
    }
    Ok((out, cur))
}

} // verus!
