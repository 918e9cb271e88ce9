use vstd::prelude::*;
use crate::error::{DecodeFailure, Stage};
use crate::primitive::{read_i32, spec_i32_le, spec_read_i32};
use crate::array::{read_count, spec_read_count};
use crate::mesh::{read_meshes, spec_mesh_views, spec_read_meshes, Mesh, MeshView};
use crate::skeleton::{
    parse_skeleton, spec_forest, spec_joint_views, spec_parse_skeleton, Joint, JointView,
};

verus! {

/// A decoded animation file.
#[derive(Debug)]
pub struct AnimationFile {
    pub meshes: Vec<Mesh>,
    /// The joints, each at the index of its row in the file's joint table.
    pub skeleton: Vec<Joint>,
    pub influences_per_vertex: i32,
}

/// What an `AnimationFile` holds.
pub ghost struct AnimationFileView {
    pub meshes: Seq<MeshView>,
    pub skeleton: Seq<JointView>,
    pub influences_per_vertex: i32,
}

impl View for AnimationFile {
    type V = AnimationFileView;

    open spec fn view(&self) -> AnimationFileView {
        AnimationFileView {
            meshes: spec_mesh_views(self.meshes@),
            skeleton: spec_joint_views(self.skeleton@),
            influences_per_vertex: self.influences_per_vertex,
        }
    }
}

impl AnimationFile {
    /// Whether the skeleton is a forest: each parent is one of its joints,
    /// and no chain of parents runs in a cycle.
    pub open spec fn well_formed(&self) -> bool {
        spec_forest(spec_joint_views(self.skeleton@))
    }
}

/// The file that the bytes `s` hold, and where it ends in `s`: a version,
/// which is passed over, the meshes, the number of skin influences per
/// vertex, and the skeleton. A failure names the part at which the decoding
/// stopped.
pub open spec fn spec_decode_file(s: Seq<u8>) -> Result<(AnimationFileView, int), DecodeFailure> {
    match spec_read_i32(s, 0) {
        Err(e) => Err(DecodeFailure { stage: Stage::Version, kind: e }),
        Ok((version, at1)) => match spec_read_count(s, at1) {
            Err(e) => Err(DecodeFailure { stage: Stage::MeshCount, kind: e }),
            Ok((mesh_count, at2)) => match spec_read_meshes(s, at2, mesh_count, Seq::empty()) {
                Err((at, part, e)) => Err(DecodeFailure { stage: Stage::Mesh(at as usize, part), kind: e }),
                Ok((meshes, at3)) => match spec_read_i32(s, at3) {
                    Err(e) => Err(DecodeFailure { stage: Stage::InfluencesPerVertex, kind: e }),
                    Ok((influences, at4)) => match spec_parse_skeleton(s, at4) {
                        Err(f) => Err(f),
                        Ok((skeleton, at5)) => Ok(
                            (AnimationFileView { meshes, skeleton, influences_per_vertex: influences as i32 }, at5),
                        ),
                    },
                },
            },
        },
    }
}

/// The file that the bytes `s` hold. Bytes behind the file's end are not
/// looked at.
pub open spec fn spec_parse_animation_file(s: Seq<u8>) -> Result<AnimationFileView, DecodeFailure> {
    match spec_decode_file(s) {
        Err(f) => Err(f),
        Ok((file, end)) => Ok(file),
    }
}

/// Decodes a whole animation file from its bytes. Either all of it is
/// decoded, or the first failure comes back with the part of the file at
/// which it happened.
pub fn parse_animation_file(data: &[u8]) -> (r: Result<AnimationFile, DecodeFailure>)
    ensures
        match (r, spec_parse_animation_file(data@)) {
            (Ok(file), Ok(sfile)) => file@ == sfile,
            (Err(f), Err(sf)) => f == sf,
            _ => false,
        },
        r is Ok ==> r.unwrap().meshes@.len() == spec_i32_le(data@, 4),
        r is Ok ==> r.unwrap().well_formed(),
{
    let (_version, at1) = match read_i32(data, 0) {
        Ok(x) => x,
        Err(e) => { return Err(DecodeFailure { stage: Stage::Version, kind: e }); },
    };
    let (mesh_count, at2) = match read_count(data, at1) {
        Ok(x) => x,
        Err(e) => { return Err(DecodeFailure { stage: Stage::MeshCount, kind: e }); },
    };
    let (meshes, at3) = match read_meshes(data, at2, mesh_count) {
        Ok(x) => x,
        Err((at, part, e)) => { return Err(DecodeFailure { stage: Stage::Mesh(at, part), kind: e }); },
    };
    let (influences_per_vertex, at4) = match read_i32(data, at3) {
        Ok(x) => x,
        Err(e) => { return Err(DecodeFailure { stage: Stage::InfluencesPerVertex, kind: e }); },
    };
    let (skeleton, _end) = match parse_skeleton(data, at4) {
        Ok(x) => x,
        Err(f) => { return Err(f); },
    };
    Ok(AnimationFile { meshes, skeleton, influences_per_vertex })
}

} // verus!
