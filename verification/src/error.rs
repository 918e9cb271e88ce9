use vstd::prelude::*;

verus! {

/// Why a decode step failed.
#[derive(Clone, Copy, Debug, PartialEq, Eq, Structural)]
pub enum DecodeError {
    /// The bytes ended before a field or an array was complete.
    UnexpectedEof,
    /// A length prefix is negative.
    MalformedCount,
    /// The bytes of a string are not valid UTF-8.
    InvalidUtf8,
    /// The length of a quad index array is not a multiple of four.
    InvalidTopology,
    /// A joint's parent index lies outside the table or is part of a cycle.
    DanglingReference,
}

/// The part of a mesh that was being decoded.
#[derive(Clone, Copy, Debug, PartialEq, Eq, Structural)]
pub enum MeshPart {
    Vertices,
    Uvs,
    Normals,
    /// The number of face sets.
    FaceSetCount,
    /// The face set of this index.
    FaceSet(usize),
    SkinWeights,
    SkinIndices,
}

/// The part of the file that was being decoded.
#[derive(Clone, Copy, Debug, PartialEq, Eq, Structural)]
pub enum Stage {
    /// The version number.
    Version,
    /// The number of meshes.
    MeshCount,
    /// This part of the mesh of this index.
    Mesh(usize, MeshPart),
    /// The number of skin influences per vertex.
    InfluencesPerVertex,
    /// The number of joint records.
    JointCount,
    /// The joint record of this index.
    JointRecord(usize),
    /// The parent chain of the joint of this index.
    JointParent(usize),
}

/// A failed decode: where it failed and why.
#[derive(Clone, Copy, Debug, PartialEq, Eq, Structural)]
pub struct DecodeFailure {
    pub stage: Stage,
    pub kind: DecodeError,
}

} // verus!
