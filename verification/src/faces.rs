use vstd::prelude::*;
use std::collections::HashMap;
use crate::error::{DecodeError, MeshPart};
use crate::primitive::{read_u32, spec_read_u32};
use crate::array::{read_count, read_u16_array, spec_read_count, spec_read_u16_array};

verus! {

broadcast use vstd::std_specs::hash::group_hash_axioms;

/// One face set as decoded: its material index and its triangle indices.
pub type FaceSetView = (u32, Seq<u16>);

/// Which corner of a quad the `k`-th of its six triangle indices is:
/// the quad `(q0, q1, q2, q3)` becomes `(q0, q1, q3)` and `(q1, q2, q3)`.
pub open spec fn spec_quad_corner(k: int) -> int {
    if k == 0 {
        0
    } else if k == 1 {
        1
    } else if k == 2 {
        3
    } else if k == 3 {
        1
    } else if k == 4 {
        2
    } else {
        3
    }
}

/// The triangles of all whole quads of `quads`, quad by quad in order.
pub open spec fn spec_expand_quads(quads: Seq<u16>) -> Seq<u16> {
    Seq::new((quads.len() / 4 * 6) as nat, |k: int| quads[4 * (k / 6) + spec_quad_corner(k % 6)])
}

/// A face set: a material index, a quad array and a triangle array. Its
/// triangles are those of the triangle array, then those of the quads.
pub open spec fn spec_read_face_set(s: Seq<u8>, pos: int) -> Result<(FaceSetView, int), DecodeError> {
    match spec_read_u32(s, pos) {
        Err(e) => Err(e),
        Ok((material, at1)) => match spec_read_u16_array(s, at1) {
            Err(e) => Err(e),
            Ok((quads, at2)) => match spec_read_u16_array(s, at2) {
                Err(e) => Err(e),
                Ok((triangles, at3)) => if quads.len() % 4 != 0 {
                    Err(DecodeError::InvalidTopology)
                } else {
                    Ok(((material as u32, triangles + spec_expand_quads(quads)), at3))
                },
            },
        },
    }
}

/// `count` face sets from `pos` on, appended to `acc` in the order decoded.
/// A failure names the index of the face set that failed.
pub open spec fn spec_read_face_sets(s: Seq<u8>, pos: int, count: int, acc: Seq<FaceSetView>) -> Result<(Seq<FaceSetView>, int), (int, DecodeError)>
    decreases count,
{
    if count <= 0 {
        Ok((acc, pos))
    } else {
        match spec_read_face_set(s, pos) {
            Err(e) => Err((acc.len() as int, e)),
            Ok((set, next)) => spec_read_face_sets(s, next, count - 1, acc.push(set)),
        }
    }
}

/// The mapping from material index to triangles that `sets` give when each
/// is entered in turn, a later one replacing an earlier one of the same
/// material.
pub open spec fn spec_face_map(sets: Seq<FaceSetView>) -> Map<u32, Seq<u16>>
    decreases sets.len(),
{
    if sets.len() == 0 {
        Map::empty()
    } else {
        spec_face_map(sets.drop_last()).insert(sets.last().0, sets.last().1)
    }
}

/// A face-set table: a count, then that many face sets, as a mapping. A
/// failure names the count or the face set that failed.
pub open spec fn spec_read_faces(s: Seq<u8>, pos: int) -> Result<(Map<u32, Seq<u16>>, int), (MeshPart, DecodeError)> {
    match spec_read_count(s, pos) {
        Err(e) => Err((MeshPart::FaceSetCount, e)),
        Ok((n, p)) => match spec_read_face_sets(s, p, n, Seq::empty()) {
            Err((at, e)) => Err((MeshPart::FaceSet(at as usize), e)),
            Ok((sets, next)) => Ok((spec_face_map(sets), next)),
        },
    }
}

/// What a table of triangle lists holds: for each material its indices.
pub open spec fn spec_elements(m: Map<u32, Vec<u16>>) -> Map<u32, Seq<u16>> {
    Map::new(|k: u32| m.contains_key(k), |k: u32| m[k]@)
}

/// Appends to `triangles` two triangles for each quad of `quads`, in order:
/// `(q0, q1, q3)`, then `(q1, q2, q3)`. The length of `quads` must be a
/// multiple of four.
pub fn expand_quads(quads: &Vec<u16>, triangles: Vec<u16>) -> (r: Result<Vec<u16>, DecodeError>)
    ensures
        match r {
            Ok(out) => quads@.len() % 4 == 0 && out@ == triangles@ + spec_expand_quads(quads@),
            Err(e) => quads@.len() % 4 != 0 && e == DecodeError::InvalidTopology,
        },
{
    let n = quads.len();
    if n % 4 != 0 {
        return Err(DecodeError::InvalidTopology);
    }
    let mut out = triangles;
    let ghost base = triangles@;
    let mut i: usize = 0;
    while i < n
        invariant
            n == quads@.len(),
            n % 4 == 0,
            i % 4 == 0,
            i <= n,
            out@.len() == base.len() + i / 4 * 6,
            forall|k: int| 0 <= k < base.len() ==> out@[k] == base[k],
            forall|k: int| 0 <= k < i / 4 * 6 ==> #[trigger] out@[base.len() + k] == quads@[4 * (k / 6) + spec_quad_corner(k % 6)],
        decreases n - i,
    {
        let ghost before = out@;
        out.push(quads[i]);
        out.push(quads[i + 1]);
        out.push(quads[i + 3]);
        out.push(quads[i + 1]);
        out.push(quads[i + 2]);
        out.push(quads[i + 3]);
        proof {
            let done = i as int / 4 * 6;
            assert forall|k: int| 0 <= k < done + 6 implies #[trigger] out@[base.len() + k] == quads@[4 * (k / 6) + spec_quad_corner(k % 6)] by {
                if k < done {
                    assert(out@[base.len() + k] == before[base.len() + k]);
                } else {
                    assert(k / 6 == i as int / 4);
                    assert(k % 6 == k - done);
                }
            }
        }
        i += 4;
    }
    proof {
        let expanded = spec_expand_quads(quads@);
        assert forall|j: int| base.len() <= j < out@.len() implies out@[j] == expanded[j - base.len()] by {
            let k = j - base.len();
            assert(out@[base.len() + k] == quads@[4 * (k / 6) + spec_quad_corner(k % 6)]);
        }
        assert(out@ =~= base + expanded);
    }
    Ok(out)
}

/// Reads one face set at `pos`: its material index and its triangles, the
/// given ones first, then those of its quads.
pub fn read_face_set(data: &[u8], pos: usize) -> (r: Result<(u32, Vec<u16>, usize), DecodeError>)
    ensures
        match (r, spec_read_face_set(data@, pos as int)) {
            (Ok((material, triangles, next)), Ok((set, snext))) => material == set.0 && triangles@ == set.1
                && next == snext,
            (Err(e), Err(se)) => e == se,
            _ => false,
        },
{
    let (material, at1) = match read_u32(data, pos) {
        Ok(x) => x,
        Err(e) => { return Err(e); },
    };
    let (quads, at2) = match read_u16_array(data, at1) {
        Ok(x) => x,
        Err(e) => { return Err(e); },
    };
    let (triangles, at3) = match read_u16_array(data, at2) {
        Ok(x) => x,
        Err(e) => { return Err(e); },
    };
    match expand_quads(&quads, triangles) {
        Ok(all) => Ok((material, all, at3)),
        Err(e) => Err(e),
    }
}

/// Reads a face-set table at `pos`: a count, then that many face sets. Where
/// two of them name one material, the later one's triangles stand in the
/// result. The first failure comes back with the part that failed.
pub fn read_faces(data: &[u8], pos: usize) -> (r: Result<(HashMap<u32, Vec<u16>>, usize), (MeshPart, DecodeError)>)
    ensures
        match (r, spec_read_faces(data@, pos as int)) {
            (Ok((m, next)), Ok((sm, snext))) => spec_elements(m@) == sm && next == snext,
            (Err(e), Err(se)) => e == se,
            _ => false,
        },
{
    let (n, start) = match read_count(data, pos) {
        Ok(x) => x,
        Err(e) => { return Err((MeshPart::FaceSetCount, e)); },
    };
    let mut map: HashMap<u32, Vec<u16>> = HashMap::new();
    let mut cur: usize = start;
    let mut i: usize = 0;
    let ghost mut sets: Seq<FaceSetView> = Seq::empty();
    assert(spec_elements(map@) =~= spec_face_map(sets));
    while i < n
        invariant
            i <= n,
            sets.len() == i,
            spec_read_count(data@, pos as int) == Ok::<(int, int), DecodeError>((n as int, start as int)),
            spec_read_face_sets(data@, start as int, n as int, Seq::empty()) == spec_read_face_sets(
                data@,
                cur as int,
                n - i,
                sets,
            ),
            spec_elements(map@) == spec_face_map(sets),
        decreases n - i,
    {
        match read_face_set(data, cur) {
            Err(e) => {
                assert(spec_read_face_sets(data@, cur as int, n - i, sets) == Err::<
                    (Seq<FaceSetView>, int),
                    (int, DecodeError),
                >((i as int, e)));
                return Err((MeshPart::FaceSet(i), e));
            },
            Ok((material, triangles, next)) => {
                proof {
                    let grown = sets.push((material, triangles@));
                    assert(grown.drop_last() =~= sets);
                    assert(spec_elements(map@.insert(material, triangles)) =~= spec_face_map(grown));
                    sets = grown;
                }
                map.insert(material, triangles);
                cur = next;
            },
        }
        i += 1;
    }
    Ok((map, cur))
}

/// In the mapping that a sequence of face sets gives, a face set that no
/// later one shares its material with stands under its material unchanged:
/// of several with one material the last one wins.
pub proof fn lemma_last_face_set_wins(sets: Seq<FaceSetView>, i: int)
    requires
        0 <= i < sets.len(),
        forall|j: int| i < j < sets.len() ==> sets[j].0 != sets[i].0,
    ensures
        spec_face_map(sets).contains_key(sets[i].0),
        spec_face_map(sets)[sets[i].0] == sets[i].1,
    decreases sets.len(),
{
    if i < sets.len() - 1 {
        lemma_last_face_set_wins(sets.drop_last(), i);
    }
}

} // verus!
