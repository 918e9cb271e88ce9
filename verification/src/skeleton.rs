use vstd::prelude::*;
use crate::error::{DecodeError, DecodeFailure, Stage};
use crate::primitive::{
    read_f32, read_i16, read_length_prefixed_string, spec_i32_le, spec_read_i16, spec_read_string,
    spec_read_u32,
};
use crate::array::{read_count, spec_read_count};

verus! {

/// A rotation: four floats, as bit patterns, in the order of the file.
pub type Quat = (u32, u32, u32, u32);

/// A translation: three floats, as bit patterns.
pub type Vec3 = (u32, u32, u32);

/// One row of the joint table as the file holds it.
#[derive(Debug)]
pub struct JointRecord {
    /// The row of the parent joint, or -1 for a joint without parent.
    pub parent_idx: i16,
    pub name: String,
    pub rotation: Quat,
    pub translation: Vec3,
}

/// What a `JointRecord` holds.
pub ghost struct JointRecordView {
    pub parent_idx: i16,
    pub name: Seq<char>,
    pub rotation: Quat,
    pub translation: Vec3,
}

impl View for JointRecord {
    type V = JointRecordView;

    open spec fn view(&self) -> JointRecordView {
        JointRecordView {
            parent_idx: self.parent_idx,
            name: self.name@,
            rotation: self.rotation,
            translation: self.translation,
        }
    }
}

/// A joint of the skeleton. Its parent is named by its index in the
/// skeleton, which is the index of its row in the joint table.
#[derive(Debug)]
pub struct Joint {
    pub parent: Option<usize>,
    pub name: String,
    pub rotation: Quat,
    pub translation: Vec3,
}

/// What a `Joint` holds.
pub ghost struct JointView {
    pub parent: Option<usize>,
    pub name: Seq<char>,
    pub rotation: Quat,
    pub translation: Vec3,
}

impl View for Joint {
    type V = JointView;

    open spec fn view(&self) -> JointView {
        JointView {
            parent: self.parent,
            name: self.name@,
            rotation: self.rotation,
            translation: self.translation,
        }
    }
}

/// What each of `records` holds, in order.
pub open spec fn spec_record_views(records: Seq<JointRecord>) -> Seq<JointRecordView> {
    Seq::new(records.len(), |i: int| records[i]@)
}

/// What each of `joints` holds, in order.
pub open spec fn spec_joint_views(joints: Seq<Joint>) -> Seq<JointView> {
    Seq::new(joints.len(), |i: int| joints[i]@)
}

/// Three floats in a row.
pub open spec fn spec_read_vec3(s: Seq<u8>, pos: int) -> Result<(Vec3, int), DecodeError> {
    match spec_read_u32(s, pos) {
        Err(e) => Err(e),
        Ok((x, at1)) => match spec_read_u32(s, at1) {
            Err(e) => Err(e),
            Ok((y, at2)) => match spec_read_u32(s, at2) {
                Err(e) => Err(e),
                Ok((z, at3)) => Ok(((x as u32, y as u32, z as u32), at3)),
            },
        },
    }
}

/// Four floats in a row.
pub open spec fn spec_read_quat(s: Seq<u8>, pos: int) -> Result<(Quat, int), DecodeError> {
    match spec_read_u32(s, pos) {
        Err(e) => Err(e),
        Ok((a, at1)) => match spec_read_vec3(s, at1) {
            Err(e) => Err(e),
            Ok((rest, at2)) => Ok(((a as u32, rest.0, rest.1, rest.2), at2)),
        },
    }
}

/// A joint record: parent index, name, rotation, translation.
pub open spec fn spec_read_joint_record(s: Seq<u8>, pos: int) -> Result<(JointRecordView, int), DecodeError> {
    match spec_read_i16(s, pos) {
        Err(e) => Err(e),
        Ok((parent, at1)) => match spec_read_string(s, at1) {
            Err(e) => Err(e),
            Ok((name, at2)) => match spec_read_quat(s, at2) {
                Err(e) => Err(e),
                Ok((rotation, at3)) => match spec_read_vec3(s, at3) {
                    Err(e) => Err(e),
                    Ok((translation, at4)) => Ok(
                        (JointRecordView { parent_idx: parent as i16, name, rotation, translation }, at4),
                    ),
                },
            },
        },
    }
}

/// `count` joint records from `pos` on, appended to `acc` in the order
/// decoded. A failure names the index of the record that failed.
pub open spec fn spec_read_joint_records(s: Seq<u8>, pos: int, count: int, acc: Seq<JointRecordView>) -> Result<(Seq<JointRecordView>, int), (int, DecodeError)>
    decreases count,
{
    if count <= 0 {
        Ok((acc, pos))
    } else {
        match spec_read_joint_record(s, pos) {
            Err(e) => Err((acc.len() as int, e)),
            Ok((record, next)) => spec_read_joint_records(s, next, count - 1, acc.push(record)),
        }
    }
}

/// Whether the parent chain of row `i` ends at a joint without parent after
/// at most `fuel` steps, each step staying inside the table.
pub open spec fn spec_reaches_root(records: Seq<JointRecordView>, i: int, fuel: nat) -> bool
    decreases fuel,
{
    0 <= i < records.len() && (records[i].parent_idx == -1 || (fuel > 0 && spec_reaches_root(
        records,
        records[i].parent_idx as int,
        (fuel - 1) as nat,
    )))
}

/// Whether row `i` can be resolved: its parent chain stays inside the table
/// and ends at a root. A chain that has not ended after as many steps as the
/// table has rows runs in a cycle.
pub open spec fn spec_resolves(records: Seq<JointRecordView>, i: int) -> bool {
    spec_reaches_root(records, i, records.len())
}

/// Whether every row of the table can be resolved.
pub open spec fn spec_well_founded(records: Seq<JointRecordView>) -> bool {
    forall|i: int| 0 <= i < records.len() ==> spec_resolves(records, i)
}

/// The joint that a row stands for.
pub open spec fn spec_joint(record: JointRecordView) -> JointView {
    JointView {
        parent: if record.parent_idx < 0 {
            None
        } else {
            Some(record.parent_idx as usize)
        },
        name: record.name,
        rotation: record.rotation,
        translation: record.translation,
    }
}

/// The skeleton of a table: for each row its joint, at the row's index.
pub open spec fn spec_skeleton(records: Seq<JointRecordView>) -> Seq<JointView> {
    Seq::new(records.len(), |i: int| spec_joint(records[i]))
}

/// Whether the parent links from joint `i` end at a joint without parent
/// after at most `fuel` steps, each step staying inside the skeleton.
pub open spec fn spec_joint_reaches_root(joints: Seq<JointView>, i: int, fuel: nat) -> bool
    decreases fuel,
{
    0 <= i < joints.len() && match joints[i].parent {
        None => true,
        Some(p) => fuel > 0 && spec_joint_reaches_root(joints, p as int, (fuel - 1) as nat),
    }
}

/// Whether `joints` is a forest: every parent is a joint of the skeleton,
/// and no chain of parents is longer than the skeleton or runs in a cycle.
pub open spec fn spec_forest(joints: Seq<JointView>) -> bool {
    forall|i: int| 0 <= i < joints.len() ==> spec_joint_reaches_root(joints, i, joints.len())
}

/// A row whose parent chain ends at a root gives a joint whose parent links do.
pub proof fn lemma_joint_reaches_root(records: Seq<JointRecordView>, i: int, fuel: nat)
    requires
        spec_reaches_root(records, i, fuel),
    ensures
        spec_joint_reaches_root(spec_skeleton(records), i, fuel),
    decreases fuel,
{
    if records[i].parent_idx != -1 {
        lemma_joint_reaches_root(records, records[i].parent_idx as int, (fuel - 1) as nat);
    }
}

/// The skeleton of a table whose rows all resolve is a forest.
pub proof fn lemma_skeleton_is_forest(records: Seq<JointRecordView>)
    requires
        spec_well_founded(records),
    ensures
        spec_forest(spec_skeleton(records)),
{
    let joints = spec_skeleton(records);
    assert forall|i: int| 0 <= i < joints.len() implies spec_joint_reaches_root(joints, i, joints.len()) by {
        assert(spec_resolves(records, i));
        lemma_joint_reaches_root(records, i, records.len());
    }
}

/// Reads three floats at `pos`.
pub fn read_vec3(data: &[u8], pos: usize) -> (r: Result<(Vec3, usize), DecodeError>)
    ensures
        match (r, spec_read_vec3(data@, pos as int)) {
            (Ok((v, next)), Ok((sv, snext))) => v == sv && next == snext,
            (Err(e), Err(se)) => e == se,
            _ => false,
        },
{
    let (x, at1) = match read_f32(data, pos) {
        Ok(v) => v,
        Err(e) => { return Err(e); },
    };
    let (y, at2) = match read_f32(data, at1) {
        Ok(v) => v,
        Err(e) => { return Err(e); },
    };
    let (z, at3) = match read_f32(data, at2) {
        Ok(v) => v,
        Err(e) => { return Err(e); },
    };
    Ok(((x, y, z), at3))
}

/// Reads four floats at `pos`.
pub fn read_quat(data: &[u8], pos: usize) -> (r: Result<(Quat, usize), DecodeError>)
    ensures
        match (r, spec_read_quat(data@, pos as int)) {
            (Ok((v, next)), Ok((sv, snext))) => v == sv && next == snext,
            (Err(e), Err(se)) => e == se,
            _ => false,
        },
{
    let (a, at1) = match read_f32(data, pos) {
        Ok(v) => v,
        Err(e) => { return Err(e); },
    };
    let (rest, at2) = match read_vec3(data, at1) {
        Ok(v) => v,
        Err(e) => { return Err(e); },
    };
    Ok(((a, rest.0, rest.1, rest.2), at2))
}

/// Reads one joint record at `pos`.
pub fn read_joint_record(data: &[u8], pos: usize) -> (r: Result<(JointRecord, usize), DecodeError>)
    ensures
        match (r, spec_read_joint_record(data@, pos as int)) {
            (Ok((record, next)), Ok((srecord, snext))) => record@ == srecord && next == snext,
            (Err(e), Err(se)) => e == se,
            _ => false,
        },
{
    let (parent_idx, at1) = match read_i16(data, pos) {
        Ok(v) => v,
        Err(e) => { return Err(e); },
    };
    let (name, at2) = match read_length_prefixed_string(data, at1) {
        Ok(v) => v,
        Err(e) => { return Err(e); },
    };
    let (rotation, at3) = match read_quat(data, at2) {
        Ok(v) => v,
        Err(e) => { return Err(e); },
    };
    let (translation, at4) = match read_vec3(data, at3) {
        Ok(v) => v,
        Err(e) => { return Err(e); },
    };
    Ok((JointRecord { parent_idx, name, rotation, translation }, at4))
}

/// Reads `count` joint records, one after the other, from `pos` on. The
/// first failure ends the reading and comes back with the index of its record.
pub fn read_joint_records(data: &[u8], pos: usize, count: usize) -> (r: Result<(Vec<JointRecord>, usize), (usize, DecodeError)>)
    ensures
        match (r, spec_read_joint_records(data@, pos as int, count as int, Seq::empty())) {
            (Ok((records, next)), Ok((srecords, snext))) => spec_record_views(records@) == srecords
                && next == snext,
            (Err((at, e)), Err((sat, se))) => at == sat && e == se,
            _ => false,
        },
        r is Ok ==> r.unwrap().0@.len() == count,
{
    let mut out: Vec<JointRecord> = Vec::new();
    let mut cur: usize = pos;
    let mut i: usize = 0;
    assert(spec_record_views(out@) =~= Seq::empty());
    while i < count
        invariant
            i <= count,
            out@.len() == i,
            spec_read_joint_records(data@, pos as int, count as int, Seq::empty())
                == spec_read_joint_records(data@, cur as int, count - i, spec_record_views(out@)),
        decreases count - i,
    {
        match read_joint_record(data, cur) {
            Err(e) => { return Err((i, e)); },
            Ok((record, next)) => {
                assert(spec_record_views(out@.push(record)) =~= spec_record_views(out@).push(record@));
                out.push(record);
                cur = next;
            },
        }
        i += 1;
    }
    Ok((out, cur))
}

/// Builds the joint of row `i`. The row's parent chain is followed first:
/// where it leaves the table or runs in a cycle, the row cannot be resolved
/// and the result is `DanglingReference`.
pub fn build_joint(records: &Vec<JointRecord>, i: usize) -> (r: Result<Joint, DecodeError>)
    requires
        i < records@.len(),
    ensures
        match r {
            Ok(joint) => spec_resolves(spec_record_views(records@), i as int) && joint@ == spec_joint(records@[i as int]@),
            Err(e) => !spec_resolves(spec_record_views(records@), i as int) && e == DecodeError::DanglingReference,
        },
{
    let n = records.len();
    let ghost views = spec_record_views(records@);
    let mut cur: usize = i;
    let mut steps: usize = 0;
    loop
        invariant
            n == records@.len(),
            views == spec_record_views(records@),
            i < n,
            cur < n,
            steps <= n,
            spec_resolves(views, i as int) == spec_reaches_root(views, cur as int, (n - steps) as nat),
        decreases n - steps,
    {
        let parent = records[cur].parent_idx;
        if parent == -1 {
            let record = &records[i];
            let joint = Joint {
                parent: if record.parent_idx < 0 {
                    None
                } else {
                    Some(record.parent_idx as usize)
                },
                name: record.name.clone(),
                rotation: record.rotation,
                translation: record.translation,
            };
            return Ok(joint);
        }
        if parent < 0 || parent as usize >= n || steps == n {
            assert(steps < n ==> !spec_reaches_root(views, parent as int, (n - steps - 1) as nat));
            return Err(DecodeError::DanglingReference);
        }
        cur = parent as usize;
        steps += 1;
    }
}

/// Builds the skeleton of a joint table: one joint for each row, at the
/// row's index, whatever the order of the rows. Where a row cannot be
/// resolved, the first such row comes back with `DanglingReference`.
pub fn build_skeleton(records: &Vec<JointRecord>) -> (r: Result<Vec<Joint>, (usize, DecodeError)>)
    ensures
        match r {
            Ok(joints) => spec_well_founded(spec_record_views(records@)) && spec_joint_views(joints@)
                == spec_skeleton(spec_record_views(records@)) && spec_forest(spec_joint_views(joints@)),
            Err((at, e)) => e == DecodeError::DanglingReference && at < records@.len() && !spec_resolves(
                spec_record_views(records@),
                at as int,
            ) && forall|j: int| 0 <= j < at ==> spec_resolves(spec_record_views(records@), j),
        },
        r is Ok ==> r.unwrap()@.len() == records@.len(),
{
    let n = records.len();
    let ghost views = spec_record_views(records@);
    let mut out: Vec<Joint> = Vec::new();
    let mut i: usize = 0;
    while i < n
        invariant
            n == records@.len(),
            views == spec_record_views(records@),
            i <= n,
            out@.len() == i,
            forall|j: int| 0 <= j < i ==> spec_resolves(views, j),
            forall|j: int| 0 <= j < i ==> #[trigger] out@[j]@ == spec_joint(views[j]),
        decreases n - i,
    {
        match build_joint(records, i) {
            Err(e) => { return Err((i, e)); },
            Ok(joint) => { out.push(joint); },
        }
        i += 1;
    }
    assert(spec_joint_views(out@) =~= spec_skeleton(views));
    proof {
        lemma_skeleton_is_forest(views);
    }
    Ok(out)
}

/// A skeleton as the file holds it: a count, that many joint records, and
/// the joints built from them.
pub open spec fn spec_parse_skeleton(s: Seq<u8>, pos: int) -> Result<(Seq<JointView>, int), DecodeFailure> {
    match spec_read_count(s, pos) {
        Err(e) => Err(DecodeFailure { stage: Stage::JointCount, kind: e }),
        Ok((n, p)) => match spec_read_joint_records(s, p, n, Seq::empty()) {
            Err((at, e)) => Err(DecodeFailure { stage: Stage::JointRecord(at as usize), kind: e }),
            Ok((records, next)) => if spec_well_founded(records) {
                Ok((spec_skeleton(records), next))
            } else {
                Err(
                    DecodeFailure {
                        stage: Stage::JointParent(spec_first_unresolved(records, 0) as usize),
                        kind: DecodeError::DanglingReference,
                    },
                )
            },
        },
    }
}

/// The first row from `from` on that cannot be resolved, or the number of
/// rows where there is none.
pub open spec fn spec_first_unresolved(records: Seq<JointRecordView>, from: int) -> int
    decreases records.len() - from,
{
    if from < 0 || from >= records.len() {
        records.len() as int
    } else if !spec_resolves(records, from) {
        from
    } else {
        spec_first_unresolved(records, from + 1)
    }
}

/// `spec_first_unresolved` is the one row that cannot be resolved while
/// all rows between `from` and it can.
pub proof fn lemma_first_unresolved(records: Seq<JointRecordView>, from: int, at: int)
    requires
        0 <= from <= at < records.len(),
        !spec_resolves(records, at),
        forall|j: int| from <= j < at ==> spec_resolves(records, j),
    ensures
        spec_first_unresolved(records, from) == at,
    decreases at - from,
{
    if from < at {
        lemma_first_unresolved(records, from + 1, at);
    }
}

/// In the skeleton of a table whose rows all resolve, a joint without parent
/// stands for a row without parent, and the parent of any other joint is the
/// index of the row that its own row names: the joint at that index is the
/// one built from that row, shared by all of its children.
pub proof fn lemma_parent_is_joint_of_parent_row(records: Seq<JointRecordView>, i: int)
    requires
        spec_well_founded(records),
        0 <= i < records.len(),
    ensures
        records[i].parent_idx == -1 ==> spec_skeleton(records)[i].parent is None,
        records[i].parent_idx != -1 ==> 0 <= records[i].parent_idx < records.len() && spec_skeleton(records)[i].parent
            == Some(records[i].parent_idx as usize) && spec_skeleton(records)[records[i].parent_idx as int]
            == spec_joint(records[records[i].parent_idx as int]),
{
    assert(spec_resolves(records, i));
    if records[i].parent_idx != -1 {
        assert(spec_reaches_root(records, records[i].parent_idx as int, (records.len() - 1) as nat));
    }
}

/// Whether the table `b` holds the rows of the table `a` in another order:
/// row `i` of `a` stands at `perm[i]` in `b`, with the same name, rotation
/// and translation, and with its parent index rewritten to the place of its
/// parent in `b`.
pub open spec fn spec_reordered(a: Seq<JointRecordView>, b: Seq<JointRecordView>, perm: Seq<int>) -> bool {
    &&& a.len() == b.len()
    &&& perm.len() == a.len()
    &&& forall|i: int| 0 <= i < a.len() ==> 0 <= #[trigger] perm[i] < b.len()
    &&& forall|i: int|
        0 <= i < a.len() ==> {
            let moved = b[#[trigger] perm[i]];
            &&& moved.name == a[i].name
            &&& moved.rotation == a[i].rotation
            &&& moved.translation == a[i].translation
            &&& a[i].parent_idx == -1 ==> moved.parent_idx == -1
            &&& 0 <= a[i].parent_idx < a.len() ==> moved.parent_idx as int == perm[a[i].parent_idx as int]
        }
}

/// A parent chain that ends at a root after `fuel` steps still does so
/// after the rows are put in another order.
pub proof fn lemma_reordered_reaches_root(
    a: Seq<JointRecordView>,
    b: Seq<JointRecordView>,
    perm: Seq<int>,
    i: int,
    fuel: nat,
)
    requires
        spec_reordered(a, b, perm),
        spec_reaches_root(a, i, fuel),
    ensures
        spec_reaches_root(b, perm[i], fuel),
    decreases fuel,
{
    let moved = b[perm[i]];
    if a[i].parent_idx != -1 {
        lemma_reordered_reaches_root(a, b, perm, a[i].parent_idx as int, (fuel - 1) as nat);
    }
}

/// The skeleton does not depend on the order of the rows. Where `b` holds
/// the rows of a resolving table `a` in another order, every moved row
/// resolves in `b`, its joint has the same name, rotation and translation,
/// a root stays a root, and the parent of any other joint is the place to
/// which its parent's row has moved.
pub proof fn lemma_skeleton_order_independent(
    a: Seq<JointRecordView>,
    b: Seq<JointRecordView>,
    perm: Seq<int>,
    i: int,
)
    requires
        spec_reordered(a, b, perm),
        spec_well_founded(a),
        0 <= i < a.len(),
    ensures
        spec_resolves(b, perm[i]),
        spec_skeleton(b)[perm[i]].name == spec_skeleton(a)[i].name,
        spec_skeleton(b)[perm[i]].rotation == spec_skeleton(a)[i].rotation,
        spec_skeleton(b)[perm[i]].translation == spec_skeleton(a)[i].translation,
        spec_skeleton(a)[i].parent is None ==> spec_skeleton(b)[perm[i]].parent is None,
        spec_skeleton(a)[i].parent is Some ==> spec_skeleton(b)[perm[i]].parent is Some && spec_skeleton(
            b,
        )[perm[i]].parent.unwrap() as int == perm[spec_skeleton(a)[i].parent.unwrap() as int],
{
    assert(spec_resolves(a, i));
    lemma_reordered_reaches_root(a, b, perm, i, a.len());
    lemma_parent_is_joint_of_parent_row(a, i);
    let moved = b[perm[i]];
    if a[i].parent_idx != -1 {
        let p = a[i].parent_idx as int;
        assert(0 <= perm[p] < b.len());
    }
}

/// Reads a skeleton at `pos`: the joint table, then the joints built from it.
pub fn parse_skeleton(data: &[u8], pos: usize) -> (r: Result<(Vec<Joint>, usize), DecodeFailure>)
    ensures
        match (r, spec_parse_skeleton(data@, pos as int)) {
            (Ok((joints, next)), Ok((sjoints, snext))) => spec_joint_views(joints@) == sjoints && next == snext,
            (Err(e), Err(se)) => e == se,
            _ => false,
        },
        r is Ok ==> r.unwrap().0@.len() == spec_i32_le(data@, pos as int),
        r is Ok ==> spec_forest(spec_joint_views(r.unwrap().0@)),
{
    let (n, start) = match read_count(data, pos) {
        Ok(x) => x,
        Err(e) => { return Err(DecodeFailure { stage: Stage::JointCount, kind: e }); },
    };
    let (records, next) = match read_joint_records(data, start, n) {
        Ok(x) => x,
        Err((at, e)) => { return Err(DecodeFailure { stage: Stage::JointRecord(at), kind: e }); },
    };
    match build_skeleton(&records) {
        Ok(joints) => Ok((joints, next)),
        Err((at, e)) => {
            proof {
                lemma_first_unresolved(spec_record_views(records@), 0, at as int);
            }
            Err(DecodeFailure { stage: Stage::JointParent(at), kind: e })
        },
    }
}

} // verus!
