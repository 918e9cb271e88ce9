use vstd::prelude::*;
use vstd::slice::slice_subrange;
use crate::error::DecodeError;
use crate::primitive::{
    le_i16, le_u16, le_u32, read_i32, spec_has_bytes, spec_i16_le, spec_i32_le, spec_read_i32,
    spec_u16_le, spec_u32_le,
};

verus! {

/// A length prefix: a signed 32-bit count, which must not be negative.
pub open spec fn spec_read_count(s: Seq<u8>, pos: int) -> Result<(int, int), DecodeError> {
    match spec_read_i32(s, pos) {
        Err(e) => Err(e),
        Ok((n, p)) => if n < 0 {
            Err(DecodeError::MalformedCount)
        } else {
            Ok((n, p))
        },
    }
}

/// The count of an array of `width`-byte elements and the position of its
/// first element, where all of its elements lie within `s`.
pub open spec fn spec_array_extent(s: Seq<u8>, pos: int, width: int) -> Result<(int, int), DecodeError> {
    match spec_read_count(s, pos) {
        Err(e) => Err(e),
        Ok((n, p)) => if spec_has_bytes(s, p, n * width) {
            Ok((n, p))
        } else {
            Err(DecodeError::UnexpectedEof)
        },
    }
}

/// An array of unsigned 16-bit integers.
pub open spec fn spec_read_u16_array(s: Seq<u8>, pos: int) -> Result<(Seq<u16>, int), DecodeError> {
    match spec_array_extent(s, pos, 2) {
        Err(e) => Err(e),
        Ok((n, p)) => Ok((Seq::new(n as nat, |i: int| spec_u16_le(s, p + 2 * i) as u16), p + 2 * n)),
    }
}

/// An array of signed 16-bit integers.
pub open spec fn spec_read_i16_array(s: Seq<u8>, pos: int) -> Result<(Seq<i16>, int), DecodeError> {
    match spec_array_extent(s, pos, 2) {
        Err(e) => Err(e),
        Ok((n, p)) => Ok((Seq::new(n as nat, |i: int| spec_i16_le(s, p + 2 * i) as i16), p + 2 * n)),
    }
}

/// An array of 32-bit floats, each as its bit pattern.
pub open spec fn spec_read_f32_array(s: Seq<u8>, pos: int) -> Result<(Seq<u32>, int), DecodeError> {
    match spec_array_extent(s, pos, 4) {
        Err(e) => Err(e),
        Ok((n, p)) => Ok((Seq::new(n as nat, |i: int| spec_u32_le(s, p + 4 * i) as u32), p + 4 * n)),
    }
}

/// Reads a length prefix at `pos`.
pub fn read_count(data: &[u8], pos: usize) -> (r: Result<(usize, usize), DecodeError>)
    ensures
        match (r, spec_read_count(data@, pos as int)) {
            (Ok((n, next)), Ok((sn, snext))) => n == sn && next == snext,
            (Err(e), Err(se)) => e == se,
            _ => false,
        },
        r is Ok ==> r.unwrap().0 == spec_i32_le(data@, pos as int),
{
    match read_i32(data, pos) {
        Err(e) => Err(e),
        Ok((n, next)) => if n < 0 {
            Err(DecodeError::MalformedCount)
        } else {
            Ok((n as usize, next))
        },
    }
}

/// Reads the length prefix of an array of `width`-byte elements and checks,
/// before anything is allocated, that all of its elements are there.
pub fn read_array_extent(data: &[u8], pos: usize, width: usize) -> (r: Result<(usize, usize), DecodeError>)
    ensures
        match (r, spec_array_extent(data@, pos as int, width as int)) {
            (Ok((n, start)), Ok((sn, sstart))) => n == sn && start == sstart,
            (Err(e), Err(se)) => e == se,
            _ => false,
        },
        r is Ok ==> r.unwrap().0 == spec_i32_le(data@, pos as int),
{
    let (n, start) = match read_count(data, pos) {
        Ok(x) => x,
        Err(e) => { return Err(e); },
    };
    let have: usize = data.len() - start;
    if width != 0 {
        let room: usize = have / width;
        assert((n > room) <==> (n * width > have)) by (nonlinear_arith)
            requires
                width > 0,
                room == have / width,
        ;
        if n > room {
            return Err(DecodeError::UnexpectedEof);
        }
    } else {
        assert(n * width == 0) by (nonlinear_arith)
            requires
                width == 0,
        ;
    }
    Ok((n, start))
}

/// Reads an array of unsigned 16-bit integers: a count, then that many
/// elements. Its length is the count that the bytes declare.
pub fn read_u16_array(data: &[u8], pos: usize) -> (r: Result<(Vec<u16>, usize), DecodeError>)
    ensures
        match (r, spec_read_u16_array(data@, pos as int)) {
            (Ok((v, next)), Ok((sv, snext))) => v@ == sv && next == snext,
            (Err(e), Err(se)) => e == se,
            _ => false,
        },
        r is Ok ==> r.unwrap().0@.len() == spec_i32_le(data@, pos as int),
{
    let (n, start) = match read_array_extent(data, pos, 2) {
        Ok(x) => x,
        Err(e) => { return Err(e); },
    };
    let mut out: Vec<u16> = Vec::with_capacity(n);
    let len = data.len();
    let mut i: usize = 0;
    while i < n
        invariant
            i <= n,
            len == data@.len(),
            start + 2 * n <= data@.len(),
            out@.len() == i,
            forall|k: int| 0 <= k < i ==> out@[k] as int == spec_u16_le(data@, start + 2 * k),
        decreases n - i,
    {
        let at = start + 2 * i;
        out.push(le_u16(slice_subrange(data, at, at + 2)));
        i += 1;
    }
    assert(out@ =~= Seq::new(n as nat, |k: int| spec_u16_le(data@, start + 2 * k) as u16));
    Ok((out, start + 2 * n))
}

/// Reads an array of signed 16-bit integers: a count, then that many
/// elements. Its length is the count that the bytes declare.
pub fn read_i16_array(data: &[u8], pos: usize) -> (r: Result<(Vec<i16>, usize), DecodeError>)
    ensures
        match (r, spec_read_i16_array(data@, pos as int)) {
            (Ok((v, next)), Ok((sv, snext))) => v@ == sv && next == snext,
            (Err(e), Err(se)) => e == se,
            _ => false,
        },
        r is Ok ==> r.unwrap().0@.len() == spec_i32_le(data@, pos as int),
{
    let (n, start) = match read_array_extent(data, pos, 2) {
        Ok(x) => x,
        Err(e) => { return Err(e); },
    };
    let mut out: Vec<i16> = Vec::with_capacity(n);
    let len = data.len();
    let mut i: usize = 0;
    while i < n
        invariant
            i <= n,
            len == data@.len(),
            start + 2 * n <= data@.len(),
            out@.len() == i,
            forall|k: int| 0 <= k < i ==> out@[k] as int == spec_i16_le(data@, start + 2 * k),
        decreases n - i,
    {
        let at = start + 2 * i;
        out.push(le_i16(slice_subrange(data, at, at + 2)));
        i += 1;
    }
    assert(out@ =~= Seq::new(n as nat, |k: int| spec_i16_le(data@, start + 2 * k) as i16));
    Ok((out, start + 2 * n))
}

/// Reads an array of 32-bit floats: a count, then that many elements, each
/// returned as its bit pattern. Its length is the count that the bytes declare.
pub fn read_f32_array(data: &[u8], pos: usize) -> (r: Result<(Vec<u32>, usize), DecodeError>)
    ensures
        match (r, spec_read_f32_array(data@, pos as int)) {
            (Ok((v, next)), Ok((sv, snext))) => v@ == sv && next == snext,
            (Err(e), Err(se)) => e == se,
            _ => false,
        },
        r is Ok ==> r.unwrap().0@.len() == spec_i32_le(data@, pos as int),
{
    let (n, start) = match read_array_extent(data, pos, 4) {
        Ok(x) => x,
        Err(e) => { return Err(e); },
    };
    let mut out: Vec<u32> = Vec::with_capacity(n);
    let len = data.len();
    let mut i: usize = 0;
    while i < n
        invariant
            i <= n,
            len == data@.len(),
            start + 4 * n <= data@.len(),
            out@.len() == i,
            forall|k: int| 0 <= k < i ==> out@[k] as int == spec_u32_le(data@, start + 4 * k),
        decreases n - i,
    {
        let at = start + 4 * i;
        out.push(le_u32(slice_subrange(data, at, at + 4)));
        i += 1;
    }
    assert(out@ =~= Seq::new(n as nat, |k: int| spec_u32_le(data@, start + 4 * k) as u32));
    Ok((out, start + 4 * n))
}

/// An array that decodes on `s` no longer decodes once `s` is cut anywhere
/// before the array's end: the result is then `UnexpectedEof`, never a
/// shorter array.
pub proof fn lemma_truncated_array_is_eof(s: Seq<u8>, pos: int, width: int, cut: int)
    requires
        width == 2 || width == 4,
        spec_array_extent(s, pos, width) is Ok,
        pos <= cut < spec_array_extent(s, pos, width).unwrap().1 + spec_array_extent(s, pos, width).unwrap().0 * width,
    ensures
        spec_array_extent(s.subrange(0, cut), pos, width) == Err::<(int, int), DecodeError>(DecodeError::UnexpectedEof),
        width == 2 ==> spec_read_u16_array(s.subrange(0, cut), pos) == Err::<(Seq<u16>, int), DecodeError>(DecodeError::UnexpectedEof),
        width == 2 ==> spec_read_i16_array(s.subrange(0, cut), pos) == Err::<(Seq<i16>, int), DecodeError>(DecodeError::UnexpectedEof),
        width == 4 ==> spec_read_f32_array(s.subrange(0, cut), pos) == Err::<(Seq<u32>, int), DecodeError>(DecodeError::UnexpectedEof),
{
    let cut_off = s.subrange(0, cut);
    if pos + 4 <= cut {
        assert(cut_off[pos] == s[pos] && cut_off[pos + 1] == s[pos + 1] && cut_off[pos + 2] == s[pos + 2]
            && cut_off[pos + 3] == s[pos + 3]);
        assert(spec_i32_le(cut_off, pos) == spec_i32_le(s, pos));
        assert(spec_read_count(cut_off, pos) == spec_read_count(s, pos));
    } else {
        assert(!spec_has_bytes(cut_off, pos, 4));
    }
}

/// A negative length prefix is `MalformedCount`, whatever follows it.
pub proof fn lemma_negative_count_is_malformed(s: Seq<u8>, pos: int, width: int)
    requires
        spec_has_bytes(s, pos, 4),
        spec_i32_le(s, pos) < 0,
    ensures
        spec_read_count(s, pos) == Err::<(int, int), DecodeError>(DecodeError::MalformedCount),
        spec_array_extent(s, pos, width) == Err::<(int, int), DecodeError>(DecodeError::MalformedCount),
        spec_read_u16_array(s, pos) == Err::<(Seq<u16>, int), DecodeError>(DecodeError::MalformedCount),
        spec_read_i16_array(s, pos) == Err::<(Seq<i16>, int), DecodeError>(DecodeError::MalformedCount),
        spec_read_f32_array(s, pos) == Err::<(Seq<u32>, int), DecodeError>(DecodeError::MalformedCount),
{
}

} // verus!
