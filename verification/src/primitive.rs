use vstd::prelude::*;
use vstd::slice::slice_subrange;
use vstd::utf8::{valid_utf8, decode_utf8};
use byteorder::ByteOrder;
use crate::error::DecodeError;

verus! {

/// The unsigned 16-bit little-endian value of the two bytes of `s` at `at`.
pub open spec fn spec_u16_le(s: Seq<u8>, at: int) -> int {
    s[at] as int + 256 * (s[at + 1] as int)
}

/// The unsigned 32-bit little-endian value of the four bytes of `s` at `at`.
pub open spec fn spec_u32_le(s: Seq<u8>, at: int) -> int {
    s[at] as int + 256 * (s[at + 1] as int) + 65536 * (s[at + 2] as int) + 16777216 * (s[at + 3] as int)
}

/// The two's-complement reading of `spec_u16_le`.
pub open spec fn spec_i16_le(s: Seq<u8>, at: int) -> int {
    let u = spec_u16_le(s, at);
    if u >= 32768 { u - 65536 } else { u }
}

/// The two's-complement reading of `spec_u32_le`.
pub open spec fn spec_i32_le(s: Seq<u8>, at: int) -> int {
    let u = spec_u32_le(s, at);
    if u >= 2147483648 { u - 4294967296 } else { u }
}

/// Whether `width` bytes of `s` lie at `pos`.
pub open spec fn spec_has_bytes(s: Seq<u8>, pos: int, width: int) -> bool {
    0 <= pos && pos + width <= s.len()
}

/// A fixed-width field of `width` bytes: the position behind it, or the end of input.
pub open spec fn spec_read_fixed(s: Seq<u8>, pos: int, width: int, value: int) -> Result<(int, int), DecodeError> {
    if spec_has_bytes(s, pos, width) {
        Ok((value, pos + width))
    } else {
        Err(DecodeError::UnexpectedEof)
    }
}

pub open spec fn spec_read_u16(s: Seq<u8>, pos: int) -> Result<(int, int), DecodeError> {
    spec_read_fixed(s, pos, 2, spec_u16_le(s, pos))
}

pub open spec fn spec_read_i16(s: Seq<u8>, pos: int) -> Result<(int, int), DecodeError> {
    spec_read_fixed(s, pos, 2, spec_i16_le(s, pos))
}

pub open spec fn spec_read_u32(s: Seq<u8>, pos: int) -> Result<(int, int), DecodeError> {
    spec_read_fixed(s, pos, 4, spec_u32_le(s, pos))
}

pub open spec fn spec_read_i32(s: Seq<u8>, pos: int) -> Result<(int, int), DecodeError> {
    spec_read_fixed(s, pos, 4, spec_i32_le(s, pos))
}

/// A string: an unsigned 16-bit byte length, then that many bytes of UTF-8.
pub open spec fn spec_read_string(s: Seq<u8>, pos: int) -> Result<(Seq<char>, int), DecodeError> {
    match spec_read_u16(s, pos) {
        Err(e) => Err(e),
        Ok((n, p)) => if !spec_has_bytes(s, p, n) {
            Err(DecodeError::UnexpectedEof)
        } else if !valid_utf8(s.subrange(p, p + n)) {
            Err(DecodeError::InvalidUtf8)
        } else {
            Ok((decode_utf8(s.subrange(p, p + n)), p + n))
        },
    }
}

/// `byteorder::LittleEndian::read_u16`: the little-endian value of the first
/// two bytes of `buf`. It panics on a shorter slice.
#[verifier::external_body]
pub(crate) fn le_u16(buf: &[u8]) -> (r: u16)
    requires
        buf@.len() >= 2,
    ensures
        r as int == spec_u16_le(buf@, 0),
{
    byteorder::LittleEndian::read_u16(buf)
}

/// `byteorder::LittleEndian::read_i16`: `read_u16` reinterpreted as signed.
#[verifier::external_body]
pub(crate) fn le_i16(buf: &[u8]) -> (r: i16)
    requires
        buf@.len() >= 2,
    ensures
        r as int == spec_i16_le(buf@, 0),
{
    byteorder::LittleEndian::read_i16(buf)
}

/// `byteorder::LittleEndian::read_u32`: the little-endian value of the first
/// four bytes of `buf`. It panics on a shorter slice.
#[verifier::external_body]
pub(crate) fn le_u32(buf: &[u8]) -> (r: u32)
    requires
        buf@.len() >= 4,
    ensures
        r as int == spec_u32_le(buf@, 0),
{
    byteorder::LittleEndian::read_u32(buf)
}

/// `byteorder::LittleEndian::read_i32`: `read_u32` reinterpreted as signed.
#[verifier::external_body]
fn le_i32(buf: &[u8]) -> (r: i32)
    requires
        buf@.len() >= 4,
    ensures
        r as int == spec_i32_le(buf@, 0),
{
    byteorder::LittleEndian::read_i32(buf)
}

/// `String::from_utf8`: the string that `bytes` encode, or nothing where they
/// are not valid UTF-8.
#[verifier::external_body]
fn string_from_utf8(bytes: Vec<u8>) -> (r: Option<String>)
    ensures
        r is Some <==> valid_utf8(bytes@),
        r is Some ==> r->0@ == decode_utf8(bytes@),
{
    match String::from_utf8(bytes) {
        Ok(s) => Some(s),
        Err(_) => None,
    }
}

/// The `width` bytes of `data` at `pos`, and the position behind them.
pub fn read_bytes(data: &[u8], pos: usize, width: usize) -> (r: Result<(&[u8], usize), DecodeError>)
    ensures
        match r {
            Ok((bytes, next)) => spec_has_bytes(data@, pos as int, width as int)
                && bytes@ == data@.subrange(pos as int, pos + width)
                && next == pos + width,
            Err(e) => e == DecodeError::UnexpectedEof && !spec_has_bytes(data@, pos as int, width as int),
        },
{
    let len = data.len();
    if pos > len || width > len - pos {
        return Err(DecodeError::UnexpectedEof);
    }
    Ok((slice_subrange(data, pos, pos + width), pos + width))
}

/// Reads an unsigned 16-bit little-endian integer at `pos`.
pub fn read_u16(data: &[u8], pos: usize) -> (r: Result<(u16, usize), DecodeError>)
    ensures
        match (r, spec_read_u16(data@, pos as int)) {
            (Ok((v, next)), Ok((sv, snext))) => v == sv && next == snext,
            (Err(e), Err(se)) => e == se,
            _ => false,
        },
{
    match read_bytes(data, pos, 2) {
        Ok((bytes, next)) => Ok((le_u16(bytes), next)),
        Err(e) => Err(e),
    }
}

/// Reads a signed 16-bit little-endian integer at `pos`.
pub fn read_i16(data: &[u8], pos: usize) -> (r: Result<(i16, usize), DecodeError>)
    ensures
        match (r, spec_read_i16(data@, pos as int)) {
            (Ok((v, next)), Ok((sv, snext))) => v == sv && next == snext,
            (Err(e), Err(se)) => e == se,
            _ => false,
        },
{
    match read_bytes(data, pos, 2) {
        Ok((bytes, next)) => Ok((le_i16(bytes), next)),
        Err(e) => Err(e),
    }
}

/// Reads an unsigned 32-bit little-endian integer at `pos`.
pub fn read_u32(data: &[u8], pos: usize) -> (r: Result<(u32, usize), DecodeError>)
    ensures
        match (r, spec_read_u32(data@, pos as int)) {
            (Ok((v, next)), Ok((sv, snext))) => v == sv && next == snext,
            (Err(e), Err(se)) => e == se,
            _ => false,
        },
{
    match read_bytes(data, pos, 4) {
        Ok((bytes, next)) => Ok((le_u32(bytes), next)),
        Err(e) => Err(e),
    }
}

/// Reads a signed 32-bit little-endian integer at `pos`.
pub fn read_i32(data: &[u8], pos: usize) -> (r: Result<(i32, usize), DecodeError>)
    ensures
        match (r, spec_read_i32(data@, pos as int)) {
            (Ok((v, next)), Ok((sv, snext))) => v == sv && next == snext,
            (Err(e), Err(se)) => e == se,
            _ => false,
        },
{
    match read_bytes(data, pos, 4) {
        Ok((bytes, next)) => Ok((le_i32(bytes), next)),
        Err(e) => Err(e),
    }
}

/// Reads a 32-bit little-endian float at `pos` and returns its bit pattern.
pub fn read_f32(data: &[u8], pos: usize) -> (r: Result<(u32, usize), DecodeError>)
    ensures
        match (r, spec_read_u32(data@, pos as int)) {
            (Ok((v, next)), Ok((sv, snext))) => v == sv && next == snext,
            (Err(e), Err(se)) => e == se,
            _ => false,
        },
{
    read_u32(data, pos)
}

/// Reads a string: an unsigned 16-bit byte length, then that many bytes,
/// which must be valid UTF-8.
pub fn read_length_prefixed_string(data: &[u8], pos: usize) -> (r: Result<(String, usize), DecodeError>)
    ensures
        match (r, spec_read_string(data@, pos as int)) {
            (Ok((v, next)), Ok((sv, snext))) => v@ == sv && next == snext,
            (Err(e), Err(se)) => e == se,
            _ => false,
        },
{
    let (n, p) = match read_u16(data, pos) {
        Ok(x) => x,
        Err(e) => { return Err(e); },
    };
    let (bytes, next) = match read_bytes(data, p, n as usize) {
        Ok(x) => x,
        Err(e) => { return Err(e); },
    };
    let owned = vstd::slice::slice_to_vec(bytes);
    match string_from_utf8(owned) {
        Some(s) => Ok((s, next)),
        None => Err(DecodeError::InvalidUtf8),
    }
}

} // verus!
