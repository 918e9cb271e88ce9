use vstd::prelude::*;
use vstd::arithmetic::power2::{lemma2_to64, lemma_pow2_adds, lemma_pow2_unfold, pow2};

verus! {

/// The largest power of two that is not above `m`, with its exponent, found
/// by doubling from the power `p` with exponent `e`.
pub open spec fn spec_leading(m: int, p: int, e: int) -> (int, int)
    decreases m - p,
{
    if p <= 0 || 2 * p > m {
        (p, e)
    } else {
        spec_leading(m, 2 * p, e + 1)
    }
}

/// The bit pattern of the single-precision float `raw / 4096`: the sign bit,
/// the biased exponent above the 23 bits of the fraction, and the fraction.
pub open spec fn spec_uv_bits(raw: int) -> int {
    if raw == 0 {
        0
    } else {
        let m = if raw < 0 { -raw } else { raw };
        let (p, e) = spec_leading(m, 1, 0);
        (if raw < 0 { 0x8000_0000int } else { 0int }) + (e + 115) * 0x80_0000 + (m - p) * (0x80_0000int / p)
    }
}

/// The texture coordinates of fixed-point numbers, each as a float's bit pattern.
pub open spec fn spec_unpack_uvs(raw: Seq<i16>) -> Seq<u32> {
    Seq::new(raw.len(), |i: int| spec_uv_bits(raw[i] as int) as u32)
}

/// Whether `bits` is the single-precision float whose value is exactly
/// `num / 4096`. A pattern with sign `s`, exponent field `x` between 1 and
/// 150 and fraction `f` denotes the number `(2^23 + f) / 2^(150 - x)`,
/// negated where `s` is 1; the pattern 0 denotes zero.
pub open spec fn spec_denotes_4096ths(bits: u32, num: int) -> bool {
    let sign = bits as int / 0x8000_0000;
    let exponent = (bits as int / 0x80_0000) % 256;
    let fraction = bits as int % 0x80_0000;
    if num == 0 {
        bits == 0
    } else {
        &&& (sign == 1) == (num < 0)
        &&& 1 <= exponent <= 150
        &&& (0x80_0000 + fraction) * 4096 == (if num < 0 { -num } else { num }) * pow2((150 - exponent) as nat)
    }
}

/// Doubling from a power of two that is not above `m` ends at the power of
/// two `P` with `P <= m < 2 * P`.
pub proof fn lemma_leading(m: int, p: int, e: int)
    requires
        1 <= m <= 32768,
        0 < p <= m,
        0 <= e <= 23,
        p * pow2((23 - e) as nat) == 0x80_0000,
    ensures
        spec_leading(m, p, e).0 <= m < 2 * spec_leading(m, p, e).0,
        0 <= spec_leading(m, p, e).1 < 23,
        spec_leading(m, p, e).0 * pow2((23 - spec_leading(m, p, e).1) as nat) == 0x80_0000,
    decreases m - p,
{
    let rest = pow2((23 - e) as nat);
    assert(rest >= 256) by (nonlinear_arith)
        requires
            p * rest == 0x80_0000,
            0 < p <= 32768,
    ;
    lemma2_to64();
    assert(e < 23);
    if 2 * p <= m {
        lemma_pow2_unfold((23 - e) as nat);
        let half = pow2((23 - (e + 1)) as nat);
        assert(rest == 2 * half);
        assert((2 * p) * half == 0x80_0000) by (nonlinear_arith)
            requires
                p * rest == 0x80_0000,
                rest == 2 * half,
        ;
        lemma_leading(m, 2 * p, e + 1);
    }
}

/// The bit pattern that `spec_uv_bits` gives for a 16-bit fixed-point number
/// is the float that is exactly that number over 4096.
pub proof fn lemma_uv_bits_exact(raw: i16)
    ensures
        0 <= spec_uv_bits(raw as int) <= u32::MAX,
        spec_denotes_4096ths(spec_uv_bits(raw as int) as u32, raw as int),
{
    if raw != 0 {
        let m: int = if raw < 0 { -(raw as int) } else { raw as int };
        lemma2_to64();
        lemma_leading(m, 1, 0);
        let (p, e) = spec_leading(m, 1, 0);
        let q = pow2((23 - e) as nat) as int;
        let step: int = 0x80_0000int / p;
        assert(step == q) by (nonlinear_arith)
            requires
                p * q == 0x80_0000,
                p > 0,
                step == 0x80_0000int / p,
        ;
        let fraction = (m - p) * q;
        assert(0 <= fraction < 0x80_0000 && 0x80_0000 + fraction == m * q) by (nonlinear_arith)
            requires
                p * q == 0x80_0000,
                p <= m < 2 * p,
                q > 0,
                fraction == (m - p) * q,
        ;
        let sign: int = if raw < 0 { 1 } else { 0 };
        let bits = sign * 0x8000_0000 + (e + 115) * 0x80_0000 + fraction;
        assert(bits == spec_uv_bits(raw as int));
        assert(0 <= bits <= u32::MAX);
        assert(bits % 0x80_0000 == fraction);
        assert(bits / 0x80_0000 == sign * 256 + e + 115);
        assert((bits / 0x80_0000) % 256 == e + 115);
        assert(bits / 0x8000_0000 == sign);
        lemma_pow2_adds(12, (23 - e) as nat);
        assert(pow2((150 - (e + 115)) as nat) == 4096 * q);
        assert((m * q) * 4096 == m * (4096 * q)) by (nonlinear_arith);
    }
}

/// The bit pattern of the float `raw / 4096`. The float is exact: sixteen
/// bits fit into the fraction of a single-precision float.
pub fn uv_to_f32_bits(raw: i16) -> (bits: u32)
    ensures
        bits == spec_uv_bits(raw as int),
        spec_denotes_4096ths(bits, raw as int),
{
    if raw == 0 {
        return 0;
    }
    let sign: u32 = if raw < 0 { 0x8000_0000 } else { 0 };
    let wide: i32 = raw as i32;
    let m: u32 = if raw < 0 { (-wide) as u32 } else { wide as u32 };
    let mut p: u32 = 1;
    let mut e: u32 = 0;
    while 2 * p <= m
        invariant
            1 <= m <= 32768,
            0 < p <= m,
            e < p,
            spec_leading(m as int, 1, 0) == spec_leading(m as int, p as int, e as int),
        decreases m - p,
    {
        p = 2 * p;
        e = e + 1;
    }
    proof {
        lemma2_to64();
        lemma_leading(m as int, 1, 0);
        lemma_uv_bits_exact(raw);
        let q = pow2((23 - e) as nat) as int;
        let step: int = 0x80_0000int / (p as int);
        assert(step == q) by (nonlinear_arith)
            requires
                p * q == 0x80_0000,
                p > 0,
                step == 0x80_0000int / (p as int),
        ;
        assert(0 <= (m - p) * q < 0x80_0000) by (nonlinear_arith)
            requires
                p * q == 0x80_0000,
                p <= m < 2 * p,
                q > 0,
        ;
    }
    let step: u32 = 0x80_0000 / p;
    let fraction: u32 = (m - p) * step;
    sign + (e + 115) * 0x80_0000 + fraction
}

/// Turns fixed-point texture coordinates into floats, one for one.
pub fn unpack_uvs(raw: &Vec<i16>) -> (uvs: Vec<u32>)
    ensures
        uvs@ == spec_unpack_uvs(raw@),
        uvs@.len() == raw@.len(),
        forall|i: int| 0 <= i < raw@.len() ==> spec_denotes_4096ths(#[trigger] uvs@[i], raw@[i] as int),
{
    let n = raw.len();
    let mut uvs: Vec<u32> = Vec::with_capacity(n);
    let mut i: usize = 0;
    while i < n
        invariant
            n == raw@.len(),
            i <= n,
            uvs@.len() == i,
            forall|k: int| 0 <= k < i ==> uvs@[k] as int == spec_uv_bits(raw@[k] as int),
            forall|k: int| 0 <= k < i ==> spec_denotes_4096ths(#[trigger] uvs@[k], raw@[k] as int),
        decreases n - i,
    {
        uvs.push(uv_to_f32_bits(raw[i]));
        i += 1;
    }
    assert(uvs@ =~= spec_unpack_uvs(raw@));
    uvs
}

} // verus!
