//! Little-endian primitives of the binary container format, read from an
//! in-memory byte slice at a 64-bit position.
use vstd::prelude::*;

verus! {

/// Inputs are at most this long, so that every position the decoder computes
/// (an in-bounds position plus a few declared 32-bit lengths) fits in a `u64`.
pub const MAX_INPUT: u64 = 0x1000_0000_0000_0000;

pub open spec fn le16(b: Seq<u8>, p: int) -> int {
    b[p] as int + 256 * b[p + 1] as int
}

pub open spec fn le32(b: Seq<u8>, p: int) -> int {
    le16(b, p) + 65536 * le16(b, p + 2)
}

pub open spec fn le64(b: Seq<u8>, p: int) -> int {
    le32(b, p) + 4294967296 * le32(b, p + 4)
}

/// The index of the first zero byte at or after `p`, if there is one.
pub open spec fn zero_from(b: Seq<u8>, p: int) -> Option<int>
    decreases b.len() - p,
{
    if p < 0 || p >= b.len() {
        None
    } else if b[p] == 0 {
        Some(p)
    } else {
        zero_from(b, p + 1)
    }
}

pub proof fn lemma_zero_from(b: Seq<u8>, p: int)
    requires
        0 <= p,
    ensures
        zero_from(b, p) matches Some(q) ==> p <= q < b.len() && b[q] == 0 && forall|i: int|
            p <= i < q ==> b[i] != 0,
        zero_from(b, p) is None ==> forall|i: int| p <= i < b.len() ==> b[i] != 0,
    decreases b.len() - p,
{
    if p < b.len() && b[p] != 0 {
        lemma_zero_from(b, p + 1);
    }
}

pub fn read_u16(data: &[u8], pos: u64) -> (r: Option<u16>)
    ensures
        r is Some <==> pos + 2 <= data@.len(),
        r matches Some(v) ==> v == le16(data@, pos as int),
{
    if pos < data.len() as u64 && data.len() as u64 - pos >= 2 {
        let p = pos as usize;
        let b0 = data[p] as u16;
        let b1 = data[p + 1] as u16;
        assert(b0 + 256 * b1 <= 65535) by (nonlinear_arith)
            requires
                b0 <= 255,
                b1 <= 255,
        ;
        Some(b0 + 256 * b1)
    } else {
        None
    }
}

pub fn read_u32(data: &[u8], pos: u64) -> (r: Option<u32>)
    ensures
        r is Some <==> pos + 4 <= data@.len(),
        r matches Some(v) ==> v == le32(data@, pos as int),
{
    if pos < data.len() as u64 && data.len() as u64 - pos >= 4 {
        let lo = read_u16(data, pos).unwrap() as u32;
        let hi = read_u16(data, pos + 2).unwrap() as u32;
        assert(lo + 65536 * hi <= 0xffff_ffff) by (nonlinear_arith)
            requires
                lo <= 65535,
                hi <= 65535,
        ;
        Some(lo + 65536 * hi)
    } else {
        None
    }
}

pub fn read_u64(data: &[u8], pos: u64) -> (r: Option<u64>)
    ensures
        r is Some <==> pos + 8 <= data@.len(),
        r matches Some(v) ==> v == le64(data@, pos as int),
{
    if pos < data.len() as u64 && data.len() as u64 - pos >= 8 {
        let lo = read_u32(data, pos).unwrap() as u64;
        let hi = read_u32(data, pos + 4).unwrap() as u64;
        assert(lo + 4294967296 * hi <= 0xffff_ffff_ffff_ffff) by (nonlinear_arith)
            requires
                lo <= 0xffff_ffff,
                hi <= 0xffff_ffff,
        ;
        Some(lo + 4294967296 * hi)
    } else {
        None
    }
}

/// A little-endian `i32`: the two's-complement reading of the 32-bit word.
pub fn read_i32(data: &[u8], pos: u64) -> (r: Option<i32>)
    ensures
        r is Some <==> pos + 4 <= data@.len(),
        r matches Some(v) ==> v == (le32(data@, pos as int) as u32) as i32,
{
    match read_u32(data, pos) {
        Some(v) => Some(v as i32),
        None => None,
    }
}

/// The bytes `data[pos .. pos + n]`.
pub fn copy_bytes(data: &[u8], pos: u64, n: u64) -> (r: Vec<u8>)
    requires
        pos + n <= data@.len(),
    ensures
        r@ == data@.subrange(pos as int, pos + n),
{
    let mut r: Vec<u8> = Vec::new();
    let mut i: u64 = 0;
    let len = data.len();
    while i < n
        invariant
            i <= n,
            len == data@.len(),
            pos + n <= data@.len(),
            r@ == data@.subrange(pos as int, pos + i),
        decreases n - i,
    {
        let k: u64 = pos + i;
        assert(k < data@.len());
        r.push(data[k as usize]);
        i = i + 1;
        assert(r@ =~= data@.subrange(pos as int, pos + i));
    }
    r
}

/// A zero-terminated byte string at `pos`: its bytes without the terminator,
/// and the position just past the terminator.
pub fn read_null_string(data: &[u8], pos: u64) -> (r: Option<(Vec<u8>, u64)>)
    ensures
        r is Some <==> zero_from(data@, pos as int) is Some,
        r matches Some((s, next)) ==> {
            let q = zero_from(data@, pos as int)->0;
            &&& s@ == data@.subrange(pos as int, q)
            &&& next == q + 1
        },
{
    proof {
        lemma_zero_from(data@, pos as int);
    }
    if pos >= data.len() as u64 {
        return None;
    }
    let mut s: Vec<u8> = Vec::new();
    let mut i: u64 = pos;
    while i < data.len() as u64
        invariant
            pos <= i <= data@.len(),
            s@ == data@.subrange(pos as int, i as int),
            zero_from(data@, pos as int) == zero_from(data@, i as int),
        decreases data@.len() - i,
    {
        let c = data[i as usize];
        if c == 0 {
            return Some((s, i + 1));
        }
        s.push(c);
        i = i + 1;
        assert(s@ =~= data@.subrange(pos as int, i as int));
    }
    None
}

} // verus!
