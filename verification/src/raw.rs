//! Reading little- and big-endian scalars, terminated byte strings and
//! aligned positions out of an in-memory byte buffer.  Every reader has an
//! exact specification over the byte sequence, and fails with
//! [`Error::UnexpectedEof`] instead of running past the end.

use vstd::prelude::*;
use crate::error::Error;

verus! {

/// True when `n` bytes can be read at position `p` of `d`.
pub open spec fn spec_has(d: Seq<u8>, p: int, n: int) -> bool {
    0 <= p && p + n <= d.len()
}

/// The unsigned 16-bit value stored at `p`, in the given byte order.
pub open spec fn spec_u16_at(d: Seq<u8>, p: int, little: bool) -> u16 {
    if little {
        (d[p] + d[p + 1] * 0x100) as u16
    } else {
        (d[p + 1] + d[p] * 0x100) as u16
    }
}

/// The unsigned 32-bit value stored at `p`, in the given byte order.
pub open spec fn spec_u32_at(d: Seq<u8>, p: int, little: bool) -> u32 {
    if little {
        (d[p] + d[p + 1] * 0x100 + d[p + 2] * 0x1_0000 + d[p + 3] * 0x100_0000) as u32
    } else {
        (d[p + 3] + d[p + 2] * 0x100 + d[p + 1] * 0x1_0000 + d[p] * 0x100_0000) as u32
    }
}

/// The unsigned 64-bit value stored at `p`, in the given byte order.
pub open spec fn spec_u64_at(d: Seq<u8>, p: int, little: bool) -> u64 {
    if little {
        (spec_u32_at(d, p, true) + spec_u32_at(d, p + 4, true) * 0x1_0000_0000) as u64
    } else {
        (spec_u32_at(d, p + 4, false) + spec_u32_at(d, p, false) * 0x1_0000_0000) as u64
    }
}

/// The signed 32-bit value stored at `p`: the unsigned value reinterpreted
/// in two's complement.
pub open spec fn spec_i32_at(d: Seq<u8>, p: int, little: bool) -> i32 {
    spec_u32_at(d, p, little) as i32
}

/// The signed 64-bit value stored at `p`.
pub open spec fn spec_i64_at(d: Seq<u8>, p: int, little: bool) -> i64 {
    spec_u64_at(d, p, little) as i64
}

/// Index of the first zero byte at or after `p`, or the length of `d` when
/// there is none.
pub open spec fn spec_zero_at(d: Seq<u8>, p: int) -> int
    decreases d.len() - p,
{
    if p < 0 || p >= d.len() {
        d.len() as int
    } else if d[p] == 0 {
        p
    } else {
        spec_zero_at(d, p + 1)
    }
}

/// The first zero byte lies between `p` and the end of `d`.
pub proof fn lemma_zero_at_bounds(d: Seq<u8>, p: int)
    requires
        0 <= p <= d.len(),
    ensures
        p <= spec_zero_at(d, p) <= d.len(),
        spec_zero_at(d, p) < d.len() ==> d[spec_zero_at(d, p)] == 0,
        forall|j: int| p <= j < spec_zero_at(d, p) ==> d[j] != 0,
    decreases d.len() - p,
{
    if p < d.len() && d[p] != 0 {
        lemma_zero_at_bounds(d, p + 1);
    }
}

/// The next position at or after `p` that is a multiple of four.
pub open spec fn spec_align4(p: int) -> int {
    p + ((4 - p % 4) % 4)
}

pub fn read_u8(d: &Vec<u8>, p: usize) -> (r: Result<(u8, usize), Error>)
    ensures
        spec_has(d@, p as int, 1) ==> (r matches Ok(v) && v.0 == d@[p as int] && v.1 == p + 1),
        !spec_has(d@, p as int, 1) ==> (r matches Err(e) && e == Error::UnexpectedEof),
{
    if p < d.len() {
        Ok((d[p], p + 1))
    } else {
        Err(Error::UnexpectedEof)
    }
}

pub fn read_u16(d: &Vec<u8>, p: usize, little: bool) -> (r: Result<(u16, usize), Error>)
    ensures
        spec_has(d@, p as int, 2) ==> (r matches Ok(v) && v.0 == spec_u16_at(d@, p as int, little)
            && v.1 == p + 2),
        !spec_has(d@, p as int, 2) ==> (r matches Err(e) && e == Error::UnexpectedEof),
{
    if d.len() >= 2 && p <= d.len() - 2 {
        let b0 = d[p] as u16;
        let b1 = d[p + 1] as u16;
        if little {
            Ok((b0 + b1 * 0x100, p + 2))
        } else {
            Ok((b1 + b0 * 0x100, p + 2))
        }
    } else {
        Err(Error::UnexpectedEof)
    }
}

pub fn read_u32(d: &Vec<u8>, p: usize, little: bool) -> (r: Result<(u32, usize), Error>)
    ensures
        spec_has(d@, p as int, 4) ==> (r matches Ok(v) && v.0 == spec_u32_at(d@, p as int, little)
            && v.1 == p + 4),
        !spec_has(d@, p as int, 4) ==> (r matches Err(e) && e == Error::UnexpectedEof),
{
    if d.len() >= 4 && p <= d.len() - 4 {
        let b0 = d[p] as u32;
        let b1 = d[p + 1] as u32;
        let b2 = d[p + 2] as u32;
        let b3 = d[p + 3] as u32;
        if little {
            Ok((b0 + b1 * 0x100 + b2 * 0x1_0000 + b3 * 0x100_0000, p + 4))
        } else {
            Ok((b3 + b2 * 0x100 + b1 * 0x1_0000 + b0 * 0x100_0000, p + 4))
        }
    } else {
        Err(Error::UnexpectedEof)
    }
}

pub fn read_u64(d: &Vec<u8>, p: usize, little: bool) -> (r: Result<(u64, usize), Error>)
    ensures
        spec_has(d@, p as int, 8) ==> (r matches Ok(v) && v.0 == spec_u64_at(d@, p as int, little)
            && v.1 == p + 8),
        !spec_has(d@, p as int, 8) ==> (r matches Err(e) && e == Error::UnexpectedEof),
{
    if d.len() >= 8 && p <= d.len() - 8 {
        let (lo32, _) = read_u32(d, p, little).unwrap();
        let (hi32, _) = read_u32(d, p + 4, little).unwrap();
        if little {
            Ok((lo32 as u64 + (hi32 as u64) * 0x1_0000_0000, p + 8))
        } else {
            Ok((hi32 as u64 + (lo32 as u64) * 0x1_0000_0000, p + 8))
        }
    } else {
        Err(Error::UnexpectedEof)
    }
}

pub fn read_i32(d: &Vec<u8>, p: usize, little: bool) -> (r: Result<(i32, usize), Error>)
    ensures
        spec_has(d@, p as int, 4) ==> (r matches Ok(v) && v.0 == spec_i32_at(d@, p as int, little)
            && v.1 == p + 4),
        !spec_has(d@, p as int, 4) ==> (r matches Err(e) && e == Error::UnexpectedEof),
{
    match read_u32(d, p, little) {
        Ok((v, q)) => Ok((v as i32, q)),
        Err(e) => Err(e),
    }
}

pub fn read_i64(d: &Vec<u8>, p: usize, little: bool) -> (r: Result<(i64, usize), Error>)
    ensures
        spec_has(d@, p as int, 8) ==> (r matches Ok(v) && v.0 == spec_i64_at(d@, p as int, little)
            && v.1 == p + 8),
        !spec_has(d@, p as int, 8) ==> (r matches Err(e) && e == Error::UnexpectedEof),
{
    match read_u64(d, p, little) {
        Ok((v, q)) => Ok((v as i64, q)),
        Err(e) => Err(e),
    }
}

/// Copies `n` bytes starting at `p` out of the buffer.
pub fn read_bytes(d: &Vec<u8>, p: usize, n: usize) -> (r: Result<(Vec<u8>, usize), Error>)
    ensures
        spec_has(d@, p as int, n as int) ==> (r matches Ok((v, q)) && v@ == d@.subrange(
            p as int,
            p + n,
        ) && q == p + n),
        !spec_has(d@, p as int, n as int) ==> (r matches Err(e) && e == Error::UnexpectedEof),
{
    if n <= d.len() && p <= d.len() - n {
        let dlen: usize = d.len();
        let mut v: Vec<u8> = Vec::new();
        let mut i: usize = 0;
        while i < n
            invariant
                dlen == d@.len(),
                p + n <= dlen,
                i <= n,
                v@.len() == i,
                forall|j: int| 0 <= j < i ==> v@[j] == d@[p + j],
            decreases n - i,
        {
            v.push(d[p + i]);
            i += 1;
        }
        proof {
            assert(v@ =~= d@.subrange(p as int, p + n));
        }
        Ok((v, p + n))
    } else {
        Err(Error::UnexpectedEof)
    }
}

/// Reads the zero-terminated byte string at `p`: the bytes before the first
/// zero byte, with the position moved past the terminator.  Fails when no
/// terminator exists before the end of the buffer.
pub fn read_nullstr(d: &Vec<u8>, p: usize) -> (r: Result<(Vec<u8>, usize), Error>)
    requires
        p <= d@.len(),
    ensures
        spec_zero_at(d@, p as int) < d@.len() ==> (r matches Ok((v, q)) && v@ == d@.subrange(
            p as int,
            spec_zero_at(d@, p as int),
        ) && q == spec_zero_at(d@, p as int) + 1),
        spec_zero_at(d@, p as int) == d@.len() ==> (r matches Err(e) && e == Error::UnexpectedEof),
{
    proof {
        lemma_zero_at_bounds(d@, p as int);
    }
    let mut e: usize = p;
    while e < d.len() && d[e] != 0
        invariant
            p <= e <= d@.len(),
            spec_zero_at(d@, p as int) == spec_zero_at(d@, e as int),
        decreases d@.len() - e,
    {
        proof {
            assert(spec_zero_at(d@, e as int) == spec_zero_at(d@, e + 1));
        }
        e += 1;
    }
    proof {
        lemma_zero_at_bounds(d@, e as int);
    }
    if e < d.len() {
        match read_bytes(d, p, e - p) {
            Ok((v, _)) => Ok((v, e + 1)),
            Err(er) => Err(er),
        }
    } else {
        Err(Error::UnexpectedEof)
    }
}

/// Moves `p` forward to the next multiple of four.  Fails only when that
/// position does not fit in `usize`.
pub fn align4(p: usize) -> (r: Result<usize, Error>)
    ensures
        spec_align4(p as int) <= usize::MAX ==> (r matches Ok(v) && v == spec_align4(p as int)),
        spec_align4(p as int) > usize::MAX ==> (r matches Err(e) && e == Error::UnexpectedEof),
{
    let rem = p % 4;
    if rem == 0 {
        Ok(p)
    } else {
        let pad = 4 - rem;
        if p <= usize::MAX - pad {
            Ok(p + pad)
        } else {
            Err(Error::UnexpectedEof)
        }
    }
}

} // verus!
