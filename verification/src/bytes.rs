//! Small verified helpers on byte buffers: fixed-width integer reads, byte
//! and string equality, NUL handling.

use vstd::prelude::*;
use vstd::slice::slice_subrange;
use vstd::utf8::encode_utf8_decode_utf8;

verus! {

/// Big-endian 32-bit value of the four bytes at `i`.
pub open spec fn be32(b: Seq<u8>, i: int) -> int
    recommends
        0 <= i,
        i + 4 <= b.len(),
{
    b[i] * 0x100_0000 + b[i + 1] * 0x1_0000 + b[i + 2] * 0x100 + b[i + 3]
}

/// Little-endian 32-bit value of the four bytes at `i`.
pub open spec fn le32(b: Seq<u8>, i: int) -> int
    recommends
        0 <= i,
        i + 4 <= b.len(),
{
    b[i + 3] * 0x100_0000 + b[i + 2] * 0x1_0000 + b[i + 1] * 0x100 + b[i]
}

/// Little-endian 16-bit value of two bytes.
pub open spec fn le16(lo: u8, hi: u8) -> int {
    hi * 0x100 + lo
}

/// Big-endian 16-bit value of two bytes.
pub open spec fn be16(hi: u8, lo: u8) -> int {
    hi * 0x100 + lo
}

/// Reads a big-endian `u32` from `data` at offset `i`.
pub fn read_be32(data: &[u8], i: usize) -> (r: u32)
    requires
        i + 4 <= data@.len(),
    ensures
        r == be32(data@, i as int),
{
    let _n = data.len();
    (data[i] as u32) * 0x100_0000 + (data[i + 1] as u32) * 0x1_0000 + (data[i + 2] as u32) * 0x100
        + (data[i + 3] as u32)
}

/// Reads a little-endian `u32` from `data` at offset `i`.
pub fn read_le32(data: &[u8], i: usize) -> (r: u32)
    requires
        i + 4 <= data@.len(),
    ensures
        r == le32(data@, i as int),
{
    let _n = data.len();
    (data[i + 3] as u32) * 0x100_0000 + (data[i + 2] as u32) * 0x1_0000 + (data[i + 1] as u32)
        * 0x100 + (data[i] as u32)
}

/// Byte-wise slice equality.
pub fn bytes_eq(a: &[u8], b: &[u8]) -> (r: bool)
    ensures
        r == (a@ == b@),
{
    if a.len() != b.len() {
        return false;
    }
    let n = a.len();
    let mut i: usize = 0;
    while i < n
        invariant
            n == a@.len() == b@.len(),
            0 <= i <= n,
            forall|j: int| 0 <= j < i ==> a@[j] == b@[j],
        decreases n - i,
    {
        if a[i] != b[i] {
            return false;
        }
        i += 1;
    }
    proof {
        assert(a@ =~= b@);
    }
    true
}

/// String equality by view: two `&str` are compared through their UTF-8
/// bytes, which determine the character sequences.
pub fn str_eq(a: &str, b: &str) -> (r: bool)
    ensures
        r == (a@ == b@),
{
    let r = bytes_eq(a.as_bytes(), b.as_bytes());
    proof {
        encode_utf8_decode_utf8(a@);
        encode_utf8_decode_utf8(b@);
    }
    r
}

/// Position of the first zero byte at or after `i`, if any.
pub open spec fn first_zero_from(b: Seq<u8>, i: int) -> Option<int>
    decreases b.len() - i when 0 <= i <= b.len()
{
    if i < 0 || i >= b.len() {
        None
    } else if b[i] == 0 {
        Some(i)
    } else {
        first_zero_from(b, i + 1)
    }
}

/// Finds the first zero byte of `data`, if any.
pub fn find_first_zero(data: &[u8]) -> (r: Option<usize>)
    ensures
        r matches Some(p) ==> p < data@.len() && first_zero_from(data@, 0) == Some(p as int),
        r is None ==> first_zero_from(data@, 0) is None,
{
    let n = data.len();
    let mut i: usize = 0;
    while i < n
        invariant
            n == data@.len(),
            0 <= i <= n,
            first_zero_from(data@, 0) == first_zero_from(data@, i as int),
        decreases n - i,
    {
        if data[i] == 0 {
            return Some(i);
        }
        i += 1;
    }
    None
}

/// `b` with all trailing zero bytes removed.
pub open spec fn trim_trailing_zeros(b: Seq<u8>) -> Seq<u8>
    decreases b.len()
{
    if b.len() > 0 && b.last() == 0 {
        trim_trailing_zeros(b.drop_last())
    } else {
        b
    }
}

/// Copies `data` without its trailing zero bytes.
pub fn trim_zeros(data: &[u8]) -> (out: Vec<u8>)
    ensures
        out@ == trim_trailing_zeros(data@),
{
    let len = data.len();
    proof {
        assert(data@.take(len as int) =~= data@);
    }
    let mut n: usize = len;
    while n > 0 && data[n - 1] == 0
        invariant
            n <= len == data@.len(),
            trim_trailing_zeros(data@) == trim_trailing_zeros(data@.take(n as int)),
        decreases n,
    {
        proof {
            assert(data@.take(n as int).drop_last() =~= data@.take(n - 1));
        }
        n -= 1;
    }
    proof {
        assert(trim_trailing_zeros(data@.take(n as int)) == data@.take(n as int));
    }
    let sub = slice_subrange(data, 0, n);
    let mut out: Vec<u8> = Vec::new();
    let mut i: usize = 0;
    while i < n
        invariant
            n <= data@.len(),
            sub@ == data@.take(n as int),
            0 <= i <= n,
            out@ == data@.take(n as int).take(i as int),
        decreases n - i,
    {
        out.push(sub[i]);
        proof {
            assert(data@.take(n as int).take(i + 1) =~= data@.take(n as int).take(i as int).push(
                data@.take(n as int)[i as int],
            ));
        }
        i += 1;
    }
    proof {
        assert(data@.take(n as int).take(n as int) =~= data@.take(n as int));
    }
    out
}

} // verus!
