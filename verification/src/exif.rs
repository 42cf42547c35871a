//! TIFF/EXIF `UserComment` locator: finds the TIFF base behind the
//! `Exif\0\0` marker, scans for the `UserComment` tag id `0x9286`, resolves
//! the tag's data span relative to the TIFF base, and decodes the payload.
//!
//! The marker and tag scans cover only a caller-chosen prefix of the buffer
//! (for whole files, the first 64 KiB, where EXIF data sits near the
//! header); the resolved payload may lie anywhere in the buffer. The tag
//! search is a raw byte scan for the two-byte id rather than a structured
//! IFD-entry walk; it is a deliberate heuristic of this tool.

use vstd::prelude::*;
use vstd::slice::slice_subrange;

use crate::bytes::be32;
use crate::bytes::read_be32;
use crate::decode::decode_user_comment;
use crate::decode::decoded_comment;

verus! {

/// The end of the scanned prefix: the scan limit, clamped to the buffer.
pub open spec fn scan_end(b: Seq<u8>, limit: int) -> int {
    if b.len() <= limit {
        b.len() as int
    } else {
        limit
    }
}

/// The literal marker `Exif\0\0` stands at offset `i`.
pub open spec fn exif_marker_at(w: Seq<u8>, i: int) -> bool
    recommends
        0 <= i,
        i + 6 <= w.len(),
{
    &&& w[i] == 0x45u8
    &&& w[i + 1] == 0x78u8
    &&& w[i + 2] == 0x69u8
    &&& w[i + 3] == 0x66u8
    &&& w[i + 4] == 0x00u8
    &&& w[i + 5] == 0x00u8
}

/// Position of the first `Exif\0\0` marker at or after `i` that fits before
/// `end`, if any.
pub open spec fn find_marker_from(w: Seq<u8>, end: int, i: int) -> Option<int>
    decreases end - i when 0 <= i
{
    if i + 6 > end {
        None
    } else if exif_marker_at(w, i) {
        Some(i)
    } else {
        find_marker_from(w, end, i + 1)
    }
}

/// The TIFF base offset of the buffer: six bytes past the first `Exif\0\0`
/// marker of the scanned prefix. Tag value offsets are relative to this
/// base.
pub open spec fn tiff_base(b: Seq<u8>, limit: int) -> Option<int> {
    match find_marker_from(b, scan_end(b, limit), 0) {
        Some(i) => Some(i + 6),
        None => None,
    }
}

/// The big-endian `UserComment` tag id `0x9286` stands at offset `i`.
pub open spec fn tag_at(w: Seq<u8>, i: int) -> bool
    recommends
        0 <= i,
        i + 2 <= w.len(),
{
    w[i] == 0x92u8 && w[i + 1] == 0x86u8
}

/// Position of the first `UserComment` tag id at or after `i` whose whole
/// 12-byte IFD entry fits before `end`, if any.
pub open spec fn find_tag_from(w: Seq<u8>, end: int, i: int) -> Option<int>
    decreases end - i when 0 <= i
{
    if i + 12 > end {
        None
    } else if tag_at(w, i) {
        Some(i)
    } else {
        find_tag_from(w, end, i + 1)
    }
}

/// The `UserComment` payload of a buffer: the tag entry gives a byte count
/// at entry offset 4 and a value offset at entry offset 8, the latter
/// relative to the TIFF base. A span past the buffer's end, or one too
/// short to carry a charset identifier, yields nothing.
pub open spec fn comment_payload(b: Seq<u8>, limit: int) -> Option<Seq<u8>> {
    match tiff_base(b, limit) {
        None => None,
        Some(base) => match find_tag_from(b, scan_end(b, limit), 0) {
            None => None,
            Some(i) => {
                let data_len = be32(b, i + 4);
                let abs = base + be32(b, i + 8);
                if data_len >= 8 && abs + data_len <= b.len() {
                    Some(b.subrange(abs, abs + data_len))
                } else {
                    None
                }
            },
        },
    }
}

/// What the buffer's `UserComment` decodes to, if the scanned prefix holds
/// one with a resolvable payload.
pub open spec fn user_comment_spec(b: Seq<u8>, limit: int) -> Option<Seq<char>> {
    match comment_payload(b, limit) {
        Some(p) => decoded_comment(p),
        None => None,
    }
}

/// Finds the first `Exif\0\0` marker of the buffer's first `end` bytes.
fn find_marker(w: &[u8], end: usize) -> (r: Option<usize>)
    requires
        end <= w@.len(),
    ensures
        r matches Some(p) ==> p + 6 <= w@.len() && find_marker_from(w@, end as int, 0) == Some(
            p as int,
        ),
        r is None ==> find_marker_from(w@, end as int, 0) is None,
{
    let mut i: usize = 0;
    while i < end && end - i >= 6
        invariant
            end <= w@.len(),
            0 <= i <= end,
            find_marker_from(w@, end as int, 0) == find_marker_from(w@, end as int, i as int),
        decreases end - i,
    {
        if w[i] == 0x45 && w[i + 1] == 0x78 && w[i + 2] == 0x69 && w[i + 3] == 0x66 && w[i + 4]
            == 0x00 && w[i + 5] == 0x00 {
            return Some(i);
        }
        i += 1;
    }
    None
}

/// Finds the first `UserComment` tag id whose IFD entry fits in the
/// buffer's first `end` bytes.
fn find_tag(w: &[u8], end: usize) -> (r: Option<usize>)
    requires
        end <= w@.len(),
    ensures
        r matches Some(p) ==> p + 12 <= w@.len() && find_tag_from(w@, end as int, 0) == Some(
            p as int,
        ),
        r is None ==> find_tag_from(w@, end as int, 0) is None,
{
    let mut i: usize = 0;
    while i < end && end - i >= 12
        invariant
            end <= w@.len(),
            0 <= i <= end,
            find_tag_from(w@, end as int, 0) == find_tag_from(w@, end as int, i as int),
        decreases end - i,
    {
        if w[i] == 0x92 && w[i + 1] == 0x86 {
            return Some(i);
        }
        i += 1;
    }
    None
}

/// Locates and decodes the `UserComment` of a buffer, scanning its first
/// `limit` bytes for the marker and the tag: a whole JPEG or AVIF file with
/// a 64 KiB scan limit, or a WebP `EXIF` chunk scanned in full.
pub fn exif_user_comment(data: &[u8], limit: usize) -> (r: Option<String>)
    ensures
        r is Some <==> user_comment_spec(data@, limit as int) is Some,
        r matches Some(s) ==> user_comment_spec(data@, limit as int) == Some(s@),
{
    let len = data.len();
    let end = if len <= limit {
        len
    } else {
        limit
    };
    let base = match find_marker(data, end) {
        Some(m) => m + 6,
        None => {
            return None;
        },
    };
    let i = match find_tag(data, end) {
        Some(i) => i,
        None => {
            return None;
        },
    };
    let data_len = read_be32(data, i + 4) as usize;
    let off = read_be32(data, i + 8) as usize;
    if data_len < 8 {
        return None;
    }
    if base > len || off > len - base {
        // the value offset alone passes the buffer's end
        return None;
    }
    let abs = base + off;
    if data_len > len - abs {
        // the data span passes the buffer's end
        return None;
    }
    let payload = slice_subrange(data, abs, abs + data_len);
    decode_user_comment(payload)
}

/// A tag whose resolved data span would pass the buffer's end, or whose
/// declared length cannot carry a charset identifier, yields nothing.
pub proof fn lemma_exif_overrun_skips(b: Seq<u8>, limit: int, base: int, i: int)
    requires
        tiff_base(b, limit) == Some(base),
        find_tag_from(b, scan_end(b, limit), 0) == Some(i),
        be32(b, i + 4) < 8 || base + be32(b, i + 8) + be32(b, i + 4) > b.len(),
    ensures
        comment_payload(b, limit) is None,
        user_comment_spec(b, limit) is None,
{
}

} // verus!
