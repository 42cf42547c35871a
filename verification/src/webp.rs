//! WebP (RIFF) chunk walker: iterates the sub-chunks after the 12-byte
//! `RIFF` header and locates the first `EXIF` chunk. RIFF sub-chunk sizes are
//! little-endian, and a chunk of odd size is padded to even length.

use vstd::prelude::*;

use crate::bytes::le32;
use crate::bytes::read_le32;

verus! {

/// The chunk at cursor `c` has type tag `EXIF`.
pub open spec fn is_exif_tag(b: Seq<u8>, c: int) -> bool
    recommends
        0 <= c,
        c + 4 <= b.len(),
{
    &&& b[c] == 0x45u8
    &&& b[c + 1] == 0x58u8
    &&& b[c + 2] == 0x49u8
    &&& b[c + 3] == 0x46u8
}

/// The data span `(start, length)` of the first `EXIF` chunk at or after
/// cursor `c`. A cursor without room for a chunk header, or a chunk whose
/// declared data span passes the buffer's end, ends the walk with `None`.
pub open spec fn webp_exif_span_from(b: Seq<u8>, c: int) -> Option<(int, int)>
    decreases b.len() + 1 - c,
{
    if !(0 <= c && c + 8 <= b.len()) {
        None
    } else {
        let size = le32(b, c + 4);
        if c + 8 + size > b.len() {
            None
        } else if is_exif_tag(b, c) {
            Some((c + 8, size))
        } else {
            webp_exif_span_from(b, c + 8 + size + (if size % 2 == 1 {
                1int
            } else {
                0int
            }))
        }
    }
}

/// The `EXIF` chunk span of a whole WebP buffer: the walk starts at byte 12,
/// past `RIFF`, the file size and `WEBP`.
pub open spec fn webp_exif_span_spec(b: Seq<u8>) -> Option<(int, int)> {
    webp_exif_span_from(b, 12)
}

/// Walks the RIFF sub-chunks of `data` and returns the data span of the
/// first `EXIF` chunk, if any.
pub fn find_webp_exif(data: &[u8]) -> (r: Option<(usize, usize)>)
    ensures
        r matches Some(span) ==> span.0 + span.1 <= data@.len() && webp_exif_span_spec(data@)
            == Some((span.0 as int, span.1 as int)),
        r is None ==> webp_exif_span_spec(data@) is None,
{
    let len = data.len();
    let mut c: usize = 12;
    loop
        invariant
            len == data@.len(),
            12 <= c,
            webp_exif_span_spec(data@) == webp_exif_span_from(data@, c as int),
        ensures
            webp_exif_span_from(data@, c as int) is None,
            webp_exif_span_spec(data@) is None,
        decreases len + 1 - c,
    {
        if c >= len || len - c < 8 {
            break;
        }
        let size = read_le32(data, c + 4) as usize;
        let rem = len - (c + 8);
        if size > rem {
            // the declared data span passes the buffer's end
            break;
        }
        if data[c] == 0x45 && data[c + 1] == 0x58 && data[c + 2] == 0x49 && data[c + 3] == 0x46 {
            return Some((c + 8, size));
        }
        let mut next = c + 8 + size;
        if size % 2 == 1 {
            // odd chunk: the next header starts one byte past the data end
            if next < len {
                next += 1;
            } else {
                proof {
                    assert(webp_exif_span_from(data@, c as int) == webp_exif_span_from(
                        data@,
                        c + 8 + size + 1,
                    ));
                    assert(webp_exif_span_from(data@, c + 8 + size + 1) is None);
                }
                break;
            }
        }
        c = next;
    }
    None
}

/// A chunk of odd declared size is padded: the walk continues one byte past
/// its data end, not at it.
pub proof fn lemma_webp_odd_padding(b: Seq<u8>, c: int)
    requires
        0 <= c,
        c + 8 <= b.len(),
        c + 8 + le32(b, c + 4) <= b.len(),
        le32(b, c + 4) % 2 == 1,
        !is_exif_tag(b, c),
    ensures
        webp_exif_span_from(b, c) == webp_exif_span_from(b, c + 8 + le32(b, c + 4) + 1),
{
}

/// A chunk whose declared size would place its data span beyond the buffer's
/// end ends the walk: no `EXIF` span is found there.
pub proof fn lemma_webp_overrun_stops(b: Seq<u8>, c: int)
    requires
        0 <= c,
        c + 8 <= b.len(),
        c + 8 + le32(b, c + 4) > b.len(),
    ensures
        webp_exif_span_from(b, c) is None,
{
}

} // verus!
