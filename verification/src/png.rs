//! PNG chunk walker: iterates the chunk sequence after the 8-byte signature
//! and extracts a `(keyword, value)` record from every `tEXt` chunk whose
//! keyword decodes as UTF-8.

use vstd::prelude::*;
use vstd::slice::slice_subrange;
use vstd::utf8::decode_utf8;
use vstd::utf8::valid_utf8;

use crate::bytes::be32;
use crate::bytes::find_first_zero;
use crate::bytes::first_zero_from;
use crate::bytes::read_be32;
use crate::record::records_view;
use crate::record::RecordV;
use crate::record::Source;
use crate::record::TextRecord;

verus! {

/// The chunk at cursor `c` has type tag `tEXt`.
pub open spec fn is_text_tag(b: Seq<u8>, c: int) -> bool
    recommends
        0 <= c,
        c + 8 <= b.len(),
{
    &&& b[c + 4] == 0x74u8
    &&& b[c + 5] == 0x45u8
    &&& b[c + 6] == 0x58u8
    &&& b[c + 7] == 0x74u8
}

/// The records of the single chunk at cursor `c`: one for a `tEXt` chunk
/// whose data splits at a NUL into a UTF-8 keyword and a value (a value that
/// is not UTF-8 yields the empty string), none otherwise.
pub open spec fn png_chunk_records(b: Seq<u8>, c: int) -> Seq<RecordV>
    recommends
        0 <= c,
        c + 8 + be32(b, c) <= b.len(),
{
    if !is_text_tag(b, c) {
        Seq::empty()
    } else {
        let data = b.subrange(c + 8, c + 8 + be32(b, c));
        match first_zero_from(data, 0) {
            Some(p) => {
                let kw = data.take(p);
                let val = data.skip(p + 1);
                if valid_utf8(kw) {
                    seq![
                        RecordV {
                            source: Source::PngText,
                            keyword: decode_utf8(kw),
                            value: if valid_utf8(val) {
                                decode_utf8(val)
                            } else {
                                Seq::empty()
                            },
                        },
                    ]
                } else {
                    Seq::empty()
                }
            },
            None => Seq::empty(),
        }
    }
}

/// The records of all chunks from cursor `c` on. A cursor without room for a
/// chunk header, or a chunk whose data and CRC would pass the buffer's end,
/// ends the walk.
pub open spec fn png_records_from(b: Seq<u8>, c: int) -> Seq<RecordV>
    decreases b.len() - c,
{
    if !(0 <= c && c + 8 < b.len()) {
        Seq::empty()
    } else {
        let next = c + 8 + be32(b, c) + 4;
        if next > b.len() {
            Seq::empty()
        } else {
            png_chunk_records(b, c) + png_records_from(b, next)
        }
    }
}

/// The records of a whole PNG buffer: the walk starts right after the
/// signature, at byte 8.
pub open spec fn png_records_spec(b: Seq<u8>) -> Seq<RecordV> {
    png_records_from(b, 8)
}

/// Walks the PNG chunks of `data` and collects the `tEXt` records in
/// discovery order.
pub fn extract_png_records(data: &[u8]) -> (out: Vec<TextRecord>)
    ensures
        records_view(out@) == png_records_spec(data@),
{
    let len = data.len();
    let mut out: Vec<TextRecord> = Vec::new();
    if len < 9 {
        proof {
            assert(records_view(out@) =~= png_records_from(data@, 8));
        }
        return out;
    }
    let limit = len - 8;
    let mut c: usize = 8;
    while c < limit
        invariant
            len == data@.len(),
            9 <= len,
            limit == len - 8,
            8 <= c <= len,
            records_view(out@) + png_records_from(data@, c as int) == png_records_spec(data@),
        ensures
            records_view(out@) == png_records_spec(data@),
        decreases len - c,
    {
        let chunk_len_u32 = read_be32(data, c);
        let chunk_len = chunk_len_u32 as usize;
        let rem = len - (c + 8);
        if rem < 4 || chunk_len > rem - 4 {
            // the declared data span and CRC would pass the buffer's end
            proof {
                assert(png_records_from(data@, c as int) =~= Seq::<RecordV>::empty());
                assert(records_view(out@) =~= png_records_spec(data@));
            }
            break;
        }
        let next = c + 8 + chunk_len + 4;
        proof {
            assert(png_records_from(data@, c as int) == png_chunk_records(data@, c as int)
                + png_records_from(data@, next as int));
        }
        if data[c + 4] == 0x74 && data[c + 5] == 0x45 && data[c + 6] == 0x58 && data[c + 7]
            == 0x74 {
            let chunk = slice_subrange(data, c + 8, c + 8 + chunk_len);
            match find_first_zero(chunk) {
                Some(p) => {
                    let kw_bytes = slice_subrange(chunk, 0, p);
                    let val_bytes = slice_subrange(chunk, p + 1, chunk_len);
                    match crate::decode::utf8_to_str(kw_bytes) {
                        Some(kw) => {
                            let value: String = match crate::decode::utf8_to_str(val_bytes) {
                                Some(v) => v.to_owned(),
                                None => String::new(),
                            };
                            let rec = TextRecord {
                                source: Source::PngText,
                                keyword: kw.to_owned(),
                                value,
                            };
                            proof {
                                assert(png_chunk_records(data@, c as int) =~= seq![rec@]);
                            }
                            out.push(rec);
                            proof {
                                assert(records_view(out@) =~= records_view(out@.drop_last()).push(
                                    out@.last()@,
                                ));
                                assert(records_view(out@) + png_records_from(data@, next as int)
                                    =~= png_records_spec(data@));
                            }
                        },
                        None => {
                            proof {
                                assert(png_chunk_records(data@, c as int) =~= Seq::<
                                    RecordV,
                                >::empty());
                                assert(records_view(out@) + png_records_from(data@, next as int)
                                    =~= png_records_spec(data@));
                            }
                        },
                    }
                },
                None => {
                    proof {
                        assert(png_chunk_records(data@, c as int) =~= Seq::<RecordV>::empty());
                        assert(records_view(out@) + png_records_from(data@, next as int)
                            =~= png_records_spec(data@));
                    }
                },
            }
        } else {
            proof {
                assert(png_chunk_records(data@, c as int) =~= Seq::<RecordV>::empty());
                assert(records_view(out@) + png_records_from(data@, next as int)
                    =~= png_records_spec(data@));
            }
        }
        c = next;
    }
    out
}

/// A chunk whose declared length would place its data span (with the
/// trailing CRC) beyond the buffer's end yields no records: the walk stops
/// there.
pub proof fn lemma_png_overrun_stops(b: Seq<u8>, c: int)
    requires
        0 <= c,
        c + 8 < b.len(),
        c + 8 + be32(b, c) + 4 > b.len(),
    ensures
        png_records_from(b, c) == Seq::<RecordV>::empty(),
{
}

} // verus!
