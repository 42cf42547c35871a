//! Extraction of embedded image-generation metadata (prompts, workflow
//! graphs, generation settings) from PNG, WebP, JPEG and AVIF containers.
//!
//! The crate works on one immutable byte buffer per invocation: it sniffs the
//! container format from a fixed-size header prefix, walks the container's
//! chunk or tag structure to collect `(keyword, value)` text records, decodes
//! EXIF `UserComment` payloads with charset-aware logic, and renders the
//! records as labeled text sections. It performs no filesystem or network
//! access itself; a caller hands it the bytes.

use vstd::prelude::*;

pub mod bytes;
pub mod decode;
pub mod exif;
pub mod png;
pub mod record;
pub mod render;
pub mod webp;

use record::RecordV;
use record::Source;
use record::TextRecord;

verus! {

/// Container formats recognized from a fixed-size header prefix.
#[derive(Clone, Copy, Debug, PartialEq, Eq, Structural)]
pub enum Format {
    Png,
    Webp,
    Jpeg,
    Avif,
    Unknown,
}

/// PNG signature `89 50 4E 47 0D 0A 1A 0A` at offset 0.
pub open spec fn is_png_header(b: Seq<u8>) -> bool {
    &&& b.len() >= 8
    &&& b[0] == 0x89u8
    &&& b[1] == 0x50u8
    &&& b[2] == 0x4eu8
    &&& b[3] == 0x47u8
    &&& b[4] == 0x0du8
    &&& b[5] == 0x0au8
    &&& b[6] == 0x1au8
    &&& b[7] == 0x0au8
}

/// `RIFF` at offset 0 and `WEBP` at offset 8.
pub open spec fn is_webp_header(b: Seq<u8>) -> bool {
    &&& b.len() >= 12
    &&& b[0] == 0x52u8
    &&& b[1] == 0x49u8
    &&& b[2] == 0x46u8
    &&& b[3] == 0x46u8
    &&& b[8] == 0x57u8
    &&& b[9] == 0x45u8
    &&& b[10] == 0x42u8
    &&& b[11] == 0x50u8
}

/// JPEG start-of-image marker `FF D8 FF` at offset 0.
pub open spec fn is_jpeg_header(b: Seq<u8>) -> bool {
    &&& b.len() >= 3
    &&& b[0] == 0xffu8
    &&& b[1] == 0xd8u8
    &&& b[2] == 0xffu8
}

/// `ftyp` box at offset 4 with brand `avif` or `avis` at offset 8.
pub open spec fn is_avif_header(b: Seq<u8>) -> bool {
    &&& b.len() >= 12
    &&& b[4] == 0x66u8
    &&& b[5] == 0x74u8
    &&& b[6] == 0x79u8
    &&& b[7] == 0x70u8
    &&& b[8] == 0x61u8
    &&& b[9] == 0x76u8
    &&& b[10] == 0x69u8
    &&& (b[11] == 0x66u8 || b[11] == 0x73u8)
}

/// Format classification of a whole-file buffer, first match winning.
pub open spec fn format_spec(b: Seq<u8>) -> Format {
    if is_png_header(b) {
        Format::Png
    } else if is_webp_header(b) {
        Format::Webp
    } else if is_jpeg_header(b) {
        Format::Jpeg
    } else if is_avif_header(b) {
        Format::Avif
    } else {
        Format::Unknown
    }
}

/// Classifies the container by its header prefix; buffers shorter than the
/// shortest signature are `Unknown`.
pub fn detect_format(data: &[u8]) -> (f: Format)
    ensures
        f == format_spec(data@),
{
    let len = data.len();
    if len >= 8 && data[0] == 0x89 && data[1] == 0x50 && data[2] == 0x4e && data[3] == 0x47
        && data[4] == 0x0d && data[5] == 0x0a && data[6] == 0x1a && data[7] == 0x0a {
        Format::Png
    } else if len >= 12 && data[0] == 0x52 && data[1] == 0x49 && data[2] == 0x46
        && data[3] == 0x46 && data[8] == 0x57 && data[9] == 0x45 && data[10] == 0x42
        && data[11] == 0x50 {
        Format::Webp
    } else if len >= 3 && data[0] == 0xff && data[1] == 0xd8 && data[2] == 0xff {
        Format::Jpeg
    } else if len >= 12 && data[4] == 0x66 && data[5] == 0x74 && data[6] == 0x79
        && data[7] == 0x70 && data[8] == 0x61 && data[9] == 0x76 && data[10] == 0x69
        && (data[11] == 0x66 || data[11] == 0x73) {
        Format::Avif
    } else {
        Format::Unknown
    }
}

/// How far into a whole file the EXIF marker and tag scans reach: 64 KiB,
/// since EXIF data is expected near the header.
pub open spec fn exif_scan_limit() -> int {
    0x1_0000
}

/// The record list a decoded `UserComment` yields: one EXIF record, or none.
pub open spec fn comment_records(o: Option<Seq<char>>) -> Seq<RecordV> {
    match o {
        Some(t) => seq![
            RecordV { source: Source::ExifUserComment, keyword: Seq::empty(), value: t },
        ],
        None => Seq::empty(),
    }
}

/// Every record the buffer yields, in discovery order: PNG buffers are
/// walked for `tEXt` chunks; a WebP buffer's first `EXIF` chunk, or the
/// 64 KiB EXIF window of a JPEG or AVIF buffer, yields at most one decoded
/// `UserComment`; an unrecognized buffer yields nothing.
pub open spec fn extract_spec(b: Seq<u8>) -> Seq<RecordV> {
    match format_spec(b) {
        Format::Png => png::png_records_spec(b),
        Format::Webp => match webp::webp_exif_span_spec(b) {
            Some(span) => comment_records(
                exif::user_comment_spec(b.subrange(span.0, span.0 + span.1), span.1),
            ),
            None => Seq::empty(),
        },
        Format::Jpeg => comment_records(exif::user_comment_spec(b, exif_scan_limit())),
        Format::Avif => comment_records(exif::user_comment_spec(b, exif_scan_limit())),
        Format::Unknown => Seq::empty(),
    }
}

/// An unrecognized buffer yields no records: extraction performs no work on
/// a format the sniffer does not accept.
pub proof fn lemma_unknown_yields_nothing(b: Seq<u8>)
    requires
        format_spec(b) == Format::Unknown,
    ensures
        extract_spec(b) == Seq::<RecordV>::empty(),
{
}

/// Extracts every metadata record of the buffer, in discovery order.
pub fn extract_records(data: &[u8]) -> (out: Vec<TextRecord>)
    ensures
        record::records_view(out@) == extract_spec(data@),
{
    match detect_format(data) {
        Format::Png => {
            let out = png::extract_png_records(data);
            out
        },
        Format::Webp => {
            let _len = data.len();
            let mut out: Vec<TextRecord> = Vec::new();
            match webp::find_webp_exif(data) {
                Some((start, size)) => {
                    let chunk = vstd::slice::slice_subrange(data, start, start + size);
                    match exif::exif_user_comment(chunk, size) {
                        Some(text) => {
                            let rec = TextRecord {
                                source: Source::ExifUserComment,
                                keyword: String::new(),
                                value: text,
                            };
                            proof {
                                assert(record::records_view(out@.push(rec)) =~= extract_spec(
                                    data@,
                                ));
                            }
                            out.push(rec);
                        },
                        None => {
                            proof {
                                assert(record::records_view(out@) =~= extract_spec(data@));
                            }
                        },
                    }
                },
                None => {
                    proof {
                        assert(record::records_view(out@) =~= extract_spec(data@));
                    }
                },
            }
            out
        },
        Format::Jpeg | Format::Avif => {
            let mut out: Vec<TextRecord> = Vec::new();
            match exif::exif_user_comment(data, 0x1_0000) {
                Some(text) => {
                    let rec = TextRecord {
                        source: Source::ExifUserComment,
                        keyword: String::new(),
                        value: text,
                    };
                    proof {
                        assert(record::records_view(out@.push(rec)) =~= extract_spec(data@));
                    }
                    out.push(rec);
                },
                None => {
                    proof {
                        assert(record::records_view(out@) =~= extract_spec(data@));
                    }
                },
            }
            out
        },
        Format::Unknown => {
            let out: Vec<TextRecord> = Vec::new();
            proof {
                assert(record::records_view(out@) =~= extract_spec(data@));
            }
            out
        },
    }
}

} // verus!

