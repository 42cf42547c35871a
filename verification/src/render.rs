//! Rendering of extracted records as labeled text sections.
//!
//! Each record renders as a header line `--- <label> ---` followed by its
//! value. The label comes from a fixed keyword table; unknown keywords render
//! under the keyword itself, and EXIF `UserComment` records under a fixed
//! label. For the `Comment` and `generation_data` keywords the value is
//! pretty-printed when it parses as JSON, verbatim otherwise.

use vstd::prelude::*;
use vstd::string::StringExecFns;

use crate::bytes::str_eq;
use crate::record::RecordV;
use crate::record::Source;
use crate::record::TextRecord;

verus! {

/// What `serde_json` makes of a text: `None` where it is not valid JSON,
/// else the pretty-printed form with stable two-space indentation.
pub uninterp spec fn pretty_json_of(s: Seq<char>) -> Option<Seq<char>>;

/// Relies on `serde_json::from_str::<Value>` and
/// `serde_json::to_string_pretty`: parsing succeeds exactly on valid JSON
/// text, serializing a parsed `Value` does not fail, and both results are
/// functions of the input text alone.
#[verifier::external_body]
fn pretty_print_json(s: &str) -> (r: Option<String>)
    ensures
        r is Some <==> pretty_json_of(s@) is Some,
        r matches Some(p) ==> pretty_json_of(s@) == Some(p@),
{
    match serde_json::from_str::<serde_json::Value>(s) {
        Ok(v) => Some(serde_json::to_string_pretty(&v).unwrap_or(String::new())),
        Err(_) => None,
    }
}

/// The section label of a record: EXIF comments and the known keywords get a
/// fixed label, any other keyword stands as its own generic label.
pub open spec fn label_spec(r: RecordV) -> Seq<char> {
    if r.source == Source::ExifUserComment {
        "EXIF UserComment"@
    } else if r.keyword == "Description"@ {
        "NovelAI [Prompt]"@
    } else if r.keyword == "Comment"@ {
        "NovelAI [Settings]"@
    } else if r.keyword == "parameters"@ {
        "Stable Diffusion (A1111)"@
    } else if r.keyword == "generation_data"@ {
        "ComfyUI [Generation Data]"@
    } else {
        r.keyword
    }
}

/// Whether a record's value is tried as JSON before falling back to verbatim
/// text.
pub open spec fn uses_json_policy(r: RecordV) -> bool {
    r.source == Source::PngText && (r.keyword == "Comment"@ || r.keyword == "generation_data"@)
}

/// The rendered value of a record: pretty-printed JSON where the policy asks
/// for it and the value parses, the verbatim value otherwise.
pub open spec fn value_spec(r: RecordV) -> Seq<char> {
    if uses_json_policy(r) {
        match pretty_json_of(r.value) {
            Some(p) => p,
            None => r.value,
        }
    } else {
        r.value
    }
}

/// One rendered section: a labeled header line and the value line.
pub open spec fn section_spec(r: RecordV) -> Seq<char> {
    "--- "@ + label_spec(r) + " ---\n"@ + value_spec(r) + "\n"@
}

/// All sections of a record list, in discovery order.
pub open spec fn sections_spec(rs: Seq<RecordV>) -> Seq<char>
    decreases rs.len(),
{
    if rs.len() == 0 {
        Seq::empty()
    } else {
        section_spec(rs[0]) + sections_spec(rs.drop_first())
    }
}

/// Appending a record appends its section.
pub proof fn lemma_sections_push(rs: Seq<RecordV>, r: RecordV)
    ensures
        sections_spec(rs.push(r)) == sections_spec(rs) + section_spec(r),
    decreases rs.len(),
{
    if rs.len() == 0 {
        assert(rs.push(r).drop_first() =~= rs);
        assert(sections_spec(rs.push(r)) =~= sections_spec(rs) + section_spec(r));
    } else {
        assert(rs.push(r).drop_first() =~= rs.drop_first().push(r));
        lemma_sections_push(rs.drop_first(), r);
        assert(sections_spec(rs.push(r)) =~= sections_spec(rs) + section_spec(r));
    }
}

/// Renders one record as its labeled section.
pub fn render_section(r: &TextRecord) -> (out: String)
    ensures
        out@ == section_spec(r@),
{
    let mut out = String::new();
    out.append("--- ");
    match r.source {
        Source::ExifUserComment => {
            out.append("EXIF UserComment");
        },
        Source::PngText => {
            if str_eq(r.keyword.as_str(), "Description") {
                out.append("NovelAI [Prompt]");
            } else if str_eq(r.keyword.as_str(), "Comment") {
                out.append("NovelAI [Settings]");
            } else if str_eq(r.keyword.as_str(), "parameters") {
                out.append("Stable Diffusion (A1111)");
            } else if str_eq(r.keyword.as_str(), "generation_data") {
                out.append("ComfyUI [Generation Data]");
            } else {
                out.append(r.keyword.as_str());
            }
        },
    }
    out.append(" ---\n");
    let json_policy = match r.source {
        Source::PngText => str_eq(r.keyword.as_str(), "Comment") || str_eq(
            r.keyword.as_str(),
            "generation_data",
        ),
        Source::ExifUserComment => false,
    };
    if json_policy {
        match pretty_print_json(r.value.as_str()) {
            Some(p) => {
                out.append(p.as_str());
            },
            None => {
                out.append(r.value.as_str());
            },
        }
    } else {
        out.append(r.value.as_str());
    }
    out.append("\n");
    out
}

/// The display name of a recognized format.
pub open spec fn format_name_spec(f: crate::Format) -> Seq<char> {
    match f {
        crate::Format::Png => "PNG"@,
        crate::Format::Webp => "WebP"@,
        crate::Format::Jpeg => "JPEG"@,
        crate::Format::Avif => "AVIF"@,
        crate::Format::Unknown => ""@,
    }
}

/// The top header line preceding all sections of a file.
pub open spec fn header_spec(f: crate::Format, path: Seq<char>) -> Seq<char> {
    "=== "@ + format_name_spec(f) + " File: "@ + path + " ===\n"@
}

/// The whole rendered output for a recognized buffer: the top header, then
/// every record's section in discovery order.
pub open spec fn report_spec(b: Seq<u8>, path: Seq<char>) -> Seq<char> {
    header_spec(crate::format_spec(b), path) + sections_spec(crate::extract_spec(b))
}

/// Renders the whole report for a buffer: `None` exactly for an unrecognized
/// format, which yields no sections.
pub fn render_report(data: &[u8], path: &str) -> (r: Option<String>)
    ensures
        r is Some <==> crate::format_spec(data@) != crate::Format::Unknown,
        r matches Some(s) ==> s@ == report_spec(data@, path@),
{
    let format = crate::detect_format(data);
    let mut out = String::new();
    out.append("=== ");
    match format {
        crate::Format::Png => out.append("PNG"),
        crate::Format::Webp => out.append("WebP"),
        crate::Format::Jpeg => out.append("JPEG"),
        crate::Format::Avif => out.append("AVIF"),
        crate::Format::Unknown => {
            return None;
        },
    }
    out.append(" File: ");
    out.append(path);
    out.append(" ===\n");
    let records = crate::extract_records(data);
    let ghost rv = crate::record::records_view(records@);
    let n = records.len();
    let mut i: usize = 0;
    while i < n
        invariant
            n == records@.len(),
            0 <= i <= n,
            rv == crate::record::records_view(records@),
            rv == crate::extract_spec(data@),
            out@ == header_spec(crate::format_spec(data@), path@) + sections_spec(
                rv.take(i as int),
            ),
        decreases n - i,
    {
        let section = render_section(&records[i]);
        out.append(section.as_str());
        proof {
            assert(rv.take(i + 1) =~= rv.take(i as int).push(rv[i as int]));
            lemma_sections_push(rv.take(i as int), rv[i as int]);
        }
        i += 1;
    }
    proof {
        assert(rv.take(n as int) =~= rv);
    }
    Some(out)
}

} // verus!
