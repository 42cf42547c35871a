//! The extracted metadata record and its mathematical view.

use vstd::prelude::*;

verus! {

/// Where a record came from: a PNG `tEXt` chunk, or an EXIF `UserComment`
/// payload (WebP, JPEG and AVIF containers).
#[derive(Clone, Copy, Debug, PartialEq, Eq, Structural)]
pub enum Source {
    PngText,
    ExifUserComment,
}

/// One extracted `(keyword, value)` text record. Records synthesized from an
/// EXIF `UserComment` carry an empty keyword; the renderer gives them a fixed
/// label instead.
#[derive(Debug)]
pub struct TextRecord {
    pub source: Source,
    pub keyword: String,
    pub value: String,
}

/// Mathematical view of a `TextRecord`.
pub ghost struct RecordV {
    pub source: Source,
    pub keyword: Seq<char>,
    pub value: Seq<char>,
}

impl View for TextRecord {
    type V = RecordV;

    open spec fn view(&self) -> RecordV {
        RecordV { source: self.source, keyword: self.keyword@, value: self.value@ }
    }
}

/// The view of a whole record list.
pub open spec fn records_view(rs: Seq<TextRecord>) -> Seq<RecordV> {
    rs.map_values(|r: TextRecord| r@)
}

} // verus!
