use imgmeta::detect_format;
use imgmeta::extract_records;
use imgmeta::record::Source;
use imgmeta::render::render_report;
use imgmeta::webp::find_webp_exif;
use imgmeta::Format;

fn png_signature() -> Vec<u8> {
    vec![137, 80, 78, 71, 13, 10, 26, 10]
}

fn png_chunk(tag: &[u8; 4], data: &[u8]) -> Vec<u8> {
    let mut out = Vec::new();
    out.extend_from_slice(&(data.len() as u32).to_be_bytes());
    out.extend_from_slice(tag);
    out.extend_from_slice(data);
    out.extend_from_slice(&[0u8; 4]); // CRC, ignored by the walker
    out
}

fn webp_header() -> Vec<u8> {
    let mut out = Vec::new();
    out.extend_from_slice(b"RIFF");
    out.extend_from_slice(&[0u8; 4]); // RIFF size, ignored by the walker
    out.extend_from_slice(b"WEBP");
    out
}

fn riff_chunk(tag: &[u8; 4], data: &[u8]) -> Vec<u8> {
    let mut out = Vec::new();
    out.extend_from_slice(tag);
    out.extend_from_slice(&(data.len() as u32).to_le_bytes());
    out.extend_from_slice(data);
    if data.len() % 2 == 1 {
        out.push(0); // RIFF pad byte
    }
    out
}

#[test]
fn detects_png() {
    let mut data = png_signature();
    data.extend_from_slice(&[0u8; 16]);
    assert_eq!(detect_format(&data), Format::Png);
}

#[test]
fn detects_webp() {
    assert_eq!(detect_format(&webp_header()), Format::Webp);
}

#[test]
fn detects_jpeg() {
    assert_eq!(detect_format(&[0xff, 0xd8, 0xff, 0xe1]), Format::Jpeg);
}

#[test]
fn detects_avif_and_avis() {
    let mut data = vec![0, 0, 0, 24];
    data.extend_from_slice(b"ftypavif");
    assert_eq!(detect_format(&data), Format::Avif);
    let mut data = vec![0, 0, 0, 24];
    data.extend_from_slice(b"ftypavis");
    assert_eq!(detect_format(&data), Format::Avif);
}

#[test]
fn unknown_header_no_output() {
    let data = [0u8, 0, 0, 0];
    assert_eq!(detect_format(&data), Format::Unknown);
    assert!(extract_records(&data).is_empty());
    assert!(render_report(&data, "zero.bin").is_none());
}

#[test]
fn short_buffers_are_unknown() {
    assert_eq!(detect_format(&[]), Format::Unknown);
    assert_eq!(detect_format(&[0x89, 0x50]), Format::Unknown);
}

#[test]
fn png_parameters_record() {
    let mut data = png_signature();
    data.extend_from_slice(&png_chunk(b"tEXt", b"parameters\0steps: 20"));
    let records = extract_records(&data);
    assert_eq!(records.len(), 1);
    assert_eq!(records[0].source, Source::PngText);
    assert_eq!(records[0].keyword, "parameters");
    assert_eq!(records[0].value, "steps: 20");
    let report = render_report(&data, "a.png").unwrap();
    assert_eq!(
        report,
        "=== PNG File: a.png ===\n--- Stable Diffusion (A1111) ---\nsteps: 20\n"
    );
}

#[test]
fn png_unknown_keyword_still_recorded() {
    let mut data = png_signature();
    data.extend_from_slice(&png_chunk(b"tEXt", b"prompt\0{\"x\":2}"));
    data.extend_from_slice(&png_chunk(b"tEXt", b"oddkey\0hello"));
    let records = extract_records(&data);
    assert_eq!(records.len(), 2);
    assert_eq!(records[0].keyword, "prompt");
    assert_eq!(records[1].keyword, "oddkey");
    assert_eq!(records[1].value, "hello");
}

#[test]
fn png_records_in_discovery_order() {
    let mut data = png_signature();
    data.extend_from_slice(&png_chunk(b"IHDR", &[0u8; 13]));
    data.extend_from_slice(&png_chunk(b"tEXt", b"parameters\0one"));
    data.extend_from_slice(&png_chunk(b"iDOT", &[1, 2, 3]));
    data.extend_from_slice(&png_chunk(b"tEXt", b"Description\0two"));
    let records = extract_records(&data);
    assert_eq!(records.len(), 2);
    assert_eq!(records[0].value, "one");
    assert_eq!(records[1].keyword, "Description");
}

#[test]
fn png_chunk_without_nul_skipped() {
    let mut data = png_signature();
    data.extend_from_slice(&png_chunk(b"tEXt", b"no separator here"));
    assert!(extract_records(&data).is_empty());
}

#[test]
fn png_invalid_utf8_keyword_skipped() {
    let mut data = png_signature();
    data.extend_from_slice(&png_chunk(b"tEXt", &[0xff, 0xfe, 0x00, 0x41]));
    assert!(extract_records(&data).is_empty());
}

#[test]
fn png_invalid_utf8_value_yields_empty_string() {
    let mut data = png_signature();
    let mut payload = b"parameters\0".to_vec();
    payload.extend_from_slice(&[0xc3, 0x28]); // not valid UTF-8
    data.extend_from_slice(&png_chunk(b"tEXt", &payload));
    let records = extract_records(&data);
    assert_eq!(records.len(), 1);
    assert_eq!(records[0].value, "");
}

#[test]
fn png_overrun_chunk_skipped() {
    let mut data = png_signature();
    // declared length far beyond the buffer's end: the walk stops, no record
    data.extend_from_slice(&(1000u32).to_be_bytes());
    data.extend_from_slice(b"tEXt");
    data.extend_from_slice(b"parameters\0steps: 20");
    let records = extract_records(&data);
    assert!(records.is_empty());
}

#[test]
fn png_truncated_walk_keeps_earlier_records() {
    let mut data = png_signature();
    data.extend_from_slice(&png_chunk(b"tEXt", b"workflow\0w"));
    data.extend_from_slice(&(50u32).to_be_bytes());
    data.extend_from_slice(b"tEXt");
    data.extend_from_slice(b"short");
    let records = extract_records(&data);
    assert_eq!(records.len(), 1);
    assert_eq!(records[0].keyword, "workflow");
}

#[test]
fn webp_odd_chunk_padding() {
    // An odd 3-byte chunk is padded: the next header is read one byte past
    // its data end, so the EXIF marker chunk behind it is found.
    let mut data = webp_header();
    data.extend_from_slice(&riff_chunk(b"XYZA", &[9, 9, 9]));
    let exif_payload = b"Exif\0\0payload".to_vec();
    data.extend_from_slice(&riff_chunk(b"EXIF", &exif_payload));
    let span = find_webp_exif(&data).expect("EXIF chunk must be found past the pad byte");
    // header (12) + odd chunk (8 + 3 + 1 pad) + EXIF chunk header (8)
    assert_eq!(span, (32, exif_payload.len()));
    assert_eq!(&data[span.0..span.0 + 4], b"Exif");

    // Without the pad byte the walk misreads the next header and finds nothing.
    let mut unpadded = webp_header();
    unpadded.extend_from_slice(b"XYZA");
    unpadded.extend_from_slice(&3u32.to_le_bytes());
    unpadded.extend_from_slice(&[9, 9, 9]);
    unpadded.extend_from_slice(&riff_chunk(b"EXIF", &exif_payload));
    assert!(find_webp_exif(&unpadded).is_none());
}

#[test]
fn webp_odd_exif_chunk_span() {
    let mut data = webp_header();
    data.extend_from_slice(&riff_chunk(b"EXIF", &[1, 2, 3]));
    data.extend_from_slice(&riff_chunk(b"MARK", &[7, 7]));
    let span = find_webp_exif(&data).unwrap();
    assert_eq!(span, (20, 3));
    // the next chunk header starts one byte past the odd data end
    assert_eq!(&data[span.0 + span.1 + 1..span.0 + span.1 + 5], b"MARK");
}

#[test]
fn webp_overrun_chunk_stops() {
    let mut data = webp_header();
    data.extend_from_slice(b"EXIF");
    data.extend_from_slice(&100u32.to_le_bytes());
    data.extend_from_slice(&[0u8; 10]); // far fewer than 100 bytes
    assert!(find_webp_exif(&data).is_none());
    assert!(extract_records(&data).is_empty());
}

fn exif_window_with_comment(payload: &[u8], gap: usize) -> Vec<u8> {
    // An EXIF body: marker, then a raw IFD entry for tag 0x9286, then the
    // payload at a chosen offset past the TIFF base.
    let mut body = Vec::new();
    body.extend_from_slice(b"Exif\0\0");
    let base = body.len(); // marker position 0 + 6
    body.extend_from_slice(&[0x92, 0x86, 0x00, 0x07]);
    body.extend_from_slice(&(payload.len() as u32).to_be_bytes());
    let offset = (body.len() - base + 4 + gap) as u32;
    body.extend_from_slice(&offset.to_be_bytes());
    body.extend_from_slice(&vec![0u8; gap]);
    body.extend_from_slice(payload);
    body
}

#[test]
fn jpeg_user_comment_extracted() {
    let mut data = vec![0xff, 0xd8, 0xff, 0xe1];
    data.append(&mut exif_window_with_comment(b"ASCII\0\0\0a nice caption\0\0", 0));
    let records = extract_records(&data);
    assert_eq!(records.len(), 1);
    assert_eq!(records[0].source, Source::ExifUserComment);
    assert_eq!(records[0].value, "a nice caption");
    let report = render_report(&data, "p.jpg").unwrap();
    assert_eq!(
        report,
        "=== JPEG File: p.jpg ===\n--- EXIF UserComment ---\na nice caption\n"
    );
}

#[test]
fn avif_user_comment_extracted() {
    let mut data = vec![0, 0, 0, 24];
    data.extend_from_slice(b"ftypavif");
    data.append(&mut exif_window_with_comment(b"ASCII\0\0\0hi", 3));
    let records = extract_records(&data);
    assert_eq!(records.len(), 1);
    assert_eq!(records[0].value, "hi");
}

#[test]
fn webp_exif_chunk_user_comment() {
    let mut data = webp_header();
    let body = exif_window_with_comment(b"ASCII\0\0\0from webp", 0);
    data.extend_from_slice(&riff_chunk(b"EXIF", &body));
    let records = extract_records(&data);
    assert_eq!(records.len(), 1);
    assert_eq!(records[0].source, Source::ExifUserComment);
    assert_eq!(records[0].value, "from webp");
}

#[test]
fn jpeg_payload_beyond_scan_window_found() {
    // marker and tag sit near the header; the payload lies past the 64 KiB
    // scan window but still inside the buffer
    let mut data = vec![0xff, 0xd8, 0xff, 0xe1];
    data.extend_from_slice(b"Exif\0\0");
    let base = 4 + 6;
    let payload_pos = 80_000usize;
    data.extend_from_slice(&[0x92, 0x86, 0x00, 0x07]);
    data.extend_from_slice(&16u32.to_be_bytes()); // count
    data.extend_from_slice(&((payload_pos - base) as u32).to_be_bytes());
    data.resize(payload_pos, 1);
    data.extend_from_slice(b"ASCII\0\0\0far away");
    let records = extract_records(&data);
    assert_eq!(records.len(), 1);
    assert_eq!(records[0].value, "far away");
}

#[test]
fn jpeg_tag_beyond_scan_window_ignored() {
    // the tag itself sits past the 64 KiB scan window: nothing is found
    let mut data = vec![0xff, 0xd8, 0xff, 0xe1];
    data.extend_from_slice(b"Exif\0\0");
    data.resize(70_000, 1);
    data.extend_from_slice(&[0x92, 0x86, 0x00, 0x07]);
    data.extend_from_slice(&14u32.to_be_bytes());
    data.extend_from_slice(&0u32.to_be_bytes());
    data.extend_from_slice(b"ASCII\0\0\0too far");
    assert!(extract_records(&data).is_empty());
}

#[test]
fn exif_overrun_span_skipped() {
    // the tag's value offset points far past the window's end
    let mut data = vec![0xff, 0xd8, 0xff, 0xe1];
    data.extend_from_slice(b"Exif\0\0");
    data.extend_from_slice(&[0x92, 0x86, 0x00, 0x07]);
    data.extend_from_slice(&20u32.to_be_bytes()); // count
    data.extend_from_slice(&10_000u32.to_be_bytes()); // offset
    assert!(extract_records(&data).is_empty());
}

#[test]
fn exif_short_count_skipped() {
    // a count below 8 cannot carry a charset identifier
    let mut data = vec![0xff, 0xd8, 0xff, 0xe1];
    data.append(&mut exif_window_with_comment(b"ASCII\0\0", 0));
    assert!(extract_records(&data).is_empty());
}

#[test]
fn exif_without_marker_skipped() {
    let mut data = vec![0xff, 0xd8, 0xff, 0xe1];
    data.extend_from_slice(&[0x92, 0x86, 0, 7, 0, 0, 0, 20, 0, 0, 0, 0]);
    data.extend_from_slice(b"ASCII\0\0\0hello padding");
    assert!(extract_records(&data).is_empty());
}
