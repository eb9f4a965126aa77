use pf2_loader::error::FormatError;
use pf2_loader::font_loader::load;

fn section(tag: &[u8; 4], body: &[u8]) -> Vec<u8> {
    let mut out = Vec::new();
    out.extend_from_slice(tag);
    out.extend_from_slice(&(body.len() as u32).to_be_bytes());
    out.extend_from_slice(body);
    out
}

fn last_section(tag: &[u8; 4], body: &[u8]) -> Vec<u8> {
    let mut out = Vec::new();
    out.extend_from_slice(tag);
    out.extend_from_slice(&0xFFFF_FFFFu32.to_be_bytes());
    out.extend_from_slice(body);
    out
}

fn glyph_def(width: u16, height: u16, bits: &[u8]) -> Vec<u8> {
    let mut out = Vec::new();
    out.extend_from_slice(&width.to_be_bytes());
    out.extend_from_slice(&height.to_be_bytes());
    out.extend_from_slice(&[0, 0, 0, 0, 0, 1]);
    out.extend_from_slice(bits);
    out
}

fn record(code_point: u32, flags: u8, offset: u32) -> Vec<u8> {
    let mut out = Vec::new();
    out.extend_from_slice(&code_point.to_be_bytes());
    out.push(flags);
    out.extend_from_slice(&offset.to_be_bytes());
    out
}

/// The signature and the three metrics.
fn head(point_size: u16, max_width: u16, max_height: u16) -> Vec<u8> {
    let mut out = section(b"FILE", b"PFF2");
    out.extend(section(b"PTSZ", &point_size.to_be_bytes()));
    out.extend(section(b"MAXW", &max_width.to_be_bytes()));
    out.extend(section(b"MAXH", &max_height.to_be_bytes()));
    out
}

/// A file with the given metrics whose index names the definitions `defs`
/// under the code points 0, 1, 2 and so on.
fn font(point_size: u16, max_width: u16, max_height: u16, defs: &[Vec<u8>]) -> Vec<u8> {
    let mut out = head(point_size, max_width, max_height);
    let mut at = out.len() + 8 + 9 * defs.len() + 8;
    let mut index = Vec::new();
    for (i, def) in defs.iter().enumerate() {
        index.extend(record(i as u32, 0, at as u32));
        at += def.len();
    }
    out.extend(section(b"CHIX", &index));
    out.extend(last_section(b"DATA", &defs.concat()));
    out
}

fn err(data: &[u8]) -> FormatError {
    match load(data) {
        Ok(_) => panic!("the load succeeded"),
        Err(e) => e,
    }
}

#[test]
fn empty_buffer_is_truncated() {
    assert_eq!(err(&[]), FormatError::TruncatedInput);
}

#[test]
fn header_cut_short_is_truncated() {
    assert_eq!(err(b"FILE\0\0\0"), FormatError::TruncatedInput);
    let whole = section(b"FILE", b"PFF2");
    assert_eq!(err(&whole), FormatError::TruncatedInput);
    let mut partial = whole.clone();
    partial.extend_from_slice(b"PTSZ\0\0");
    assert_eq!(err(&partial), FormatError::TruncatedInput);
}

#[test]
fn body_longer_than_the_buffer_is_truncated() {
    let mut data = Vec::new();
    data.extend_from_slice(b"FILE");
    data.extend_from_slice(&5u32.to_be_bytes());
    data.extend_from_slice(b"PFF2");
    assert_eq!(err(&data), FormatError::TruncatedInput);
    // The length is checked before the tag is looked at.
    let mut other = Vec::new();
    other.extend_from_slice(b"XXXX");
    other.extend_from_slice(&0xFFFF_FFFEu32.to_be_bytes());
    assert_eq!(err(&other), FormatError::TruncatedInput);
}

#[test]
fn file_without_a_last_section_is_truncated() {
    let data = head(16, 8, 8);
    assert_eq!(err(&data), FormatError::TruncatedInput);
}

#[test]
fn wrong_first_tag_is_bad_signature() {
    let mut data = section(b"XXXX", b"PFF2");
    data.extend(last_section(b"DATA", &[]));
    assert_eq!(err(&data), FormatError::BadSignature { found: "XXXX".to_string() });
    let mut lower = section(b"file", b"PFF2");
    lower.extend(last_section(b"DATA", &[]));
    assert_eq!(err(&lower), FormatError::BadSignature { found: "file".to_string() });
}

#[test]
fn first_tag_that_is_no_text_is_an_encoding_error() {
    let data = section(&[0xFF, 0xFE, 0x00, 0x01], b"PFF2");
    assert_eq!(err(&data), FormatError::EncodingError);
}

#[test]
fn first_tag_in_two_byte_characters_is_shown_as_text() {
    // U+00E9 twice: four bytes, two characters.
    let data = section(&[0xC3, 0xA9, 0xC3, 0xA9], b"PFF2");
    assert_eq!(err(&data), FormatError::BadSignature { found: "\u{e9}\u{e9}".to_string() });
}

#[test]
fn wrong_signature_body_is_bad_magic() {
    assert_eq!(err(&section(b"FILE", b"PFF3")), FormatError::BadMagic { found: "PFF3".to_string() });
    assert_eq!(err(&section(b"FILE", b"PFF")), FormatError::BadMagic { found: "PFF".to_string() });
    assert_eq!(err(&section(b"FILE", b"")), FormatError::BadMagic { found: String::new() });
    assert_eq!(
        err(&section(b"FILE", b"PFF2 and more")),
        FormatError::BadMagic { found: "PFF2 and more".to_string() }
    );
    assert_eq!(
        err(&last_section(b"FILE", b"PFF2!")),
        FormatError::BadMagic { found: "PFF2!".to_string() }
    );
}

#[test]
fn signature_body_that_is_no_text_is_an_encoding_error() {
    assert_eq!(err(&section(b"FILE", &[0x50, 0x46, 0x46, 0xFF])), FormatError::EncodingError);
}

#[test]
fn scan_must_end_on_the_data_section() {
    let mut data = head(16, 8, 8);
    data.extend(last_section(b"JUNK", &[1, 2, 3]));
    assert_eq!(err(&data), FormatError::UnexpectedSection { found: "JUNK".to_string() });
    let mut index_last = head(16, 8, 8);
    index_last.extend(last_section(b"CHIX", &record(65, 0, 0)));
    assert_eq!(err(&index_last), FormatError::UnexpectedSection { found: "CHIX".to_string() });
}

#[test]
fn last_tag_that_is_no_text_is_an_encoding_error() {
    let mut data = head(16, 8, 8);
    data.extend(last_section(&[0x80, 0x80, 0x80, 0x80], &[]));
    assert_eq!(err(&data), FormatError::EncodingError);
}

#[test]
fn signature_alone_with_the_end_mark_is_truncated() {
    // The first section runs to the end of the file, so no header follows.
    assert_eq!(err(&last_section(b"FILE", b"PFF2")), FormatError::TruncatedInput);
}

#[test]
fn metric_section_shorter_than_two_bytes_is_truncated() {
    for tag in [b"PTSZ", b"MAXW", b"MAXH", b"ASCE", b"DESC"] {
        let mut data = section(b"FILE", b"PFF2");
        data.extend(section(tag, &[7]));
        data.extend(last_section(b"DATA", &[0; 64]));
        assert_eq!(err(&data), FormatError::TruncatedInput);
        let mut empty = section(b"FILE", b"PFF2");
        empty.extend(section(tag, &[]));
        empty.extend(last_section(b"DATA", &[0; 64]));
        assert_eq!(err(&empty), FormatError::TruncatedInput);
    }
}

#[test]
fn index_of_ten_bytes_is_a_record_size_mismatch() {
    let mut data = head(16, 8, 8);
    data.extend(section(b"CHIX", &[0; 10]));
    data.extend(last_section(b"DATA", &[0; 64]));
    assert_eq!(err(&data), FormatError::RecordSizeMismatch { length: 10 });
    let mut short = head(16, 8, 8);
    short.extend(section(b"CHIX", &[0; 8]));
    short.extend(last_section(b"DATA", &[0; 64]));
    assert_eq!(err(&short), FormatError::RecordSizeMismatch { length: 8 });
}

#[test]
fn second_index_section_is_a_duplicate() {
    let mut data = head(16, 8, 8);
    data.extend(section(b"CHIX", &record(65, 0, 0)));
    data.extend(section(b"CHIX", &record(66, 0, 0)));
    data.extend(last_section(b"DATA", &[0; 64]));
    assert_eq!(err(&data), FormatError::DuplicateSection);
    // A filled index is looked at before the length of the new section.
    let mut odd = head(16, 8, 8);
    odd.extend(section(b"CHIX", &record(65, 0, 0)));
    odd.extend(section(b"CHIX", &[0; 10]));
    odd.extend(last_section(b"DATA", &[0; 64]));
    assert_eq!(err(&odd), FormatError::DuplicateSection);
    let mut empty_second = head(16, 8, 8);
    empty_second.extend(section(b"CHIX", &record(65, 0, 0)));
    empty_second.extend(section(b"CHIX", &[]));
    empty_second.extend(last_section(b"DATA", &[0; 64]));
    assert_eq!(err(&empty_second), FormatError::DuplicateSection);
}

#[test]
fn reserved_flag_bits_are_invalid() {
    for flags in [1u8, 2, 4, 7, 0x81, 0xFF] {
        let mut index = record(65, 0, 0);
        index.extend(record(0x263A, flags, 0));
        index.extend(record(67, 7, 0));
        let mut data = head(16, 8, 8);
        data.extend(section(b"CHIX", &index));
        data.extend(last_section(b"DATA", &[0; 64]));
        assert_eq!(err(&data), FormatError::InvalidFlags { code_point: 0x263A, flags });
    }
}

#[test]
fn no_index_is_an_empty_index() {
    let mut data = head(16, 8, 8);
    data.extend(last_section(b"DATA", &[0; 64]));
    assert_eq!(err(&data), FormatError::EmptyIndex);
    let mut with_empty = head(16, 8, 8);
    with_empty.extend(section(b"CHIX", &[]));
    with_empty.extend(last_section(b"DATA", &[0; 64]));
    assert_eq!(err(&with_empty), FormatError::EmptyIndex);
    // The index is looked at before the metrics.
    let mut nothing = section(b"FILE", b"PFF2");
    nothing.extend(last_section(b"DATA", &[]));
    assert_eq!(err(&nothing), FormatError::EmptyIndex);
}

#[test]
fn zero_or_absent_metrics_are_missing() {
    let def = glyph_def(1, 1, &[0x80]);
    assert_eq!(err(&font(16, 0, 8, &[def.clone()])), FormatError::MissingMetrics);
    assert_eq!(err(&font(16, 8, 0, &[def.clone()])), FormatError::MissingMetrics);
    assert_eq!(err(&font(0, 8, 8, &[def.clone()])), FormatError::MissingMetrics);
    let mut absent = section(b"FILE", b"PFF2");
    absent.extend(section(b"PTSZ", &16u16.to_be_bytes()));
    absent.extend(section(b"MAXH", &8u16.to_be_bytes()));
    let offset = (absent.len() + 8 + 9 + 8) as u32;
    absent.extend(section(b"CHIX", &record(65, 0, offset)));
    absent.extend(last_section(b"DATA", &def));
    assert_eq!(err(&absent), FormatError::MissingMetrics);
}

#[test]
fn glyph_header_past_the_end_is_truncated() {
    let mut data = head(16, 8, 8);
    let offset = (data.len() + 8 + 9 + 8) as u32;
    data.extend(section(b"CHIX", &record(65, 0, offset)));
    data.extend(last_section(b"DATA", &[0, 1, 0, 1, 0, 0, 0, 0, 0]));
    assert_eq!(err(&data), FormatError::TruncatedInput);
    let mut far = head(16, 8, 8);
    far.extend(section(b"CHIX", &record(65, 0, 0xFFFF_FFFF)));
    far.extend(last_section(b"DATA", &[0; 64]));
    assert_eq!(err(&far), FormatError::TruncatedInput);
}

#[test]
fn bitmap_past_the_end_is_truncated() {
    // 8 by 8 pixels need eight bytes of bitmap; the file holds seven.
    let data = font(16, 8, 8, &[glyph_def(8, 8, &[0; 7])]);
    assert_eq!(err(&data), FormatError::TruncatedInput);
    // Nine pixels need two bytes; the file holds one.
    let odd = font(16, 8, 8, &[glyph_def(3, 3, &[0xFF])]);
    assert_eq!(err(&odd), FormatError::TruncatedInput);
    assert!(load(&font(16, 8, 8, &[glyph_def(3, 3, &[0xFF, 0x80])])).is_ok());
}

#[test]
fn glyph_larger_than_a_cell_is_too_large() {
    assert_eq!(err(&font(16, 8, 8, &[glyph_def(9, 8, &[0; 9])])), FormatError::GlyphTooLarge);
    assert_eq!(err(&font(16, 8, 8, &[glyph_def(8, 9, &[0; 9])])), FormatError::GlyphTooLarge);
    let fine = glyph_def(8, 8, &[0; 8]);
    let wide = glyph_def(16, 1, &[0; 2]);
    assert_eq!(err(&font(16, 8, 8, &[fine.clone(), wide, fine])), FormatError::GlyphTooLarge);
}

#[test]
fn truncation_is_reported_before_size() {
    let wide = glyph_def(9, 8, &[0; 9]);
    let cut = glyph_def(8, 8, &[0; 3]);
    // The definitions lie back to back, so the one that is cut short comes last.
    for _ in 0..20 {
        assert_eq!(err(&font(16, 8, 8, &[wide.clone(), cut.clone()])), FormatError::TruncatedInput);
    }
    let mut data = head(16, 8, 8);
    let first = data.len() + 8 + 18 + 8;
    let mut index = record(1, 0, 0xFFFF_0000);
    index.extend(record(2, 0, first as u32));
    data.extend(section(b"CHIX", &index));
    data.extend(last_section(b"DATA", &wide));
    for _ in 0..20 {
        assert_eq!(err(&data), FormatError::TruncatedInput);
    }
}
