use ahash::AHashMap;
use pf2_loader::atlas::AtlasImage;
use pf2_loader::bench::run_test_font_loader;
use pf2_loader::error::FormatError;
use pf2_loader::font_loader::{load, PF2Loader};
use pf2_loader::format::{
    TAG_ASCE, TAG_CHIX, TAG_DATA, TAG_DESC, TAG_FAMI, TAG_FILE, TAG_MAXH, TAG_MAXW, TAG_NAME,
    TAG_PTSZ, TAG_SLAN, TAG_WEIG,
};
use pf2_loader::glyph::{FontGlyph, Ratio, Ratio2};
use rgb::RGBA8;

const WHITE: RGBA8 = RGBA8 { r: 255, g: 255, b: 255, a: 255 };
const CLEAR: RGBA8 = RGBA8 { r: 0, g: 0, b: 0, a: 0 };

fn section(tag: &[u8; 4], body: &[u8]) -> Vec<u8> {
    let mut out = Vec::new();
    out.extend_from_slice(tag);
    out.extend_from_slice(&(body.len() as u32).to_be_bytes());
    out.extend_from_slice(body);
    out
}

fn last_section(tag: &[u8; 4], body: &[u8]) -> Vec<u8> {
    let mut out = Vec::new();
    out.extend_from_slice(tag);
    out.extend_from_slice(&0xFFFF_FFFFu32.to_be_bytes());
    out.extend_from_slice(body);
    out
}

fn glyph_def(width: u16, height: u16, x: i16, y: i16, advance: i16, bits: &[u8]) -> Vec<u8> {
    let mut out = Vec::new();
    out.extend_from_slice(&width.to_be_bytes());
    out.extend_from_slice(&height.to_be_bytes());
    out.extend_from_slice(&x.to_be_bytes());
    out.extend_from_slice(&y.to_be_bytes());
    out.extend_from_slice(&advance.to_be_bytes());
    out.extend_from_slice(bits);
    out
}

fn record(code_point: u32, flags: u8, offset: u32) -> Vec<u8> {
    let mut out = Vec::new();
    out.extend_from_slice(&code_point.to_be_bytes());
    out.push(flags);
    out.extend_from_slice(&offset.to_be_bytes());
    out
}

fn metrics(point_size: u16, max_width: u16, max_height: u16) -> Vec<u8> {
    let mut out = section(b"PTSZ", &point_size.to_be_bytes());
    out.extend(section(b"MAXW", &max_width.to_be_bytes()));
    out.extend(section(b"MAXH", &max_height.to_be_bytes()));
    out
}

/// A whole file: the signature, the three metrics, an index with one record
/// per entry of `records`, and the glyph definitions `defs`. A record names
/// its definition by its place in `defs`.
fn font_with_records(
    point_size: u16,
    max_width: u16,
    max_height: u16,
    records: &[(u32, usize)],
    defs: &[Vec<u8>],
) -> Vec<u8> {
    let mut out = section(b"FILE", b"PFF2");
    out.extend(section(b"NAME", b"Test Sans"));
    out.extend(metrics(point_size, max_width, max_height));
    out.extend(section(b"ASCE", &7u16.to_be_bytes()));
    out.extend(section(b"DESC", &2u16.to_be_bytes()));
    let data_start = out.len() + 8 + 9 * records.len() + 8;
    let mut offsets = Vec::new();
    let mut at = data_start;
    for def in defs {
        offsets.push(at as u32);
        at += def.len();
    }
    let mut index = Vec::new();
    for (code_point, def) in records {
        index.extend(record(*code_point, 0, offsets[*def]));
    }
    out.extend(section(b"CHIX", &index));
    out.extend(last_section(b"DATA", &defs.concat()));
    out
}

fn font(point_size: u16, max_width: u16, max_height: u16, glyphs: &[(u32, Vec<u8>)]) -> Vec<u8> {
    let records: Vec<(u32, usize)> = glyphs.iter().enumerate().map(|(i, g)| (g.0, i)).collect();
    let defs: Vec<Vec<u8>> = glyphs.iter().map(|g| g.1.clone()).collect();
    font_with_records(point_size, max_width, max_height, &records, &defs)
}

fn ratio(num: i128, den: u64) -> Ratio {
    Ratio { num, den }
}

fn lit_pixels(atlas: &AtlasImage) -> Vec<(usize, usize)> {
    let mut out = Vec::new();
    for (p, pixel) in atlas.pixels.iter().enumerate() {
        assert!(*pixel == WHITE || *pixel == CLEAR, "pixel {} is neither white nor clear", p);
        if *pixel == WHITE {
            out.push((p % atlas.width, p / atlas.width));
        }
    }
    out
}

fn two_glyph_font() -> Vec<u8> {
    let a = glyph_def(8, 8, 0, 0, 9, &[0xFF, 0, 0, 0, 0, 0, 0, 0x01]);
    let b = glyph_def(8, 8, 1, -2, 10, &[0x80, 0, 0, 0, 0, 0, 0, 0]);
    font(16, 8, 8, &[(65, a), (66, b)])
}

#[test]
fn two_glyphs_fill_a_row_of_two_cells() {
    let (atlas, glyphs) = load(&two_glyph_font()).unwrap();
    assert_eq!((atlas.width, atlas.height), (16, 8));
    assert_eq!(atlas.pixels.len(), 128);
    assert_eq!(glyphs.len(), 2);
    let ga: &FontGlyph = glyphs.get(&65).unwrap();
    let gb: &FontGlyph = glyphs.get(&66).unwrap();
    assert_eq!(ga.tex_coord, Ratio2 { x: ratio(0, 16), y: ratio(0, 8) });
    assert_eq!(gb.tex_coord, Ratio2 { x: ratio(8, 16), y: ratio(0, 8) });
    let mut expected: Vec<(usize, usize)> = (0..8).map(|x| (x, 0)).collect();
    expected.push((8, 0));
    expected.push((7, 7));
    assert_eq!(lit_pixels(&atlas), expected);
}

#[test]
fn glyph_geometry_is_pixels_over_atlas_and_point_size() {
    let (_, glyphs) = load(&two_glyph_font()).unwrap();
    assert_eq!(
        glyphs[&66],
        FontGlyph {
            tex_coord: Ratio2 { x: ratio(8, 16), y: ratio(0, 8) },
            tex_size: Ratio2 { x: ratio(8, 16), y: ratio(8, 8) },
            offset: Ratio2 { x: ratio(1, 16), y: ratio(-2, 16) },
            size: Ratio2 { x: ratio(8, 16), y: ratio(8, 16) },
            width: ratio(10, 16),
        }
    );
}

#[test]
fn negative_metrics_are_read_as_twos_complement() {
    let def = glyph_def(1, 1, -2, -300, -1, &[0x00]);
    let (_, glyphs) = load(&font(12, 4, 4, &[(0x1F600, def)])).unwrap();
    let g = glyphs[&0x1F600];
    assert_eq!(g.offset, Ratio2 { x: ratio(-2, 12), y: ratio(-300, 12) });
    assert_eq!(g.width, ratio(-1, 12));
}

#[test]
fn blank_glyph_leaves_the_atlas_transparent() {
    let def = glyph_def(8, 8, 0, 0, 8, &[0; 8]);
    let (atlas, glyphs) = load(&font(16, 8, 8, &[(32, def)])).unwrap();
    assert_eq!((atlas.width, atlas.height), (8, 8));
    assert_eq!(atlas.pixels, vec![CLEAR; 64]);
    assert_eq!(glyphs.len(), 1);
}

#[test]
fn blank_glyph_among_others_keeps_its_cell_and_the_spare_cell_clear() {
    let full = glyph_def(8, 8, 0, 0, 8, &[0xFF; 8]);
    let blank = glyph_def(8, 8, 0, 0, 8, &[0; 8]);
    let data = font(16, 8, 8, &[(65, full.clone()), (32, blank), (66, full)]);
    let (atlas, _) = load(&data).unwrap();
    assert_eq!((atlas.width, atlas.height), (16, 16));
    for (p, pixel) in atlas.pixels.iter().enumerate() {
        let (x, y) = (p % 16, p / 16);
        let in_first = x < 8 && y < 8;
        let in_third = x < 8 && y >= 8;
        assert_eq!(*pixel, if in_first || in_third { WHITE } else { CLEAR }, "pixel {}", p);
    }
}

#[test]
fn bits_run_on_across_rows_most_significant_first() {
    // 3 by 3 pixels in the pattern 101 / 010 / 101: nine bits in two bytes.
    let def = glyph_def(3, 3, 0, 0, 4, &[0b1010_1010, 0b1000_0000]);
    let (atlas, _) = load(&font(10, 4, 4, &[(88, def)])).unwrap();
    assert_eq!((atlas.width, atlas.height), (4, 4));
    assert_eq!(lit_pixels(&atlas), vec![(0, 0), (2, 0), (1, 1), (0, 2), (2, 2)]);
}

#[test]
fn one_set_bit_lights_one_pixel() {
    for bit in 0..16usize {
        let mut bits = [0u8; 2];
        bits[bit / 8] = 0x80 >> (bit % 8);
        let def = glyph_def(4, 4, 0, 0, 4, &bits);
        let (atlas, _) = load(&font(10, 4, 4, &[(1, def)])).unwrap();
        assert_eq!(lit_pixels(&atlas), vec![(bit % 4, bit / 4)], "bit {}", bit);
    }
}

#[test]
fn small_glyph_sits_in_the_top_left_of_its_cell() {
    let dot = glyph_def(1, 1, 0, 0, 1, &[0x80]);
    let glyphs: Vec<(u32, Vec<u8>)> = (0..5).map(|i| (100 + i, dot.clone())).collect();
    // Five cells 8 wide and 16 high: ceil(sqrt(5 * 16 / 8)) = 4 columns, 2 rows.
    let (atlas, table) = load(&font(16, 8, 16, &glyphs)).unwrap();
    assert_eq!((atlas.width, atlas.height), (32, 32));
    assert_eq!(lit_pixels(&atlas), vec![(0, 0), (8, 0), (16, 0), (24, 0), (0, 16)]);
    assert_eq!(table[&104].tex_coord, Ratio2 { x: ratio(0, 32), y: ratio(16, 32) });
    assert_eq!(table[&103].tex_coord, Ratio2 { x: ratio(24, 32), y: ratio(0, 32) });
    assert_eq!(table[&103].tex_size, Ratio2 { x: ratio(1, 32), y: ratio(1, 32) });
}

#[test]
fn pixel_count_and_keys_match_the_index() {
    let dot = glyph_def(2, 2, 0, 0, 2, &[0xF0]);
    let codes = [7u32, 0x41, 0x3B1, 0x4E2D, 0x10FFFF, 0, 0xFFFF_FFFF];
    let glyphs: Vec<(u32, Vec<u8>)> = codes.iter().map(|c| (*c, dot.clone())).collect();
    let (atlas, table) = load(&font(9, 3, 5, &glyphs)).unwrap();
    assert_eq!(atlas.pixels.len(), atlas.width * atlas.height);
    let mut keys: Vec<u32> = table.keys().copied().collect();
    keys.sort();
    let mut expected = codes.to_vec();
    expected.sort();
    assert_eq!(keys, expected);
}

#[test]
fn atlas_size_ignores_what_the_glyphs_look_like()  {
    let first = font(
        16,
        8,
        8,
        &[(65, glyph_def(8, 8, 0, 0, 9, &[0xFF; 8])), (66, glyph_def(1, 1, 0, 0, 1, &[0]))],
    );
    let second = font(
        40,
        8,
        8,
        &[(1000, glyph_def(0, 0, 5, 5, 5, &[])), (2000, glyph_def(3, 7, -1, -1, 2, &[0x55; 3]))],
    );
    let (a, _) = load(&first).unwrap();
    let (b, _) = load(&second).unwrap();
    assert_eq!((a.width, a.height, a.pixels.len()), (16, 8, 128));
    assert_eq!((b.width, b.height, b.pixels.len()), (16, 8, 128));
}

#[test]
fn loading_twice_gives_the_same_font() {
    let data = two_glyph_font();
    let (atlas1, glyphs1) = load(&data).unwrap();
    let (atlas2, glyphs2) = load(&data).unwrap();
    assert_eq!((atlas1.width, atlas1.height), (atlas2.width, atlas2.height));
    assert_eq!(atlas1.pixels, atlas2.pixels);
    assert_eq!(glyphs1, glyphs2);
    let bad = &data[..data.len() - 1];
    assert_eq!(load(bad).unwrap_err(), load(bad).unwrap_err());
}

#[test]
fn texture_coordinates_are_multiples_of_the_cell_size() {
    let dot = glyph_def(1, 1, 0, 0, 1, &[0x80]);
    let glyphs: Vec<(u32, Vec<u8>)> = (0..23).map(|i| (i, dot.clone())).collect();
    let (atlas, table) = load(&font(16, 6, 10, &glyphs)).unwrap();
    assert_eq!(table.len(), 23);
    for glyph in table.values() {
        assert_eq!(glyph.tex_coord.x.den, atlas.width as u64);
        assert_eq!(glyph.tex_coord.y.den, atlas.height as u64);
        assert_eq!(glyph.tex_coord.x.num % 6, 0);
        assert_eq!(glyph.tex_coord.y.num % 10, 0);
        assert!(glyph.tex_coord.x.num + 6 <= atlas.width as i128);
        assert!(glyph.tex_coord.y.num + 10 <= atlas.height as i128);
    }
}

#[test]
fn loader_method_and_free_function_agree() {
    let data = two_glyph_font();
    let mut loader = PF2Loader::new(&data);
    let (atlas, glyphs) = loader.load().unwrap();
    let (atlas2, glyphs2) = load(&data).unwrap();
    assert_eq!(atlas.pixels, atlas2.pixels);
    assert_eq!(glyphs, glyphs2);
}

#[test]
fn repeated_code_point_keeps_its_cell_and_takes_the_last_offset() {
    let first = glyph_def(2, 2, 0, 0, 2, &[0b1000_0000]);
    let other = glyph_def(2, 2, 0, 0, 2, &[0b0100_0000]);
    let last = glyph_def(2, 2, 0, 0, 3, &[0b0001_0000]);
    let data = font_with_records(8, 2, 2, &[(65, 0), (66, 1), (65, 2)], &[first, other, last]);
    let (atlas, glyphs) = load(&data).unwrap();
    assert_eq!(glyphs.len(), 2);
    assert_eq!((atlas.width, atlas.height), (4, 2));
    // Code point 65 stays in cell 0 and shows the definition named last.
    assert_eq!(glyphs[&65].tex_coord.x, ratio(0, 4));
    assert_eq!(glyphs[&65].width, ratio(3, 8));
    assert_eq!(glyphs[&66].tex_coord.x, ratio(2, 4));
    assert_eq!(lit_pixels(&atlas), vec![(3, 0), (1, 1)]);
}

#[test]
fn unknown_sections_are_skipped() {
    let mut data = section(b"FILE", b"PFF2");
    data.extend(section(b"ZZZZ", &[1, 2, 3, 4, 5]));
    data.extend(metrics(16, 8, 8));
    data.extend(section(b"\0\0\0\0", &[]));
    let def = glyph_def(1, 1, 0, 0, 1, &[0x80]);
    let offset = (data.len() + 8 + 9 + 8) as u32;
    data.extend(section(b"CHIX", &record(65, 0, offset)));
    data.extend(last_section(b"DATA", &def));
    let (atlas, glyphs) = load(&data).unwrap();
    assert_eq!(glyphs.len(), 1);
    assert_eq!(lit_pixels(&atlas), vec![(0, 0)]);
}

#[test]
fn text_sections_are_not_decoded() {
    let mut data = section(b"FILE", b"PFF2");
    data.extend(section(b"NAME", &[0xFF, 0xFE]));
    data.extend(section(b"FAMI", &[0xC0]));
    data.extend(section(b"WEIG", &[0x80]));
    data.extend(section(b"SLAN", &[0xF8, 0x88]));
    data.extend(metrics(16, 8, 8));
    let def = glyph_def(1, 1, 0, 0, 1, &[0x80]);
    let offset = (data.len() + 8 + 9 + 8) as u32;
    data.extend(section(b"CHIX", &record(65, 0, offset)));
    data.extend(last_section(b"DATA", &def));
    assert!(load(&data).is_ok());
}

#[test]
fn later_metric_sections_replace_earlier_ones() {
    let mut data = section(b"FILE", b"PFF2");
    data.extend(metrics(16, 100, 100));
    data.extend(metrics(20, 2, 4));
    // A metric section may be longer than its two bytes.
    data.extend(section(b"MAXW", &[0, 3, 9, 9]));
    let def = glyph_def(1, 1, 0, 0, 1, &[0x80]);
    let offset = (data.len() + 8 + 9 + 8) as u32;
    data.extend(section(b"CHIX", &record(65, 0, offset)));
    data.extend(last_section(b"DATA", &def));
    let (atlas, glyphs) = load(&data).unwrap();
    // One cell 3 wide and 4 high: ceil(sqrt(1 * 4 / 3)) = 2 columns.
    assert_eq!((atlas.width, atlas.height), (6, 4));
    assert_eq!(glyphs[&65].width, ratio(1, 20));
}

#[test]
fn reserved_flag_bits_above_the_low_three_are_free() {
    let def = glyph_def(1, 1, 0, 0, 1, &[0x80]);
    let mut data = section(b"FILE", b"PFF2");
    data.extend(metrics(16, 8, 8));
    let offset = (data.len() + 8 + 9 + 8) as u32;
    data.extend(section(b"CHIX", &record(65, 0xF8, offset)));
    data.extend(last_section(b"DATA", &def));
    assert!(load(&data).is_ok());
}

#[test]
fn empty_index_section_may_be_followed_by_a_real_one() {
    let def = glyph_def(1, 1, 0, 0, 1, &[0x80]);
    let mut data = section(b"FILE", b"PFF2");
    data.extend(metrics(16, 8, 8));
    data.extend(section(b"CHIX", &[]));
    let offset = (data.len() + 8 + 9 + 8) as u32;
    data.extend(section(b"CHIX", &record(65, 0, offset)));
    data.extend(last_section(b"DATA", &def));
    assert_eq!(load(&data).unwrap().1.len(), 1);
}

#[test]
fn benchmark_unit_multiplies_pixels_by_glyphs() {
    assert_eq!(run_test_font_loader(&two_glyph_font()), Ok(256));
    assert_eq!(run_test_font_loader(&[]), Err(FormatError::TruncatedInput));
}

#[test]
fn tags_pack_their_four_letters() {
    assert_eq!(PF2Loader::make_section_type(b"FILE"), TAG_FILE);
    assert_eq!(PF2Loader::make_section_type(b"NAME"), TAG_NAME);
    assert_eq!(PF2Loader::make_section_type(b"FAMI"), TAG_FAMI);
    assert_eq!(PF2Loader::make_section_type(b"WEIG"), TAG_WEIG);
    assert_eq!(PF2Loader::make_section_type(b"SLAN"), TAG_SLAN);
    assert_eq!(PF2Loader::make_section_type(b"PTSZ"), TAG_PTSZ);
    assert_eq!(PF2Loader::make_section_type(b"MAXW"), TAG_MAXW);
    assert_eq!(PF2Loader::make_section_type(b"MAXH"), TAG_MAXH);
    assert_eq!(PF2Loader::make_section_type(b"ASCE"), TAG_ASCE);
    assert_eq!(PF2Loader::make_section_type(b"DESC"), TAG_DESC);
    assert_eq!(PF2Loader::make_section_type(b"CHIX"), TAG_CHIX);
    assert_eq!(PF2Loader::make_section_type(b"DATA"), TAG_DATA);
    assert_eq!(PF2Loader::make_section_type(&[0x01, 0x02, 0x03, 0x04]), 0x0102_0304);
    assert_eq!(PF2Loader::make_section_type(&[0xFF, 0xFF, 0xFF, 0xFF]), u32::MAX);
}

#[test]
fn glyph_table_is_an_ahash_map() {
    let (_, glyphs): (AtlasImage, AHashMap<u32, FontGlyph>) = load(&two_glyph_font()).unwrap();
    assert!(glyphs.contains_key(&65));
    assert!(!glyphs.contains_key(&67));
}
