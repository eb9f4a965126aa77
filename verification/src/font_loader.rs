//! The loader: a cursor over the sections of a file, the metadata and the
//! character index gathered on the way, and the decoding of the glyphs.

use crate::atlas::{drawn, AtlasImage};
use crate::bytes::{
    be_u32, decode_text, get_i16, get_u16, get_u32, in_bounds, lemma_len_fits, read_u32_at,
    utf8_text,
};
use crate::error::{FormatError, SpecFormatError};
use crate::format::{
    atlas_pixel_lit, atlas_pixels, font_glyphs, magic, some_glyph_too_large,
    some_glyph_truncated, spec_font_data, spec_index_records, spec_load, spec_parse_character_index,
    spec_parse_data_section, spec_parse_section, spec_read_metric, spec_read_section, spec_scan,
    FontData, FontModel, Section, END_OF_SCAN, INDEX_RECORD_LEN, RESERVED_FLAGS,
    SECTION_HEADER_LEN, TAG_ASCE, TAG_CHIX, TAG_DATA, TAG_DESC, TAG_FILE, TAG_MAXH, TAG_MAXW,
    TAG_PTSZ,
};
use crate::glyph::{
    char_def_at, glyph_in_bounds, glyph_lights, glyph_of, glyph_table, glyph_table_insert,
    glyph_table_new, FontGlyph, PF2CharDef, Ratio, Ratio2, CHAR_DEF_LEN,
};
use crate::index::{lists_entries, CharacterIndex, IndexRecord};
use crate::layout::{lemma_cell_in_atlas, pack_atlas, AtlasLayout};
use crate::metrics::FontMetrics;
use crate::pixel::{opaque_white, transparent};
use ahash::AHashMap;
use rgb::RGBA8;
use vstd::prelude::*;
use vstd::slice::slice_subrange;

verus! {

/// Whether `r`, the answer of a load, is what `expected` says: the same
/// error, or an atlas and a glyph table with the same contents.
pub open spec fn load_outcome(
    r: Result<(AtlasImage, AHashMap<u32, FontGlyph>), FormatError>,
    expected: Result<FontModel, SpecFormatError>,
) -> bool {
    match expected {
        Ok(model) => {
            &&& r matches Ok(font)
            &&& font.0.width == model.layout.width
            &&& font.0.height == model.layout.height
            &&& font.0.pixels@ == model.pixels
            &&& glyph_table(font.1) == model.glyphs
        },
        Err(e) => r matches Err(x) && x@ == e,
    }
}

/// Whether one of the first `k` of `records` is for `code_point`.
spec fn listed_before(records: Seq<IndexRecord>, k: int, code_point: u32) -> bool {
    exists|i: int| 0 <= i < k && (#[trigger] records[i]).code_point == code_point
}

/// Whether the glyph that `record` points to sets the atlas pixel `p`.
spec fn record_lights(data: Seq<u8>, record: IndexRecord, layout: AtlasLayout, p: int) -> bool {
    glyph_lights(data, record.offset as int, layout, record.sequence as int, p)
}

/// Whether the glyph of one of the first `k` of `records` sets the atlas
/// pixel `p`.
spec fn lit_before(
    data: Seq<u8>,
    records: Seq<IndexRecord>,
    layout: AtlasLayout,
    k: int,
    p: int,
) -> bool {
    exists|i: int| 0 <= i < k && record_lights(data, #[trigger] records[i], layout, p)
}

/// The atlas after the glyphs of the first `k` of `records` have been
/// drawn.
spec fn pixels_before(
    data: Seq<u8>,
    records: Seq<IndexRecord>,
    layout: AtlasLayout,
    k: int,
) -> Seq<RGBA8> {
    Seq::new(
        (layout.width * layout.height) as nat,
        |p: int|
            if lit_before(data, records, layout, k, p) {
                opaque_white()
            } else {
                transparent()
            },
    )
}

/// The glyph table after the glyphs of the first `k` of `records` have
/// been taken in.
spec fn glyphs_before(
    data: Seq<u8>,
    font: FontData,
    layout: AtlasLayout,
    records: Seq<IndexRecord>,
    k: int,
) -> Map<u32, FontGlyph> {
    Map::new(
        |cp: u32| listed_before(records, k, cp),
        |cp: u32| font_glyphs(data, font, layout)[cp],
    )
}

/// Drawing the glyph of record `k` takes the atlas from its state after
/// `k` records to its state after `k + 1`.
proof fn lemma_draw_next(data: Seq<u8>, records: Seq<IndexRecord>, layout: AtlasLayout, k: int)
    requires
        0 <= k < records.len(),
    ensures
        drawn(
            data,
            records[k].offset as int,
            layout,
            records[k].sequence as int,
            pixels_before(data, records, layout, k),
        ) == pixels_before(data, records, layout, k + 1),
{
    let before = pixels_before(data, records, layout, k);
    let after = drawn(data, records[k].offset as int, layout, records[k].sequence as int, before);
    let next = pixels_before(data, records, layout, k + 1);
    assert forall|p: int| 0 <= p < next.len() implies after[p] == next[p] by {
        if lit_before(data, records, layout, k + 1, p) {
            let i = choose|i: int|
                0 <= i < k + 1 && record_lights(data, #[trigger] records[i], layout, p);
            if i < k {
                assert(lit_before(data, records, layout, k, p));
            }
        }
        if lit_before(data, records, layout, k, p) || record_lights(data, records[k], layout, p) {
            assert(lit_before(data, records, layout, k + 1, p));
        }
    }
    assert(after =~= next);
}

/// Once every record's glyph is drawn, the atlas is the one that the format
/// defines.
proof fn lemma_all_drawn(
    data: Seq<u8>,
    records: Seq<IndexRecord>,
    index: Map<u32, (u32, usize)>,
    layout: AtlasLayout,
)
    requires
        lists_entries(records, index),
    ensures
        pixels_before(data, records, layout, records.len() as int) == atlas_pixels(
            data,
            index,
            layout,
        ),
{
    let n = records.len() as int;
    let done = pixels_before(data, records, layout, n);
    let goal = atlas_pixels(data, index, layout);
    assert forall|p: int| 0 <= p < goal.len() implies done[p] == goal[p] by {
        if lit_before(data, records, layout, n, p) {
            let i = choose|i: int|
                0 <= i < n && record_lights(data, #[trigger] records[i], layout, p);
            assert(index.contains_pair(
                records[i].code_point,
                (records[i].offset, records[i].sequence),
            ));
            assert(index.dom().contains(records[i].code_point));
        }
        if atlas_pixel_lit(data, index, layout, p) {
            let cp = choose|cp: u32| #[trigger]
                index.dom().contains(cp) && glyph_lights(
                    data,
                    index[cp].0 as int,
                    layout,
                    index[cp].1 as int,
                    p,
                );
            let i = choose|i: int| 0 <= i < n && (#[trigger] records[i]).code_point == cp;
            assert(index.contains_pair(
                records[i].code_point,
                (records[i].offset, records[i].sequence),
            ));
            assert(record_lights(data, records[i], layout, p));
        }
    }
    assert(done =~= goal);
}

/// Taking in the glyph of record `k` takes the glyph table from its state
/// after `k` records to its state after `k + 1`.
proof fn lemma_glyph_next(
    data: Seq<u8>,
    font: FontData,
    layout: AtlasLayout,
    records: Seq<IndexRecord>,
    k: int,
)
    requires
        0 <= k < records.len(),
        lists_entries(records, font.index),
    ensures
        glyphs_before(data, font, layout, records, k).insert(
            records[k].code_point,
            glyph_of(
                char_def_at(data, records[k].offset as int),
                layout,
                font.metrics.point_size,
                records[k].sequence as int,
            ),
        ) == glyphs_before(data, font, layout, records, k + 1),
{
    let record = records[k];
    let glyph = glyph_of(
        char_def_at(data, record.offset as int),
        layout,
        font.metrics.point_size,
        record.sequence as int,
    );
    let after = glyphs_before(data, font, layout, records, k).insert(record.code_point, glyph);
    let next = glyphs_before(data, font, layout, records, k + 1);
    assert(font.index.contains_pair(record.code_point, (record.offset, record.sequence)));
    assert forall|cp: u32| after.dom().contains(cp) <==> next.dom().contains(cp) by {
        if listed_before(records, k + 1, cp) {
            let i = choose|i: int| 0 <= i < k + 1 && (#[trigger] records[i]).code_point == cp;
            if i < k {
                assert(listed_before(records, k, cp));
            }
        }
        if listed_before(records, k, cp) || cp == record.code_point {
            assert(listed_before(records, k + 1, cp));
        }
    }
    assert(after =~= next);
}

/// Once every record's glyph is taken in, the glyph table is the one that
/// the format defines.
proof fn lemma_all_glyphs(
    data: Seq<u8>,
    font: FontData,
    layout: AtlasLayout,
    records: Seq<IndexRecord>,
)
    requires
        lists_entries(records, font.index),
    ensures
        glyphs_before(data, font, layout, records, records.len() as int) == font_glyphs(
            data,
            font,
            layout,
        ),
{
    let n = records.len() as int;
    let done = glyphs_before(data, font, layout, records, n);
    let goal = font_glyphs(data, font, layout);
    assert forall|cp: u32| done.dom().contains(cp) <==> goal.dom().contains(cp) by {
        if font.index.dom().contains(cp) {
            let i = choose|i: int| 0 <= i < n && (#[trigger] records[i]).code_point == cp;
            assert(listed_before(records, n, cp));
        }
        if listed_before(records, n, cp) {
            let i = choose|i: int| 0 <= i < n && (#[trigger] records[i]).code_point == cp;
            assert(font.index.contains_pair(
                records[i].code_point,
                (records[i].offset, records[i].sequence),
            ));
        }
    }
    assert(done =~= goal);
}

/// Loads one font from a buffer that holds a whole file. A loader is made
/// for a single load.
pub struct PF2Loader<'a> {
    data: &'a [u8],
    section_type: u32,
    section_len: usize,
    section_start: usize,
    metrics: FontMetrics,
    character_index: CharacterIndex,
}

impl<'a> PF2Loader<'a> {
    /// The bytes of the file.
    pub closed spec fn buffer(&self) -> Seq<u8> {
        self.data@
    }

    /// The section that the cursor stands on.
    pub closed spec fn section(&self) -> Section {
        Section {
            tag: self.section_type,
            start: self.section_start as int,
            len: self.section_len as int,
        }
    }

    /// What the loader has learned of the font so far.
    pub closed spec fn font(&self) -> FontData {
        FontData { metrics: self.metrics, index: self.character_index@ }
    }

    /// Whether the cursor stands inside the buffer and the index is
    /// numbered as it must be.
    pub closed spec fn wf(&self) -> bool {
        &&& self.section().inside(self.buffer())
        &&& self.character_index.wf()
    }

    /// Whether nothing has been read yet.
    pub open spec fn is_fresh(&self) -> bool {
        &&& self.wf()
        &&& self.section() == Section::initial()
        &&& self.font() == FontData::empty()
    }

    /// A loader for the file in `data`, with nothing read yet.
    pub fn new(data: &'a [u8]) -> (loader: PF2Loader<'a>)
        ensures
            loader.buffer() == data@,
            loader.is_fresh(),
    {
        PF2Loader {
            data,
            section_type: 0,
            section_len: 0,
            section_start: 0,
            metrics: FontMetrics::new(),
            character_index: CharacterIndex::new(),
        }
    }

    /// Packs the four bytes of a tag into one number, first byte highest.
    pub fn make_section_type(t: &[u8; 4]) -> (tag: u32)
        ensures
            tag == be_u32(t@),
    {
        let a: u8 = t[0];
        let b: u8 = t[1];
        let c: u8 = t[2];
        let d: u8 = t[3];
        assert((a as u32) << 24 | (b as u32) << 16 | (c as u32) << 8 | (d as u32) == a as int
            * 0x100_0000 + b as int * 0x1_0000 + c as int * 0x100 + d as int) by (bit_vector);
        (a as u32) << 24 | (b as u32) << 16 | (c as u32) << 8 | (d as u32)
    }

    /// The tag of the current section as text.
    fn section_type_as_str(&self) -> (r: Result<String, FormatError>)
        requires
            self.wf(),
            self.section().has_header(self.buffer()),
        ensures
            match utf8_text(self.section().tag_bytes(self.buffer())) {
                Some(text) => r matches Ok(s) && s@ == text,
                None => r matches Err(e) && e@ == SpecFormatError::EncodingError,
            },
    {
        let tag: &[u8] = slice_subrange(self.data, self.section_start - 8, self.section_start - 4);
        decode_text(tag).ok_or(FormatError::EncodingError)
    }

    /// Moves the cursor to the section that follows the current one.
    /// Answers whether the scan goes on after it: `false` exactly when its
    /// length field holds the end-of-scan mark.
    fn read_section(&mut self) -> (r: Result<bool, FormatError>)
        requires
            old(self).wf(),
        ensures
            final(self).wf(),
            final(self).buffer() == old(self).buffer(),
            final(self).font() == old(self).font(),
            match spec_read_section(old(self).buffer(), old(self).section()) {
                Ok((section, more)) => {
                    &&& r matches Ok(m) && m == more
                    &&& final(self).section() == section
                    &&& section.has_header(old(self).buffer())
                },
                Err(e) => {
                    &&& r matches Err(x) && x@ == e
                    &&& final(self).section() == old(self).section()
                },
            },
    {
        let total: usize = self.data.len();
        let at: usize = self.section_start + self.section_len;
        let tag: u32 = read_u32_at(self.data, at).ok_or(FormatError::TruncatedInput)?;
        let declared: u32 = read_u32_at(self.data, at + 4).ok_or(FormatError::TruncatedInput)?;
        let start: usize = at + SECTION_HEADER_LEN;
        if declared == END_OF_SCAN {
            self.section_type = tag;
            self.section_start = start;
            self.section_len = total - start;
            Ok(false)
        } else if declared as usize > total - start {
            Err(FormatError::TruncatedInput)
        } else {
            self.section_type = tag;
            self.section_start = start;
            self.section_len = declared as usize;
            Ok(true)
        }
    }

    /// The body of the current section as text.
    fn section_as_str(&self) -> (r: Result<String, FormatError>)
        requires
            self.wf(),
        ensures
            match utf8_text(self.section().body(self.buffer())) {
                Some(text) => r matches Ok(s) && s@ == text,
                None => r matches Err(e) && e@ == SpecFormatError::EncodingError,
            },
    {
        proof {
            lemma_len_fits(self.data);
        }
        let body: &[u8] = slice_subrange(
            self.data,
            self.section_start,
            self.section_start + self.section_len,
        );
        decode_text(body).ok_or(FormatError::EncodingError)
    }

    /// Whether the body of the current section is the four bytes `PFF2`.
    fn section_is_magic(&self) -> (b: bool)
        requires
            self.wf(),
        ensures
            b == (self.section().body(self.buffer()) == magic()),
    {
        let start: usize = self.section_start;
        let ghost body = self.section().body(self.buffer());
        if self.section_len != 4 {
            assert(body.len() != magic().len());
            return false;
        }
        let b: bool = self.data[start] == 0x50 && self.data[start + 1] == 0x46 && self.data[start
            + 2] == 0x46 && self.data[start + 3] == 0x32;
        proof {
            assert(body[0] == self.data@[start as int]);
            assert(body[1] == self.data@[start + 1]);
            assert(body[2] == self.data@[start + 2]);
            assert(body[3] == self.data@[start + 3]);
            if b {
                assert(body =~= magic());
            } else {
                assert(magic()[0] == 0x50 && magic()[1] == 0x46 && magic()[2] == 0x46 && magic()[3]
                    == 0x32);
            }
        }
        b
    }

    /// Reads the character index section that the cursor stands on.
    fn parse_character_index(&mut self) -> (r: Result<(), FormatError>)
        requires
            old(self).wf(),
        ensures
            final(self).wf(),
            final(self).buffer() == old(self).buffer(),
            final(self).section() == old(self).section(),
            final(self).font().metrics == old(self).font().metrics,
            match spec_parse_character_index(
                old(self).buffer(),
                old(self).section(),
                old(self).font().index,
            ) {
                Ok(index) => r is Ok && final(self).font().index == index,
                Err(e) => r matches Err(x) && x@ == e,
            },
    {
        if self.character_index.len() != 0 {
            return Err(FormatError::DuplicateSection);
        }
        if self.section_len % INDEX_RECORD_LEN != 0 {
            return Err(FormatError::RecordSizeMismatch { length: self.section_len });
        }
        let count: usize = self.section_len / INDEX_RECORD_LEN;
        let ghost goal = spec_index_records(
            self.buffer(),
            self.section_start as int,
            count as nat,
            self.character_index@,
        );
        proof {
            lemma_len_fits(self.data);
        }
        let mut k: usize = 0;
        while k < count
            invariant
                k <= count,
                count * INDEX_RECORD_LEN == self.section_len,
                self.data@.len() <= usize::MAX,
                goal == spec_parse_character_index(
                    old(self).buffer(),
                    old(self).section(),
                    old(self).font().index,
                ),
                self.wf(),
                self.buffer() == old(self).buffer(),
                self.section() == old(self).section(),
                self.font().metrics == old(self).font().metrics,
                goal == spec_index_records(
                    self.buffer(),
                    self.section_start + k * INDEX_RECORD_LEN,
                    (count - k) as nat,
                    self.character_index@,
                ),
            decreases count - k,
        {
            assert(self.section_start + k * INDEX_RECORD_LEN + INDEX_RECORD_LEN
                <= self.data@.len());
            let at: usize = self.section_start + k * INDEX_RECORD_LEN;
            let code_point: u32 = get_u32(self.data, at);
            let flags: u8 = self.data[at + 4];
            let offset: u32 = get_u32(self.data, at + 5);
            if flags & RESERVED_FLAGS != 0 {
                return Err(FormatError::InvalidFlags { code_point, flags });
            }
            self.character_index.insert(code_point, offset);
            k += 1;
        }
        Ok(())
    }

    /// Reads the big-endian `u16` at the start of the current section.
    fn read_metric(&self) -> (r: Result<u16, FormatError>)
        requires
            self.wf(),
        ensures
            match spec_read_metric(self.buffer(), self.section()) {
                Ok(v) => r matches Ok(x) && x == v,
                Err(e) => r matches Err(x) && x@ == e,
            },
    {
        if self.section_len < 2 {
            Err(FormatError::TruncatedInput)
        } else {
            Ok(get_u16(self.data, self.section_start))
        }
    }

    /// Takes the metadata section that the cursor stands on into what is
    /// known of the font.
    fn parse_section(&mut self) -> (r: Result<(), FormatError>)
        requires
            old(self).wf(),
        ensures
            final(self).wf(),
            final(self).buffer() == old(self).buffer(),
            final(self).section() == old(self).section(),
            match spec_parse_section(old(self).buffer(), old(self).section(), old(self).font()) {
                Ok(font) => r is Ok && final(self).font() == font,
                Err(e) => r matches Err(x) && x@ == e,
            },
    {
        if self.section_type == TAG_PTSZ {
            self.metrics.point_size = self.read_metric()?;
        } else if self.section_type == TAG_MAXW {
            self.metrics.max_width = self.read_metric()?;
        } else if self.section_type == TAG_MAXH {
            self.metrics.max_height = self.read_metric()?;
        } else if self.section_type == TAG_ASCE {
            self.metrics.ascent = self.read_metric()?;
        } else if self.section_type == TAG_DESC {
            self.metrics.descent = self.read_metric()?;
        } else if self.section_type == TAG_CHIX {
            self.parse_character_index()?;
        }
        Ok(())
    }

    /// The header of the glyph definition at `offset`.
    fn char_def(&self, offset: usize) -> (def: PF2CharDef)
        requires
            in_bounds(self.buffer().len() as int, offset as int, CHAR_DEF_LEN as int),
        ensures
            def == char_def_at(self.buffer(), offset as int),
    {
        proof {
            lemma_len_fits(self.data);
        }
        let width: u16 = get_u16(self.data, offset);
        let height: u16 = get_u16(self.data, offset + 2);
        let x_offset: i16 = get_i16(self.data, offset + 4);
        let y_offset: i16 = get_i16(self.data, offset + 6);
        let device_width: i16 = get_i16(self.data, offset + 8);
        PF2CharDef { width, height, x_offset, y_offset, device_width }
    }

    /// Reads the header of the glyph definition at `offset`.
    fn read_char_def(&self, offset: usize) -> (r: Result<PF2CharDef, FormatError>)
        ensures
            match r {
                Ok(def) => in_bounds(
                    self.buffer().len() as int,
                    offset as int,
                    CHAR_DEF_LEN as int,
                ) && def == char_def_at(self.buffer(), offset as int),
                Err(e) => !in_bounds(
                    self.buffer().len() as int,
                    offset as int,
                    CHAR_DEF_LEN as int,
                ) && e@ == SpecFormatError::TruncatedInput,
            },
    {
        let total: usize = self.data.len();
        if total < CHAR_DEF_LEN || offset > total - CHAR_DEF_LEN {
            Err(FormatError::TruncatedInput)
        } else {
            Ok(self.char_def(offset))
        }
    }

    /// Draws the bitmap of the glyph defined at `offset` into the cell with
    /// sequence number `index`, and answers the glyph's normalised
    /// geometry.
    fn parse_char_bitmap(
        &self,
        index: usize,
        def: &PF2CharDef,
        offset: usize,
        layout: &AtlasLayout,
        atlas: &mut AtlasImage,
    ) -> (glyph: FontGlyph)
        requires
            old(atlas).wf(),
            layout.wf(),
            old(atlas).width == layout.width,
            old(atlas).height == layout.height,
            glyph_in_bounds(self.buffer(), offset as int),
            *def == char_def_at(self.buffer(), offset as int),
            def.fits_cell(*layout),
            index < layout.cells(),
        ensures
            final(atlas).wf(),
            final(atlas).width == old(atlas).width,
            final(atlas).height == old(atlas).height,
            final(atlas).pixels@ == drawn(
                self.buffer(),
                offset as int,
                *layout,
                index as int,
                old(atlas).pixels@,
            ),
            glyph == glyph_of(*def, *layout, self.font().metrics.point_size, index as int),
    {
        atlas.draw_glyph(self.data, offset, def, layout, index);
        proof {
            lemma_cell_in_atlas(*layout, index as int);
        }
        let x0: usize = (index % layout.columns) * (layout.cell_width as usize);
        let y0: usize = (index / layout.columns) * (layout.cell_height as usize);
        let atlas_width: u64 = layout.width as u64;
        let atlas_height: u64 = layout.height as u64;
        let point_size: u64 = self.metrics.point_size as u64;
        FontGlyph {
            tex_coord: Ratio2 {
                x: Ratio { num: x0 as i128, den: atlas_width },
                y: Ratio { num: y0 as i128, den: atlas_height },
            },
            tex_size: Ratio2 {
                x: Ratio { num: def.width as i128, den: atlas_width },
                y: Ratio { num: def.height as i128, den: atlas_height },
            },
            offset: Ratio2 {
                x: Ratio { num: def.x_offset as i128, den: point_size },
                y: Ratio { num: def.y_offset as i128, den: point_size },
            },
            size: Ratio2 {
                x: Ratio { num: def.width as i128, den: point_size },
                y: Ratio { num: def.height as i128, den: point_size },
            },
            width: Ratio { num: def.device_width as i128, den: point_size },
        }
    }

    /// Looks at every indexed glyph before any is drawn. A definition that
    /// runs past the end of the file is reported first, whichever glyph has
    /// it. A glyph that is too large for its cell is reported only if no
    /// definition does.
    fn check_glyphs(&self, records: &Vec<IndexRecord>, layout: &AtlasLayout) -> (r: Result<
        (),
        FormatError,
    >)
        requires
            lists_entries(records@, self.font().index),
        ensures
            match r {
                Ok(()) => !some_glyph_truncated(self.buffer(), self.font().index)
                    && !some_glyph_too_large(self.buffer(), self.font().index, *layout),
                Err(e) => if some_glyph_truncated(self.buffer(), self.font().index) {
                    e@ == SpecFormatError::TruncatedInput
                } else {
                    some_glyph_too_large(self.buffer(), self.font().index, *layout) && e@
                        == SpecFormatError::GlyphTooLarge
                },
            },
    {
        let ghost data = self.buffer();
        let ghost index = self.font().index;
        let total: usize = self.data.len();
        let mut oversize: bool = false;
        let mut k: usize = 0;
        while k < records.len()
            invariant
                k <= records.len(),
                total == data.len(),
                data == self.buffer(),
                index == self.font().index,
                lists_entries(records@, index),
                forall|i: int|
                    0 <= i < k ==> glyph_in_bounds(data, (#[trigger] records@[i]).offset as int),
                oversize == (exists|i: int|
                    0 <= i < k && !char_def_at(
                        data,
                        (#[trigger] records@[i]).offset as int,
                    ).fits_cell(*layout)),
            decreases records.len() - k,
        {
            let record: IndexRecord = records[k];
            let offset: usize = record.offset as usize;
            assert(index.contains_pair(record.code_point, (record.offset, record.sequence)));
            let def: PF2CharDef = self.read_char_def(offset)?;
            let w: usize = def.width as usize;
            let h: usize = def.height as usize;
            assert(w * h <= 0xffff * 0xffff) by (nonlinear_arith)
                requires
                    0 <= w <= 0xffff,
                    0 <= h <= 0xffff,
            ;
            let bitmap_len: usize = (w * h + 7) / 8;
            if bitmap_len > total - (offset + CHAR_DEF_LEN) {
                return Err(FormatError::TruncatedInput);
            }
            if def.width > layout.cell_width || def.height > layout.cell_height {
                oversize = true;
            }
            k += 1;
        }
        proof {
            assert forall|cp: u32| #[trigger] index.dom().contains(cp) implies glyph_in_bounds(
                data,
                index[cp].0 as int,
            ) by {
                let i = choose|i: int|
                    0 <= i < records@.len() && (#[trigger] records@[i]).code_point == cp;
                assert(index.contains_pair(
                    records@[i].code_point,
                    (records@[i].offset, records@[i].sequence),
                ));
            }
            if some_glyph_too_large(data, index, *layout) {
                let cp = choose|cp: u32| #[trigger]
                    index.dom().contains(cp) && !char_def_at(data, index[cp].0 as int).fits_cell(
                        *layout,
                    );
                let i = choose|i: int|
                    0 <= i < records@.len() && (#[trigger] records@[i]).code_point == cp;
                assert(index.contains_pair(
                    records@[i].code_point,
                    (records@[i].offset, records@[i].sequence),
                ));
            }
            if oversize {
                let i = choose|i: int|
                    0 <= i < records@.len() && !char_def_at(
                        data,
                        (#[trigger] records@[i]).offset as int,
                    ).fits_cell(*layout);
                assert(index.contains_pair(
                    records@[i].code_point,
                    (records@[i].offset, records@[i].sequence),
                ));
                assert(index.dom().contains(records@[i].code_point));
            }
        }
        if oversize {
            Err(FormatError::GlyphTooLarge)
        } else {
            Ok(())
        }
    }

    /// Draws every indexed glyph into a fresh atlas and gathers the glyphs'
    /// geometry. The order in which the records come has no bearing on the
    /// result.
    fn decode_glyphs(&self, records: &Vec<IndexRecord>, layout: &AtlasLayout) -> (font: (
        AtlasImage,
        AHashMap<u32, FontGlyph>,
    ))
        requires
            self.wf(),
            layout.wf(),
            layout.cells() >= self.font().index.dom().len(),
            lists_entries(records@, self.font().index),
            !some_glyph_truncated(self.buffer(), self.font().index),
            !some_glyph_too_large(self.buffer(), self.font().index, *layout),
        ensures
            font.0.width == layout.width,
            font.0.height == layout.height,
            font.0.pixels@ == atlas_pixels(self.buffer(), self.font().index, *layout),
            glyph_table(font.1) == font_glyphs(self.buffer(), self.font(), *layout),
    {
        let ghost data = self.buffer();
        let ghost known = self.font();
        let mut atlas: AtlasImage = AtlasImage::new(layout);
        let mut glyphs: AHashMap<u32, FontGlyph> = glyph_table_new();
        assert(atlas.pixels@ =~= pixels_before(data, records@, *layout, 0));
        assert(glyph_table(glyphs) =~= glyphs_before(data, known, *layout, records@, 0));
        let mut k: usize = 0;
        while k < records.len()
            invariant
                k <= records.len(),
                self.wf(),
                data == self.buffer(),
                known == self.font(),
                layout.wf(),
                layout.cells() >= known.index.dom().len(),
                lists_entries(records@, known.index),
                !some_glyph_truncated(data, known.index),
                !some_glyph_too_large(data, known.index, *layout),
                atlas.wf(),
                atlas.width == layout.width,
                atlas.height == layout.height,
                atlas.pixels@ == pixels_before(data, records@, *layout, k as int),
                glyph_table(glyphs) == glyphs_before(data, known, *layout, records@, k as int),
            decreases records.len() - k,
        {
            let record: IndexRecord = records[k];
            let offset: usize = record.offset as usize;
            assert(known.index.contains_pair(record.code_point, (record.offset, record.sequence)));
            assert(known.index.dom().contains(record.code_point));
            let def: PF2CharDef = self.char_def(offset);
            let glyph: FontGlyph = self.parse_char_bitmap(
                record.sequence,
                &def,
                offset,
                layout,
                &mut atlas,
            );
            glyph_table_insert(&mut glyphs, record.code_point, glyph);
            proof {
                lemma_draw_next(data, records@, *layout, k as int);
                lemma_glyph_next(data, known, *layout, records@, k as int);
            }
            k += 1;
        }
        proof {
            lemma_all_drawn(data, records@, known.index, *layout);
            lemma_all_glyphs(data, known, *layout, records@);
        }
        (atlas, glyphs)
    }

    /// Sizes the atlas and decodes every indexed glyph into it.
    fn parse_data_section(&self) -> (r: Result<
        (AtlasImage, AHashMap<u32, FontGlyph>),
        FormatError,
    >)
        requires
            self.wf(),
        ensures
            load_outcome(r, spec_parse_data_section(self.buffer(), self.font())),
    {
        let count: usize = self.character_index.len();
        let layout: AtlasLayout = pack_atlas(count, &self.metrics)?;
        let records: Vec<IndexRecord> = self.character_index.records();
        self.check_glyphs(&records, &layout)?;
        Ok(self.decode_glyphs(&records, &layout))
    }

    /// Loads the font: checks the signature, walks the metadata sections,
    /// sizes the atlas and decodes every glyph of the character index into
    /// it. The answer is the atlas and, for each code point of the index,
    /// its glyph. After a load that succeeds the loader holds the metadata
    /// and the index that it read.
    pub fn load(&mut self) -> (r: Result<(AtlasImage, AHashMap<u32, FontGlyph>), FormatError>)
        requires
            old(self).is_fresh(),
        ensures
            load_outcome(r, spec_load(old(self).buffer())),
            final(self).buffer() == old(self).buffer(),
            r is Ok ==> (spec_font_data(old(self).buffer()) matches Ok(font)
                && font == final(self).font()),
    {
        let ghost data = self.buffer();
        self.read_section()?;
        let ghost first = self.section();
        if self.section_type != TAG_FILE {
            return Err(FormatError::BadSignature { found: self.section_type_as_str()? });
        }
        if !self.section_is_magic() {
            return Err(FormatError::BadMagic { found: self.section_as_str()? });
        }
        loop
            invariant_except_break
                self.wf(),
                self.buffer() == data,
                spec_scan(data, first, FontData::empty()) == spec_scan(
                    data,
                    self.section(),
                    self.font(),
                ),
            invariant
                data == old(self).buffer(),
                spec_read_section(data, Section::initial()) matches Ok(found) && found.0 == first,
                first.tag == TAG_FILE,
                first.body(data) == magic(),
            ensures
                self.wf(),
                self.buffer() == data,
                self.section().has_header(data),
                spec_scan(data, first, FontData::empty()) matches Ok(end) && end == (
                    self.section(),
                    self.font(),
                ),
            decreases data.len() - self.section().end(),
        {
            let more: bool = self.read_section()?;
            if !more {
                break ;
            }
            self.parse_section()?;
        }
        if self.section_type != TAG_DATA {
            return Err(FormatError::UnexpectedSection { found: self.section_type_as_str()? });
        }
        self.parse_data_section()
    }
}

/// Loads the font that the file in `data` holds: the atlas with the bitmaps
/// of all its glyphs and, for each code point of its character index, the
/// glyph's normalised geometry.
pub fn load(data: &[u8]) -> (r: Result<(AtlasImage, AHashMap<u32, FontGlyph>), FormatError>)
    ensures
        load_outcome(r, spec_load(data@)),
{
    let mut loader = PF2Loader::new(data);
    loader.load()
}

} // verus!
