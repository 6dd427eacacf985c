//! Sprite fonts and text layout.
//!
//! Font metrics are held in fixed point, `SUBPIXELS` units to the pixel, so
//! that a cursor that advances by fractional widths lands where the font
//! puts it; glyphs are placed at whole pixels, rounded down.

use vstd::prelude::*;

use crate::batch::TextureId;
use crate::color::Color;
use crate::packer::{ShelfPacker, place, insert_ok};
use crate::rect::IRectangle;

verus! {

/// Fixed-point units per pixel.
pub const SUBPIXELS: i64 = 64;

/// The largest magnitude of a font metric, in fixed-point units.
pub const METRIC_LIMIT: i32 = 1048576;

/// The first character that a sprite font holds.
pub const FIRST_GLYPH: u32 = 32;

/// How many characters a sprite font holds, from `FIRST_GLYPH` on.
pub const GLYPH_COUNT: usize = 96;

/// The width and height of a sprite font's atlas.
pub const ATLAS_SIZE: i32 = 256;

/// The free pixels kept around each glyph in the atlas.
pub const ATLAS_PADDING: i32 = 1;

/// Where a glyph's image sits: its offset from the pen position, and its
/// region of the font's atlas in texels.
#[derive(Copy, Clone, Debug, PartialEq, Eq, Structural)]
pub struct SpriteFontGlyphImage {
    pub offset_x: i32,
    pub offset_y: i32,
    pub uv: IRectangle,
}

/// A character's advance width, and its image unless it has none (a space).
#[derive(Copy, Clone, Debug, PartialEq, Eq, Structural)]
pub struct SpriteFontGlyph {
    pub advance: i32,
    pub image: Option<SpriteFontGlyphImage>,
}

/// What rasterizing a character gives: the bitmap's size in pixels, and
/// its bounds relative to the pen position, in fixed point.
#[derive(Copy, Clone, Debug, PartialEq, Eq, Structural)]
pub struct GlyphRaster {
    pub width: i32,
    pub height: i32,
    pub xmin: i32,
    pub ymin: i32,
    pub bounds_height: i32,
}

/// The atlas has no room left for a glyph.
#[derive(Copy, Clone, Debug, PartialEq, Eq, Structural)]
pub struct AtlasFull;

/// A run of text drawn in one color.
pub struct TextSegment {
    pub content: String,
    pub color: Color,
}

/// A glyph to draw: the top-left pixel of its quad, its region of the atlas,
/// and its tint.
#[derive(Copy, Clone, Debug, PartialEq, Eq, Structural)]
pub struct GlyphQuad {
    pub x: i64,
    pub y: i64,
    pub uv: IRectangle,
    pub color: Color,
}

/// A font baked into an atlas texture for the printable ASCII characters.
pub struct SpriteFont {
    ascent: i32,
    descent: i32,
    line_gap: i32,
    texture: TextureId,
    glyphs: Vec<Option<SpriteFontGlyph>>,
    kerning: Vec<Option<i32>>,
}

pub open spec fn metric_ok(v: int) -> bool {
    -METRIC_LIMIT <= v <= METRIC_LIMIT
}

pub open spec fn glyph_ok(g: SpriteFontGlyph) -> bool {
    &&& metric_ok(g.advance as int)
    &&& g.image matches Some(img) ==> metric_ok(img.offset_x as int) && metric_ok(img.offset_y as int)
}

/// A raster's bounds stay within a quarter of the metric limit, so that
/// the glyph offsets made from them are valid metrics.
pub open spec fn raster_ok(r: GlyphRaster) -> bool {
    &&& 0 <= r.width
    &&& 0 <= r.height
    &&& -METRIC_LIMIT / 4 <= r.xmin <= METRIC_LIMIT / 4
    &&& -METRIC_LIMIT / 4 <= r.ymin <= METRIC_LIMIT / 4
    &&& -METRIC_LIMIT / 4 <= r.bounds_height <= METRIC_LIMIT / 4
}

/// Whether the font holds a slot for `ch`.
pub open spec fn in_range(ch: char) -> bool {
    FIRST_GLYPH <= (ch as u32) < FIRST_GLYPH + GLYPH_COUNT
}

/// Rounds a fixed-point value down to whole pixels, giving pixels.
pub open spec fn floor_px(v: int) -> int {
    v / (SUBPIXELS as int)
}

/// Rounds a fixed-point value down to whole pixels, staying in fixed point.
pub open spec fn snap(v: int) -> int {
    floor_px(v) * SUBPIXELS
}

/// The control characters: U+0000 to U+001F and U+007F to U+009F.
pub open spec fn is_control_spec(ch: char) -> bool {
    (ch as u32) < 0x20 || (0x7f <= (ch as u32) && (ch as u32) <= 0x9f)
}

proof fn lemma_char_code(c: char, d: char)
    ensures
        c != d ==> c as u32 != d as u32,
{
    assert(0 <= c as int <= 0x10FFFF);
    assert(0 <= d as int <= 0x10FFFF);
    assert(c as u32 == c as int);
    assert(d as u32 == d as int);
}

fn is_control(ch: char) -> (r: bool)
    ensures
        r == is_control_spec(ch),
{
    let c = ch as u32;
    c < 0x20 || (0x7f <= c && c <= 0x9f)
}

fn floor_div_px(v: i64) -> (r: i64)
    ensures
        r == floor_px(v as int),
{
    let q = v / SUBPIXELS;
    let m = v % SUBPIXELS;
    if m < 0 {
        q - 1
    } else {
        q
    }
}

/// The glyph that `bake_glyph` records for a raster placed at `region`
/// (or with no image, for an empty raster).
pub open spec fn baked_glyph(advance: i32, raster: GlyphRaster, region: Option<IRectangle>) -> SpriteFontGlyph {
    SpriteFontGlyph {
        advance,
        image: match region {
            Some(uv) => Some(
                SpriteFontGlyphImage {
                    offset_x: (raster.xmin - ATLAS_PADDING * SUBPIXELS) as i32,
                    offset_y: (-raster.bounds_height - raster.ymin - ATLAS_PADDING * SUBPIXELS) as i32,
                    uv,
                },
            ),
            None => None,
        },
    }
}

impl SpriteFont {
    pub closed spec fn glyph_spec(&self, ch: char) -> Option<SpriteFontGlyph> {
        if in_range(ch) {
            self.glyphs@[ch as u32 - FIRST_GLYPH]
        } else {
            None
        }
    }

    pub closed spec fn kerning_spec(&self, a: char, b: char) -> Option<i32> {
        if in_range(a) && in_range(b) {
            self.kerning@[(a as u32 - FIRST_GLYPH) * GLYPH_COUNT + (b as u32 - FIRST_GLYPH)]
        } else {
            None
        }
    }

    pub closed spec fn ascent_spec(&self) -> int {
        self.ascent as int
    }

    pub closed spec fn descent_spec(&self) -> int {
        self.descent as int
    }

    pub closed spec fn line_gap_spec(&self) -> int {
        self.line_gap as int
    }

    pub closed spec fn texture_spec(&self) -> TextureId {
        self.texture
    }

    /// The distance from one baseline to the next, in fixed point.
    pub open spec fn line_height_spec(&self) -> int {
        self.ascent_spec() - self.descent_spec() + self.line_gap_spec()
    }

    pub closed spec fn wf(&self) -> bool {
        &&& self.glyphs@.len() == GLYPH_COUNT
        &&& self.kerning@.len() == GLYPH_COUNT * GLYPH_COUNT
        &&& metric_ok(self.ascent as int)
        &&& metric_ok(self.descent as int)
        &&& metric_ok(self.line_gap as int)
        &&& forall|i: int| 0 <= i < GLYPH_COUNT ==> (#[trigger] self.glyphs@[i] matches Some(g) ==> glyph_ok(g))
        &&& forall|i: int| 0 <= i < GLYPH_COUNT * GLYPH_COUNT ==> (#[trigger] self.kerning@[i] matches Some(k) ==> metric_ok(k as int))
    }

    /// A font with the given line metrics and atlas texture, and no glyphs yet.
    pub fn new(ascent: i32, descent: i32, line_gap: i32, texture: TextureId) -> (f: SpriteFont)
        requires
            metric_ok(ascent as int),
            metric_ok(descent as int),
            metric_ok(line_gap as int),
        ensures
            f.wf(),
            f.ascent_spec() == ascent,
            f.descent_spec() == descent,
            f.line_gap_spec() == line_gap,
            f.texture_spec() == texture,
            forall|ch: char| #[trigger] f.glyph_spec(ch) is None,
            forall|a: char, b: char| #[trigger] f.kerning_spec(a, b) is None,
    {
        let mut glyphs: Vec<Option<SpriteFontGlyph>> = Vec::new();
        let mut i: usize = 0;
        while i < GLYPH_COUNT
            invariant
                i <= GLYPH_COUNT,
                glyphs@.len() == i,
                forall|j: int| 0 <= j < i ==> #[trigger] glyphs@[j] is None,
            decreases GLYPH_COUNT - i,
        {
            glyphs.push(None);
            i = i + 1;
        }
        let mut kerning: Vec<Option<i32>> = Vec::new();
        let mut k: usize = 0;
        while k < GLYPH_COUNT * GLYPH_COUNT
            invariant
                k <= GLYPH_COUNT * GLYPH_COUNT,
                kerning@.len() == k,
                forall|j: int| 0 <= j < k ==> #[trigger] kerning@[j] is None,
            decreases GLYPH_COUNT * GLYPH_COUNT - k,
        {
            kerning.push(None);
            k = k + 1;
        }
        let f = SpriteFont { ascent, descent, line_gap, texture, glyphs, kerning };
        assert forall|a: char, b: char| #[trigger] f.kerning_spec(a, b) is None by {
            if in_range(a) && in_range(b) {
                let ia = (a as u32 - FIRST_GLYPH) as int;
                let ib = (b as u32 - FIRST_GLYPH) as int;
                assert(0 <= ia * GLYPH_COUNT + ib < GLYPH_COUNT * GLYPH_COUNT) by (nonlinear_arith)
                    requires
                        0 <= ia < GLYPH_COUNT,
                        0 <= ib < GLYPH_COUNT,
                ;
            }
        }
        f
    }

    pub fn ascent(&self) -> (r: i32)
        ensures
            r == self.ascent_spec(),
    {
        self.ascent
    }

    pub fn descent(&self) -> (r: i32)
        ensures
            r == self.descent_spec(),
    {
        self.descent
    }

    pub fn line_gap(&self) -> (r: i32)
        ensures
            r == self.line_gap_spec(),
    {
        self.line_gap
    }

    /// The atlas texture that the glyph images live in.
    pub fn texture(&self) -> (r: TextureId)
        ensures
            r == self.texture_spec(),
    {
        self.texture
    }

    /// The distance from one baseline to the next, in fixed point.
    pub fn line_height(&self) -> (r: i32)
        requires
            self.wf(),
        ensures
            r == self.line_height_spec(),
    {
        self.ascent - self.descent + self.line_gap
    }

    /// The glyph of `ch`, if the font holds one.
    pub fn glyph(&self, ch: char) -> (r: Option<SpriteFontGlyph>)
        requires
            self.wf(),
        ensures
            r == self.glyph_spec(ch),
    {
        let c = ch as u32;
        if FIRST_GLYPH <= c && c < FIRST_GLYPH + GLYPH_COUNT as u32 {
            self.glyphs[(c - FIRST_GLYPH) as usize]
        } else {
            None
        }
    }

    /// The kerning adjustment between `a` and a following `b`, if the font has one.
    pub fn kerning(&self, a: char, b: char) -> (r: Option<i32>)
        requires
            self.wf(),
        ensures
            r == self.kerning_spec(a, b),
    {
        let ca = a as u32;
        let cb = b as u32;
        if FIRST_GLYPH <= ca && ca < FIRST_GLYPH + GLYPH_COUNT as u32 && FIRST_GLYPH <= cb && cb
            < FIRST_GLYPH + GLYPH_COUNT as u32 {
            let ia = (ca - FIRST_GLYPH) as usize;
            let ib = (cb - FIRST_GLYPH) as usize;
            assert(ia * GLYPH_COUNT + ib < GLYPH_COUNT * GLYPH_COUNT) by (nonlinear_arith)
                requires
                    ia < GLYPH_COUNT,
                    ib < GLYPH_COUNT,
            ;
            self.kerning[ia * GLYPH_COUNT + ib]
        } else {
            None
        }
    }

    /// Records the glyph of `ch`.
    pub fn set_glyph(&mut self, ch: char, glyph: SpriteFontGlyph)
        requires
            old(self).wf(),
            in_range(ch),
            glyph_ok(glyph),
        ensures
            final(self).wf(),
            final(self).glyph_spec(ch) == Some(glyph),
            forall|c: char| c != ch ==> #[trigger] final(self).glyph_spec(c) == old(self).glyph_spec(c),
            forall|a: char, b: char| #[trigger] final(self).kerning_spec(a, b) == old(self).kerning_spec(a, b),
            final(self).ascent_spec() == old(self).ascent_spec(),
            final(self).descent_spec() == old(self).descent_spec(),
            final(self).line_gap_spec() == old(self).line_gap_spec(),
            final(self).texture_spec() == old(self).texture_spec(),
    {
        let i = (ch as u32 - FIRST_GLYPH) as usize;
        self.glyphs.set(i, Some(glyph));
        assert forall|c: char| c != ch implies #[trigger] self.glyph_spec(c) == old(self).glyph_spec(c) by {
            if in_range(c) {
                lemma_char_code(c, ch);
                let j = (c as u32 - FIRST_GLYPH) as int;
                assert(j != i as int);
                assert(self.glyphs@[j] == old(self).glyphs@[j]);
            }
        }
    }

    /// Records the kerning adjustment between `a` and a following `b`.
    pub fn set_kerning(&mut self, a: char, b: char, k: i32)
        requires
            old(self).wf(),
            in_range(a),
            in_range(b),
            metric_ok(k as int),
        ensures
            final(self).wf(),
            final(self).kerning_spec(a, b) == Some(k),
            forall|x: char, y: char| !(x == a && y == b) ==> #[trigger] final(self).kerning_spec(x, y)
                == old(self).kerning_spec(x, y),
            forall|c: char| #[trigger] final(self).glyph_spec(c) == old(self).glyph_spec(c),
            final(self).ascent_spec() == old(self).ascent_spec(),
            final(self).descent_spec() == old(self).descent_spec(),
            final(self).line_gap_spec() == old(self).line_gap_spec(),
            final(self).texture_spec() == old(self).texture_spec(),
    {
        let ia = (a as u32 - FIRST_GLYPH) as usize;
        let ib = (b as u32 - FIRST_GLYPH) as usize;
        assert(ia * GLYPH_COUNT + ib < GLYPH_COUNT * GLYPH_COUNT) by (nonlinear_arith)
            requires
                ia < GLYPH_COUNT,
                ib < GLYPH_COUNT,
        ;
        self.kerning.set(ia * GLYPH_COUNT + ib, Some(k));
        assert forall|x: char, y: char| !(x == a && y == b) implies #[trigger] self.kerning_spec(x, y)
            == old(self).kerning_spec(x, y) by {
            if in_range(x) && in_range(y) {
                lemma_char_code(x, a);
                lemma_char_code(y, b);
                let jx = (x as u32 - FIRST_GLYPH) as int;
                let jy = (y as u32 - FIRST_GLYPH) as int;
                assert(jx * GLYPH_COUNT + jy != ia * GLYPH_COUNT + ib && 0 <= jx * GLYPH_COUNT + jy
                    < GLYPH_COUNT * GLYPH_COUNT) by (nonlinear_arith)
                    requires
                        0 <= jx < GLYPH_COUNT,
                        0 <= jy < GLYPH_COUNT,
                        0 <= ia < GLYPH_COUNT,
                        0 <= ib < GLYPH_COUNT,
                        jx != ia || jy != ib,
                ;
            }
        }
    }

    /// Bakes the glyph of `ch` from its advance and raster. A raster with
    /// pixels gets a region of the atlas, with `ATLAS_PADDING` free pixels
    /// around it, which is returned so that the caller can copy the bitmap to
    /// its corner moved by the padding; an empty raster gets no image.
    /// `AtlasFull` when the atlas has no room left, and then the font is unchanged.
    pub fn bake_glyph(&mut self, packer: &mut ShelfPacker, ch: char, advance: i32, raster: GlyphRaster) -> (r: Result<Option<IRectangle>, AtlasFull>)
        requires
            old(self).wf(),
            old(packer).wf(),
            in_range(ch),
            metric_ok(advance as int),
            raster_ok(raster),
            insert_ok(old(packer)@, raster.width as int, raster.height as int, ATLAS_PADDING as int),
        ensures
            final(self).wf(),
            final(packer).wf(),
            forall|c: char| c != ch ==> #[trigger] final(self).glyph_spec(c) == old(self).glyph_spec(c),
            forall|a: char, b: char| #[trigger] final(self).kerning_spec(a, b) == old(self).kerning_spec(a, b),
            final(self).ascent_spec() == old(self).ascent_spec(),
            final(self).descent_spec() == old(self).descent_spec(),
            final(self).line_gap_spec() == old(self).line_gap_spec(),
            final(self).texture_spec() == old(self).texture_spec(),
            raster.width == 0 || raster.height == 0 ==> {
                &&& r == Ok::<Option<IRectangle>, AtlasFull>(None)
                &&& final(packer)@ == old(packer)@
                &&& final(self).glyph_spec(ch) == Some(baked_glyph(advance, raster, None))
            },
            raster.width > 0 && raster.height > 0 ==> {
                let (s, region) = place(
                    old(packer)@,
                    raster.width + 2 * ATLAS_PADDING,
                    raster.height + 2 * ATLAS_PADDING,
                );
                &&& final(packer)@ == s
                &&& match region {
                    Some(uv) => {
                        &&& r == Ok::<Option<IRectangle>, AtlasFull>(Some(uv))
                        &&& final(self).glyph_spec(ch) == Some(baked_glyph(advance, raster, Some(uv)))
                    },
                    None => {
                        &&& r == Err::<Option<IRectangle>, AtlasFull>(AtlasFull)
                        &&& final(self).glyph_spec(ch) == old(self).glyph_spec(ch)
                    },
                }
            },
    {
        if raster.width > 0 && raster.height > 0 {
            match packer.insert(raster.width, raster.height, ATLAS_PADDING) {
                Some(uv) => {
                    let image = SpriteFontGlyphImage {
                        offset_x: raster.xmin - ATLAS_PADDING * SUBPIXELS as i32,
                        offset_y: -raster.bounds_height - raster.ymin - ATLAS_PADDING * SUBPIXELS as i32,
                        uv,
                    };
                    self.set_glyph(ch, SpriteFontGlyph { advance, image: Some(image) });
                    Ok(Some(uv))
                },
                None => Err(AtlasFull),
            }
        } else {
            self.set_glyph(ch, SpriteFontGlyph { advance, image: None });
            Ok(None)
        }
    }
}

/// Opaque white, the color of plain text.
pub open spec fn white() -> Color {
    Color { r: 255, g: 255, b: 255, a: 255 }
}

/// The pen during layout: its position relative to the text's origin, in
/// fixed point, and the last character that had a glyph.
pub ghost struct Pen {
    pub x: int,
    pub y: int,
    pub last: Option<char>,
}

/// The pen before the first character: at the left edge, on the first
/// baseline, rounded down to whole pixels.
pub open spec fn start_pen(font: &SpriteFont) -> Pen {
    Pen { x: 0, y: snap(font.ascent_spec()), last: None }
}

/// One character of layout. A newline moves the pen to the start of the
/// next line; other control characters and characters without a glyph are
/// skipped. A glyph is kerned against the last glyph, drawn if it has an
/// image, and advances the pen.
pub open spec fn step(font: &SpriteFont, px: int, py: int, pen: Pen, item: (char, Color)) -> (Pen, Option<GlyphQuad>) {
    let (ch, color) = item;
    if is_control_spec(ch) {
        if ch == '\n' {
            (Pen { x: 0, y: pen.y + snap(font.line_height_spec()), last: pen.last }, None)
        } else {
            (pen, None)
        }
    } else {
        match font.glyph_spec(ch) {
            None => (pen, None),
            Some(g) => {
                let x = match pen.last {
                    Some(l) => match font.kerning_spec(l, ch) {
                        Some(k) => pen.x + k,
                        None => pen.x,
                    },
                    None => pen.x,
                };
                let quad = match g.image {
                    Some(img) => Some(
                        GlyphQuad {
                            x: floor_px(px + x + img.offset_x) as i64,
                            y: floor_px(py + pen.y + img.offset_y) as i64,
                            uv: img.uv,
                            color,
                        },
                    ),
                    None => None,
                };
                (Pen { x: x + g.advance, y: pen.y, last: Some(ch) }, quad)
            },
        }
    }
}

/// Lays out `items` in order from the start pen, at origin (`px`, `py`).
pub open spec fn run(font: &SpriteFont, px: int, py: int, items: Seq<(char, Color)>) -> (Pen, Seq<GlyphQuad>)
    decreases items.len(),
{
    if items.len() == 0 {
        (start_pen(font), seq![])
    } else {
        let (pen, quads) = run(font, px, py, items.drop_last());
        let (next, quad) = step(font, px, py, pen, items.last());
        (
            next,
            match quad {
                Some(q) => quads.push(q),
                None => quads,
            },
        )
    }
}

/// Each character of the segments, in order, with its segment's color.
pub open spec fn segment_items(segments: Seq<TextSegment>) -> Seq<(char, Color)>
    decreases segments.len(),
{
    if segments.len() == 0 {
        seq![]
    } else {
        let last = segments.last();
        segment_items(segments.drop_last()) + last.content@.map_values(|c: char| (c, last.color))
    }
}

/// The characters that layout reads: all of them, or the first `m` when
/// at most `m` are allowed. Every character counts, control characters and
/// characters without an image included.
pub open spec fn truncated(items: Seq<(char, Color)>, max_chars: Option<usize>) -> Seq<(char, Color)> {
    match max_chars {
        Some(m) => if m < items.len() {
            items.take(m as int)
        } else {
            items
        },
        None => items,
    }
}

/// The glyphs that laying out `segments` at (`px`, `py`) draws, in order.
pub open spec fn layout_spec(font: &SpriteFont, px: int, py: int, segments: Seq<TextSegment>, max_chars: Option<usize>) -> Seq<GlyphQuad> {
    run(font, px, py, truncated(segment_items(segments), max_chars)).1
}

/// How far the pen may be from the origin after `n` characters.
pub open spec fn pen_bound(n: int) -> int {
    (n + 1) * 4194304
}

proof fn lemma_floor_bounds(v: int)
    ensures
        v / (SUBPIXELS as int) * SUBPIXELS <= v,
        v < v / (SUBPIXELS as int) * SUBPIXELS + SUBPIXELS,
{
}

proof fn lemma_run_step(font: &SpriteFont, px: int, py: int, items: Seq<(char, Color)>, k: int)
    requires
        0 <= k < items.len(),
    ensures
        run(font, px, py, items.take(k + 1)) == ({
            let (pen, quads) = run(font, px, py, items.take(k));
            let (next, quad) = step(font, px, py, pen, items[k]);
            (
                next,
                match quad {
                    Some(q) => quads.push(q),
                    None => quads,
                },
            )
        }),
{
    assert(items.take(k + 1).drop_last() =~= items.take(k));
    assert(items.take(k + 1).last() == items[k]);
}

proof fn lemma_segment_items_step(segments: Seq<TextSegment>, i: int)
    requires
        0 <= i < segments.len(),
    ensures
        segment_items(segments.take(i + 1)) == segment_items(segments.take(i)) + segments[i].content@.map_values(
            |c: char| (c, segments[i].color),
        ),
{
    assert(segments.take(i + 1).drop_last() =~= segments.take(i));
    assert(segments.take(i + 1).last() == segments[i]);
}

/// Flattens the segments into characters with their colors.
fn flatten(segments: &[TextSegment]) -> (r: Vec<(char, Color)>)
    ensures
        r@ == segment_items(segments@),
{
    let mut items: Vec<(char, Color)> = Vec::new();
    let mut i: usize = 0;
    while i < segments.len()
        invariant
            i <= segments@.len(),
            items@ == segment_items(segments@.take(i as int)),
        decreases segments@.len() - i,
    {
        let seg = &segments[i];
        let color = seg.color;
        let ghost base = items@;
        for ch in it: seg.content.as_str().chars()
            invariant
                it.seq() == seg.content@,
                color == seg.color,
                items@ == base + seg.content@.take(it.index() as int).map_values(|c: char| (c, color)),
        {
            items.push((ch, color));
            assert(items@ =~= base + seg.content@.take(it.index() + 1).map_values(|c: char| (c, color)));
        }
        proof {
            assert(seg.content@.take(seg.content@.len() as int) =~= seg.content@);
            lemma_segment_items_step(segments@, i as int);
        }
        i = i + 1;
    }
    assert(segments@.take(segments@.len() as int) =~= segments@);
    items
}

/// Lays out rich text at (`x`, `y`), a point in fixed point: the glyphs to
/// draw, in order, each placed at whole pixels. At most `max_chars`
/// characters are read when that is given.
pub fn layout_text_segments(font: &SpriteFont, x: i32, y: i32, segments: &[TextSegment], max_chars: Option<usize>) -> (r: Vec<GlyphQuad>)
    requires
        font.wf(),
        segment_items(segments@).len() <= u32::MAX,
    ensures
        r@ == layout_spec(font, x as int, y as int, segments@, max_chars),
{
    let items = flatten(segments);
    let limit = match max_chars {
        Some(m) => if m < items.len() {
            m
        } else {
            items.len()
        },
        None => items.len(),
    };
    let ghost all = items@;
    let ghost read = truncated(all, max_chars);
    assert(read =~= all.take(limit as int));
    let mut quads: Vec<GlyphQuad> = Vec::new();
    proof {
        lemma_floor_bounds(font.ascent_spec());
    }
    let mut pen_x: i64 = 0;
    let mut pen_y: i64 = floor_div_px(font.ascent() as i64) * SUBPIXELS;
    let mut last: Option<char> = None;
    let line_step: i64 = floor_div_px(font.line_height() as i64) * SUBPIXELS;
    proof {
        lemma_floor_bounds(font.line_height_spec());
        assert(all.take(0) =~= Seq::<(char, Color)>::empty());
    }
    let mut k: usize = 0;
    while k < limit
        invariant
            font.wf(),
            items@ == all,
            limit <= all.len() <= u32::MAX,
            0 <= k <= limit,
            line_step == snap(font.line_height_spec()),
            -4194304 < line_step < 4194304,
            run(font, x as int, y as int, all.take(k as int)) == (Pen { x: pen_x as int, y: pen_y as int, last }, quads@),
            -pen_bound(k as int) <= pen_x <= pen_bound(k as int),
            -pen_bound(k as int) <= pen_y <= pen_bound(k as int),
        decreases limit - k,
    {
        let (ch, color) = items[k];
        proof {
            lemma_run_step(font, x as int, y as int, all, k as int);
        }
        if is_control(ch) {
            if ch == '\n' {
                pen_x = 0;
                pen_y = pen_y + line_step;
            }
        } else {
            match font.glyph(ch) {
                None => {},
                Some(g) => {
                    if let Some(l) = last {
                        if let Some(kern) = font.kerning(l, ch) {
                            pen_x = pen_x + kern as i64;
                        }
                    }
                    if let Some(img) = g.image {
                        let qx = floor_div_px(x as i64 + pen_x + img.offset_x as i64);
                        let qy = floor_div_px(y as i64 + pen_y + img.offset_y as i64);
                        quads.push(GlyphQuad { x: qx, y: qy, uv: img.uv, color });
                    }
                    pen_x = pen_x + g.advance as i64;
                    last = Some(ch);
                },
            }
        }
        k = k + 1;
    }
    quads
}

/// Lays out plain white text at (`x`, `y`), a point in fixed point.
pub fn layout_text(font: &SpriteFont, x: i32, y: i32, text: &str, max_chars: Option<usize>) -> (r: Vec<GlyphQuad>)
    requires
        font.wf(),
        text@.len() <= u32::MAX,
    ensures
        r@ == run(font, x as int, y as int, truncated(text@.map_values(|c: char| (c, white())), max_chars)).1,
{
    let segment = TextSegment::new(text.to_owned());
    let segments = [segment];
    proof {
        let s = segments@;
        assert(s.len() == 1);
        assert(s[0] == segment);
        assert(s.drop_last() =~= Seq::<TextSegment>::empty());
        assert(s.last().content@ == text@);
        assert(s.last().color == white());
        assert(segment_items(s.drop_last()) =~= Seq::<(char, Color)>::empty());
        assert(segment_items(s) =~= text@.map_values(|c: char| (c, white())));
    }
    layout_text_segments(font, x, y, &segments, max_chars)
}

impl TextSegment {
    /// A white segment.
    pub fn new(content: String) -> (r: TextSegment)
        ensures
            r.content@ == content@,
            r.color == white(),
    {
        TextSegment { content, color: Color::white() }
    }

    /// The segment drawn in `color`.
    pub fn color(self, color: Color) -> (r: TextSegment)
        ensures
            r.content@ == self.content@,
            r.color == color,
    {
        TextSegment { color, ..self }
    }
}

/// The character is drawn: it is not a control character and its glyph has an image.
pub open spec fn draws_quad(font: &SpriteFont, ch: char) -> bool {
    &&& !is_control_spec(ch)
    &&& font.glyph_spec(ch) matches Some(g)
    &&& g.image is Some
}

proof fn lemma_run_len(font: &SpriteFont, px: int, py: int, items: Seq<(char, Color)>)
    ensures
        run(font, px, py, items).1.len() <= items.len(),
        (forall|i: int| 0 <= i < items.len() ==> draws_quad(font, (#[trigger] items[i]).0))
            ==> run(font, px, py, items).1.len() == items.len(),
    decreases items.len(),
{
    if items.len() > 0 {
        let init = items.drop_last();
        lemma_run_len(font, px, py, init);
        if forall|i: int| 0 <= i < items.len() ==> draws_quad(font, (#[trigger] items[i]).0) {
            assert forall|i: int| 0 <= i < init.len() implies draws_quad(font, (#[trigger] init[i]).0) by {
                assert(init[i] == items[i]);
            }
            assert(draws_quad(font, items[items.len() - 1].0));
        }
    }
}

/// Layout reads at most `m` characters when `max_chars` is `Some(m)`, so it
/// draws at most `m` glyphs, whatever the length of the text; it draws
/// exactly `m` when the text has at least `m` characters and each of the
/// first `m` has an image.
pub proof fn lemma_truncation(font: &SpriteFont, px: int, py: int, segments: Seq<TextSegment>, m: usize)
    ensures
        layout_spec(font, px, py, segments, Some(m)).len() <= m,
        ({
            let items = segment_items(segments);
            m <= items.len() && (forall|i: int| 0 <= i < m ==> draws_quad(font, (#[trigger] items[i]).0))
        }) ==> layout_spec(font, px, py, segments, Some(m)).len() == m,
{
    let items = segment_items(segments);
    let read = truncated(items, Some(m));
    lemma_run_len(font, px, py, read);
    if m <= items.len() && (forall|i: int| 0 <= i < m ==> draws_quad(font, (#[trigger] items[i]).0)) {
        assert forall|i: int| 0 <= i < read.len() implies draws_quad(font, (#[trigger] read[i]).0) by {
            assert(read[i] == items[i]);
        }
    }
}

} // verus!
