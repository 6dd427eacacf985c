use nova::batch::TextureId;
use nova::color::Color;
use nova::packer::ShelfPacker;
use nova::rect::IRectangle;
use nova::text::{
    layout_text, layout_text_segments, AtlasFull, GlyphRaster, SpriteFont, SpriteFontGlyph,
    SpriteFontGlyphImage, TextSegment, ATLAS_PADDING, SUBPIXELS,
};

const PX: i32 = SUBPIXELS as i32;

fn uv(i: i32) -> IRectangle {
    IRectangle::new(i * 8, 0, 8, 8)
}

/// Every printable character has an image at the pen, `advance` pixels wide;
/// the space has none.
fn fixed_font(advance: i32, ascent: i32, descent: i32, line_gap: i32) -> SpriteFont {
    let mut font = SpriteFont::new(ascent * PX, descent * PX, line_gap * PX, TextureId(9));
    for c in 33u8..127 {
        let image = SpriteFontGlyphImage { offset_x: 0, offset_y: 0, uv: uv(c as i32) };
        font.set_glyph(c as char, SpriteFontGlyph { advance: advance * PX, image: Some(image) });
    }
    font.set_glyph(' ', SpriteFontGlyph { advance: advance * PX, image: None });
    font
}

fn positions(font: &SpriteFont, text: &str, max: Option<usize>) -> Vec<(i64, i64)> {
    layout_text(font, 0, 0, text, max).iter().map(|q| (q.x, q.y)).collect()
}

#[test]
fn simple_ascii_round_trip() {
    let a: i64 = 7;
    let font = fixed_font(a as i32, 10, -3, 1);
    let baseline: i64 = 10;
    let l: i64 = 10 + 3 + 1;
    assert_eq!(font.line_height(), l as i32 * PX);
    assert_eq!(
        positions(&font, "ab\ncd", None),
        vec![(0, baseline), (a, baseline), (0, baseline + l), (a, baseline + l)]
    );
}

#[test]
fn truncation_counts_every_character() {
    let font = fixed_font(5, 8, -2, 0);
    let quads = layout_text(&font, 0, 0, "abcdefghij", Some(3));
    assert_eq!(quads.len(), 3);
    assert_eq!(positions(&font, "a bcdefghi", Some(3)), vec![(0, 8), (10, 8)]);
    assert_eq!(layout_text(&font, 0, 0, "abc", Some(10)).len(), 3);
    assert_eq!(layout_text(&font, 0, 0, "abc", Some(0)).len(), 0);
}

#[test]
fn spaces_advance_without_a_quad() {
    let font = fixed_font(4, 6, -2, 0);
    assert_eq!(positions(&font, "a b", None), vec![(0, 6), (8, 6)]);
}

#[test]
fn control_characters_other_than_newline_are_skipped() {
    let font = fixed_font(4, 6, -2, 0);
    assert_eq!(positions(&font, "a\tb\rc", None), vec![(0, 6), (4, 6), (8, 6)]);
}

#[test]
fn characters_outside_the_font_are_skipped() {
    let font = fixed_font(4, 6, -2, 0);
    assert_eq!(positions(&font, "aéb", None), vec![(0, 6), (4, 6)]);
}

#[test]
fn kerning_moves_the_second_glyph() {
    let mut font = fixed_font(5, 8, -2, 0);
    font.set_kerning('A', 'V', -2 * PX);
    assert_eq!(font.kerning('A', 'V'), Some(-2 * PX));
    assert_eq!(font.kerning('V', 'A'), None);
    assert_eq!(positions(&font, "AVA", None), vec![(0, 8), (3, 8), (8, 8)]);
}

#[test]
fn fractional_positions_round_down() {
    let mut font = SpriteFont::new(10 * PX + 40, -3 * PX, 0, TextureId(1));
    let image = SpriteFontGlyphImage { offset_x: -PX / 2, offset_y: 0, uv: uv(0) };
    font.set_glyph('x', SpriteFontGlyph { advance: 3 * PX + PX / 2, image: Some(image) });
    let quads = layout_text(&font, PX / 4, 0, "xx", None);
    assert_eq!(quads.len(), 2);
    assert_eq!((quads[0].x, quads[0].y), (-1, 10));
    assert_eq!((quads[1].x, quads[1].y), (3, 10));
}

#[test]
fn segments_carry_their_colors() {
    let font = fixed_font(4, 6, -2, 0);
    let red = Color::rgb(255, 0, 0);
    let segments = vec![
        TextSegment::new("ab".to_string()),
        TextSegment::new("c".to_string()).color(red),
    ];
    let quads = layout_text_segments(&font, 0, 0, &segments, None);
    assert_eq!(quads.len(), 3);
    assert_eq!(quads[0].color, Color::white());
    assert_eq!(quads[1].color, Color::white());
    assert_eq!(quads[2].color, red);
    assert_eq!((quads[2].x, quads[2].y), (8, 6));
    assert_eq!(quads[2].uv, uv('c' as i32));
}

#[test]
fn origin_shifts_every_glyph() {
    let font = fixed_font(4, 6, -2, 0);
    let quads = layout_text(&font, 100 * PX, 50 * PX, "ab", None);
    assert_eq!((quads[0].x, quads[0].y), (100, 56));
    assert_eq!((quads[1].x, quads[1].y), (104, 56));
}

#[test]
fn baking_places_images_in_the_atlas() {
    let mut packer = ShelfPacker::new(32, 32);
    let mut font = SpriteFont::new(10 * PX, -2 * PX, 0, TextureId(3));
    let raster = GlyphRaster { width: 5, height: 7, xmin: PX, ymin: -PX, bounds_height: 7 * PX };
    let region = font.bake_glyph(&mut packer, 'a', 6 * PX, raster);
    assert_eq!(region, Ok(Some(IRectangle::new(0, 0, 7, 9))));
    let g = font.glyph('a').unwrap();
    assert_eq!(g.advance, 6 * PX);
    let img = g.image.unwrap();
    assert_eq!(img.uv, IRectangle::new(0, 0, 7, 9));
    assert_eq!(img.offset_x, PX - ATLAS_PADDING * PX);
    assert_eq!(img.offset_y, -7 * PX + PX - ATLAS_PADDING * PX);
    let empty = GlyphRaster { width: 0, height: 0, xmin: 0, ymin: 0, bounds_height: 0 };
    assert_eq!(font.bake_glyph(&mut packer, ' ', 3 * PX, empty), Ok(None));
    assert_eq!(font.glyph(' ').unwrap().image, None);
    assert_eq!(font.texture(), TextureId(3));
}

#[test]
fn baking_into_a_full_atlas_fails() {
    let mut packer = ShelfPacker::new(8, 8);
    let mut font = SpriteFont::new(8 * PX, 0, 0, TextureId(3));
    let big = GlyphRaster { width: 5, height: 6, xmin: 0, ymin: 0, bounds_height: 0 };
    assert_eq!(font.bake_glyph(&mut packer, 'a', PX, big), Err(AtlasFull));
    assert_eq!(font.glyph('a'), None);
}

#[test]
fn font_metrics_are_kept() {
    let font = SpriteFont::new(12 * PX, -4 * PX, 2 * PX, TextureId(5));
    assert_eq!(font.ascent(), 12 * PX);
    assert_eq!(font.descent(), -4 * PX);
    assert_eq!(font.line_gap(), 2 * PX);
    assert_eq!(font.line_height(), 18 * PX);
    assert_eq!(font.glyph('a'), None);
}
