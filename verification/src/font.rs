//! From display units and a font to the generated font model: which units can
//! be rendered, the missing-glyph policy, and the assembly of rasterized
//! glyphs into packed per-size bitmap tables.

use vstd::prelude::*;

use fontdue::{Font, FontSettings};

use crate::alpha::{
    all_nibbles, lemma_unpack_pack, pack_4bit_alpha, packed, packed_len, quantize_bitmap, quantized,
    unpacked,
};
use crate::chars::{is_single_scalar, single_scalar, string_views, CharacterSet};
use crate::config::{GenerationSettings, MissingGlyphPolicy};
use crate::error::{invalid_setting, AppError, ErrorView};
use crate::model::{
    reason_text, GeneratedFont, GeneratedFontSize, Glyph, MissingGlyph, MissingGlyphReason,
};
use crate::text::{join, push_str};

verus! {

/// `fontdue::Font`, declared so that a parsed font can be held and passed
/// on; nothing inside it is visible here.
#[verifier::external_type_specification]
#[verifier::external_body]
pub struct ExFont(Font);

/// Why `fontdue` refuses the given font bytes, as text; `None` when it
/// parses them.
pub uninterp spec fn font_parse_error(data: Seq<u8>) -> Option<Seq<char>>;

/// `Font::from_bytes(data, FontSettings::default())`: the parsed font is
/// held together with the very bytes it was parsed from, and a parse failure
/// is returned as its message. Whether the bytes parse, and the message, are
/// named as a function of the bytes; the parsed font itself is opaque.
#[verifier::external_body]
fn font_from_bytes(data: Vec<u8>) -> (result: Result<FontRasterizer, String>)
    ensures
        match result {
            Ok(r) => font_parse_error(data@) is None && r.font_data() == data@,
            Err(message) => font_parse_error(data@) == Some(message@),
        },
{
    match Font::from_bytes(data.as_slice(), FontSettings::default()) {
        Ok(font) => Ok(FontRasterizer { font, data }),
        Err(message) => Err(message.to_string()),
    }
}

/// Whether the font that `fontdue` parses from `data` (with its default
/// settings) maps `character` to a glyph.
pub uninterp spec fn font_maps_char(data: Seq<u8>, character: char) -> bool;

/// A loaded font, ready to tell which display units it can render, with the
/// bytes it was parsed from. Only `font_from_bytes` makes one, so the font
/// is always the one those bytes give.
pub struct FontRasterizer {
    font: Font,
    data: Vec<u8>,
}

/// `Font::has_glyph` on the rasterizer's font: whether its character map
/// holds the character. The font is the one `fontdue` parsed from the bytes
/// held beside it (both are set together in `font_from_bytes` alone), so the
/// answer is named as a function of those bytes and the character.
#[verifier::external_body]
fn font_has_glyph(rasterizer: &FontRasterizer, character: char) -> (found: bool)
    ensures
        found == font_maps_char(rasterizer.font_data(), character),
{
    rasterizer.font.has_glyph(character)
}

/// The font's answers for the display units, in order: whether a unit is a
/// single character that the font maps.
pub open spec fn glyph_answers(data: Seq<u8>, units: Seq<Seq<char>>) -> Seq<bool> {
    units.map_values(|u: Seq<char>| is_single_scalar(u) && font_maps_char(data, u[0]))
}

/// How a display unit resolves, given whether the font has a glyph for its
/// only character: multi-scalar clusters are unsupported, single scalars
/// render when the font has their glyph.
pub open spec fn resolution(unit: Seq<char>, has_glyph: bool) -> Result<char, MissingGlyphReason> {
    if !is_single_scalar(unit) {
        Err(MissingGlyphReason::UnsupportedCluster)
    } else if has_glyph {
        Ok(unit[0])
    } else {
        Err(MissingGlyphReason::NoFontGlyph)
    }
}

/// The units that render, each with its character, given the font's answers.
pub open spec fn renderable_units(units: Seq<Seq<char>>, found: Seq<bool>) -> Seq<(Seq<char>, char)>
    decreases units.len(),
{
    if units.len() == 0 {
        Seq::empty()
    } else {
        let rest = renderable_units(units.drop_last(), found.drop_last());
        match resolution(units.last(), found.last()) {
            Ok(c) => rest.push((units.last(), c)),
            Err(_) => rest,
        }
    }
}

/// The units that do not render, each with its reason, given the font's answers.
pub open spec fn missing_units(units: Seq<Seq<char>>, found: Seq<bool>) -> Seq<
    (Seq<char>, MissingGlyphReason),
>
    decreases units.len(),
{
    if units.len() == 0 {
        Seq::empty()
    } else {
        let rest = missing_units(units.drop_last(), found.drop_last());
        match resolution(units.last(), found.last()) {
            Ok(_) => rest,
            Err(reason) => rest.push((units.last(), reason)),
        }
    }
}

/// The renderable units of a plan, as text and character.
pub open spec fn renderable_view(units: Seq<(String, char)>) -> Seq<(Seq<char>, char)> {
    units.map_values(|u: (String, char)| (u.0@, u.1))
}

/// The missing units of a plan, as text and reason.
pub open spec fn missing_view(missing: Seq<MissingGlyph>) -> Seq<(Seq<char>, MissingGlyphReason)> {
    missing.map_values(|m: MissingGlyph| (m.display_unit@, m.reason))
}

/// `{unit} ({reason})`.
pub open spec fn missing_entry(missing: (Seq<char>, MissingGlyphReason)) -> Seq<char> {
    missing.0 + " ("@ + reason_text(missing.1) + ")"@
}

/// The missing units listed as `unit (reason)`, separated by `, `.
pub open spec fn missing_list(missing: Seq<(Seq<char>, MissingGlyphReason)>) -> Seq<char> {
    join(
        missing.map_values(|m: (Seq<char>, MissingGlyphReason)| missing_entry(m)),
        seq![',', ' '],
    )
}

/// The units that the font renders, and those it does not.
pub struct RasterPlan {
    pub renderable: Vec<(String, char)>,
    pub missing_glyphs: Vec<MissingGlyph>,
}

/// Lists the missing units as `unit (reason)`, separated by `, `.
pub fn format_missing_glyphs(missing_glyphs: &Vec<MissingGlyph>) -> (text: String)
    ensures
        text@ == missing_list(missing_view(missing_glyphs@)),
{
    let ghost entries = missing_view(missing_glyphs@).map_values(
        |m: (Seq<char>, MissingGlyphReason)| missing_entry(m),
    );
    let mut text = String::new();
    let mut i: usize = 0;
    while i < missing_glyphs.len()
        invariant
            i <= missing_glyphs@.len(),
            entries == missing_view(missing_glyphs@).map_values(
                |m: (Seq<char>, MissingGlyphReason)| missing_entry(m),
            ),
            text@ == join(entries.take(i as int), seq![',', ' ']),
        decreases missing_glyphs.len() - i,
    {
        if i > 0 {
            push_str(&mut text, ", ");
            proof {
                reveal_strlit(", ");
            }
        }
        let missing = &missing_glyphs[i];
        push_str(&mut text, missing.display_unit.as_str());
        push_str(&mut text, " (");
        push_str(&mut text, missing.reason.as_text());
        push_str(&mut text, ")");
        proof {
            let t = entries.take(i + 1);
            assert(t.drop_last() == entries.take(i as int));
            assert(t.last() == missing_entry((missing.display_unit@, missing.reason)));
            if i == 0 {
                assert(t.len() == 1);
            }
        }
        i += 1;
    }
    assert(entries.take(i as int) == entries);
    text
}

impl FontRasterizer {
    /// The bytes the font was parsed from.
    pub closed spec fn font_data(&self) -> Seq<u8> {
        self.data@
    }

    /// The font the rasterizer holds, parsed from `font_data`.
    pub closed spec fn parsed_font(&self) -> Font {
        self.font
    }

    /// Parses font bytes read from `path`. A parse failure is reported as
    /// `FontParse` for that path.
    pub fn load(path: &str, data: Vec<u8>) -> (result: Result<FontRasterizer, AppError>)
        ensures
            match font_parse_error(data@) {
                Some(message) => result matches Err(e) && e@ == (ErrorView::FontParse {
                    path: path@,
                    message,
                }),
                None => result matches Ok(r) && r.font_data() == data@,
            },
    {
        match font_from_bytes(data) {
            Ok(rasterizer) => Ok(rasterizer),
            Err(message) => Err(AppError::FontParse { path: String::from_str(path), message }),
        }
    }

    /// The loaded font: the one the rasterizer holds.
    pub fn font(&self) -> (font: &Font)
        ensures
            *font == self.parsed_font(),
    {
        &self.font
    }

    /// Resolves a display unit to the character to rasterize: multi-scalar
    /// clusters are unsupported; a single scalar resolves when the font has
    /// its glyph.
    pub fn resolve_char(&self, unit: &str) -> (result: Result<char, MissingGlyphReason>)
        ensures
            !is_single_scalar(unit@) ==> result == Err::<char, MissingGlyphReason>(
                MissingGlyphReason::UnsupportedCluster,
            ),
            result == resolution(unit@, font_maps_char(self.font_data(), unit@[0])),
    {
        match single_scalar(unit) {
            None => Err(MissingGlyphReason::UnsupportedCluster),
            Some(character) => {
                if font_has_glyph(self, character) {
                    Ok(character)
                } else {
                    Err(MissingGlyphReason::NoFontGlyph)
                }
            },
        }
    }

    /// Sorts the display units into those the font renders and those it does
    /// not, in order. Under the `error` policy any missing unit stops
    /// generation with the list of missing units.
    pub fn plan(&self, settings: &GenerationSettings, characters: &CharacterSet) -> (result: Result<
        RasterPlan,
        AppError,
    >)
        ensures
            plan_outcome(
                result,
                settings.missing_glyphs,
                characters@,
                glyph_answers(self.font_data(), characters@),
            ),
    {
        let units = characters.display_units();
        let ghost answers = glyph_answers(self.font_data(), characters@);
        let mut found: Vec<bool> = Vec::new();
        let mut i: usize = 0;
        while i < units.len()
            invariant
                i <= units@.len(),
                string_views(units@) == characters@,
                answers == glyph_answers(self.font_data(), characters@),
                found@ == answers.take(i as int),
            decreases units.len() - i,
        {
            let unit = &units[i];
            let has = match single_scalar(unit.as_str()) {
                Some(character) => font_has_glyph(self, character),
                None => false,
            };
            proof {
                assert(characters@[i as int] == unit@);
            }
            found.push(has);
            assert(found@ == answers.take(i + 1));
            i += 1;
        }
        assert(answers.take(i as int) == answers);
        plan_units(settings.missing_glyphs, characters, &found)
    }
}

/// What planning gives for the display units and the font's answers: the
/// renderable and missing units in order, or, under the `error` policy with a
/// missing unit, the list of missing units.
pub open spec fn plan_outcome(
    result: Result<RasterPlan, AppError>,
    policy: MissingGlyphPolicy,
    units: Seq<Seq<char>>,
    found: Seq<bool>,
) -> bool {
    match result {
        Ok(plan) => {
            &&& renderable_view(plan.renderable@) == renderable_units(units, found)
            &&& missing_view(plan.missing_glyphs@) == missing_units(units, found)
            &&& (policy == MissingGlyphPolicy::Skip || missing_units(units, found).len() == 0)
        },
        Err(e) => {
            &&& policy == MissingGlyphPolicy::Error
            &&& missing_units(units, found).len() > 0
            &&& e@ == ErrorView::MissingGlyphs(missing_list(missing_units(units, found)))
        },
    }
}

/// Sorts the display units by the font's answers (`found[i]`: whether the
/// font maps unit `i`'s only character) and applies the missing-glyph policy.
pub fn plan_units(policy: MissingGlyphPolicy, characters: &CharacterSet, found: &Vec<bool>) -> (result: Result<
    RasterPlan,
    AppError,
>)
    requires
        found@.len() == characters@.len(),
    ensures
        plan_outcome(result, policy, characters@, found@),
{
    let units = characters.display_units();
    let mut renderable: Vec<(String, char)> = Vec::new();
    let mut missing_glyphs: Vec<MissingGlyph> = Vec::new();
    let mut i: usize = 0;
    while i < units.len()
        invariant
            i <= units@.len(),
            found@.len() == units@.len(),
            string_views(units@) == characters@,
            renderable_view(renderable@) == renderable_units(
                characters@.take(i as int),
                found@.take(i as int),
            ),
            missing_view(missing_glyphs@) == missing_units(
                characters@.take(i as int),
                found@.take(i as int),
            ),
        decreases units.len() - i,
    {
        let unit = &units[i];
        let resolved = match single_scalar(unit.as_str()) {
            None => Err(MissingGlyphReason::UnsupportedCluster),
            Some(character) => if found[i] {
                Ok(character)
            } else {
                Err(MissingGlyphReason::NoFontGlyph)
            },
        };
        proof {
            assert(resolved == resolution(unit@, found@[i as int]));
            assert(characters@.take(i + 1).drop_last() == characters@.take(i as int));
            assert(characters@.take(i + 1).last() == unit@);
            assert(found@.take(i + 1).drop_last() == found@.take(i as int));
            assert(found@.take(i + 1).last() == found@[i as int]);
        }
        match resolved {
            Ok(character) => {
                let ghost prev = renderable@;
                renderable.push((unit.clone(), character));
                assert(renderable_view(renderable@) =~= renderable_view(prev).push(
                    (unit@, character),
                ));
            },
            Err(reason) => {
                let ghost prev = missing_glyphs@;
                missing_glyphs.push(MissingGlyph { display_unit: unit.clone(), reason });
                assert(missing_view(missing_glyphs@) =~= missing_view(prev).push(
                    (unit@, reason),
                ));
            },
        }
        i += 1;
    }
    assert(characters@.take(i as int) == characters@);
    assert(found@.take(i as int) == found@);
    let is_error = match policy {
        MissingGlyphPolicy::Error => true,
        MissingGlyphPolicy::Skip => false,
    };
    if is_error && missing_glyphs.len() != 0 {
        let list = format_missing_glyphs(&missing_glyphs);
        return Err(AppError::MissingGlyphs(list));
    }
    Ok(RasterPlan { renderable, missing_glyphs })
}


/// A glyph as `fontdue` rasterized it: bitmap dimensions, advance rounded to
/// whole pixels (`None` when it does not fit an `i32`), bearings, and 8-bit
/// coverage, row-major.
pub struct RasterizedGlyph {
    pub width: usize,
    pub height: usize,
    pub advance_x: Option<i32>,
    pub bearing_x: i32,
    pub bearing_y: i32,
    pub coverage: Vec<u8>,
}

/// The pixel size of `fontdue` rasterization, which takes sizes that fit 16 bits.
pub open spec fn pixel_size_result(pixel_size: u32) -> Result<u16, ErrorView> {
    if pixel_size > 65535 {
        Err(
            invalid_setting(
                "generation.sizes"@,
                "fontdue rasterization supports sizes up to 65535 pixels"@,
            ),
        )
    } else {
        Ok(pixel_size as u16)
    }
}

/// The pixel size for `fontdue`, which the caller turns into its float scale.
pub fn pixel_size_to_u16(pixel_size: u32) -> (result: Result<u16, AppError>)
    ensures
        match pixel_size_result(pixel_size) {
            Ok(px) => result == Ok::<u16, AppError>(px),
            Err(e) => result matches Err(x) && x@ == e,
        },
{
    if pixel_size > 65535 {
        Err(
            AppError::InvalidSetting {
                setting: "generation.sizes",
                message: String::from_str("fontdue rasterization supports sizes up to 65535 pixels"),
            },
        )
    } else {
        Ok(pixel_size as u16)
    }
}

/// The packed 4-bit bitmap of 8-bit coverage.
pub open spec fn glyph_bitmap(coverage: Seq<u8>) -> Seq<u8> {
    packed(coverage.map_values(|c: u8| quantized(c)))
}

/// Byte sequences laid end to end.
pub open spec fn concat_bytes(chunks: Seq<Seq<u8>>) -> Seq<u8>
    decreases chunks.len(),
{
    if chunks.len() == 0 {
        Seq::empty()
    } else {
        concat_bytes(chunks.drop_last()) + chunks.last()
    }
}

/// The packed bitmaps of the rasterized glyphs, in order.
pub open spec fn raster_bitmaps(rasters: Seq<RasterizedGlyph>) -> Seq<Seq<u8>> {
    rasters.map_values(|r: RasterizedGlyph| glyph_bitmap(r.coverage@))
}

/// Why a rasterized glyph cannot enter the model, if it cannot: a dimension
/// beyond `u32`, or an advance beyond `i32`.
pub open spec fn raster_error(key: Seq<char>, raster: RasterizedGlyph) -> Option<ErrorView> {
    if raster.width > u32::MAX {
        Some(ErrorView::MetricOverflow { glyph: key, metric: "width"@ })
    } else if raster.height > u32::MAX {
        Some(ErrorView::MetricOverflow { glyph: key, metric: "height"@ })
    } else if raster.advance_x is None {
        Some(ErrorView::MetricOverflow { glyph: key, metric: "advance_x"@ })
    } else {
        None
    }
}

/// The error of the first glyph, in order, that cannot enter the model.
pub open spec fn first_raster_error(keys: Seq<Seq<char>>, rasters: Seq<RasterizedGlyph>) -> Option<
    ErrorView,
>
    decreases rasters.len(),
{
    if rasters.len() == 0 {
        None
    } else {
        match first_raster_error(keys, rasters.drop_last()) {
            Some(e) => Some(e),
            None => raster_error(keys[rasters.len() - 1], rasters.last()),
        }
    }
}

/// Glyph `i` of an assembled size describes raster `i`: its key, the byte
/// range of its packed bitmap, its dimensions and its metrics.
pub open spec fn glyph_describes(
    glyph: Glyph,
    key: Seq<char>,
    raster: RasterizedGlyph,
    offset: nat,
    len: nat,
) -> bool {
    &&& glyph.key@ == key
    &&& glyph.bitmap_offset == offset
    &&& glyph.bitmap_len == len
    &&& glyph.width == raster.width
    &&& glyph.height == raster.height
    &&& raster.advance_x == Some(glyph.advance_x)
    &&& glyph.bearing_x == raster.bearing_x
    &&& glyph.bearing_y == raster.bearing_y
}

/// The size holds one glyph per raster, in order, and the packed bitmaps
/// laid end to end; each glyph's range is that of its own bitmap.
pub open spec fn assembled_from(
    size: GeneratedFontSize,
    pixel_size: u32,
    keys: Seq<Seq<char>>,
    rasters: Seq<RasterizedGlyph>,
) -> bool {
    let bitmaps = raster_bitmaps(rasters);
    &&& size.pixel_size == pixel_size
    &&& size.glyphs@.len() == rasters.len()
    &&& size.bitmap_data@ == concat_bytes(bitmaps)
    &&& forall|i: int|
        0 <= i < rasters.len() ==> glyph_describes(
            #[trigger] size.glyphs@[i],
            keys[i],
            rasters[i],
            concat_bytes(bitmaps.take(i)).len(),
            bitmaps[i].len(),
        )
}

/// The keys of the renderable units.
pub open spec fn unit_keys(units: Seq<(String, char)>) -> Seq<Seq<char>> {
    units.map_values(|u: (String, char)| u.0@)
}

/// Builds the model of one size from the rasterized glyphs of the renderable
/// units: each coverage bitmap is quantized to 4-bit alpha and packed, and
/// appended to the size's bitmap data.
pub fn assemble_size(
    pixel_size: u32,
    units: &Vec<(String, char)>,
    rasters: &Vec<RasterizedGlyph>,
) -> (result: Result<GeneratedFontSize, AppError>)
    requires
        rasters@.len() == units@.len(),
    ensures
        match first_raster_error(unit_keys(units@), rasters@) {
            Some(e) => result matches Err(x) && x@ == e,
            None => result matches Ok(size) && assembled_from(
                size,
                pixel_size,
                unit_keys(units@),
                rasters@,
            ),
        },
{
    let ghost keys = unit_keys(units@);
    let ghost bitmaps = raster_bitmaps(rasters@);
    let mut glyphs: Vec<Glyph> = Vec::new();
    let mut bitmap_data: Vec<u8> = Vec::new();
    let mut i: usize = 0;
    while i < rasters.len()
        invariant
            i <= rasters@.len(),
            rasters@.len() == units@.len(),
            keys == unit_keys(units@),
            bitmaps == raster_bitmaps(rasters@),
            first_raster_error(keys, rasters@.take(i as int)) is None,
            glyphs@.len() == i,
            bitmap_data@ == concat_bytes(bitmaps.take(i as int)),
            forall|j: int|
                0 <= j < i ==> glyph_describes(
                    #[trigger] glyphs@[j],
                    keys[j],
                    rasters@[j],
                    concat_bytes(bitmaps.take(j)).len(),
                    bitmaps[j].len(),
                ),
        decreases rasters.len() - i,
    {
        let raster = &rasters[i];
        let key = &units[i].0;
        proof {
            assert(rasters@.take(i + 1).drop_last() == rasters@.take(i as int));
            assert(bitmaps.take(i + 1).drop_last() == bitmaps.take(i as int));
            assert(first_raster_error(keys, rasters@.take(i + 1)) == raster_error(
                keys[i as int],
                rasters@[i as int],
            )) by {
                assert(rasters@.take(i + 1).last() == rasters@[i as int]);
                assert(rasters@.take(i + 1).len() - 1 == i);
            }
            assert(keys[i as int] == key@);
        }
        let alpha = quantize_bitmap(raster.coverage.as_slice());
        let mut bytes = pack_4bit_alpha(alpha.as_slice());
        assert(bytes@ == bitmaps[i as int]);
        let bitmap_offset = bitmap_data.len();
        let bitmap_len = bytes.len();
        bitmap_data.append(&mut bytes);
        if raster.width > u32::MAX as usize {
            proof {
                lemma_first_error_persists(keys, rasters@, i as int, rasters@.len() as int);
                assert(rasters@.take(rasters@.len() as int) == rasters@);
            }
            return Err(AppError::MetricOverflow { glyph: key.clone(), metric: "width" });
        }
        if raster.height > u32::MAX as usize {
            proof {
                lemma_first_error_persists(keys, rasters@, i as int, rasters@.len() as int);
                assert(rasters@.take(rasters@.len() as int) == rasters@);
            }
            return Err(AppError::MetricOverflow { glyph: key.clone(), metric: "height" });
        }
        let advance_x = match raster.advance_x {
            Some(a) => a,
            None => {
                proof {
                    lemma_first_error_persists(keys, rasters@, i as int, rasters@.len() as int);
                    assert(rasters@.take(rasters@.len() as int) == rasters@);
                }
                return Err(AppError::MetricOverflow { glyph: key.clone(), metric: "advance_x" });
            },
        };
        glyphs.push(
            Glyph {
                key: key.clone(),
                bitmap_offset,
                bitmap_len,
                width: raster.width as u32,
                height: raster.height as u32,
                advance_x,
                bearing_x: raster.bearing_x,
                bearing_y: raster.bearing_y,
            },
        );
        i += 1;
    }
    assert(rasters@.take(i as int) == rasters@);
    assert(bitmaps.take(i as int) == bitmaps);
    Ok(GeneratedFontSize { pixel_size, glyphs, bitmap_data })
}

proof fn lemma_first_error_persists(
    keys: Seq<Seq<char>>,
    rasters: Seq<RasterizedGlyph>,
    i: int,
    k: int,
)
    requires
        0 <= i < k <= rasters.len(),
        first_raster_error(keys, rasters.take(i)) is None,
        raster_error(keys[i], rasters[i]) is Some,
    ensures
        first_raster_error(keys, rasters.take(k)) == raster_error(keys[i], rasters[i]),
    decreases k - i,
{
    if k == i + 1 {
        assert(rasters.take(k).drop_last() == rasters.take(i));
        assert(rasters.take(k).last() == rasters[i]);
    } else {
        lemma_first_error_persists(keys, rasters, i, k - 1);
        assert(rasters.take(k).drop_last() == rasters.take(k - 1));
    }
}

/// Laying out one more chunk appends it.
proof fn lemma_concat_bytes_step(chunks: Seq<Seq<u8>>, i: int)
    requires
        0 <= i < chunks.len(),
    ensures
        concat_bytes(chunks.take(i + 1)) == concat_bytes(chunks.take(i)) + chunks[i],
{
    assert(chunks.take(i + 1).drop_last() == chunks.take(i));
    assert(chunks.take(i + 1).last() == chunks[i]);
}

/// The chunks before `i`, then chunk `i`, begin the layout of the first `k`
/// chunks.
proof fn lemma_concat_bytes_prefix(chunks: Seq<Seq<u8>>, i: int, k: int)
    requires
        0 <= i < k <= chunks.len(),
    ensures
        concat_bytes(chunks.take(i)).len() + chunks[i].len() <= concat_bytes(chunks.take(k)).len(),
        concat_bytes(chunks.take(k)).subrange(
            concat_bytes(chunks.take(i)).len() as int,
            (concat_bytes(chunks.take(i)).len() + chunks[i].len()) as int,
        ) == chunks[i],
    decreases k - i,
{
    lemma_concat_bytes_step(chunks, i);
    if k > i + 1 {
        lemma_concat_bytes_prefix(chunks, i, k - 1);
        lemma_concat_bytes_step(chunks, k - 1);
        let head = concat_bytes(chunks.take(k - 1));
        let start = concat_bytes(chunks.take(i)).len() as int;
        assert((head + chunks[k - 1]).subrange(start, start + chunks[i].len()) == head.subrange(
            start,
            start + chunks[i].len(),
        ));
    } else {
        let start = concat_bytes(chunks.take(i)).len() as int;
        assert((concat_bytes(chunks.take(i)) + chunks[i]).subrange(start, start + chunks[i].len())
            == chunks[i]);
    }
}

/// In an assembled size, the byte range of each glyph holds the packed 4-bit
/// alpha of its coverage, and unpacking that range gives back, pixel for
/// pixel, the coverage quantized with rounding.
pub proof fn assembled_glyph_bitmap(
    size: GeneratedFontSize,
    pixel_size: u32,
    keys: Seq<Seq<char>>,
    rasters: Seq<RasterizedGlyph>,
    i: int,
)
    requires
        assembled_from(size, pixel_size, keys, rasters),
        0 <= i < rasters.len(),
    ensures
        size.glyphs@[i].bitmap_offset + size.glyphs@[i].bitmap_len <= size.bitmap_data@.len(),
        size.bitmap_data@.subrange(
            size.glyphs@[i].bitmap_offset as int,
            (size.glyphs@[i].bitmap_offset + size.glyphs@[i].bitmap_len) as int,
        ) == glyph_bitmap(rasters[i].coverage@),
        unpacked(
            size.bitmap_data@.subrange(
                size.glyphs@[i].bitmap_offset as int,
                (size.glyphs@[i].bitmap_offset + size.glyphs@[i].bitmap_len) as int,
            ),
            rasters[i].coverage@.len(),
        ) == rasters[i].coverage@.map_values(|c: u8| quantized(c)),
{
    let bitmaps = raster_bitmaps(rasters);
    assert(glyph_describes(
        size.glyphs@[i],
        keys[i],
        rasters[i],
        concat_bytes(bitmaps.take(i)).len(),
        bitmaps[i].len(),
    ));
    lemma_concat_bytes_prefix(bitmaps, i, bitmaps.len() as int);
    assert(bitmaps.take(bitmaps.len() as int) == bitmaps);
    let alpha = rasters[i].coverage@.map_values(|c: u8| quantized(c));
    assert(all_nibbles(alpha));
    lemma_unpack_pack(alpha);
}

/// Why one configured size cannot be assembled, if it cannot: a pixel size
/// beyond `fontdue`'s range, or the first glyph that cannot enter the model.
pub open spec fn size_error(
    pixel_size: u32,
    keys: Seq<Seq<char>>,
    rasters: Seq<RasterizedGlyph>,
) -> Option<ErrorView> {
    match pixel_size_result(pixel_size) {
        Err(e) => Some(e),
        Ok(_) => first_raster_error(keys, rasters),
    }
}

/// The rasterized glyphs of each size.
pub open spec fn raster_views(rasters: Seq<Vec<RasterizedGlyph>>) -> Seq<Seq<RasterizedGlyph>> {
    rasters.map_values(|r: Vec<RasterizedGlyph>| r@)
}

/// The error of the first configured size, in order, that cannot be
/// assembled, if any cannot.
pub open spec fn model_error(
    pixel_sizes: Seq<u32>,
    keys: Seq<Seq<char>>,
    rasters: Seq<Seq<RasterizedGlyph>>,
) -> Option<ErrorView>
    decreases pixel_sizes.len(),
{
    if pixel_sizes.len() == 0 {
        None
    } else {
        match model_error(pixel_sizes.drop_last(), keys, rasters) {
            Some(e) => Some(e),
            None => size_error(
                pixel_sizes.last(),
                keys,
                rasters[pixel_sizes.len() - 1],
            ),
        }
    }
}

proof fn lemma_model_error_persists(
    pixel_sizes: Seq<u32>,
    keys: Seq<Seq<char>>,
    rasters: Seq<Seq<RasterizedGlyph>>,
    i: int,
    k: int,
)
    requires
        0 <= i < k <= pixel_sizes.len(),
        model_error(pixel_sizes.take(i), keys, rasters) is None,
        size_error(pixel_sizes[i], keys, rasters[i]) is Some,
    ensures
        model_error(pixel_sizes.take(k), keys, rasters) == size_error(
            pixel_sizes[i],
            keys,
            rasters[i],
        ),
    decreases k - i,
{
    if k == i + 1 {
        assert(pixel_sizes.take(k).drop_last() == pixel_sizes.take(i));
        assert(pixel_sizes.take(k).last() == pixel_sizes[i]);
    } else {
        lemma_model_error_persists(pixel_sizes, keys, rasters, i, k - 1);
        assert(pixel_sizes.take(k).drop_last() == pixel_sizes.take(k - 1));
    }
}

/// The generated model: named after the output, with one size per configured
/// pixel size, in configured order, each assembled from that size's
/// rasterized glyphs of the plan's renderable units, and the plan's missing
/// units. The first size that cannot be assembled stops generation with its
/// error. `rasters[i]` are the glyphs rasterized at `settings.sizes[i]`; a size
/// beyond `fontdue`'s range is reported before its glyphs are looked at.
pub fn generate_font_model(
    settings: &GenerationSettings,
    plan: RasterPlan,
    rasters: &Vec<Vec<RasterizedGlyph>>,
) -> (result: Result<GeneratedFont, AppError>)
    requires
        rasters@.len() == settings.sizes@.len(),
        forall|i: int|
            0 <= i < settings.sizes@.len() && (#[trigger] pixel_size_result(settings.sizes@[i]))
                is Ok ==> rasters@[i]@.len() == plan.renderable@.len(),
    ensures
        match model_error(
            settings.sizes@,
            unit_keys(plan.renderable@),
            raster_views(rasters@),
        ) {
            Some(e) => result matches Err(x) && x@ == e,
            None => result matches Ok(font) && {
                &&& font.name@ == settings.output_name@
                &&& font.missing_glyphs@ == plan.missing_glyphs@
                &&& font.sizes@.len() == settings.sizes@.len()
                &&& font.sizes@.map_values(|z: GeneratedFontSize| z.pixel_size) == settings.sizes@
                &&& forall|i: int|
                    0 <= i < settings.sizes@.len() ==> assembled_from(
                        #[trigger] font.sizes@[i],
                        settings.sizes@[i],
                        unit_keys(plan.renderable@),
                        rasters@[i]@,
                    )
            },
        },
{
    let ghost keys = unit_keys(plan.renderable@);
    let ghost views = raster_views(rasters@);
    let mut sizes: Vec<GeneratedFontSize> = Vec::new();
    let mut i: usize = 0;
    while i < settings.sizes.len()
        invariant
            i <= settings.sizes@.len(),
            rasters@.len() == settings.sizes@.len(),
            forall|j: int|
                0 <= j < settings.sizes@.len() && (#[trigger] pixel_size_result(settings.sizes@[j]))
                    is Ok ==> rasters@[j]@.len() == plan.renderable@.len(),
            keys == unit_keys(plan.renderable@),
            views == raster_views(rasters@),
            model_error(settings.sizes@.take(i as int), keys, views) is None,
            sizes@.len() == i,
            forall|j: int|
                0 <= j < i ==> assembled_from(
                    #[trigger] sizes@[j],
                    settings.sizes@[j],
                    keys,
                    rasters@[j]@,
                ),
        decreases settings.sizes.len() - i,
    {
        let pixel_size = settings.sizes[i];
        proof {
            assert(views[i as int] == rasters@[i as int]@);
            assert(settings.sizes@.take(i + 1).drop_last() == settings.sizes@.take(i as int));
            assert(settings.sizes@.take(i + 1).last() == pixel_size);
        }
        match pixel_size_to_u16(pixel_size) {
            Ok(_) => {},
            Err(e) => {
                proof {
                    lemma_model_error_persists(
                        settings.sizes@,
                        keys,
                        views,
                        i as int,
                        settings.sizes@.len() as int,
                    );
                    assert(settings.sizes@.take(settings.sizes@.len() as int) == settings.sizes@);
                }
                return Err(e);
            },
        }
        assert(pixel_size_result(settings.sizes@[i as int]) is Ok);
        match assemble_size(pixel_size, &plan.renderable, &rasters[i]) {
            Ok(size) => {
                sizes.push(size);
            },
            Err(e) => {
                proof {
                    lemma_model_error_persists(
                        settings.sizes@,
                        keys,
                        views,
                        i as int,
                        settings.sizes@.len() as int,
                    );
                    assert(settings.sizes@.take(settings.sizes@.len() as int) == settings.sizes@);
                }
                return Err(e);
            },
        }
        i += 1;
    }
    assert(settings.sizes@.take(i as int) == settings.sizes@);
    assert(sizes@.map_values(|z: GeneratedFontSize| z.pixel_size) =~= settings.sizes@);
    Ok(
        GeneratedFont {
            name: settings.output_name.clone(),
            sizes,
            missing_glyphs: plan.missing_glyphs,
        },
    )
}

/// In an assembled size the glyph bitmaps lie end to end: the first starts at
/// 0, each next one starts where the one before ends, each is as long as the
/// packed form of its coverage (`(width * height + 1) / 2` bytes when the
/// coverage holds `width * height` pixels), and the bitmap data ends with the
/// last one.
pub proof fn assembled_offsets_are_running_sums(
    size: GeneratedFontSize,
    pixel_size: u32,
    keys: Seq<Seq<char>>,
    rasters: Seq<RasterizedGlyph>,
)
    requires
        assembled_from(size, pixel_size, keys, rasters),
    ensures
        forall|i: int|
            0 <= i < rasters.len() ==> (#[trigger] size.glyphs@[i]).bitmap_len == packed_len(
                rasters[i].coverage@.len(),
            ),
        forall|i: int|
            0 <= i < rasters.len() && rasters[i].coverage@.len() == (rasters[i].width as nat) * (
            rasters[i].height as nat) ==> (#[trigger] size.glyphs@[i]).bitmap_len == (
            (size.glyphs@[i].width as nat) * (size.glyphs@[i].height as nat) + 1) / 2,
        rasters.len() > 0 ==> size.glyphs@[0].bitmap_offset == 0,
        forall|i: int|
            0 <= i < rasters.len() - 1 ==> #[trigger] size.glyphs@[i + 1].bitmap_offset
                == size.glyphs@[i].bitmap_offset + size.glyphs@[i].bitmap_len,
        size.bitmap_data@.len() == (if rasters.len() == 0 {
            0
        } else {
            size.glyphs@[rasters.len() - 1].bitmap_offset + size.glyphs@[rasters.len()
                - 1].bitmap_len
        }),
{
    let bitmaps = raster_bitmaps(rasters);
    assert forall|i: int| 0 <= i < rasters.len() implies (#[trigger] size.glyphs@[i]).bitmap_len
        == packed_len(rasters[i].coverage@.len()) by {
        assert(glyph_describes(
            size.glyphs@[i],
            keys[i],
            rasters[i],
            concat_bytes(bitmaps.take(i)).len(),
            bitmaps[i].len(),
        ));
    }
    assert forall|i: int|
        0 <= i < rasters.len() - 1 implies #[trigger] size.glyphs@[i + 1].bitmap_offset
        == size.glyphs@[i].bitmap_offset + size.glyphs@[i].bitmap_len by {
        assert(glyph_describes(
            size.glyphs@[i],
            keys[i],
            rasters[i],
            concat_bytes(bitmaps.take(i)).len(),
            bitmaps[i].len(),
        ));
        assert(glyph_describes(
            size.glyphs@[i + 1],
            keys[i + 1],
            rasters[i + 1],
            concat_bytes(bitmaps.take(i + 1)).len(),
            bitmaps[i + 1].len(),
        ));
        lemma_concat_bytes_step(bitmaps, i);
    }
    if rasters.len() > 0 {
        assert(glyph_describes(
            size.glyphs@[0],
            keys[0],
            rasters[0],
            concat_bytes(bitmaps.take(0)).len(),
            bitmaps[0].len(),
        ));
        assert(bitmaps.take(0).len() == 0);
        let n = rasters.len() - 1;
        assert(glyph_describes(
            size.glyphs@[n],
            keys[n],
            rasters[n],
            concat_bytes(bitmaps.take(n)).len(),
            bitmaps[n].len(),
        ));
        lemma_concat_bytes_step(bitmaps, n);
        assert(bitmaps.take(n + 1) == bitmaps);
    } else {
        assert(bitmaps.len() == 0);
    }
}

} // verus!
