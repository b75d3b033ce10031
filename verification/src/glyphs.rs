use vstd::prelude::*;
use crate::geometry::CHAR_HEIGHT;
use crate::geometry::CHAR_WIDTH;

verus! {

/// Whether the glyph source has a raster for this character.
pub uninterp spec fn glyph_supported(c: char) -> bool;

/// The coverage raster of a supported character, row-major:
/// `CHAR_HEIGHT * CHAR_WIDTH` bytes, one coverage value per pixel.
pub uninterp spec fn glyph_of(c: char) -> Seq<u8>;

/// The raster a character is drawn with: its own if the glyph source has
/// one, the raster of `?` otherwise.
pub open spec fn glyph_for(c: char) -> Seq<u8> {
    if glyph_supported(c) {
        glyph_of(c)
    } else {
        glyph_of('?')
    }
}

/// Relies on noto_sans_mono_bitmap::get_raster: a pure lookup in static font
/// data that returns, for a supported character, a raster of `CHAR_HEIGHT`
/// rows of `CHAR_WIDTH` coverage bytes (regular weight, raster height 16),
/// and None for an unsupported one. `?` is in the basic latin range the
/// crate carries by default.
#[verifier::external_body]
pub(crate) fn glyph_lookup(c: char) -> (r: Option<Vec<u8>>)
    ensures
        r is Some <==> glyph_supported(c),
        c == '?' ==> r is Some,
        r is Some ==> r.unwrap()@ == glyph_of(c) && r.unwrap()@.len() == CHAR_HEIGHT * CHAR_WIDTH,
{
    let raster = noto_sans_mono_bitmap::get_raster(
        c,
        noto_sans_mono_bitmap::FontWeight::Regular,
        noto_sans_mono_bitmap::RasterHeight::Size16,
    )?;
    let mut flat = Vec::new();
    for row in raster.raster() {
        flat.extend_from_slice(row);
    }
    Some(flat)
}

} // verus!
