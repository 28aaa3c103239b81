//! The boundary codec: decoding encoded image bytes into an `Atlas` and
//! encoding an `Atlas` back to PNG bytes, plus the in-memory conversion
//! entry point built on them.
//!
//! The codec itself is thin glue over the `image` crate and is trusted at
//! its interface; everything between decode and encode is verified.

use vstd::prelude::*;

verus! {

use vstd::arithmetic::div_mod::{lemma_fundamental_div_mod, lemma_mod_bound};
use vstd::arithmetic::mul::lemma_mul_inequality;
use crate::atlas::{Atlas, AtlasView};
use crate::convert::{converted_pix, single2double_image, validate_single_layer, SkinError};

/// Output encodings the surrounding tooling can ask for.
#[derive(Debug, Clone, Copy, PartialEq, Eq, Structural)]
pub enum OutputFormat {
    /// PNG format.
    Png,
    /// WebP format.
    WebP,
}

/// What decoding a byte string yields: `None` when the bytes are not a
/// supported image, otherwise the decoded RGBA atlas.  Decoding is a
/// function of the bytes alone.
pub uninterp spec fn decoded_image(bytes: Seq<u8>) -> Option<AtlasView>;

/// Relies on image::ImageReader (with decoding limits disabled, so the
/// outcome depends on the bytes alone and not on a size cap) and
/// image::DynamicImage::to_rgba8: decoding is deterministic in the input
/// bytes, and a decoded RGBA buffer holds exactly four bytes per pixel
/// with 32-bit dimensions.  Determinism assumes the image crate's
/// process-global decoding-hook registries keep their default empty state;
/// nothing in this crate or around it registers a hook.
#[verifier::external_body]
fn decode_image(bytes: &[u8]) -> (r: Result<Atlas, String>)
    ensures
        r matches Ok(a) ==> decoded_image(bytes@) == Some(a@) && a@.wf(),
        r is Err ==> decoded_image(bytes@) is None,
{
    let mut reader = image::ImageReader::new(std::io::Cursor::new(bytes));
    reader.no_limits();
    match reader.with_guessed_format().map_err(image::ImageError::from).and_then(|r| r.decode()) {
        Ok(img) => {
            let rgba = img.to_rgba8();
            let width = rgba.width() as usize;
            let height = rgba.height() as usize;
            Ok(Atlas { width, height, data: rgba.into_raw() })
        }
        Err(e) => Err(e.to_string()),
    }
}

/// Relies on image::write_buffer_with_format with the PNG codec: encoding
/// a well-formed RGBA buffer to an in-memory writer fails exactly when a
/// dimension is zero, and PNG stores the buffer losslessly, so within
/// PNG's dimension range (at most 2^31 - 1 per side) decoding the
/// produced bytes recovers exactly the encoded dimensions and pixels (the
/// round-trip fidelity the codec owes).
#[verifier::external_body]
fn encode_png(a: &Atlas) -> (r: Result<Vec<u8>, String>)
    requires
        a@.wf(),
    ensures
        1 <= a@.width && 1 <= a@.height ==> r is Ok,
        a@.width == 0 || a@.height == 0 ==> r is Err,
        r matches Ok(b) ==> (a@.width <= 0x7fff_ffff && a@.height <= 0x7fff_ffff
            ==> decoded_image(b@) == Some(a@)),
{
    let mut out: Vec<u8> = Vec::new();
    let res = image::write_buffer_with_format(
        &mut std::io::Cursor::new(&mut out),
        a.data.as_slice(),
        a.width as u32,
        a.height as u32,
        image::ExtendedColorType::Rgba8,
        image::ImageFormat::Png,
    );
    match res {
        Ok(()) => Ok(out),
        Err(e) => Err(e.to_string()),
    }
}

/// A square output atlas of this width can be allocated in the address
/// space: four bytes per pixel of a width-by-width canvas.
pub open spec fn output_fits(w: int) -> bool {
    4 * w * w <= usize::MAX
}

/// Convert a single-layer skin, given as encoded image bytes, to the
/// encoded PNG bytes of its double-layer atlas.
///
/// Failures are terminal and classified: exactly the bytes that do not
/// decode fail with `DecodeFailure`; exactly a decoded image whose width
/// is not twice its height fails with `InvalidLayout` carrying the actual
/// dimensions; a decoded single-layer image whose square output cannot be
/// produced fails with `EncodeFailure` — because its byte size cannot be
/// addressed on this platform, or because it is empty and no image format
/// can hold it.  Every other single-layer input succeeds, and the returned
/// bytes decode back to exactly the converted atlas.  No output bytes are
/// produced on any failure.
pub fn single2double_bytes(bytes: &[u8]) -> (r: Result<Vec<u8>, SkinError>)
    ensures
        decoded_image(bytes@) is None <==> (r matches Err(e) && e is DecodeFailure),
        decoded_image(bytes@) matches Some(a) ==> {
            &&& !a.single_layer() <==> (r matches Err(e)
                && e matches SkinError::InvalidLayout { width, height }
                && width == a.width && height == a.height)
            &&& a.single_layer() && !output_fits(a.width as int) ==> (r matches Err(e)
                && e is EncodeFailure)
            &&& a.single_layer() && output_fits(a.width as int) && a.width >= 1 ==> r is Ok
            &&& a.single_layer() && a.width == 0 ==> (r matches Err(e) && e is EncodeFailure)
            &&& r matches Ok(b) ==> (decoded_image(b@) matches Some(o) && o.wf()
                && o.width == a.width && o.height == a.width
                && (forall|x: int, y: int|
                    0 <= x < a.width && 0 <= y < a.width
                        ==> o.pix(x, y) == converted_pix(a, x, y)))
        },
{
    let img = match decode_image(bytes) {
        Ok(a) => a,
        Err(m) => {
            return Err(SkinError::DecodeFailure { message: m });
        }
    };
    match validate_single_layer(&img) {
        Ok(()) => {}
        Err(e) => {
            return Err(e);
        }
    }
    let w: usize = img.width;
    if w != 0 && w > usize::MAX / 4 / w {
        proof {
            assert(!output_fits(img@.width as int)) by {
                lemma_fundamental_div_mod(usize::MAX as int, 4);
                lemma_mod_bound(usize::MAX as int, 4);
                lemma_fundamental_div_mod(usize::MAX as int / 4, w as int);
                lemma_mod_bound(usize::MAX as int / 4, w as int);
                assert(4 * w as int * w as int > usize::MAX) by (nonlinear_arith)
                    requires
                        w as int * (usize::MAX as int / 4 / w as int)
                            + (usize::MAX as int / 4) % (w as int) == usize::MAX as int / 4,
                        0 <= (usize::MAX as int / 4) % (w as int) < w,
                        4 * (usize::MAX as int / 4) + usize::MAX as int % 4 == usize::MAX,
                        0 <= usize::MAX as int % 4 < 4,
                        w as int > usize::MAX as int / 4 / w as int,
                        w > 0;
            }
        }
        return Err(SkinError::EncodeFailure {
            message: "output image would be too large to address on this platform".to_string(),
        });
    }
    proof {
        if w != 0 {
            lemma_mul_inequality(w as int, usize::MAX as int / 4 / w as int, w as int);
            lemma_fundamental_div_mod(usize::MAX as int / 4, w as int);
            lemma_mod_bound(usize::MAX as int / 4, w as int);
            lemma_fundamental_div_mod(usize::MAX as int, 4);
            lemma_mod_bound(usize::MAX as int, 4);
            assert(4 * w as int * w as int <= usize::MAX) by (nonlinear_arith)
                requires
                    w as int * w as int <= (usize::MAX as int / 4 / w as int) * w as int,
                    (w as int) * (usize::MAX as int / 4 / w as int)
                        + (usize::MAX as int / 4) % (w as int) == usize::MAX as int / 4,
                    0 <= (usize::MAX as int / 4) % (w as int),
                    4 * (usize::MAX as int / 4) + usize::MAX as int % 4 == usize::MAX,
                    0 <= usize::MAX as int % 4;
        }
        assert(output_fits(img@.width as int));
    }
    let out = match single2double_image(&img) {
        Ok(out) => out,
        Err(e) => {
            return Err(e);
        }
    };
    proof {
        // an addressable square output keeps both sides inside PNG's range
        if w >= 0x8000_0000 {
            assert(4 * w as int * w as int > usize::MAX) by (nonlinear_arith)
                requires
                    w >= 0x8000_0000,
                    usize::MAX < 0x1_0000_0000_0000_0000;
        }
    }
    match encode_png(&out) {
        Ok(b) => Ok(b),
        Err(m) => Err(SkinError::EncodeFailure { message: m }),
    }
}

} // verus!
