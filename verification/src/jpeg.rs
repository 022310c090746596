//! Encoding a captured frame as a JPEG image.

use crate::error::{AppError, ErrorKind};
use crate::text::{append_decimal, append_str, has_prefix, string_of};
use vstd::prelude::*;

verus! {

/// The failure of the `jpeg_encoder` crate.
#[verifier::external_type_specification]
#[verifier::external_body]
pub struct ExEncodingError(jpeg_encoder::EncodingError);

/// The quality at which frames are encoded.
pub const JPEG_QUALITY: u8 = 85;

/// The bytes that `jpeg_encoder` gives for an RGBA image of `width` by
/// `height` pixels at quality `quality`.
pub uninterp spec fn jpeg_encoding(rgba: Seq<u8>, width: u16, height: u16, quality: u8) -> Seq<u8>;

/// Whether `len` bytes are enough for an RGBA image of `width` by `height`
/// pixels, neither of them zero.
pub open spec fn encodable(len: nat, width: u16, height: u16) -> bool {
    width > 0 && height > 0 && len >= width as int * height as int * 4
}

/// `jpeg_encoder::Encoder::new` on a fresh buffer, followed by
/// `Encoder::encode` with the colour type RGBA. The call succeeds exactly when
/// neither dimension is zero and `rgba` holds at least four bytes for each
/// pixel; the bytes written are then a function of the arguments alone.
/// Sizes that need more bytes than can be addressed are left out: the crate
/// counts the bytes it needs in a `usize`.
#[verifier::external_body]
fn encode_rgba(rgba: &Vec<u8>, width: u16, height: u16, quality: u8) -> (r: Result<
    Vec<u8>,
    jpeg_encoder::EncodingError,
>)
    requires
        width as int * height as int * 4 <= usize::MAX,
    ensures
        r is Ok <==> encodable(rgba@.len(), width, height),
        r is Ok ==> r->Ok_0@ == jpeg_encoding(rgba@, width, height, quality),
{
    let mut buf: Vec<u8> = Vec::new();
    let encoder = jpeg_encoder::Encoder::new(&mut buf, quality);
    match encoder.encode(rgba.as_slice(), width, height, jpeg_encoder::ColorType::Rgba) {
        Ok(()) => Ok(buf),
        Err(e) => Err(e),
    }
}

/// The text that `jpeg_encoder::EncodingError` shows for itself. Nothing is
/// claimed of it.
#[verifier::external_body]
fn encoding_error_text(e: &jpeg_encoder::EncodingError) -> (s: String) {
    format!("{e}")
}

/// The low sixteen bits of `n`.
pub open spec fn low16(n: u32) -> u16 {
    (n % 0x1_0000) as u16
}

/// Encodes an RGBA frame of `width` by `height` pixels as a JPEG image. Of each
/// dimension only the low sixteen bits count.
///
/// The frame is encoded where neither dimension is zero, `rgba` holds at least
/// four bytes for each pixel, and that many bytes can be addressed. Else the
/// failure is of kind `EncodeFailed`, with a message that begins with
/// `jpeg encode failed: `.
pub fn encode_jpeg(rgba: &Vec<u8>, width: u32, height: u32) -> (r: Result<Vec<u8>, AppError>)
    ensures
        match r {
            Ok(jpeg) => {
                &&& encodable(rgba@.len(), low16(width), low16(height))
                &&& jpeg@ == jpeg_encoding(rgba@, low16(width), low16(height), JPEG_QUALITY)
            },
            Err(e) => {
                &&& !encodable(rgba@.len(), low16(width), low16(height))
                &&& e.kind == ErrorKind::EncodeFailed
                &&& has_prefix(e.message@, "jpeg encode failed: "@)
            },
        },
{
    let w: u16 = (width % 0x1_0000) as u16;
    let h: u16 = (height % 0x1_0000) as u16;
    let mut message: Vec<char> = Vec::new();
    append_str(&mut message, "jpeg encode failed: ");
    let ghost head = message@;
    assert(head =~= "jpeg encode failed: "@);
    assert(0 <= (w as int) * (h as int) <= 0xFFFF * 0xFFFF) by (nonlinear_arith)
        requires
            0 <= w <= 0xFFFF,
            0 <= h <= 0xFFFF,
    ;
    let pixels: u64 = (w as u64) * (h as u64);
    let needed: u64 = pixels * 4;
    if needed > usize::MAX as u64 {
        let held: usize = rgba.len();
        append_str(&mut message, "image data too small: ");
        append_decimal(&mut message, held as u64);
        append_str(&mut message, " need at least ");
        append_decimal(&mut message, needed);
        assert(message@.subrange(0, head.len() as int) =~= head);
        return Err(AppError { kind: ErrorKind::EncodeFailed, message: string_of(&message) });
    }
    match encode_rgba(rgba, w, h, JPEG_QUALITY) {
        Ok(jpeg) => Ok(jpeg),
        Err(e) => {
            let text = encoding_error_text(&e);
            append_str(&mut message, text.as_str());
            assert(message@.subrange(0, head.len() as int) =~= head);
            Err(AppError { kind: ErrorKind::EncodeFailed, message: string_of(&message) })
        },
    }
}

} // verus!
