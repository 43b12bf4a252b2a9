use vstd::prelude::*;

use crate::error::TexError;
use crate::graphics::crate_directxtex_utility::{
    spec_compress_bc, spec_convert_from_rgba, spec_dxgi_code, DirectXTexUtility,
};
use crate::graphics::pixel_decoders::decode_bpp;
use crate::graphics::pixel_encoders::{
    push_encoded_pixel, spec_direct_encodable, spec_encode_bpp, spec_encoded_pixel,
};
use crate::graphics::pixel_format::{spec_is_compressed, PixelFormat};
use crate::graphics::pixel_format_decoder::{buffer_len_matches, spec_decode_result};

verus! {

/// The raw bytes of the first `n` RGBA8 texels of `data` encoded to `f`.
pub open spec fn spec_encode_prefix(f: PixelFormat, data: Seq<u8>, n: int) -> Seq<u8>
    decreases n,
{
    if n <= 0 {
        Seq::empty()
    } else {
        spec_encode_prefix(f, data, n - 1) + spec_encoded_pixel(f, data, n - 1)
    }
}

/// What `PixelEncoder::encode` must return: the verified per-pixel encoding
/// for directly encodable formats (exactly when the buffer holds `4 * w * h`
/// bytes), the DirectXTex block compression or conversion for
/// block-compressed and float formats, and `UnsupportedFormat` otherwise.
pub open spec fn spec_encode_result(f: PixelFormat, rgba: Seq<u8>, w: u32, h: u32) -> Result<
    Seq<u8>,
    TexError,
> {
    if spec_direct_encodable(f) {
        if rgba.len() == 4 * (w as int) * (h as int) {
            Result::Ok(spec_encode_prefix(f, rgba, (w as int) * (h as int)))
        } else {
            Result::Err(TexError::MalformedFile)
        }
    } else if spec_is_compressed(f) {
        spec_compress_bc(f, w, h, rgba)
    } else if spec_dxgi_code(f) != 0 {
        spec_convert_from_rgba(f, w, h, rgba)
    } else {
        Result::Err(TexError::UnsupportedFormat)
    }
}

/// Encoder from canonical RGBA8 to raw per-format bytes.
pub struct PixelEncoder;

impl PixelEncoder {
    /// Encode an RGBA8 plane into the raw bytes of `pixel_format`. Packed
    /// and narrow formats truncate (lossy); the RGBA8 target is the identity.
    pub fn encode(pixels: &[u8], pixel_format: PixelFormat, width: u32, height: u32) -> (r: Result<
        Vec<u8>,
        TexError,
    >)
        ensures
            ({
                let s = spec_encode_result(pixel_format, pixels@, width, height);
                match r {
                    Ok(v) => s is Ok && v@ == s->Ok_0,
                    Err(e) => s is Err && e == s->Err_0,
                }
            }),
    {
        let bpp = decode_bpp(pixel_format);
        if bpp > 0 {
            if !buffer_len_matches(pixels.len(), 4, width, height) {
                return Err(TexError::MalformedFile);
            }
            let w64: u64 = width as u64;
            let h64: u64 = height as u64;
            proof {
                assert(w64 * h64 <= 0xFFFFFFFFu64 * 0xFFFFFFFFu64) by (nonlinear_arith)
                    requires
                        w64 <= 0xFFFFFFFFu64,
                        h64 <= 0xFFFFFFFFu64,
                ;
                assert((w64 * h64) as int <= 4 * ((w64 * h64) as int)) by (nonlinear_arith)
                    requires
                        w64 * h64 >= 0,
                ;
                assert(4 * (width as int) * (height as int) == 4 * ((width as int) * (
                height as int))) by (nonlinear_arith);
            }
            let n: usize = (w64 * h64) as usize;
            let mut out: Vec<u8> = Vec::new();
            let mut i: usize = 0;
            while i < n
                invariant
                    i <= n,
                    n == (width as int) * (height as int),
                    spec_direct_encodable(pixel_format),
                    pixels@.len() == 4 * (n as int),
                    out@ == spec_encode_prefix(pixel_format, pixels@, i as int),
                decreases n - i,
            {
                push_encoded_pixel(pixel_format, pixels, i, &mut out);
                i = i + 1;
            }
            Ok(out)
        } else if pixel_format.is_compressed() {
            DirectXTexUtility::compress_rgba_to_bc(pixel_format, width, height, pixels)
        } else if DirectXTexUtility::get_dxgi_format_from_pixel_format(pixel_format) != 0 {
            DirectXTexUtility::convert_rgba_to_dxgi(pixel_format, width, height, pixels)
        } else {
            Err(TexError::UnsupportedFormat)
        }
    }
}

/// Every directly encoded pixel occupies its format's byte width.
pub proof fn lemma_encode_prefix_len(f: PixelFormat, data: Seq<u8>, n: int)
    requires
        n >= 0,
        spec_direct_encodable(f),
    ensures
        spec_encode_prefix(f, data, n).len() == spec_encode_bpp(f) * n,
    decreases n,
{
    if n > 0 {
        lemma_encode_prefix_len(f, data, n - 1);
        assert(spec_encode_bpp(f) * n == spec_encode_bpp(f) * (n - 1) + spec_encode_bpp(f)) by (
        nonlinear_arith);
    } else {
        assert(spec_encode_bpp(f) * 0 == 0) by (nonlinear_arith);
    }
}

/// A successful direct encoding yields `bpp * w * h` bytes.
pub proof fn lemma_encode_result_len(f: PixelFormat, rgba: Seq<u8>, w: u32, h: u32)
    requires
        spec_direct_encodable(f),
        spec_encode_result(f, rgba, w, h) is Ok,
    ensures
        spec_encode_result(f, rgba, w, h)->Ok_0.len() == spec_encode_bpp(f) * (w as int) * (
        h as int),
{
    let n = (w as int) * (h as int);
    assert(n >= 0) by (nonlinear_arith)
        requires
            n == (w as int) * (h as int),
            w >= 0,
            h >= 0,
    ;
    lemma_encode_prefix_len(f, rgba, n);
    assert(spec_encode_bpp(f) * ((w as int) * (h as int)) == spec_encode_bpp(f) * (w as int) * (
    h as int)) by (nonlinear_arith);
}

/// Encoding to the canonical RGBA8 target is the identity on each prefix.
proof fn lemma_encode_prefix_rgba8(data: Seq<u8>, n: int)
    requires
        0 <= n,
        4 * n <= data.len(),
    ensures
        spec_encode_prefix(PixelFormat::R8G8B8A8, data, n) == data.take(4 * n),
    decreases n,
{
    if n > 0 {
        lemma_encode_prefix_rgba8(data, n - 1);
        assert(spec_encode_prefix(PixelFormat::R8G8B8A8, data, n) =~= data.take(4 * n));
    } else {
        assert(spec_encode_prefix(PixelFormat::R8G8B8A8, data, 0) =~= data.take(0));
    }
}

/// Decoding from the canonical RGBA8 source is the identity on each prefix.
proof fn lemma_decode_prefix_rgba8(data: Seq<u8>, n: int)
    requires
        0 <= n,
        4 * n <= data.len(),
    ensures
        crate::graphics::pixel_format_decoder::spec_decode_prefix(PixelFormat::R8G8B8A8, data, n)
            == data.take(4 * n),
    decreases n,
{
    if n > 0 {
        lemma_decode_prefix_rgba8(data, n - 1);
        assert(crate::graphics::pixel_format_decoder::spec_decode_prefix(
            PixelFormat::R8G8B8A8,
            data,
            n,
        ) =~= data.take(4 * n));
    } else {
        assert(crate::graphics::pixel_format_decoder::spec_decode_prefix(
            PixelFormat::R8G8B8A8,
            data,
            0,
        ) =~= data.take(0));
    }
}

/// Law: re-encoding an RGBA8 plane to the RGBA8 target and decoding it back
/// restores the buffer exactly, for every buffer of the right size.
pub proof fn lemma_rgba8_encode_decode_round_trip(buf: Seq<u8>, w: u32, h: u32)
    requires
        buf.len() == 4 * (w as int) * (h as int),
    ensures
        spec_encode_result(PixelFormat::R8G8B8A8, buf, w, h) == Result::<
            Seq<u8>,
            TexError,
        >::Ok(buf),
        spec_decode_result(PixelFormat::R8G8B8A8, buf, w, h) == Result::<
            Seq<u8>,
            TexError,
        >::Ok(buf),
{
    let n = (w as int) * (h as int);
    assert(4 * n == 4 * (w as int) * (h as int)) by (nonlinear_arith)
        requires
            n == (w as int) * (h as int),
    ;
    assert(n >= 0) by (nonlinear_arith)
        requires
            n == (w as int) * (h as int),
            w >= 0,
            h >= 0,
    ;
    lemma_encode_prefix_rgba8(buf, n);
    lemma_decode_prefix_rgba8(buf, n);
    assert(buf.take(4 * n) =~= buf);
}

} // verus!
