use vstd::prelude::*;

use crate::error::TexError;
use crate::graphics::crate_directxtex_utility::{
    spec_convert_to_rgba, spec_decompress_bc, spec_dxgi_code, DirectXTexUtility,
};
use crate::graphics::pixel_decoders::{
    decode_bpp, push_decoded_pixel, spec_decode_bpp, spec_decoded_pixel, spec_direct_decodable,
};
use crate::graphics::pixel_format::{spec_is_compressed, PixelFormat};

verus! {

/// The RGBA8 bytes of the first `n` pixels of `data` decoded from `f`.
pub open spec fn spec_decode_prefix(f: PixelFormat, data: Seq<u8>, n: int) -> Seq<u8>
    decreases n,
{
    if n <= 0 {
        Seq::empty()
    } else {
        spec_decode_prefix(f, data, n - 1) + spec_decoded_pixel(f, data, n - 1)
    }
}

/// What `PixelDecoder::decode` must return: the verified per-pixel decoding
/// for directly decodable formats (exactly when the buffer holds `w * h`
/// source pixels), the DirectXTex decompression or conversion for
/// block-compressed and float formats, and `UnsupportedFormat` otherwise.
pub open spec fn spec_decode_result(f: PixelFormat, data: Seq<u8>, w: u32, h: u32) -> Result<
    Seq<u8>,
    TexError,
> {
    if spec_direct_decodable(f) {
        if data.len() == spec_decode_bpp(f) * (w as int) * (h as int) {
            Result::Ok(spec_decode_prefix(f, data, (w as int) * (h as int)))
        } else {
            Result::Err(TexError::MalformedFile)
        }
    } else if spec_is_compressed(f) {
        spec_decompress_bc(f, w, h, data)
    } else if spec_dxgi_code(f) != 0 {
        spec_convert_to_rgba(f, w, h, data)
    } else {
        Result::Err(TexError::UnsupportedFormat)
    }
}

/// True when `len == bpp * w * h`, for any `bpp <= 16`.
pub(crate) fn buffer_len_matches(len: usize, bpp: u32, w: u32, h: u32) -> (r: bool)
    requires
        bpp <= 16,
    ensures
        r == (len as int == (bpp as int) * (w as int) * (h as int)),
{
    let b: u128 = bpp as u128;
    let ww: u128 = w as u128;
    let hh: u128 = h as u128;
    proof {
        assert(b * ww <= 16u128 * 0xFFFFFFFFu128 && (b * ww) * hh <= 16u128 * 0xFFFFFFFFu128
            * 0xFFFFFFFFu128) by (nonlinear_arith)
            requires
                b <= 16u128,
                ww <= 0xFFFFFFFFu128,
                hh <= 0xFFFFFFFFu128,
        ;
    }
    (len as u128) == (b * ww) * hh
}

/// Decoder from raw per-format bytes to canonical RGBA8.
pub struct PixelDecoder;

impl PixelDecoder {
    /// Decode a raw plane of `format` into RGBA8, 4 bytes per pixel in row
    /// major order, alpha left exactly as stored.
    pub fn decode(pixels: &[u8], format: PixelFormat, width: u32, height: u32) -> (r: Result<
        Vec<u8>,
        TexError,
    >)
        ensures
            ({
                let s = spec_decode_result(format, pixels@, width, height);
                match r {
                    Ok(v) => s is Ok && v@ == s->Ok_0,
                    Err(e) => s is Err && e == s->Err_0,
                }
            }),
    {
        let bpp = decode_bpp(format);
        if bpp > 0 {
            proof {
                assert(spec_decode_bpp(format) <= 16);
            }
            if !buffer_len_matches(pixels.len(), bpp, width, height) {
                return Err(TexError::MalformedFile);
            }
            let w64: u64 = width as u64;
            let h64: u64 = height as u64;
            proof {
                assert(w64 * h64 <= 0xFFFFFFFFu64 * 0xFFFFFFFFu64) by (nonlinear_arith)
                    requires
                        w64 <= 0xFFFFFFFFu64,
                        h64 <= 0xFFFFFFFFu64,
                ;
                assert((w64 * h64) as int <= (bpp as int) * ((w64 * h64) as int)) by (
                nonlinear_arith)
                    requires
                        bpp >= 1,
                        w64 * h64 >= 0,
                ;
                assert((bpp as int) * (width as int) * (height as int) == (bpp as int) * ((
                width as int) * (height as int))) by (nonlinear_arith);
            }
            let n: usize = (w64 * h64) as usize;
            let mut out: Vec<u8> = Vec::new();
            let mut i: usize = 0;
            while i < n
                invariant
                    i <= n,
                    n == (width as int) * (height as int),
                    spec_direct_decodable(format),
                    spec_decode_bpp(format) == bpp,
                    pixels@.len() == (bpp as int) * (n as int),
                    out@ == spec_decode_prefix(format, pixels@, i as int),
                decreases n - i,
            {
                proof {
                    assert((bpp as int) * (i as int + 1) <= (bpp as int) * (n as int)) by (
                    nonlinear_arith)
                        requires
                            i < n,
                            bpp >= 0,
                    ;
                }
                push_decoded_pixel(format, pixels, i, &mut out);
                i = i + 1;
            }
            Ok(out)
        } else if format.is_compressed() {
            DirectXTexUtility::decompress_bc_to_rgba(format, width, height, pixels)
        } else if DirectXTexUtility::get_dxgi_format_from_pixel_format(format) != 0 {
            DirectXTexUtility::convert_dxgi_to_rgba(format, width, height, pixels)
        } else {
            Err(TexError::UnsupportedFormat)
        }
    }
}

} // verus!
