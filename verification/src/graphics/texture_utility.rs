use vstd::prelude::*;

use crate::error::TexError;
use crate::graphics::pixel_format::{
    spec_row_pitch, spec_slice_pitch, ColorSpace, PixelDataType, PixelFormat, PixelFormatInfo,
};
use crate::graphics::pixel_format_decoder::{spec_decode_result, PixelDecoder};
use crate::graphics::pixel_format_encoder::{spec_encode_result, PixelEncoder};
use crate::graphics::swizzling::swizzle_manager::{
    spec_platform_deswizzle, spec_platform_swizzle, Swizzler,
};
use crate::graphics::swizzling::Platform;
use crate::graphics::texture::Image;

verus! {

/// The deterministic per-plane transform parameters: raw rotate and flip
/// accumulators (reduced modulo 4 and 2 at use time), the channel filter
/// mask, optional swizzle and deswizzle platforms, and the target pixel
/// format of the re-encode stage.
#[derive(Debug, Clone, Copy)]
pub struct TextureEffects {
    pub rotate_90_left_count: u32,
    pub rotate_90_right_count: u32,
    pub flip_horizontal_count: u32,
    pub flip_vertical_count: u32,
    pub channel_filter: (bool, bool, bool, bool),
    pub swizzle: Option<Platform>,
    pub deswizzle: Option<Platform>,
    pub pixel_format: PixelFormat,
}

impl Default for TextureEffects {
    fn default() -> (r: Self)
        ensures
            r.rotate_90_left_count == 0,
            r.rotate_90_right_count == 0,
            r.flip_horizontal_count == 0,
            r.flip_vertical_count == 0,
            r.channel_filter == (true, true, true, true),
            r.swizzle is None,
            r.deswizzle is None,
            r.pixel_format == PixelFormat::R8G8B8A8,
    {
        Self {
            rotate_90_left_count: 0,
            rotate_90_right_count: 0,
            flip_horizontal_count: 0,
            flip_vertical_count: 0,
            channel_filter: (true, true, true, true),
            swizzle: None,
            deswizzle: None,
            pixel_format: PixelFormat::R8G8B8A8,
        }
    }
}

/// The net number of quarter turns to the left, in `0 .. 4`.
pub open spec fn spec_net_rotation(eff: TextureEffects) -> int {
    (((eff.rotate_90_left_count % 4) as int) + 4 - ((eff.rotate_90_right_count % 4) as int)) % 4
}

/// An RGBA8 plane flipped top to bottom.
pub open spec fn spec_flip_v(data: Seq<u8>, w: int, h: int) -> Seq<u8> {
    Seq::new(data.len(), |i: int| data[(h - 1 - i / (4 * w)) * (4 * w) + i % (4 * w)])
}

/// An RGBA8 plane flipped left to right.
pub open spec fn spec_flip_h(data: Seq<u8>, w: int, h: int) -> Seq<u8> {
    Seq::new(
        data.len(),
        |i: int|
            {
                let row = i / (4 * w);
                let rem = i % (4 * w);
                let col = rem / 4;
                let c = rem % 4;
                data[row * (4 * w) + (w - 1 - col) * 4 + c]
            },
    )
}

/// An RGBA8 plane turned one quarter to the left: the result is `h` wide and
/// `w` high, and pixel (x, y) of the source lands on (y, w - 1 - x).
pub open spec fn spec_rot_left(data: Seq<u8>, w: int, h: int) -> Seq<u8> {
    Seq::new(
        data.len(),
        |i: int|
            {
                let pix = i / 4;
                let c = i % 4;
                let x2 = pix % h;
                let y2 = pix / h;
                data[(x2 * w + (w - 1 - y2)) * 4 + c]
            },
    )
}

/// An RGBA8 plane turned one quarter to the right: pixel (x, y) of the
/// source lands on (h - 1 - y, x).
pub open spec fn spec_rot_right(data: Seq<u8>, w: int, h: int) -> Seq<u8> {
    Seq::new(
        data.len(),
        |i: int|
            {
                let pix = i / 4;
                let c = i % 4;
                let x2 = pix % h;
                let y2 = pix / h;
                data[((h - 1 - x2) * w + y2) * 4 + c]
            },
    )
}

/// `k` left quarter turns, the dimensions swapping at each turn.
pub open spec fn spec_rot_left_k(data: Seq<u8>, w: int, h: int, k: int) -> Seq<u8>
    decreases k,
{
    if k <= 0 {
        data
    } else {
        spec_rot_left_k(spec_rot_left(data, w, h), h, w, k - 1)
    }
}

/// The channel filter: a disabled red, green or blue channel is zeroed in
/// every pixel; a disabled alpha channel is forced fully opaque.
pub open spec fn spec_filter(data: Seq<u8>, r: bool, g: bool, b: bool, a: bool) -> Seq<u8> {
    Seq::new(
        data.len(),
        |i: int|
            if i % 4 == 0 {
                if r {
                    data[i]
                } else {
                    0u8
                }
            } else if i % 4 == 1 {
                if g {
                    data[i]
                } else {
                    0u8
                }
            } else if i % 4 == 2 {
                if b {
                    data[i]
                } else {
                    0u8
                }
            } else {
                if a {
                    data[i]
                } else {
                    255u8
                }
            },
    )
}

/// Basic raw-buffer processing utilities over RGBA8 planes.
pub struct TextureProcessingUtility;

impl TextureProcessingUtility {
    /// Flip rows top to bottom.
    pub fn flip_vertical_raw(pixels: &[u8], width: u32, height: u32) -> (out: Vec<u8>)
        requires
            pixels@.len() == 4 * (width as int) * (height as int),
        ensures
            out@ == spec_flip_v(pixels@, width as int, height as int),
    {
        let len = pixels.len();
        let ghost w = width as int;
        let ghost h = height as int;
        let ghost fspec = spec_flip_v(pixels@, w, h);
        if len == 0 {
            let out: Vec<u8> = Vec::new();
            proof {
                assert(out@ =~= fspec);
            }
            return out;
        }
        proof {
            assert(width >= 1 && height >= 1 && 4 * (width as int) <= len && 4 * (width as int) * (
            height as int) == (4 * (width as int)) * (height as int)) by (nonlinear_arith)
                requires
                    len == 4 * (width as int) * (height as int),
                    len > 0,
            ;
        }
        let stride: usize = 4 * (width as usize);
        let mut out: Vec<u8> = Vec::new();
        let mut i: usize = 0;
        while i < len
            invariant
                i <= len,
                len == pixels@.len(),
                len == 4 * w * h,
                len == stride * h,
                w == width as int,
                h == height as int,
                stride == 4 * w,
                stride >= 4,
                fspec == spec_flip_v(pixels@, w, h),
                out@.len() == i,
                forall|i1: int| 0 <= i1 < i ==> out@[i1] == fspec[i1],
            decreases len - i,
        {
            let row: usize = i / stride;
            let rem: usize = i % stride;
            proof {
                assert(row < h && (h - 1 - row as int) * (stride as int) + (rem as int) < len && (h
                    - 1 - row as int) >= 0) by (nonlinear_arith)
                    requires
                        stride >= 1,
                        h >= 1,
                        row == (i as int) / (stride as int),
                        rem == (i as int) % (stride as int),
                        0 <= (i as int) < len,
                        len == (stride as int) * h,
                ;
            }
            let src: usize = (height as usize - 1 - row) * stride + rem;
            out.push(pixels[src]);
            i = i + 1;
        }
        proof {
            assert(out@ =~= fspec);
        }
        out
    }

    /// Flip columns left to right.
    pub fn flip_horizontal_raw(pixels: &[u8], width: u32, height: u32) -> (out: Vec<u8>)
        requires
            pixels@.len() == 4 * (width as int) * (height as int),
        ensures
            out@ == spec_flip_h(pixels@, width as int, height as int),
    {
        let len = pixels.len();
        let ghost w = width as int;
        let ghost h = height as int;
        let ghost fspec = spec_flip_h(pixels@, w, h);
        if len == 0 {
            let out: Vec<u8> = Vec::new();
            proof {
                assert(out@ =~= fspec);
            }
            return out;
        }
        proof {
            assert(width >= 1 && height >= 1 && 4 * (width as int) <= len && 4 * (width as int) * (
            height as int) == (4 * (width as int)) * (height as int)) by (nonlinear_arith)
                requires
                    len == 4 * (width as int) * (height as int),
                    len > 0,
            ;
        }
        let stride: usize = 4 * (width as usize);
        let mut out: Vec<u8> = Vec::new();
        let mut i: usize = 0;
        while i < len
            invariant
                i <= len,
                len == pixels@.len(),
                len == 4 * w * h,
                len == stride * h,
                w == width as int,
                h == height as int,
                stride == 4 * w,
                stride >= 4,
                fspec == spec_flip_h(pixels@, w, h),
                out@.len() == i,
                forall|i1: int| 0 <= i1 < i ==> out@[i1] == fspec[i1],
            decreases len - i,
        {
            let row: usize = i / stride;
            let rem: usize = i % stride;
            let col: usize = rem / 4;
            let c: usize = rem % 4;
            proof {
                assert(row < h && col < w && (row as int) * (stride as int) + (w - 1 - col as int)
                    * 4 + (c as int) < len && (w - 1 - col as int) >= 0) by (nonlinear_arith)
                    requires
                        stride == 4 * w,
                        w >= 1,
                        h >= 1,
                        row == (i as int) / (stride as int),
                        rem == (i as int) % (stride as int),
                        col == (rem as int) / 4,
                        c == (rem as int) % 4,
                        0 <= (i as int) < len,
                        len == (stride as int) * h,
                ;
            }
            let src: usize = row * stride + (width as usize - 1 - col) * 4 + c;
            out.push(pixels[src]);
            i = i + 1;
        }
        proof {
            assert(out@ =~= fspec);
        }
        out
    }

    /// One quarter turn to the left; the caller swaps width and height.
    pub fn rotate_90_left_raw(pixels: &[u8], width: u32, height: u32) -> (out: Vec<u8>)
        requires
            pixels@.len() == 4 * (width as int) * (height as int),
        ensures
            out@ == spec_rot_left(pixels@, width as int, height as int),
    {
        let len = pixels.len();
        let ghost w = width as int;
        let ghost h = height as int;
        let ghost fspec = spec_rot_left(pixels@, w, h);
        if len == 0 {
            let out: Vec<u8> = Vec::new();
            proof {
                assert(out@ =~= fspec);
            }
            return out;
        }
        proof {
            assert(width >= 1 && height >= 1) by (nonlinear_arith)
                requires
                    len == 4 * (width as int) * (height as int),
                    len > 0,
            ;
        }
        let mut out: Vec<u8> = Vec::new();
        let mut i: usize = 0;
        while i < len
            invariant
                i <= len,
                len == pixels@.len(),
                len == 4 * w * h,
                w == width as int,
                h == height as int,
                w >= 1,
                h >= 1,
                fspec == spec_rot_left(pixels@, w, h),
                out@.len() == i,
                forall|i1: int| 0 <= i1 < i ==> out@[i1] == fspec[i1],
            decreases len - i,
        {
            let pix: usize = i / 4;
            let c: usize = i % 4;
            let x2: usize = pix % (height as usize);
            let y2: usize = pix / (height as usize);
            proof {
                assert(y2 < w && x2 < h && ((x2 as int) * w + (w - 1 - y2 as int)) * 4 + (c as int)
                    < len && (w - 1 - y2 as int) >= 0 && (x2 as int) * w + (w - 1 - y2 as int)
                    >= 0) by (nonlinear_arith)
                    requires
                        w >= 1,
                        h >= 1,
                        pix == (i as int) / 4,
                        c == (i as int) % 4,
                        x2 == (pix as int) % h,
                        y2 == (pix as int) / h,
                        0 <= (i as int) < len,
                        len == 4 * w * h,
                ;
            }
            let src: usize = (x2 * (width as usize) + (width as usize - 1 - y2)) * 4 + c;
            out.push(pixels[src]);
            i = i + 1;
        }
        proof {
            assert(out@ =~= fspec);
        }
        out
    }

    /// One quarter turn to the right; the caller swaps width and height.
    pub fn rotate_90_right_raw(pixels: &[u8], width: u32, height: u32) -> (out: Vec<u8>)
        requires
            pixels@.len() == 4 * (width as int) * (height as int),
        ensures
            out@ == spec_rot_right(pixels@, width as int, height as int),
    {
        let len = pixels.len();
        let ghost w = width as int;
        let ghost h = height as int;
        let ghost fspec = spec_rot_right(pixels@, w, h);
        if len == 0 {
            let out: Vec<u8> = Vec::new();
            proof {
                assert(out@ =~= fspec);
            }
            return out;
        }
        proof {
            assert(width >= 1 && height >= 1) by (nonlinear_arith)
                requires
                    len == 4 * (width as int) * (height as int),
                    len > 0,
            ;
        }
        let mut out: Vec<u8> = Vec::new();
        let mut i: usize = 0;
        while i < len
            invariant
                i <= len,
                len == pixels@.len(),
                len == 4 * w * h,
                w == width as int,
                h == height as int,
                w >= 1,
                h >= 1,
                fspec == spec_rot_right(pixels@, w, h),
                out@.len() == i,
                forall|i1: int| 0 <= i1 < i ==> out@[i1] == fspec[i1],
            decreases len - i,
        {
            let pix: usize = i / 4;
            let c: usize = i % 4;
            let x2: usize = pix % (height as usize);
            let y2: usize = pix / (height as usize);
            proof {
                assert(y2 < w && x2 < h && ((h - 1 - x2 as int) * w + (y2 as int)) * 4 + (c as int)
                    < len && (h - 1 - x2 as int) >= 0 && (h - 1 - x2 as int) * w + (y2 as int)
                    >= 0) by (nonlinear_arith)
                    requires
                        w >= 1,
                        h >= 1,
                        pix == (i as int) / 4,
                        c == (i as int) % 4,
                        x2 == (pix as int) % h,
                        y2 == (pix as int) / h,
                        0 <= (i as int) < len,
                        len == 4 * w * h,
                ;
            }
            let src: usize = ((height as usize - 1 - x2) * (width as usize) + y2) * 4 + c;
            out.push(pixels[src]);
            i = i + 1;
        }
        proof {
            assert(out@ =~= fspec);
        }
        out
    }

    /// Apply the channel filter mask to every pixel.
    pub fn filter_colors(pixels: &[u8], filter: (bool, bool, bool, bool)) -> (out: Vec<u8>)
        ensures
            out@ == spec_filter(pixels@, filter.0, filter.1, filter.2, filter.3),
    {
        let (r, g, b, a) = filter;
        let len = pixels.len();
        let ghost fspec = spec_filter(pixels@, r, g, b, a);
        let mut out: Vec<u8> = Vec::new();
        let mut i: usize = 0;
        while i < len
            invariant
                i <= len,
                len == pixels@.len(),
                fspec == spec_filter(pixels@, r, g, b, a),
                out@.len() == i,
                forall|i1: int| 0 <= i1 < i ==> out@[i1] == fspec[i1],
            decreases len - i,
        {
            let c: usize = i % 4;
            let v: u8 = if c == 0 {
                if r {
                    pixels[i]
                } else {
                    0
                }
            } else if c == 1 {
                if g {
                    pixels[i]
                } else {
                    0
                }
            } else if c == 2 {
                if b {
                    pixels[i]
                } else {
                    0
                }
            } else {
                if a {
                    pixels[i]
                } else {
                    255
                }
            };
            out.push(v);
            i = i + 1;
        }
        proof {
            assert(out@ =~= fspec);
        }
        out
    }
}

/// Every decoded plane holds exactly four bytes per pixel.
pub proof fn lemma_decode_prefix_len(f: PixelFormat, data: Seq<u8>, n: int)
    requires
        n >= 0,
    ensures
        crate::graphics::pixel_format_decoder::spec_decode_prefix(f, data, n).len() == 4 * n,
    decreases n,
{
    if n > 0 {
        lemma_decode_prefix_len(f, data, n - 1);
    }
}

/// A successful decode yields a full RGBA8 plane: `4 * w * h` bytes.
pub proof fn lemma_decode_result_len(f: PixelFormat, data: Seq<u8>, w: u32, h: u32)
    requires
        spec_decode_result(f, data, w, h) is Ok,
    ensures
        spec_decode_result(f, data, w, h)->Ok_0.len() == 4 * (w as int) * (h as int),
{
    if crate::graphics::pixel_decoders::spec_direct_decodable(f) {
        lemma_decode_prefix_len(f, data, (w as int) * (h as int));
        assert(4 * ((w as int) * (h as int)) == 4 * (w as int) * (h as int)) by (nonlinear_arith);
    }
}

/// Appending one more left turn after `k` turns.
proof fn lemma_rot_snoc(d: Seq<u8>, w: int, h: int, k: int)
    requires
        k >= 0,
    ensures
        spec_rot_left_k(d, w, h, k + 1) == spec_rot_left(
            spec_rot_left_k(d, w, h, k),
            if k % 2 == 0 {
                w
            } else {
                h
            },
            if k % 2 == 0 {
                h
            } else {
                w
            },
        ),
    decreases k,
{
    if k > 0 {
        lemma_rot_snoc(spec_rot_left(d, w, h), h, w, k - 1);
        assert(spec_rot_left_k(d, w, h, k + 1) == spec_rot_left_k(spec_rot_left(d, w, h), h, w, k));
        assert(spec_rot_left_k(d, w, h, k) == spec_rot_left_k(spec_rot_left(d, w, h), h, w, k - 1));
    } else {
        assert(spec_rot_left_k(d, w, h, 1) == spec_rot_left_k(spec_rot_left(d, w, h), h, w, 0));
        assert(spec_rot_left_k(d, w, h, 0) == d);
    }
}

/// `k` left turns keep the byte count.
proof fn lemma_rot_k_len(d: Seq<u8>, w: int, h: int, k: int)
    requires
        k >= 0,
    ensures
        spec_rot_left_k(d, w, h, k).len() == d.len(),
    decreases k,
{
    if k > 0 {
        lemma_rot_k_len(spec_rot_left(d, w, h), h, w, k - 1);
    }
}

/// What `render` (`get_transformed_rgba8_pixels`) must return, stage by
/// stage: deswizzle, decode to RGBA8, flips, net rotation, channel filter,
/// then — only when a compressed preview is asked for — re-encode, swizzle
/// and decode back; without the compressed preview only the swizzle (over
/// RGBA8) runs. The first failing stage's error is the result.
pub open spec fn spec_render(
    eff: TextureEffects,
    w: u32,
    h: u32,
    f: PixelFormat,
    data: Seq<u8>,
    want_compressed: bool,
) -> Result<(u32, u32, Seq<u8>), TexError> {
    let step1 = match eff.deswizzle {
        Option::Some(p) => spec_platform_deswizzle(p, f, w, h, data),
        Option::None => Result::Ok(data),
    };
    match step1 {
        Result::Err(e) => Result::Err(e),
        Result::Ok(d1) => match spec_decode_result(f, d1, w, h) {
            Result::Err(e) => Result::Err(e),
            Result::Ok(rgba) => {
                let f1 = if eff.flip_vertical_count % 2 == 1 {
                    spec_flip_v(rgba, w as int, h as int)
                } else {
                    rgba
                };
                let f2 = if eff.flip_horizontal_count % 2 == 1 {
                    spec_flip_h(f1, w as int, h as int)
                } else {
                    f1
                };
                let rot = spec_net_rotation(eff);
                let f3 = spec_rot_left_k(f2, w as int, h as int, rot);
                let w2 = if rot % 2 == 1 {
                    h
                } else {
                    w
                };
                let h2 = if rot % 2 == 1 {
                    w
                } else {
                    h
                };
                let f4 = spec_filter(
                    f3,
                    eff.channel_filter.0,
                    eff.channel_filter.1,
                    eff.channel_filter.2,
                    eff.channel_filter.3,
                );
                let step7 = if want_compressed {
                    spec_encode_result(eff.pixel_format, f4, w2, h2)
                } else {
                    Result::Ok(f4)
                };
                match step7 {
                    Result::Err(e) => Result::Err(e),
                    Result::Ok(f5) => {
                        let sfmt = if want_compressed {
                            eff.pixel_format
                        } else {
                            PixelFormat::R8G8B8A8
                        };
                        let step8 = match eff.swizzle {
                            Option::Some(p) => spec_platform_swizzle(p, sfmt, w2, h2, f5),
                            Option::None => Result::Ok(f5),
                        };
                        match step8 {
                            Result::Err(e) => Result::Err(e),
                            Result::Ok(f6) => if want_compressed {
                                match spec_decode_result(eff.pixel_format, f6, w2, h2) {
                                    Result::Err(e) => Result::Err(e),
                                    Result::Ok(f7) => Result::Ok((w2, h2, f7)),
                                }
                            } else {
                                Result::Ok((w2, h2, f6))
                            },
                        }
                    },
                }
            },
        },
    }
}

/// What `bake` (`get_transformed_pixels`) must produce for the pixel part:
/// the same stages as `render` with the re-encode and swizzle always run and
/// no decode back, plus the requirement that the new plane's pitches fit the
/// 32-bit plane model.
pub open spec fn spec_bake(
    eff: TextureEffects,
    w: u32,
    h: u32,
    f: PixelFormat,
    data: Seq<u8>,
) -> Result<(u32, u32, Seq<u8>), TexError> {
    let step1 = match eff.deswizzle {
        Option::Some(p) => spec_platform_deswizzle(p, f, w, h, data),
        Option::None => Result::Ok(data),
    };
    match step1 {
        Result::Err(e) => Result::Err(e),
        Result::Ok(d1) => match spec_decode_result(f, d1, w, h) {
            Result::Err(e) => Result::Err(e),
            Result::Ok(rgba) => {
                let f1 = if eff.flip_vertical_count % 2 == 1 {
                    spec_flip_v(rgba, w as int, h as int)
                } else {
                    rgba
                };
                let f2 = if eff.flip_horizontal_count % 2 == 1 {
                    spec_flip_h(f1, w as int, h as int)
                } else {
                    f1
                };
                let rot = spec_net_rotation(eff);
                let f3 = spec_rot_left_k(f2, w as int, h as int, rot);
                let w2 = if rot % 2 == 1 {
                    h
                } else {
                    w
                };
                let h2 = if rot % 2 == 1 {
                    w
                } else {
                    h
                };
                let f4 = spec_filter(
                    f3,
                    eff.channel_filter.0,
                    eff.channel_filter.1,
                    eff.channel_filter.2,
                    eff.channel_filter.3,
                );
                match spec_encode_result(eff.pixel_format, f4, w2, h2) {
                    Result::Err(e) => Result::Err(e),
                    Result::Ok(f5) => {
                        let step8 = match eff.swizzle {
                            Option::Some(p) => spec_platform_swizzle(p, eff.pixel_format, w2, h2, f5),
                            Option::None => Result::Ok(f5),
                        };
                        match step8 {
                            Result::Err(e) => Result::Err(e),
                            Result::Ok(f6) => if spec_row_pitch(eff.pixel_format, w2 as int)
                                <= u32::MAX && spec_slice_pitch(
                                eff.pixel_format,
                                w2 as int,
                                h2 as int,
                            ) <= u32::MAX {
                                Result::Ok((w2, h2, f6))
                            } else {
                                Result::Err(TexError::UnsupportedOperation)
                            },
                        }
                    },
                }
            },
        },
    }
}

/// The baked plane `dst` is what `spec_bake` assigns to the source plane
/// `src` under `eff`, with its descriptor and pitches rebuilt for the target
/// format.
pub open spec fn spec_baked_image(eff: TextureEffects, src: Image, dst: Image) -> bool {
    let s = spec_bake(eff, src.width, src.height, src.pixel_format_info.pixel_format, src.pixels@);
    &&& s is Ok
    &&& dst.width == s->Ok_0.0
    &&& dst.height == s->Ok_0.1
    &&& dst.pixels@ == s->Ok_0.2
    &&& dst.pixel_format_info == (PixelFormatInfo {
        pixel_format: eff.pixel_format,
        pixel_data_type: PixelDataType::UNorm,
        color_space: ColorSpace::Linear,
        is_premultiplied: false,
    })
    &&& dst.row_pitch == spec_row_pitch(eff.pixel_format, s->Ok_0.0 as int)
    &&& dst.slice_pitch == spec_slice_pitch(eff.pixel_format, s->Ok_0.0 as int, s->Ok_0.1 as int)
}

/// `spec_bake` of a whole plane value.
pub open spec fn spec_bake_of_image(eff: TextureEffects, img: Image) -> Result<
    (u32, u32, Seq<u8>),
    TexError,
> {
    spec_bake(eff, img.width, img.height, img.pixel_format_info.pixel_format, img.pixels@)
}

impl TextureEffects {
    /// Stages 1 through 6 shared by `render` and `bake`: deswizzle, decode,
    /// flips, net rotation and channel filter. Returns the transformed RGBA8
    /// plane and its (possibly swapped) dimensions.
    fn transform_rgba_stages(&self, image: &Image) -> (r: Result<(u32, u32, Vec<u8>), TexError>)
        ensures
            ({
                let step1 = match self.deswizzle {
                    Option::Some(p) => spec_platform_deswizzle(
                        p,
                        image.pixel_format_info.pixel_format,
                        image.width,
                        image.height,
                        image.pixels@,
                    ),
                    Option::None => Result::Ok(image.pixels@),
                };
                match step1 {
                    Result::Err(e) => r is Err && r->Err_0 == e,
                    Result::Ok(d1) => match spec_decode_result(
                        image.pixel_format_info.pixel_format,
                        d1,
                        image.width,
                        image.height,
                    ) {
                        Result::Err(e) => r is Err && r->Err_0 == e,
                        Result::Ok(rgba) => {
                            let f1 = if self.flip_vertical_count % 2 == 1 {
                                spec_flip_v(rgba, image.width as int, image.height as int)
                            } else {
                                rgba
                            };
                            let f2 = if self.flip_horizontal_count % 2 == 1 {
                                spec_flip_h(f1, image.width as int, image.height as int)
                            } else {
                                f1
                            };
                            let rot = spec_net_rotation(*self);
                            let f3 = spec_rot_left_k(
                                f2,
                                image.width as int,
                                image.height as int,
                                rot,
                            );
                            let w2 = if rot % 2 == 1 {
                                image.height
                            } else {
                                image.width
                            };
                            let h2 = if rot % 2 == 1 {
                                image.width
                            } else {
                                image.height
                            };
                            let f4 = spec_filter(
                                f3,
                                self.channel_filter.0,
                                self.channel_filter.1,
                                self.channel_filter.2,
                                self.channel_filter.3,
                            );
                            r is Ok && r->Ok_0.0 == w2 && r->Ok_0.1 == h2 && r->Ok_0.2@ == f4
                                && f4.len() == 4 * (w2 as int) * (h2 as int)
                        },
                    },
                }
            }),
    {
        let fmt = image.pixel_format_info.pixel_format;
        let mut width = image.width;
        let mut height = image.height;
        let data: Vec<u8> = match self.deswizzle {
            Some(platform) => {
                let swizzler = Swizzler::default();
                match swizzler.deswizzle(image.pixels.as_slice(), width, height, fmt, platform) {
                    Ok(v) => v,
                    Err(e) => {
                        return Err(e);
                    },
                }
            },
            None => vstd::slice::slice_to_vec(image.pixels.as_slice()),
        };
        let rgba = match PixelDecoder::decode(data.as_slice(), fmt, width, height) {
            Ok(v) => v,
            Err(e) => {
                return Err(e);
            },
        };
        proof {
            lemma_decode_result_len(fmt, data@, width, height);
        }
        let ghost rgba0 = rgba@;
        let mut buf = rgba;
        if self.flip_vertical_count % 2 == 1 {
            buf = TextureProcessingUtility::flip_vertical_raw(buf.as_slice(), width, height);
        }
        let ghost f1 = buf@;
        if self.flip_horizontal_count % 2 == 1 {
            buf = TextureProcessingUtility::flip_horizontal_raw(buf.as_slice(), width, height);
        }
        let ghost f2 = buf@;
        let ghost w1 = width as int;
        let ghost h1 = height as int;
        let net: u32 = ((self.rotate_90_left_count % 4) + 4 - (self.rotate_90_right_count % 4)) % 4;
        proof {
            assert(net == spec_net_rotation(*self));
        }
        let mut k: u32 = 0;
        while k < net
            invariant
                k <= net,
                net < 4,
                w1 >= 0,
                h1 >= 0,
                f2.len() == 4 * w1 * h1,
                buf@ == spec_rot_left_k(f2, w1, h1, k as int),
                (k % 2 == 0 ==> width as int == w1 && height as int == h1),
                (k % 2 == 1 ==> width as int == h1 && height as int == w1),
                buf@.len() == 4 * (width as int) * (height as int),
            decreases net - k,
        {
            proof {
                lemma_rot_snoc(f2, w1, h1, k as int);
            }
            let nb = TextureProcessingUtility::rotate_90_left_raw(buf.as_slice(), width, height);
            buf = nb;
            let t = width;
            width = height;
            height = t;
            proof {
                assert(4 * (width as int) * (height as int) == 4 * (height as int) * (
                width as int)) by (nonlinear_arith);
            }
            k = k + 1;
        }
        let filtered = TextureProcessingUtility::filter_colors(buf.as_slice(), self.channel_filter);
        proof {
            assert(4 * (width as int) * (height as int) == 4 * w1 * h1) by (nonlinear_arith)
                requires
                    (width as int == w1 && height as int == h1) || (width as int == h1
                        && height as int == w1),
            ;
        }
        Ok((width, height, filtered))
    }

    /// Render one plane for display: stages 1-6, then — when a compressed
    /// preview is wanted — re-encode, swizzle and decode back to RGBA8.
    #[verifier::rlimit(60)]
    pub fn get_transformed_rgba8_pixels(&self, image: &Image, display_compressed: bool) -> (r:
        Result<(u32, u32, Vec<u8>), TexError>)
        ensures
            ({
                let s = spec_render(
                    *self,
                    image.width,
                    image.height,
                    image.pixel_format_info.pixel_format,
                    image.pixels@,
                    display_compressed,
                );
                match r {
                    Ok(v) => s is Ok && v.0 == s->Ok_0.0 && v.1 == s->Ok_0.1 && v.2@ == s->Ok_0.2,
                    Err(e) => s is Err && e == s->Err_0,
                }
            }),
    {
        let (width, height, f4) = self.transform_rgba_stages(image)?;
        let f5: Vec<u8> = if display_compressed {
            match PixelEncoder::encode(f4.as_slice(), self.pixel_format, width, height) {
                Ok(v) => v,
                Err(e) => {
                    return Err(e);
                },
            }
        } else {
            f4
        };
        let f6: Vec<u8> = match self.swizzle {
            Some(platform) => {
                let swizzler = Swizzler::default();
                let sfmt = if display_compressed {
                    self.pixel_format
                } else {
                    PixelFormat::R8G8B8A8
                };
                match swizzler.swizzle(f5.as_slice(), width, height, sfmt, platform) {
                    Ok(v) => v,
                    Err(e) => {
                        return Err(e);
                    },
                }
            },
            None => f5,
        };
        if display_compressed {
            let f7 = match PixelDecoder::decode(f6.as_slice(), self.pixel_format, width, height) {
                Ok(v) => v,
                Err(e) => {
                    return Err(e);
                },
            };
            Ok((width, height, f7))
        } else {
            Ok((width, height, f6))
        }
    }

    /// Bake one plane for persisting: stages 1-6, then always re-encode to
    /// the target format and swizzle; the plane descriptor is rebuilt from
    /// the target format and the new dimensions.
    pub fn get_transformed_pixels(&self, image: &Image) -> (r: Result<Image, TexError>)
        ensures
            match r {
                Ok(img) => spec_baked_image(*self, *image, img),
                Err(e) => spec_bake_of_image(*self, *image) is Err && e == spec_bake_of_image(
                    *self,
                    *image,
                )->Err_0,
            },
    {
        let (width, height, f4) = self.transform_rgba_stages(image)?;
        let f5 = match PixelEncoder::encode(f4.as_slice(), self.pixel_format, width, height) {
            Ok(v) => v,
            Err(e) => {
                return Err(e);
            },
        };
        let f6: Vec<u8> = match self.swizzle {
            Some(platform) => {
                let swizzler = Swizzler::default();
                match swizzler.swizzle(f5.as_slice(), width, height, self.pixel_format, platform) {
                    Ok(v) => v,
                    Err(e) => {
                        return Err(e);
                    },
                }
            },
            None => f5,
        };
        let row_pitch = match self.pixel_format.try_row_pitch(width) {
            Some(p) => p,
            None => {
                return Err(TexError::UnsupportedOperation);
            },
        };
        let slice_pitch = match self.pixel_format.try_slice_pitch(width, height) {
            Some(p) => p,
            None => {
                return Err(TexError::UnsupportedOperation);
            },
        };
        Ok(
            Image {
                width,
                height,
                pixel_format_info: PixelFormatInfo {
                    pixel_format: self.pixel_format,
                    pixel_data_type: PixelDataType::UNorm,
                    color_space: ColorSpace::Linear,
                    is_premultiplied: false,
                },
                row_pitch,
                slice_pitch,
                pixels: f6,
            },
        )
    }
}

/// Law: the rotate and flip accumulators act only through their residues, so
/// four extra left turns or two extra flips leave every render and bake
/// unchanged — width, height and pixels alike.
pub proof fn lemma_accumulators_reduce(
    eff1: TextureEffects,
    eff2: TextureEffects,
    w: u32,
    h: u32,
    f: PixelFormat,
    data: Seq<u8>,
    want_compressed: bool,
)
    requires
        eff1.rotate_90_left_count % 4 == eff2.rotate_90_left_count % 4,
        eff1.rotate_90_right_count % 4 == eff2.rotate_90_right_count % 4,
        eff1.flip_horizontal_count % 2 == eff2.flip_horizontal_count % 2,
        eff1.flip_vertical_count % 2 == eff2.flip_vertical_count % 2,
        eff1.channel_filter == eff2.channel_filter,
        eff1.swizzle == eff2.swizzle,
        eff1.deswizzle == eff2.deswizzle,
        eff1.pixel_format == eff2.pixel_format,
    ensures
        spec_render(eff1, w, h, f, data, want_compressed) == spec_render(
            eff2,
            w,
            h,
            f,
            data,
            want_compressed,
        ),
        spec_bake(eff1, w, h, f, data) == spec_bake(eff2, w, h, f, data),
{
    assert(spec_net_rotation(eff1) == spec_net_rotation(eff2));
}

/// Law: with no swizzle stage and no compressed preview, the rendered plane
/// honours the channel filter byte for byte — a disabled alpha channel reads
/// 255 in every pixel, and a disabled red, green or blue channel reads 0.
pub proof fn lemma_render_channel_filter(
    eff: TextureEffects,
    w: u32,
    h: u32,
    f: PixelFormat,
    data: Seq<u8>,
)
    requires
        eff.swizzle is None,
        spec_render(eff, w, h, f, data, false) is Ok,
    ensures
        ({
            let out = spec_render(eff, w, h, f, data, false)->Ok_0.2;
            forall|i: int|
                0 <= i < out.len() ==> {
                    &&& (i % 4 == 0 && !eff.channel_filter.0 ==> #[trigger] out[i] == 0)
                    &&& (i % 4 == 1 && !eff.channel_filter.1 ==> out[i] == 0)
                    &&& (i % 4 == 2 && !eff.channel_filter.2 ==> out[i] == 0)
                    &&& (i % 4 == 3 && !eff.channel_filter.3 ==> out[i] == 255)
                }
        }),
{
}

} // verus!
