use vstd::prelude::*;

use crate::error::TexError;
use crate::graphics::pixel_format::{
    spec_is_compressed, spec_slice_pitch, ColorSpace, PixelDataType, PixelFormat, PixelFormatInfo,
};
use crate::graphics::texture::TexDimension;

verus! {

/// Little-endian encoding of one 32-bit word.
pub open spec fn spec_u32le(v: u32) -> Seq<u8> {
    seq![
        (v & 0xFF) as u8,
        ((v >> 8) & 0xFF) as u8,
        ((v >> 16) & 0xFF) as u8,
        ((v >> 24) & 0xFF) as u8,
    ]
}

/// Append the little-endian encoding of `v` to `out`.
pub fn push_u32le(out: &mut Vec<u8>, v: u32)
    ensures
        final(out)@ == old(out)@ + spec_u32le(v),
{
    let ghost pre = out@;
    out.push((v & 0xFF) as u8);
    out.push(((v >> 8) & 0xFF) as u8);
    out.push(((v >> 16) & 0xFF) as u8);
    out.push(((v >> 24) & 0xFF) as u8);
    proof {
        assert(out@ =~= pre + spec_u32le(v));
    }
}

/// The DXGI format code this library assigns to each of its pixel formats,
/// 0 where no code exists.
pub open spec fn spec_dxgi_code(f: PixelFormat) -> u32 {
    match f {
        PixelFormat::R1 => 66,
        PixelFormat::A8 => 65,
        PixelFormat::R8 => 61,
        PixelFormat::R8G8 => 49,
        PixelFormat::R8G8B8A8 => 28,
        PixelFormat::B8G8R8A8 => 87,
        PixelFormat::B8G8R8X8 => 88,
        PixelFormat::B4G4R4A4 => 115,
        PixelFormat::B5G6R5 => 85,
        PixelFormat::B5G5R5A1 => 86,
        PixelFormat::R16 => 56,
        PixelFormat::R16G16 => 35,
        PixelFormat::R16G16B16A16 => 11,
        PixelFormat::R32 => 41,
        PixelFormat::R32G32 => 16,
        PixelFormat::R32G32B32 => 6,
        PixelFormat::R32G32B32A32 => 2,
        PixelFormat::R10G10B10A2 => 24,
        PixelFormat::R11G11B10 => 26,
        PixelFormat::R9G9B9E5 => 67,
        PixelFormat::D16 => 55,
        PixelFormat::BC1 => 71,
        PixelFormat::BC2 => 74,
        PixelFormat::BC3 => 77,
        PixelFormat::BC4 => 80,
        PixelFormat::BC5 => 83,
        PixelFormat::BC6H => 95,
        PixelFormat::BC7 => 98,
        _ => 0,
    }
}

/// The 148-byte header of the minimal one-plane DDS container this library
/// writes to hand raw pixels to DirectXTex: magic, the legacy header with a
/// `DX10` four-character code, and the DX10 extension naming the format.
pub open spec fn spec_dds_shim_prefix(dxgi: u32, width: u32, height: u32) -> Seq<u8> {
    spec_u32le(0x20534444) + spec_u32le(124) + spec_u32le(0x1007) + spec_u32le(height) + spec_u32le(
        width,
    ) + spec_u32le(0) + spec_u32le(0) + spec_u32le(1) + spec_zero_words(11) + spec_u32le(32)
        + spec_u32le(4) + spec_u32le(0x30315844)
        + spec_u32le(0) + spec_u32le(0) + spec_u32le(0) + spec_u32le(0) + spec_u32le(0)
        + spec_u32le(0x1000) + spec_u32le(0) + spec_u32le(0) + spec_u32le(0) + spec_u32le(0)
        + spec_u32le(dxgi) + spec_u32le(3) + spec_u32le(0) + spec_u32le(1) + spec_u32le(0)
}

/// A one-plane DDS container holding `payload` in format `dxgi`.
pub open spec fn spec_dds_shim(dxgi: u32, width: u32, height: u32, payload: Seq<u8>) -> Seq<u8> {
    spec_dds_shim_prefix(dxgi, width, height) + payload
}

/// Serialize the one-plane DDS container around `payload`.
pub fn build_dds_shim(dxgi: u32, width: u32, height: u32, payload: &[u8]) -> (r: Vec<u8>)
    ensures
        r@ == spec_dds_shim(dxgi, width, height, payload@),
{
    let mut out: Vec<u8> = Vec::new();
    push_u32le(&mut out, 0x20534444);
    push_u32le(&mut out, 124);
    push_u32le(&mut out, 0x1007);
    push_u32le(&mut out, height);
    push_u32le(&mut out, width);
    push_u32le(&mut out, 0);
    push_u32le(&mut out, 0);
    push_u32le(&mut out, 1);
    let mut k: usize = 0;
    let ghost after_mips = out@;
    while k < 11
        invariant
            k <= 11,
            out@.len() == after_mips.len() + 4 * k,
            out@ == after_mips + spec_zero_words(k as int),
        decreases 11 - k,
    {
        push_u32le(&mut out, 0);
        proof {
            assert(spec_zero_words(k + 1) =~= spec_zero_words(k as int) + spec_u32le(0));
            assert(out@ =~= after_mips + spec_zero_words(k + 1));
        }
        k = k + 1;
    }
    push_u32le(&mut out, 32);
    push_u32le(&mut out, 4);
    push_u32le(&mut out, 0x30315844);
    push_u32le(&mut out, 0);
    push_u32le(&mut out, 0);
    push_u32le(&mut out, 0);
    push_u32le(&mut out, 0);
    push_u32le(&mut out, 0);
    push_u32le(&mut out, 0x1000);
    push_u32le(&mut out, 0);
    push_u32le(&mut out, 0);
    push_u32le(&mut out, 0);
    push_u32le(&mut out, 0);
    push_u32le(&mut out, dxgi);
    push_u32le(&mut out, 3);
    push_u32le(&mut out, 0);
    push_u32le(&mut out, 1);
    push_u32le(&mut out, 0);
    out.extend_from_slice(payload);
    proof {
        assert(out@ =~= spec_dds_shim(dxgi, width, height, payload@));
    }
    out
}

/// `n` zeroed 32-bit words.
pub open spec fn spec_zero_words(n: int) -> Seq<u8>
    decreases n,
{
    if n <= 0 {
        Seq::empty()
    } else {
        spec_zero_words(n - 1) + spec_u32le(0)
    }
}

/// What DirectXTex yields when the DDS container `dds` is loaded and
/// decompressed to R8G8B8A8: `None` where it reports an error.
pub uninterp spec fn dxt_decompress_of(dds: Seq<u8>) -> Option<Seq<u8>>;

/// What DirectXTex yields when the DDS container `dds` is loaded and
/// converted to R8G8B8A8: `None` where it reports an error.
pub uninterp spec fn dxt_convert_to_rgba_of(dds: Seq<u8>) -> Option<Seq<u8>>;

/// What DirectXTex yields when the DDS container `dds` (holding R8G8B8A8
/// pixels) is loaded and block-compressed to the format coded `target`.
pub uninterp spec fn dxt_compress_of(dds: Seq<u8>, target: u32) -> Option<Seq<u8>>;

/// What DirectXTex yields when the DDS container `dds` (holding R8G8B8A8
/// pixels) is loaded and converted to the format coded `target`.
pub uninterp spec fn dxt_convert_from_rgba_of(dds: Seq<u8>, target: u32) -> Option<Seq<u8>>;

/// Relies on directxtex: `ScratchImage::load_dds` parses the container,
/// `decompress` expands a block-compressed image to `R8G8B8A8_UNORM`, and
/// `pixels` hands back the resulting plane; the outcome depends on the DDS
/// bytes alone.
#[verifier::external_body]
fn dxt_run_decompress(dds: &[u8]) -> (r: Result<Vec<u8>, TexError>)
    ensures
        match r {
            Ok(v) => dxt_decompress_of(dds@) == Some(v@),
            Err(e) => dxt_decompress_of(dds@) is None && e == TexError::UnsupportedOperation,
        },
{
    let scratch = match directxtex::ScratchImage::load_dds(
        dds,
        directxtex::DDS_FLAGS::DDS_FLAGS_NONE,
        None,
        None,
    ) {
        Ok(s) => s,
        Err(_) => return Err(TexError::UnsupportedOperation),
    };
    match scratch.decompress(directxtex::DXGI_FORMAT::DXGI_FORMAT_R8G8B8A8_UNORM) {
        Ok(s) => Ok(s.pixels().to_vec()),
        Err(_) => Err(TexError::UnsupportedOperation),
    }
}

/// Relies on directxtex: `ScratchImage::load_dds` parses the container and
/// `convert` re-encodes the image as `R8G8B8A8_UNORM`; the outcome depends on
/// the DDS bytes alone.
#[verifier::external_body]
fn dxt_run_convert_to_rgba(dds: &[u8]) -> (r: Result<Vec<u8>, TexError>)
    ensures
        match r {
            Ok(v) => dxt_convert_to_rgba_of(dds@) == Some(v@),
            Err(e) => dxt_convert_to_rgba_of(dds@) is None && e == TexError::UnsupportedOperation,
        },
{
    let scratch = match directxtex::ScratchImage::load_dds(
        dds, directxtex::DDS_FLAGS::DDS_FLAGS_NONE, None, None,
    ) {
        Ok(s) => s,
        Err(_) => return Err(TexError::UnsupportedOperation),
    };
    match scratch.convert(
        directxtex::DXGI_FORMAT::DXGI_FORMAT_R8G8B8A8_UNORM,
        directxtex::TEX_FILTER_FLAGS::TEX_FILTER_DEFAULT, directxtex::TEX_THRESHOLD_DEFAULT,
    ) {
        Ok(s) => Ok(s.pixels().to_vec()),
        Err(_) => Err(TexError::UnsupportedOperation),
    }
}

/// Relies on directxtex: `ScratchImage::load_dds` parses the container and
/// `compress` block-compresses the R8G8B8A8 image to the format coded
/// `target`; the outcome depends on the DDS bytes and the target alone.
#[verifier::external_body]
fn dxt_run_compress(dds: &[u8], target: u32) -> (r: Result<Vec<u8>, TexError>)
    ensures
        match r {
            Ok(v) => dxt_compress_of(dds@, target) == Some(v@),
            Err(e) => dxt_compress_of(dds@, target) is None && e == TexError::UnsupportedOperation,
        },
{
    let scratch = match directxtex::ScratchImage::load_dds(
        dds, directxtex::DDS_FLAGS::DDS_FLAGS_NONE, None, None,
    ) {
        Ok(s) => s,
        Err(_) => return Err(TexError::UnsupportedOperation),
    };
    match scratch.compress(
        directxtex::DXGI_FORMAT::from(target),
        directxtex::TEX_COMPRESS_FLAGS::TEX_COMPRESS_DEFAULT, directxtex::TEX_THRESHOLD_DEFAULT,
    ) {
        Ok(s) => Ok(s.pixels().to_vec()),
        Err(_) => Err(TexError::UnsupportedOperation),
    }
}

/// Relies on directxtex: `ScratchImage::load_dds` parses the container and
/// `convert` re-encodes the R8G8B8A8 image as the format coded `target`; the
/// outcome depends on the DDS bytes and the target alone.
#[verifier::external_body]
fn dxt_run_convert_from_rgba(dds: &[u8], target: u32) -> (r: Result<Vec<u8>, TexError>)
    ensures
        match r {
            Ok(v) => dxt_convert_from_rgba_of(dds@, target) == Some(v@),
            Err(e) => dxt_convert_from_rgba_of(dds@, target) is None && e
                == TexError::UnsupportedOperation,
        },
{
    let scratch = match directxtex::ScratchImage::load_dds(
        dds, directxtex::DDS_FLAGS::DDS_FLAGS_NONE, None, None,
    ) {
        Ok(s) => s,
        Err(_) => return Err(TexError::UnsupportedOperation),
    };
    match scratch.convert(
        directxtex::DXGI_FORMAT::from(target),
        directxtex::TEX_FILTER_FLAGS::TEX_FILTER_DEFAULT, directxtex::TEX_THRESHOLD_DEFAULT,
    ) {
        Ok(s) => Ok(s.pixels().to_vec()),
        Err(_) => Err(TexError::UnsupportedOperation),
    }
}

/// What `decompress_bc_to_rgba` must return: the named DirectXTex result if
/// it exists and has the exact RGBA8 plane size, an error otherwise.
pub open spec fn spec_decompress_bc(f: PixelFormat, w: u32, h: u32, data: Seq<u8>) -> Result<
    Seq<u8>,
    TexError,
> {
    if !spec_is_compressed(f) {
        Result::Err(TexError::UnsupportedFormat)
    } else {
        match dxt_decompress_of(spec_dds_shim(spec_dxgi_code(f), w, h, data)) {
            Some(s) => if s.len() == 4 * (w as int) * (h as int) {
                Result::Ok(s)
            } else {
                Result::Err(TexError::MalformedFile)
            },
            None => Result::Err(TexError::UnsupportedOperation),
        }
    }
}

/// What `convert_dxgi_to_rgba` must return.
pub open spec fn spec_convert_to_rgba(f: PixelFormat, w: u32, h: u32, data: Seq<u8>) -> Result<
    Seq<u8>,
    TexError,
> {
    if spec_dxgi_code(f) == 0 || spec_is_compressed(f) {
        Result::Err(TexError::UnsupportedFormat)
    } else {
        match dxt_convert_to_rgba_of(spec_dds_shim(spec_dxgi_code(f), w, h, data)) {
            Some(s) => if s.len() == 4 * (w as int) * (h as int) {
                Result::Ok(s)
            } else {
                Result::Err(TexError::MalformedFile)
            },
            None => Result::Err(TexError::UnsupportedOperation),
        }
    }
}

/// What `compress_rgba_to_bc` must return.
pub open spec fn spec_compress_bc(f: PixelFormat, w: u32, h: u32, rgba: Seq<u8>) -> Result<
    Seq<u8>,
    TexError,
> {
    if !spec_is_compressed(f) {
        Result::Err(TexError::UnsupportedFormat)
    } else {
        match dxt_compress_of(spec_dds_shim(28, w, h, rgba), spec_dxgi_code(f)) {
            Some(s) => if s.len() == spec_slice_pitch(f, w as int, h as int) {
                Result::Ok(s)
            } else {
                Result::Err(TexError::MalformedFile)
            },
            None => Result::Err(TexError::UnsupportedOperation),
        }
    }
}

/// What `convert_rgba_to_dxgi` must return.
pub open spec fn spec_convert_from_rgba(f: PixelFormat, w: u32, h: u32, rgba: Seq<u8>) -> Result<
    Seq<u8>,
    TexError,
> {
    if spec_dxgi_code(f) == 0 || spec_is_compressed(f) {
        Result::Err(TexError::UnsupportedFormat)
    } else {
        match dxt_convert_from_rgba_of(spec_dds_shim(28, w, h, rgba), spec_dxgi_code(f)) {
            Some(s) => if s.len() == spec_slice_pitch(f, w as int, h as int) {
                Result::Ok(s)
            } else {
                Result::Err(TexError::MalformedFile)
            },
            None => Result::Err(TexError::UnsupportedOperation),
        }
    }
}

/// True when `len` equals the RGBA8 plane size `4 * w * h`.
fn rgba8_len_matches(len: usize, w: u32, h: u32) -> (r: bool)
    ensures
        r == (len == 4 * (w as int) * (h as int)),
{
    proof {
        assert((4u128 * (w as u128)) * (h as u128) == 4 * (w as int) * (h as int)
            && (4u128 * (w as u128)) * (h as u128) < 0x100000000000000000u128) by (nonlinear_arith)
            requires
                w <= 0xFFFFFFFFu32,
                h <= 0xFFFFFFFFu32,
        ;
    }
    (len as u128) == (4u128 * (w as u128)) * (h as u128)
}

/// True when `len` equals the slice pitch of `f` at `w` by `h`.
fn pitch_len_matches(len: usize, f: PixelFormat, w: u32, h: u32) -> (r: bool)
    ensures
        r == (len == spec_slice_pitch(f, w as int, h as int)),
{
    (len as u128) == f.slice_pitch_u128(w, h)
}

/// The data type the format tables assign to each pixel format.
pub open spec fn spec_datatype_of(f: PixelFormat) -> PixelDataType {
    match f {
        PixelFormat::R32
        | PixelFormat::R32G32
        | PixelFormat::R32G32B32
        | PixelFormat::R32G32B32A32
        | PixelFormat::R11G11B10
        | PixelFormat::R9G9B9E5
        | PixelFormat::BC6H => PixelDataType::Float,
        _ => PixelDataType::UNorm,
    }
}

/// The pixel format this library's table assigns to a DXGI format code.
pub open spec fn spec_format_of_code(code: u32) -> PixelFormat {
    if code == 66 {
        PixelFormat::R1
    } else if code == 65 {
        PixelFormat::A8
    } else if code == 61 {
        PixelFormat::R8
    } else if code == 49 {
        PixelFormat::R8G8
    } else if code == 28 || code == 29 {
        PixelFormat::R8G8B8A8
    } else if code == 87 || code == 91 {
        PixelFormat::B8G8R8A8
    } else if code == 88 || code == 93 {
        PixelFormat::B8G8R8X8
    } else if code == 115 {
        PixelFormat::B4G4R4A4
    } else if code == 85 {
        PixelFormat::B5G6R5
    } else if code == 86 {
        PixelFormat::B5G5R5A1
    } else if code == 56 {
        PixelFormat::R16
    } else if code == 35 {
        PixelFormat::R16G16
    } else if code == 11 {
        PixelFormat::R16G16B16A16
    } else if code == 41 {
        PixelFormat::R32
    } else if code == 16 {
        PixelFormat::R32G32
    } else if code == 6 {
        PixelFormat::R32G32B32
    } else if code == 2 {
        PixelFormat::R32G32B32A32
    } else if code == 24 {
        PixelFormat::R10G10B10A2
    } else if code == 26 {
        PixelFormat::R11G11B10
    } else if code == 67 {
        PixelFormat::R9G9B9E5
    } else if code == 55 {
        PixelFormat::D16
    } else if code == 71 || code == 72 {
        PixelFormat::BC1
    } else if code == 74 || code == 75 {
        PixelFormat::BC2
    } else if code == 77 || code == 78 {
        PixelFormat::BC3
    } else if code == 80 {
        PixelFormat::BC4
    } else if code == 83 {
        PixelFormat::BC5
    } else if code == 95 {
        PixelFormat::BC6H
    } else if code == 98 || code == 99 {
        PixelFormat::BC7
    } else {
        PixelFormat::Unknown
    }
}

/// Whether a DXGI code is one of the SRGB-coded variants.
pub open spec fn spec_code_is_srgb(code: u32) -> bool {
    code == 29 || code == 91 || code == 93 || code == 72 || code == 75 || code == 78 || code == 99
}

/// Adapters between this library's pixel model and DirectXTex.
pub struct DirectXTexUtility;

impl DirectXTexUtility {
    /// The DXGI format code of a pixel format, 0 where none exists.
    pub fn get_dxgi_format_from_pixel_format(pixel_format: PixelFormat) -> (r: u32)
        ensures
            r == spec_dxgi_code(pixel_format),
    {
        match pixel_format {
            PixelFormat::R1 => 66,
            PixelFormat::A8 => 65,
            PixelFormat::R8 => 61,
            PixelFormat::R8G8 => 49,
            PixelFormat::R8G8B8A8 => 28,
            PixelFormat::B8G8R8A8 => 87,
            PixelFormat::B8G8R8X8 => 88,
            PixelFormat::B4G4R4A4 => 115,
            PixelFormat::B5G6R5 => 85,
            PixelFormat::B5G5R5A1 => 86,
            PixelFormat::R16 => 56,
            PixelFormat::R16G16 => 35,
            PixelFormat::R16G16B16A16 => 11,
            PixelFormat::R32 => 41,
            PixelFormat::R32G32 => 16,
            PixelFormat::R32G32B32 => 6,
            PixelFormat::R32G32B32A32 => 2,
            PixelFormat::R10G10B10A2 => 24,
            PixelFormat::R11G11B10 => 26,
            PixelFormat::R9G9B9E5 => 67,
            PixelFormat::D16 => 55,
            PixelFormat::BC1 => 71,
            PixelFormat::BC2 => 74,
            PixelFormat::BC3 => 77,
            PixelFormat::BC4 => 80,
            PixelFormat::BC5 => 83,
            PixelFormat::BC6H => 95,
            PixelFormat::BC7 => 98,
            _ => 0,
        }
    }

    /// The pixel format a DXGI format code maps to, `Unknown` where the code
    /// is not in this library's table. SRGB-coded variants map to the same
    /// format as their linear twins.
    pub fn get_pixel_format_from_image(dxgi_code: u32) -> (r: PixelFormat)
        ensures
            r == spec_format_of_code(dxgi_code),
    {
        match dxgi_code {
            66 => PixelFormat::R1,
            65 => PixelFormat::A8,
            61 => PixelFormat::R8,
            49 => PixelFormat::R8G8,
            28 => PixelFormat::R8G8B8A8,
            29 => PixelFormat::R8G8B8A8,
            87 => PixelFormat::B8G8R8A8,
            91 => PixelFormat::B8G8R8A8,
            88 => PixelFormat::B8G8R8X8,
            93 => PixelFormat::B8G8R8X8,
            115 => PixelFormat::B4G4R4A4,
            85 => PixelFormat::B5G6R5,
            86 => PixelFormat::B5G5R5A1,
            56 => PixelFormat::R16,
            35 => PixelFormat::R16G16,
            11 => PixelFormat::R16G16B16A16,
            41 => PixelFormat::R32,
            16 => PixelFormat::R32G32,
            6 => PixelFormat::R32G32B32,
            2 => PixelFormat::R32G32B32A32,
            24 => PixelFormat::R10G10B10A2,
            26 => PixelFormat::R11G11B10,
            67 => PixelFormat::R9G9B9E5,
            55 => PixelFormat::D16,
            71 => PixelFormat::BC1,
            72 => PixelFormat::BC1,
            74 => PixelFormat::BC2,
            75 => PixelFormat::BC2,
            77 => PixelFormat::BC3,
            78 => PixelFormat::BC3,
            80 => PixelFormat::BC4,
            83 => PixelFormat::BC5,
            95 => PixelFormat::BC6H,
            98 => PixelFormat::BC7,
            99 => PixelFormat::BC7,
            _ => PixelFormat::Unknown,
        }
    }

    /// The data type this library records for a pixel format.
    pub fn get_pixel_format_datatype_from_image(pixel_format: PixelFormat) -> (r: PixelDataType)
        ensures
            r == spec_datatype_of(pixel_format),
    {
        match pixel_format {
            PixelFormat::R32
            | PixelFormat::R32G32
            | PixelFormat::R32G32B32
            | PixelFormat::R32G32B32A32
            | PixelFormat::R11G11B10
            | PixelFormat::R9G9B9E5
            | PixelFormat::BC6H => PixelDataType::Float,
            _ => PixelDataType::UNorm,
        }
    }

    /// True for the DXGI codes of SRGB-encoded formats in this library's table.
    pub fn dxgi_code_is_srgb(dxgi_code: u32) -> (r: bool)
        ensures
            r == spec_code_is_srgb(dxgi_code),
    {
        match dxgi_code {
            29 | 91 | 93 | 72 | 75 | 78 | 99 => true,
            _ => false,
        }
    }

    /// The full pixel-format descriptor for a DXGI format code.
    pub fn get_pixel_format_info_from_image(dxgi_code: u32) -> (r: PixelFormatInfo)
        ensures
            r == (PixelFormatInfo {
                pixel_format: spec_format_of_code(dxgi_code),
                pixel_data_type: spec_datatype_of(spec_format_of_code(dxgi_code)),
                color_space: if spec_code_is_srgb(dxgi_code) {
                    ColorSpace::SRGB
                } else {
                    ColorSpace::Linear
                },
                is_premultiplied: false,
            }),
    {
        let pixel_format = Self::get_pixel_format_from_image(dxgi_code);
        let pixel_data_type = Self::get_pixel_format_datatype_from_image(pixel_format);
        let color_space = if Self::dxgi_code_is_srgb(dxgi_code) {
            ColorSpace::SRGB
        } else {
            ColorSpace::Linear
        };
        PixelFormatInfo { pixel_format, pixel_data_type, color_space, is_premultiplied: false }
    }

    /// The D3D resource-dimension code of a dimension kind.
    pub fn get_texture_dimension(dimension: TexDimension) -> (r: u32)
        ensures
            r == crate::graphics::texture::spec_dimension_code(dimension),
    {
        match dimension {
            TexDimension::Tex1D => 2,
            TexDimension::Tex2D => 3,
            TexDimension::Tex3D => 4,
        }
    }

    /// The dimension kind of a D3D resource-dimension code; codes outside the
    /// table fall back to 2D.
    pub fn get_texture_dimension_from_directxtex(code: u32) -> (r: TexDimension)
        ensures
            r == crate::graphics::texture::spec_dimension_of_code(code),
    {
        match code {
            2 => TexDimension::Tex1D,
            4 => TexDimension::Tex3D,
            _ => TexDimension::Tex2D,
        }
    }

    /// Decompress one block-compressed plane to a full RGBA8 plane.
    pub fn decompress_bc_to_rgba(
        pixel_format: PixelFormat,
        width: u32,
        height: u32,
        bc_pixels: &[u8],
    ) -> (r: Result<Vec<u8>, TexError>)
        ensures
            ({
                let s = spec_decompress_bc(pixel_format, width, height, bc_pixels@);
                match r {
                    Ok(v) => s is Ok && v@ == s->Ok_0,
                    Err(e) => s is Err && e == s->Err_0,
                }
            }),
    {
        if !pixel_format.is_compressed() {
            return Err(TexError::UnsupportedFormat);
        }
        let code = Self::get_dxgi_format_from_pixel_format(pixel_format);
        let dds = build_dds_shim(code, width, height, bc_pixels);
        let out = dxt_run_decompress(dds.as_slice())?;
        if rgba8_len_matches(out.len(), width, height) {
            Ok(out)
        } else {
            Err(TexError::MalformedFile)
        }
    }

    /// Convert one uncompressed plane of `pixel_format` to a full RGBA8 plane.
    pub fn convert_dxgi_to_rgba(
        pixel_format: PixelFormat,
        width: u32,
        height: u32,
        pixels: &[u8],
    ) -> (r: Result<Vec<u8>, TexError>)
        ensures
            ({
                let s = spec_convert_to_rgba(pixel_format, width, height, pixels@);
                match r {
                    Ok(v) => s is Ok && v@ == s->Ok_0,
                    Err(e) => s is Err && e == s->Err_0,
                }
            }),
    {
        let code = Self::get_dxgi_format_from_pixel_format(pixel_format);
        if code == 0 || pixel_format.is_compressed() {
            return Err(TexError::UnsupportedFormat);
        }
        let dds = build_dds_shim(code, width, height, pixels);
        let out = dxt_run_convert_to_rgba(dds.as_slice())?;
        if rgba8_len_matches(out.len(), width, height) {
            Ok(out)
        } else {
            Err(TexError::MalformedFile)
        }
    }

    /// Block-compress one RGBA8 plane to `pixel_format`.
    pub fn compress_rgba_to_bc(
        pixel_format: PixelFormat,
        width: u32,
        height: u32,
        rgba_pixels: &[u8],
    ) -> (r: Result<Vec<u8>, TexError>)
        ensures
            ({
                let s = spec_compress_bc(pixel_format, width, height, rgba_pixels@);
                match r {
                    Ok(v) => s is Ok && v@ == s->Ok_0,
                    Err(e) => s is Err && e == s->Err_0,
                }
            }),
    {
        if !pixel_format.is_compressed() {
            return Err(TexError::UnsupportedFormat);
        }
        let code = Self::get_dxgi_format_from_pixel_format(pixel_format);
        let dds = build_dds_shim(28, width, height, rgba_pixels);
        let out = dxt_run_compress(dds.as_slice(), code)?;
        if pitch_len_matches(out.len(), pixel_format, width, height) {
            Ok(out)
        } else {
            Err(TexError::MalformedFile)
        }
    }

    /// Convert one RGBA8 plane to an uncompressed `pixel_format` plane.
    pub fn convert_rgba_to_dxgi(
        pixel_format: PixelFormat,
        width: u32,
        height: u32,
        rgba_pixels: &[u8],
    ) -> (r: Result<Vec<u8>, TexError>)
        ensures
            ({
                let s = spec_convert_from_rgba(pixel_format, width, height, rgba_pixels@);
                match r {
                    Ok(v) => s is Ok && v@ == s->Ok_0,
                    Err(e) => s is Err && e == s->Err_0,
                }
            }),
    {
        let code = Self::get_dxgi_format_from_pixel_format(pixel_format);
        if code == 0 || pixel_format.is_compressed() {
            return Err(TexError::UnsupportedFormat);
        }
        let dds = build_dds_shim(28, width, height, rgba_pixels);
        let out = dxt_run_convert_from_rgba(dds.as_slice(), code)?;
        if pitch_len_matches(out.len(), pixel_format, width, height) {
            Ok(out)
        } else {
            Err(TexError::MalformedFile)
        }
    }
}

} // verus!
