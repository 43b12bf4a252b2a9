use vstd::prelude::*;

use crate::error::TexError;
use crate::graphics::pixel_format::{
    spec_row_pitch, spec_slice_pitch, ColorSpace, PixelDataType, PixelFormat, PixelFormatInfo,
};
use crate::graphics::pixel_format_decoder::spec_decode_result;
use crate::graphics::pixel_format_encoder::spec_encode_result;
use crate::graphics::texture::{Image, TexDimension, TexMetadata, Texture};

verus! {

/// The color layouts the image crate can hand back.
#[derive(Debug, Clone, Copy, PartialEq, Eq, Structural)]
pub enum ColorKind {
    L8,
    La8,
    Rgb8,
    Rgba8,
    L16,
    La16,
    Rgb16,
    Rgba16,
    Rgb32F,
    Rgba32F,
    Other,
}

/// A stable code for each color layout, used by the named results below.
pub open spec fn spec_color_code(k: ColorKind) -> int {
    match k {
        ColorKind::L8 => 1,
        ColorKind::La8 => 2,
        ColorKind::Rgb8 => 3,
        ColorKind::Rgba8 => 4,
        ColorKind::L16 => 5,
        ColorKind::La16 => 6,
        ColorKind::Rgb16 => 7,
        ColorKind::Rgba16 => 8,
        ColorKind::Rgb32F => 9,
        ColorKind::Rgba32F => 10,
        ColorKind::Other => 0,
    }
}

/// What the image crate decodes the byte stream to: width, height, color
/// code and raw samples; `None` where it reports an error. The result
/// depends on the bytes alone.
pub uninterp spec fn image_decode_of(data: Seq<u8>) -> Option<(u32, u32, int, Seq<u8>)>;

/// What the image crate encodes an RGB8 or RGBA8 plane to in the container
/// coded `container`; `None` where it reports an error.
pub uninterp spec fn image_encode_of(
    w: u32,
    h: u32,
    rgb_only: bool,
    container: int,
    data: Seq<u8>,
) -> Option<Seq<u8>>;

/// What the image crate's TGA decoder decodes the byte stream to: width,
/// height, color code and raw samples; `None` where it reports an error.
/// (TGA has no magic bytes, so it gets a decoder of its own instead of
/// content sniffing.)
pub uninterp spec fn tga_decode_of(data: Seq<u8>) -> Option<(u32, u32, int, Seq<u8>)>;

/// What the image crate's Radiance HDR encoder produces from the raw bytes
/// of a 32-bit float RGB plane; `None` where it reports an error.
pub uninterp spec fn hdr_encode_of(w: u32, h: u32, data: Seq<u8>) -> Option<Seq<u8>>;

/// Relies on image::load_from_memory: it sniffs the container, decodes the
/// image, and reports width, height, color type and raw samples; the outcome
/// depends on the bytes alone.
#[verifier::external_body]
fn load_image_from_memory(data: &[u8]) -> (r: Result<(u32, u32, ColorKind, Vec<u8>), TexError>)
    ensures
        match r {
            Ok(t) => image_decode_of(data@) == Some((t.0, t.1, spec_color_code(t.2), t.3@)),
            Err(e) => image_decode_of(data@) is None && e == TexError::MalformedFile,
        },
{
    let img = match image::load_from_memory(data) {
        Ok(i) => i,
        Err(_) => return Err(TexError::MalformedFile),
    };
    let kind = match img.color() {
        image::ColorType::L8 => ColorKind::L8, image::ColorType::La8 => ColorKind::La8,
        image::ColorType::Rgb8 => ColorKind::Rgb8, image::ColorType::Rgba8 => ColorKind::Rgba8,
        image::ColorType::L16 => ColorKind::L16, image::ColorType::La16 => ColorKind::La16,
        image::ColorType::Rgb16 => ColorKind::Rgb16, image::ColorType::Rgba16 => ColorKind::Rgba16,
        image::ColorType::Rgb32F => ColorKind::Rgb32F, image::ColorType::Rgba32F => ColorKind::Rgba32F,
        _ => ColorKind::Other,
    };
    Ok((img.width(), img.height(), kind, img.into_bytes()))
}

/// Relies on DynamicImage::write_to: it encodes an RGB8 or RGBA8 buffer into
/// the container coded 1 (PNG), 2 (JPEG) or 3 (TGA); the outcome depends on
/// the arguments alone. The encoders demand a buffer of exactly one plane
/// (and panic otherwise), hence the precondition.
#[verifier::external_body]
fn encode_image_to_container(
    width: u32,
    height: u32,
    rgb_only: bool,
    container: u32,
    pixels: Vec<u8>,
) -> (r: Result<Vec<u8>, TexError>)
    requires
        pixels@.len() == (if rgb_only {
            3int
        } else {
            4int
        }) * (width as int) * (height as int),
    ensures
        match r {
            Ok(v) => image_encode_of(width, height, rgb_only, container as int, pixels@) == Some(
                v@,
            ),
            Err(e) => image_encode_of(width, height, rgb_only, container as int, pixels@) is None
                && e == TexError::UnsupportedOperation,
        },
{
    let img = if rgb_only {
        image::ImageBuffer::from_raw(width, height, pixels).map(image::DynamicImage::ImageRgb8)
    } else {
        image::ImageBuffer::from_raw(width, height, pixels).map(image::DynamicImage::ImageRgba8)
    };
    let img = match img { Some(i) => i, None => return Err(TexError::UnsupportedOperation) };
    let fmt = match container {
        1 => image::ImageFormat::Png, 2 => image::ImageFormat::Jpeg,
        3 => image::ImageFormat::Tga,
        _ => return Err(TexError::UnsupportedOperation),
    };
    let mut cur = std::io::Cursor::new(Vec::new());
    match img.write_to(&mut cur, fmt) { Ok(()) => Ok(cur.into_inner()), Err(_) => Err(TexError::UnsupportedOperation) }
}

/// Relies on image::load_from_memory_with_format with the TGA decoder named
/// explicitly (TGA cannot be content-sniffed); it reports width, height,
/// color type and raw samples, and the outcome depends on the bytes alone.
#[verifier::external_body]
fn load_tga_from_memory(data: &[u8]) -> (r: Result<(u32, u32, ColorKind, Vec<u8>), TexError>)
    ensures
        match r {
            Ok(t) => tga_decode_of(data@) == Some((t.0, t.1, spec_color_code(t.2), t.3@)),
            Err(e) => tga_decode_of(data@) is None && e == TexError::MalformedFile,
        },
{
    let img = match image::load_from_memory_with_format(data, image::ImageFormat::Tga) {
        Ok(i) => i,
        Err(_) => return Err(TexError::MalformedFile),
    };
    let kind = match img.color() {
        image::ColorType::L8 => ColorKind::L8, image::ColorType::La8 => ColorKind::La8,
        image::ColorType::Rgb8 => ColorKind::Rgb8, image::ColorType::Rgba8 => ColorKind::Rgba8,
        image::ColorType::L16 => ColorKind::L16, image::ColorType::La16 => ColorKind::La16,
        image::ColorType::Rgb16 => ColorKind::Rgb16, image::ColorType::Rgba16 => ColorKind::Rgba16,
        image::ColorType::Rgb32F => ColorKind::Rgb32F, image::ColorType::Rgba32F => ColorKind::Rgba32F,
        _ => ColorKind::Other,
    };
    Ok((img.width(), img.height(), kind, img.into_bytes()))
}

/// Relies on the image crate's Radiance HDR encoder (`HdrEncoder::write_image`),
/// which accepts the raw bytes of native-endian 32-bit float RGB samples and
/// demands exactly one plane of them (it panics on fewer, hence the
/// precondition); the outcome depends on the arguments alone.
#[verifier::external_body]
fn encode_hdr_from_rgb32f(width: u32, height: u32, pixels: Vec<u8>) -> (r: Result<
    Vec<u8>,
    TexError,
>)
    requires
        pixels@.len() == 12 * (width as int) * (height as int),
    ensures
        match r {
            Ok(v) => hdr_encode_of(width, height, pixels@) == Some(v@),
            Err(e) => hdr_encode_of(width, height, pixels@) is None && e
                == TexError::UnsupportedOperation,
        },
{
    let mut out: Vec<u8> = Vec::new();
    let enc = image::codecs::hdr::HdrEncoder::new(&mut out);
    match image::ImageEncoder::write_image(
        enc, &pixels, width, height, image::ExtendedColorType::Rgb32F,
    ) {
        Ok(()) => Ok(out),
        Err(_) => Err(TexError::UnsupportedOperation),
    }
}

/// The pixel format recorded for each color layout, `None` where the layout
/// has no counterpart.
pub open spec fn spec_format_of_kind(k: ColorKind) -> Option<PixelFormat> {
    match k {
        ColorKind::L8 => Option::Some(PixelFormat::L8),
        ColorKind::La8 => Option::Some(PixelFormat::L8A8),
        ColorKind::Rgb8 => Option::Some(PixelFormat::R8G8B8),
        ColorKind::Rgba8 => Option::Some(PixelFormat::R8G8B8A8),
        ColorKind::L16 => Option::Some(PixelFormat::L16),
        ColorKind::La16 => Option::Some(PixelFormat::L16A16),
        ColorKind::Rgb16 => Option::Some(PixelFormat::R16G16B16),
        ColorKind::Rgba16 => Option::Some(PixelFormat::R16G16B16A16),
        ColorKind::Rgb32F => Option::Some(PixelFormat::R32G32B32),
        ColorKind::Rgba32F => Option::Some(PixelFormat::R32G32B32A32),
        ColorKind::Other => Option::None,
    }
}

/// The full descriptor recorded for each color layout: 8-bit RGB layouts are
/// taken as SRGB-encoded, everything else as linear.
pub open spec fn spec_info_of_kind(k: ColorKind) -> Option<PixelFormatInfo> {
    match spec_format_of_kind(k) {
        Option::None => Option::None,
        Option::Some(f) => Option::Some(
            PixelFormatInfo {
                pixel_format: f,
                pixel_data_type: match k {
                    ColorKind::Rgb32F | ColorKind::Rgba32F => PixelDataType::Float,
                    _ => PixelDataType::UNorm,
                },
                color_space: match k {
                    ColorKind::Rgb8 | ColorKind::Rgba8 => ColorSpace::SRGB,
                    _ => ColorSpace::Linear,
                },
                is_premultiplied: false,
            },
        ),
    }
}

/// How a texture is assembled from a decoded (width, height, color code,
/// samples) tuple: a one-plane 2D texture carrying the samples, with the
/// pitches of the recorded format, or the error of the first failing step.
pub open spec fn spec_texture_from_parts_rel(
    t: (u32, u32, int, Seq<u8>),
    r: Result<Texture, TexError>,
) -> bool {
    {
        let w = t.0;
        let h = t.1;
        let code = t.2;
        let px = t.3;
        {
            match r {
                Result::Err(e) => {
                    if forall|k: ColorKind| spec_color_code(k) != code {
                        e == TexError::UnsupportedFormat
                    } else {
                        exists|k: ColorKind|
                            #[trigger] spec_color_code(k) == code && {
                                match spec_info_of_kind(k) {
                                    Option::None => e == TexError::UnsupportedFormat,
                                    Option::Some(info) => {
                                        let f = info.pixel_format;
                                        if spec_row_pitch(f, w as int) > u32::MAX
                                            || spec_slice_pitch(f, w as int, h as int)
                                            > u32::MAX {
                                            e == TexError::UnsupportedOperation
                                        } else if px.len() != spec_slice_pitch(
                                            f,
                                            w as int,
                                            h as int,
                                        ) {
                                            e == TexError::MalformedFile
                                        } else {
                                            false
                                        }
                                    },
                                }
                            }
                    }
                },
                Result::Ok(tex) => exists|k: ColorKind|
                    #[trigger] spec_color_code(k) == code && {
                        match spec_info_of_kind(k) {
                            Option::None => false,
                            Option::Some(info) => {
                                let f = info.pixel_format;
                                &&& spec_row_pitch(f, w as int) <= u32::MAX
                                &&& spec_slice_pitch(f, w as int, h as int) <= u32::MAX
                                &&& px.len() == spec_slice_pitch(f, w as int, h as int)
                                &&& tex.metadata == (TexMetadata {
                                    width: w,
                                    height: h,
                                    depth: 1,
                                    array_size: 1,
                                    mip_levels: 1,
                                    pixel_format_info: info,
                                    alpha_mode: 0,
                                    dimensions: TexDimension::Tex2D,
                                    is_cubemap: false,
                                    is_volumemap: false,
                                })
                                &&& tex.images@.len() == 1
                                &&& tex.images@[0].width == w
                                &&& tex.images@[0].height == h
                                &&& tex.images@[0].pixel_format_info == info
                                &&& tex.images@[0].row_pitch == spec_row_pitch(f, w as int)
                                &&& tex.images@[0].slice_pitch == spec_slice_pitch(
                                    f,
                                    w as int,
                                    h as int,
                                )
                                &&& tex.images@[0].pixels@ == px
                            },
                        }
                    },
            }
        }
    }
}

/// How `get_texture_from_bytes` relates its result to the named content-sniffed
/// decoding.
pub open spec fn spec_texture_from_bytes_rel(source: Seq<u8>, r: Result<Texture, TexError>) -> bool {
    match image_decode_of(source) {
        Option::None => r == Result::<Texture, TexError>::Err(TexError::MalformedFile),
        Option::Some(t) => spec_texture_from_parts_rel(t, r),
    }
}

/// How `get_texture_from_tga_bytes` relates its result to the named TGA
/// decoding.
pub open spec fn spec_texture_from_tga_rel(source: Seq<u8>, r: Result<Texture, TexError>) -> bool {
    match tga_decode_of(source) {
        Option::None => r == Result::<Texture, TexError>::Err(TexError::MalformedFile),
        Option::Some(t) => spec_texture_from_parts_rel(t, r),
    }
}

/// Adapters between this library's pixel model and the image crate.
pub struct ImageUtility;

impl ImageUtility {
    /// The pixel format recorded for a color layout.
    pub fn get_pixel_format_from_image(color_type: ColorKind) -> (r: Option<PixelFormat>)
        ensures
            r == spec_format_of_kind(color_type),
    {
        match color_type {
            ColorKind::L8 => Some(PixelFormat::L8),
            ColorKind::La8 => Some(PixelFormat::L8A8),
            ColorKind::Rgb8 => Some(PixelFormat::R8G8B8),
            ColorKind::Rgba8 => Some(PixelFormat::R8G8B8A8),
            ColorKind::L16 => Some(PixelFormat::L16),
            ColorKind::La16 => Some(PixelFormat::L16A16),
            ColorKind::Rgb16 => Some(PixelFormat::R16G16B16),
            ColorKind::Rgba16 => Some(PixelFormat::R16G16B16A16),
            ColorKind::Rgb32F => Some(PixelFormat::R32G32B32),
            ColorKind::Rgba32F => Some(PixelFormat::R32G32B32A32),
            ColorKind::Other => None,
        }
    }

    /// The data type recorded for a color layout.
    pub fn get_pixel_format_datatype_from_image(color_type: ColorKind) -> (r: Option<PixelDataType>)
        ensures
            ({
                match spec_info_of_kind(color_type) {
                    Option::Some(info) => r == Option::Some(info.pixel_data_type),
                    Option::None => r is None,
                }
            }),
    {
        match color_type {
            ColorKind::Rgb32F | ColorKind::Rgba32F => Some(PixelDataType::Float),
            ColorKind::Other => None,
            _ => Some(PixelDataType::UNorm),
        }
    }

    /// The full descriptor recorded for a color layout.
    pub fn get_pixel_format_info_from_image(color_type: ColorKind) -> (r: Option<PixelFormatInfo>)
        ensures
            r == spec_info_of_kind(color_type),
    {
        let pixel_format = match Self::get_pixel_format_from_image(color_type) {
            Some(f) => f,
            None => {
                return None;
            },
        };
        let pixel_data_type = match Self::get_pixel_format_datatype_from_image(color_type) {
            Some(d) => d,
            None => {
                return None;
            },
        };
        let color_space = match color_type {
            ColorKind::Rgb8 | ColorKind::Rgba8 => ColorSpace::SRGB,
            _ => ColorSpace::Linear,
        };
        Some(PixelFormatInfo { pixel_format, pixel_data_type, color_space, is_premultiplied: false })
    }

    /// Assemble a one-plane 2D texture from a decoded image: record the
    /// format of the color layout, compute the pitches, and check that the
    /// samples fill exactly one plane.
    pub fn texture_from_decoded_parts(w: u32, h: u32, kind: ColorKind, px: Vec<u8>) -> (r: Result<
        Texture,
        TexError,
    >)
        ensures
            spec_texture_from_parts_rel((w, h, spec_color_code(kind), px@), r),
    {
        let info = match Self::get_pixel_format_info_from_image(kind) {
            Some(i) => i,
            None => {
                return Err(TexError::UnsupportedFormat);
            },
        };
        let f = info.pixel_format;
        let row_pitch = match f.try_row_pitch(w) {
            Some(p) => p,
            None => {
                return Err(TexError::UnsupportedOperation);
            },
        };
        let slice_pitch = match f.try_slice_pitch(w, h) {
            Some(p) => p,
            None => {
                return Err(TexError::UnsupportedOperation);
            },
        };
        if px.len() as u64 != slice_pitch as u64 {
            return Err(TexError::MalformedFile);
        }
        let metadata = TexMetadata {
            width: w,
            height: h,
            depth: 1,
            array_size: 1,
            mip_levels: 1,
            pixel_format_info: info,
            alpha_mode: 0,
            dimensions: TexDimension::Tex2D,
            is_cubemap: false,
            is_volumemap: false,
        };
        let mut images: Vec<Image> = Vec::new();
        images.push(
            Image { width: w, height: h, pixel_format_info: info, row_pitch, slice_pitch, pixels: px },
        );
        Ok(Texture { metadata, images })
    }

    /// Decode any container the image crate can content-sniff into a
    /// one-plane 2D texture.
    pub fn get_texture_from_bytes(source: &[u8]) -> (r: Result<Texture, TexError>)
        ensures
            spec_texture_from_bytes_rel(source@, r),
    {
        let (w, h, kind, px) = match load_image_from_memory(source) {
            Ok(t) => t,
            Err(e) => {
                return Err(e);
            },
        };
        Self::texture_from_decoded_parts(w, h, kind, px)
    }

    /// Decode a TGA byte stream into a one-plane 2D texture.
    pub fn get_texture_from_tga_bytes(source: &[u8]) -> (r: Result<Texture, TexError>)
        ensures
            spec_texture_from_tga_rel(source@, r),
    {
        let (w, h, kind, px) = match load_tga_from_memory(source) {
            Ok(t) => t,
            Err(e) => {
                return Err(e);
            },
        };
        Self::texture_from_decoded_parts(w, h, kind, px)
    }
}

/// How the shared image-container save path relates its result to a texture:
/// a single-plane texture's first plane is decoded to RGBA8, optionally
/// re-encoded to RGB8 (for containers without alpha), and handed to the
/// image crate's encoder for `container`.
pub open spec fn spec_save_via_image_rel(
    tex: Texture,
    container: int,
    rgb_only: bool,
    r: Result<Vec<u8>, TexError>,
) -> bool {
    if tex.metadata.array_size != 1 || tex.metadata.depth != 1 {
        r == Result::<Vec<u8>, TexError>::Err(TexError::UnsupportedOperation)
    } else if tex.images@.len() < 1 {
        r == Result::<Vec<u8>, TexError>::Err(TexError::IndexOutOfRange)
    } else {
        let img = tex.images@[0];
        match spec_decode_result(
            img.pixel_format_info.pixel_format,
            img.pixels@,
            img.width,
            img.height,
        ) {
            Result::Err(e) => r == Result::<Vec<u8>, TexError>::Err(e),
            Result::Ok(rgba) => {
                let payload = if rgb_only {
                    spec_encode_result(PixelFormat::R8G8B8, rgba, img.width, img.height)
                } else {
                    Result::Ok(rgba)
                };
                match payload {
                    Result::Err(e) => r == Result::<Vec<u8>, TexError>::Err(e),
                    Result::Ok(p) => match image_encode_of(
                        img.width,
                        img.height,
                        rgb_only,
                        container,
                        p,
                    ) {
                        Option::Some(b) => r is Ok && r->Ok_0@ == b,
                        Option::None => r == Result::<Vec<u8>, TexError>::Err(
                            TexError::UnsupportedOperation,
                        ),
                    },
                }
            },
        }
    }
}

/// Shared save path of the image-container codecs.
pub fn save_texture_via_image(texture: &Texture, container: u32, rgb_only: bool) -> (r: Result<
    Vec<u8>,
    TexError,
>)
    ensures
        spec_save_via_image_rel(*texture, container as int, rgb_only, r),
{
    if texture.metadata.array_size != 1 || texture.metadata.depth != 1 {
        return Err(TexError::UnsupportedOperation);
    }
    if texture.images.len() < 1 {
        return Err(TexError::IndexOutOfRange);
    }
    let img = &texture.images[0];
    let rgba = match crate::graphics::pixel_format_decoder::PixelDecoder::decode(
        img.pixels.as_slice(),
        img.pixel_format_info.pixel_format,
        img.width,
        img.height,
    ) {
        Ok(v) => v,
        Err(e) => {
            return Err(e);
        },
    };
    proof {
        crate::graphics::texture_utility::lemma_decode_result_len(
            img.pixel_format_info.pixel_format,
            img.pixels@,
            img.width,
            img.height,
        );
    }
    let payload = if rgb_only {
        let encoded = match crate::graphics::pixel_format_encoder::PixelEncoder::encode(
            rgba.as_slice(),
            PixelFormat::R8G8B8,
            img.width,
            img.height,
        ) {
            Ok(v) => v,
            Err(e) => {
                return Err(e);
            },
        };
        proof {
            crate::graphics::pixel_format_encoder::lemma_encode_result_len(
                PixelFormat::R8G8B8,
                rgba@,
                img.width,
                img.height,
            );
        }
        encoded
    } else {
        rgba
    };
    encode_image_to_container(img.width, img.height, rgb_only, container, payload)
}

/// How the HDR save path relates its result to a texture: the single plane is
/// decoded to RGBA8, converted to a 32-bit float RGB plane, and handed to the
/// Radiance HDR encoder.
pub open spec fn spec_save_hdr_rel(tex: Texture, r: Result<Vec<u8>, TexError>) -> bool {
    if tex.metadata.array_size != 1 || tex.metadata.depth != 1 {
        r == Result::<Vec<u8>, TexError>::Err(TexError::UnsupportedOperation)
    } else if tex.images@.len() < 1 {
        r == Result::<Vec<u8>, TexError>::Err(TexError::IndexOutOfRange)
    } else {
        let img = tex.images@[0];
        match spec_decode_result(
            img.pixel_format_info.pixel_format,
            img.pixels@,
            img.width,
            img.height,
        ) {
            Result::Err(e) => r == Result::<Vec<u8>, TexError>::Err(e),
            Result::Ok(rgba) => match spec_encode_result(
                PixelFormat::R32G32B32,
                rgba,
                img.width,
                img.height,
            ) {
                Result::Err(e) => r == Result::<Vec<u8>, TexError>::Err(e),
                Result::Ok(p) => match hdr_encode_of(img.width, img.height, p) {
                    Option::Some(b) => r is Ok && r->Ok_0@ == b,
                    Option::None => r == Result::<Vec<u8>, TexError>::Err(
                        TexError::UnsupportedOperation,
                    ),
                },
            },
        }
    }
}

/// Save path of the Radiance HDR codec: decode to RGBA8, convert to a float
/// RGB plane, encode.
pub fn save_texture_as_hdr(texture: &Texture) -> (r: Result<Vec<u8>, TexError>)
    ensures
        spec_save_hdr_rel(*texture, r),
{
    if texture.metadata.array_size != 1 || texture.metadata.depth != 1 {
        return Err(TexError::UnsupportedOperation);
    }
    if texture.images.len() < 1 {
        return Err(TexError::IndexOutOfRange);
    }
    let img = &texture.images[0];
    let rgba = match crate::graphics::pixel_format_decoder::PixelDecoder::decode(
        img.pixels.as_slice(),
        img.pixel_format_info.pixel_format,
        img.width,
        img.height,
    ) {
        Ok(v) => v,
        Err(e) => {
            return Err(e);
        },
    };
    let planar = match crate::graphics::pixel_format_encoder::PixelEncoder::encode(
        rgba.as_slice(),
        PixelFormat::R32G32B32,
        img.width,
        img.height,
    ) {
        Ok(v) => v,
        Err(e) => {
            return Err(e);
        },
    };
    proof {
        let wi = img.width as int;
        let hi = img.height as int;
        assert(96 * wi + 7 == (12 * wi) * 8 + 7) by (nonlinear_arith);
        vstd::arithmetic::div_mod::lemma_fundamental_div_mod_converse(96 * wi + 7, 8, 12 * wi, 7);
        assert(spec_row_pitch(PixelFormat::R32G32B32, wi) == 12 * wi);
        assert((12 * wi) * hi == 12 * wi * hi) by (nonlinear_arith);
        assert(planar@.len() == 12 * wi * hi);
    }
    encode_hdr_from_rgb32f(img.width, img.height, planar)
}

} // verus!
