use std::io::Cursor;

use texture_viewer::codecs::codec_manager::{BuiltinCodec, CodecManager};
use texture_viewer::codecs::dds::DDSCodec;
use texture_viewer::codecs::jpeg::JPEGCodec;
use texture_viewer::codecs::png::PNGCodec;
use texture_viewer::codecs::ImageCodec;
use texture_viewer::error::TexError;
use texture_viewer::graphics::pixel_format::{
    ColorSpace, PixelDataType, PixelFormat, PixelFormatInfo,
};
use texture_viewer::graphics::texture::{Image, TexDimension, TexMetadata, Texture};

fn sample_png_bytes() -> Vec<u8> {
    let img = image::DynamicImage::ImageRgba8(image::RgbaImage::from_pixel(
        256,
        256,
        image::Rgba([10, 20, 30, 255]),
    ));
    let mut buf = Cursor::new(Vec::new());
    img.write_to(&mut buf, image::ImageFormat::Png)
        .expect("encode sample PNG");
    buf.into_inner()
}

fn sample_jpeg_bytes() -> Vec<u8> {
    let img = image::DynamicImage::ImageRgb8(image::RgbImage::from_pixel(
        256,
        256,
        image::Rgb([10, 20, 30]),
    ));
    let mut buf = Cursor::new(Vec::new());
    img.write_to(&mut buf, image::ImageFormat::Jpeg)
        .expect("encode sample JPEG");
    buf.into_inner()
}

fn sample_dds_texture() -> Texture {
    // A BC1 cubemap: 2048x2048, 12 mip levels, 6 faces, 72 planes.
    let fmt = PixelFormat::BC1;
    let info = PixelFormatInfo {
        pixel_format: fmt,
        pixel_data_type: PixelDataType::UNorm,
        color_space: ColorSpace::Linear,
        is_premultiplied: false,
    };
    let metadata = TexMetadata {
        width: 2048,
        height: 2048,
        depth: 1,
        array_size: 6,
        mip_levels: 12,
        pixel_format_info: info,
        alpha_mode: 0,
        dimensions: TexDimension::Tex2D,
        is_cubemap: true,
        is_volumemap: false,
    };
    let mut images = Vec::new();
    for _item in 0..6 {
        let mut w = 2048u32;
        let mut h = 2048u32;
        for _mip in 0..12 {
            let row_pitch = fmt.get_row_pitch(w);
            let slice_pitch = fmt.get_slice_pitch(w, h);
            images.push(Image {
                width: w,
                height: h,
                pixel_format_info: info,
                row_pitch,
                slice_pitch,
                pixels: vec![0u8; slice_pitch as usize],
            });
            w = if w > 1 { w / 2 } else { 1 };
            h = if h > 1 { h / 2 } else { 1 };
        }
    }
    Texture { metadata, images }
}

#[test]
fn test_load_png() {
    let png_data = sample_png_bytes();
    let codec = PNGCodec;

    let texture = codec
        .load_from_memory(&png_data)
        .expect("Failed to load PNG!");

    assert_eq!(texture.metadata.width, 256);
    assert_eq!(texture.metadata.height, 256);
    assert_eq!(
        texture.metadata.pixel_format_info.pixel_format,
        PixelFormat::R8G8B8A8
    );
    assert_eq!(texture.images.len(), 1);
    assert_eq!(texture.images[0].pixels.len(), 256 * 256 * 4);
    assert_eq!(&texture.images[0].pixels[0..4], &[10, 20, 30, 255]);
}

#[test]
fn test_load_jpeg() {
    let jpeg_data = sample_jpeg_bytes();
    let codec = JPEGCodec;
    let texture = codec
        .load_from_memory(&jpeg_data)
        .expect("Failed to load JPEG!");

    assert_eq!(texture.metadata.width, 256);
    assert_eq!(texture.metadata.height, 256);
    assert_eq!(
        texture.metadata.pixel_format_info.pixel_format,
        PixelFormat::R8G8B8
    );
}

#[test]
fn test_load_dds() {
    let codec = DDSCodec;
    let dds_data = codec
        .save_to_memory(&sample_dds_texture())
        .expect("Failed to save DDS!");

    let texture = codec
        .load_from_memory(&dds_data)
        .expect("Failed to load DDS!");

    assert_eq!(texture.metadata.width, 2048);
    assert_eq!(texture.metadata.height, 2048);
    assert_eq!(
        texture.metadata.pixel_format_info.pixel_format,
        PixelFormat::BC1
    );
    assert_eq!(texture.metadata.depth, 1);
    assert_eq!(texture.metadata.mip_levels, 12);
    assert_eq!(texture.metadata.array_size, 6);
    assert_eq!(texture.metadata.is_cubemap, true);
    assert_eq!(texture.images.len(), 72);
}

#[test]
fn test_load_image_from_file() {
    let mut codec_manager = CodecManager::new();

    codec_manager.register_codec(BuiltinCodec::Png(PNGCodec));
    codec_manager.register_codec(BuiltinCodec::Jpeg(JPEGCodec));

    let texture = codec_manager.load_from_memory_with_extension("png", &sample_png_bytes());

    if let Ok(texture) = texture {
        assert_eq!(texture.metadata.width, 256);
        assert_eq!(texture.metadata.height, 256);
        assert_eq!(
            texture.metadata.pixel_format_info.pixel_format,
            PixelFormat::R8G8B8A8
        );
    } else {
        panic!("Failed to load image from file");
    }
}

#[test]
fn test_codec_lookup_case_insensitive() {
    let manager = CodecManager::default();
    assert!(manager.get_codec_for_extension("PNG").is_some());
    assert!(manager.get_codec_for_extension("JpEg").is_some());
    assert!(manager.get_codec_for_extension("dds").is_some());
    assert!(manager.get_codec_for_extension("bmp").is_none());
    assert!(matches!(
        manager.load_from_memory_with_extension("bmp", &[]),
        Err(TexError::UnsupportedFormat)
    ));
}

#[test]
fn test_get_image_cubemap_indexing() {
    // Plane order is array-item-major, mip-minor: (mip 2, item 3) sits at
    // flat index 3 * 4 + 2 = 14. Planes are tagged through their width.
    let metadata = TexMetadata {
        width: 64,
        height: 64,
        depth: 1,
        array_size: 6,
        mip_levels: 4,
        pixel_format_info: PixelFormatInfo::default(),
        alpha_mode: 0,
        dimensions: TexDimension::Tex2D,
        is_cubemap: true,
        is_volumemap: false,
    };
    let mut images = Vec::new();
    for i in 0..24u32 {
        images.push(Image {
            width: i,
            height: 0,
            pixel_format_info: PixelFormatInfo::default(),
            row_pitch: 0,
            slice_pitch: 0,
            pixels: Vec::new(),
        });
    }
    let tex = Texture { metadata, images };
    let img = tex.get_image(2, 3, 0).expect("lookup in range");
    assert_eq!(img.width, 14);
    assert!(matches!(
        tex.get_image(4, 0, 0),
        Err(TexError::IndexOutOfRange)
    ));
    assert!(matches!(
        tex.get_image(0, 6, 0),
        Err(TexError::IndexOutOfRange)
    ));
    assert!(matches!(
        tex.get_image(0, 0, 1),
        Err(TexError::IndexOutOfRange)
    ));
}

#[test]
fn test_get_image_volume_indexing() {
    // Volume with depth 4 and 3 mips: per-mip depths 4, 2, 1; the plane of
    // (mip 1, slice 1) sits at flat index 4 + 1 = 5.
    let metadata = TexMetadata {
        width: 8,
        height: 8,
        depth: 4,
        array_size: 1,
        mip_levels: 3,
        pixel_format_info: PixelFormatInfo::default(),
        alpha_mode: 0,
        dimensions: TexDimension::Tex3D,
        is_cubemap: false,
        is_volumemap: true,
    };
    let mut images = Vec::new();
    for i in 0..7u32 {
        images.push(Image {
            width: i,
            height: 0,
            pixel_format_info: PixelFormatInfo::default(),
            row_pitch: 0,
            slice_pitch: 0,
            pixels: Vec::new(),
        });
    }
    let tex = Texture { metadata, images };
    let img = tex.get_image(1, 0, 1).expect("lookup in range");
    assert_eq!(img.width, 5);
    assert!(matches!(
        tex.get_image(1, 0, 2),
        Err(TexError::IndexOutOfRange)
    ));
    assert!(matches!(
        tex.get_image(0, 1, 0),
        Err(TexError::IndexOutOfRange)
    ));
}
