use texture_viewer::codecs::codec_manager::{BuiltinCodec, CodecManager};
use texture_viewer::codecs::hdr::HDRCodec;
use texture_viewer::codecs::jpeg::JPEGCodec;
use texture_viewer::codecs::png::PNGCodec;
use texture_viewer::codecs::tga::TGACodec;
use texture_viewer::codecs::ImageCodec;
use texture_viewer::graphics::pixel_format::{PixelFormat, PixelFormatInfo};
use texture_viewer::graphics::texture::{Image, TexDimension, TexMetadata, Texture};
use texture_viewer::graphics::texture_utility::TextureEffects;

fn rgba_texture(width: u32, height: u32, pixels: Vec<u8>) -> Texture {
    let fmt = PixelFormat::R8G8B8A8;
    let info = PixelFormatInfo::default();
    let metadata = TexMetadata {
        width,
        height,
        depth: 1,
        array_size: 1,
        mip_levels: 1,
        pixel_format_info: info,
        alpha_mode: 0,
        dimensions: TexDimension::Tex2D,
        is_cubemap: false,
        is_volumemap: false,
    };
    let images = vec![Image {
        width,
        height,
        pixel_format_info: info,
        row_pitch: fmt.get_row_pitch(width),
        slice_pitch: fmt.get_slice_pitch(width, height),
        pixels,
    }];
    Texture { metadata, images }
}

#[test]
fn test_new_transformed_texture_swaps_dimensions() {
    let pixels: Vec<u8> = (0..8 * 4 * 4).map(|i| (i % 241) as u8).collect();
    let tex = rgba_texture(8, 4, pixels);
    let mut eff = TextureEffects::default();
    eff.rotate_90_left_count = 1;
    let out = tex.new_transformed_texture(&eff).expect("transform");
    assert_eq!(out.metadata.width, 4);
    assert_eq!(out.metadata.height, 8);
    assert_eq!(out.images.len(), 1);
    assert_eq!(out.images[0].width, 4);
    assert_eq!(out.images[0].height, 8);
    assert_eq!(
        out.metadata.pixel_format_info.pixel_format,
        PixelFormat::R8G8B8A8
    );
}

#[test]
fn test_png_save_load_round_trip() {
    let pixels: Vec<u8> = (0..4 * 4 * 4).map(|i| (i * 13 % 256) as u8).collect();
    let tex = rgba_texture(4, 4, pixels.clone());
    let codec = PNGCodec;
    let bytes = codec.save_to_memory(&tex).expect("save PNG");
    assert!(!bytes.is_empty());
    assert_ne!(bytes, pixels, "the container must actually encode");
    let back = codec.load_from_memory(&bytes).expect("load PNG");
    assert_eq!(back.metadata.width, 4);
    assert_eq!(back.metadata.height, 4);
    assert_eq!(back.images[0].pixels, pixels);
}

#[test]
fn test_get_rgba8_data() {
    let pixels: Vec<u8> = (0..2 * 2 * 4).map(|i| i as u8).collect();
    let tex = rgba_texture(2, 2, pixels.clone());
    let (w, h, data) = tex.get_rgba8_data(0, 0, 0);
    assert_eq!((w, h), (2, 2));
    assert_eq!(data, pixels);
    let (w, h, data) = tex.get_rgba8_data(5, 0, 0);
    assert_eq!((w, h), (0, 0));
    assert!(data.is_empty());
}

#[test]
fn test_texture_is_compressed() {
    let tex = rgba_texture(2, 2, vec![0; 16]);
    assert!(!tex.is_compressed());
    let empty = Texture::new();
    assert_eq!(empty.metadata.width, 0);
    assert_eq!(empty.images.len(), 0);
}

#[test]
fn test_bake_through_texture_effects_filter() {
    // Baking with alpha disabled writes 255 into every alpha byte.
    let pixels: Vec<u8> = (0..2 * 2 * 4).map(|i| i as u8).collect();
    let tex = rgba_texture(2, 2, pixels);
    let mut eff = TextureEffects::default();
    eff.channel_filter = (true, true, true, false);
    let out = tex.new_transformed_texture(&eff).expect("transform");
    for px in out.images[0].pixels.chunks(4) {
        assert_eq!(px[3], 255);
    }
}

#[test]
fn test_tga_save_load_round_trip() {
    let pixels: Vec<u8> = (0..8 * 8 * 4).map(|i| (i * 7 % 256) as u8).collect();
    let tex = rgba_texture(8, 8, pixels.clone());
    let codec = TGACodec;
    let bytes = codec.save_to_memory(&tex).expect("save TGA");
    assert!(!bytes.is_empty());
    let back = codec.load_from_memory(&bytes).expect("load TGA");
    assert_eq!(back.metadata.width, 8);
    assert_eq!(back.metadata.height, 8);
    assert_eq!(back.images[0].pixels, pixels);
}

#[test]
fn test_tga_load_rejects_garbage() {
    // A buffer that is not a TGA file must be rejected, not crash.
    let codec = TGACodec;
    assert!(codec.load_from_memory(&[0u8; 4]).is_err());
}

#[test]
fn test_hdr_save_and_reload() {
    // Saving re-encodes to 32-bit float RGB; loading it back reads a
    // float-RGB texture of the same dimensions.
    let pixels: Vec<u8> = (0..4 * 4 * 4).map(|i| (i * 11 % 256) as u8).collect();
    let tex = rgba_texture(4, 4, pixels);
    let codec = HDRCodec;
    let bytes = codec.save_to_memory(&tex).expect("save HDR");
    assert!(!bytes.is_empty());
    let back = codec.load_from_memory(&bytes).expect("load HDR");
    assert_eq!(back.metadata.width, 4);
    assert_eq!(back.metadata.height, 4);
    assert_eq!(
        back.metadata.pixel_format_info.pixel_format,
        PixelFormat::R32G32B32
    );
    assert_eq!(back.images[0].pixels.len(), 4 * 4 * 12);
}

#[test]
fn test_register_then_lookup() {
    // Registration feeds lookup: each extension of a registered codec
    // resolves to it, case-insensitively, and unknown keys resolve to none.
    let mut manager = CodecManager::new();
    assert!(manager.get_codec_for_extension("png").is_none());
    manager.register_codec(BuiltinCodec::Png(PNGCodec));
    manager.register_codec(BuiltinCodec::Jpeg(JPEGCodec));
    assert!(matches!(
        manager.get_codec_for_extension("PNG"),
        Some(BuiltinCodec::Png(_))
    ));
    assert!(matches!(
        manager.get_codec_for_extension("jpg"),
        Some(BuiltinCodec::Jpeg(_))
    ));
    assert!(matches!(
        manager.get_codec_for_extension("Jpeg"),
        Some(BuiltinCodec::Jpeg(_))
    ));
    assert!(manager.get_codec_for_extension("dds").is_none());
}

#[test]
fn test_save_dispatch_transforms() {
    // The manager saves the transformed texture, not the original: a quarter
    // turn shows up in the dimensions of the written PNG.
    let pixels: Vec<u8> = (0..8 * 4 * 4).map(|i| (i % 241) as u8).collect();
    let tex = rgba_texture(8, 4, pixels);
    let mut eff = TextureEffects::default();
    eff.rotate_90_left_count = 1;
    let manager = CodecManager::default();
    let bytes = manager
        .save_to_memory_with_extension("png", &tex, &eff)
        .expect("save via manager");
    let back = PNGCodec.load_from_memory(&bytes).expect("reload");
    assert_eq!(back.metadata.width, 4);
    assert_eq!(back.metadata.height, 8);
}
