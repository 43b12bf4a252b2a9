use texture_viewer::graphics::pixel_format::{PixelFormat, PixelFormatInfo};
use texture_viewer::graphics::texture::Image;
use texture_viewer::graphics::texture_utility::{TextureEffects, TextureProcessingUtility};

fn rgba_image(width: u32, height: u32, pixels: Vec<u8>) -> Image {
    let fmt = PixelFormat::R8G8B8A8;
    Image {
        width,
        height,
        pixel_format_info: PixelFormatInfo::default(),
        row_pitch: fmt.get_row_pitch(width),
        slice_pitch: fmt.get_slice_pitch(width, height),
        pixels,
    }
}

fn counted_pixels(n: usize) -> Vec<u8> {
    (0..n).map(|i| (i % 241) as u8).collect()
}

#[test]
fn test_net_rotation_of_four_is_identity() {
    let image = rgba_image(8, 4, counted_pixels(8 * 4 * 4));
    let base = TextureEffects::default();
    let mut turned = TextureEffects::default();
    turned.rotate_90_left_count += 4;
    let (w0, h0, p0) = base
        .get_transformed_rgba8_pixels(&image, false)
        .expect("render");
    let (w1, h1, p1) = turned
        .get_transformed_rgba8_pixels(&image, false)
        .expect("render");
    assert_eq!((w0, h0), (8, 4));
    assert_eq!((w1, h1), (w0, h0));
    assert_eq!(p1, p0);
    assert_eq!(p0, image.pixels);
}

#[test]
fn test_double_flip_is_identity() {
    let image = rgba_image(8, 4, counted_pixels(8 * 4 * 4));
    let base = TextureEffects::default();
    let mut flipped = TextureEffects::default();
    flipped.flip_vertical_count += 2;
    let (_, _, p0) = base
        .get_transformed_rgba8_pixels(&image, false)
        .expect("render");
    let (_, _, p1) = flipped
        .get_transformed_rgba8_pixels(&image, false)
        .expect("render");
    assert_eq!(p1, p0);
}

#[test]
fn test_flip_vertical_moves_rows() {
    // 1x2 image: flipping vertically swaps the two pixels.
    let image = rgba_image(1, 2, vec![1, 2, 3, 4, 5, 6, 7, 8]);
    let mut eff = TextureEffects::default();
    eff.flip_vertical_count = 1;
    let (w, h, p) = eff
        .get_transformed_rgba8_pixels(&image, false)
        .expect("render");
    assert_eq!((w, h), (1, 2));
    assert_eq!(p, vec![5, 6, 7, 8, 1, 2, 3, 4]);
}

#[test]
fn test_flip_horizontal_moves_columns() {
    let image = rgba_image(2, 1, vec![1, 2, 3, 4, 5, 6, 7, 8]);
    let mut eff = TextureEffects::default();
    eff.flip_horizontal_count = 1;
    let (_, _, p) = eff
        .get_transformed_rgba8_pixels(&image, false)
        .expect("render");
    assert_eq!(p, vec![5, 6, 7, 8, 1, 2, 3, 4]);
}

#[test]
fn test_channel_filter_masks() {
    let image = rgba_image(2, 1, vec![10, 20, 30, 40, 50, 60, 70, 80]);
    let mut eff = TextureEffects::default();
    eff.channel_filter = (false, true, true, false);
    let (_, _, p) = eff
        .get_transformed_rgba8_pixels(&image, false)
        .expect("render");
    // Disabled red zeroes the byte; disabled alpha forces 255.
    assert_eq!(p, vec![0, 20, 30, 255, 0, 60, 70, 255]);
}

#[test]
fn test_rotation_moves_corner_pixel() {
    // A 256x256 image: one left turn sends the pixel at (0, 0) to (0, 255).
    let mut pixels = vec![0u8; 256 * 256 * 4];
    pixels[0] = 201;
    pixels[1] = 202;
    pixels[2] = 203;
    pixels[3] = 204;
    let image = rgba_image(256, 256, pixels);
    let mut eff = TextureEffects::default();
    eff.rotate_90_left_count = 1;
    let (w, h, p) = eff
        .get_transformed_rgba8_pixels(&image, false)
        .expect("render");
    assert_eq!((w, h), (256, 256));
    let idx = (255 * 256 + 0) * 4;
    assert_eq!(&p[idx..idx + 4], &[201, 202, 203, 204]);
    // And nothing remains at the origin.
    assert_eq!(&p[0..4], &[0, 0, 0, 0]);
}

#[test]
fn test_rotation_swaps_dimensions() {
    let image = rgba_image(8, 4, counted_pixels(8 * 4 * 4));
    let mut eff = TextureEffects::default();
    eff.rotate_90_right_count = 1;
    let (w, h, _) = eff
        .get_transformed_rgba8_pixels(&image, false)
        .expect("render");
    assert_eq!((w, h), (4, 8));
}

#[test]
fn test_bake_reencodes_to_target_format() {
    let image = rgba_image(4, 4, counted_pixels(4 * 4 * 4));
    let mut eff = TextureEffects::default();
    eff.pixel_format = PixelFormat::B5G6R5;
    let baked = eff.get_transformed_pixels(&image).expect("bake");
    assert_eq!(baked.width, 4);
    assert_eq!(baked.height, 4);
    assert_eq!(baked.pixel_format_info.pixel_format, PixelFormat::B5G6R5);
    assert_eq!(baked.row_pitch, 8);
    assert_eq!(baked.slice_pitch, 32);
    assert_eq!(baked.pixels.len(), 32);
}

#[test]
fn test_render_compressed_preview() {
    let image = rgba_image(8, 8, vec![255u8; 8 * 8 * 4]);
    let mut eff = TextureEffects::default();
    eff.pixel_format = PixelFormat::BC1;
    let (w, h, p) = eff
        .get_transformed_rgba8_pixels(&image, true)
        .expect("render compressed");
    assert_eq!((w, h), (8, 8));
    assert_eq!(p, image.pixels);
}

#[test]
fn test_raw_rotate_right() {
    // A 1x2 column [A, B] turned right becomes the 2x1 row [B, A].
    let pixels = vec![1, 2, 3, 4, 5, 6, 7, 8];
    let out = TextureProcessingUtility::rotate_90_right_raw(&pixels, 1, 2);
    assert_eq!(out, vec![5, 6, 7, 8, 1, 2, 3, 4]);
}

#[test]
fn test_raw_rotate_left() {
    // A 2x1 row [A, B] turned left becomes the 1x2 column [B, A].
    let pixels = vec![1, 2, 3, 4, 5, 6, 7, 8];
    let out = TextureProcessingUtility::rotate_90_left_raw(&pixels, 2, 1);
    assert_eq!(out, vec![5, 6, 7, 8, 1, 2, 3, 4]);
}

#[test]
fn test_raw_filter_colors() {
    let pixels = vec![10, 20, 30, 40];
    let out = TextureProcessingUtility::filter_colors(&pixels, (true, false, true, false));
    assert_eq!(out, vec![10, 0, 30, 255]);
}
