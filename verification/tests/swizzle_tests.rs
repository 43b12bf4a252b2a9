use texture_viewer::error::TexError;
use texture_viewer::graphics::pixel_format::PixelFormat;
use texture_viewer::graphics::swizzling::swizzle_manager::Swizzler;
use texture_viewer::graphics::swizzling::Platform;

fn counted_buffer(len: usize) -> Vec<u8> {
    (0..len).map(|i| (i % 251) as u8).collect()
}

#[test]
fn test_ps4_round_trip() {
    let swizzler = Swizzler::default();
    let buf = counted_buffer(16 * 16 * 4);
    let swizzled = swizzler
        .swizzle(&buf, 16, 16, PixelFormat::R8G8B8A8, Platform::PS4)
        .expect("PS4 swizzle");
    assert_ne!(swizzled, buf, "the tiling must actually move pixels");
    let back = swizzler
        .deswizzle(&swizzled, 16, 16, PixelFormat::R8G8B8A8, Platform::PS4)
        .expect("PS4 deswizzle");
    assert_eq!(back, buf);
    let unswizzled = swizzler
        .deswizzle(&buf, 16, 16, PixelFormat::R8G8B8A8, Platform::PS4)
        .expect("PS4 deswizzle");
    let there = swizzler
        .swizzle(&unswizzled, 16, 16, PixelFormat::R8G8B8A8, Platform::PS4)
        .expect("PS4 swizzle");
    assert_eq!(there, buf);
}

#[test]
fn test_ps4_round_trip_bc1() {
    // Block-compressed: the traversal works on 4x4 blocks of 8 bytes.
    let swizzler = Swizzler::default();
    let buf = counted_buffer(16 * 16 * 8);
    let swizzled = swizzler
        .swizzle(&buf, 64, 64, PixelFormat::BC1, Platform::PS4)
        .expect("PS4 swizzle BC1");
    let back = swizzler
        .deswizzle(&swizzled, 64, 64, PixelFormat::BC1, Platform::PS4)
        .expect("PS4 deswizzle BC1");
    assert_eq!(back, buf);
}

#[test]
fn test_psvita_round_trip() {
    let swizzler = Swizzler::default();
    let buf = counted_buffer(16 * 16 * 4);
    let swizzled = swizzler
        .swizzle(&buf, 16, 16, PixelFormat::R8G8B8A8, Platform::PSVita)
        .expect("Vita swizzle");
    assert_ne!(swizzled, buf);
    let back = swizzler
        .deswizzle(&swizzled, 16, 16, PixelFormat::R8G8B8A8, Platform::PSVita)
        .expect("Vita deswizzle");
    assert_eq!(back, buf);
}

#[test]
fn test_psvita_rejects_non_power_of_two() {
    let swizzler = Swizzler::default();
    let buf = counted_buffer(10 * 10 * 4);
    assert!(matches!(
        swizzler.swizzle(&buf, 10, 10, PixelFormat::R8G8B8A8, Platform::PSVita),
        Err(TexError::UnsupportedOperation)
    ));
}

#[test]
fn test_psvita_rejects_unsupported_format() {
    let swizzler = Swizzler::default();
    let buf = counted_buffer(16 * 16 * 3);
    assert!(matches!(
        swizzler.swizzle(&buf, 16, 16, PixelFormat::R8G8B8, Platform::PSVita),
        Err(TexError::UnsupportedOperation)
    ));
}

#[test]
fn test_xbox360_round_trip() {
    // 128 pixels at BC1 granularity give a 32-block-aligned grid.
    let swizzler = Swizzler::default();
    let buf = counted_buffer((128 / 4) * (128 / 4) * 8);
    let swizzled = swizzler
        .swizzle(&buf, 128, 128, PixelFormat::BC1, Platform::Xbox360)
        .expect("X360 swizzle");
    assert_ne!(swizzled, buf);
    let back = swizzler
        .deswizzle(&swizzled, 128, 128, PixelFormat::BC1, Platform::Xbox360)
        .expect("X360 deswizzle");
    assert_eq!(back, buf);
    let unswizzled = swizzler
        .deswizzle(&buf, 128, 128, PixelFormat::BC1, Platform::Xbox360)
        .expect("X360 deswizzle");
    let there = swizzler
        .swizzle(&unswizzled, 128, 128, PixelFormat::BC1, Platform::Xbox360)
        .expect("X360 swizzle");
    assert_eq!(there, buf);
}

#[test]
fn test_unregistered_platform() {
    let swizzler = Swizzler::default();
    let buf = counted_buffer(16 * 16 * 4);
    assert!(matches!(
        swizzler.swizzle(&buf, 16, 16, PixelFormat::R8G8B8A8, Platform::PS2),
        Err(TexError::UnsupportedOperation)
    ));
}
