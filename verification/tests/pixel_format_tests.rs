use texture_viewer::graphics::pixel_format::PixelFormat;

#[test]
fn test_bc1_row_pitch() {
    // ceil(10 / 4) = 3 blocks times 8 bytes.
    assert_eq!(PixelFormat::BC1.get_row_pitch(10), 24);
}

#[test]
fn test_bc1_slice_pitch() {
    // ceil(10 / 4) = 3 block rows times the row pitch.
    assert_eq!(PixelFormat::BC1.get_slice_pitch(10, 10), 72);
}

#[test]
fn test_bits_per_pixel_table() {
    assert_eq!(PixelFormat::R8G8B8A8.get_bits_per_pixel(), 32);
    assert_eq!(PixelFormat::R8G8B8.get_bits_per_pixel(), 24);
    assert_eq!(PixelFormat::B5G6R5.get_bits_per_pixel(), 16);
    assert_eq!(PixelFormat::BC1.get_bits_per_pixel(), 4);
    assert_eq!(PixelFormat::BC7.get_bits_per_pixel(), 8);
    assert_eq!(PixelFormat::R32G32B32A32.get_bits_per_pixel(), 128);
}

#[test]
fn test_block_geometry() {
    assert_eq!(PixelFormat::BC1.get_block_width(), 4);
    assert_eq!(PixelFormat::BC1.get_block_height(), 4);
    assert_eq!(PixelFormat::BC1.get_bytes_per_block(), 8);
    assert_eq!(PixelFormat::BC3.get_bytes_per_block(), 16);
    assert_eq!(PixelFormat::R8G8B8A8.get_block_width(), 1);
    assert_eq!(PixelFormat::R8G8B8A8.get_bytes_per_block(), 4);
    assert!(PixelFormat::BC5.is_compressed());
    assert!(!PixelFormat::R8G8B8A8.is_compressed());
}

#[test]
fn test_uncompressed_pitches() {
    assert_eq!(PixelFormat::R8G8B8A8.get_row_pitch(256), 1024);
    assert_eq!(PixelFormat::R8G8B8A8.get_slice_pitch(256, 256), 262144);
    assert_eq!(PixelFormat::R8G8B8.get_row_pitch(3), 9);
    assert_eq!(PixelFormat::R1.get_row_pitch(10), 2);
}
