use texture_viewer::error::TexError;
use texture_viewer::graphics::crate_directxtex_utility::DirectXTexUtility;
use texture_viewer::graphics::pixel_decoders::{decode_bgr888_pixel, decode_rgb888_pixel};
use texture_viewer::graphics::pixel_encoders::{encode_bgr888_pixel, encode_rgb888_pixel};
use texture_viewer::graphics::pixel_format::PixelFormat;
use texture_viewer::graphics::pixel_format_decoder::PixelDecoder;
use texture_viewer::graphics::pixel_format_encoder::PixelEncoder;

#[test]
fn test_rgba8_encode_decode_round_trip() {
    let buf: Vec<u8> = (0..4 * 4 * 4).map(|i| (i * 7 % 256) as u8).collect();
    let encoded = PixelEncoder::encode(&buf, PixelFormat::R8G8B8A8, 4, 4).expect("encode");
    assert_eq!(encoded, buf);
    let decoded = PixelDecoder::decode(&encoded, PixelFormat::R8G8B8A8, 4, 4).expect("decode");
    assert_eq!(decoded, buf);
}

#[test]
fn test_pixel_helpers() {
    assert_eq!(decode_rgb888_pixel(&[1, 2, 3]), [1, 2, 3, 255]);
    assert_eq!(decode_bgr888_pixel(&[1, 2, 3]), [3, 2, 1, 255]);
    assert_eq!(encode_rgb888_pixel(&[9, 8, 7, 6]), [9, 8, 7]);
    assert_eq!(encode_bgr888_pixel(&[9, 8, 7, 6]), [7, 8, 9]);
}

#[test]
fn test_decode_rgb888_buffer() {
    let decoded = PixelDecoder::decode(&[1, 2, 3, 4, 5, 6], PixelFormat::R8G8B8, 2, 1)
        .expect("decode RGB");
    assert_eq!(decoded, vec![1, 2, 3, 255, 4, 5, 6, 255]);
    let decoded = PixelDecoder::decode(&[1, 2, 3], PixelFormat::B8G8R8, 1, 1).expect("decode BGR");
    assert_eq!(decoded, vec![3, 2, 1, 255]);
}

#[test]
fn test_decode_b5g6r5_bit_replication() {
    // 0xF800 is pure red: the 5 bits widen to 255 by bit replication.
    let decoded =
        PixelDecoder::decode(&[0x00, 0xF8], PixelFormat::B5G6R5, 1, 1).expect("decode 565");
    assert_eq!(decoded, vec![255, 0, 0, 255]);
    // 0x07E0 is pure green over 6 bits.
    let decoded =
        PixelDecoder::decode(&[0xE0, 0x07], PixelFormat::B5G6R5, 1, 1).expect("decode 565");
    assert_eq!(decoded, vec![0, 255, 0, 255]);
    // A mid-level red 0b10000: (16 << 3) | (16 >> 2) = 132.
    let decoded =
        PixelDecoder::decode(&[0x00, 0x80], PixelFormat::B5G6R5, 1, 1).expect("decode 565");
    assert_eq!(decoded, vec![132, 0, 0, 255]);
}

#[test]
fn test_encode_b5g6r5_truncation() {
    let encoded =
        PixelEncoder::encode(&[255, 0, 0, 255], PixelFormat::B5G6R5, 1, 1).expect("encode 565");
    assert_eq!(encoded, vec![0x00, 0xF8]);
    let encoded =
        PixelEncoder::encode(&[0, 255, 0, 255], PixelFormat::B5G6R5, 1, 1).expect("encode 565");
    assert_eq!(encoded, vec![0xE0, 0x07]);
}

#[test]
fn test_decode_b4g4r4a4() {
    // 0xF0F0: alpha 0xF, red 0x0, green 0xF, blue 0x0.
    let decoded =
        PixelDecoder::decode(&[0xF0, 0xF0], PixelFormat::B4G4R4A4, 1, 1).expect("decode 4444");
    assert_eq!(decoded, vec![0, 255, 0, 255]);
}

#[test]
fn test_decode_b5g5r5a1_alpha_bit() {
    // Top bit clear: alpha decodes to 0.
    let decoded =
        PixelDecoder::decode(&[0x00, 0x7C], PixelFormat::B5G5R5A1, 1, 1).expect("decode 5551");
    assert_eq!(decoded, vec![255, 0, 0, 0]);
    // Top bit set: alpha decodes to 255.
    let decoded =
        PixelDecoder::decode(&[0x00, 0xFC], PixelFormat::B5G5R5A1, 1, 1).expect("decode 5551");
    assert_eq!(decoded, vec![255, 0, 0, 255]);
}

#[test]
fn test_decode_bgra_swap() {
    let decoded =
        PixelDecoder::decode(&[1, 2, 3, 4], PixelFormat::B8G8R8A8, 1, 1).expect("decode BGRA");
    assert_eq!(decoded, vec![3, 2, 1, 4]);
    let encoded = PixelEncoder::encode(&[3, 2, 1, 4], PixelFormat::B8G8R8A8, 1, 1)
        .expect("encode BGRA");
    assert_eq!(encoded, vec![1, 2, 3, 4]);
}

#[test]
fn test_decode_luminance_and_r16() {
    let decoded = PixelDecoder::decode(&[7], PixelFormat::L8, 1, 1).expect("decode L8");
    assert_eq!(decoded, vec![7, 7, 7, 255]);
    // Little-endian 16 bits: the high byte survives.
    let decoded = PixelDecoder::decode(&[0x34, 0x12], PixelFormat::R16, 1, 1).expect("decode R16");
    assert_eq!(decoded, vec![0x12, 0, 0, 255]);
}

#[test]
fn test_decode_rejects_wrong_length() {
    assert!(matches!(
        PixelDecoder::decode(&[1, 2, 3], PixelFormat::R8G8B8A8, 1, 1),
        Err(TexError::MalformedFile)
    ));
}

#[test]
fn test_decode_rejects_unknown_format() {
    assert!(matches!(
        PixelDecoder::decode(&[0, 0, 0, 0], PixelFormat::Unknown, 1, 1),
        Err(TexError::UnsupportedFormat)
    ));
}

#[test]
fn test_bc1_decompress_solid_color() {
    // A BC1 block with both endpoints pure red and all indices zero decodes
    // to sixteen opaque red texels.
    let block = [0x00, 0xF8, 0x00, 0xF8, 0x00, 0x00, 0x00, 0x00];
    let rgba =
        DirectXTexUtility::decompress_bc_to_rgba(PixelFormat::BC1, 4, 4, &block).expect("BC1");
    assert_eq!(rgba.len(), 64);
    for px in rgba.chunks(4) {
        assert_eq!(px, &[255, 0, 0, 255]);
    }
}

#[test]
fn test_bc1_compress_block_size() {
    let rgba = vec![255u8; 4 * 4 * 4];
    let bc = DirectXTexUtility::compress_rgba_to_bc(PixelFormat::BC1, 4, 4, &rgba).expect("BC1");
    assert_eq!(bc.len(), 8);
    let back = DirectXTexUtility::decompress_bc_to_rgba(PixelFormat::BC1, 4, 4, &bc).expect("BC1");
    assert_eq!(back, rgba);
}

#[test]
fn test_decode_bc1_through_decoder() {
    let block = [0x00, 0xF8, 0x00, 0xF8, 0x00, 0x00, 0x00, 0x00];
    let rgba = PixelDecoder::decode(&block, PixelFormat::BC1, 4, 4).expect("decode BC1");
    assert_eq!(rgba.len(), 64);
    assert_eq!(&rgba[0..4], &[255, 0, 0, 255]);
}
