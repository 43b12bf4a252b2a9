use vstd::prelude::*;

use crate::graphics::pixel_format::PixelFormat;

verus! {

/// Little-endian 16-bit word assembled from `data[off]` (low) and
/// `data[off + 1]` (high).
pub open spec fn spec_le16(data: Seq<u8>, off: int) -> u16 {
    (data[off] as u16) | ((data[off + 1] as u16) << 8)
}

/// Little-endian 32-bit word at `off`.
pub open spec fn spec_le32(data: Seq<u8>, off: int) -> u32 {
    (data[off] as u32) | ((data[off + 1] as u32) << 8) | ((data[off + 2] as u32) << 16) | ((data[off
        + 3] as u32) << 24)
}

/// Widen a 5-bit channel to 8 bits by bit replication.
pub open spec fn spec_rep5(v: u16) -> u8 {
    ((v << 3) | (v >> 2)) as u8
}

/// Widen a 6-bit channel to 8 bits by bit replication.
pub open spec fn spec_rep6(v: u16) -> u8 {
    ((v << 2) | (v >> 4)) as u8
}

/// Widen a 4-bit channel to 8 bits by bit replication.
pub open spec fn spec_rep4(v: u16) -> u8 {
    ((v << 4) | v) as u8
}

/// Bytes one source pixel occupies in a format the library decodes directly.
pub open spec fn spec_decode_bpp(f: PixelFormat) -> int {
    match f {
        PixelFormat::L8 | PixelFormat::R8 | PixelFormat::A8 => 1,
        PixelFormat::L8A8
        | PixelFormat::R8G8
        | PixelFormat::B5G6R5
        | PixelFormat::B5G5R5A1
        | PixelFormat::B5G5R5X1
        | PixelFormat::B4G4R4A4
        | PixelFormat::R16
        | PixelFormat::L16 => 2,
        PixelFormat::R8G8B8 | PixelFormat::B8G8R8 => 3,
        PixelFormat::R8G8B8A8
        | PixelFormat::B8G8R8A8
        | PixelFormat::B8G8R8X8
        | PixelFormat::R16G16
        | PixelFormat::L16A16
        | PixelFormat::R10G10B10A2 => 4,
        PixelFormat::R16G16B16 => 6,
        PixelFormat::R16G16B16A16 => 8,
        _ => 0,
    }
}

/// The formats whose decoding to canonical RGBA8 is pure integer logic and is
/// implemented (and verified) in this library.
pub open spec fn spec_direct_decodable(f: PixelFormat) -> bool {
    spec_decode_bpp(f) > 0
}

/// The RGBA8 texel produced for source pixel `i` of a directly decodable
/// format: packed low-bit channels widen by bit replication, multi-byte
/// channels decode little-endian and keep their high byte, luminance
/// broadcasts to R, G and B, and a missing alpha channel decodes to 255.
pub open spec fn spec_decoded_pixel(f: PixelFormat, data: Seq<u8>, i: int) -> Seq<u8> {
    match f {
        PixelFormat::R8G8B8A8 => seq![data[4 * i], data[4 * i + 1], data[4 * i + 2], data[4 * i + 3]],
        PixelFormat::R8G8B8 => seq![data[3 * i], data[3 * i + 1], data[3 * i + 2], 255u8],
        PixelFormat::B8G8R8 => seq![data[3 * i + 2], data[3 * i + 1], data[3 * i], 255u8],
        PixelFormat::B8G8R8A8 => seq![
            data[4 * i + 2],
            data[4 * i + 1],
            data[4 * i],
            data[4 * i + 3],
        ],
        PixelFormat::B8G8R8X8 => seq![data[4 * i + 2], data[4 * i + 1], data[4 * i], 255u8],
        PixelFormat::L8 => seq![data[i], data[i], data[i], 255u8],
        PixelFormat::R8 => seq![data[i], 0u8, 0u8, 255u8],
        PixelFormat::A8 => seq![0u8, 0u8, 0u8, data[i]],
        PixelFormat::L8A8 => seq![data[2 * i], data[2 * i], data[2 * i], data[2 * i + 1]],
        PixelFormat::R8G8 => seq![data[2 * i], data[2 * i + 1], 0u8, 255u8],
        PixelFormat::B5G6R5 => {
            let v = spec_le16(data, 2 * i);
            seq![spec_rep5((v >> 11) & 0x1F), spec_rep6((v >> 5) & 0x3F), spec_rep5(v & 0x1F), 255u8]
        },
        PixelFormat::B5G5R5A1 => {
            let v = spec_le16(data, 2 * i);
            seq![
                spec_rep5((v >> 10) & 0x1F),
                spec_rep5((v >> 5) & 0x1F),
                spec_rep5(v & 0x1F),
                if (v >> 15) & 1 == 1 {
                    255u8
                } else {
                    0u8
                },
            ]
        },
        PixelFormat::B5G5R5X1 => {
            let v = spec_le16(data, 2 * i);
            seq![spec_rep5((v >> 10) & 0x1F), spec_rep5((v >> 5) & 0x1F), spec_rep5(v & 0x1F), 255u8]
        },
        PixelFormat::B4G4R4A4 => {
            let v = spec_le16(data, 2 * i);
            seq![
                spec_rep4((v >> 8) & 0xF),
                spec_rep4((v >> 4) & 0xF),
                spec_rep4(v & 0xF),
                spec_rep4((v >> 12) & 0xF),
            ]
        },
        PixelFormat::R16 => seq![data[2 * i + 1], 0u8, 0u8, 255u8],
        PixelFormat::L16 => seq![data[2 * i + 1], data[2 * i + 1], data[2 * i + 1], 255u8],
        PixelFormat::R16G16 => seq![data[4 * i + 1], data[4 * i + 3], 0u8, 255u8],
        PixelFormat::L16A16 => seq![
            data[4 * i + 1],
            data[4 * i + 1],
            data[4 * i + 1],
            data[4 * i + 3],
        ],
        PixelFormat::R16G16B16 => seq![data[6 * i + 1], data[6 * i + 3], data[6 * i + 5], 255u8],
        PixelFormat::R16G16B16A16 => seq![
            data[8 * i + 1],
            data[8 * i + 3],
            data[8 * i + 5],
            data[8 * i + 7],
        ],
        PixelFormat::R10G10B10A2 => {
            let v = spec_le32(data, 4 * i);
            seq![
                ((v & 0x3FF) >> 2) as u8,
                (((v >> 10) & 0x3FF) >> 2) as u8,
                (((v >> 20) & 0x3FF) >> 2) as u8,
                (((v >> 30) & 3) * 85) as u8,
            ]
        },
        _ => seq![0u8, 0u8, 0u8, 0u8],
    }
}

/// Bytes per source pixel of a directly decodable format, 0 otherwise.
pub fn decode_bpp(f: PixelFormat) -> (r: u32)
    ensures
        r == spec_decode_bpp(f),
{
    match f {
        PixelFormat::L8 | PixelFormat::R8 | PixelFormat::A8 => 1,
        PixelFormat::L8A8
        | PixelFormat::R8G8
        | PixelFormat::B5G6R5
        | PixelFormat::B5G5R5A1
        | PixelFormat::B5G5R5X1
        | PixelFormat::B4G4R4A4
        | PixelFormat::R16
        | PixelFormat::L16 => 2,
        PixelFormat::R8G8B8 | PixelFormat::B8G8R8 => 3,
        PixelFormat::R8G8B8A8
        | PixelFormat::B8G8R8A8
        | PixelFormat::B8G8R8X8
        | PixelFormat::R16G16
        | PixelFormat::L16A16
        | PixelFormat::R10G10B10A2 => 4,
        PixelFormat::R16G16B16 => 6,
        PixelFormat::R16G16B16A16 => 8,
        _ => 0,
    }
}

/// Decode one RGB pixel (3 bytes, red first) to an opaque RGBA8 texel.
pub fn decode_rgb888_pixel(pixel: &[u8]) -> (r: [u8; 4])
    requires
        pixel@.len() >= 3,
    ensures
        r@ == seq![pixel@[0], pixel@[1], pixel@[2], 255u8],
{
    let r8 = pixel[0];
    let g8 = pixel[1];
    let b8 = pixel[2];
    let a8 = 0xFF;
    let out = [r8, g8, b8, a8];
    proof {
        assert(out@ =~= seq![pixel@[0], pixel@[1], pixel@[2], 255u8]);
    }
    out
}

/// Decode one BGR pixel (3 bytes, blue first) to an opaque RGBA8 texel.
pub fn decode_bgr888_pixel(pixel: &[u8]) -> (r: [u8; 4])
    requires
        pixel@.len() >= 3,
    ensures
        r@ == seq![pixel@[2], pixel@[1], pixel@[0], 255u8],
{
    let r8 = pixel[2];
    let g8 = pixel[1];
    let b8 = pixel[0];
    let a8 = 0xFF;
    let out = [r8, g8, b8, a8];
    proof {
        assert(out@ =~= seq![pixel@[2], pixel@[1], pixel@[0], 255u8]);
    }
    out
}

/// Append the RGBA8 texel decoded from source pixel `i` of `data` to `out`.
pub fn push_decoded_pixel(f: PixelFormat, data: &[u8], i: usize, out: &mut Vec<u8>)
    requires
        spec_direct_decodable(f),
        spec_decode_bpp(f) * (i + 1) <= data@.len(),
    ensures
        final(out)@ == old(out)@ + spec_decoded_pixel(f, data@, i as int),
{
    let ghost pre = out@;
    let _len = data.len();  // brings the slice length bound into scope
    match f {
        PixelFormat::R8G8B8A8 => {
            out.push(data[4 * i]);
            out.push(data[4 * i + 1]);
            out.push(data[4 * i + 2]);
            out.push(data[4 * i + 3]);
        },
        PixelFormat::R8G8B8 => {
            out.push(data[3 * i]);
            out.push(data[3 * i + 1]);
            out.push(data[3 * i + 2]);
            out.push(255);
        },
        PixelFormat::B8G8R8 => {
            out.push(data[3 * i + 2]);
            out.push(data[3 * i + 1]);
            out.push(data[3 * i]);
            out.push(255);
        },
        PixelFormat::B8G8R8A8 => {
            out.push(data[4 * i + 2]);
            out.push(data[4 * i + 1]);
            out.push(data[4 * i]);
            out.push(data[4 * i + 3]);
        },
        PixelFormat::B8G8R8X8 => {
            out.push(data[4 * i + 2]);
            out.push(data[4 * i + 1]);
            out.push(data[4 * i]);
            out.push(255);
        },
        PixelFormat::L8 => {
            out.push(data[i]);
            out.push(data[i]);
            out.push(data[i]);
            out.push(255);
        },
        PixelFormat::R8 => {
            out.push(data[i]);
            out.push(0);
            out.push(0);
            out.push(255);
        },
        PixelFormat::A8 => {
            out.push(0);
            out.push(0);
            out.push(0);
            out.push(data[i]);
        },
        PixelFormat::L8A8 => {
            out.push(data[2 * i]);
            out.push(data[2 * i]);
            out.push(data[2 * i]);
            out.push(data[2 * i + 1]);
        },
        PixelFormat::R8G8 => {
            out.push(data[2 * i]);
            out.push(data[2 * i + 1]);
            out.push(0);
            out.push(255);
        },
        PixelFormat::B5G6R5 => {
            let v: u16 = (data[2 * i] as u16) | ((data[2 * i + 1] as u16) << 8);
            let r5: u16 = (v >> 11) & 0x1F;
            let g6: u16 = (v >> 5) & 0x3F;
            let b5: u16 = v & 0x1F;
            out.push(((r5 << 3) | (r5 >> 2)) as u8);
            out.push(((g6 << 2) | (g6 >> 4)) as u8);
            out.push(((b5 << 3) | (b5 >> 2)) as u8);
            out.push(255);
        },
        PixelFormat::B5G5R5A1 => {
            let v: u16 = (data[2 * i] as u16) | ((data[2 * i + 1] as u16) << 8);
            let r5: u16 = (v >> 10) & 0x1F;
            let g5: u16 = (v >> 5) & 0x1F;
            let b5: u16 = v & 0x1F;
            out.push(((r5 << 3) | (r5 >> 2)) as u8);
            out.push(((g5 << 3) | (g5 >> 2)) as u8);
            out.push(((b5 << 3) | (b5 >> 2)) as u8);
            out.push(if (v >> 15) & 1 == 1 {
                255
            } else {
                0
            });
        },
        PixelFormat::B5G5R5X1 => {
            let v: u16 = (data[2 * i] as u16) | ((data[2 * i + 1] as u16) << 8);
            let r5: u16 = (v >> 10) & 0x1F;
            let g5: u16 = (v >> 5) & 0x1F;
            let b5: u16 = v & 0x1F;
            out.push(((r5 << 3) | (r5 >> 2)) as u8);
            out.push(((g5 << 3) | (g5 >> 2)) as u8);
            out.push(((b5 << 3) | (b5 >> 2)) as u8);
            out.push(255);
        },
        PixelFormat::B4G4R4A4 => {
            let v: u16 = (data[2 * i] as u16) | ((data[2 * i + 1] as u16) << 8);
            let r4: u16 = (v >> 8) & 0xF;
            let g4: u16 = (v >> 4) & 0xF;
            let b4: u16 = v & 0xF;
            let a4: u16 = (v >> 12) & 0xF;
            out.push(((r4 << 4) | r4) as u8);
            out.push(((g4 << 4) | g4) as u8);
            out.push(((b4 << 4) | b4) as u8);
            out.push(((a4 << 4) | a4) as u8);
        },
        PixelFormat::R16 => {
            out.push(data[2 * i + 1]);
            out.push(0);
            out.push(0);
            out.push(255);
        },
        PixelFormat::L16 => {
            out.push(data[2 * i + 1]);
            out.push(data[2 * i + 1]);
            out.push(data[2 * i + 1]);
            out.push(255);
        },
        PixelFormat::R16G16 => {
            out.push(data[4 * i + 1]);
            out.push(data[4 * i + 3]);
            out.push(0);
            out.push(255);
        },
        PixelFormat::L16A16 => {
            out.push(data[4 * i + 1]);
            out.push(data[4 * i + 1]);
            out.push(data[4 * i + 1]);
            out.push(data[4 * i + 3]);
        },
        PixelFormat::R16G16B16 => {
            out.push(data[6 * i + 1]);
            out.push(data[6 * i + 3]);
            out.push(data[6 * i + 5]);
            out.push(255);
        },
        PixelFormat::R16G16B16A16 => {
            out.push(data[8 * i + 1]);
            out.push(data[8 * i + 3]);
            out.push(data[8 * i + 5]);
            out.push(data[8 * i + 7]);
        },
        PixelFormat::R10G10B10A2 => {
            let v: u32 = (data[4 * i] as u32) | ((data[4 * i + 1] as u32) << 8) | ((data[4 * i
                + 2] as u32) << 16) | ((data[4 * i + 3] as u32) << 24);
            out.push(((v & 0x3FF) >> 2) as u8);
            out.push((((v >> 10) & 0x3FF) >> 2) as u8);
            out.push((((v >> 20) & 0x3FF) >> 2) as u8);
            proof {
                assert(((v >> 30) & 3) * 85 <= 255) by (bit_vector);
            }
            out.push((((v >> 30) & 3) * 85) as u8);
        },
        _ => {
            proof {
                assert(false);
            }
        },
    }
    proof {
        assert(out@ =~= pre + spec_decoded_pixel(f, data@, i as int));
    }
}

} // verus!
