use vstd::prelude::*;

use crate::graphics::pixel_format::PixelFormat;

verus! {

/// Bytes one destination pixel occupies in a format the library encodes
/// directly (same set as direct decoding).
pub open spec fn spec_encode_bpp(f: PixelFormat) -> int {
    crate::graphics::pixel_decoders::spec_decode_bpp(f)
}

pub open spec fn spec_direct_encodable(f: PixelFormat) -> bool {
    spec_encode_bpp(f) > 0
}

/// Widen an 8-bit channel to 10 bits by bit replication.
pub open spec fn spec_rep10(c: u8) -> u32 {
    ((c as u32) << 2) | ((c as u32) >> 6)
}

/// The raw bytes produced for RGBA8 texel `i` when encoding to `f`:
/// packed low-bit channels truncate to their top bits, 16-bit channels widen
/// by byte replication (little endian), and unused fields of `X` formats are
/// written as fully set bits.
pub open spec fn spec_encoded_pixel(f: PixelFormat, data: Seq<u8>, i: int) -> Seq<u8> {
    let r = data[4 * i];
    let g = data[4 * i + 1];
    let b = data[4 * i + 2];
    let a = data[4 * i + 3];
    match f {
        PixelFormat::R8G8B8A8 => seq![r, g, b, a],
        PixelFormat::R8G8B8 => seq![r, g, b],
        PixelFormat::B8G8R8 => seq![b, g, r],
        PixelFormat::B8G8R8A8 => seq![b, g, r, a],
        PixelFormat::B8G8R8X8 => seq![b, g, r, 255u8],
        PixelFormat::L8 => seq![r],
        PixelFormat::R8 => seq![r],
        PixelFormat::A8 => seq![a],
        PixelFormat::L8A8 => seq![r, a],
        PixelFormat::R8G8 => seq![r, g],
        PixelFormat::B5G6R5 => {
            let v = ((((r as u16) >> 3) << 11) | (((g as u16) >> 2) << 5) | ((b as u16) >> 3))
                as u16;
            seq![(v & 0xFF) as u8, (v >> 8) as u8]
        },
        PixelFormat::B5G5R5A1 => {
            let v = ((((a as u16) >> 7) << 15) | (((r as u16) >> 3) << 10) | (((g as u16) >> 3)
                << 5) | ((b as u16) >> 3)) as u16;
            seq![(v & 0xFF) as u8, (v >> 8) as u8]
        },
        PixelFormat::B5G5R5X1 => {
            let v = ((1u16 << 15) | (((r as u16) >> 3) << 10) | (((g as u16) >> 3) << 5) | ((
            b as u16) >> 3)) as u16;
            seq![(v & 0xFF) as u8, (v >> 8) as u8]
        },
        PixelFormat::B4G4R4A4 => {
            let v = ((((a as u16) >> 4) << 12) | (((r as u16) >> 4) << 8) | (((g as u16) >> 4) << 4)
                | ((b as u16) >> 4)) as u16;
            seq![(v & 0xFF) as u8, (v >> 8) as u8]
        },
        PixelFormat::R16 => seq![r, r],
        PixelFormat::L16 => seq![r, r],
        PixelFormat::R16G16 => seq![r, r, g, g],
        PixelFormat::L16A16 => seq![r, r, a, a],
        PixelFormat::R16G16B16 => seq![r, r, g, g, b, b],
        PixelFormat::R16G16B16A16 => seq![r, r, g, g, b, b, a, a],
        PixelFormat::R10G10B10A2 => {
            let v = (spec_rep10(r) | (spec_rep10(g) << 10) | (spec_rep10(b) << 20) | (((
            a as u32) >> 6) << 30)) as u32;
            seq![
                (v & 0xFF) as u8,
                ((v >> 8) & 0xFF) as u8,
                ((v >> 16) & 0xFF) as u8,
                ((v >> 24) & 0xFF) as u8,
            ]
        },
        _ => seq![],
    }
}

/// Encode one RGBA8 texel to 3 bytes, red first, dropping alpha.
pub fn encode_rgb888_pixel(pixel: &[u8; 4]) -> (r: [u8; 3])
    ensures
        r@ == seq![pixel@[0], pixel@[1], pixel@[2]],
{
    let r8 = pixel[0];
    let g8 = pixel[1];
    let b8 = pixel[2];
    let out = [r8, g8, b8];
    proof {
        assert(out@ =~= seq![pixel@[0], pixel@[1], pixel@[2]]);
    }
    out
}

/// Encode one RGBA8 texel to 3 bytes, blue first, dropping alpha.
pub fn encode_bgr888_pixel(pixel: &[u8; 4]) -> (r: [u8; 3])
    ensures
        r@ == seq![pixel@[2], pixel@[1], pixel@[0]],
{
    let r8 = pixel[2];
    let g8 = pixel[1];
    let b8 = pixel[0];
    let out = [r8, g8, b8];
    proof {
        assert(out@ =~= seq![pixel@[2], pixel@[1], pixel@[0]]);
    }
    out
}

/// Append the raw encoding of RGBA8 texel `i` of `data` to `out`.
pub fn push_encoded_pixel(f: PixelFormat, data: &[u8], i: usize, out: &mut Vec<u8>)
    requires
        spec_direct_encodable(f),
        4 * (i + 1) <= data@.len(),
    ensures
        final(out)@ == old(out)@ + spec_encoded_pixel(f, data@, i as int),
{
    let ghost pre = out@;
    let _len = data.len();  // brings the slice length bound into scope
    let r = data[4 * i];
    let g = data[4 * i + 1];
    let b = data[4 * i + 2];
    let a = data[4 * i + 3];
    match f {
        PixelFormat::R8G8B8A8 => {
            out.push(r);
            out.push(g);
            out.push(b);
            out.push(a);
        },
        PixelFormat::R8G8B8 => {
            out.push(r);
            out.push(g);
            out.push(b);
        },
        PixelFormat::B8G8R8 => {
            out.push(b);
            out.push(g);
            out.push(r);
        },
        PixelFormat::B8G8R8A8 => {
            out.push(b);
            out.push(g);
            out.push(r);
            out.push(a);
        },
        PixelFormat::B8G8R8X8 => {
            out.push(b);
            out.push(g);
            out.push(r);
            out.push(255);
        },
        PixelFormat::L8 => {
            out.push(r);
        },
        PixelFormat::R8 => {
            out.push(r);
        },
        PixelFormat::A8 => {
            out.push(a);
        },
        PixelFormat::L8A8 => {
            out.push(r);
            out.push(a);
        },
        PixelFormat::R8G8 => {
            out.push(r);
            out.push(g);
        },
        PixelFormat::B5G6R5 => {
            let v: u16 = (((r as u16) >> 3) << 11) | (((g as u16) >> 2) << 5) | ((b as u16) >> 3);
            out.push((v & 0xFF) as u8);
            out.push((v >> 8) as u8);
        },
        PixelFormat::B5G5R5A1 => {
            let v: u16 = (((a as u16) >> 7) << 15) | (((r as u16) >> 3) << 10) | (((g as u16) >> 3)
                << 5) | ((b as u16) >> 3);
            out.push((v & 0xFF) as u8);
            out.push((v >> 8) as u8);
        },
        PixelFormat::B5G5R5X1 => {
            let v: u16 = (1u16 << 15) | (((r as u16) >> 3) << 10) | (((g as u16) >> 3) << 5) | ((
            b as u16) >> 3);
            out.push((v & 0xFF) as u8);
            out.push((v >> 8) as u8);
        },
        PixelFormat::B4G4R4A4 => {
            let v: u16 = (((a as u16) >> 4) << 12) | (((r as u16) >> 4) << 8) | (((g as u16) >> 4)
                << 4) | ((b as u16) >> 4);
            out.push((v & 0xFF) as u8);
            out.push((v >> 8) as u8);
        },
        PixelFormat::R16 => {
            out.push(r);
            out.push(r);
        },
        PixelFormat::L16 => {
            out.push(r);
            out.push(r);
        },
        PixelFormat::R16G16 => {
            out.push(r);
            out.push(r);
            out.push(g);
            out.push(g);
        },
        PixelFormat::L16A16 => {
            out.push(r);
            out.push(r);
            out.push(a);
            out.push(a);
        },
        PixelFormat::R16G16B16 => {
            out.push(r);
            out.push(r);
            out.push(g);
            out.push(g);
            out.push(b);
            out.push(b);
        },
        PixelFormat::R16G16B16A16 => {
            out.push(r);
            out.push(r);
            out.push(g);
            out.push(g);
            out.push(b);
            out.push(b);
            out.push(a);
            out.push(a);
        },
        PixelFormat::R10G10B10A2 => {
            let rw: u32 = ((r as u32) << 2) | ((r as u32) >> 6);
            let gw: u32 = ((g as u32) << 2) | ((g as u32) >> 6);
            let bw: u32 = ((b as u32) << 2) | ((b as u32) >> 6);
            let v: u32 = rw | (gw << 10) | (bw << 20) | (((a as u32) >> 6) << 30);
            out.push((v & 0xFF) as u8);
            out.push(((v >> 8) & 0xFF) as u8);
            out.push(((v >> 16) & 0xFF) as u8);
            out.push(((v >> 24) & 0xFF) as u8);
        },
        _ => {
            proof {
                assert(false);
            }
        },
    }
    proof {
        assert(out@ =~= pre + spec_encoded_pixel(f, data@, i as int));
    }
}

} // verus!
