use vstd::prelude::*;

use crate::error::TexError;
use crate::graphics::pixel_format::{spec_block_width, spec_bytes_per_block, PixelFormat};
use crate::graphics::swizzling::{
    apply_gather, check_permutation, invert_order, lemma_gather_gather, lemma_invert_props,
    spec_gather, spec_invert, spec_scatter, spec_valid_order, Platform, Swizzable,
};

verus! {

/// The buffer with each 16-bit word's bytes exchanged.
pub open spec fn spec_swap16(data: Seq<u8>) -> Seq<u8> {
    Seq::new(
        data.len(),
        |i: int|
            if i % 2 == 0 {
                data[i + 1]
            } else {
                data[i - 1]
            },
    )
}

/// Swapping twice restores the buffer.
pub proof fn lemma_swap16_involutive(data: Seq<u8>)
    requires
        data.len() % 2 == 0,
    ensures
        spec_swap16(spec_swap16(data)) == data,
{
    let s = spec_swap16(data);
    assert forall|i: int| 0 <= i < data.len() implies spec_swap16(s)[i] == data[i] by {
        if i % 2 == 0 {
            assert(i + 1 < data.len());
            assert((i + 1) % 2 == 1);
        } else {
            assert((i - 1) % 2 == 0);
        }
    }
    assert(spec_swap16(spec_swap16(data)) =~= data);
}

/// Exchange the two bytes of every 16-bit word.
pub fn swap_byte_order(data: &[u8]) -> (out: Vec<u8>)
    requires
        data@.len() % 2 == 0,
    ensures
        out@ == spec_swap16(data@),
{
    let len = data.len();
    let mut out: Vec<u8> = Vec::new();
    let mut i: usize = 0;
    while i + 1 < len
        invariant
            len == data@.len(),
            len % 2 == 0,
            i % 2 == 0,
            i <= len,
            out@.len() == i,
            forall|i1: int| 0 <= i1 < i ==> out@[i1] == spec_swap16(data@)[i1],
        decreases len - i,
    {
        out.push(data[i + 1]);
        out.push(data[i]);
        i = i + 2;
    }
    proof {
        assert(out@ =~= spec_swap16(data@));
    }
    out
}

/// The platform's per-block pitch logarithm.
pub open spec fn spec_xg_log_bpp(p: u64) -> u64 {
    ((p >> 2) + ((p >> 1) >> (p >> 2))) as u64
}

/// The tiled X block coordinate of linear block `bo` in a grid `wb` blocks
/// wide with `p` bytes per block, as the platform's 2D tiling defines it.
pub open spec fn spec_xg_x(bo: u64, wb: u64, p: u64) -> u64 {
    let aligned = ((wb + 31) as u64) & !31u64;
    let log_bpp = spec_xg_log_bpp(p);
    let offset_byte = bo << log_bpp;
    let offset_tile = (((offset_byte & !0xFFFu64) >> 3) + ((offset_byte & 0x700) >> 2) + (
    offset_byte & 0x3F)) as u64;
    let offset_macro = offset_tile >> ((7 + log_bpp) as u64);
    let macro_x = (offset_macro % (aligned >> 5)) << 2;
    let tile = ((((offset_tile >> ((5 + log_bpp) as u64)) & 2) + (offset_byte >> 6)) as u64) & 3;
    let macro_val = ((macro_x + tile) as u64) << 3;
    let micro = ((((offset_tile >> 1) & !0xFu64) + (offset_tile & 0xF)) as u64 & (((p << 3)
        - 1) as u64)) >> log_bpp;
    (macro_val + micro) as u64
}

/// The tiled Y block coordinate of linear block `bo`.
pub open spec fn spec_xg_y(bo: u64, wb: u64, p: u64) -> u64 {
    let aligned = ((wb + 31) as u64) & !31u64;
    let log_bpp = spec_xg_log_bpp(p);
    let offset_byte = bo << log_bpp;
    let offset_tile = (((offset_byte & !0xFFFu64) >> 3) + ((offset_byte & 0x700) >> 2) + (
    offset_byte & 0x3F)) as u64;
    let offset_macro = offset_tile >> ((7 + log_bpp) as u64);
    let macro_y = (offset_macro / (aligned >> 5)) << 2;
    let tile = (((offset_tile >> ((6 + log_bpp) as u64)) & 1) + ((offset_byte & 0x800) >> 10))
        as u64;
    let macro_val = ((macro_y + tile) as u64) << 3;
    let micro = ((((offset_tile & ((((p << 6) - 1) as u64) & !0x1Fu64)) + ((offset_tile & 0xF)
        << 1)) as u64) >> ((3 + log_bpp) as u64)) & !1u64;
    ((macro_val + micro) as u64 + ((offset_tile & 0x10) >> 4)) as u64
}

/// The tiled X block coordinate, as `spec_xg_x` defines it.
pub fn xg_address_2d_tiled_x(block_offset: u64, width_in_blocks: u64, texel_byte_pitch: u64) -> (r:
    u64)
    requires
        block_offset <= 0xFFFFFFFFu64,
        1 <= width_in_blocks <= 0xFFFFFFFFu64,
        1 <= texel_byte_pitch <= 16,
    ensures
        r == spec_xg_x(block_offset, width_in_blocks, texel_byte_pitch),
{
    let wb = width_in_blocks;
    let p = texel_byte_pitch;
    let bo = block_offset;
    proof {
        assert((p >> 2) <= 4 && ((p >> 1) >> (p >> 2)) <= 8) by (bit_vector)
            requires
                p <= 16,
        ;
    }
    let aligned: u64 = (wb + 31) & !31u64;
    let log_bpp: u64 = (p >> 2) + ((p >> 1) >> (p >> 2));
    let offset_byte: u64 = bo << log_bpp;
    proof {
        assert(bo << log_bpp <= 0xFFFFFFF000000u64) by (bit_vector)
            requires
                bo <= 0xFFFFFFFFu64,
                log_bpp <= 12,
        ;
        assert(((offset_byte & !0xFFFu64) >> 3) <= 0x1FFFFFFE00000u64 && ((offset_byte & 0x700)
            >> 2) <= 0x1C0u64 && (offset_byte & 0x3F) <= 0x3Fu64 && (offset_byte >> 6)
            <= 0x3FFFFFFC0000u64) by (bit_vector)
            requires
                offset_byte <= 0xFFFFFFF000000u64,
        ;
        assert((aligned >> 5) >= 1 && (aligned >> 5) <= 0x8000001u64) by (bit_vector)
            requires
                aligned == ((wb + 31) as u64) & !31u64,
                1 <= wb <= 0xFFFFFFFFu64,
        ;
    }
    let offset_tile: u64 = ((offset_byte & !0xFFFu64) >> 3) + ((offset_byte & 0x700) >> 2) + (
    offset_byte & 0x3F);
    let offset_macro: u64 = offset_tile >> (7 + log_bpp);
    let modv: u64 = offset_macro % (aligned >> 5);
    let macro_x: u64 = modv << 2;
    proof {
        assert(modv << 2 <= 0x20000004u64) by (bit_vector)
            requires
                modv <= 0x8000001u64,
        ;
    }
    proof {
        assert(((offset_tile >> (5 + log_bpp)) & 2) <= 2) by (bit_vector);
    }
    let tile: u64 = (((offset_tile >> (5 + log_bpp)) & 2) + (offset_byte >> 6)) & 3;
    proof {
        assert((((offset_tile >> (5 + log_bpp)) & 2) + (offset_byte >> 6)) as u64 & 3 <= 3u64) by (
        bit_vector);
        assert(((macro_x + tile) as u64) << 3 <= 0x100000038u64) by (bit_vector)
            requires
                macro_x <= 0x20000004u64,
                tile <= 3u64,
        ;
        assert(((offset_tile >> 1) & !0xFu64) <= 0x7FFFFFFFFFFFFFFFu64 && (offset_tile & 0xF)
            <= 0xFu64) by (bit_vector);
        assert(p << 3 >= 8) by (bit_vector)
            requires
                1 <= p <= 16,
        ;
    }
    let macro_val: u64 = (macro_x + tile) << 3;
    let micro: u64 = ((((offset_tile >> 1) & !0xFu64) + (offset_tile & 0xF)) & ((p << 3) - 1))
        >> log_bpp;
    proof {
        assert(((((offset_tile >> 1) & !0xFu64) + (offset_tile & 0xF)) as u64 & (((p << 3)
            - 1) as u64)) >> log_bpp <= 0x7Fu64) by (bit_vector)
            requires
                1 <= p <= 16,
        ;
    }
    macro_val + micro
}

/// The tiled Y block coordinate, as `spec_xg_y` defines it.
pub fn xg_address_2d_tiled_y(block_offset: u64, width_in_blocks: u64, texel_byte_pitch: u64) -> (r:
    u64)
    requires
        block_offset <= 0xFFFFFFFFu64,
        1 <= width_in_blocks <= 0xFFFFFFFFu64,
        1 <= texel_byte_pitch <= 16,
    ensures
        r == spec_xg_y(block_offset, width_in_blocks, texel_byte_pitch),
{
    let wb = width_in_blocks;
    let p = texel_byte_pitch;
    let bo = block_offset;
    proof {
        assert((p >> 2) <= 4 && ((p >> 1) >> (p >> 2)) <= 8) by (bit_vector)
            requires
                p <= 16,
        ;
    }
    let aligned: u64 = (wb + 31) & !31u64;
    let log_bpp: u64 = (p >> 2) + ((p >> 1) >> (p >> 2));
    let offset_byte: u64 = bo << log_bpp;
    proof {
        assert(bo << log_bpp <= 0xFFFFFFF000000u64) by (bit_vector)
            requires
                bo <= 0xFFFFFFFFu64,
                log_bpp <= 12,
        ;
        assert(((offset_byte & !0xFFFu64) >> 3) <= 0x1FFFFFFE00000u64 && ((offset_byte & 0x700)
            >> 2) <= 0x1C0u64 && (offset_byte & 0x3F) <= 0x3Fu64 && ((offset_byte & 0x800) >> 10)
            <= 2u64) by (bit_vector)
            requires
                offset_byte <= 0xFFFFFFF000000u64,
        ;
        assert((aligned >> 5) >= 1) by (bit_vector)
            requires
                aligned == ((wb + 31) as u64) & !31u64,
                1 <= wb <= 0xFFFFFFFFu64,
        ;
    }
    let offset_tile: u64 = ((offset_byte & !0xFFFu64) >> 3) + ((offset_byte & 0x700) >> 2) + (
    offset_byte & 0x3F);
    let offset_macro: u64 = offset_tile >> (7 + log_bpp);
    let divv: u64 = offset_macro / (aligned >> 5);
    proof {
        assert(offset_macro / (aligned >> 5) <= offset_macro) by (nonlinear_arith)
            requires
                (aligned >> 5) >= 1,
                offset_macro >= 0,
        ;
        assert(offset_macro <= 0x1FFFFFFFFFFFFu64) by (bit_vector)
            requires
                offset_macro == offset_tile >> (7 + log_bpp),
                offset_tile <= 0x1FFFFFE001FFu64 + 0x1C0u64 + 0x3Fu64 + 0x1FFFFFE00000u64
                    + 0x1FFFFFFE00000u64,
        ;
        assert(divv << 2 <= 0x7FFFFFFFFFFFCu64) by (bit_vector)
            requires
                divv <= 0x1FFFFFFFFFFFFu64,
        ;
    }
    let macro_y: u64 = divv << 2;
    proof {
        assert(((offset_tile >> (6 + log_bpp)) & 1) <= 1) by (bit_vector);
    }
    let tile: u64 = ((offset_tile >> (6 + log_bpp)) & 1) + ((offset_byte & 0x800) >> 10);
    proof {
        assert(((macro_y + tile) as u64) << 3 <= 0x3FFFFFFFFFFFF8u64) by (bit_vector)
            requires
                macro_y <= 0x7FFFFFFFFFFFCu64,
                tile <= 3u64,
        ;
        assert(p << 6 >= 64 && (offset_tile & ((((p << 6) - 1) as u64) & !0x1Fu64)) <= 0x3FFu64 && (
        (offset_tile & 0xF) << 1) <= 0x1Eu64) by (bit_vector)
            requires
                1 <= p <= 16,
        ;
        assert((((offset_tile & ((((p << 6) - 1) as u64) & !0x1Fu64)) + ((offset_tile & 0xF) << 1))
            as u64 >> (3 + log_bpp)) & !1u64 <= 0x41Eu64) by (bit_vector)
            requires
                1 <= p <= 16,
        ;
        assert(((offset_tile & 0x10) >> 4) <= 1) by (bit_vector);
    }
    let macro_val: u64 = (macro_y + tile) << 3;
    let micro: u64 = (((offset_tile & (((p << 6) - 1) & !0x1Fu64)) + ((offset_tile & 0xF) << 1))
        >> (3 + log_bpp)) & !1u64;
    macro_val + micro + ((offset_tile & 0x10) >> 4)
}

/// The destination block index the tiling assigns to linear block `i`.
pub open spec fn spec_x360_dest(i: int, wb: int, p: int) -> int {
    (spec_xg_y(i as u64, wb as u64, p as u64) as int) * wb + (spec_xg_x(
        i as u64,
        wb as u64,
        p as u64,
    ) as int)
}

/// The destinations of the first `i` blocks.
pub open spec fn spec_x360_entries(wb: int, p: int, i: int) -> Seq<usize>
    decreases i,
{
    if i <= 0 {
        Seq::empty()
    } else {
        spec_x360_entries(wb, p, i - 1) + seq![spec_x360_dest(i - 1, wb, p) as usize]
    }
}

/// The tiled traversal order of a `wb` by `hb` block grid.
pub open spec fn spec_x360_order(wb: int, hb: int, p: int) -> Seq<usize> {
    spec_x360_entries(wb, p, wb * hb)
}

/// Whether the tiling pass alone succeeds on a `wb` by `hb` block grid.
pub open spec fn spec_x360_tile_ok(wb: int, hb: int, p: int, len: int) -> bool {
    &&& 1 <= p <= 16
    &&& wb * hb <= 0xFFFFFFFF
    &&& wb * hb * p <= len
    &&& spec_valid_order(spec_x360_order(wb, hb, p), wb * hb)
}

/// Run the tiling pass: gather blocks along the tiled order when
/// `swizzle_flag` is set, scatter them back when it is not.
pub fn convert_x360_image_data(
    image_data: &[u8],
    image_width: u32,
    image_height: u32,
    block_pixel_size: u32,
    texel_byte_pitch: u32,
    swizzle_flag: bool,
) -> (r: Result<Vec<u8>, TexError>)
    ensures
        ({
            let wb = (image_width as int) / (if block_pixel_size == 0 {
                1
            } else {
                block_pixel_size as int
            });
            let hb = (image_height as int) / (if block_pixel_size == 0 {
                1
            } else {
                block_pixel_size as int
            });
            let p = texel_byte_pitch as int;
            let n = wb * hb;
            match r {
                Ok(v) => block_pixel_size >= 1 && spec_x360_tile_ok(
                    wb,
                    hb,
                    p,
                    image_data@.len() as int,
                ) && v@ == (if swizzle_flag {
                    spec_gather(image_data@, spec_x360_order(wb, hb, p), p)
                } else {
                    spec_scatter(image_data@, spec_x360_order(wb, hb, p), n, p)
                }),
                Err(e) => (block_pixel_size == 0 || !spec_x360_tile_ok(
                    wb,
                    hb,
                    p,
                    image_data@.len() as int,
                )) && e == TexError::UnsupportedOperation,
            }
        }),
{
    if block_pixel_size == 0 || texel_byte_pitch == 0 || texel_byte_pitch > 16 {
        return Err(TexError::UnsupportedOperation);
    }
    let wb: u32 = image_width / block_pixel_size;
    let hb: u32 = image_height / block_pixel_size;
    let p: usize = texel_byte_pitch as usize;
    proof {
        assert((wb as int) * (hb as int) <= 0xFFFFFFFFu64 * 0xFFFFFFFFu64 && (wb as int) * (
        hb as int) >= 0) by (nonlinear_arith)
            requires
                0 <= (wb as int) <= 0xFFFFFFFFu32,
                0 <= (hb as int) <= 0xFFFFFFFFu32,
        ;
    }
    let n64: u64 = (wb as u64) * (hb as u64);
    if n64 > 0xFFFFFFFF {
        return Err(TexError::UnsupportedOperation);
    }
    let n: usize = n64 as usize;
    proof {
        assert((n64 as int) * (p as int) <= 0xFFFFFFFFu128 * 16u128 && (n64 as int) * (p as int)
            >= 0) by (nonlinear_arith)
            requires
                0 <= (n64 as int) <= 0xFFFFFFFFu64,
                0 <= (p as int) <= 16,
        ;
    }
    let nbytes: u128 = (n64 as u128) * (p as u128);
    if nbytes > image_data.len() as u128 {
        return Err(TexError::UnsupportedOperation);
    }
    let mut order: Vec<usize> = Vec::new();
    let mut i: u64 = 0;
    while i < n64
        invariant
            i <= n64,
            n64 <= 0xFFFFFFFFu64,
            1 <= (texel_byte_pitch as int) <= 16,
            p == texel_byte_pitch as usize,
            n64 == (wb as int) * (hb as int),
            order@ == spec_x360_entries(wb as int, p as int, i as int),
        decreases n64 - i,
    {
        proof {
            assert(wb >= 1) by (nonlinear_arith)
                requires
                    i < n64,
                    n64 == (wb as int) * (hb as int),
                    wb >= 0,
                    hb >= 0,
            ;
        }
        let x = xg_address_2d_tiled_x(i, wb as u64, texel_byte_pitch as u64);
        let y = xg_address_2d_tiled_y(i, wb as u64, texel_byte_pitch as u64);
        proof {
            assert((y as u128) * (wb as u128) + (x as u128) <= 0xFFFFFFFFFFFFFFFFu128
                * 0xFFFFFFFFu128 + 0xFFFFFFFFFFFFFFFFu128) by (nonlinear_arith)
                requires
                    0 <= (y as int) <= 0xFFFFFFFFFFFFFFFFu64,
                    0 <= (x as int) <= 0xFFFFFFFFFFFFFFFFu64,
                    0 <= (wb as int) <= 0xFFFFFFFFu32,
            ;
        }
        let dest: u128 = (y as u128) * (wb as u128) + (x as u128);
        order.push(#[verifier::truncate] (dest as usize));
        proof {
            assert(order@ == spec_x360_entries(wb as int, p as int, i as int + 1));
        }
        i = i + 1;
    }
    if !check_permutation(&order, n) {
        return Err(TexError::UnsupportedOperation);
    }
    if swizzle_flag {
        Ok(apply_gather(image_data, &order, p))
    } else {
        let inv = invert_order(&order, n);
        proof {
            lemma_invert_props(order@, n as int);
        }
        Ok(apply_gather(image_data, &inv, p))
    }
}

/// Whether an Xbox 360 (de)swizzle succeeds: an even buffer for the 16-bit
/// byte swap, and a tiling pass that permutes the whole block grid.
pub open spec fn spec_x360_ok(f: PixelFormat, w: u32, h: u32, len: int) -> bool {
    let p = spec_bytes_per_block(f);
    let bw = spec_block_width(f);
    let wb = (w as int) / bw;
    let hb = (h as int) / bw;
    &&& len % 2 == 0
    &&& spec_x360_tile_ok(wb, hb, p, len)
}

/// The swizzled buffer: blocks tiled first, then every 16-bit word's bytes
/// exchanged.
pub open spec fn spec_x360_swizzled(f: PixelFormat, w: u32, h: u32, data: Seq<u8>) -> Seq<u8> {
    let p = spec_bytes_per_block(f);
    let bw = spec_block_width(f);
    let wb = (w as int) / bw;
    let hb = (h as int) / bw;
    spec_swap16(spec_gather(data, spec_x360_order(wb, hb, p), p))
}

/// The deswizzled buffer: bytes of every 16-bit word exchanged first, then
/// the blocks untiled.
pub open spec fn spec_x360_deswizzled(f: PixelFormat, w: u32, h: u32, data: Seq<u8>) -> Seq<u8> {
    let p = spec_bytes_per_block(f);
    let bw = spec_block_width(f);
    let wb = (w as int) / bw;
    let hb = (h as int) / bw;
    spec_scatter(spec_swap16(data), spec_x360_order(wb, hb, p), wb * hb, p)
}

/// Deswizzling a swizzled buffer restores it bit for bit, and conversely.
/// The asymmetric order of the two passes is what makes this hold: deswizzle
/// byte-swaps before untiling, swizzle tiles before byte-swapping.
pub proof fn lemma_x360_round_trip(f: PixelFormat, w: u32, h: u32, data: Seq<u8>)
    requires
        spec_x360_ok(f, w, h, data.len() as int),
    ensures
        spec_x360_deswizzled(f, w, h, spec_x360_swizzled(f, w, h, data)) == data,
        spec_x360_swizzled(f, w, h, spec_x360_deswizzled(f, w, h, data)) == data,
{
    let p = spec_bytes_per_block(f);
    let bw = spec_block_width(f);
    let wb = (w as int) / bw;
    let hb = (h as int) / bw;
    let n = wb * hb;
    let order = spec_x360_order(wb, hb, p);
    let inv = spec_invert(order, n);
    lemma_invert_props(order, n);
    let g = spec_gather(data, order, p);
    assert(g.len() == data.len());
    lemma_swap16_involutive(g);
    lemma_gather_gather(data, order, inv, p, n);
    let sw = spec_swap16(data);
    assert(sw.len() == data.len());
    lemma_gather_gather(sw, inv, order, p, n);
    lemma_swap16_involutive(data);
}

/// Deswizzle: byte-swap the whole buffer, then untile the block grid.
pub fn unswizzle_x360(
    image_data: &[u8],
    img_width: u32,
    img_height: u32,
    block_pixel_size: u32,
    texel_byte_pitch: u32,
) -> (r: Result<Vec<u8>, TexError>)
    ensures
        ({
            let wb = (img_width as int) / (if block_pixel_size == 0 {
                1
            } else {
                block_pixel_size as int
            });
            let hb = (img_height as int) / (if block_pixel_size == 0 {
                1
            } else {
                block_pixel_size as int
            });
            let p = texel_byte_pitch as int;
            match r {
                Ok(v) => block_pixel_size >= 1 && image_data@.len() % 2 == 0 && spec_x360_tile_ok(
                    wb,
                    hb,
                    p,
                    image_data@.len() as int,
                ) && v@ == spec_scatter(
                    spec_swap16(image_data@),
                    spec_x360_order(wb, hb, p),
                    wb * hb,
                    p,
                ),
                Err(e) => (block_pixel_size == 0 || image_data@.len() % 2 != 0
                    || !spec_x360_tile_ok(wb, hb, p, image_data@.len() as int)) && e
                    == TexError::UnsupportedOperation,
            }
        }),
{
    if image_data.len() % 2 != 0 {
        return Err(TexError::UnsupportedOperation);
    }
    let swapped = swap_byte_order(image_data);
    convert_x360_image_data(
        swapped.as_slice(),
        img_width,
        img_height,
        block_pixel_size,
        texel_byte_pitch,
        false,
    )
}

/// Swizzle: tile the block grid, then byte-swap the whole buffer.
pub fn swizzle_x360(
    image_data: &[u8],
    img_width: u32,
    img_height: u32,
    block_pixel_size: u32,
    texel_byte_pitch: u32,
) -> (r: Result<Vec<u8>, TexError>)
    ensures
        ({
            let wb = (img_width as int) / (if block_pixel_size == 0 {
                1
            } else {
                block_pixel_size as int
            });
            let hb = (img_height as int) / (if block_pixel_size == 0 {
                1
            } else {
                block_pixel_size as int
            });
            let p = texel_byte_pitch as int;
            match r {
                Ok(v) => block_pixel_size >= 1 && image_data@.len() % 2 == 0 && spec_x360_tile_ok(
                    wb,
                    hb,
                    p,
                    image_data@.len() as int,
                ) && v@ == spec_swap16(
                    spec_gather(image_data@, spec_x360_order(wb, hb, p), p),
                ),
                Err(e) => (block_pixel_size == 0 || image_data@.len() % 2 != 0
                    || !spec_x360_tile_ok(wb, hb, p, image_data@.len() as int)) && e
                    == TexError::UnsupportedOperation,
            }
        }),
{
    if image_data.len() % 2 != 0 {
        return Err(TexError::UnsupportedOperation);
    }
    let tiled = convert_x360_image_data(
        image_data,
        img_width,
        img_height,
        block_pixel_size,
        texel_byte_pitch,
        true,
    )?;
    Ok(swap_byte_order(tiled.as_slice()))
}

/// Swizzler composing a 16-bit byte swap with the macro/micro 2D block
/// tiling, in the asymmetric order the round trip needs.
pub struct Xbox360Swizzler;

impl Swizzable for Xbox360Swizzler {
    fn swizzle(&self, pixels: &[u8], width: u32, height: u32, pixel_format: PixelFormat) -> (r:
        Result<Vec<u8>, TexError>)
        ensures
            match r {
                Ok(v) => spec_x360_ok(pixel_format, width, height, pixels@.len() as int) && v@
                    == spec_x360_swizzled(pixel_format, width, height, pixels@),
                Err(e) => !spec_x360_ok(pixel_format, width, height, pixels@.len() as int) && e
                    == TexError::UnsupportedOperation,
            },
    {
        swizzle_x360(
            pixels,
            width,
            height,
            pixel_format.get_block_width(),
            pixel_format.get_bytes_per_block(),
        )
    }

    fn deswizzle(&self, pixels: &[u8], width: u32, height: u32, pixel_format: PixelFormat) -> (r:
        Result<Vec<u8>, TexError>)
        ensures
            match r {
                Ok(v) => spec_x360_ok(pixel_format, width, height, pixels@.len() as int) && v@
                    == spec_x360_deswizzled(pixel_format, width, height, pixels@),
                Err(e) => !spec_x360_ok(pixel_format, width, height, pixels@.len() as int) && e
                    == TexError::UnsupportedOperation,
            },
    {
        unswizzle_x360(
            pixels,
            width,
            height,
            pixel_format.get_block_width(),
            pixel_format.get_bytes_per_block(),
        )
    }

    fn get_platform(&self) -> (r: Platform)
        ensures
            r == Platform::Xbox360,
    {
        Platform::Xbox360
    }
}

} // verus!
