use vstd::prelude::*;

use crate::error::TexError;
use crate::graphics::pixel_format::{
    spec_block_height, spec_block_width, spec_bytes_per_block, PixelFormat,
};
use crate::graphics::swizzling::{
    apply_gather, check_permutation, invert_order, lemma_gather_gather, lemma_invert_props,
    spec_gather, spec_invert, spec_scatter, spec_valid_order, Platform, Swizzable,
};

verus! {

/// The (x, y) accumulator pair of the bit-interleaving loop: while either
/// dimension has bits left, one bit of `t` goes to x (while width remains)
/// and one to y (while height remains).
pub open spec fn spec_morton_xy(
    t: int,
    w: int,
    h: int,
    num1: int,
    num2: int,
    num3: int,
    num4: int,
) -> (int, int)
    decreases (if w < 1 {
        1int
    } else {
        w
    }) + (if h < 1 {
        1int
    } else {
        h
    }),
{
    if w <= 1 && h <= 1 {
        (num3, num4)
    } else {
        let t1 = if w > 1 {
            t / 2
        } else {
            t
        };
        let num2a = if w > 1 {
            num2 * 2
        } else {
            num2
        };
        let num3a = if w > 1 {
            num3 + num2 * (t % 2)
        } else {
            num3
        };
        let wa = if w > 1 {
            w / 2
        } else {
            w
        };
        let t2 = if h > 1 {
            t1 / 2
        } else {
            t1
        };
        let num1a = if h > 1 {
            num1 * 2
        } else {
            num1
        };
        let num4a = if h > 1 {
            num4 + num1 * (t1 % 2)
        } else {
            num4
        };
        let ha = if h > 1 {
            h / 2
        } else {
            h
        };
        spec_morton_xy(t2, wa, ha, num1a, num2a, num3a, num4a)
    }
}

/// The Morton (bit-interleaved) index of linear counter `t` within a
/// `w` by `h` tile: `y * w + x`.
pub open spec fn spec_morton_index(t: int, w: int, h: int) -> int {
    let xy = spec_morton_xy(t, w, h, 1, 1, 0, 0);
    xy.1 * w + xy.0
}

/// Auxiliary bounds of the interleaving loop: the accumulated coordinates
/// stay below their dimension products.
proof fn lemma_morton_xy_bounds(t: int, w: int, h: int, num1: int, num2: int, num3: int, num4: int)
    requires
        w >= 1,
        h >= 1,
        num1 >= 1,
        num2 >= 1,
        0 <= num3 < num2,
        0 <= num4 < num1,
    ensures
        ({
            let xy = spec_morton_xy(t, w, h, num1, num2, num3, num4);
            0 <= xy.0 < num2 * w && 0 <= xy.1 < num1 * h
        }),
    decreases w + h,
{
    if w <= 1 && h <= 1 {
        assert(num2 * w == num2) by (nonlinear_arith)
            requires
                w == 1,
        ;
        assert(num1 * h == num1) by (nonlinear_arith)
            requires
                h == 1,
        ;
    } else {
        let t1 = if w > 1 {
            t / 2
        } else {
            t
        };
        let num2a = if w > 1 {
            num2 * 2
        } else {
            num2
        };
        let num3a = if w > 1 {
            num3 + num2 * (t % 2)
        } else {
            num3
        };
        let wa = if w > 1 {
            w / 2
        } else {
            w
        };
        let t2 = if h > 1 {
            t1 / 2
        } else {
            t1
        };
        let num1a = if h > 1 {
            num1 * 2
        } else {
            num1
        };
        let num4a = if h > 1 {
            num4 + num1 * (t1 % 2)
        } else {
            num4
        };
        let ha = if h > 1 {
            h / 2
        } else {
            h
        };
        assert(0 <= num3a < num2a && num2a >= 1 && wa >= 1) by (nonlinear_arith)
            requires
                w >= 1,
                num2 >= 1,
                0 <= num3 < num2,
                num3a == (if w > 1 {
                    num3 + num2 * (t % 2)
                } else {
                    num3
                }),
                num2a == (if w > 1 {
                    num2 * 2
                } else {
                    num2
                }),
                wa == (if w > 1 {
                    w / 2
                } else {
                    w
                }),
        ;
        assert(0 <= num4a < num1a && num1a >= 1 && ha >= 1) by (nonlinear_arith)
            requires
                h >= 1,
                num1 >= 1,
                0 <= num4 < num1,
                num4a == (if h > 1 {
                    num4 + num1 * (t1 % 2)
                } else {
                    num4
                }),
                num1a == (if h > 1 {
                    num1 * 2
                } else {
                    num1
                }),
                ha == (if h > 1 {
                    h / 2
                } else {
                    h
                }),
        ;
        lemma_morton_xy_bounds(t2, wa, ha, num1a, num2a, num3a, num4a);
        assert(num2a * wa <= num2 * w) by (nonlinear_arith)
            requires
                num2 >= 1,
                w >= 1,
                num2a == (if w > 1 {
                    num2 * 2
                } else {
                    num2
                }),
                wa == (if w > 1 {
                    w / 2
                } else {
                    w
                }),
                2 * (w / 2) <= w,
        ;
        assert(num1a * ha <= num1 * h) by (nonlinear_arith)
            requires
                num1 >= 1,
                h >= 1,
                num1a == (if h > 1 {
                    num1 * 2
                } else {
                    num1
                }),
                ha == (if h > 1 {
                    h / 2
                } else {
                    h
                }),
                2 * (h / 2) <= h,
        ;
    }
}

/// The Morton index of `t` within a `w` by `h` tile, as the swizzle loops
/// consume it.
pub fn calculate_morton_index_ps4(t: u32, input_img_width: u32, input_img_height: u32) -> (r: u64)
    requires
        input_img_width >= 1,
        input_img_height >= 1,
    ensures
        r == spec_morton_index(t as int, input_img_width as int, input_img_height as int),
        r < (input_img_width as int) * (input_img_height as int),
{
    let ghost w0 = input_img_width as int;
    let ghost h0 = input_img_height as int;
    let mut num1: u64 = 1;
    let mut num2: u64 = 1;
    let mut num3: u64 = 0;
    let mut num4: u64 = 0;
    let mut img_width: u32 = input_img_width;
    let mut img_height: u32 = input_img_height;
    let mut t: u32 = t;
    let ghost t0 = t as int;
    while img_width > 1 || img_height > 1
        invariant
            img_width >= 1,
            img_height >= 1,
            num1 >= 1,
            num2 >= 1,
            num3 < num2,
            num4 < num1,
            (num2 as int) * (img_width as int) <= w0,
            (num1 as int) * (img_height as int) <= h0,
            1 <= w0 <= 0xFFFFFFFF,
            1 <= h0 <= 0xFFFFFFFF,
            spec_morton_xy(
                t as int,
                img_width as int,
                img_height as int,
                num1 as int,
                num2 as int,
                num3 as int,
                num4 as int,
            ) == spec_morton_xy(t0, w0, h0, 1, 1, 0, 0),
        decreases img_width + img_height,
    {
        let ghost pre_t = t as int;
        let ghost pre_w = img_width as int;
        let ghost pre_h = img_height as int;
        let ghost pre1 = num1 as int;
        let ghost pre2 = num2 as int;
        let ghost pre3 = num3 as int;
        let ghost pre4 = num4 as int;
        proof {
            assert(num2 <= w0 && num1 <= h0) by (nonlinear_arith)
                requires
                    (num2 as int) * (img_width as int) <= w0,
                    (num1 as int) * (img_height as int) <= h0,
                    img_width >= 1,
                    img_height >= 1,
                    num1 >= 1,
                    num2 >= 1,
            ;
        }
        if img_width > 1 {
            proof {
                assert((t & 1) as int == (t as int) % 2 && (t >> 1) as int == (t as int) / 2 && (t
                    & 1) <= 1) by (bit_vector);
                assert(num2 * ((t & 1) as u64) <= num2) by (nonlinear_arith)
                    requires
                        ((t & 1) as u64) <= 1,
                        num2 >= 0,
                ;
            }
            num3 = num3 + num2 * ((t & 1) as u64);
            t = t >> 1;
            num2 = num2 * 2;
            proof {
                assert((num2 as int) * ((img_width / 2) as int) <= pre2 * pre_w) by (
                nonlinear_arith)
                    requires
                        num2 == 2 * pre2,
                        pre2 >= 1,
                        2 * ((img_width / 2) as int) <= pre_w,
                        (img_width / 2) as int == pre_w / 2,
                ;
            }
            img_width = img_width / 2;
        }
        if img_height > 1 {
            proof {
                assert((t & 1) as int == (t as int) % 2 && (t >> 1) as int == (t as int) / 2 && (t
                    & 1) <= 1) by (bit_vector);
                assert(num1 * ((t & 1) as u64) <= num1) by (nonlinear_arith)
                    requires
                        ((t & 1) as u64) <= 1,
                        num1 >= 0,
                ;
            }
            num4 = num4 + num1 * ((t & 1) as u64);
            t = t >> 1;
            num1 = num1 * 2;
            proof {
                assert((num1 as int) * ((img_height / 2) as int) <= pre1 * pre_h) by (
                nonlinear_arith)
                    requires
                        num1 == 2 * pre1,
                        pre1 >= 1,
                        2 * ((img_height / 2) as int) <= pre_h,
                        (img_height / 2) as int == pre_h / 2,
                ;
            }
            img_height = img_height / 2;
        }
        proof {
            assert(spec_morton_xy(pre_t, pre_w, pre_h, pre1, pre2, pre3, pre4) == spec_morton_xy(
                t as int,
                img_width as int,
                img_height as int,
                num1 as int,
                num2 as int,
                num3 as int,
                num4 as int,
            ));
        }
    }
    proof {
        assert(num2 <= w0 && num1 <= h0) by (nonlinear_arith)
            requires
                (num2 as int) * (img_width as int) <= w0,
                (num1 as int) * (img_height as int) <= h0,
                img_width == 1,
                img_height == 1,
        ;
        assert((num4 as int) * w0 + (num3 as int) < w0 * h0) by (nonlinear_arith)
            requires
                num3 < num2,
                num4 < num1,
                num2 <= w0,
                num1 <= h0,
                w0 >= 1,
                h0 >= 1,
        ;
        assert(w0 * h0 <= 0xFFFFFFFFFFFFFFFF) by (nonlinear_arith)
            requires
                1 <= w0 <= 0xFFFFFFFF,
                1 <= h0 <= 0xFFFFFFFF,
        ;
    }
    num4 * (input_img_width as u64) + num3
}

/// The positions appended while walking tile (`xt`, `yt`) of a `wb` by `hb`
/// block grid for tile-local counters below `t`: each in-bounds Morton target
/// contributes its linear block index.
pub open spec fn spec_ps4_tile(wb: int, hb: int, xt: int, yt: int, t: int) -> Seq<usize>
    decreases t,
{
    if t <= 0 {
        Seq::empty()
    } else {
        let prev = spec_ps4_tile(wb, hb, xt, yt, t - 1);
        let m = spec_morton_index(t - 1, 8, 8);
        let dx = m % 8;
        let dy = m / 8;
        if xt * 8 + dx < wb && yt * 8 + dy < hb {
            prev + seq![((yt * 8 + dy) * wb + (xt * 8 + dx)) as usize]
        } else {
            prev
        }
    }
}

/// The positions of all tiles left of `x` in tile row `yt`, in raster order.
pub open spec fn spec_ps4_row(wb: int, hb: int, yt: int, x: int) -> Seq<usize>
    decreases x,
{
    if x <= 0 {
        Seq::empty()
    } else {
        spec_ps4_row(wb, hb, yt, x - 1) + spec_ps4_tile(wb, hb, x - 1, yt, 64)
    }
}

/// The positions of all tile rows above `y`, in raster order.
pub open spec fn spec_ps4_rows(wb: int, hb: int, y: int) -> Seq<usize>
    decreases y,
{
    if y <= 0 {
        Seq::empty()
    } else {
        spec_ps4_rows(wb, hb, y - 1) + spec_ps4_row(wb, hb, y - 1, (wb + 7) / 8)
    }
}

/// The PS4 block traversal order over a `wb` by `hb` block grid: 8 by 8
/// tiles in raster order, Morton order inside each tile, skipping targets
/// beyond the grid.
pub open spec fn spec_ps4_order(wb: int, hb: int) -> Seq<usize> {
    spec_ps4_rows(wb, hb, (hb + 7) / 8)
}

/// Build the PS4 traversal order.
fn build_ps4_order(wb: u32, hb: u32) -> (order: Vec<usize>)
    ensures
        order@ == spec_ps4_order(wb as int, hb as int),
{
    let tiles_x: u64 = ((wb as u64) + 7) / 8;
    let tiles_y: u64 = ((hb as u64) + 7) / 8;
    let mut order: Vec<usize> = Vec::new();
    let mut y: u64 = 0;
    while y < tiles_y
        invariant
            y <= tiles_y,
            tiles_x == (wb as int + 7) / 8,
            tiles_y == (hb as int + 7) / 8,
            order@ == spec_ps4_rows(wb as int, hb as int, y as int),
        decreases tiles_y - y,
    {
        let mut x: u64 = 0;
        while x < tiles_x
            invariant
                x <= tiles_x,
                y < tiles_y,
                tiles_x == (wb as int + 7) / 8,
                tiles_y == (hb as int + 7) / 8,
                order@ == spec_ps4_rows(wb as int, hb as int, y as int) + spec_ps4_row(
                    wb as int,
                    hb as int,
                    y as int,
                    x as int,
                ),
            decreases tiles_x - x,
        {
            let mut t: u32 = 0;
            while t < 64
                invariant
                    t <= 64,
                    x < tiles_x,
                    y < tiles_y,
                    tiles_x == (wb as int + 7) / 8,
                    tiles_y == (hb as int + 7) / 8,
                    order@ == spec_ps4_rows(wb as int, hb as int, y as int) + spec_ps4_row(
                        wb as int,
                        hb as int,
                        y as int,
                        x as int,
                    ) + spec_ps4_tile(wb as int, hb as int, x as int, y as int, t as int),
                decreases 64 - t,
            {
                let m: u64 = calculate_morton_index_ps4(t, 8, 8);
                let data_x: u64 = m % 8;
                let data_y: u64 = m / 8;
                let gx: u64 = x * 8 + data_x;
                let gy: u64 = y * 8 + data_y;
                if gx < wb as u64 && gy < hb as u64 {
                    proof {
                        assert((gy as int) * (wb as int) + (gx as int) < (hb as int) * (wb as int)
                            && (hb as int) * (wb as int) <= 0xFFFFFFFFu64 * 0xFFFFFFFFu64) by (
                        nonlinear_arith)
                            requires
                                (gy as int) < (hb as int),
                                (gx as int) < (wb as int),
                                hb <= 0xFFFFFFFFu32,
                                wb <= 0xFFFFFFFFu32,
                                gy >= 0,
                                gx >= 0,
                        ;
                    }
                    let pos: u64 = gy * (wb as u64) + gx;
                    order.push(#[verifier::truncate] (pos as usize));
                }
                proof {
                    assert(order@ == spec_ps4_rows(wb as int, hb as int, y as int) + spec_ps4_row(
                        wb as int,
                        hb as int,
                        y as int,
                        x as int,
                    ) + spec_ps4_tile(wb as int, hb as int, x as int, y as int, t as int + 1));
                }
                t = t + 1;
            }
            proof {
                assert(spec_ps4_row(wb as int, hb as int, y as int, x as int + 1) == spec_ps4_row(
                    wb as int,
                    hb as int,
                    y as int,
                    x as int,
                ) + spec_ps4_tile(wb as int, hb as int, x as int, y as int, 64));
                assert(order@ == spec_ps4_rows(wb as int, hb as int, y as int) + spec_ps4_row(
                    wb as int,
                    hb as int,
                    y as int,
                    x as int + 1,
                ));
            }
            x = x + 1;
        }
        proof {
            assert(spec_ps4_rows(wb as int, hb as int, y as int + 1) == spec_ps4_rows(
                wb as int,
                hb as int,
                y as int,
            ) + spec_ps4_row(wb as int, hb as int, y as int, (wb as int + 7) / 8));
            assert(order@ == spec_ps4_rows(wb as int, hb as int, y as int + 1));
        }
        y = y + 1;
    }
    order
}

/// Whether a PS4 (de)swizzle succeeds: the format has a block size, the
/// traversal covers the block grid as a permutation, the grid fits the
/// address space, and the buffer holds the whole grid.
pub open spec fn spec_ps4_ok(f: PixelFormat, w: u32, h: u32, len: int) -> bool {
    let bs = spec_bytes_per_block(f);
    let wb = (w as int) / spec_block_width(f);
    let hb = (h as int) / spec_block_height(f);
    &&& bs >= 1
    &&& wb * hb <= usize::MAX
    &&& wb * hb * bs <= len
    &&& spec_valid_order(spec_ps4_order(wb, hb), wb * hb)
}

/// The swizzled buffer: block `k` of the result is block `order[k]` of the
/// source, bytes past the block grid kept.
pub open spec fn spec_ps4_swizzled(f: PixelFormat, w: u32, h: u32, data: Seq<u8>) -> Seq<u8> {
    let bs = spec_bytes_per_block(f);
    let wb = (w as int) / spec_block_width(f);
    let hb = (h as int) / spec_block_height(f);
    spec_gather(data, spec_ps4_order(wb, hb), bs)
}

/// The deswizzled buffer: block `order[k]` of the result is block `k` of the
/// source, bytes past the block grid kept.
pub open spec fn spec_ps4_deswizzled(f: PixelFormat, w: u32, h: u32, data: Seq<u8>) -> Seq<u8> {
    let bs = spec_bytes_per_block(f);
    let wb = (w as int) / spec_block_width(f);
    let hb = (h as int) / spec_block_height(f);
    spec_scatter(data, spec_ps4_order(wb, hb), wb * hb, bs)
}

/// Deswizzling a swizzled buffer restores it bit for bit, and conversely.
pub proof fn lemma_ps4_round_trip(f: PixelFormat, w: u32, h: u32, data: Seq<u8>)
    requires
        spec_ps4_ok(f, w, h, data.len() as int),
    ensures
        spec_ps4_deswizzled(f, w, h, spec_ps4_swizzled(f, w, h, data)) == data,
        spec_ps4_swizzled(f, w, h, spec_ps4_deswizzled(f, w, h, data)) == data,
{
    let bs = spec_bytes_per_block(f);
    let wb = (w as int) / spec_block_width(f);
    let hb = (h as int) / spec_block_height(f);
    let order = spec_ps4_order(wb, hb);
    let n = wb * hb;
    let inv = spec_invert(order, n);
    lemma_invert_props(order, n);
    assert(n * bs <= data.len());
    lemma_gather_gather(data, order, inv, bs, n);
    lemma_gather_gather(data, inv, order, bs, n);
}

/// Swizzler walking 8x8 tiles of the block grid in raster order, Morton
/// order inside each tile.
pub struct PS4Swizzler;

impl PS4Swizzler {
    fn prepare(
        pixels: &[u8],
        width: u32,
        height: u32,
        pixel_format: PixelFormat,
    ) -> (r: Result<(Vec<usize>, usize), TexError>)
        ensures
            match r {
                Ok((order, bs)) => {
                    &&& spec_ps4_ok(pixel_format, width, height, pixels@.len() as int)
                    &&& order@ == spec_ps4_order(
                        (width as int) / spec_block_width(pixel_format),
                        (height as int) / spec_block_height(pixel_format),
                    )
                    &&& bs == spec_bytes_per_block(pixel_format)
                    &&& spec_valid_order(order@, order@.len() as int)
                    &&& order@.len() * bs <= pixels@.len()
                },
                Err(e) => !spec_ps4_ok(pixel_format, width, height, pixels@.len() as int) && e
                    == TexError::UnsupportedOperation,
            },
    {
        let bs32 = pixel_format.get_bytes_per_block();
        if bs32 < 1 {
            return Err(TexError::UnsupportedOperation);
        }
        let bs: usize = bs32 as usize;
        let wb: u32 = width / pixel_format.get_block_width();
        let hb: u32 = height / pixel_format.get_block_height();
        proof {
            assert((wb as int) * (hb as int) <= 0xFFFFFFFFu64 * 0xFFFFFFFFu64 && (wb as int) * (
            hb as int) >= 0) by (nonlinear_arith)
                requires
                    0 <= (wb as int) <= 0xFFFFFFFFu32,
                    0 <= (hb as int) <= 0xFFFFFFFFu32,
            ;
        }
        let n64: u64 = (wb as u64) * (hb as u64);
        if n64 > usize::MAX as u64 {
            return Err(TexError::UnsupportedOperation);
        }
        let n: usize = n64 as usize;
        proof {
            assert((n64 as int) * (bs as int) <= 0xFFFFFFFFFFFFFFFFu128 * 0xFFFFFFFFu128 && (
            n64 as int) * (bs as int) >= 0) by (nonlinear_arith)
                requires
                    0 <= (n64 as int) <= 0xFFFFFFFFFFFFFFFFu64,
                    0 <= (bs as int) <= 0xFFFFFFFFusize,
            ;
        }
        let nbytes: u128 = (n64 as u128) * (bs as u128);
        if nbytes > pixels.len() as u128 {
            return Err(TexError::UnsupportedOperation);
        }
        let order = build_ps4_order(wb, hb);
        if !check_permutation(&order, n) {
            return Err(TexError::UnsupportedOperation);
        }
        Ok((order, bs))
    }
}

impl Swizzable for PS4Swizzler {
    fn swizzle(&self, pixels: &[u8], width: u32, height: u32, pixel_format: PixelFormat) -> (r:
        Result<Vec<u8>, TexError>)
        ensures
            match r {
                Ok(v) => spec_ps4_ok(pixel_format, width, height, pixels@.len() as int) && v@
                    == spec_ps4_swizzled(pixel_format, width, height, pixels@),
                Err(e) => !spec_ps4_ok(pixel_format, width, height, pixels@.len() as int) && e
                    == TexError::UnsupportedOperation,
            },
    {
        let (order, bs) = Self::prepare(pixels, width, height, pixel_format)?;
        Ok(apply_gather(pixels, &order, bs))
    }

    fn deswizzle(&self, pixels: &[u8], width: u32, height: u32, pixel_format: PixelFormat) -> (r:
        Result<Vec<u8>, TexError>)
        ensures
            match r {
                Ok(v) => spec_ps4_ok(pixel_format, width, height, pixels@.len() as int) && v@
                    == spec_ps4_deswizzled(pixel_format, width, height, pixels@),
                Err(e) => !spec_ps4_ok(pixel_format, width, height, pixels@.len() as int) && e
                    == TexError::UnsupportedOperation,
            },
    {
        let (order, bs) = Self::prepare(pixels, width, height, pixel_format)?;
        let n = order.len();
        let inv = invert_order(&order, n);
        proof {
            lemma_invert_props(order@, n as int);
        }
        Ok(apply_gather(pixels, &inv, bs))
    }

    fn get_platform(&self) -> (r: Platform)
        ensures
            r == Platform::PS4,
    {
        Platform::PS4
    }
}

} // verus!
