use vstd::prelude::*;

use crate::error::TexError;
use crate::graphics::pixel_format::{spec_bytes_per_block, PixelFormat};
use crate::graphics::swizzling::{
    apply_gather, check_permutation, invert_order, lemma_gather_gather, lemma_invert_props,
    spec_gather, spec_invert, spec_scatter, spec_valid_order, Platform, Swizzable,
};

verus! {

/// Floor of the base-two logarithm, 0 below 2.
pub open spec fn spec_log2(x: int) -> int
    decreases x,
{
    if x < 2 {
        0
    } else {
        1 + spec_log2(x / 2)
    }
}

/// The logarithm is never negative.
proof fn lemma_log2_nonneg(x: int)
    ensures
        spec_log2(x) >= 0,
    decreases x,
{
    if x >= 2 {
        lemma_log2_nonneg(x / 2);
    }
}

/// `x < 2^k` bounds the logarithm below `k`.
proof fn lemma_log2_bound(x: int, k: nat)
    requires
        1 <= x < vstd::arithmetic::power2::pow2(k),
    ensures
        spec_log2(x) < k,
    decreases x,
{
    if x >= 2 {
        assert(k >= 1) by {
            vstd::arithmetic::power2::lemma2_to64();
        }
        vstd::arithmetic::power2::lemma_pow2_unfold(k);
        let p = vstd::arithmetic::power2::pow2((k - 1) as nat) as int;
        assert(x / 2 < p) by (nonlinear_arith)
            requires
                x < 2 * p,
                p >= 1,
                x >= 2,
        ;
        lemma_log2_bound(x / 2, (k - 1) as nat);
    } else {
        assert(k >= 1) by {
            vstd::arithmetic::power2::lemma2_to64();
        }
    }
}

/// Floor of the base-two logarithm of `x`.
fn log2_floor(x: u32) -> (r: u32)
    ensures
        r == spec_log2(x as int),
        r <= 31,
{
    proof {
        vstd::arithmetic::power2::lemma2_to64();
        if x >= 1 {
            lemma_log2_bound(x as int, 32);
        }
    }
    let mut v: u32 = x;
    let mut r: u32 = 0;
    while v >= 2
        invariant
            spec_log2(x as int) == r + spec_log2(v as int),
            spec_log2(x as int) <= 31,
            r <= 31,
        decreases v,
    {
        proof {
            lemma_log2_nonneg((v as int) / 2);
        }
        v = v / 2;
        r = r + 1;
    }
    r
}

/// The (u, v) coordinates the Vita de-interleaving loop assigns to linear
/// index `coord`: for each bit position `k` below `kmax`, one bit goes to v
/// (while `k < max_v`) and then one to u (while `k < max_u`).
pub open spec fn spec_vita_uv(
    coord: int,
    k: int,
    kmax: int,
    max_u: int,
    max_v: int,
    u: int,
    v: int,
    pu: int,
    pv: int,
) -> (int, int)
    decreases kmax - k,
{
    if k >= kmax {
        (u, v)
    } else {
        let v1 = if k < max_v {
            v + (coord % 2) * pv
        } else {
            v
        };
        let pv1 = if k < max_v {
            pv * 2
        } else {
            pv
        };
        let c1 = if k < max_v {
            coord / 2
        } else {
            coord
        };
        let u1 = if k < max_u {
            u + (c1 % 2) * pu
        } else {
            u
        };
        let pu1 = if k < max_u {
            pu * 2
        } else {
            pu
        };
        let c2 = if k < max_u {
            c1 / 2
        } else {
            c1
        };
        spec_vita_uv(c2, k + 1, kmax, max_u, max_v, u1, v1, pu1, pv1)
    }
}

/// Compute the (u, v) pair for index `j` with `max_u` and `max_v` significant
/// bits.
fn vita_uv(j: u64, max_u: u32, max_v: u32) -> (r: (u64, u64))
    requires
        max_u <= 31,
        max_v <= 31,
    ensures
        ({
            let kmax = if max_u < max_v {
                max_v as int
            } else {
                max_u as int
            };
            (r.0 as int, r.1 as int) == spec_vita_uv(
                j as int,
                0,
                kmax,
                max_u as int,
                max_v as int,
                0,
                0,
                1,
                1,
            ) && r.0 < 0x100000000u64 && r.1 < 0x100000000u64
        }),
{
    let kmax: u32 = if max_u < max_v {
        max_v
    } else {
        max_u
    };
    let ghost km = kmax as int;
    proof {
        vstd::arithmetic::power2::lemma2_to64();
    }
    let mut u: u64 = 0;
    let mut v: u64 = 0;
    let mut pu: u64 = 1;
    let mut pv: u64 = 1;
    let mut coord: u64 = j;
    let mut k: u32 = 0;
    while k < kmax
        invariant
            k <= kmax,
            kmax <= 31,
            km == kmax as int,
            kmax == (if max_u < max_v { max_v } else { max_u }),
            max_u <= 31,
            max_v <= 31,
            pu >= 1,
            pv >= 1,
            u < pu,
            v < pv,
            pu <= 0x80000000u64,
            pv <= 0x80000000u64,
            (pu as int) <= vstd::arithmetic::power2::pow2(k as nat),
            (pv as int) <= vstd::arithmetic::power2::pow2(k as nat),
            spec_vita_uv(
                coord as int,
                k as int,
                km,
                max_u as int,
                max_v as int,
                u as int,
                v as int,
                pu as int,
                pv as int,
            ) == spec_vita_uv(j as int, 0, km, max_u as int, max_v as int, 0, 0, 1, 1),
        decreases kmax - k,
    {
        let ghost pc = coord as int;
        let ghost pk = k as int;
        let ghost p_u = u as int;
        let ghost p_v = v as int;
        let ghost p_pu = pu as int;
        let ghost p_pv = pv as int;
        proof {
            vstd::arithmetic::power2::lemma2_to64();
            vstd::arithmetic::power2::lemma_pow2_unfold((k + 1) as nat);
            vstd::arithmetic::power2::lemma_pow2_strictly_increases(k as nat, (k + 1) as nat);
            if k + 1 < 31 {
                vstd::arithmetic::power2::lemma_pow2_strictly_increases((k + 1) as nat, 31);
            }
        }
        if k < max_v {
            proof {
                assert((coord & 1) as int == (coord as int) % 2 && (coord >> 1) as int == (
                coord as int) / 2 && (coord & 1) <= 1) by (bit_vector);
                assert(((coord & 1) as u64) * pv <= pv) by (nonlinear_arith)
                    requires
                        ((coord & 1) as u64) <= 1,
                        pv >= 0,
                ;
            }
            v = v + ((coord & 1) as u64) * pv;
            pv = pv * 2;
            coord = coord >> 1;
        }
        if k < max_u {
            proof {
                assert((coord & 1) as int == (coord as int) % 2 && (coord >> 1) as int == (
                coord as int) / 2 && (coord & 1) <= 1) by (bit_vector);
                assert(((coord & 1) as u64) * pu <= pu) by (nonlinear_arith)
                    requires
                        ((coord & 1) as u64) <= 1,
                        pu >= 0,
                ;
            }
            u = u + ((coord & 1) as u64) * pu;
            pu = pu * 2;
            coord = coord >> 1;
        }
        proof {
            let mu = max_u as int;
            let mv = max_v as int;
            let v1 = if pk < mv { p_v + (pc % 2) * p_pv } else { p_v };
            let pv1 = if pk < mv { p_pv * 2 } else { p_pv };
            let c1 = if pk < mv { pc / 2 } else { pc };
            let u1 = if pk < mu { p_u + (c1 % 2) * p_pu } else { p_u };
            let pu1 = if pk < mu { p_pu * 2 } else { p_pu };
            let c2 = if pk < mu { c1 / 2 } else { c1 };
            assert(v as int == v1);
            assert(pv as int == pv1);
            assert(u as int == u1);
            assert(pu as int == pu1);
            assert(coord as int == c2);
            assert(spec_vita_uv(pc, pk, km, mu, mv, p_u, p_v, p_pu, p_pv) == spec_vita_uv(
                c2,
                pk + 1,
                km,
                mu,
                mv,
                u1,
                v1,
                pu1,
                pv1,
            )) by {
                reveal_with_fuel(spec_vita_uv, 2);
            }
        }
        k = k + 1;
    }
    (u, v)
}

/// The pixel traversal order of the Vita layout: index `j` maps to the pixel
/// at its de-interleaved (u, v), skipping coordinates beyond the image.
pub open spec fn spec_vita_entries(w: int, h: int, max_u: int, max_v: int, j: int) -> Seq<usize>
    decreases j,
{
    if j <= 0 {
        Seq::empty()
    } else {
        let prev = spec_vita_entries(w, h, max_u, max_v, j - 1);
        let kmax = if max_u < max_v {
            max_v
        } else {
            max_u
        };
        let uv = spec_vita_uv(j - 1, 0, kmax, max_u, max_v, 0, 0, 1, 1);
        if uv.0 < w && uv.1 < h {
            prev + seq![(uv.1 * w + uv.0) as usize]
        } else {
            prev
        }
    }
}

pub open spec fn spec_vita_order(w: int, h: int) -> Seq<usize> {
    spec_vita_entries(w, h, spec_log2(w), spec_log2(h), w * h)
}

/// The Vita layout serves 32-, 64- and 128-bit uncompressed formats.
pub open spec fn spec_vita_format(f: PixelFormat) -> bool {
    match f {
        PixelFormat::R8G8B8A8
        | PixelFormat::B8G8R8A8
        | PixelFormat::R16G16B16A16
        | PixelFormat::R32G32B32A32 => true,
        _ => false,
    }
}

fn is_supported_format(pixel_format: PixelFormat) -> (r: bool)
    ensures
        r == spec_vita_format(pixel_format),
{
    match pixel_format {
        PixelFormat::R8G8B8A8
        | PixelFormat::B8G8R8A8
        | PixelFormat::R16G16B16A16
        | PixelFormat::R32G32B32A32 => true,
        _ => false,
    }
}

/// Whether a Vita (de)swizzle succeeds: supported format, the de-interleaved
/// traversal is a permutation of the pixels (which requires power-of-two
/// sides), and the buffer holds every pixel.
pub open spec fn spec_vita_ok(f: PixelFormat, w: u32, h: u32, len: int) -> bool {
    let bs = spec_bytes_per_block(f);
    let n = (w as int) * (h as int);
    &&& spec_vita_format(f)
    &&& n <= usize::MAX
    &&& n * bs <= len
    &&& spec_valid_order(spec_vita_order(w as int, h as int), n)
}

pub open spec fn spec_vita_swizzled(f: PixelFormat, w: u32, h: u32, data: Seq<u8>) -> Seq<u8> {
    spec_gather(data, spec_vita_order(w as int, h as int), spec_bytes_per_block(f))
}

pub open spec fn spec_vita_deswizzled(f: PixelFormat, w: u32, h: u32, data: Seq<u8>) -> Seq<u8> {
    spec_scatter(
        data,
        spec_vita_order(w as int, h as int),
        (w as int) * (h as int),
        spec_bytes_per_block(f),
    )
}

/// Deswizzling a swizzled buffer restores it bit for bit, and conversely.
pub proof fn lemma_vita_round_trip(f: PixelFormat, w: u32, h: u32, data: Seq<u8>)
    requires
        spec_vita_ok(f, w, h, data.len() as int),
    ensures
        spec_vita_deswizzled(f, w, h, spec_vita_swizzled(f, w, h, data)) == data,
        spec_vita_swizzled(f, w, h, spec_vita_deswizzled(f, w, h, data)) == data,
{
    let bs = spec_bytes_per_block(f);
    let n = (w as int) * (h as int);
    let order = spec_vita_order(w as int, h as int);
    let inv = spec_invert(order, n);
    lemma_invert_props(order, n);
    lemma_gather_gather(data, order, inv, bs, n);
    lemma_gather_gather(data, inv, order, bs, n);
}

/// Swizzler interleaving the pixel coordinates' bits (Morton order) over
/// power-of-two sides.
pub struct PSVitaSwizzler;

impl PSVitaSwizzler {
    fn prepare(
        pixels: &[u8],
        width: u32,
        height: u32,
        pixel_format: PixelFormat,
    ) -> (r: Result<(Vec<usize>, usize), TexError>)
        ensures
            match r {
                Ok((order, bs)) => {
                    &&& spec_vita_ok(pixel_format, width, height, pixels@.len() as int)
                    &&& order@ == spec_vita_order(width as int, height as int)
                    &&& bs == spec_bytes_per_block(pixel_format)
                    &&& spec_valid_order(order@, order@.len() as int)
                    &&& order@.len() * bs <= pixels@.len()
                },
                Err(e) => !spec_vita_ok(pixel_format, width, height, pixels@.len() as int) && e
                    == TexError::UnsupportedOperation,
            },
    {
        if !is_supported_format(pixel_format) {
            return Err(TexError::UnsupportedOperation);
        }
        let bs: usize = pixel_format.get_bytes_per_block() as usize;
        proof {
            assert((width as int) * (height as int) <= 0xFFFFFFFFu64 * 0xFFFFFFFFu64 && (
            width as int) * (height as int) >= 0) by (nonlinear_arith)
                requires
                    0 <= (width as int) <= 0xFFFFFFFFu32,
                    0 <= (height as int) <= 0xFFFFFFFFu32,
            ;
        }
        let n64: u64 = (width as u64) * (height as u64);
        if n64 > usize::MAX as u64 {
            return Err(TexError::UnsupportedOperation);
        }
        let n: usize = n64 as usize;
        proof {
            assert((n64 as int) * (bs as int) <= 0xFFFFFFFFFFFFFFFFu128 * 0xFFFFFFFFu128 && (
            n64 as int) * (bs as int) >= 0) by (nonlinear_arith)
                requires
                    0 <= (n64 as int) <= 0xFFFFFFFFFFFFFFFFu64,
                    0 <= (bs as int) <= 0xFFFFFFFFusize,
            ;
        }
        let nbytes: u128 = (n64 as u128) * (bs as u128);
        if nbytes > pixels.len() as u128 {
            return Err(TexError::UnsupportedOperation);
        }
        let max_u = log2_floor(width);
        let max_v = log2_floor(height);
        let mut order: Vec<usize> = Vec::new();
        let mut j: u64 = 0;
        while j < n64
            invariant
                j <= n64,
                max_u == spec_log2(width as int),
                max_v == spec_log2(height as int),
                max_u <= 31,
                max_v <= 31,
                order@ == spec_vita_entries(
                    width as int,
                    height as int,
                    max_u as int,
                    max_v as int,
                    j as int,
                ),
            decreases n64 - j,
        {
            let (u, v) = vita_uv(j, max_u, max_v);
            if u < width as u64 && v < height as u64 {
                proof {
                    assert((v as int) * (width as int) + (u as int) < (height as int) * (
                    width as int) && (height as int) * (width as int) <= 0xFFFFFFFFu64
                        * 0xFFFFFFFFu64) by (nonlinear_arith)
                        requires
                            0 <= (u as int) < (width as int),
                            0 <= (v as int) < (height as int),
                            width <= 0xFFFFFFFFu32,
                            height <= 0xFFFFFFFFu32,
                    ;
                }
                let pos: u64 = v * (width as u64) + u;
                order.push(#[verifier::truncate] (pos as usize));
            }
            proof {
                assert(order@ == spec_vita_entries(
                    width as int,
                    height as int,
                    max_u as int,
                    max_v as int,
                    j as int + 1,
                ));
            }
            j = j + 1;
        }
        if !check_permutation(&order, n) {
            return Err(TexError::UnsupportedOperation);
        }
        Ok((order, bs))
    }
}

impl Swizzable for PSVitaSwizzler {
    fn swizzle(&self, pixels: &[u8], width: u32, height: u32, pixel_format: PixelFormat) -> (r:
        Result<Vec<u8>, TexError>)
        ensures
            match r {
                Ok(v) => spec_vita_ok(pixel_format, width, height, pixels@.len() as int) && v@
                    == spec_vita_swizzled(pixel_format, width, height, pixels@),
                Err(e) => !spec_vita_ok(pixel_format, width, height, pixels@.len() as int) && e
                    == TexError::UnsupportedOperation,
            },
    {
        let (order, bs) = Self::prepare(pixels, width, height, pixel_format)?;
        Ok(apply_gather(pixels, &order, bs))
    }

    fn deswizzle(&self, pixels: &[u8], width: u32, height: u32, pixel_format: PixelFormat) -> (r:
        Result<Vec<u8>, TexError>)
        ensures
            match r {
                Ok(v) => spec_vita_ok(pixel_format, width, height, pixels@.len() as int) && v@
                    == spec_vita_deswizzled(pixel_format, width, height, pixels@),
                Err(e) => !spec_vita_ok(pixel_format, width, height, pixels@.len() as int) && e
                    == TexError::UnsupportedOperation,
            },
    {
        let (order, bs) = Self::prepare(pixels, width, height, pixel_format)?;
        let n = order.len();
        let inv = invert_order(&order, n);
        proof {
            lemma_invert_props(order@, n as int);
        }
        Ok(apply_gather(pixels, &inv, bs))
    }

    fn get_platform(&self) -> (r: Platform)
        ensures
            r == Platform::PSVita,
    {
        Platform::PSVita
    }
}

} // verus!
