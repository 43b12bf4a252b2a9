use vstd::prelude::*;

use crate::codecs::ImageCodec;
use crate::error::TexError;
use crate::graphics::crate_directxtex_utility::{
    push_u32le, spec_code_is_srgb, spec_datatype_of, spec_dxgi_code, spec_format_of_code,
    spec_u32le, DirectXTexUtility,
};
use crate::graphics::pixel_decoders::spec_le32;
use crate::graphics::pixel_format::{
    spec_row_pitch, spec_slice_pitch, ColorSpace, PixelDataType, PixelFormat, PixelFormatInfo,
};
use crate::graphics::texture::{
    spec_depth_at, spec_dimension_code, spec_dimension_of_code, Image, TexDimension, TexMetadata,
    Texture,
};

verus! {

/// Little-endian bytes of a word list.
pub open spec fn spec_words_bytes(ws: Seq<u32>) -> Seq<u8>
    decreases ws.len(),
{
    if ws.len() == 0 {
        Seq::empty()
    } else {
        spec_words_bytes(ws.drop_last()) + spec_u32le(ws.last())
    }
}

pub proof fn lemma_words_bytes_len(ws: Seq<u32>)
    ensures
        spec_words_bytes(ws).len() == 4 * ws.len(),
    decreases ws.len(),
{
    if ws.len() > 0 {
        lemma_words_bytes_len(ws.drop_last());
    }
}

/// Reading a 32-bit word back out of a serialized word list, at any word
/// offset and under any appended payload, yields the word written.
pub proof fn lemma_read_word(ws: Seq<u32>, rest: Seq<u8>, k: int)
    requires
        0 <= k < ws.len(),
    ensures
        spec_le32(spec_words_bytes(ws) + rest, 4 * k) == ws[k],
    decreases ws.len(),
{
    lemma_words_bytes_len(ws);
    lemma_words_bytes_len(ws.drop_last());
    let v = ws.last();
    if k == ws.len() - 1 {
        let all = spec_words_bytes(ws) + rest;
        assert(all[4 * k] == spec_u32le(v)[0]);
        assert(all[4 * k + 1] == spec_u32le(v)[1]);
        assert(all[4 * k + 2] == spec_u32le(v)[2]);
        assert(all[4 * k + 3] == spec_u32le(v)[3]);
        assert(((((v & 0xFF) as u8) as u32) | (((((v >> 8) & 0xFF) as u8) as u32) << 8) | (((((v
            >> 16) & 0xFF) as u8) as u32) << 16) | (((((v >> 24) & 0xFF) as u8) as u32) << 24))
            == v) by (bit_vector);
        assert(spec_le32(all, 4 * k) == v);
    } else {
        assert(spec_words_bytes(ws) + rest =~= spec_words_bytes(ws.drop_last()) + (spec_u32le(v)
            + rest));
        lemma_read_word(ws.drop_last(), spec_u32le(v) + rest, k);
        assert(ws.drop_last()[k] == ws[k]);
    }
}

/// The 37 words of this library's DDS header: magic, the legacy descriptor
/// with a `DX10` four-character code, and the DX10 extension carrying the
/// format code, dimension kind, cubemap flag, array size and alpha mode.
pub open spec fn spec_dds_words(meta: TexMetadata) -> Seq<u32> {
    seq![
        0x20534444u32,
        124u32,
        0x1007u32,
        meta.height,
        meta.width,
        0u32,
        meta.depth,
        meta.mip_levels,
        0u32,
        0u32,
        0u32,
        0u32,
        0u32,
        0u32,
        0u32,
        0u32,
        0u32,
        0u32,
        0u32,
        32u32,
        4u32,
        0x30315844u32,
        0u32,
        0u32,
        0u32,
        0u32,
        0u32,
        0x1000u32,
        0u32,
        0u32,
        0u32,
        0u32,
        spec_dxgi_code(meta.pixel_format_info.pixel_format),
        spec_dimension_code(meta.dimensions),
        if meta.is_cubemap {
            4u32
        } else {
            0u32
        },
        meta.array_size,
        meta.alpha_mode,
    ]
}

/// The dimensions of every plane of a texture in the canonical order:
/// array-item-major, mip-minor for 1D/2D textures; per-mip slice runs for
/// volumes.
pub open spec fn spec_mip_chain(w: u32, h: u32, mips: int) -> Seq<(u32, u32)>
    decreases mips,
{
    if mips <= 0 {
        Seq::empty()
    } else {
        spec_mip_chain(w, h, mips - 1) + seq![
            (
                spec_depth_at(w as int, mips - 1) as u32,
                spec_depth_at(h as int, mips - 1) as u32,
            ),
        ]
    }
}

pub open spec fn spec_chain_items(w: u32, h: u32, mips: int, items: int) -> Seq<(u32, u32)>
    decreases items,
{
    if items <= 0 {
        Seq::empty()
    } else {
        spec_chain_items(w, h, mips, items - 1) + spec_mip_chain(w, h, mips)
    }
}

pub open spec fn spec_repeat_dim(d: (u32, u32), n: int) -> Seq<(u32, u32)>
    decreases n,
{
    if n <= 0 {
        Seq::empty()
    } else {
        spec_repeat_dim(d, n - 1) + seq![d]
    }
}

pub open spec fn spec_vol_chain(w: u32, h: u32, depth: u32, mips: int) -> Seq<(u32, u32)>
    decreases mips,
{
    if mips <= 0 {
        Seq::empty()
    } else {
        spec_vol_chain(w, h, depth, mips - 1) + spec_repeat_dim(
            (spec_depth_at(w as int, mips - 1) as u32, spec_depth_at(h as int, mips - 1) as u32),
            spec_depth_at(depth as int, mips - 1),
        )
    }
}

pub open spec fn spec_plane_dims(meta: TexMetadata) -> Seq<(u32, u32)> {
    match meta.dimensions {
        TexDimension::Tex3D => spec_vol_chain(
            meta.width,
            meta.height,
            meta.depth,
            meta.mip_levels as int,
        ),
        _ => spec_chain_items(
            meta.width,
            meta.height,
            meta.mip_levels as int,
            meta.array_size as int,
        ),
    }
}

/// Total bytes of the first `k` planes under format `f`.
pub open spec fn spec_sizes_prefix(f: PixelFormat, dims: Seq<(u32, u32)>, k: int) -> int
    decreases k,
{
    if k <= 0 {
        0
    } else {
        spec_sizes_prefix(f, dims, k - 1) + spec_slice_pitch(
            f,
            dims[k - 1].0 as int,
            dims[k - 1].1 as int,
        )
    }
}

/// The pixel payload of a plane list.
pub open spec fn spec_images_bytes(images: Seq<Image>) -> Seq<u8>
    decreases images.len(),
{
    if images.len() == 0 {
        Seq::empty()
    } else {
        spec_images_bytes(images.drop_last()) + images.last().pixels@
    }
}

/// The full DDS file this codec writes.
pub open spec fn spec_dds_bytes(meta: TexMetadata, images: Seq<Image>) -> Seq<u8> {
    spec_words_bytes(spec_dds_words(meta)) + spec_images_bytes(images)
}

/// The metadata descriptor is canonical for its format: the data type and
/// color space are the ones the format tables assign, with straight alpha.
pub open spec fn spec_meta_canonical(meta: TexMetadata) -> bool {
    &&& spec_dxgi_code(meta.pixel_format_info.pixel_format) != 0
    &&& meta.pixel_format_info.pixel_data_type == spec_datatype_of(
        meta.pixel_format_info.pixel_format,
    )
    &&& meta.pixel_format_info.color_space == ColorSpace::Linear
    &&& !meta.pixel_format_info.is_premultiplied
    &&& meta.is_volumemap == (meta.dimensions == TexDimension::Tex3D)
}

/// The metadata parsed out of the first 148 bytes of a DDS file written in
/// this library's layout, `None` where the header structure does not match.
pub open spec fn spec_parse_dds_meta(bytes: Seq<u8>) -> Option<TexMetadata> {
    if bytes.len() >= 148 && spec_le32(bytes, 0) == 0x20534444 && spec_le32(bytes, 4) == 124
        && spec_le32(bytes, 76) == 32 && spec_le32(bytes, 80) == 4 && spec_le32(bytes, 84)
        == 0x30315844 {
        let code = spec_le32(bytes, 128);
        let fmt = spec_format_of_code(code);
        let rd = spec_le32(bytes, 132);
        Option::Some(
            TexMetadata {
                width: spec_le32(bytes, 16),
                height: spec_le32(bytes, 12),
                depth: spec_le32(bytes, 24),
                array_size: spec_le32(bytes, 140),
                mip_levels: spec_le32(bytes, 28),
                pixel_format_info: PixelFormatInfo {
                    pixel_format: fmt,
                    pixel_data_type: spec_datatype_of(fmt),
                    color_space: if spec_code_is_srgb(code) {
                        ColorSpace::SRGB
                    } else {
                        ColorSpace::Linear
                    },
                    is_premultiplied: false,
                },
                alpha_mode: spec_le32(bytes, 144),
                dimensions: spec_dimension_of_code(rd),
                is_cubemap: spec_le32(bytes, 136) & 4 == 4,
                is_volumemap: spec_dimension_of_code(rd) == TexDimension::Tex3D,
            },
        )
    } else {
        Option::None
    }
}

/// A texture is writable as DDS when its descriptor is canonical and its
/// planes follow the canonical order with exact mip dimensions and pitches
/// that fit the 32-bit plane model.
pub open spec fn spec_dds_savable(meta: TexMetadata, images: Seq<Image>) -> bool {
    let dims = spec_plane_dims(meta);
    &&& spec_meta_canonical(meta)
    &&& images.len() == dims.len()
    &&& forall|k: int|
        0 <= k < dims.len() ==> {
            let d = #[trigger] dims[k];
            &&& images[k].width == d.0
            &&& images[k].height == d.1
            &&& spec_slice_pitch(meta.pixel_format_info.pixel_format, d.0 as int, d.1 as int)
                <= u32::MAX
            &&& images[k].pixels@.len() == spec_slice_pitch(
                meta.pixel_format_info.pixel_format,
                d.0 as int,
                d.1 as int,
            )
        }
}

/// Read the little-endian 32-bit word at byte offset `off`.
pub fn read_u32le(data: &[u8], off: usize) -> (r: u32)
    requires
        off + 4 <= data@.len(),
    ensures
        r == spec_le32(data@, off as int),
{
    (data[off] as u32) | ((data[off + 1] as u32) << 8) | ((data[off + 2] as u32) << 16) | ((data[off
        + 3] as u32) << 24)
}

/// Copy `data[start .. end]` into a fresh buffer.
pub fn subrange_vec(data: &[u8], start: usize, end: usize) -> (out: Vec<u8>)
    requires
        start <= end <= data@.len(),
    ensures
        out@ == data@.subrange(start as int, end as int),
{
    let mut out: Vec<u8> = Vec::new();
    let mut i: usize = start;
    while i < end
        invariant
            start <= i <= end <= data@.len(),
            out@.len() == i - start,
            forall|j: int| 0 <= j < out@.len() ==> out@[j] == data@[start + j],
        decreases end - i,
    {
        out.push(data[i]);
        i = i + 1;
    }
    proof {
        assert(out@ =~= data@.subrange(start as int, end as int));
    }
    out
}

proof fn lemma_mip_chain_len(w: u32, h: u32, mips: int)
    requires
        mips >= 0,
    ensures
        spec_mip_chain(w, h, mips).len() == mips,
    decreases mips,
{
    if mips > 0 {
        lemma_mip_chain_len(w, h, mips - 1);
    }
}

proof fn lemma_chain_items_len(w: u32, h: u32, mips: int, items: int)
    requires
        mips >= 0,
        items >= 0,
    ensures
        spec_chain_items(w, h, mips, items).len() == items * mips,
    decreases items,
{
    if items > 0 {
        lemma_chain_items_len(w, h, mips, items - 1);
        lemma_mip_chain_len(w, h, mips);
        assert(items * mips == (items - 1) * mips + mips) by (nonlinear_arith);
    } else {
        assert(items * mips == 0) by (nonlinear_arith)
            requires
                items == 0,
        ;
    }
}

proof fn lemma_repeat_len(d: (u32, u32), n: int)
    requires
        n >= 0,
    ensures
        spec_repeat_dim(d, n).len() == n,
    decreases n,
{
    if n > 0 {
        lemma_repeat_len(d, n - 1);
    }
}

proof fn lemma_vol_chain_len(w: u32, h: u32, depth: u32, mips: int)
    requires
        mips >= 0,
    ensures
        spec_vol_chain(w, h, depth, mips).len() == spec_depth_sum(depth, mips),
    decreases mips,
{
    if mips > 0 {
        lemma_vol_chain_len(w, h, depth, mips - 1);
        crate::graphics::texture::lemma_depth_at_bounds(depth as int, mips - 1);
        lemma_repeat_len(
            (spec_depth_at(w as int, mips - 1) as u32, spec_depth_at(h as int, mips - 1) as u32),
            spec_depth_at(depth as int, mips - 1),
        );
    }
}

/// Abbreviation for the cumulative per-mip depth count.
pub open spec fn spec_depth_sum(depth: u32, mips: int) -> int {
    crate::graphics::texture::spec_sum_depths(depth as int, mips)
}

/// The canonical dimension list is one entry per plane: its length is the
/// texture data model's plane count.
pub proof fn lemma_plane_dims_count(meta: TexMetadata)
    ensures
        spec_plane_dims(meta).len() == crate::graphics::texture::spec_plane_count(meta),
{
    match meta.dimensions {
        TexDimension::Tex3D => {
            lemma_vol_chain_len(meta.width, meta.height, meta.depth, meta.mip_levels as int);
        },
        _ => {
            lemma_chain_items_len(
                meta.width,
                meta.height,
                meta.mip_levels as int,
                meta.array_size as int,
            );
        },
    }
}

/// Every pitch is non-negative.
pub proof fn lemma_pitch_nonneg(f: PixelFormat, w: int, h: int)
    requires
        w >= 0,
        h >= 0,
    ensures
        spec_row_pitch(f, w) >= 0,
        spec_slice_pitch(f, w, h) >= 0,
{
    assert(crate::graphics::pixel_format::spec_bits_per_pixel(f) >= 0);
    assert(crate::graphics::pixel_format::spec_bytes_per_block(f) >= 0);
    let bw = (w + 3) / 4;
    let bwc = if bw < 1 {
        1
    } else {
        bw
    };
    assert(bwc * crate::graphics::pixel_format::spec_bytes_per_block(f) >= 0) by (nonlinear_arith)
        requires
            bwc >= 0,
            crate::graphics::pixel_format::spec_bytes_per_block(f) >= 0,
    ;
    assert(crate::graphics::pixel_format::spec_bits_per_pixel(f) * w >= 0) by (nonlinear_arith)
        requires
            crate::graphics::pixel_format::spec_bits_per_pixel(f) >= 0,
            w >= 0,
    ;
    let bh = (h + 3) / 4;
    let bhc = if bh < 1 {
        1
    } else {
        bh
    };
    assert(bhc * spec_row_pitch(f, w) >= 0 && spec_row_pitch(f, w) * h >= 0) by (nonlinear_arith)
        requires
            bhc >= 0,
            h >= 0,
            spec_row_pitch(f, w) >= 0,
    ;
}

/// Cumulative plane sizes only grow.
pub proof fn lemma_sizes_prefix_monotone(f: PixelFormat, dims: Seq<(u32, u32)>, k1: int, k2: int)
    requires
        0 <= k1 <= k2 <= dims.len(),
    ensures
        spec_sizes_prefix(f, dims, k1) <= spec_sizes_prefix(f, dims, k2),
    decreases k2 - k1,
{
    if k1 < k2 {
        lemma_sizes_prefix_monotone(f, dims, k1, k2 - 1);
        lemma_pitch_nonneg(f, dims[k2 - 1].0 as int, dims[k2 - 1].1 as int);
    }
}

/// Build the canonical plane dimension list of a texture.
fn build_plane_dims(meta: &TexMetadata) -> (r: Result<Vec<(u32, u32)>, TexError>)
    ensures
        match r {
            Ok(v) => v@ == spec_plane_dims(*meta),
            Err(e) => spec_plane_dims(*meta).len() > usize::MAX && e
                == TexError::UnsupportedOperation,
        },
{
    let w = meta.width;
    let h = meta.height;
    let mips = meta.mip_levels;
    let mut dims: Vec<(u32, u32)> = Vec::new();
    match meta.dimensions {
        TexDimension::Tex3D => {
            proof {
                lemma_vol_chain_len(w, h, meta.depth, mips as int);
            }
            let mut total: u128 = 0;
            let mut dm: u64 = if meta.depth < 1 {
                1
            } else {
                meta.depth as u64
            };
            let mut m: u32 = 0;
            while m < mips
                invariant
                    m <= mips,
                    dm == spec_depth_at(meta.depth as int, m as int),
                    total == spec_depth_sum(meta.depth, m as int),
                    total <= 0x10000000000000000u128,
                decreases mips - m,
            {
                proof {
                    crate::graphics::texture::lemma_depth_at_bounds(meta.depth as int, m as int);
                    crate::graphics::texture::lemma_sum_depths_bound(
                        meta.depth as int,
                        m as int + 1,
                    );
                    assert((m as int + 1) * spec_depth_at(meta.depth as int, 0)
                        <= 0x10000000000000000int) by (nonlinear_arith)
                        requires
                            0 <= (m as int) < 0x100000000int,
                            0 <= spec_depth_at(meta.depth as int, 0) <= 0x100000000int,
                    ;
                }
                total = total + (dm as u128);
                if dm > 1 {
                    dm = dm / 2;
                } else {
                    dm = 1;
                }
                m = m + 1;
            }
            if total > usize::MAX as u128 {
                return Err(TexError::UnsupportedOperation);
            }
            let mut cw: u32 = if w < 1 {
                1
            } else {
                w
            };
            let mut ch: u32 = if h < 1 {
                1
            } else {
                h
            };
            let mut dm2: u64 = if meta.depth < 1 {
                1
            } else {
                meta.depth as u64
            };
            let mut m2: u32 = 0;
            while m2 < mips
                invariant
                    m2 <= mips,
                    cw == spec_depth_at(w as int, m2 as int),
                    ch == spec_depth_at(h as int, m2 as int),
                    dm2 == spec_depth_at(meta.depth as int, m2 as int),
                    dims@ == spec_vol_chain(w, h, meta.depth, m2 as int),
                decreases mips - m2,
            {
                let mut s: u64 = 0;
                while s < dm2
                    invariant
                        s <= dm2,
                        cw == spec_depth_at(w as int, m2 as int),
                        ch == spec_depth_at(h as int, m2 as int),
                        dm2 == spec_depth_at(meta.depth as int, m2 as int),
                        m2 < mips,
                        dims@ == spec_vol_chain(w, h, meta.depth, m2 as int) + spec_repeat_dim(
                            (cw, ch),
                            s as int,
                        ),
                    decreases dm2 - s,
                {
                    dims.push((cw, ch));
                    proof {
                        assert(dims@ == spec_vol_chain(w, h, meta.depth, m2 as int)
                            + spec_repeat_dim((cw, ch), s as int + 1));
                    }
                    s = s + 1;
                }
                proof {
                    assert(dims@ == spec_vol_chain(w, h, meta.depth, m2 as int + 1));
                }
                if cw > 1 {
                    cw = cw / 2;
                } else {
                    cw = 1;
                }
                if ch > 1 {
                    ch = ch / 2;
                } else {
                    ch = 1;
                }
                if dm2 > 1 {
                    dm2 = dm2 / 2;
                } else {
                    dm2 = 1;
                }
                m2 = m2 + 1;
            }
            Ok(dims)
        },
        _ => {
            let items = meta.array_size;
            proof {
                lemma_chain_items_len(w, h, mips as int, items as int);
                assert((items as int) * (mips as int) <= 0xFFFFFFFFu64 * 0xFFFFFFFFu64 && (
                items as int) * (mips as int) >= 0) by (nonlinear_arith)
                    requires
                        0 <= (items as int) <= 0xFFFFFFFFu32,
                        0 <= (mips as int) <= 0xFFFFFFFFu32,
                ;
            }
            let n64: u64 = (items as u64) * (mips as u64);
            if n64 > usize::MAX as u64 {
                return Err(TexError::UnsupportedOperation);
            }
            let mut item: u32 = 0;
            while item < items
                invariant
                    item <= items,
                    dims@ == spec_chain_items(w, h, mips as int, item as int),
                decreases items - item,
            {
                let mut cw: u32 = if w < 1 {
                    1
                } else {
                    w
                };
                let mut ch: u32 = if h < 1 {
                    1
                } else {
                    h
                };
                let mut m: u32 = 0;
                while m < mips
                    invariant
                        m <= mips,
                        item < items,
                        cw == spec_depth_at(w as int, m as int),
                        ch == spec_depth_at(h as int, m as int),
                        dims@ == spec_chain_items(w, h, mips as int, item as int) + spec_mip_chain(
                            w,
                            h,
                            m as int,
                        ),
                    decreases mips - m,
                {
                    dims.push((cw, ch));
                    proof {
                        assert(dims@ == spec_chain_items(w, h, mips as int, item as int)
                            + spec_mip_chain(w, h, m as int + 1));
                    }
                    if cw > 1 {
                        cw = cw / 2;
                    } else {
                        cw = 1;
                    }
                    if ch > 1 {
                        ch = ch / 2;
                    } else {
                        ch = 1;
                    }
                    m = m + 1;
                }
                proof {
                    assert(dims@ == spec_chain_items(w, h, mips as int, item as int + 1));
                }
                item = item + 1;
            }
            Ok(dims)
        },
    }
}

/// Whether every plane's pitches fit the 32-bit plane model.
pub open spec fn spec_dims_fit(f: PixelFormat, dims: Seq<(u32, u32)>) -> bool {
    forall|k: int|
        0 <= k < dims.len() ==> {
            let d = #[trigger] dims[k];
            spec_row_pitch(f, d.0 as int) <= u32::MAX && spec_slice_pitch(
                f,
                d.0 as int,
                d.1 as int,
            ) <= u32::MAX
        }
}

/// The first `k` planes of `images` are exactly the canonical slices of the
/// payload of `src`: dimensions from the mip chain, pitches from the pitch
/// math, and bytes from the cumulative offsets past the 148-byte header.
pub open spec fn spec_planes_sliced(
    images: Seq<Image>,
    dims: Seq<(u32, u32)>,
    info: PixelFormatInfo,
    src: Seq<u8>,
    k: int,
) -> bool {
    forall|j: int|
        0 <= j < k ==> {
            let d = #[trigger] dims[j];
            let off = 148 + spec_sizes_prefix(info.pixel_format, dims, j);
            let sz = spec_slice_pitch(info.pixel_format, d.0 as int, d.1 as int);
            &&& images[j].width == d.0
            &&& images[j].height == d.1
            &&& images[j].pixel_format_info == info
            &&& images[j].row_pitch == spec_row_pitch(info.pixel_format, d.0 as int)
            &&& images[j].slice_pitch == sz
            &&& images[j].pixels@ == src.subrange(off, off + sz)
        }
}

/// How a DDS load relates its result to the source bytes.
pub open spec fn spec_dds_load_rel(source: Seq<u8>, r: Result<Texture, TexError>) -> bool {
    let m = spec_parse_dds_meta(source);
    match r {
        Result::Ok(t) => {
            let meta = m->0;
            let dims = spec_plane_dims(meta);
            let f = meta.pixel_format_info.pixel_format;
            &&& m is Some
            &&& t.metadata == meta
            &&& dims.len() <= usize::MAX
            &&& spec_dims_fit(f, dims)
            &&& 148 + spec_sizes_prefix(f, dims, dims.len() as int) <= source.len()
            &&& t.images@.len() == dims.len()
            &&& spec_planes_sliced(t.images@, dims, meta.pixel_format_info, source, dims.len() as int)
        },
        Result::Err(e) => {
            if m is None {
                e == TexError::MalformedFile
            } else {
                let meta = m->0;
                let dims = spec_plane_dims(meta);
                let f = meta.pixel_format_info.pixel_format;
                if dims.len() > usize::MAX || !spec_dims_fit(f, dims) {
                    e == TexError::UnsupportedOperation
                } else {
                    148 + spec_sizes_prefix(f, dims, dims.len() as int) > source.len() && e
                        == TexError::MalformedFile
                }
            }
        },
    }
}

/// How a DDS save relates its result to the texture.
pub open spec fn spec_dds_save_rel(tex: Texture, r: Result<Vec<u8>, TexError>) -> bool {
    match r {
        Result::Ok(v) => spec_dds_savable(tex.metadata, tex.images@) && v@ == spec_dds_bytes(
            tex.metadata,
            tex.images@,
        ),
        Result::Err(e) => !spec_dds_savable(tex.metadata, tex.images@) && e
            == TexError::UnsupportedOperation,
    }
}

/// This library's DDS container codec: a DX10-style header of its own plus
/// the planes in canonical order.
#[derive(Clone, Copy)]
pub struct DDSCodec;

impl DDSCodec {
    /// Serialize the 37 header words.
    fn write_header(meta: &TexMetadata, code: u32, out: &mut Vec<u8>)
        requires
            code == spec_dxgi_code(meta.pixel_format_info.pixel_format),
            old(out)@.len() == 0,
        ensures
            final(out)@ == spec_words_bytes(spec_dds_words(*meta)),
    {
        let mut words: Vec<u32> = Vec::new();
        words.push(0x20534444);
        words.push(124);
        words.push(0x1007);
        words.push(meta.height);
        words.push(meta.width);
        words.push(0);
        words.push(meta.depth);
        words.push(meta.mip_levels);
        words.push(0);
        words.push(0);
        words.push(0);
        words.push(0);
        words.push(0);
        words.push(0);
        words.push(0);
        words.push(0);
        words.push(0);
        words.push(0);
        words.push(0);
        words.push(32);
        words.push(4);
        words.push(0x30315844);
        words.push(0);
        words.push(0);
        words.push(0);
        words.push(0);
        words.push(0);
        words.push(0x1000);
        words.push(0);
        words.push(0);
        words.push(0);
        words.push(0);
        words.push(code);
        words.push(DirectXTexUtility::get_texture_dimension(meta.dimensions));
        words.push(
            if meta.is_cubemap {
                4
            } else {
                0
            },
        );
        words.push(meta.array_size);
        words.push(meta.alpha_mode);
        proof {
            assert(words@ =~= spec_dds_words(*meta));
        }
        let n = words.len();
        let mut i: usize = 0;
        while i < n
            invariant
                i <= n,
                n == words@.len(),
                words@ == spec_dds_words(*meta),
                out@ == spec_words_bytes(words@.take(i as int)),
            decreases n - i,
        {
            push_u32le(out, words[i]);
            proof {
                assert(words@.take(i as int + 1).drop_last() =~= words@.take(i as int));
                assert(words@.take(i as int + 1).last() == words@[i as int]);
            }
            i = i + 1;
        }
        proof {
            assert(words@.take(n as int) =~= words@);
        }
    }
}

impl ImageCodec for DDSCodec {
    /// Write the texture as a DDS file: succeeds exactly on textures whose
    /// descriptor is canonical and whose planes follow the canonical order.
    #[verifier::rlimit(100)]
    fn save_to_memory(&self, texture: &Texture) -> (r: Result<Vec<u8>, TexError>)
        ensures
            spec_dds_save_rel(*texture, r),
    {
        let meta = &texture.metadata;
        let f = meta.pixel_format_info.pixel_format;
        let code = DirectXTexUtility::get_dxgi_format_from_pixel_format(f);
        if code == 0 {
            return Err(TexError::UnsupportedOperation);
        }
        if meta.pixel_format_info.pixel_data_type
            != DirectXTexUtility::get_pixel_format_datatype_from_image(f) {
            return Err(TexError::UnsupportedOperation);
        }
        if !matches!(meta.pixel_format_info.color_space, ColorSpace::Linear) {
            return Err(TexError::UnsupportedOperation);
        }
        if meta.pixel_format_info.is_premultiplied {
            return Err(TexError::UnsupportedOperation);
        }
        let is_vol = matches!(meta.dimensions, TexDimension::Tex3D);
        if meta.is_volumemap != is_vol {
            return Err(TexError::UnsupportedOperation);
        }
        let n_imgs = texture.images.len();
        let dims = match build_plane_dims(meta) {
            Ok(v) => v,
            Err(_) => {
                return Err(TexError::UnsupportedOperation);
            },
        };
        if texture.images.len() != dims.len() {
            return Err(TexError::UnsupportedOperation);
        }
        let n = dims.len();
        let mut k: usize = 0;
        while k < n
            invariant
                k <= n,
                n == dims@.len(),
                n == texture.images@.len(),
                dims@ == spec_plane_dims(texture.metadata),
                f == texture.metadata.pixel_format_info.pixel_format,
                forall|j: int|
                    0 <= j < k ==> {
                        let d = #[trigger] dims@[j];
                        &&& texture.images@[j].width == d.0
                        &&& texture.images@[j].height == d.1
                        &&& spec_slice_pitch(f, d.0 as int, d.1 as int) <= u32::MAX
                        &&& texture.images@[j].pixels@.len() == spec_slice_pitch(
                            f,
                            d.0 as int,
                            d.1 as int,
                        )
                    },
            decreases n - k,
        {
            let (dw, dh) = dims[k];
            let img = &texture.images[k];
            if img.width != dw || img.height != dh {
                return Err(TexError::UnsupportedOperation);
            }
            let sp = match f.try_slice_pitch(dw, dh) {
                Some(p) => p,
                None => {
                    return Err(TexError::UnsupportedOperation);
                },
            };
            if img.pixels.len() as u64 != sp as u64 {
                return Err(TexError::UnsupportedOperation);
            }
            k = k + 1;
        }
        let mut out: Vec<u8> = Vec::new();
        Self::write_header(meta, code, &mut out);
        let ghost header = out@;
        let mut k2: usize = 0;
        while k2 < n
            invariant
                k2 <= n,
                n == texture.images@.len(),
                header == spec_words_bytes(spec_dds_words(texture.metadata)),
                out@ == header + spec_images_bytes(texture.images@.take(k2 as int)),
            decreases n - k2,
        {
            out.extend_from_slice(texture.images[k2].pixels.as_slice());
            proof {
                assert(texture.images@.take(k2 as int + 1).drop_last() =~= texture.images@.take(
                    k2 as int,
                ));
                assert(out@ =~= header + spec_images_bytes(texture.images@.take(k2 as int + 1)));
            }
            k2 = k2 + 1;
        }
        proof {
            assert(texture.images@.take(n as int) =~= texture.images@);
        }
        Ok(out)
    }

    /// Parse a DDS file written in this library's layout: the header fields
    /// become the metadata and the payload is sliced into planes along the
    /// canonical order and the pitch math.
    #[verifier::rlimit(100)]
    fn load_from_memory(&self, source: &[u8]) -> (r: Result<Texture, TexError>)
        ensures
            spec_dds_load_rel(source@, r),
    {
        if source.len() < 148 {
            return Err(TexError::MalformedFile);
        }
        if read_u32le(source, 0) != 0x20534444 || read_u32le(source, 4) != 124 || read_u32le(
            source,
            76,
        ) != 32 || read_u32le(source, 80) != 4 || read_u32le(source, 84) != 0x30315844 {
            return Err(TexError::MalformedFile);
        }
        let code = read_u32le(source, 128);
        let rd = read_u32le(source, 132);
        let dimensions = DirectXTexUtility::get_texture_dimension_from_directxtex(rd);
        let fmt = DirectXTexUtility::get_pixel_format_from_image(code);
        let meta = TexMetadata {
            width: read_u32le(source, 16),
            height: read_u32le(source, 12),
            depth: read_u32le(source, 24),
            array_size: read_u32le(source, 140),
            mip_levels: read_u32le(source, 28),
            pixel_format_info: DirectXTexUtility::get_pixel_format_info_from_image(code),
            alpha_mode: read_u32le(source, 144),
            dimensions,
            is_cubemap: read_u32le(source, 136) & 4 == 4,
            is_volumemap: matches!(dimensions, TexDimension::Tex3D),
        };
        proof {
            assert(spec_parse_dds_meta(source@) == Option::Some(meta));
        }
        let dims = match build_plane_dims(&meta) {
            Ok(v) => v,
            Err(_) => {
                return Err(TexError::UnsupportedOperation);
            },
        };
        let f = meta.pixel_format_info.pixel_format;
        let n = dims.len();
        let mut k: usize = 0;
        while k < n
            invariant
                k <= n,
                n == dims@.len(),
                dims@ == spec_plane_dims(meta),
                f == meta.pixel_format_info.pixel_format,
                spec_parse_dds_meta(source@) == Option::Some(meta),
                forall|j: int|
                    0 <= j < k ==> {
                        let d = #[trigger] dims@[j];
                        spec_row_pitch(f, d.0 as int) <= u32::MAX && spec_slice_pitch(
                            f,
                            d.0 as int,
                            d.1 as int,
                        ) <= u32::MAX
                    },
            decreases n - k,
        {
            let (dw, dh) = dims[k];
            proof {
                assert(dw == dims@[k as int].0 && dh == dims@[k as int].1);
            }
            if f.try_row_pitch(dw).is_none() || f.try_slice_pitch(dw, dh).is_none() {
                proof {
                    if spec_dims_fit(f, dims@) {
                        assert(spec_row_pitch(f, dims@[k as int].0 as int) <= u32::MAX
                            && spec_slice_pitch(
                            f,
                            dims@[k as int].0 as int,
                            dims@[k as int].1 as int,
                        ) <= u32::MAX);
                    }
                }
                return Err(TexError::UnsupportedOperation);
            }
            k = k + 1;
        }
        let mut images: Vec<Image> = Vec::new();
        let mut cursor: usize = 148;
        let mut k2: usize = 0;
        while k2 < n
            invariant
                k2 <= n,
                n == dims@.len(),
                dims@ == spec_plane_dims(meta),
                f == meta.pixel_format_info.pixel_format,
                spec_parse_dds_meta(source@) == Option::Some(meta),
                spec_dims_fit(f, dims@),
                cursor == 148 + spec_sizes_prefix(f, dims@, k2 as int),
                cursor <= source@.len(),
                images@.len() == k2,
                spec_planes_sliced(images@, dims@, meta.pixel_format_info, source@, k2 as int),
            decreases n - k2,
        {
            let (dw, dh) = dims[k2];
            proof {
                assert(dw == dims@[k2 as int].0 && dh == dims@[k2 as int].1);
                assert(spec_row_pitch(f, dims@[k2 as int].0 as int) <= u32::MAX
                    && spec_slice_pitch(
                    f,
                    dims@[k2 as int].0 as int,
                    dims@[k2 as int].1 as int,
                ) <= u32::MAX);
            }
            let row_pitch = match f.try_row_pitch(dw) {
                Some(p) => p,
                None => {
                    proof {
                        assert(false);
                    }
                    return Err(TexError::UnsupportedOperation);
                },
            };
            let slice_pitch = match f.try_slice_pitch(dw, dh) {
                Some(p) => p,
                None => {
                    proof {
                        assert(false);
                    }
                    return Err(TexError::UnsupportedOperation);
                },
            };
            if (cursor as u128) + (slice_pitch as u128) > source.len() as u128 {
                proof {
                    assert(spec_sizes_prefix(f, dims@, k2 as int + 1) == spec_sizes_prefix(
                        f,
                        dims@,
                        k2 as int,
                    ) + spec_slice_pitch(f, dims@[k2 as int].0 as int, dims@[k2 as int].1 as int));
                    lemma_sizes_prefix_monotone(f, dims@, k2 as int + 1, n as int);
                }
                return Err(TexError::MalformedFile);
            }
            proof {
                assert(spec_sizes_prefix(f, dims@, k2 as int + 1) == spec_sizes_prefix(
                    f,
                    dims@,
                    k2 as int,
                ) + spec_slice_pitch(f, dims@[k2 as int].0 as int, dims@[k2 as int].1 as int));
            }
            let end: usize = cursor + (slice_pitch as usize);
            let pixels = subrange_vec(source, cursor, end);
            let ghost gpix = pixels@;
            let ghost pre_imgs = images@;
            images.push(
                Image {
                    width: dw,
                    height: dh,
                    pixel_format_info: meta.pixel_format_info,
                    row_pitch,
                    slice_pitch,
                    pixels,
                },
            );
            proof {
                assert(images@[k2 as int].width == dw);
                assert(images@[k2 as int].height == dh);
                assert(images@[k2 as int].pixel_format_info == meta.pixel_format_info);
                assert(images@[k2 as int].row_pitch == row_pitch);
                assert(images@[k2 as int].slice_pitch == slice_pitch);
                assert(images@[k2 as int].pixels@ == gpix);
                assert(gpix == source@.subrange(cursor as int, end as int));
                assert(dw == dims@[k2 as int].0 && dh == dims@[k2 as int].1);
                assert(images@[k2 as int].width == dims@[k2 as int].0);
                assert(images@[k2 as int].height == dims@[k2 as int].1);
                assert(images@[k2 as int].row_pitch == spec_row_pitch(
                    f,
                    dims@[k2 as int].0 as int,
                ));
                assert(images@[k2 as int].slice_pitch == spec_slice_pitch(
                    f,
                    dims@[k2 as int].0 as int,
                    dims@[k2 as int].1 as int,
                ));
                assert(end as int == 148 + spec_sizes_prefix(f, dims@, k2 as int)
                    + spec_slice_pitch(f, dims@[k2 as int].0 as int, dims@[k2 as int].1 as int));
                assert(images@[k2 as int].pixels@ == source@.subrange(
                    148 + spec_sizes_prefix(f, dims@, k2 as int),
                    148 + spec_sizes_prefix(f, dims@, k2 as int) + spec_slice_pitch(
                        f,
                        dims@[k2 as int].0 as int,
                        dims@[k2 as int].1 as int,
                    ),
                ));
                assert(spec_planes_sliced(
                    images@,
                    dims@,
                    meta.pixel_format_info,
                    source@,
                    k2 as int + 1,
                )) by {
                    assert forall|j: int| 0 <= j < k2 as int + 1 implies {
                        let d = #[trigger] dims@[j];
                        let off = 148 + spec_sizes_prefix(
                            meta.pixel_format_info.pixel_format,
                            dims@,
                            j,
                        );
                        let sz = spec_slice_pitch(
                            meta.pixel_format_info.pixel_format,
                            d.0 as int,
                            d.1 as int,
                        );
                        &&& images@[j].width == d.0
                        &&& images@[j].height == d.1
                        &&& images@[j].pixel_format_info == meta.pixel_format_info
                        &&& images@[j].row_pitch == spec_row_pitch(
                            meta.pixel_format_info.pixel_format,
                            d.0 as int,
                        )
                        &&& images@[j].slice_pitch == sz
                        &&& images@[j].pixels@ == source@.subrange(off, off + sz)
                    } by {
                        if j < k2 as int {
                            assert(spec_planes_sliced(
                                pre_imgs,
                                dims@,
                                meta.pixel_format_info,
                                source@,
                                k2 as int,
                            ));
                            assert(pre_imgs[j].width == dims@[j].0);
                            assert(images@[j] == pre_imgs[j]);
                        } else {
                            assert(j == k2 as int);
                            assert(images@[j].width == dims@[j].0);
                            assert(images@[j].height == dims@[j].1);
                            assert(images@[j].pixel_format_info == meta.pixel_format_info);
                            assert(images@[j].row_pitch == spec_row_pitch(
                                meta.pixel_format_info.pixel_format,
                                dims@[j].0 as int,
                            ));
                            assert(images@[j].slice_pitch == spec_slice_pitch(
                                meta.pixel_format_info.pixel_format,
                                dims@[j].0 as int,
                                dims@[j].1 as int,
                            ));
                            assert(images@[j].pixels@ == source@.subrange(
                                148 + spec_sizes_prefix(
                                    meta.pixel_format_info.pixel_format,
                                    dims@,
                                    j,
                                ),
                                148 + spec_sizes_prefix(
                                    meta.pixel_format_info.pixel_format,
                                    dims@,
                                    j,
                                ) + spec_slice_pitch(
                                    meta.pixel_format_info.pixel_format,
                                    dims@[j].0 as int,
                                    dims@[j].1 as int,
                                ),
                            ));
                        }
                    }
                }
            }
            cursor = end;
            k2 = k2 + 1;
        }
        Ok(Texture { metadata: meta, images })
    }

    fn supported_extensions(&self) -> (r: Vec<&'static str>)
        ensures
            r@.len() == 1,
            r@[0]@ == "dds"@,
    {
        let mut v: Vec<&'static str> = Vec::new();
        v.push("dds");
        v
    }
}

/// Law: a texture written by this codec parses back with exactly the same
/// metadata — width, height, depth, array size, mip levels, format tag,
/// cubemap and volume flags and dimension kind all round-trip.
pub proof fn lemma_dds_metadata_round_trip(meta: TexMetadata, images: Seq<Image>)
    requires
        spec_dds_savable(meta, images),
    ensures
        spec_parse_dds_meta(spec_dds_bytes(meta, images)) == Option::Some(meta),
{
    let ws = spec_dds_words(meta);
    let payload = spec_images_bytes(images);
    let bytes = spec_dds_bytes(meta, images);
    lemma_words_bytes_len(ws);
    assert(ws.len() == 37);
    assert(bytes == spec_words_bytes(ws) + payload);
    lemma_read_word(ws, payload, 0);
    lemma_read_word(ws, payload, 1);
    lemma_read_word(ws, payload, 3);
    lemma_read_word(ws, payload, 4);
    lemma_read_word(ws, payload, 6);
    lemma_read_word(ws, payload, 7);
    lemma_read_word(ws, payload, 19);
    lemma_read_word(ws, payload, 20);
    lemma_read_word(ws, payload, 21);
    lemma_read_word(ws, payload, 32);
    lemma_read_word(ws, payload, 33);
    lemma_read_word(ws, payload, 34);
    lemma_read_word(ws, payload, 35);
    lemma_read_word(ws, payload, 36);
    let f = meta.pixel_format_info.pixel_format;
    assert(spec_format_of_code(spec_dxgi_code(f)) == f);
    assert(!spec_code_is_srgb(spec_dxgi_code(f)));
    assert(spec_dimension_of_code(spec_dimension_code(meta.dimensions)) == meta.dimensions);
    if meta.is_cubemap {
        assert(4u32 & 4 == 4) by (bit_vector);
    } else {
        assert(0u32 & 4 == 0) by (bit_vector);
    }
    assert(spec_parse_dds_meta(bytes)->0 =~= meta);
}

} // verus!
