use vstd::prelude::*;

use crate::error::TexError;
use crate::graphics::pixel_format::{
    spec_is_compressed, ColorSpace, PixelDataType, PixelFormatInfo,
};
use crate::graphics::texture_utility::{
    spec_bake_of_image, spec_baked_image, spec_net_rotation, TextureEffects,
};

verus! {

/// A texture: metadata plus its ordered sequence of image planes.
pub struct Texture {
    pub metadata: TexMetadata,
    pub images: Vec<Image>,
}

/// One image plane and its raw bytes.
#[derive(Clone)]
pub struct Image {
    pub width: u32,
    pub height: u32,
    pub pixel_format_info: PixelFormatInfo,
    pub row_pitch: u32,
    pub slice_pitch: u32,
    pub pixels: Vec<u8>,
}

#[derive(Debug, Clone, Copy, PartialEq, Eq, Structural)]
pub struct TexMetadata {
    pub width: u32,
    pub height: u32,
    pub depth: u32,
    pub array_size: u32,
    pub mip_levels: u32,
    pub pixel_format_info: PixelFormatInfo,
    pub alpha_mode: u32,
    pub dimensions: TexDimension,
    pub is_cubemap: bool,
    pub is_volumemap: bool,
}

#[derive(Debug, Clone, Copy, PartialEq, Eq, Structural)]
pub enum TexDimension {
    Tex1D,
    Tex2D,
    Tex3D,
}

impl Default for TexDimension {
    fn default() -> (r: Self)
        ensures
            r == TexDimension::Tex2D,
    {
        TexDimension::Tex2D
    }
}

/// The D3D resource-dimension code of each dimension kind.
pub open spec fn spec_dimension_code(d: TexDimension) -> u32 {
    match d {
        TexDimension::Tex1D => 2,
        TexDimension::Tex2D => 3,
        TexDimension::Tex3D => 4,
    }
}

/// The dimension kind a D3D resource-dimension code maps back to; codes
/// outside the table fall back to 2D.
pub open spec fn spec_dimension_of_code(c: u32) -> TexDimension {
    if c == 2 {
        TexDimension::Tex1D
    } else if c == 4 {
        TexDimension::Tex3D
    } else {
        TexDimension::Tex2D
    }
}

/// Depth of mip level `mip` of a volume whose base depth is `depth`:
/// halved at every level and floored at one.
pub open spec fn spec_depth_at(depth: int, mip: int) -> int
    decreases mip,
{
    if mip <= 0 {
        if depth < 1 {
            1
        } else {
            depth
        }
    } else {
        let prev = spec_depth_at(depth, mip - 1);
        if prev > 1 {
            prev / 2
        } else {
            1
        }
    }
}

/// Total number of slices in all mip levels below `mip`.
pub open spec fn spec_sum_depths(depth: int, mip: int) -> int
    decreases mip,
{
    if mip <= 0 {
        0
    } else {
        spec_sum_depths(depth, mip - 1) + spec_depth_at(depth, mip - 1)
    }
}

/// The number of planes a texture with this metadata owns: array-item-major,
/// mip-minor for 1D and 2D textures, cumulative per-mip depths for volumes.
pub open spec fn spec_plane_count(meta: TexMetadata) -> int {
    match meta.dimensions {
        TexDimension::Tex3D => spec_sum_depths(meta.depth as int, meta.mip_levels as int),
        _ => (meta.array_size as int) * (meta.mip_levels as int),
    }
}

/// The flat plane index of (mip, item, slice) under this library's canonical
/// plane order: `item * mip_levels + mip` for 1D/2D textures and
/// `sum of earlier mip depths + slice` for volumes.
pub open spec fn spec_flat_index(meta: TexMetadata, mip: u32, item: u32, slice: u32) -> int {
    match meta.dimensions {
        TexDimension::Tex3D => spec_sum_depths(meta.depth as int, mip as int) + slice,
        _ => (item as int) * (meta.mip_levels as int) + mip,
    }
}

/// When a (mip, item, slice) lookup succeeds against a texture holding
/// `n_images` planes.
pub open spec fn spec_lookup_ok(
    meta: TexMetadata,
    mip: u32,
    item: u32,
    slice: u32,
    n_images: int,
) -> bool {
    &&& mip < meta.mip_levels
    &&& match meta.dimensions {
        TexDimension::Tex3D => item == 0 && slice < spec_depth_at(meta.depth as int, mip as int),
        _ => slice == 0 && item < meta.array_size,
    }
    &&& spec_flat_index(meta, mip, item, slice) < n_images
}

pub proof fn lemma_depth_at_bounds(depth: int, mip: int)
    requires
        mip >= 0,
    ensures
        1 <= spec_depth_at(depth, mip) <= spec_depth_at(depth, 0),
    decreases mip,
{
    if mip > 0 {
        lemma_depth_at_bounds(depth, mip - 1);
    }
}

/// The cumulative depth count is bounded by `mip` copies of the base depth.
pub proof fn lemma_sum_depths_bound(depth: int, mip: int)
    requires
        mip >= 0,
    ensures
        0 <= spec_sum_depths(depth, mip) <= mip * spec_depth_at(depth, 0),
    decreases mip,
{
    if mip > 0 {
        lemma_sum_depths_bound(depth, mip - 1);
        lemma_depth_at_bounds(depth, mip - 1);
        assert(mip * spec_depth_at(depth, 0) == (mip - 1) * spec_depth_at(depth, 0)
            + spec_depth_at(depth, 0)) by (nonlinear_arith);
    } else {
        assert(mip * spec_depth_at(depth, 0) == 0) by (nonlinear_arith)
            requires
                mip == 0,
        ;
    }
}

impl Texture {
    /// Creates a new, empty texture.
    pub fn new() -> (r: Self)
        ensures
            r.metadata.width == 0,
            r.metadata.height == 0,
            r.metadata.depth == 0,
            r.metadata.array_size == 0,
            r.metadata.mip_levels == 0,
            r.metadata.alpha_mode == 0,
            r.metadata.dimensions == TexDimension::Tex2D,
            !r.metadata.is_cubemap,
            !r.metadata.is_volumemap,
            r.images@.len() == 0,
    {
        Self {
            metadata: TexMetadata {
                width: 0,
                height: 0,
                depth: 0,
                array_size: 0,
                mip_levels: 0,
                pixel_format_info: PixelFormatInfo::default(),
                alpha_mode: 0,
                dimensions: TexDimension::Tex2D,
                is_cubemap: false,
                is_volumemap: false,
            },
            images: Vec::new(),
        }
    }

    /// Look one plane up by mip level, array item and volume slice.
    /// Succeeds exactly on indices inside the bounds of §the canonical plane
    /// order, returning the plane at the flat index that order assigns.
    pub fn get_image(&self, mip: u32, item: u32, slice: u32) -> (r: Result<&Image, TexError>)
        ensures
            match r {
                Ok(img) => spec_lookup_ok(self.metadata, mip, item, slice, self.images@.len() as int)
                    && *img == self.images@[spec_flat_index(self.metadata, mip, item, slice)],
                Err(e) => !spec_lookup_ok(
                    self.metadata,
                    mip,
                    item,
                    slice,
                    self.images@.len() as int,
                ) && e == TexError::IndexOutOfRange,
            },
    {
        if mip >= self.metadata.mip_levels {
            return Err(TexError::IndexOutOfRange);
        }
        match self.metadata.dimensions {
            TexDimension::Tex1D | TexDimension::Tex2D => {
                if slice > 0 {
                    return Err(TexError::IndexOutOfRange);
                }
                if item >= self.metadata.array_size {
                    return Err(TexError::IndexOutOfRange);
                }
                let item64: u64 = item as u64;
                let mips64: u64 = self.metadata.mip_levels as u64;
                proof {
                    assert(item64 * mips64 <= 0xFFFFFFFFu64 * 0xFFFFFFFFu64) by (nonlinear_arith)
                        requires
                            item64 <= 0xFFFFFFFFu64,
                            mips64 <= 0xFFFFFFFFu64,
                    ;
                }
                let flat: u64 = item64 * mips64 + (mip as u64);
                if flat < self.images.len() as u64 {
                    Ok(&self.images[flat as usize])
                } else {
                    Err(TexError::IndexOutOfRange)
                }
            },
            TexDimension::Tex3D => {
                if item > 0 {
                    return Err(TexError::IndexOutOfRange);
                }
                let ghost depth0 = self.metadata.depth as int;
                let dmax: u64 = if self.metadata.depth < 1 {
                    1
                } else {
                    self.metadata.depth as u64
                };
                let mut index: u64 = 0;
                let mut dm: u64 = dmax;
                let mut m: u32 = 0;
                proof {
                    lemma_depth_at_bounds(depth0, 0);
                }
                while m < mip
                    invariant
                        m <= mip,
                        mip < self.metadata.mip_levels,
                        dmax == spec_depth_at(depth0, 0),
                        dmax <= 0xFFFFFFFFu64,
                        dm == spec_depth_at(depth0, m as int),
                        index == spec_sum_depths(depth0, m as int),
                        index <= (m as int) * (dmax as int),
                    decreases mip - m,
                {
                    proof {
                        lemma_depth_at_bounds(depth0, m as int);
                        assert((m as int + 1) * (dmax as int) <= 0xFFFFFFFFu64 * 0xFFFFFFFFu64)
                            by (nonlinear_arith)
                            requires
                                m < 0xFFFFFFFFu32,
                                dmax <= 0xFFFFFFFFu64,
                        ;
                        assert((m as int + 1) * (dmax as int) == (m as int) * (dmax as int)
                            + dmax as int) by (nonlinear_arith);
                    }
                    index = index + dm;
                    if dm > 1 {
                        dm = dm / 2;
                    } else {
                        dm = 1;
                    }
                    m = m + 1;
                }
                proof {
                    lemma_depth_at_bounds(depth0, mip as int);
                    assert((mip as int) * (dmax as int) <= 0xFFFFFFFFu64 * 0xFFFFFFFFu64)
                        by (nonlinear_arith)
                        requires
                            mip <= 0xFFFFFFFFu32,
                            dmax <= 0xFFFFFFFFu64,
                    ;
                }
                if (slice as u64) >= dm {
                    return Err(TexError::IndexOutOfRange);
                }
                let flat: u64 = index + (slice as u64);
                if flat < self.images.len() as u64 {
                    Ok(&self.images[flat as usize])
                } else {
                    Err(TexError::IndexOutOfRange)
                }
            },
        }
    }

    /// The (width, height, bytes) of one plane, or an empty result where the
    /// lookup is out of range.
    pub fn get_rgba8_data(&self, level: u32, layer: u32, slice: u32) -> (r: (u32, u32, Vec<u8>))
        ensures
            ({
                let ok = spec_lookup_ok(
                    self.metadata,
                    level,
                    layer,
                    slice,
                    self.images@.len() as int,
                );
                let img = self.images@[spec_flat_index(self.metadata, level, layer, slice)];
                if ok {
                    r.0 == img.width && r.1 == img.height && r.2@ == img.pixels@
                } else {
                    r.0 == 0 && r.1 == 0 && r.2@.len() == 0
                }
            }),
    {
        match self.get_image(level, layer, slice) {
            Ok(image_data) => {
                let mut pixels: Vec<u8> = Vec::new();
                pixels.extend_from_slice(image_data.pixels.as_slice());
                proof {
                    assert(pixels@ =~= image_data.pixels@);
                }
                (image_data.width, image_data.height, pixels)
            },
            Err(_) => (0, 0, Vec::new()),
        }
    }

    /// Whether the texture's own pixel format is block-compressed.
    pub fn is_compressed(&self) -> (r: bool)
        ensures
            r == spec_is_compressed(self.metadata.pixel_format_info.pixel_format),
    {
        self.metadata.pixel_format_info.pixel_format.is_compressed()
    }
}

/// The metadata of a transformed texture: the descriptor reflects the target
/// format, and width and height swap when the net rotation is odd.
pub open spec fn spec_transformed_metadata(meta: TexMetadata, eff: TextureEffects) -> TexMetadata {
    let rot = spec_net_rotation(eff);
    TexMetadata {
        width: if rot % 2 == 1 {
            meta.height
        } else {
            meta.width
        },
        height: if rot % 2 == 1 {
            meta.width
        } else {
            meta.height
        },
        pixel_format_info: PixelFormatInfo {
            pixel_format: eff.pixel_format,
            pixel_data_type: PixelDataType::UNorm,
            color_space: ColorSpace::Linear,
            is_premultiplied: false,
        },
        ..meta
    }
}

/// `t` is the texture the transform produces from `src` under `eff`: the
/// rebuilt metadata and every plane baked per the pipeline.
pub open spec fn spec_transformed_texture(src: Texture, eff: TextureEffects, t: Texture) -> bool {
    &&& t.metadata == spec_transformed_metadata(src.metadata, eff)
    &&& t.images@.len() == src.images@.len()
    &&& forall|i: int|
        0 <= i < src.images@.len() ==> spec_baked_image(eff, src.images@[i], #[trigger] t.images@[i])
}

/// `e` is the error of the first plane whose bake fails under `eff`.
pub open spec fn spec_transform_first_err(src: Texture, eff: TextureEffects, e: TexError) -> bool {
    exists|i: int|
        0 <= i < src.images@.len() && (#[trigger] spec_bake_of_image(eff, src.images@[i])) is Err
            && e == spec_bake_of_image(eff, src.images@[i])->Err_0 && (forall|j: int|
            0 <= j < i ==> (#[trigger] spec_bake_of_image(eff, src.images@[j])) is Ok)
}

impl Texture {
    /// Apply the effects to every plane and produce a new texture for
    /// saving. The pipeline per plane is deswizzle, decode, process, encode,
    /// swizzle; the first failing plane's error aborts the whole call.
    pub fn new_transformed_texture(&self, effects: &TextureEffects) -> (r: Result<
        Texture,
        TexError,
    >)
        ensures
            match r {
                Ok(t) => spec_transformed_texture(*self, *effects, t),
                Err(e) => spec_transform_first_err(*self, *effects, e),
            },
    {
        let net: u32 = ((effects.rotate_90_left_count % 4) + 4 - (effects.rotate_90_right_count
            % 4)) % 4;
        let (new_w, new_h) = if net % 2 == 1 {
            (self.metadata.height, self.metadata.width)
        } else {
            (self.metadata.width, self.metadata.height)
        };
        let metadata = TexMetadata {
            width: new_w,
            height: new_h,
            pixel_format_info: PixelFormatInfo {
                pixel_format: effects.pixel_format,
                pixel_data_type: PixelDataType::UNorm,
                color_space: ColorSpace::Linear,
                is_premultiplied: false,
            },
            ..self.metadata
        };
        let mut new_images: Vec<Image> = Vec::new();
        let n = self.images.len();
        let mut i: usize = 0;
        while i < n
            invariant
                i <= n,
                n == self.images@.len(),
                new_images@.len() == i,
                forall|j: int|
                    0 <= j < i ==> spec_baked_image(
                        *effects,
                        self.images@[j],
                        #[trigger] new_images@[j],
                    ),
                forall|j: int|
                    0 <= j < i ==> (#[trigger] spec_bake_of_image(*effects, self.images@[j])) is Ok,
            decreases n - i,
        {
            match effects.get_transformed_pixels(&self.images[i]) {
                Ok(img) => {
                    new_images.push(img);
                },
                Err(e) => {
                    return Err(e);
                },
            }
            i = i + 1;
        }
        Ok(Texture { metadata, images: new_images })
    }
}

} // verus!
